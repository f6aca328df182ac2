//! Decimal rendering of integers, shared by the catalog-ID codec, the FITS
//! card builder and the CSV row assembly.

use vstd::prelude::*;

verus! {

/// Decimal digit values of `n`, most significant first; never empty, and the
/// leading digit is zero only for `n == 0`.
pub open spec fn digit_vals(n: nat) -> Seq<u8>
    decreases n,
{
    if n < 10 {
        seq![n as u8]
    } else {
        digit_vals(n / 10).push((n % 10) as u8)
    }
}

/// The ASCII character for one digit value.
pub open spec fn digit_char(d: u8) -> char {
    ((48 + d) as u8) as char
}

/// Digit values rendered as characters.
pub open spec fn digit_chars(s: Seq<u8>) -> Seq<char> {
    s.map_values(|d: u8| digit_char(d))
}

/// The decimal text of `n`.
pub open spec fn decimal_text(n: nat) -> Seq<char> {
    digit_chars(digit_vals(n))
}

pub proof fn lemma_digit_vals_bounds(n: nat)
    ensures
        digit_vals(n).len() >= 1,
        forall|i: int| 0 <= i < digit_vals(n).len() ==> digit_vals(n)[i] < 10,
        n > 0 ==> digit_vals(n)[0] > 0,
    decreases n,
{
    if n >= 10 {
        lemma_digit_vals_bounds(n / 10);
    }
}

/// Append the digit values of `n`, most significant first.
fn push_digit_vals(v: &mut Vec<u8>, n: u64)
    ensures
        final(v)@ == old(v)@ + digit_vals(n as nat),
    decreases n,
{
    if n >= 10 {
        push_digit_vals(v, n / 10);
        let d: u8 = (n % 10) as u8;
        v.push(d);
        proof {
            assert(v@ =~= old(v)@ + digit_vals(n as nat));
        }
    } else {
        let d: u8 = n as u8;
        v.push(d);
        proof {
            assert(v@ =~= old(v)@ + digit_vals(n as nat));
        }
    }
}

/// The decimal digit values of `n`, most significant first.
pub fn u64_digit_vals(n: u64) -> (v: Vec<u8>)
    ensures
        v@ == digit_vals(n as nat),
        v@.len() >= 1,
        forall|i: int| 0 <= i < v@.len() ==> v@[i] < 10,
{
    let mut v: Vec<u8> = Vec::new();
    push_digit_vals(&mut v, n);
    proof {
        assert(v@ =~= digit_vals(n as nat));
        lemma_digit_vals_bounds(n as nat);
    }
    v
}

/// Relies on `String::push`: appends exactly the given character.
#[verifier::external_body]
pub fn push_char(s: &mut String, c: char)
    ensures
        final(s)@ == old(s)@.push(c),
{
    s.push(c);
}

/// Append the characters for the digit values `v[from..to]`.
pub fn push_digit_chars(s: &mut String, v: &Vec<u8>, from: usize, to: usize)
    requires
        from <= to <= v@.len(),
        forall|i: int| 0 <= i < v@.len() ==> v@[i] < 10,
    ensures
        final(s)@ == old(s)@ + digit_chars(v@.subrange(from as int, to as int)),
{
    let mut i: usize = from;
    proof {
        assert(s@ =~= old(s)@ + digit_chars(v@.subrange(from as int, from as int)));
    }
    while i < to
        invariant
            from <= i <= to <= v@.len(),
            forall|k: int| 0 <= k < v@.len() ==> v@[k] < 10,
            s@ == old(s)@ + digit_chars(v@.subrange(from as int, i as int)),
        decreases to - i,
    {
        let d: u8 = v[i];
        let c: char = (48 + d) as char;
        push_char(s, c);
        i = i + 1;
        proof {
            assert(v@.subrange(from as int, i as int) =~= v@.subrange(
                from as int,
                i as int - 1,
            ).push(v@[i as int - 1]));
            assert(s@ =~= old(s)@ + digit_chars(v@.subrange(from as int, i as int)));
        }
    }
}

/// Append the decimal text of `n`.
pub fn push_u64_decimal(s: &mut String, n: u64)
    ensures
        final(s)@ == old(s)@ + decimal_text(n as nat),
{
    let v = u64_digit_vals(n);
    push_digit_chars(s, &v, 0, v.len());
    proof {
        assert(v@.subrange(0, v@.len() as int) =~= v@);
    }
}

/// The decimal text of `n` as a fresh string.
pub fn u64_to_decimal(n: u64) -> (r: String)
    ensures
        r@ == decimal_text(n as nat),
{
    let mut s = String::new();
    push_u64_decimal(&mut s, n);
    proof {
        assert(Seq::<char>::empty() + decimal_text(n as nat) =~= decimal_text(n as nat));
    }
    s
}

/// The decimal text of a signed value: a minus sign for negatives, then the
/// digits of the magnitude.
pub open spec fn signed_decimal_text(n: int) -> Seq<char> {
    if n < 0 {
        seq!['-'] + decimal_text((-n) as nat)
    } else {
        decimal_text(n as nat)
    }
}

/// Append the decimal text of the signed value `n`.
pub fn push_i64_decimal(s: &mut String, n: i64)
    requires
        n > i64::MIN,
    ensures
        final(s)@ == old(s)@ + signed_decimal_text(n as int),
{
    if n < 0 {
        push_char(s, '-');
        push_u64_decimal(s, (-n) as u64);
        proof {
            assert(old(s)@.push('-') + decimal_text((-n) as nat) =~= old(s)@ + signed_decimal_text(
                n as int,
            ));
        }
    } else {
        push_u64_decimal(s, n as u64);
    }
}

/// The decimal text of a signed value as a fresh string.
pub fn i64_to_decimal(n: i64) -> (r: String)
    requires
        n > i64::MIN,
    ensures
        r@ == signed_decimal_text(n as int),
{
    let mut s = String::new();
    push_i64_decimal(&mut s, n);
    proof {
        assert(Seq::<char>::empty() + signed_decimal_text(n as int) =~= signed_decimal_text(
            n as int,
        ));
    }
    s
}

/// Text of a non-negative milli-unit value: the whole part, a point, and
/// exactly three fractional digits.
pub open spec fn milli_mag_text(a: int) -> Seq<char> {
    decimal_text((a / 1000) as nat) + seq![
        '.',
        digit_char(((a / 100) % 10) as u8),
        digit_char(((a / 10) % 10) as u8),
        digit_char((a % 10) as u8),
    ]
}

/// Text of a milli-unit value: a minus sign for negatives, then the
/// magnitude with three fractional digits.
pub open spec fn milli_text(v: int) -> Seq<char> {
    if v < 0 {
        seq!['-'] + milli_mag_text(-v)
    } else {
        milli_mag_text(v)
    }
}

/// Append the decimal text of a milli-unit value.
pub fn push_milli_decimal(s: &mut String, v: i64)
    requires
        v > i64::MIN,
    ensures
        final(s)@ == old(s)@ + milli_text(v as int),
{
    let a: u64 = if v < 0 {
        push_char(s, '-');
        (-v) as u64
    } else {
        v as u64
    };
    push_u64_decimal(s, a / 1000);
    push_char(s, '.');
    push_char(s, (48 + ((a / 100) % 10) as u8) as char);
    push_char(s, (48 + ((a / 10) % 10) as u8) as char);
    push_char(s, (48 + (a % 10) as u8) as char);
    proof {
        if v < 0 {
            assert(s@ =~= old(s)@ + milli_text(v as int));
        } else {
            assert(s@ =~= old(s)@ + milli_text(v as int));
        }
    }
}

/// The decimal text of a milli-unit value as a fresh string.
pub fn milli_to_decimal(v: i64) -> (r: String)
    requires
        v > i64::MIN,
    ensures
        r@ == milli_text(v as int),
{
    let mut s = String::new();
    push_milli_decimal(&mut s, v);
    proof {
        assert(Seq::<char>::empty() + milli_text(v as int) =~= milli_text(v as int));
    }
    s
}

} // verus!
