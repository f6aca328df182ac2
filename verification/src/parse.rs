//! Verified parsing of the small numeric formats the services read: plain
//! decimal integers from coverage CSV fields and catalog attributes, and
//! fixed-point degree values in micro-degree units.

use vstd::prelude::*;

verus! {

/// Every byte is an ASCII digit.
pub open spec fn all_digits(s: Seq<u8>) -> bool {
    forall|i: int| 0 <= i < s.len() ==> 48 <= (#[trigger] s[i]) <= 57
}

/// The value of a digit string, most significant first.
pub open spec fn digits_value(s: Seq<u8>) -> int
    decreases s.len(),
{
    if s.len() == 0 {
        0
    } else {
        digits_value(s.drop_last()) * 10 + (s.last() - 48)
    }
}

/// Ten to the power `i`.
pub open spec fn p10(i: int) -> int
    decreases i,
{
    if i <= 0 {
        1
    } else {
        10 * p10(i - 1)
    }
}

proof fn lemma_p10_pos(i: int)
    ensures
        p10(i) >= 1,
    decreases i,
{
    if i > 0 {
        lemma_p10_pos(i - 1);
    }
}

proof fn lemma_digits_value_bound(s: Seq<u8>)
    requires
        all_digits(s),
    ensures
        0 <= digits_value(s) < p10(s.len() as int),
    decreases s.len(),
{
    if s.len() > 0 {
        assert(all_digits(s.drop_last()));
        lemma_digits_value_bound(s.drop_last());
    }
}

/// The position of the first occurrence of `b`, or -1 when absent.
pub open spec fn find_byte(s: Seq<u8>, b: u8) -> int
    decreases s.len(),
{
    if s.len() == 0 {
        -1
    } else if s[0] == b {
        0
    } else {
        let r = find_byte(s.skip(1), b);
        if r < 0 {
            -1
        } else {
            r + 1
        }
    }
}

/// `find_byte` is exactly the first-occurrence characterization.
pub proof fn lemma_find_byte(s: Seq<u8>, b: u8)
    ensures
        find_byte(s, b) == -1 ==> forall|j: int| 0 <= j < s.len() ==> s[j] != b,
        find_byte(s, b) >= 0 ==> find_byte(s, b) < s.len() && s[find_byte(s, b)] == b && (forall|
            j: int,
        | 0 <= j < find_byte(s, b) ==> s[j] != b),
    decreases s.len(),
{
    if s.len() > 0 && s[0] != b {
        lemma_find_byte(s.skip(1), b);
        let r = find_byte(s.skip(1), b);
        if r >= 0 {
            assert(s[r + 1] == s.skip(1)[r]);
            assert forall|j: int| 0 <= j < r + 1 implies s[j] != b by {
                if j > 0 {
                    assert(s[j] == s.skip(1)[j - 1]);
                }
            }
        } else {
            assert forall|j: int| 0 <= j < s.len() implies s[j] != b by {
                if j > 0 {
                    assert(s[j] == s.skip(1)[j - 1]);
                }
            }
        }
    }
}

/// Find the first occurrence of a byte in `s` at or after `from`.
pub fn find_byte_from(s: &Vec<u8>, b: u8, from: usize) -> (r: Option<usize>)
    requires
        from <= s@.len(),
    ensures
        match r {
            Some(i) => from <= i < s@.len() && s@[i as int] == b && (forall|j: int|
                from <= j < i ==> s@[j] != b) && find_byte(s@.skip(from as int), b) == i - from,
            None => (forall|j: int| from <= j < s@.len() ==> s@[j] != b) && find_byte(
                s@.skip(from as int),
                b,
            ) == -1,
        },
{
    let n = s.len();
    let mut i: usize = from;
    while i < n
        invariant
            from <= i <= n,
            n == s@.len(),
            forall|j: int| from <= j < i ==> s@[j] != b,
        decreases n - i,
    {
        if s[i] == b {
            proof {
                lemma_find_byte(s@.skip(from as int), b);
                assert(s@.skip(from as int)[i - from] == s@[i as int]);
                assert forall|j: int| 0 <= j < i - from implies s@.skip(from as int)[j] != b by {
                    assert(s@.skip(from as int)[j] == s@[from + j]);
                }
                if find_byte(s@.skip(from as int), b) != i - from {
                    let f = find_byte(s@.skip(from as int), b);
                    if 0 <= f < i - from {
                        assert(s@[from + f] == s@.skip(from as int)[f]);
                    }
                }
            }
            return Some(i);
        }
        i = i + 1;
    }
    proof {
        lemma_find_byte(s@.skip(from as int), b);
        assert forall|j: int| from <= j < s@.len() implies s@[j] != b by {
            assert(s@[j] == s@.skip(from as int)[j - from]);
        }
        let f = find_byte(s@.skip(from as int), b);
        if f >= 0 {
            assert(s@[from + f] == s@.skip(from as int)[f]);
        }
    }
    None
}

/// The value of the digit substring `s[from..to]`; fails verification-side
/// bounds nowhere for up to 18 digits.
pub fn parse_digits(s: &Vec<u8>, from: usize, to: usize) -> (r: u64)
    requires
        from <= to <= s@.len(),
        to - from <= 18,
        all_digits(s@.subrange(from as int, to as int)),
    ensures
        r == digits_value(s@.subrange(from as int, to as int)),
{
    let mut acc: u64 = 0;
    let mut i: usize = from;
    proof {
        assert(s@.subrange(from as int, from as int) =~= Seq::<u8>::empty());
    }
    while i < to
        invariant
            from <= i <= to <= s@.len(),
            to - from <= 18,
            all_digits(s@.subrange(from as int, to as int)),
            acc == digits_value(s@.subrange(from as int, i as int)),
            acc < p10((i - from) as int),
        decreases to - i,
    {
        proof {
            assert(s@.subrange(from as int, i as int + 1).drop_last() =~= s@.subrange(
                from as int,
                i as int,
            ));
            assert(s@.subrange(from as int, i as int + 1).last() == s@[i as int]);
            assert(s@.subrange(from as int, to as int)[i - from] == s@[i as int]);
            lemma_p10_le((i - from) as int, 17);
            reveal_with_fuel(p10, 19);
            assert(p10(17) == 100_000_000_000_000_000);
        }
        let d = s[i];
        acc = acc * 10 + ((d - 48) as u64);
        i = i + 1;
    }
    acc
}

proof fn lemma_p10_mul(a: int, b: int)
    requires
        a >= 0,
        b >= 0,
    ensures
        p10(a) * p10(b) == p10(a + b),
    decreases a,
{
    if a > 0 {
        lemma_p10_mul(a - 1, b);
        assert(p10(a) * p10(b) == 10 * (p10(a - 1) * p10(b))) by (nonlinear_arith)
            requires
                p10(a) == 10 * p10(a - 1),
        ;
    }
}

/// Concrete powers of ten used for digit-count bounds.
pub proof fn lemma_p10_values()
    ensures
        p10(12) == 1_000_000_000_000,
        p10(20) == 100_000_000_000_000_000_000,
{
    reveal_with_fuel(p10, 22);
}

proof fn lemma_p10_le(a: int, b: int)
    requires
        a <= b,
    ensures
        p10(a) <= p10(b),
    decreases b,
{
    if a < b && b > 0 {
        lemma_p10_le(a, b - 1);
        lemma_p10_pos(b - 1);
    }
}

/// What parsing a small signed integer yields: an optional sign, one to
/// eight digits, value within the signed byte range.
pub open spec fn spec_parse_i8(s: Seq<u8>) -> Option<i8> {
    let neg = s.len() > 0 && s[0] == 45;
    let body = if s.len() > 0 && (s[0] == 45 || s[0] == 43) {
        s.skip(1)
    } else {
        s
    };
    if 1 <= body.len() <= 8 && all_digits(body) {
        let v = if neg {
            -digits_value(body)
        } else {
            digits_value(body)
        };
        if -128 <= v <= 127 {
            Some(v as i8)
        } else {
            None
        }
    } else {
        None
    }
}

/// Parse a small signed integer such as a solution or exposure number.
#[verifier::loop_isolation(false)]
pub fn parse_i8_bytes(s: &Vec<u8>) -> (r: Option<i8>)
    ensures
        r == spec_parse_i8(s@),
{
    let n = s.len();
    let neg = n > 0 && s[0] == 45;
    let start: usize = if n > 0 && (s[0] == 45 || s[0] == 43) {
        1
    } else {
        0
    };
    proof {
        assert(s@.skip(start as int) =~= if start == 1 {
            s@.skip(1)
        } else {
            s@
        });
    }
    if n - start < 1 || n - start > 8 {
        return None;
    }
    let mut i: usize = start;
    while i < n
        invariant
            start <= i <= n,
            n == s@.len(),
            forall|j: int| start <= j < i ==> 48 <= (#[trigger] s@[j]) <= 57,
        decreases n - i,
    {
        if s[i] < 48 || s[i] > 57 {
            proof {
                assert(s@.skip(start as int)[i - start] == s@[i as int]);
            }
            return None;
        }
        i = i + 1;
    }
    proof {
        assert(all_digits(s@.skip(start as int))) by {
            assert forall|j: int| 0 <= j < s@.skip(start as int).len() implies 48 <= (
            #[trigger] s@.skip(start as int)[j]) <= 57 by {
                assert(s@.skip(start as int)[j] == s@[start + j]);
            }
        }
        assert(s@.subrange(start as int, n as int) =~= s@.skip(start as int));
    }
    let mag = parse_digits(s, start, n);
    if neg {
        if mag > 128 {
            None
        } else {
            Some((-(mag as i64)) as i8)
        }
    } else {
        if mag > 127 {
            None
        } else {
            Some(mag as i8)
        }
    }
}

/// Parse an unsigned 64-bit integer of up to nineteen digits, such as a
/// catalog reference number.
#[verifier::loop_isolation(false)]
pub fn parse_u64_bytes(s: &Vec<u8>) -> (r: Option<u64>)
    ensures
        match r {
            Some(v) => 1 <= s@.len() <= 19 && all_digits(s@) && v == digits_value(s@),
            None => !(1 <= s@.len() <= 19 && all_digits(s@)),
        },
{
    let n = s.len();
    if n < 1 || n > 19 {
        return None;
    }
    let mut i: usize = 0;
    while i < n
        invariant
            i <= n,
            n == s@.len(),
            forall|j: int| 0 <= j < i ==> 48 <= (#[trigger] s@[j]) <= 57,
        decreases n - i,
    {
        if s[i] < 48 || s[i] > 57 {
            return None;
        }
        i = i + 1;
    }
    let mut acc: u64 = 0;
    let mut k: usize = 0;
    proof {
        assert(s@.subrange(0, 0) =~= Seq::<u8>::empty());
    }
    while k < n
        invariant
            k <= n <= 19,
            n == s@.len(),
            all_digits(s@),
            acc == digits_value(s@.subrange(0, k as int)),
            acc < p10(k as int),
        decreases n - k,
    {
        proof {
            assert(s@.subrange(0, k as int + 1).drop_last() =~= s@.subrange(0, k as int));
            assert(s@.subrange(0, k as int + 1).last() == s@[k as int]);
            lemma_p10_le(k as int, 18);
            reveal_with_fuel(p10, 20);
            assert(p10(18) == 1_000_000_000_000_000_000);
        }
        let d = s[k];
        acc = acc * 10 + ((d - 48) as u64);
        k = k + 1;
    }
    proof {
        assert(s@.subrange(0, n as int) =~= s@);
    }
    Some(acc)
}

/// What parsing a fixed-point degree value yields, in micro-degrees: an
/// optional sign, one to nine integer digits, an optional point with digit
/// fraction; fractional digits beyond the sixth are ignored.
pub open spec fn spec_parse_udeg(s: Seq<u8>) -> Option<int> {
    let neg = s.len() > 0 && s[0] == 45;
    let body = if s.len() > 0 && (s[0] == 45 || s[0] == 43) {
        s.skip(1)
    } else {
        s
    };
    let d = find_byte(body, 46);
    let ip = if d < 0 {
        body
    } else {
        body.subrange(0, d)
    };
    let fp = if d < 0 {
        Seq::empty()
    } else {
        body.skip(d + 1)
    };
    if 1 <= ip.len() <= 9 && all_digits(ip) && all_digits(fp) {
        let frac_digits = if fp.len() > 6 {
            fp.subrange(0, 6)
        } else {
            fp
        };
        let v = digits_value(ip) * 1_000_000 + digits_value(frac_digits) * p10(
            6 - frac_digits.len(),
        );
        Some(
            if neg {
                -v
            } else {
                v
            },
        )
    } else {
        None
    }
}

/// Parse a decimal degree value into micro-degrees. The result magnitude
/// stays under 10^15.
#[verifier::loop_isolation(false)]
#[verifier::rlimit(100)]
pub fn parse_decimal_udeg(s: &Vec<u8>) -> (r: Option<i64>)
    ensures
        match r {
            Some(v) => spec_parse_udeg(s@) == Some(v as int) && -1_000_000_000_000_000 < v
                < 1_000_000_000_000_000,
            None => spec_parse_udeg(s@) is None,
        },
{
    let n = s.len();
    let neg = n > 0 && s[0] == 45;
    let start: usize = if n > 0 && (s[0] == 45 || s[0] == 43) {
        1
    } else {
        0
    };
    let ghost body = if start == 1 {
        s@.skip(1)
    } else {
        s@
    };
    proof {
        assert(s@.skip(start as int) =~= body);
    }
    let dot = find_byte_from(s, 46, start);
    let ip_end: usize = match dot {
        Some(d) => d,
        None => n,
    };
    let ghost ip = if find_byte(body, 46) < 0 {
        body
    } else {
        body.subrange(0, find_byte(body, 46))
    };
    let ghost fp = if find_byte(body, 46) < 0 {
        Seq::<u8>::empty()
    } else {
        body.skip(find_byte(body, 46) + 1)
    };
    proof {
        match dot {
            Some(d) => {
                assert(find_byte(body, 46) == d - start);
                assert(ip =~= s@.subrange(start as int, d as int));
                assert(fp =~= s@.skip(d + 1));
            },
            None => {
                assert(find_byte(body, 46) == -1);
                assert(ip =~= s@.subrange(start as int, n as int));
            },
        }
    }
    // Integer part: one to nine digits.
    if ip_end - start < 1 || ip_end - start > 9 {
        return None;
    }
    let mut i: usize = start;
    while i < ip_end
        invariant
            start <= i <= ip_end,
            forall|j: int| start <= j < i ==> 48 <= (#[trigger] s@[j]) <= 57,
        decreases ip_end - i,
    {
        if s[i] < 48 || s[i] > 57 {
            proof {
                assert(ip[i - start] == s@[i as int]);
            }
            return None;
        }
        i = i + 1;
    }
    proof {
        assert(all_digits(ip)) by {
            assert forall|j: int| 0 <= j < ip.len() implies 48 <= (#[trigger] ip[j]) <= 57 by {
                assert(ip[j] == s@[start + j]);
            }
        }
    }
    // Fraction part: digits only, the first six carry value.
    let frac_start: usize = match dot {
        Some(d) => d + 1,
        None => n,
    };
    let mut j: usize = frac_start;
    while j < n
        invariant
            frac_start <= j <= n,
            forall|k: int| frac_start <= k < j ==> 48 <= (#[trigger] s@[k]) <= 57,
        decreases n - j,
    {
        if s[j] < 48 || s[j] > 57 {
            proof {
                assert(fp[j - frac_start] == s@[j as int]);
            }
            return None;
        }
        j = j + 1;
    }
    proof {
        assert(all_digits(fp)) by {
            assert forall|k: int| 0 <= k < fp.len() implies 48 <= (#[trigger] fp[k]) <= 57 by {
                assert(fp[k] == s@[frac_start + k]);
            }
        }
    }
    let ip_val = parse_digits(s, start, ip_end);
    let frac_end: usize = if n - frac_start > 6 {
        frac_start + 6
    } else {
        n
    };
    proof {
        assert(all_digits(s@.subrange(frac_start as int, frac_end as int))) by {
            assert forall|k: int|
                0 <= k < frac_end - frac_start implies 48 <= (#[trigger] s@.subrange(
                frac_start as int,
                frac_end as int,
            )[k]) <= 57 by {
                assert(s@.subrange(frac_start as int, frac_end as int)[k] == s@[frac_start + k]);
            }
        }
    }
    let frac_val = parse_digits(s, frac_start, frac_end);
    let width = frac_end - frac_start;
    let scale: u64 = if width == 0 {
        1_000_000
    } else if width == 1 {
        100_000
    } else if width == 2 {
        10_000
    } else if width == 3 {
        1_000
    } else if width == 4 {
        100
    } else if width == 5 {
        10
    } else {
        1
    };
    let ghost frac_digits = if fp.len() > 6 {
        fp.subrange(0, 6)
    } else {
        fp
    };
    proof {
        reveal_with_fuel(p10, 11);
        assert(frac_digits =~= s@.subrange(frac_start as int, frac_end as int));
        lemma_digits_value_bound(ip);
        lemma_digits_value_bound(frac_digits);
        lemma_p10_le(ip.len() as int, 9);
        lemma_p10_le(frac_digits.len() as int, 6);
        assert(ip_val < 1_000_000_000);
        assert(scale as int == p10(6 - frac_digits.len()));
        let fpw = p10(frac_digits.len() as int);
        let fscale = p10(6 - frac_digits.len());
        lemma_p10_mul(frac_digits.len() as int, 6 - frac_digits.len());
        assert((frac_val as int) * (scale as int) < 1_000_000) by (nonlinear_arith)
            requires
                0 <= frac_val as int,
                (frac_val as int) < fpw,
                scale as int == fscale,
                fscale >= 1,
                fpw * fscale == 1_000_000,
        ;
    }
    let v: i64 = (ip_val as i64) * 1_000_000 + (frac_val as i64) * (scale as i64);
    if neg {
        Some(-v)
    } else {
        Some(v)
    }
}

} // verus!
