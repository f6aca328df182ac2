//! In-memory FITS builder: 80-byte header cards, 16-bit integer pixels, and
//! the final byte stream with the standard 2880-byte block padding.
//!
//! Header text, pixel encoding and padding are all constructed directly, so
//! the emitted bytes are a function of the recorded cards and pixels.

use vstd::prelude::*;

use crate::decimal::{digit_vals, u64_digit_vals};

verus! {

/// `n` space bytes (none for negative `n`).
pub open spec fn spaces(n: int) -> Seq<u8> {
    Seq::new(
        if n < 0 {
            0
        } else {
            n as nat
        },
        |i: int| 32u8,
    )
}

/// `n` zero bytes (none for negative `n`).
pub open spec fn zeros(n: int) -> Seq<u8> {
    Seq::new(
        if n < 0 {
            0
        } else {
            n as nat
        },
        |i: int| 0u8,
    )
}

/// The decimal digit bytes of `n`.
pub open spec fn dec_bytes(n: nat) -> Seq<u8> {
    digit_vals(n).map_values(|d: u8| (d + 48) as u8)
}

/// The digit bytes of a signed scaled value with `frac` fractional digits:
/// an optional minus sign, the whole part, and for positive `frac` a point
/// followed by exactly `frac` digits.
pub open spec fn scaled_bytes(v: int, frac: int) -> Seq<u8> {
    let a = if v < 0 {
        -v
    } else {
        v
    };
    let whole = dec_bytes((a / crate::parse::p10(frac)) as nat);
    let tail = if frac <= 0 {
        Seq::<u8>::empty()
    } else {
        seq![46u8] + Seq::new(
            frac as nat,
            |i: int| (((a / crate::parse::p10(frac - 1 - i)) % 10) + 48) as u8,
        )
    };
    (if v < 0 {
        seq![45u8]
    } else {
        Seq::<u8>::empty()
    }) + whole + tail
}

/// A fixed-format value card: the keyword padded to eight bytes, the value
/// indicator, the value right-justified in the twenty-byte value field, and
/// blank padding to eighty bytes.
pub open spec fn render_value_card(key: Seq<u8>, val: Seq<u8>) -> Seq<u8> {
    key + spaces(8 - key.len()) + seq![61u8, 32u8] + spaces(20 - val.len()) + val + spaces(50)
}

/// A string value card: the keyword padded to eight bytes, the value
/// indicator, the quoted text padded to at least eight bytes inside the
/// quotes, and blank padding to eighty bytes.
pub open spec fn render_string_card(key: Seq<u8>, val: Seq<u8>) -> Seq<u8> {
    let quoted = seq![39u8] + val + spaces(8 - val.len()) + seq![39u8];
    key + spaces(8 - key.len()) + seq![61u8, 32u8] + quoted + spaces(70 - quoted.len())
}

/// The END card.
pub open spec fn end_card() -> Seq<u8> {
    seq![69u8, 78u8, 68u8] + spaces(77)
}

/// Concatenation of the first `k` cards.
pub open spec fn concat_cards(cards: Seq<Seq<u8>>, k: int) -> Seq<u8>
    decreases k,
{
    if k <= 0 {
        Seq::empty()
    } else {
        concat_cards(cards, k - 1) + cards[k - 1]
    }
}

/// Padding needed to reach the next 2880-byte block boundary.
pub open spec fn pad2880(n: int) -> int {
    (2880 - n % 2880) % 2880
}

/// The big-endian two-byte encoding of one 16-bit pixel.
pub open spec fn be2(v: i16) -> Seq<u8> {
    seq![((v as u16) >> 8u16) as u8, ((v as u16) & 0xffu16) as u8]
}

/// All pixels encoded big-endian, in order.
pub open spec fn pixel_bytes(px: Seq<i16>) -> Seq<u8>
    decreases px.len(),
{
    if px.len() == 0 {
        Seq::empty()
    } else {
        pixel_bytes(px.drop_last()) + be2(px.last())
    }
}

pub proof fn lemma_pixel_bytes_len(px: Seq<i16>)
    ensures
        pixel_bytes(px).len() == 2 * px.len(),
    decreases px.len(),
{
    if px.len() > 0 {
        lemma_pixel_bytes_len(px.drop_last());
    }
}

/// The first card holding the given padded keyword, or -1.
pub open spec fn find_card(cards: Seq<Seq<u8>>, key8: Seq<u8>) -> int
    decreases cards.len(),
{
    if cards.len() == 0 {
        -1
    } else if cards[0].subrange(0, 8) == key8 {
        0
    } else {
        let r = find_card(cards.skip(1), key8);
        if r < 0 {
            -1
        } else {
            r + 1
        }
    }
}

pub proof fn lemma_find_card(cards: Seq<Seq<u8>>, key8: Seq<u8>)
    ensures
        find_card(cards, key8) == -1 ==> forall|j: int|
            0 <= j < cards.len() ==> (#[trigger] cards[j]).subrange(0, 8) != key8,
        find_card(cards, key8) >= 0 ==> find_card(cards, key8) < cards.len() && cards[find_card(
            cards,
            key8,
        )].subrange(0, 8) == key8 && (forall|j: int|
            0 <= j < find_card(cards, key8) ==> (#[trigger] cards[j]).subrange(0, 8) != key8),
    decreases cards.len(),
{
    if cards.len() > 0 && cards[0].subrange(0, 8) != key8 {
        lemma_find_card(cards.skip(1), key8);
        let r = find_card(cards.skip(1), key8);
        if r >= 0 {
            assert(cards[r + 1] == cards.skip(1)[r]);
            assert forall|j: int| 0 <= j < r + 1 implies (#[trigger] cards[j]).subrange(0, 8)
                != key8 by {
                if j > 0 {
                    assert(cards[j] == cards.skip(1)[j - 1]);
                }
            }
        } else {
            assert forall|j: int| 0 <= j < cards.len() implies (#[trigger] cards[j]).subrange(0, 8)
                != key8 by {
                if j > 0 {
                    assert(cards[j] == cards.skip(1)[j - 1]);
                }
            }
        }
    }
}

/// The card list after setting a keyword: the first card with that keyword
/// is replaced, or a new card is appended.
pub open spec fn cards_with(cards: Seq<Seq<u8>>, key8: Seq<u8>, card: Seq<u8>) -> Seq<Seq<u8>> {
    let at = find_card(cards, key8);
    if at < 0 {
        cards.push(card)
    } else {
        cards.update(at, card)
    }
}

/// A keyword padded with blanks to the eight-byte keyword field.
pub open spec fn padded_key(key: Seq<u8>) -> Seq<u8> {
    key + spaces(8 - key.len())
}

/// Append `n` space bytes.
fn push_spaces(v: &mut Vec<u8>, n: usize)
    ensures
        final(v)@ == old(v)@ + spaces(n as int),
{
    let mut i: usize = 0;
    proof {
        assert(v@ =~= old(v)@ + spaces(0));
    }
    while i < n
        invariant
            i <= n,
            v@ == old(v)@ + spaces(i as int),
        decreases n - i,
    {
        v.push(32);
        i = i + 1;
        proof {
            assert(v@ =~= old(v)@ + spaces(i as int));
        }
    }
}

proof fn lemma_digit_vals_len_le(n: nat, k: int)
    requires
        k >= 1,
        n < crate::parse::p10(k),
    ensures
        digit_vals(n).len() <= k,
    decreases k,
{
    if n >= 10 {
        assert(n / 10 < crate::parse::p10(k - 1)) by (nonlinear_arith)
            requires
                n < crate::parse::p10(k),
                crate::parse::p10(k) == 10 * crate::parse::p10(k - 1),
                n >= 10,
        ;
        lemma_digit_vals_len_le(n / 10, k - 1);
    }
}

/// The decimal digit bytes of `n`.
fn u64_dec_bytes(n: u64) -> (r: Vec<u8>)
    ensures
        r@ == dec_bytes(n as nat),
        1 <= r@.len() <= 20,
{
    let vals = u64_digit_vals(n);
    let mut r: Vec<u8> = Vec::new();
    let mut i: usize = 0;
    while i < vals.len()
        invariant
            i <= vals@.len(),
            vals@ == digit_vals(n as nat),
            forall|j: int| 0 <= j < vals@.len() ==> vals@[j] < 10,
            r@.len() == i,
            forall|j: int| 0 <= j < i ==> r@[j] == (vals@[j] + 48) as u8,
        decreases vals@.len() - i,
    {
        r.push(vals[i] + 48);
        i = i + 1;
    }
    proof {
        assert(r@ =~= dec_bytes(n as nat));
        crate::parse::lemma_p10_values();
        lemma_digit_vals_len_le(n as nat, 20);
    }
    r
}

/// Ten to a small power.
fn pow10_small(e: usize) -> (r: u64)
    requires
        e <= 6,
    ensures
        r as int == crate::parse::p10(e as int),
        r >= 1,
{
    proof {
        reveal_with_fuel(crate::parse::p10, 8);
    }
    if e == 0 {
        1
    } else if e == 1 {
        10
    } else if e == 2 {
        100
    } else if e == 3 {
        1_000
    } else if e == 4 {
        10_000
    } else if e == 5 {
        100_000
    } else {
        1_000_000
    }
}

/// The digit bytes of a signed scaled value with `frac` fractional digits.
#[verifier::loop_isolation(false)]
fn scaled_dec_bytes(v: i64, frac: usize) -> (r: Vec<u8>)
    requires
        frac <= 6,
        -1_000_000_000_000 < v < 1_000_000_000_000,
    ensures
        r@ == scaled_bytes(v as int, frac as int),
        r@.len() <= 20,
{
    let mut r: Vec<u8> = Vec::new();
    let a: u64 = if v < 0 {
        r.push(45);
        (-v) as u64
    } else {
        v as u64
    };
    let powf = pow10_small(frac);
    let ghost sign_part = if v < 0 {
        seq![45u8]
    } else {
        Seq::<u8>::empty()
    };
    let whole = u64_dec_bytes(a / powf);
    let mut i: usize = 0;
    let ghost r_before = r@;
    while i < whole.len()
        invariant
            i <= whole@.len(),
            r@ == r_before + whole@.subrange(0, i as int),
        decreases whole@.len() - i,
    {
        r.push(whole[i]);
        i = i + 1;
        proof {
            assert(r@ =~= r_before + whole@.subrange(0, i as int));
        }
    }
    proof {
        assert(whole@.subrange(0, whole@.len() as int) =~= whole@);
        crate::parse::lemma_p10_values();
        vstd::arithmetic::div_mod::lemma_div_nonincreasing(a as int, powf as int);
        lemma_digit_vals_len_le((a / powf) as nat, 12);
    }
    if frac > 0 {
        r.push(46);
        let ghost r_mid = r@;
        let mut j: usize = 0;
        while j < frac
            invariant
                j <= frac,
                r@.len() == r_mid.len() + j,
                r@ == r_mid + Seq::new(
                    j as nat,
                    |k: int| (((a as int) / crate::parse::p10(frac - 1 - k)) % 10 + 48) as u8,
                ),
            decreases frac - j,
        {
            let p = pow10_small(frac - 1 - j);
            let digit: u8 = ((a / p) % 10) as u8;
            r.push(digit + 48);
            j = j + 1;
            proof {
                assert(r@ =~= r_mid + Seq::new(
                    j as nat,
                    |k: int| (((a as int) / crate::parse::p10(frac - 1 - k)) % 10 + 48) as u8,
                ));
            }
        }
        proof {
            assert(r@ =~= scaled_bytes(v as int, frac as int));
        }
    } else {
        proof {
            assert(r@ =~= scaled_bytes(v as int, frac as int));
        }
    }
    r
}

/// Build a fixed-format value card.
fn make_value_card(key: &Vec<u8>, val: &Vec<u8>) -> (r: Vec<u8>)
    requires
        key@.len() <= 8,
        val@.len() <= 20,
    ensures
        r@ == render_value_card(key@, val@),
        r@.len() == 80,
        r@.subrange(0, 8) == padded_key(key@),
{
    let mut r: Vec<u8> = Vec::new();
    let mut i: usize = 0;
    while i < key.len()
        invariant
            i <= key@.len(),
            r@ == key@.subrange(0, i as int),
        decreases key@.len() - i,
    {
        r.push(key[i]);
        i = i + 1;
        proof {
            assert(r@ =~= key@.subrange(0, i as int));
        }
    }
    proof {
        assert(key@.subrange(0, key@.len() as int) =~= key@);
    }
    push_spaces(&mut r, 8 - key.len());
    r.push(61);
    r.push(32);
    push_spaces(&mut r, 20 - val.len());
    let mut j: usize = 0;
    let ghost r_mid = r@;
    while j < val.len()
        invariant
            j <= val@.len(),
            r@ == r_mid + val@.subrange(0, j as int),
        decreases val@.len() - j,
    {
        r.push(val[j]);
        j = j + 1;
        proof {
            assert(r@ =~= r_mid + val@.subrange(0, j as int));
        }
    }
    proof {
        assert(val@.subrange(0, val@.len() as int) =~= val@);
    }
    push_spaces(&mut r, 50);
    proof {
        assert(r@ =~= render_value_card(key@, val@));
        assert(r@.subrange(0, 8) =~= padded_key(key@));
    }
    r
}

/// Build a string value card.
fn make_string_card(key: &Vec<u8>, val: &Vec<u8>) -> (r: Vec<u8>)
    requires
        key@.len() <= 8,
        val@.len() <= 68,
    ensures
        r@ == render_string_card(key@, val@),
        r@.len() == 80,
        r@.subrange(0, 8) == padded_key(key@),
{
    let mut r: Vec<u8> = Vec::new();
    let mut i: usize = 0;
    while i < key.len()
        invariant
            i <= key@.len(),
            r@ == key@.subrange(0, i as int),
        decreases key@.len() - i,
    {
        r.push(key[i]);
        i = i + 1;
        proof {
            assert(r@ =~= key@.subrange(0, i as int));
        }
    }
    proof {
        assert(key@.subrange(0, key@.len() as int) =~= key@);
    }
    push_spaces(&mut r, 8 - key.len());
    r.push(61);
    r.push(32);
    r.push(39);
    let mut j: usize = 0;
    let ghost r_mid = r@;
    while j < val.len()
        invariant
            j <= val@.len(),
            r@ == r_mid + val@.subrange(0, j as int),
        decreases val@.len() - j,
    {
        r.push(val[j]);
        j = j + 1;
        proof {
            assert(r@ =~= r_mid + val@.subrange(0, j as int));
        }
    }
    proof {
        assert(val@.subrange(0, val@.len() as int) =~= val@);
    }
    if val.len() < 8 {
        push_spaces(&mut r, 8 - val.len());
    }
    r.push(39);
    let quoted_len = if val.len() < 8 {
        10usize
    } else {
        2 + val.len()
    };
    push_spaces(&mut r, 70 - quoted_len);
    proof {
        assert(r@ =~= render_string_card(key@, val@));
        assert(r@.subrange(0, 8) =~= padded_key(key@));
    }
    r
}

/// Do the first eight bytes of a card equal a padded keyword?
fn card_key_matches(card: &Vec<u8>, key8: &Vec<u8>) -> (r: bool)
    requires
        card@.len() >= 8,
        key8@.len() == 8,
    ensures
        r == (card@.subrange(0, 8) == key8@),
{
    let mut i: usize = 0;
    while i < 8
        invariant
            i <= 8,
            card@.len() >= 8,
            key8@.len() == 8,
            forall|j: int| 0 <= j < i ==> card@[j] == key8@[j],
        decreases 8 - i,
    {
        if card[i] != key8[i] {
            proof {
                assert(card@.subrange(0, 8)[i as int] != key8@[i as int]);
            }
            return false;
        }
        i = i + 1;
    }
    proof {
        assert(card@.subrange(0, 8) =~= key8@);
    }
    true
}

/// An in-memory FITS file being built: its header cards and its pixels.
pub struct FitsFile {
    pub cards: Vec<Vec<u8>>,
    pub pixels: Vec<i16>,
    pub naxis: usize,
}

impl FitsFile {
    /// Every card is exactly eighty bytes.
    pub open spec fn wf(&self) -> bool {
        forall|i: int| 0 <= i < self.cards@.len() ==> (#[trigger] self.cards@[i])@.len() == 80
    }

    /// A fresh, empty in-memory FITS file.
    pub fn create_mem() -> (r: FitsFile)
        ensures
            r.wf(),
            r.cards@.len() == 0,
            r.pixels@.len() == 0,
            r.naxis == 0,
    {
        FitsFile { cards: Vec::new(), pixels: Vec::new(), naxis: 0 }
    }

    /// The card views, for specification purposes.
    pub open spec fn card_views(&self) -> Seq<Seq<u8>> {
        self.cards@.map_values(|c: Vec<u8>| c@)
    }

    /// The full serialized byte stream: cards, the END card, blank padding
    /// to a block boundary, then big-endian pixels padded with zeros to a
    /// block boundary.
    pub open spec fn spec_stream(&self) -> Seq<u8> {
        let header = concat_cards(self.card_views(), self.card_views().len() as int)
            + end_card();
        let padded_header = header + spaces(pad2880(header.len() as int));
        let data = pixel_bytes(self.pixels@);
        let padded_data = data + zeros(pad2880(data.len() as int));
        padded_header + if self.pixels@.len() == 0 {
            Seq::<u8>::empty()
        } else {
            padded_data
        }
    }

    /// Set or overwrite the card for a keyword.
    #[verifier::loop_isolation(false)]
    fn set_card(&mut self, key8: &Vec<u8>, card: Vec<u8>)
        requires
            old(self).wf(),
            key8@.len() == 8,
            card@.len() == 80,
        ensures
            final(self).wf(),
            final(self).card_views() == cards_with(old(self).card_views(), key8@, card@),
            final(self).pixels@ == old(self).pixels@,
            final(self).naxis == old(self).naxis,
    {
        let ghost views = self.card_views();
        let n = self.cards.len();
        let mut i: usize = 0;
        while i < n
            invariant
                i <= n,
                *self == *old(self),
                forall|j: int| 0 <= j < i ==> (#[trigger] views[j]).subrange(0, 8) != key8@,
            decreases n - i,
        {
            if card_key_matches(&self.cards[i], key8) {
                proof {
                    assert(views[i as int] == self.cards@[i as int]@);
                    lemma_find_card(views, key8@);
                    let f = find_card(views, key8@);
                    if f == -1 {
                        assert(views[i as int].subrange(0, 8) != key8@);
                    } else if f < i {
                        assert(views[f].subrange(0, 8) == key8@);
                    } else if f > i {
                        assert(views[i as int].subrange(0, 8) != key8@);
                    }
                    assert(find_card(views, key8@) == i);
                }
                self.cards.set(i, card);
                proof {
                    assert(self.card_views() =~~= cards_with(views, key8@, self.cards@[i as int]@));
                }
                return ;
            }
            i = i + 1;
        }
        proof {
            lemma_find_card(views, key8@);
            let f = find_card(views, key8@);
            if f >= 0 {
                assert(views[f].subrange(0, 8) != key8@);
            }
            assert(find_card(views, key8@) == -1);
        }
        self.cards.push(card);
        proof {
            assert(self.card_views() =~~= cards_with(
                views,
                key8@,
                self.cards@[self.cards@.len() - 1]@,
            ));
        }
    }

    /// Set a fixed-format value card for a keyword.
    fn set_value_card(&mut self, key: &Vec<u8>, val: &Vec<u8>)
        requires
            old(self).wf(),
            key@.len() <= 8,
            val@.len() <= 20,
        ensures
            final(self).wf(),
            final(self).card_views() == cards_with(
                old(self).card_views(),
                padded_key(key@),
                render_value_card(key@, val@),
            ),
            final(self).pixels@ == old(self).pixels@,
            final(self).naxis == old(self).naxis,
    {
        let card = make_value_card(key, val);
        let mut key8: Vec<u8> = Vec::new();
        let mut i: usize = 0;
        while i < key.len()
            invariant
                i <= key@.len(),
                key8@ == key@.subrange(0, i as int),
            decreases key@.len() - i,
        {
            key8.push(key[i]);
            i = i + 1;
            proof {
                assert(key8@ =~= key@.subrange(0, i as int));
            }
        }
        proof {
            assert(key@.subrange(0, key@.len() as int) =~= key@);
        }
        push_spaces(&mut key8, 8 - key.len());
        proof {
            assert(key8@ =~= padded_key(key@));
        }
        self.set_card(&key8, card);
    }

    /// Set a string-valued header keyword in the current header.
    pub fn set_string_header(&mut self, key: &Vec<u8>, value: &Vec<u8>)
        requires
            old(self).wf(),
            key@.len() <= 8,
            value@.len() <= 68,
        ensures
            final(self).wf(),
            final(self).card_views() == cards_with(
                old(self).card_views(),
                padded_key(key@),
                render_string_card(key@, value@),
            ),
            final(self).pixels@ == old(self).pixels@,
            final(self).naxis == old(self).naxis,
    {
        let card = make_string_card(key, value);
        let mut key8: Vec<u8> = Vec::new();
        let mut i: usize = 0;
        while i < key.len()
            invariant
                i <= key@.len(),
                key8@ == key@.subrange(0, i as int),
            decreases key@.len() - i,
        {
            key8.push(key[i]);
            i = i + 1;
            proof {
                assert(key8@ =~= key@.subrange(0, i as int));
            }
        }
        proof {
            assert(key@.subrange(0, key@.len() as int) =~= key@);
        }
        push_spaces(&mut key8, 8 - key.len());
        proof {
            assert(key8@ =~= padded_key(key@));
        }
        self.set_card(&key8, card);
    }

    /// Set an unsigned integer header keyword.
    pub fn set_u16_header(&mut self, key: &Vec<u8>, value: u16)
        requires
            old(self).wf(),
            key@.len() <= 8,
        ensures
            final(self).wf(),
            final(self).card_views() == cards_with(
                old(self).card_views(),
                padded_key(key@),
                render_value_card(key@, dec_bytes(value as nat)),
            ),
            final(self).pixels@ == old(self).pixels@,
            final(self).naxis == old(self).naxis,
    {
        let val = u64_dec_bytes(value as u64);
        self.set_value_card(key, &val);
    }

    /// Set a fixed-point numeric header keyword: the value is
    /// `scaled / 10^frac` rendered with `frac` fractional digits.
    pub fn set_scaled_header(&mut self, key: &Vec<u8>, scaled: i64, frac: usize)
        requires
            old(self).wf(),
            key@.len() <= 8,
            frac <= 6,
            -1_000_000_000_000 < scaled < 1_000_000_000_000,
        ensures
            final(self).wf(),
            final(self).card_views() == cards_with(
                old(self).card_views(),
                padded_key(key@),
                render_value_card(key@, scaled_bytes(scaled as int, frac as int)),
            ),
            final(self).pixels@ == old(self).pixels@,
            final(self).naxis == old(self).naxis,
    {
        let val = scaled_dec_bytes(scaled, frac);
        self.set_value_card(key, &val);
    }

    /// The card list after the primary header of a square 16-bit image is
    /// written onto `cards`.
    pub open spec fn with_image_header(cards: Seq<Seq<u8>>, size: int) -> Seq<Seq<u8>> {
        let c1 = cards_with(
            cards,
            padded_key(seq![83u8, 73u8, 77u8, 80u8, 76u8, 69u8]),
            render_value_card(seq![83u8, 73u8, 77u8, 80u8, 76u8, 69u8], seq![84u8]),
        );
        let c2 = cards_with(
            c1,
            padded_key(seq![66u8, 73u8, 84u8, 80u8, 73u8, 88u8]),
            render_value_card(seq![66u8, 73u8, 84u8, 80u8, 73u8, 88u8], dec_bytes(16)),
        );
        let c3 = cards_with(
            c2,
            padded_key(seq![78u8, 65u8, 88u8, 73u8, 83u8]),
            render_value_card(seq![78u8, 65u8, 88u8, 73u8, 83u8], dec_bytes(2)),
        );
        let c4 = cards_with(
            c3,
            padded_key(seq![78u8, 65u8, 88u8, 73u8, 83u8, 49u8]),
            render_value_card(seq![78u8, 65u8, 88u8, 73u8, 83u8, 49u8], dec_bytes(size as nat)),
        );
        cards_with(
            c4,
            padded_key(seq![78u8, 65u8, 88u8, 73u8, 83u8, 50u8]),
            render_value_card(seq![78u8, 65u8, 88u8, 73u8, 83u8, 50u8], dec_bytes(size as nat)),
        )
    }

    /// Write the primary header for a square 16-bit integer image of the
    /// given side length.
    pub fn write_square_image_header(&mut self, size: usize)
        requires
            old(self).wf(),
        ensures
            final(self).wf(),
            final(self).card_views() == Self::with_image_header(
                old(self).card_views(),
                size as int,
            ),
            final(self).pixels@ == old(self).pixels@,
            final(self).naxis == size,
    {
        let mut key: Vec<u8> = Vec::new();
        key.push(83);
        key.push(73);
        key.push(77);
        key.push(80);
        key.push(76);
        key.push(69);
        let mut val: Vec<u8> = Vec::new();
        val.push(84);
        proof {
            assert(key@ =~= seq![83u8, 73u8, 77u8, 80u8, 76u8, 69u8]);
            assert(val@ =~= seq![84u8]);
        }
        self.set_value_card(&key, &val);
        let mut key: Vec<u8> = Vec::new();
        key.push(66);
        key.push(73);
        key.push(84);
        key.push(80);
        key.push(73);
        key.push(88);
        proof {
            assert(key@ =~= seq![66u8, 73u8, 84u8, 80u8, 73u8, 88u8]);
        }
        let val = u64_dec_bytes(16);
        self.set_value_card(&key, &val);
        let mut key: Vec<u8> = Vec::new();
        key.push(78);
        key.push(65);
        key.push(88);
        key.push(73);
        key.push(83);
        proof {
            assert(key@ =~= seq![78u8, 65u8, 88u8, 73u8, 83u8]);
        }
        let val = u64_dec_bytes(2);
        self.set_value_card(&key, &val);
        let mut key: Vec<u8> = Vec::new();
        key.push(78);
        key.push(65);
        key.push(88);
        key.push(73);
        key.push(83);
        key.push(49);
        proof {
            assert(key@ =~= seq![78u8, 65u8, 88u8, 73u8, 83u8, 49u8]);
        }
        let val = u64_dec_bytes(size as u64);
        self.set_value_card(&key, &val);
        let mut key: Vec<u8> = Vec::new();
        key.push(78);
        key.push(65);
        key.push(88);
        key.push(73);
        key.push(83);
        key.push(50);
        proof {
            assert(key@ =~= seq![78u8, 65u8, 88u8, 73u8, 83u8, 50u8]);
        }
        let val = u64_dec_bytes(size as u64);
        self.set_value_card(&key, &val);
        self.naxis = size;
    }

    /// Write all pixels of the square image, row-major.
    pub fn write_pixels(&mut self, data: Vec<i16>)
        requires
            old(self).wf(),
            data@.len() == old(self).naxis * old(self).naxis,
        ensures
            final(self).wf(),
            final(self).card_views() == old(self).card_views(),
            final(self).pixels@ == data@,
            final(self).naxis == old(self).naxis,
    {
        self.pixels = data;
    }

    /// Serialize the file: header cards, the END card, blank padding to a
    /// block boundary, then (when pixels were written) the big-endian
    /// pixels padded with zeros to a block boundary.
    #[verifier::loop_isolation(false)]
    #[verifier::rlimit(100)]
    pub fn into_stream(self) -> (r: Vec<u8>)
        requires
            self.wf(),
            self.pixels@.len() <= 0x10000000,
        ensures
            r@ == self.spec_stream(),
            r@.len() % 2880 == 0,
    {
        let ghost views = self.card_views();
        let mut out: Vec<u8> = Vec::new();
        let n = self.cards.len();
        let mut i: usize = 0;
        while i < n
            invariant
                i <= n,
                out@ == concat_cards(views, i as int),
            decreases n - i,
        {
            let card = &self.cards[i];
            let m = card.len();
            let mut j: usize = 0;
            let ghost out_before = out@;
            while j < m
                invariant
                    j <= m,
                    m == card@.len(),
                    out@ == out_before + card@.subrange(0, j as int),
                decreases m - j,
            {
                out.push(card[j]);
                j = j + 1;
                proof {
                    assert(out@ =~= out_before + card@.subrange(0, j as int));
                }
            }
            i = i + 1;
            proof {
                assert(card@.subrange(0, card@.len() as int) =~= card@);
                assert(out@ =~= concat_cards(views, i as int));
            }
        }
        out.push(69);
        out.push(78);
        out.push(68);
        push_spaces(&mut out, 77);
        let ghost header = concat_cards(views, views.len() as int) + end_card();
        proof {
            assert(out@ =~= header);
        }
        let rem = out.len() % 2880;
        let pad = if rem == 0 {
            0
        } else {
            2880 - rem
        };
        push_spaces(&mut out, pad);
        let ghost padded_header = header + spaces(pad2880(header.len() as int));
        proof {
            assert(out@ =~= padded_header);
        }
        if self.pixels.len() == 0 {
            proof {
                assert(out@ =~= self.spec_stream());
            }
            return out;
        }
        let np = self.pixels.len();
        let mut k: usize = 0;
        while k < np
            invariant
                k <= np,
                out@ == padded_header + pixel_bytes(self.pixels@.subrange(0, k as int)),
            decreases np - k,
        {
            proof {
                assert(self.pixels@.subrange(0, k as int + 1).drop_last() =~= self.pixels@.subrange(
                    0,
                    k as int,
                ));
                assert(self.pixels@.subrange(0, k as int + 1).last() == self.pixels@[k as int]);
            }
            let v = self.pixels[k];
            let u = v as u16;
            out.push((u >> 8) as u8);
            out.push((u & 0xff) as u8);
            k = k + 1;
            proof {
                assert(out@ =~= padded_header + pixel_bytes(self.pixels@.subrange(0, k as int)));
            }
        }
        proof {
            assert(self.pixels@.subrange(0, np as int) =~= self.pixels@);
            lemma_pixel_bytes_len(self.pixels@);
        }
        let data_len = 2 * np;
        let drem = data_len % 2880;
        let dpad = if drem == 0 {
            0
        } else {
            2880 - drem
        };
        let mut z: usize = 0;
        let ghost out_mid = out@;
        while z < dpad
            invariant
                z <= dpad,
                out@ == out_mid + zeros(z as int),
            decreases dpad - z,
        {
            out.push(0);
            z = z + 1;
            proof {
                assert(out@ =~= out_mid + zeros(z as int));
            }
        }
        proof {
            assert(out@ =~= self.spec_stream());
        }
        out
    }
}

} // verus!
