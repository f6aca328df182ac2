//! Plate and mosaic helpers: the storage-key template fill, the nominal
//! plate-scale table, and the exposure-center sentinel test.

use vstd::prelude::*;

use crate::bytestr::{replace_bytes, replaced};

verus! {

/// The `{bin}` placeholder of a mosaic storage-key template.
pub open spec fn bin_placeholder() -> Seq<u8> {
    seq![123u8, 98u8, 105u8, 110u8, 125u8]
}

/// The value filled in for `{bin}`.
pub open spec fn bin_value() -> Seq<u8> {
    seq![48u8, 49u8]
}

/// The `{tnx}` placeholder of a mosaic storage-key template.
pub open spec fn tnx_placeholder() -> Seq<u8> {
    seq![123u8, 116u8, 110u8, 120u8, 125u8]
}

/// The value filled in for `{tnx}`.
pub open spec fn tnx_value() -> Seq<u8> {
    seq![95u8, 116u8, 110u8, 120u8]
}

/// A storage-key template with both placeholders filled in.
pub open spec fn filled_template(t: Seq<u8>) -> Seq<u8> {
    replaced(replaced(t, bin_placeholder(), bin_value()), tnx_placeholder(), tnx_value())
}

/// Fill a mosaic storage-key template: `{bin}` becomes `01` and `{tnx}`
/// becomes `_tnx`.
pub fn fill_key_template(template: &Vec<u8>) -> (r: Vec<u8>)
    ensures
        r@ == filled_template(template@),
{
    let mut bin_pat: Vec<u8> = Vec::new();
    bin_pat.push(123);
    bin_pat.push(98);
    bin_pat.push(105);
    bin_pat.push(110);
    bin_pat.push(125);
    let mut bin_val: Vec<u8> = Vec::new();
    bin_val.push(48);
    bin_val.push(49);
    let mut tnx_pat: Vec<u8> = Vec::new();
    tnx_pat.push(123);
    tnx_pat.push(116);
    tnx_pat.push(110);
    tnx_pat.push(120);
    tnx_pat.push(125);
    let mut tnx_val: Vec<u8> = Vec::new();
    tnx_val.push(95);
    tnx_val.push(116);
    tnx_val.push(110);
    tnx_val.push(120);
    proof {
        assert(bin_pat@ =~= bin_placeholder());
        assert(bin_val@ =~= bin_value());
        assert(tnx_pat@ =~= tnx_placeholder());
        assert(tnx_val@ =~= tnx_value());
    }
    let once = replace_bytes(template, &bin_pat, &bin_val);
    replace_bytes(&once, &tnx_pat, &tnx_val)
}

/// An exposure's stored center carries none of the placeholder sentinels
/// (RA of 999 or -99 degrees, declination of 99 or -99 degrees).
pub open spec fn spec_center_usable(ra_udeg: int, dec_udeg: int) -> bool {
    &&& ra_udeg != 999_000_000
    &&& ra_udeg != -99_000_000
    &&& dec_udeg != 99_000_000
    &&& dec_udeg != -99_000_000
}

/// Test an exposure's stored center against the placeholder sentinels.
pub fn exposure_center_usable(ra_udeg: i64, dec_udeg: i64) -> (r: bool)
    ensures
        r == spec_center_usable(ra_udeg as int, dec_udeg as int),
{
    ra_udeg != 999_000_000 && ra_udeg != -99_000_000 && dec_udeg != 99_000_000 && dec_udeg
        != -99_000_000
}

/// A series name packed into an integer key: bytes folded big-endian.
pub open spec fn packed_series_key(s: Seq<u8>) -> int
    decreases s.len(),
{
    if s.len() == 0 {
        0
    } else {
        packed_series_key(s.drop_last()) * 256 + s.last()
    }
}

/// 256 to the power `i`.
pub open spec fn p256(i: int) -> int
    decreases i,
{
    if i <= 0 {
        1
    } else {
        256 * p256(i - 1)
    }
}

proof fn lemma_p256_pos(a: int)
    ensures
        p256(a) >= 1,
    decreases a,
{
    if a > 0 {
        lemma_p256_pos(a - 1);
    }
}

proof fn lemma_p256_le(a: int, b: int)
    requires
        a <= b,
    ensures
        p256(a) <= p256(b),
    decreases b,
{
    if a < b && b > 0 {
        lemma_p256_le(a, b - 1);
        lemma_p256_pos(b - 1);
    }
}

/// A series name is packable when it is short and holds printable ASCII.
pub open spec fn packable_series(s: Seq<u8>) -> bool {
    s.len() <= 8 && forall|i: int| 0 <= i < s.len() ==> 32 <= (#[trigger] s[i]) < 127
}

/// Pack a series name into its integer key, or nothing when the name is too
/// long or holds bytes outside printable ASCII.
pub fn pack_series_key(series: &Vec<u8>) -> (r: Option<u64>)
    ensures
        match r {
            Some(k) => packable_series(series@) && k == packed_series_key(series@),
            None => !packable_series(series@),
        },
{
    let n = series.len();
    if n > 8 {
        return None;
    }
    let mut key: u64 = 0;
    let mut i: usize = 0;
    while i < n
        invariant
            i <= n <= 8,
            n == series@.len(),
            forall|j: int| 0 <= j < i ==> 32 <= (#[trigger] series@[j]) < 127,
            key == packed_series_key(series@.subrange(0, i as int)),
            key < p256(i as int),
        decreases n - i,
    {
        let b = series[i];
        if b < 32 || b >= 127 {
            return None;
        }
        proof {
            lemma_p256_le(i as int, 7);
            reveal_with_fuel(p256, 9);
            assert(p256(7) == 0x100_0000_0000_0000);
            assert(series@.subrange(0, i as int + 1).drop_last() =~= series@.subrange(
                0,
                i as int,
            ));
        }
        key = key * 256 + (b as u64);
        i = i + 1;
        proof {
            assert(key == packed_series_key(series@.subrange(0, i as int)));
        }
    }
    proof {
        assert(series@.subrange(0, n as int) =~= series@);
    }
    Some(key)
}

/// The nominal plate scale of a series, in milli-arcseconds per millimeter,
/// looked up by packed series key.
pub open spec fn series_scale_for_key(k: int) -> Option<u64> {
    if false {
        None
    } else if k == 97 {  // "a"
        Some(59570u64)
    } else if k == 24930 {  // "ab"
        Some(590000u64)
    } else if k == 24931 {  // "ac"
        Some(606400u64)
    } else if k == 6382447 {  // "aco"
        Some(611300u64)
    } else if k == 6382696 {  // "adh"
        Some(68000u64)
    } else if k == 24937 {  // "ai"
        Some(1360000u64)
    } else if k == 24939 {  // "ak"
        Some(614500u64)
    } else if k == 24940 {  // "al"
        Some(1200000u64)
    } else if k == 24941 {  // "am"
        Some(610800u64)
    } else if k == 24942 {  // "an"
        Some(574000u64)
    } else if k == 24952 {  // "ax"
        Some(695700u64)
    } else if k == 24953 {  // "ay"
        Some(694200u64)
    } else if k == 98 {  // "b"
        Some(179400u64)
    } else if k == 25193 {  // "bi"
        Some(1446000u64)
    } else if k == 25197 {  // "bm"
        Some(384000u64)
    } else if k == 25199 {  // "bo"
        Some(800000u64)
    } else if k == 25202 {  // "br"
        Some(204000u64)
    } else if k == 99 {  // "c"
        Some(52560u64)
    } else if k == 25441 {  // "ca"
        Some(596000u64)
    } else if k == 1668573551 {  // "ctio"
        Some(18000u64)
    } else if k == 110369694445426 {  // "darnor"
        Some(890000u64)
    } else if k == 110369694773109 {  // "darsou"
        Some(890000u64)
    } else if k == 6581858 {  // "dnb"
        Some(577300u64)
    } else if k == 6581874 {  // "dnr"
        Some(579700u64)
    } else if k == 6581881 {  // "dny"
        Some(576100u64)
    } else if k == 6583138 {  // "dsb"
        Some(574500u64)
    } else if k == 6583154 {  // "dsr"
        Some(579700u64)
    } else if k == 6583161 {  // "dsy"
        Some(581800u64)
    } else if k == 25957 {  // "ee"
        Some(330000u64)
    } else if k == 25970 {  // "er"
        Some(390000u64)
    } else if k == 26209 {  // "fa"
        Some(1298000u64)
    } else if k == 104 {  // "h"
        Some(59600u64)
    } else if k == 1751215205 {  // "hale"
        Some(11060u64)
    } else if k == 105 {  // "i"
        Some(163300u64)
    } else if k == 26994 {  // "ir"
        Some(164000u64)
    } else if k == 106 {  // "j"
        Some(98000u64)
    } else if k == 1784963442 {  // "jdar"
        Some(560000u64)
    } else if k == 27489 {  // "ka"
        Some(1200000u64)
    } else if k == 27490 {  // "kb"
        Some(1200000u64)
    } else if k == 27491 {  // "kc"
        Some(650000u64)
    } else if k == 27492 {  // "kd"
        Some(650000u64)
    } else if k == 27493 {  // "ke"
        Some(1160000u64)
    } else if k == 27494 {  // "kf"
        Some(1160000u64)
    } else if k == 27495 {  // "kg"
        Some(1160000u64)
    } else if k == 7038821 {  // "kge"
        Some(1160000u64)
    } else if k == 27496 {  // "kh"
        Some(1160000u64)
    } else if k == 1819765857 {  // "lwla"
        Some(36687u64)
    } else if k == 28001 {  // "ma"
        Some(93700u64)
    } else if k == 28002 {  // "mb"
        Some(390000u64)
    } else if k == 28003 {  // "mc"
        Some(97900u64)
    } else if k == 28004 {  // "md"
        Some(193000u64)
    } else if k == 28005 {  // "me"
        Some(600000u64)
    } else if k == 120282511929202 {  // "meteor"
        Some(1200000u64)
    } else if k == 28006 {  // "mf"
        Some(167300u64)
    } else if k == 28257 {  // "na"
        Some(100000u64)
    } else if k == 7364979 {  // "pas"
        Some(95640u64)
    } else if k == 1886352243 {  // "poss"
        Some(67190u64)
    } else if k == 28794 {  // "pz"
        Some(1553000u64)
    } else if k == 114 {  // "r"
        Some(390000u64)
    } else if k == 29282 {  // "rb"
        Some(395500u64)
    } else if k == 29288 {  // "rh"
        Some(391300u64)
    } else if k == 29292 {  // "rl"
        Some(290000u64)
    } else if k == 29295 {  // "ro"
        Some(390000u64)
    } else if k == 115 {  // "s"
        Some(26300u64)
    } else if k == 29538 {  // "sb"
        Some(26000u64)
    } else if k == 29544 {  // "sh"
        Some(26000u64)
    } else if k == 120 {  // "x"
        Some(42300u64)
    } else if k == 31074 {  // "yb"
        Some(55000u64)
    } else {
        None
    }
}

/// The plate scale of a series in milli-arcseconds per millimeter, from the
/// survey's fitted or nominal values; unknown series have none.
pub open spec fn spec_plate_scale(s: Seq<u8>) -> Option<u64> {
    if packable_series(s) {
        series_scale_for_key(packed_series_key(s))
    } else {
        None
    }
}

/// Look up the plate scale of a series name in milli-arcseconds per
/// millimeter.
pub fn plate_scale_mas(series: &Vec<u8>) -> (r: Option<u64>)
    ensures
        r == spec_plate_scale(series@),
{
    let k: u64 = match pack_series_key(series) {
        Some(k) => k,
        None => {
            return None;
        },
    };
    series_scale_lookup(k)
}

fn series_scale_lookup(k: u64) -> (r: Option<u64>)
    ensures
        r == series_scale_for_key(k as int),
{
    if false {
        None
    } else if k == 97 {  // "a"
        Some(59570u64)
    } else if k == 24930 {  // "ab"
        Some(590000u64)
    } else if k == 24931 {  // "ac"
        Some(606400u64)
    } else if k == 6382447 {  // "aco"
        Some(611300u64)
    } else if k == 6382696 {  // "adh"
        Some(68000u64)
    } else if k == 24937 {  // "ai"
        Some(1360000u64)
    } else if k == 24939 {  // "ak"
        Some(614500u64)
    } else if k == 24940 {  // "al"
        Some(1200000u64)
    } else if k == 24941 {  // "am"
        Some(610800u64)
    } else if k == 24942 {  // "an"
        Some(574000u64)
    } else if k == 24952 {  // "ax"
        Some(695700u64)
    } else if k == 24953 {  // "ay"
        Some(694200u64)
    } else if k == 98 {  // "b"
        Some(179400u64)
    } else if k == 25193 {  // "bi"
        Some(1446000u64)
    } else if k == 25197 {  // "bm"
        Some(384000u64)
    } else if k == 25199 {  // "bo"
        Some(800000u64)
    } else if k == 25202 {  // "br"
        Some(204000u64)
    } else if k == 99 {  // "c"
        Some(52560u64)
    } else if k == 25441 {  // "ca"
        Some(596000u64)
    } else if k == 1668573551 {  // "ctio"
        Some(18000u64)
    } else if k == 110369694445426 {  // "darnor"
        Some(890000u64)
    } else if k == 110369694773109 {  // "darsou"
        Some(890000u64)
    } else if k == 6581858 {  // "dnb"
        Some(577300u64)
    } else if k == 6581874 {  // "dnr"
        Some(579700u64)
    } else if k == 6581881 {  // "dny"
        Some(576100u64)
    } else if k == 6583138 {  // "dsb"
        Some(574500u64)
    } else if k == 6583154 {  // "dsr"
        Some(579700u64)
    } else if k == 6583161 {  // "dsy"
        Some(581800u64)
    } else if k == 25957 {  // "ee"
        Some(330000u64)
    } else if k == 25970 {  // "er"
        Some(390000u64)
    } else if k == 26209 {  // "fa"
        Some(1298000u64)
    } else if k == 104 {  // "h"
        Some(59600u64)
    } else if k == 1751215205 {  // "hale"
        Some(11060u64)
    } else if k == 105 {  // "i"
        Some(163300u64)
    } else if k == 26994 {  // "ir"
        Some(164000u64)
    } else if k == 106 {  // "j"
        Some(98000u64)
    } else if k == 1784963442 {  // "jdar"
        Some(560000u64)
    } else if k == 27489 {  // "ka"
        Some(1200000u64)
    } else if k == 27490 {  // "kb"
        Some(1200000u64)
    } else if k == 27491 {  // "kc"
        Some(650000u64)
    } else if k == 27492 {  // "kd"
        Some(650000u64)
    } else if k == 27493 {  // "ke"
        Some(1160000u64)
    } else if k == 27494 {  // "kf"
        Some(1160000u64)
    } else if k == 27495 {  // "kg"
        Some(1160000u64)
    } else if k == 7038821 {  // "kge"
        Some(1160000u64)
    } else if k == 27496 {  // "kh"
        Some(1160000u64)
    } else if k == 1819765857 {  // "lwla"
        Some(36687u64)
    } else if k == 28001 {  // "ma"
        Some(93700u64)
    } else if k == 28002 {  // "mb"
        Some(390000u64)
    } else if k == 28003 {  // "mc"
        Some(97900u64)
    } else if k == 28004 {  // "md"
        Some(193000u64)
    } else if k == 28005 {  // "me"
        Some(600000u64)
    } else if k == 120282511929202 {  // "meteor"
        Some(1200000u64)
    } else if k == 28006 {  // "mf"
        Some(167300u64)
    } else if k == 28257 {  // "na"
        Some(100000u64)
    } else if k == 7364979 {  // "pas"
        Some(95640u64)
    } else if k == 1886352243 {  // "poss"
        Some(67190u64)
    } else if k == 28794 {  // "pz"
        Some(1553000u64)
    } else if k == 114 {  // "r"
        Some(390000u64)
    } else if k == 29282 {  // "rb"
        Some(395500u64)
    } else if k == 29288 {  // "rh"
        Some(391300u64)
    } else if k == 29292 {  // "rl"
        Some(290000u64)
    } else if k == 29295 {  // "ro"
        Some(390000u64)
    } else if k == 115 {  // "s"
        Some(26300u64)
    } else if k == 29538 {  // "sb"
        Some(26000u64)
    } else if k == 29544 {  // "sh"
        Some(26000u64)
    } else if k == 120 {  // "x"
        Some(42300u64)
    } else if k == 31074 {  // "yb"
        Some(55000u64)
    } else {
        None
    }
}

} // verus!
