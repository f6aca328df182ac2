//! Catalog cone-search logic: request validation, the RA search bands with
//! meridian wraparound, the per-item box filter, angular offsets, and CSV
//! row assembly.
//!
//! Angles are micro-degrees; cosine factors arrive as parts-per-million
//! values computed by the caller; angular offsets leave as milli-arcseconds.

use vstd::prelude::*;
use vstd::string::StringExecFns;

use crate::bytestr::{join_csv, joined};
use crate::decimal::{milli_text, milli_to_decimal};
use crate::errors::ServiceError;
use crate::refnums::{refnum_text, refnum_to_text};

verus! {

/// The `apass` reference-catalog name.
pub open spec fn apass_name() -> Seq<u8> {
    seq![97u8, 112u8, 97u8, 115u8, 115u8]
}

/// The `atlas` reference-catalog name.
pub open spec fn atlas_name() -> Seq<u8> {
    seq![97u8, 116u8, 108u8, 97u8, 115u8]
}

/// A valid cone-search request: a known refcat, RA within a turn,
/// declination within the poles, and a radius inside (0, 3600) arcseconds.
pub open spec fn valid_querycat_request(
    refcat: Seq<u8>,
    ra_udeg: int,
    dec_udeg: int,
    radius_udeg: int,
) -> bool {
    &&& (refcat == apass_name() || refcat == atlas_name())
    &&& 0 <= ra_udeg <= 360_000_000
    &&& -90_000_000 <= dec_udeg <= 90_000_000
    &&& 0 < radius_udeg < 1_000_000
}

/// Validate a cone-search request, failing with the bad-request error on
/// anything out of range or an unknown refcat.
pub fn validate_querycat(refcat: &Vec<u8>, ra_udeg: i64, dec_udeg: i64, radius_udeg: i64) -> (r:
    Result<(), ServiceError>)
    ensures
        r is Ok <==> valid_querycat_request(
            refcat@,
            ra_udeg as int,
            dec_udeg as int,
            radius_udeg as int,
        ),
        r is Err ==> r == Err::<(), ServiceError>(ServiceError::BadRequest),
{
    let name_ok: bool = refcat.len() == 5 && refcat[0] == 97 && ((refcat[1] == 112 && refcat[2]
        == 97 && refcat[3] == 115 && refcat[4] == 115) || (refcat[1] == 116 && refcat[2] == 108
        && refcat[3] == 97 && refcat[4] == 115));
    proof {
        if name_ok {
            if refcat@[1] == 112 {
                assert(refcat@ =~= apass_name());
            } else {
                assert(refcat@ =~= atlas_name());
            }
        } else {
            assert(refcat@ != apass_name() && refcat@ != atlas_name());
        }
    }
    if !name_ok {
        return Err(ServiceError::BadRequest);
    }
    if !(0 <= ra_udeg && ra_udeg <= 360_000_000) {
        return Err(ServiceError::BadRequest);
    }
    if !(-90_000_000 <= dec_udeg && dec_udeg <= 90_000_000) {
        return Err(ServiceError::BadRequest);
    }
    if !(0 < radius_udeg && radius_udeg < 1_000_000) {
        return Err(ServiceError::BadRequest);
    }
    Ok(())
}

/// The RA bands a search covers. Polar searches (non-positive minimum
/// cosine) cover the whole turn in one band; otherwise the naive interval
/// `ra ± radius/cos` is split where it crosses the 0/360 meridian.
pub open spec fn spec_ra_bands(ra: int, radius: int, cos_dec_ppm: int) -> (
    (int, int),
    Option<(int, int)>,
) {
    if cos_dec_ppm <= 0 {
        ((0, 360_000_000), None)
    } else {
        let sr = radius * 1_000_000 / cos_dec_ppm;
        let lo = ra - sr;
        let hi = ra + sr;
        if lo <= 0 && hi >= 360_000_000 {
            ((0, 360_000_000), None)
        } else if lo < 0 {
            ((0, hi), Some((lo + 360_000_000, 360_000_000)))
        } else if hi > 360_000_000 {
            ((lo, 360_000_000), Some((0, hi - 360_000_000)))
        } else {
            ((lo, hi), None)
        }
    }
}

/// Compute the RA search bands for a request. `cos_dec_ppm` is the smaller
/// cosine of the two declination limits, in parts per million.
pub fn ra_bands(ra_udeg: i64, radius_udeg: i64, cos_dec_ppm: i64) -> (r: (
    (i64, i64),
    Option<(i64, i64)>,
))
    requires
        0 <= ra_udeg <= 360_000_000,
        0 < radius_udeg < 1_000_000,
        -1_000_000 <= cos_dec_ppm <= 1_000_000,
    ensures
        ({
            let s = spec_ra_bands(ra_udeg as int, radius_udeg as int, cos_dec_ppm as int);
            &&& (r.0.0 as int, r.0.1 as int) == s.0
            &&& match (r.1, s.1) {
                (Some(b), Some(sb)) => (b.0 as int, b.1 as int) == sb,
                (None, None) => true,
                _ => false,
            }
        }),
{
    if cos_dec_ppm <= 0 {
        ((0, 360_000_000), None)
    } else {
        let sr: i64 = radius_udeg * 1_000_000 / cos_dec_ppm;
        let lo: i64 = ra_udeg - sr;
        let hi: i64 = ra_udeg + sr;
        if lo <= 0 && hi >= 360_000_000 {
            ((0, 360_000_000), None)
        } else if lo < 0 {
            ((0, hi), Some((lo + 360_000_000, 360_000_000)))
        } else if hi > 360_000_000 {
            ((lo, 360_000_000), Some((0, hi - 360_000_000)))
        } else {
            ((lo, hi), None)
        }
    }
}

/// A polar search — the minimum cosine not positive — always yields the
/// single full-RA band.
pub proof fn lemma_polar_full_band(ra: int, radius: int, cos_dec_ppm: int)
    requires
        cos_dec_ppm <= 0,
    ensures
        spec_ra_bands(ra, radius, cos_dec_ppm) == (((0int, 360_000_000int), None::<(int, int)>)),
{
}

/// When the naive search interval crosses the 0/360 meridian, the two bands
/// together cover exactly the wrapped interval: an RA in the normalized
/// range lies in one of the bands if and only if it lies in the naive
/// interval modulo a full turn.
pub proof fn lemma_wrap_bands_cover(ra: int, radius: int, cos_dec_ppm: int, x: int)
    requires
        cos_dec_ppm > 0,
        0 <= x < 360_000_000,
        0 <= ra <= 360_000_000,
        radius > 0,
        ra - radius * 1_000_000 / cos_dec_ppm < 0 || ra + radius * 1_000_000 / cos_dec_ppm
            > 360_000_000,
    ensures
        ({
            let sr = radius * 1_000_000 / cos_dec_ppm;
            let lo = ra - sr;
            let hi = ra + sr;
            let bands = spec_ra_bands(ra, radius, cos_dec_ppm);
            let in_first = bands.0.0 <= x <= bands.0.1;
            let in_second = match bands.1 {
                Some(b) => b.0 <= x <= b.1,
                None => false,
            };
            (in_first || in_second) <==> (lo <= x <= hi || lo <= x - 360_000_000 <= hi || lo <= x
                + 360_000_000 <= hi)
        }),
{
    let sr = radius * 1_000_000 / cos_dec_ppm;
    vstd::arithmetic::div_mod::lemma_div_pos_is_pos(radius * 1_000_000, cos_dec_ppm);
    assert(radius * 1_000_000 > 0) by (nonlinear_arith)
        requires
            radius > 0,
    ;
}

/// The request RA shifted by a full turn so it is comparable with a band's
/// RA range: searches split at the meridian see the center from the far
/// side.
pub fn effective_search_ra(ra_udeg: i64, box_ra_min: i64, box_ra_max: i64) -> (r: i64)
    requires
        -360_000_000 <= ra_udeg <= 720_000_000,
        -360_000_000 <= box_ra_min <= 720_000_000,
        -360_000_000 <= box_ra_max <= 720_000_000,
    ensures
        r as int == ra_udeg + (if ra_udeg < box_ra_min {
            360_000_000int
        } else if ra_udeg > box_ra_max {
            -360_000_000int
        } else {
            0int
        }),
{
    if ra_udeg < box_ra_min {
        ra_udeg + 360_000_000
    } else if ra_udeg > box_ra_max {
        ra_udeg - 360_000_000
    } else {
        ra_udeg
    }
}

/// Whether a catalog item passes the positional box test: its declination
/// within the request's declination band, and its RA within
/// `effective RA ± radius / cos(item declination)` — all RAs pass in the
/// degenerate polar case.
pub open spec fn spec_item_in_box(
    req_dec: int,
    radius: int,
    eff_search_ra: int,
    item_ra: int,
    item_dec: int,
    cos_item_ppm: int,
) -> bool {
    &&& !(item_dec < req_dec - radius || item_dec > req_dec + radius)
    &&& ({
        let bounds = if cos_item_ppm <= 0 {
            (0int, 360_000_000int)
        } else {
            (
                eff_search_ra - radius * 1_000_000 / cos_item_ppm,
                eff_search_ra + radius * 1_000_000 / cos_item_ppm,
            )
        };
        !(item_ra < bounds.0 || item_ra > bounds.1)
    })
}

/// Apply the positional box test to one catalog item.
pub fn catalog_item_in_box(
    req_dec: i64,
    radius_udeg: i64,
    eff_search_ra: i64,
    item_ra: i64,
    item_dec: i64,
    cos_item_ppm: i64,
) -> (r: bool)
    requires
        -90_000_000 <= req_dec <= 90_000_000,
        0 < radius_udeg < 1_000_000,
        -720_000_000 <= eff_search_ra <= 1_080_000_000,
        -1_000_000_000_000 <= item_ra <= 1_000_000_000_000,
        -1_000_000_000_000 <= item_dec <= 1_000_000_000_000,
        -1_000_000 <= cos_item_ppm <= 1_000_000,
    ensures
        r == spec_item_in_box(
            req_dec as int,
            radius_udeg as int,
            eff_search_ra as int,
            item_ra as int,
            item_dec as int,
            cos_item_ppm as int,
        ),
{
    if item_dec < req_dec - radius_udeg || item_dec > req_dec + radius_udeg {
        return false;
    }
    let (min_ra, max_ra): (i64, i64) = if cos_item_ppm <= 0 {
        (0, 360_000_000)
    } else {
        let sr: i64 = radius_udeg * 1_000_000 / cos_item_ppm;
        (eff_search_ra - sr, eff_search_ra + sr)
    };
    !(item_ra < min_ra || item_ra > max_ra)
}

/// An RA difference folded into the half-open turn (-180, 180] degrees,
/// adjusting by at most one full turn.
pub fn normalize_delta_ra(delta_udeg: i64) -> (r: i64)
    requires
        -720_000_000 <= delta_udeg <= 720_000_000,
    ensures
        r as int == delta_udeg + (if delta_udeg < -180_000_000 {
            360_000_000int
        } else if delta_udeg > 180_000_000 {
            -360_000_000int
        } else {
            0int
        }),
{
    if delta_udeg < -180_000_000 {
        delta_udeg + 360_000_000
    } else if delta_udeg > 180_000_000 {
        delta_udeg - 360_000_000
    } else {
        delta_udeg
    }
}

/// Signed division truncating toward zero.
pub open spec fn trunc_div(a: int, b: int) -> int {
    if a >= 0 {
        a / b
    } else {
        -((-a) / b)
    }
}

/// The RA offset of the request from an item in milli-arcseconds, projected
/// by the cosine of the midpoint declination (parts per million):
/// `3600 * cos * delta_ra`, truncated to milli-arcseconds.
pub fn dra_mas(cos_mid_ppm: i64, delta_ra_udeg: i64) -> (r: i64)
    requires
        -1_000_000 <= cos_mid_ppm <= 1_000_000,
        -360_000_000 <= delta_ra_udeg <= 360_000_000,
    ensures
        r as int == trunc_div(36 * cos_mid_ppm * delta_ra_udeg, 10_000_000),
{
    proof {
        assert(-36_000_000_000_000_000 <= 36 * (cos_mid_ppm as int) * (delta_ra_udeg as int)
            <= 36_000_000_000_000_000) by (nonlinear_arith)
            requires
                -1_000_000 <= cos_mid_ppm <= 1_000_000,
                -360_000_000 <= delta_ra_udeg <= 360_000_000,
        ;
    }
    let p: i64 = 36 * cos_mid_ppm * delta_ra_udeg;
    if p >= 0 {
        p / 10_000_000
    } else {
        -((-p) / 10_000_000)
    }
}

/// The declination offset of the request from an item in milli-arcseconds:
/// `3600 * delta_dec`, truncated to milli-arcseconds.
pub fn ddec_mas(req_dec_udeg: i64, item_dec_udeg: i64) -> (r: i64)
    requires
        -90_000_000 <= req_dec_udeg <= 90_000_000,
        -1_000_000_000_000 <= item_dec_udeg <= 1_000_000_000_000,
    ensures
        r as int == trunc_div((req_dec_udeg - item_dec_udeg) * 3600, 1000),
{
    let p: i64 = (req_dec_udeg - item_dec_udeg) * 3600;
    if p >= 0 {
        p / 1000
    } else {
        -((-p) / 1000)
    }
}

/// One catalog item's reportable attributes, as they came from the store:
/// numeric attributes stay text, absent attributes are absent.
pub struct CatalogItem {
    pub ref_number: Option<u64>,
    pub gsc_bin_index: Option<String>,
    pub ra_text: Option<String>,
    pub dec_text: Option<String>,
    pub ra_pm: Option<String>,
    pub dec_pm: Option<String>,
    pub ra_sigma_pm: Option<String>,
    pub dec_sigma_pm: Option<String>,
    pub stdmag: Option<String>,
    pub color: Option<String>,
    pub v_flag: Option<String>,
    pub mag_flag: Option<String>,
    pub class: Option<String>,
}

/// An optional attribute's cell text: empty when absent.
pub open spec fn opt_cell(o: Option<String>) -> Seq<char> {
    match o {
        Some(s) => s@,
        None => Seq::empty(),
    }
}

/// The reference-text cell: the catalog-prefixed ID, or the undefined
/// marker when the item has no parsable reference number.
pub open spec fn ref_cell(o: Option<u64>) -> Seq<char> {
    match o {
        Some(n) => refnum_text(n),
        None => "UNDEFINED"@,
    }
}

/// The cells of one output row, in the output column order.
pub open spec fn catalog_cells(item: CatalogItem, dra: int, ddec: int) -> Seq<Seq<char>> {
    seq![
        ref_cell(item.ref_number),
        match item.ref_number {
            Some(n) => crate::decimal::decimal_text(n as nat),
            None => Seq::empty(),
        },
        opt_cell(item.gsc_bin_index),
        opt_cell(item.ra_text),
        opt_cell(item.dec_text),
        milli_text(dra),
        milli_text(ddec),
        "2000.000"@,
        opt_cell(item.ra_pm),
        opt_cell(item.dec_pm),
        opt_cell(item.ra_sigma_pm),
        opt_cell(item.dec_sigma_pm),
        opt_cell(item.stdmag),
        opt_cell(item.color),
        opt_cell(item.v_flag),
        opt_cell(item.mag_flag),
        opt_cell(item.class),
    ]
}

fn opt_cell_string(o: &Option<String>) -> (r: String)
    ensures
        r@ == opt_cell(*o),
{
    match o {
        Some(s) => s.clone(),
        None => String::new(),
    }
}

/// Assemble one output CSV row for an accepted catalog item, given the
/// angular offsets in milli-arcseconds.
pub fn catalog_row(item: &CatalogItem, dra: i64, ddec: i64) -> (r: String)
    requires
        dra > i64::MIN,
        ddec > i64::MIN,
    ensures
        r@ == joined(catalog_cells(*item, dra as int, ddec as int), ','),
{
    let mut cells: Vec<String> = Vec::new();
    let ref_text: String = match &item.ref_number {
        Some(n) => refnum_to_text(*n),
        None => {
            let mut s = String::new();
            s.append("UNDEFINED");
            proof {
                assert(s@ =~= "UNDEFINED"@);
            }
            s
        },
    };
    cells.push(ref_text);
    let ref_num_text: String = match &item.ref_number {
        Some(n) => crate::decimal::u64_to_decimal(*n),
        None => String::new(),
    };
    cells.push(ref_num_text);
    cells.push(opt_cell_string(&item.gsc_bin_index));
    cells.push(opt_cell_string(&item.ra_text));
    cells.push(opt_cell_string(&item.dec_text));
    cells.push(milli_to_decimal(dra));
    cells.push(milli_to_decimal(ddec));
    let mut epoch = String::new();
    epoch.append("2000.000");
    cells.push(epoch);
    cells.push(opt_cell_string(&item.ra_pm));
    cells.push(opt_cell_string(&item.dec_pm));
    cells.push(opt_cell_string(&item.ra_sigma_pm));
    cells.push(opt_cell_string(&item.dec_sigma_pm));
    cells.push(opt_cell_string(&item.stdmag));
    cells.push(opt_cell_string(&item.color));
    cells.push(opt_cell_string(&item.v_flag));
    cells.push(opt_cell_string(&item.mag_flag));
    cells.push(opt_cell_string(&item.class));
    proof {
        assert(cells@.map_values(|s: String| s@) =~= catalog_cells(
            *item,
            dra as int,
            ddec as int,
        ));
    }
    join_csv(&cells)
}

/// The output header row of the cone-search endpoint.
pub fn querycat_header() -> (r: String)
    ensures
        r@
            == "ref_text,ref_number,gscBinIndex,raDeg,decDeg,draAsec,ddecAsec,posEpoch,pmRaMasyr,pmDecMasyr,uPMRaMasyr,uPMDecMasyr,stdmag,color,vFlag,magFlag,class"@,
{
    let mut s = String::new();
    s.append(
        "ref_text,ref_number,gscBinIndex,raDeg,decDeg,draAsec,ddecAsec,posEpoch,pmRaMasyr,pmDecMasyr,uPMRaMasyr,uPMDecMasyr,stdmag,color,vFlag,magFlag,class",
    );
    proof {
        assert(s@ =~= Seq::<char>::empty()
            + "ref_text,ref_number,gscBinIndex,raDeg,decDeg,draAsec,ddecAsec,posEpoch,pmRaMasyr,pmDecMasyr,uPMRaMasyr,uPMDecMasyr,stdmag,color,vFlag,magFlag,class"@);
    }
    s
}

} // verus!
