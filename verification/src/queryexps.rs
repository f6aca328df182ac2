//! Exposure-overlap query logic: coverage-CSV candidate parsing, effective
//! mosaic dimensions under the plate's rotation, and the point-on-plate
//! footprint test.

use vstd::prelude::*;
use vstd::string::StringExecFns;

use crate::bytestr::{copy_byte_range, join_csv, joined};
use crate::decimal::{decimal_text, i64_to_decimal, signed_decimal_text, u64_to_decimal};
use crate::mosaics::spec_center_usable;
use crate::parse::{find_byte, find_byte_from, parse_i8_bytes, spec_parse_i8};
use crate::querycat::opt_cell;

verus! {

/// One candidate from the coarse sky index: a solution number and an
/// exposure number on some plate.
#[derive(Clone, Copy, Debug, PartialEq, Eq, Structural)]
pub struct SolExp {
    pub sol_num: i8,
    pub exp_num: i8,
}

/// What parsing one coverage-CSV line yields: the plate id and the first
/// two numeric fields, or nothing for a line without at least three comma
/// fields or with unparsable numbers. Fields past the third are ignored.
pub open spec fn spec_parse_coverage(s: Seq<u8>) -> Option<(Seq<u8>, i8, i8)> {
    let c1 = find_byte(s, 44);
    if c1 < 0 {
        None
    } else {
        let rest1 = s.skip(c1 + 1);
        let c2 = find_byte(rest1, 44);
        if c2 < 0 {
            None
        } else {
            let sol_t = rest1.subrange(0, c2);
            let rest2 = rest1.skip(c2 + 1);
            let c3 = find_byte(rest2, 44);
            let exp_t = if c3 < 0 {
                rest2
            } else {
                rest2.subrange(0, c3)
            };
            match (spec_parse_i8(sol_t), spec_parse_i8(exp_t)) {
                (Some(a), Some(b)) => Some((s.subrange(0, c1), a, b)),
                _ => None,
            }
        }
    }
}

/// Parse one coverage-CSV line into a plate id and its candidate pair.
#[verifier::loop_isolation(false)]
pub fn parse_coverage_line(line: &Vec<u8>) -> (r: Option<(Vec<u8>, SolExp)>)
    ensures
        match r {
            Some((plate, se)) => spec_parse_coverage(line@) == Some(
                (plate@, se.sol_num, se.exp_num),
            ),
            None => spec_parse_coverage(line@) is None,
        },
{
    proof {
        assert(line@.skip(0) =~= line@);
    }
    let n = line.len();
    let c1 = match find_byte_from(line, 44, 0) {
        Some(i) => i,
        None => {
            return None;
        },
    };
    let ghost rest1 = line@.skip(c1 + 1);
    let c2 = match find_byte_from(line, 44, c1 + 1) {
        Some(i) => i,
        None => {
            proof {
                if find_byte(rest1, 44) >= 0 {
                    crate::parse::lemma_find_byte(rest1, 44);
                    assert(line@[c1 + 1 + find_byte(rest1, 44)] == rest1[find_byte(rest1, 44)]);
                }
            }
            return None;
        },
    };
    proof {
        assert(find_byte(rest1, 44) == c2 - (c1 + 1));
        assert(rest1.subrange(0, c2 - (c1 + 1)) =~= line@.subrange(c1 + 1, c2 as int));
    }
    let ghost rest2 = rest1.skip(c2 - c1);
    proof {
        assert(rest2 =~= line@.skip(c2 + 1));
    }
    let exp_end: usize = match find_byte_from(line, 44, c2 + 1) {
        Some(i) => {
            proof {
                assert(find_byte(rest2, 44) == i - (c2 + 1));
                assert(rest2.subrange(0, i - (c2 + 1)) =~= line@.subrange(c2 + 1, i as int));
            }
            i
        },
        None => {
            proof {
                assert(find_byte(rest2, 44) == -1);
                assert(rest2 =~= line@.subrange(c2 + 1, n as int));
            }
            n
        },
    };
    let sol_text = copy_byte_range(line, c1 + 1, c2);
    let exp_text = copy_byte_range(line, c2 + 1, exp_end);
    let sol_num = match parse_i8_bytes(&sol_text) {
        Some(v) => v,
        None => {
            return None;
        },
    };
    let exp_num = match parse_i8_bytes(&exp_text) {
        Some(v) => v,
        None => {
            return None;
        },
    };
    let plate = copy_byte_range(line, 0, c1);
    Some((plate, SolExp { sol_num, exp_num }))
}

/// The effective plate dimensions for footprint tests: the mosaic's, with
/// width and height swapped when the solution frame is a quarter turn from
/// the mosaic frame; without a mosaic, the legacy per-series default square
/// size.
pub open spec fn spec_effective_dims(
    mosaic: Option<(usize, usize)>,
    rotation_delta: Option<i64>,
    series_is_a: bool,
) -> (int, int) {
    match mosaic {
        Some((w, h)) => {
            let quarter = match rotation_delta {
                Some(r) => r == 90 || r == -90 || r == 270 || r == -270,
                None => false,
            };
            if quarter {
                (h as int, w as int)
            } else {
                (w as int, h as int)
            }
        },
        None => if series_is_a {
            (39255, 39255)
        } else {
            (23091, 23091)
        },
    }
}

/// Determine the effective plate dimensions for a candidate.
pub fn effective_dims(
    mosaic: Option<(usize, usize)>,
    rotation_delta: Option<i64>,
    series_is_a: bool,
) -> (r: (usize, usize))
    ensures
        (r.0 as int, r.1 as int) == spec_effective_dims(mosaic, rotation_delta, series_is_a),
{
    match mosaic {
        Some((w, h)) => {
            let quarter = match rotation_delta {
                Some(r) => r == 90 || r == -90 || r == 270 || r == -270,
                None => false,
            };
            if quarter {
                (h, w)
            } else {
                (w, h)
            }
        },
        None => if series_is_a {
            (39255, 39255)
        } else {
            (23091, 23091)
        },
    }
}

/// A quarter-turn rotation delta always swaps the mosaic's width and
/// height for the footprint test.
pub proof fn lemma_quarter_turn_swaps_dims(w: usize, h: usize, r: i64, series_is_a: bool)
    requires
        r == 90 || r == -90 || r == 270 || r == -270,
    ensures
        spec_effective_dims(Some((w, h)), Some(r), series_is_a) == (h as int, w as int),
{
}

/// Whether a transformed point lands on the plate: both pixel coordinates
/// within half a pixel of the image, in milli-pixels.
pub fn point_on_plate(x_mpix: i64, y_mpix: i64, width: usize, height: usize) -> (r: bool)
    requires
        width <= crate::cutout::SIDE_BOUND,
        height <= crate::cutout::SIDE_BOUND,
    ensures
        r == (-500 <= x_mpix <= 1000 * width - 500 && -500 <= y_mpix <= 1000 * height - 500),
{
    let wb: i64 = 1000 * (width as i64) - 500;
    let hb: i64 = 1000 * (height as i64) - 500;
    -500 <= x_mpix && x_mpix <= wb && -500 <= y_mpix && y_mpix <= hb
}

/// One entry of a plate's exposure list, as the candidate logic reads it:
/// its exposure number and, when known, its stored center.
#[derive(Clone, Copy, Debug, PartialEq, Eq, Structural)]
pub struct ExposureMeta {
    pub number: i8,
    pub ra_udeg: Option<i64>,
    pub dec_udeg: Option<i64>,
}

/// A present exposure entry with the wanted number.
pub open spec fn exposure_matches(e: Option<ExposureMeta>, exp_num: i8) -> bool {
    match e {
        Some(x) => x.number == exp_num,
        None => false,
    }
}

/// Find the exposure record of interest: the exposure list is ordered to
/// match the solutions, not by exposure number, and holds null entries, so
/// this is the position of the first present entry with the wanted number.
pub fn find_exposure(exposures: &Vec<Option<ExposureMeta>>, exp_num: i8) -> (r: Option<usize>)
    ensures
        match r {
            Some(i) => {
                &&& i < exposures@.len()
                &&& exposure_matches(exposures@[i as int], exp_num)
                &&& forall|j: int| 0 <= j < i ==> !exposure_matches(exposures@[j], exp_num)
            },
            None => forall|j: int|
                0 <= j < exposures@.len() ==> !exposure_matches(exposures@[j], exp_num),
        },
{
    let n = exposures.len();
    let mut i: usize = 0;
    while i < n
        invariant
            i <= n,
            n == exposures@.len(),
            forall|j: int| 0 <= j < i ==> !exposure_matches(exposures@[j], exp_num),
        decreases n - i,
    {
        let hit = match &exposures[i] {
            Some(e) => e.number == exp_num,
            None => false,
        };
        if hit {
            return Some(i);
        }
        i = i + 1;
    }
    None
}

/// Which coordinate source a candidate uses: a solved solution (by its slot
/// in the library's reversed solution list), a synthetic tangent-plane
/// solution from the exposure's stored center, or nothing.
#[derive(Clone, Copy, Debug, PartialEq, Eq, Structural)]
pub enum WcsChoice {
    Solved { slot: usize },
    Synthetic { ra_udeg: i64, dec_udeg: i64, side: usize },
    Skip,
}

/// The coordinate-source decision: a solved solution when the candidate's
/// solution number is within the parsed header's solutions; otherwise a
/// synthetic solution when the exposure center is present without
/// placeholder sentinels and the series' plate scale is known, sized to a
/// square of the longer mosaic side; otherwise nothing.
pub open spec fn spec_choose_wcs(
    sol_num: i8,
    n_solutions: int,
    header_ok: bool,
    exposure_center: Option<(i64, i64)>,
    scale_known: bool,
    width: int,
    height: int,
) -> WcsChoice {
    if 0 <= sol_num && (sol_num as int) < n_solutions && header_ok {
        (WcsChoice::Solved { slot: (n_solutions - 1 - sol_num) as usize })
    } else {
        match exposure_center {
            Some((ra, dec)) => if spec_center_usable(ra as int, dec as int) && scale_known {
                (WcsChoice::Synthetic {
                    ra_udeg: ra,
                    dec_udeg: dec,
                    side: (if width > height {
                        width
                    } else {
                        height
                    }) as usize,
                })
            } else {
                WcsChoice::Skip
            },
            None => WcsChoice::Skip,
        }
    }
}

/// Decide which coordinate source a candidate uses.
pub fn choose_wcs(
    sol_num: i8,
    n_solutions: usize,
    header_ok: bool,
    exposure_center: Option<(i64, i64)>,
    scale_known: bool,
    width: usize,
    height: usize,
) -> (r: WcsChoice)
    ensures
        r == spec_choose_wcs(
            sol_num,
            n_solutions as int,
            header_ok,
            exposure_center,
            scale_known,
            width as int,
            height as int,
        ),
{
    if sol_num >= 0 && (sol_num as usize) < n_solutions && header_ok {
        WcsChoice::Solved { slot: n_solutions - 1 - (sol_num as usize) }
    } else {
        match exposure_center {
            Some((ra, dec)) => {
                if crate::mosaics::exposure_center_usable(ra, dec) && scale_known {
                    let side = if width > height {
                        width
                    } else {
                        height
                    };
                    WcsChoice::Synthetic { ra_udeg: ra, dec_udeg: dec, side }
                } else {
                    WcsChoice::Skip
                }
            },
            None => WcsChoice::Skip,
        }
    }
}

/// The mosaic attributes an output row reports.
pub struct MosaicRow {
    pub scan_num: i8,
    pub mos_num: i8,
    pub creation_date: String,
}

/// The cells of one output row, in the output column order: plates without
/// a mosaic report scan and mosaic numbers of -1 and an empty mosaic date,
/// the class and scan-date columns are always empty, and the epoch is
/// always 2000.
pub open spec fn queryexps_cells(
    series: Seq<char>,
    plate_number: u64,
    mosaic: Option<MosaicRow>,
    exp_num: i8,
    sol_num: i8,
    center: Option<(String, String)>,
    exptime: Option<String>,
    expdate: Option<String>,
    wcs_source: Option<String>,
    centerdist: Option<String>,
    edgedist: Option<String>,
) -> Seq<Seq<char>> {
    seq![
        series,
        decimal_text(plate_number as nat),
        match mosaic {
            Some(m) => signed_decimal_text(m.scan_num as int),
            None => signed_decimal_text(-1),
        },
        match mosaic {
            Some(m) => signed_decimal_text(m.mos_num as int),
            None => signed_decimal_text(-1),
        },
        signed_decimal_text(exp_num as int),
        signed_decimal_text(sol_num as int),
        Seq::empty(),
        match center {
            Some(c) => c.0@,
            None => Seq::empty(),
        },
        match center {
            Some(c) => c.1@,
            None => Seq::empty(),
        },
        opt_cell(exptime),
        opt_cell(expdate),
        "2000"@,
        opt_cell(wcs_source),
        Seq::empty(),
        match mosaic {
            Some(m) => m.creation_date@,
            None => Seq::empty(),
        },
        opt_cell(centerdist),
        opt_cell(edgedist),
    ]
}

fn text_cell(o: &Option<String>) -> (r: String)
    ensures
        r@ == opt_cell(*o),
{
    match o {
        Some(s) => s.clone(),
        None => String::new(),
    }
}

/// Assemble one output row for a candidate that passed the footprint test.
/// The transform-derived fields (center position, exposure duration, center
/// and edge distances) arrive pre-rendered; everything else is rendered
/// here.
pub fn queryexps_row(
    series: &String,
    plate_number: u64,
    mosaic: &Option<MosaicRow>,
    exp_num: i8,
    sol_num: i8,
    center: &Option<(String, String)>,
    exptime: &Option<String>,
    expdate: &Option<String>,
    wcs_source: &Option<String>,
    centerdist: &Option<String>,
    edgedist: &Option<String>,
) -> (r: String)
    ensures
        r@ == joined(
            queryexps_cells(
                series@,
                plate_number,
                *mosaic,
                exp_num,
                sol_num,
                *center,
                *exptime,
                *expdate,
                *wcs_source,
                *centerdist,
                *edgedist,
            ),
            ',',
        ),
{
    let mut cells: Vec<String> = Vec::new();
    cells.push(series.clone());
    cells.push(u64_to_decimal(plate_number));
    match mosaic {
        Some(m) => {
            cells.push(i64_to_decimal(m.scan_num as i64));
            cells.push(i64_to_decimal(m.mos_num as i64));
        },
        None => {
            cells.push(i64_to_decimal(-1));
            cells.push(i64_to_decimal(-1));
        },
    }
    cells.push(i64_to_decimal(exp_num as i64));
    cells.push(i64_to_decimal(sol_num as i64));
    cells.push(String::new());
    match center {
        Some(c) => {
            cells.push(c.0.clone());
            cells.push(c.1.clone());
        },
        None => {
            cells.push(String::new());
            cells.push(String::new());
        },
    }
    cells.push(text_cell(exptime));
    cells.push(text_cell(expdate));
    let mut epoch = String::new();
    epoch.append("2000");
    cells.push(epoch);
    cells.push(text_cell(wcs_source));
    cells.push(String::new());
    match mosaic {
        Some(m) => cells.push(m.creation_date.clone()),
        None => cells.push(String::new()),
    }
    cells.push(text_cell(centerdist));
    cells.push(text_cell(edgedist));
    proof {
        assert(cells@.map_values(|s: String| s@) =~= queryexps_cells(
            series@,
            plate_number,
            *mosaic,
            exp_num,
            sol_num,
            *center,
            *exptime,
            *expdate,
            *wcs_source,
            *centerdist,
            *edgedist,
        ));
    }
    join_csv(&cells)
}

/// The output header row of the exposure-overlap endpoint.
pub fn queryexps_header() -> (r: String)
    ensures
        r@
            == "series,platenum,scannum,mosnum,expnum,solnum,class,ra,dec,exptime,expdate,epoch,wcssource,scandate,mosdate,centerdist,edgedist"@,
{
    let mut s = String::new();
    s.append(
        "series,platenum,scannum,mosnum,expnum,solnum,class,ra,dec,exptime,expdate,epoch,wcssource,scandate,mosdate,centerdist,edgedist",
    );
    proof {
        assert(s@ =~= Seq::<char>::empty()
            + "series,platenum,scannum,mosnum,expnum,solnum,class,ra,dec,exptime,expdate,epoch,wcssource,scandate,mosdate,centerdist,edgedist"@);
    }
    s
}

} // verus!
