//! Exposure query: coverage-line parsing, effective dimensions, the
//! footprint test, the plate-scale table and solution-number inversion.

use dasch_science::mosaics::{exposure_center_usable, plate_scale_mas};
use dasch_science::queryexps::{
    choose_wcs, effective_dims, find_exposure, parse_coverage_line, point_on_plate,
    queryexps_header, queryexps_row, ExposureMeta, MosaicRow, WcsChoice,
};
use dasch_science::wcslib_solnum;

#[test]
fn coverage_line_parses() {
    let (plate, se) = parse_coverage_line(&b"a12345,2,7".to_vec()).expect("valid line");
    assert_eq!(plate, b"a12345".to_vec());
    assert_eq!(se.sol_num, 2);
    assert_eq!(se.exp_num, 7);
}

#[test]
fn coverage_line_ignores_extra_fields() {
    let (plate, se) = parse_coverage_line(&b"mc0001,-1,0,junk,more".to_vec()).expect("valid");
    assert_eq!(plate, b"mc0001".to_vec());
    assert_eq!(se.sol_num, -1);
    assert_eq!(se.exp_num, 0);
}

#[test]
fn coverage_line_rejects_short_or_bad() {
    assert!(parse_coverage_line(&b"plateonly".to_vec()).is_none());
    assert!(parse_coverage_line(&b"plate,1".to_vec()).is_none());
    assert!(parse_coverage_line(&b"plate,x,2".to_vec()).is_none());
    assert!(parse_coverage_line(&b"plate,1,y".to_vec()).is_none());
    assert!(parse_coverage_line(&b"plate,999,1".to_vec()).is_none());
}

#[test]
fn quarter_turns_swap_dimensions() {
    assert_eq!(effective_dims(Some((100, 200)), Some(90), false), (200, 100));
    assert_eq!(effective_dims(Some((100, 200)), Some(-90), false), (200, 100));
    assert_eq!(effective_dims(Some((100, 200)), Some(270), false), (200, 100));
    assert_eq!(effective_dims(Some((100, 200)), Some(-270), false), (200, 100));
    assert_eq!(effective_dims(Some((100, 200)), Some(0), false), (100, 200));
    assert_eq!(effective_dims(Some((100, 200)), Some(180), false), (100, 200));
    assert_eq!(effective_dims(Some((100, 200)), None, false), (100, 200));
}

#[test]
fn missing_mosaic_uses_series_default() {
    assert_eq!(effective_dims(None, Some(90), true), (39255, 39255));
    assert_eq!(effective_dims(None, None, false), (23091, 23091));
}

#[test]
fn footprint_test_uses_half_pixel_margin() {
    assert!(point_on_plate(-500, 0, 100, 100));
    assert!(!point_on_plate(-501, 0, 100, 100));
    assert!(point_on_plate(99_500, 99_500, 100, 100));
    assert!(!point_on_plate(99_501, 0, 100, 100));
    assert!(!point_on_plate(0, 99_501, 100, 100));
}

#[test]
fn plate_scales() {
    assert_eq!(plate_scale_mas(&b"a".to_vec()), Some(59570));
    assert_eq!(plate_scale_mas(&b"lwla".to_vec()), Some(36687));
    assert_eq!(plate_scale_mas(&b"meteor".to_vec()), Some(1200000));
    assert_eq!(plate_scale_mas(&b"hale".to_vec()), Some(11060));
    assert_eq!(plate_scale_mas(&b"zz".to_vec()), None);
    assert_eq!(plate_scale_mas(&b"".to_vec()), None);
}

#[test]
fn exposure_sentinels_are_rejected() {
    assert!(exposure_center_usable(83_800_000, -5_400_000));
    assert!(!exposure_center_usable(999_000_000, 0));
    assert!(!exposure_center_usable(-99_000_000, 0));
    assert!(!exposure_center_usable(0, 99_000_000));
    assert!(!exposure_center_usable(0, -99_000_000));
}

#[test]
fn solnum_inversion() {
    // Externally solutions are in database order; the library stores them
    // reversed.
    assert_eq!(wcslib_solnum(0, 5), Some(4));
    assert_eq!(wcslib_solnum(4, 5), Some(0));
    assert_eq!(wcslib_solnum(2, 5), Some(2));
    assert_eq!(wcslib_solnum(5, 5), None);
    assert_eq!(wcslib_solnum(0, 1), Some(0));
}

#[test]
fn queryexps_header_row() {
    assert_eq!(
        queryexps_header(),
        "series,platenum,scannum,mosnum,expnum,solnum,class,ra,dec,exptime,expdate,epoch,\
         wcssource,scandate,mosdate,centerdist,edgedist"
    );
}

fn exp_meta(number: i8, ra_udeg: Option<i64>, dec_udeg: Option<i64>) -> Option<ExposureMeta> {
    Some(ExposureMeta { number, ra_udeg, dec_udeg })
}

#[test]
fn exposure_lookup_finds_first_match() {
    let exposures = vec![
        None,
        exp_meta(3, None, None),
        exp_meta(1, Some(10), Some(20)),
        exp_meta(1, Some(30), Some(40)),
    ];
    assert_eq!(find_exposure(&exposures, 1), Some(2));
    assert_eq!(find_exposure(&exposures, 3), Some(1));
    assert_eq!(find_exposure(&exposures, 9), None);
    assert_eq!(find_exposure(&Vec::new(), 0), None);
}

#[test]
fn wcs_choice_prefers_solved_solutions() {
    // The solved slot applies the solution-number inversion.
    assert_eq!(
        choose_wcs(0, 2, true, None, true, 100, 200),
        WcsChoice::Solved { slot: 1 }
    );
    assert_eq!(
        choose_wcs(1, 2, true, Some((1, 2)), true, 100, 200),
        WcsChoice::Solved { slot: 0 }
    );
}

#[test]
fn wcs_choice_synthesizes_from_usable_centers() {
    // No parsable header: fall back to the exposure center and plate scale,
    // on a square of the longer side.
    assert_eq!(
        choose_wcs(0, 2, false, Some((83_800_000, -5_400_000)), true, 100, 200),
        WcsChoice::Synthetic { ra_udeg: 83_800_000, dec_udeg: -5_400_000, side: 200 }
    );
    assert_eq!(
        choose_wcs(-1, 0, false, Some((83_800_000, -5_400_000)), true, 300, 200),
        WcsChoice::Synthetic { ra_udeg: 83_800_000, dec_udeg: -5_400_000, side: 300 }
    );
}

#[test]
fn wcs_choice_skips_sentinels_and_unknown_scales() {
    assert_eq!(choose_wcs(-1, 0, false, Some((999_000_000, 0)), true, 100, 100), WcsChoice::Skip);
    assert_eq!(choose_wcs(-1, 0, false, Some((0, -99_000_000)), true, 100, 100), WcsChoice::Skip);
    assert_eq!(choose_wcs(-1, 0, false, Some((1, 2)), false, 100, 100), WcsChoice::Skip);
    assert_eq!(choose_wcs(-1, 0, false, None, true, 100, 100), WcsChoice::Skip);
    assert_eq!(choose_wcs(5, 2, true, None, true, 100, 100), WcsChoice::Skip);
}

#[test]
fn row_with_mosaic() {
    let mosaic = Some(MosaicRow {
        scan_num: 7,
        mos_num: 2,
        creation_date: "2021-01-01".to_string(),
    });
    let row = queryexps_row(
        &"mc".to_string(),
        1234,
        &mosaic,
        3,
        0,
        &Some(("83.800000".to_string(), "-5.400000".to_string())),
        &Some("10.00".to_string()),
        &Some("1920-02-03".to_string()),
        &Some("catalog".to_string()),
        &Some("1.2".to_string()),
        &Some("0.5".to_string()),
    );
    assert_eq!(
        row,
        "mc,1234,7,2,3,0,,83.800000,-5.400000,10.00,1920-02-03,2000,catalog,,2021-01-01,1.2,0.5"
    );
}

#[test]
fn row_without_mosaic_reports_minus_one() {
    let row = queryexps_row(
        &"a".to_string(),
        1,
        &None,
        -1,
        -1,
        &None,
        &None,
        &None,
        &None,
        &None,
        &None,
    );
    assert_eq!(row, "a,1,-1,-1,-1,-1,,,,,,2000,,,,,");
}
