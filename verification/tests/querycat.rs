//! Cone search: validation, RA bands, the item box filter, offsets and row
//! assembly.

use dasch_science::errors::ServiceError;
use dasch_science::querycat::{
    catalog_item_in_box, catalog_row, ddec_mas, dra_mas, effective_search_ra, normalize_delta_ra,
    querycat_header, ra_bands, validate_querycat, CatalogItem,
};

const D2R: f64 = 0.017453292519943295;

fn cos_ppm(deg: f64) -> i64 {
    (f64::cos(deg * D2R) * 1_000_000.0) as i64
}

#[test]
fn validation() {
    let apass = b"apass".to_vec();
    let atlas = b"atlas".to_vec();
    assert!(validate_querycat(&apass, 100_000, 0, 16_666).is_ok());
    assert!(validate_querycat(&atlas, 360_000_000, -90_000_000, 999_999).is_ok());
    assert_eq!(
        validate_querycat(&b"gaia".to_vec(), 0, 0, 1000),
        Err(ServiceError::BadRequest)
    );
    assert_eq!(
        validate_querycat(&apass, -1, 0, 1000),
        Err(ServiceError::BadRequest)
    );
    assert_eq!(
        validate_querycat(&apass, 0, 90_000_001, 1000),
        Err(ServiceError::BadRequest)
    );
    assert_eq!(
        validate_querycat(&apass, 0, 0, 0),
        Err(ServiceError::BadRequest)
    );
    assert_eq!(
        validate_querycat(&apass, 0, 0, 1_000_000),
        Err(ServiceError::BadRequest)
    );
}

#[test]
fn polar_search_is_single_full_band() {
    // Declination 90 with a 10 arcsecond radius: the clamped band cosine
    // rounds to zero parts per million, so RA covers the whole turn.
    let radius_udeg = (10.0 / 3600.0 * 1e6) as i64;
    let min_dec = 90.0 - 10.0 / 3600.0;
    let c = cos_ppm(min_dec).min(cos_ppm(90.0));
    let bands = ra_bands(123_000_000, radius_udeg, c);
    assert_eq!(bands.0, (0, 360_000_000));
    assert!(bands.1.is_none());
}

#[test]
fn meridian_crossing_makes_two_bands() {
    // A search near RA 0 whose box spans the meridian splits into two
    // bands that together cover the wrapped interval.
    let ra = 100_000i64;  // 0.1 degree
    let radius_udeg = (600.0 / 3600.0 * 1e6) as i64;  // 10 arcminutes
    let c = cos_ppm(0.0);
    let ((lo1, hi1), second) = ra_bands(ra, radius_udeg, c);
    let (lo2, hi2) = second.expect("wraparound splits the search");
    assert_eq!((lo1, hi1), (0, ra + radius_udeg * 1_000_000 / c));
    assert_eq!(hi2, 360_000_000);
    assert_eq!(lo2, ra - radius_udeg * 1_000_000 / c + 360_000_000);
}

#[test]
fn small_radius_at_low_ra_stays_single() {
    // With RA 0.1 degree and a 60 arcsecond radius the naive interval stays
    // inside [0, 360]: one band, no wraparound.
    let ra = 100_000i64;
    let radius_udeg = (60.0 / 3600.0 * 1e6) as i64;
    let c = cos_ppm(0.0);
    let (band, second) = ra_bands(ra, radius_udeg, c);
    assert!(second.is_none());
    assert_eq!(band, (ra - radius_udeg, ra + radius_udeg));
}

#[test]
fn effective_ra_shifts_by_a_turn() {
    assert_eq!(effective_search_ra(100_000, 359_000_000, 360_000_000), 360_100_000);
    assert_eq!(effective_search_ra(359_900_000, 0, 1_000_000), -100_000);
    assert_eq!(effective_search_ra(180_000_000, 0, 360_000_000), 180_000_000);
}

#[test]
fn item_box_filter() {
    let radius = 16_666i64;  // about one arcminute
    // Declination too far: rejected regardless of RA.
    assert!(!catalog_item_in_box(0, radius, 100_000, 100_000, 50_000, cos_ppm(0.05)));
    // In the box.
    assert!(catalog_item_in_box(0, radius, 100_000, 100_000, 10_000, cos_ppm(0.01)));
    // RA too far at the same declination.
    assert!(!catalog_item_in_box(0, radius, 100_000, 200_000, 10_000, cos_ppm(0.01)));
    // Degenerate cosine accepts any RA.
    assert!(catalog_item_in_box(0, radius, 100_000, 359_000_000, 10_000, 0));
}

#[test]
fn delta_ra_normalization() {
    assert_eq!(normalize_delta_ra(200_000_000), -160_000_000);
    assert_eq!(normalize_delta_ra(-200_000_000), 160_000_000);
    assert_eq!(normalize_delta_ra(170_000_000), 170_000_000);
    assert_eq!(normalize_delta_ra(180_000_000), 180_000_000);
}

#[test]
fn angular_offsets() {
    // One degree of RA at the equator is 3600 arcseconds.
    assert_eq!(dra_mas(1_000_000, 1_000_000), 3_600_000);
    // Cosine scales the projection.
    assert_eq!(dra_mas(500_000, 1_000_000), 1_800_000);
    assert_eq!(dra_mas(500_000, -1_000_000), -1_800_000);
    // One degree of declination is 3600 arcseconds.
    assert_eq!(ddec_mas(1_000_000, 0), 3_600_000);
    assert_eq!(ddec_mas(0, 1_000_000), -3_600_000);
}

#[test]
fn querycat_header_row() {
    assert_eq!(
        querycat_header(),
        "ref_text,ref_number,gscBinIndex,raDeg,decDeg,draAsec,ddecAsec,posEpoch,pmRaMasyr,\
         pmDecMasyr,uPMRaMasyr,uPMDecMasyr,stdmag,color,vFlag,magFlag,class"
    );
}

fn item() -> CatalogItem {
    CatalogItem {
        ref_number: Some(712345),
        gsc_bin_index: Some("123456".to_string()),
        ra_text: Some("83.8".to_string()),
        dec_text: Some("-5.4".to_string()),
        ra_pm: None,
        dec_pm: None,
        ra_sigma_pm: None,
        dec_sigma_pm: None,
        stdmag: Some("12.3".to_string()),
        color: None,
        v_flag: Some("0".to_string()),
        mag_flag: None,
        class: None,
    }
}

#[test]
fn row_assembly() {
    let row = catalog_row(&item(), 1234, -567);
    assert_eq!(
        row,
        "UNHANDLED-GAIA1,712345,123456,83.8,-5.4,1.234,-0.567,2000.000,,,,,12.3,,0,,"
    );
}

#[test]
fn row_without_refnum_is_undefined() {
    let mut it = item();
    it.ref_number = None;
    let row = catalog_row(&it, 0, 0);
    assert!(row.starts_with("UNDEFINED,,123456,"));
    assert!(row.contains(",0.000,0.000,2000.000,"));
}
