//! Sky binning: construction totals, declination bins, and total-bin ranges.

use dasch_science::gscbin::GscBinning;

const D2R: f64 = 0.017453292519943295;

fn counts(bin_size: f64, dec_bins: usize) -> Vec<usize> {
    (0..dec_bins)
        .map(|i| {
            let declination = i as f64 * bin_size - 90.0;
            (360.0 / bin_size * f64::cos((declination + bin_size / 2.0) * D2R)) as usize
        })
        .collect()
}

fn bin64() -> GscBinning {
    GscBinning::new64(&counts(0.015625, 11520)).expect("bin64 table total")
}

fn bin1() -> GscBinning {
    let c = counts(1.0, 180);
    let total: usize = c.iter().sum();
    GscBinning::new_generic(1, 180, total, &c).expect("bin1 table total")
}

#[test]
fn bin64_total_is_expected() {
    // The cosine-weighted table sums to the empirically expected grand total.
    let c = counts(0.015625, 11520);
    let total: usize = c.iter().sum();
    assert_eq!(total, 168966386);
    assert!(GscBinning::new64(&c).is_ok());
}

#[test]
fn wrong_total_is_rejected() {
    let c = counts(0.015625, 11520);
    assert!(GscBinning::new_generic(64, 11520, 168966385, &c).is_err());
}

#[test]
fn wrong_band_count_is_rejected() {
    let c = counts(1.0, 179);
    assert!(GscBinning::new_generic(1, 180, 129600, &c).is_err());
}

#[test]
fn dec_bin_clamps_at_pole() {
    let b = bin64();
    assert_eq!(b.get_dec_bin(90_000_000), 11519);
    assert_eq!(b.get_dec_bin(-90_000_000), 0);
}

#[test]
fn dec_bin_examples() {
    let b = bin1();
    assert_eq!(b.get_dec_bin(0), 90);
    assert_eq!(b.get_dec_bin(-89_500_000), 0);
    assert_eq!(b.get_dec_bin(500_000), 90);
}

#[test]
fn total_bin_in_range() {
    let b = bin64();
    for &(dec, ra) in &[
        (0i64, 0i64),
        (90_000_000, 359_999_999),
        (-90_000_000, 123_456_789),
        (45_000_000, 180_000_000),
        (-30_000_000, 720_000_001),
        (12_345_678, -90_000_000),
    ] {
        let db = b.get_dec_bin(dec);
        let tb = b.get_total_bin(db, ra);
        assert!(tb < 168966386);
    }
}

#[test]
fn total_bin_wraps_ra() {
    let b = bin1();
    let db = b.get_dec_bin(0);
    assert_eq!(b.get_total_bin(db, 10_000_000), b.get_total_bin(db, 370_000_000));
    assert_eq!(b.get_total_bin(db, 10_000_000), b.get_total_bin(db, -350_000_000));
}

#[test]
fn polar_bins_collapse() {
    // A 10 arcsecond radius at the north pole: both declination limits land
    // in the last band.
    let b = bin64();
    let radius_udeg = (10.0 / 3600.0 * 1e6) as i64;
    let bin_lo = b.get_dec_bin(90_000_000 - radius_udeg);
    let bin_hi = b.get_dec_bin(90_000_000);
    assert_eq!(bin_lo, 11519);
    assert_eq!(bin_hi, 11519);
}
