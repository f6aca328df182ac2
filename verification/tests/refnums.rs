//! Reference-number codec behavior.

use dasch_science::refnums::refnum_to_text;

#[test]
fn zero_is_none() {
    assert_eq!(refnum_to_text(0), "NONE");
}

#[test]
fn refnum_is_pure() {
    assert_eq!(refnum_to_text(120345), refnum_to_text(120345));
    assert_eq!(refnum_to_text(311234561891234), refnum_to_text(311234561891234));
}

#[test]
fn gsc_north() {
    assert_eq!(refnum_to_text(111234), "N1234");
}

#[test]
fn gsc_south() {
    assert_eq!(refnum_to_text(120345), "S0345");
}

#[test]
fn gsc_unknown_hemisphere() {
    assert_eq!(refnum_to_text(130345), "UNKNOWN");
    assert_eq!(refnum_to_text(1), "UNKNOWN");
}

#[test]
fn kepler() {
    assert_eq!(refnum_to_text(2123), "K123");
}

#[test]
fn dasch_positive() {
    // 15 digits, sign digit 1 selects '+'.
    assert_eq!(refnum_to_text(311234561891234), "DASCH_J112345.6+891234");
}

#[test]
fn apass_negative() {
    // 15 digits, sign digit 2 selects '-'.
    assert_eq!(refnum_to_text(411234562891234), "APASS_J112345.6-891234");
}

#[test]
fn dasch_malformed_length() {
    assert_eq!(refnum_to_text(312), "MALFORMED-DASCH/APASS");
}

#[test]
fn dasch_malformed_sign() {
    // Sign digit 7 is neither 1 nor 2.
    assert_eq!(refnum_to_text(311234567891234), "MALFORMED-DASCH/APASS");
}

#[test]
fn tycho() {
    assert_eq!(refnum_to_text(51234), "T1234");
}

#[test]
fn ucac() {
    assert_eq!(refnum_to_text(61234), "U1234");
}

#[test]
fn gaia_unhandled() {
    assert_eq!(refnum_to_text(712345), "UNHANDLED-GAIA1");
    assert_eq!(refnum_to_text(812345), "UNHANDLED-GAIA2");
}

#[test]
fn atlas() {
    assert_eq!(refnum_to_text(91234), "ATLAS2_1234");
}
