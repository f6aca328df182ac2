//! FITS builder: card layout, keyword overwrite, pixel encoding and block
//! padding.

use dasch_science::cutout::build_cutout_header;
use dasch_science::fits::FitsFile;

fn card<'a>(stream: &'a [u8], i: usize) -> &'a [u8] {
    &stream[80 * i..80 * (i + 1)]
}

fn card_text(stream: &[u8], i: usize) -> String {
    String::from_utf8(card(stream, i).to_vec()).unwrap()
}

#[test]
fn square_image_stream_layout() {
    let mut f = FitsFile::create_mem();
    f.write_square_image_header(2);
    f.write_pixels(vec![1, 2, -1, 258]);
    let bytes = f.into_stream();
    assert_eq!(bytes.len(), 5760);

    assert_eq!(
        card_text(&bytes, 0),
        format!("{:<80}", "SIMPLE  =                    T")
    );
    assert_eq!(
        card_text(&bytes, 1),
        format!("{:<80}", "BITPIX  =                   16")
    );
    assert_eq!(
        card_text(&bytes, 2),
        format!("{:<80}", "NAXIS   =                    2")
    );
    assert_eq!(
        card_text(&bytes, 3),
        format!("{:<80}", "NAXIS1  =                    2")
    );
    assert_eq!(
        card_text(&bytes, 4),
        format!("{:<80}", "NAXIS2  =                    2")
    );
    assert_eq!(&card(&bytes, 5)[0..3], b"END");
    // Header padding is blank.
    assert!(bytes[480..2880].iter().all(|&b| b == b' '));
    // Pixels are big-endian 16-bit: 1, 2, -1, 258.
    assert_eq!(&bytes[2880..2888], &[0, 1, 0, 2, 0xff, 0xff, 1, 2]);
    // Data padding is zero.
    assert!(bytes[2888..5760].iter().all(|&b| b == 0));
}

#[test]
fn header_only_stream() {
    let mut f = FitsFile::create_mem();
    f.write_square_image_header(835);
    let bytes = f.into_stream();
    assert_eq!(bytes.len(), 2880);
}

#[test]
fn string_and_scaled_cards() {
    let mut f = FitsFile::create_mem();
    f.set_string_header(&b"CTYPE1".to_vec(), &b"RA---TAN".to_vec());
    f.set_string_header(&b"CUNIT1".to_vec(), &b"deg".to_vec());
    f.set_scaled_header(&b"CD1_1".to_vec(), -400, 6);
    f.set_u16_header(&b"BLANK".to_vec(), 0);
    let bytes = f.into_stream();
    assert_eq!(card_text(&bytes, 0), format!("{:<80}", "CTYPE1  = 'RA---TAN'"));
    assert_eq!(card_text(&bytes, 1), format!("{:<80}", "CUNIT1  = 'deg     '"));
    assert_eq!(
        card_text(&bytes, 2),
        format!("{:<80}", "CD1_1   =            -0.000400")
    );
    assert_eq!(
        card_text(&bytes, 3),
        format!("{:<80}", "BLANK   =                    0")
    );
}

#[test]
fn setting_a_keyword_twice_overwrites() {
    let mut f = FitsFile::create_mem();
    f.set_u16_header(&b"BLANK".to_vec(), 7);
    f.set_u16_header(&b"BLANK".to_vec(), 9);
    let bytes = f.into_stream();
    assert_eq!(
        card_text(&bytes, 0),
        format!("{:<80}", "BLANK   =                    9")
    );
    assert_eq!(&card(&bytes, 1)[0..3], b"END");
}

#[test]
fn cutout_header_cards() {
    let f = build_cutout_header(83_800_000, -5_400_000);
    let bytes = f.into_stream();
    assert_eq!(
        card_text(&bytes, 3),
        format!("{:<80}", "NAXIS1  =                  835")
    );
    assert_eq!(
        card_text(&bytes, 5),
        format!("{:<80}", "BLANK   =                    0")
    );
    assert_eq!(card_text(&bytes, 6), format!("{:<80}", "CTYPE1  = 'RA---TAN'"));
    assert_eq!(card_text(&bytes, 7), format!("{:<80}", "CTYPE2  = 'DEC--TAN'"));
    assert_eq!(
        card_text(&bytes, 10),
        format!("{:<80}", "CRVAL1  =            83.800000")
    );
    assert_eq!(
        card_text(&bytes, 11),
        format!("{:<80}", "CRVAL2  =            -5.400000")
    );
    assert_eq!(
        card_text(&bytes, 12),
        format!("{:<80}", "CD1_1   =            -0.000400")
    );
    assert_eq!(
        card_text(&bytes, 13),
        format!("{:<80}", "CD2_2   =             0.000400")
    );
    assert_eq!(
        card_text(&bytes, 14),
        format!("{:<80}", "CRPIX1  =           418.000000")
    );
    assert_eq!(
        card_text(&bytes, 15),
        format!("{:<80}", "CRPIX2  =           418.000000")
    );
}
