//! ASCII-FITS loader: record framing, the TAN-to-TPV rewrite, and the
//! gzipped-blob entry point.

use dasch_science::header::{load_ascii_fits, load_b01_header, rewrite_tan_record};

fn ctype_record() -> Vec<u8> {
    let mut rec = Vec::new();
    rec.extend_from_slice(b"CTYPE1  = 'RA---TAN'");
    while rec.len() < 80 {
        rec.push(b' ');
    }
    // Place the projection code at the canonical offset 15..19.
    assert_eq!(&rec[15..19], b"-TAN");
    rec
}

fn plain_record(fill: u8) -> Vec<u8> {
    vec![fill; 80]
}

fn joined(records: &[Vec<u8>]) -> Vec<u8> {
    let mut out = Vec::new();
    for (i, r) in records.iter().enumerate() {
        if i > 0 {
            out.push(b'\n');
        }
        out.extend_from_slice(r);
    }
    out
}

#[test]
fn three_records() {
    let src = joined(&[plain_record(b'A'), ctype_record(), plain_record(b'B')]);
    let (buf, nrec) = load_ascii_fits(&src).expect("valid blob");
    assert_eq!(nrec, 3);
    assert_eq!(buf.len(), 240);
    assert_eq!(&buf[0..80], &plain_record(b'A')[..]);
    assert_eq!(&buf[80 + 15..80 + 19], b"-TPV");
    assert_eq!(&buf[160..240], &plain_record(b'B')[..]);
}

#[test]
fn empty_blob_is_zero_records() {
    let (buf, nrec) = load_ascii_fits(&Vec::new()).expect("empty blob");
    assert_eq!(nrec, 0);
    assert!(buf.is_empty());
}

#[test]
fn trailing_lf_is_clean_boundary() {
    let mut src = joined(&[plain_record(b'A')]);
    src.push(b'\n');
    let (buf, nrec) = load_ascii_fits(&src).expect("boundary stop");
    assert_eq!(nrec, 1);
    assert_eq!(buf.len(), 80);
}

#[test]
fn bad_separator_fails() {
    let mut src = joined(&[plain_record(b'A'), plain_record(b'B')]);
    src[80] = b'X';
    assert!(load_ascii_fits(&src).is_err());
}

#[test]
fn partial_record_fails() {
    let mut src = joined(&[plain_record(b'A')]);
    src.push(b'\n');
    src.extend_from_slice(&[b'C'; 40]);
    assert!(load_ascii_fits(&src).is_err());
}

#[test]
fn rewrite_is_idempotent_and_targeted() {
    let mut rec = ctype_record();
    rewrite_tan_record(&mut rec);
    assert_eq!(&rec[15..19], b"-TPV");
    let once = rec.clone();
    rewrite_tan_record(&mut rec);
    assert_eq!(rec, once);

    let mut other = plain_record(b'Z');
    let before = other.clone();
    rewrite_tan_record(&mut other);
    assert_eq!(other, before);
}

#[test]
fn gzipped_header_round_trip() {
    let src = joined(&[ctype_record(), plain_record(b'Q')]);
    let mut encoder =
        flate2::write::GzEncoder::new(Vec::new(), flate2::Compression::default());
    std::io::Write::write_all(&mut encoder, &src).unwrap();
    let gz = encoder.finish().unwrap();
    assert_ne!(gz, src);

    let (buf, nrec) = load_b01_header(&gz).expect("valid gzipped header");
    assert_eq!(nrec, 2);
    assert_eq!(buf.len(), 160);
    assert_eq!(&buf[15..19], b"-TPV");
}

#[test]
fn corrupt_gzip_fails() {
    let gz = vec![0x1f, 0x8b, 0x00, 0x01, 0x02];
    assert!(load_b01_header(&gz).is_err());
}
