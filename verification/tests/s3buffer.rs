//! Remote range reader: buffer selection, residency, refills and the
//! truncated-read error.

use dasch_science::s3buffer::{BufferKind, ReadStep, S3Buffer, split_bucket_key};

fn fetch_pattern(offset: u64, length: usize) -> Vec<u8> {
    (0..length).map(|i| ((offset as usize + i) % 251) as u8).collect()
}

fn do_read(buf: &mut S3Buffer, offset: u64, nbytes: usize) -> (Vec<u8>, bool) {
    match buf.start_read(offset, nbytes) {
        ReadStep::Served(v) => (v, false),
        ReadStep::NeedFetch { which, offset: o, length } => {
            let data = fetch_pattern(o, length);
            (buf.finish_read(which, o, nbytes, data).expect("fetch long enough"), true)
        },
    }
}

#[test]
fn capacities() {
    assert_eq!(BufferKind::A.capacity(), 32768);
    assert_eq!(BufferKind::B.capacity(), 32768);
    assert_eq!(BufferKind::C.capacity(), 4194304);
}

#[test]
fn three_regions_then_resident() {
    let mut buf = S3Buffer::default();

    // First read populates buffer A from the file head.
    let (v, fetched) = do_read(&mut buf, 0, 100);
    assert!(fetched);
    assert_eq!(v, fetch_pattern(0, 100));
    assert_eq!(buf.buf_a.start_file_offset, 0);
    assert_eq!(buf.buf_a.data.len(), 32768);

    // Second read at 50 KiB misses A and populates B.
    let (v, fetched) = do_read(&mut buf, 51200, 200);
    assert!(fetched);
    assert_eq!(v, fetch_pattern(51200, 200));
    assert_eq!(buf.buf_b.start_file_offset, 51200);

    // Third read at 5 MiB misses both and populates C.
    let (v, fetched) = do_read(&mut buf, 5 * 1024 * 1024, 300);
    assert!(fetched);
    assert_eq!(v, fetch_pattern(5 * 1024 * 1024, 300));
    assert_eq!(buf.buf_c.start_file_offset, 5 * 1024 * 1024);
    assert_eq!(buf.buf_c.data.len(), 4194304);

    // A fourth read just after the file head is served from A without I/O.
    let (v, fetched) = do_read(&mut buf, 100, 50);
    assert!(!fetched);
    assert_eq!(v, fetch_pattern(100, 50));
}

#[test]
fn read_spanning_buffer_end_refills() {
    let mut buf = S3Buffer::default();
    let (_, fetched) = do_read(&mut buf, 0, 10);
    assert!(fetched);
    // Bytes beyond the resident range force a refill even though the start
    // overlaps.
    let (v, fetched) = do_read(&mut buf, 32760, 100);
    assert!(fetched);
    assert_eq!(v, fetch_pattern(32760, 100));
}

#[test]
fn truncated_fetch_is_an_error() {
    let mut buf = S3Buffer::default();
    match buf.start_read(0, 100) {
        ReadStep::NeedFetch { which, offset, .. } => {
            let data = fetch_pattern(offset, 40);
            assert!(buf.finish_read(which, offset, 100, data).is_err());
        },
        ReadStep::Served(_) => panic!("fresh buffers cannot serve"),
    }
}

#[test]
fn split_bucket_key_splits_at_first_slash() {
    let (bucket, key) = split_bucket_key(&b"my-bucket/some/deep/key.fits".to_vec()).unwrap();
    assert_eq!(bucket, b"my-bucket".to_vec());
    assert_eq!(key, b"some/deep/key.fits".to_vec());
    assert!(split_bucket_key(&b"no-slash-here".to_vec()).is_err());
}
