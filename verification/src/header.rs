//! ASCII-FITS header handling.
//!
//! Plate headers are stored as gzipped ASCII text: 80-byte records separated
//! by single LF bytes, with no trailing LF. Before the text reaches the
//! coordinate library, every `CTYPEn` record whose projection suffix is `-TAN`
//! must be rewritten to `-TPV` at the canonical byte offset, because the
//! archive's historical distortion terms are only accepted under that type
//! code.

use vstd::prelude::*;

use crate::errors::ServiceError;

verus! {

/// Record length of one header card.
pub const RECORD_LEN: usize = 80;

/// A record that triggers the projection-type rewrite: it starts with
/// `CTYPE` and holds `-TAN` at bytes 15..19.
pub open spec fn tan_needs_rewrite(rec: Seq<u8>) -> bool {
    &&& rec.len() >= 19
    &&& rec[0] == 67u8  // C
    &&& rec[1] == 84u8  // T
    &&& rec[2] == 89u8  // Y
    &&& rec[3] == 80u8  // P
    &&& rec[4] == 69u8  // E
    &&& rec[15] == 45u8  // -
    &&& rec[16] == 84u8  // T
    &&& rec[17] == 65u8  // A
    &&& rec[18] == 78u8  // N
}

/// The record after the TAN-to-TPV rewrite: `-TAN` becomes `-TPV` in place,
/// and any other record is unchanged.
pub open spec fn tpv_rewritten(rec: Seq<u8>) -> Seq<u8> {
    if tan_needs_rewrite(rec) {
        rec.update(17, 80u8).update(18, 86u8)
    } else {
        rec
    }
}

/// The rewrite is idempotent: applying it twice gives the same record as
/// applying it once.
pub proof fn lemma_tpv_rewrite_idempotent(rec: Seq<u8>)
    ensures
        tpv_rewritten(tpv_rewritten(rec)) == tpv_rewritten(rec),
{
    if tan_needs_rewrite(rec) {
        assert(!tan_needs_rewrite(tpv_rewritten(rec)));
    }
}

/// The rewrite touches only `CTYPE` records carrying `-TAN`, and even there
/// only the two projection-code bytes change.
pub proof fn lemma_tpv_rewrite_touches_only_ctype(rec: Seq<u8>)
    ensures
        !tan_needs_rewrite(rec) ==> tpv_rewritten(rec) == rec,
        tpv_rewritten(rec).len() == rec.len(),
        forall|i: int|
            0 <= i < rec.len() && i != 17 && i != 18 ==> tpv_rewritten(rec)[i] == rec[i],
{
}

/// Apply the TAN-to-TPV rewrite to one 80-byte record in place.
pub fn rewrite_tan_record(rec: &mut Vec<u8>)
    requires
        old(rec)@.len() == RECORD_LEN,
    ensures
        final(rec)@ == tpv_rewritten(old(rec)@),
{
    let is_ctype_tan: bool = rec[0] == 67 && rec[1] == 84 && rec[2] == 89 && rec[3] == 80 && rec[4]
        == 69 && rec[15] == 45 && rec[16] == 84 && rec[17] == 65 && rec[18] == 78;
    if is_ctype_tan {
        rec.set(17, 80);
        rec.set(18, 86);
    }
}

/// The separator byte after record `k`.
pub open spec fn sep_at(src: Seq<u8>, k: int) -> u8 {
    src[81 * k + 80]
}

/// A structurally valid ASCII-FITS blob: zero or more 80-byte records, each
/// followed by a single LF except possibly the last, so the length is 80 or 0
/// modulo 81 and every 81st byte after a record is an LF.
pub open spec fn ascii_fits_valid(src: Seq<u8>) -> bool {
    &&& (src.len() % 81 == 80 || src.len() % 81 == 0)
    &&& forall|k: int| 0 <= k && 81 * k + 80 < src.len() ==> sep_at(src, k) == 10u8
}

/// How many records a valid blob holds.
pub open spec fn ascii_fits_nrec(src: Seq<u8>) -> int {
    (src.len() as int + 1) / 81
}

/// The first `k` records of the blob, each TAN-to-TPV rewritten, concatenated
/// without separators.
pub open spec fn ascii_fits_records(src: Seq<u8>, k: int) -> Seq<u8>
    decreases k,
{
    if k <= 0 {
        Seq::empty()
    } else {
        ascii_fits_records(src, k - 1) + tpv_rewritten(src.subrange(81 * (k - 1), 81 * (k - 1) + 80))
    }
}

/// Decode an un-gzipped ASCII-FITS blob into a flat record buffer and a
/// record count, applying the TAN-to-TPV rewrite to each record.
///
/// Succeeds exactly on structurally valid blobs; the output holds 80 bytes
/// per record with the LF separators dropped.
pub fn load_ascii_fits(src: &Vec<u8>) -> (r: Result<(Vec<u8>, usize), ServiceError>)
    ensures
        r is Ok <==> ascii_fits_valid(src@),
        match r {
            Ok((buf, nrec)) => {
                &&& nrec == ascii_fits_nrec(src@)
                &&& buf@ == ascii_fits_records(src@, nrec as int)
                &&& buf@.len() == 80 * nrec
            },
            Err(e) => e == ServiceError::MalformedHeader,
        },
{
    let n = src.len();
    let mut out: Vec<u8> = Vec::new();
    let mut pos: usize = 0;
    let mut nrec: usize = 0;

    loop
        invariant_except_break
            pos == 81 * nrec,
        invariant
            pos <= n,
            n == src@.len(),
            out@ == ascii_fits_records(src@, nrec as int),
            out@.len() == 80 * nrec,
            forall|k: int| 0 <= k && 81 * k + 80 < pos ==> sep_at(src@, k) == 10u8,
        ensures
            pos == n,
            pos == 81 * nrec || pos == 81 * (nrec - 1) + 80,
            out@ == ascii_fits_records(src@, nrec as int),
            out@.len() == 80 * nrec,
            forall|k: int| 0 <= k && 81 * k + 80 < n ==> sep_at(src@, k) == 10u8,
        decreases n - pos,
    {
        if pos == n {
            break;
        }
        if n - pos < 80 {
            // A trailing fragment shorter than a record: reject.
            proof {
                lemma_len_mod_invalid(src@, pos as int, nrec as int);
            }
            return Err(ServiceError::MalformedHeader);
        }
        let mut rec: Vec<u8> = Vec::new();
        let mut j: usize = 0;
        while j < 80
            invariant
                j <= 80,
                pos + 80 <= n,
                n == src@.len(),
                rec@ == src@.subrange(pos as int, pos as int + j as int),
            decreases 80 - j,
        {
            rec.push(src[pos + j]);
            proof {
                assert(rec@ =~= src@.subrange(pos as int, pos as int + j as int + 1));
            }
            j = j + 1;
        }
        rewrite_tan_record(&mut rec);
        let ghost out_before = out@;
        out.append(&mut rec);
        nrec = nrec + 1;
        pos = pos + 80;
        proof {
            assert(out@ =~= ascii_fits_records(src@, nrec as int));
        }
        if pos == n {
            // End of stream at a record boundary: done.
            break;
        }
        if src[pos] != 10 {
            // Separator is not an LF: reject.
            proof {
                assert(81 * ((nrec - 1) as int) + 80 == pos as int);
                assert(sep_at(src@, (nrec - 1) as int) == src@[pos as int]);
                assert(!ascii_fits_valid(src@));
            }
            return Err(ServiceError::MalformedHeader);
        }
        pos = pos + 1;
        proof {
            assert forall|k: int| 0 <= k && 81 * k + 80 < pos implies sep_at(src@, k) == 10u8 by {
                if k == nrec - 1 {
                    assert(81 * k + 80 == pos - 1);
                } else {
                    assert(81 * k + 80 < pos - 1);
                }
            }
        }
    }
    proof {
        lemma_final_len_valid(src@, pos as int, nrec as int);
    }
    Ok((out, nrec))
}

/// A stream that stops mid-record cannot have a valid length.
proof fn lemma_len_mod_invalid(src: Seq<u8>, pos: int, nrec: int)
    requires
        pos == 81 * nrec,
        0 <= nrec,
        pos < src.len(),
        src.len() - pos < 80,
    ensures
        !ascii_fits_valid(src),
{
    let m = src.len() - pos;
    vstd::arithmetic::div_mod::lemma_mod_multiples_vanish(nrec, m as int, 81);
    assert(src.len() as int == 81 * nrec + m);
    assert(src.len() as int % 81 == m % 81);
}

/// A stream that stops at a record boundary has a valid length, and the
/// record count matches the blob length.
proof fn lemma_final_len_valid(src: Seq<u8>, pos: int, nrec: int)
    requires
        0 <= nrec,
        pos == src.len(),
        pos == 81 * nrec || (nrec >= 1 && pos == 81 * (nrec - 1) + 80),
    ensures
        src.len() % 81 == 80 || src.len() % 81 == 0,
        nrec == ascii_fits_nrec(src),
{
    if pos == 81 * nrec {
        vstd::arithmetic::div_mod::lemma_mod_multiples_vanish(nrec, 0, 81);
        vstd::arithmetic::div_mod::lemma_div_multiples_vanish_fancy(nrec, 1, 81);
    } else {
        vstd::arithmetic::div_mod::lemma_mod_multiples_vanish(nrec - 1, 80, 81);
        assert(src.len() as int + 1 == 81 * nrec);
        vstd::arithmetic::div_mod::lemma_div_multiples_vanish_fancy(nrec, 0, 81);
    }
}

/// What gzip decompression yields for a byte sequence: the decompressed
/// bytes, or nothing when the stream is not valid gzip data. The result is a
/// function of the input bytes alone.
pub uninterp spec fn gunzip_of(z: Seq<u8>) -> Option<Seq<u8>>;

/// Relies on `flate2::read::GzDecoder`: decompresses a complete gzip stream,
/// failing on malformed input.
#[verifier::external_body]
fn gunzip(gz: &Vec<u8>) -> (r: Result<Vec<u8>, ServiceError>)
    ensures
        match r {
            Ok(v) => gunzip_of(gz@) == Some(v@),
            Err(e) => gunzip_of(gz@) is None && e == ServiceError::MalformedHeader,
        },
{
    let mut decoder = flate2::read::GzDecoder::new(&gz[..]);
    let mut out = Vec::new();
    match std::io::Read::read_to_end(&mut decoder, &mut out) {
        Ok(_) => Ok(out),
        Err(_) => Err(ServiceError::MalformedHeader),
    }
}

/// Decode a plate's gzipped ASCII-FITS header blob into the flat record
/// buffer and record count that the coordinate library consumes.
pub fn load_b01_header(gz: &Vec<u8>) -> (r: Result<(Vec<u8>, usize), ServiceError>)
    ensures
        match r {
            Ok((buf, nrec)) => {
                &&& gunzip_of(gz@) matches Some(h) && ascii_fits_valid(h) && nrec
                    == ascii_fits_nrec(h) && buf@ == ascii_fits_records(h, nrec as int)
                    && buf@.len() == 80 * nrec
            },
            Err(e) => {
                &&& e == ServiceError::MalformedHeader
                &&& match gunzip_of(gz@) {
                    Some(h) => !ascii_fits_valid(h),
                    None => true,
                }
            },
        },
{
    let decompressed = gunzip(gz)?;
    let (buf, nrec) = load_ascii_fits(&decompressed)?;
    Ok((buf, nrec))
}

} // verus!
