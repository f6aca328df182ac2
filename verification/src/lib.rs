//! Verified core of the DASCH plate-archive query services.
//!
//! The crate holds the data-engineering logic behind three read-only sky-query
//! endpoints: catalog-ID text encoding, the sky-binning spatial index, the
//! ASCII-FITS header loader, the in-memory FITS builder, the remote range-read
//! buffer, and the pure geometry of the cutout, exposure-overlap and catalog
//! cone-search pipelines.

use vstd::prelude::*;

pub mod bytestr;
pub mod cutout;
pub mod decimal;
pub mod errors;
pub mod fits;
pub mod gscbin;
pub mod codec;
pub mod header;
pub mod mosaics;
pub mod parse;
pub mod querycat;
pub mod queryexps;
pub mod refnums;
pub mod s3buffer;

verus! {

/// Translate an external zero-based solution number into the index used by the
/// coordinate library, which stores solutions in reverse order.
pub fn wcslib_solnum(sol_num: usize, n_solutions: usize) -> (r: Option<usize>)
    ensures
        sol_num < n_solutions ==> r == Some((n_solutions - sol_num - 1) as usize),
        sol_num >= n_solutions ==> r is None,
{
    if sol_num < n_solutions {
        Some(n_solutions - sol_num - 1)
    } else {
        None
    }
}

} // verus!
