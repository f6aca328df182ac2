//! Sky binning: a deterministic partition of the celestial sphere into
//! declination bands, each split into a band-dependent number of RA bins.
//!
//! Angles are carried as micro-degrees (1e-6 degree) in signed integers; the
//! per-band RA bin counts are supplied by the caller (they come from a
//! cosine-weighted table) and validated against the expected total here.

use vstd::prelude::*;
use vstd::arithmetic::div_mod::{lemma_div_pos_is_pos, lemma_mod_bound};
use vstd::arithmetic::mul::lemma_mul_upper_bound;

use crate::errors::ServiceError;

verus! {

/// One declination band: its first total-bin index and its RA bin count.
pub struct BinBand {
    pub start_bin: usize,
    pub num_bins: usize,
}

/// The full binning: `dec_bins` declination bands of `1 / bins_per_degree`
/// degree each, with a prefix-summed index of RA bin counts.
pub struct GscBinning {
    pub bins_per_degree: usize,
    pub dec_bins: usize,
    pub total_bins: usize,
    pub master_index: Vec<BinBand>,
}

/// Sum of the RA bin counts of the first `k` bands.
pub open spec fn band_sum(bands: Seq<BinBand>, k: int) -> int
    decreases k,
{
    if k <= 0 {
        0
    } else {
        band_sum(bands, k - 1) + bands[k - 1].num_bins
    }
}

/// Sum of the first `k` entries of a count table.
pub open spec fn counts_sum(counts: Seq<usize>, k: int) -> int
    decreases k,
{
    if k <= 0 {
        0
    } else {
        counts_sum(counts, k - 1) + counts[k - 1]
    }
}

/// A count table that fits the configured band and total-bin numbers.
pub open spec fn valid_band_counts(counts: Seq<usize>, dec_bins: int, total: int) -> bool {
    &&& dec_bins >= 1
    &&& counts.len() == dec_bins
    &&& (forall|i: int| 0 <= i < counts.len() ==> (#[trigger] counts[i]) >= 1)
    &&& counts_sum(counts, counts.len() as int) == total
}

pub proof fn lemma_band_sum_le(bands: Seq<BinBand>, k1: int, k2: int)
    requires
        0 <= k1 <= k2 <= bands.len(),
    ensures
        band_sum(bands, k1) <= band_sum(bands, k2),
    decreases k2,
{
    if k1 < k2 {
        lemma_band_sum_le(bands, k1, k2 - 1);
    }
}

pub proof fn lemma_counts_sum_le(counts: Seq<usize>, k1: int, k2: int)
    requires
        0 <= k1 <= k2 <= counts.len(),
    ensures
        counts_sum(counts, k1) <= counts_sum(counts, k2),
    decreases k2,
{
    if k1 < k2 {
        lemma_counts_sum_le(counts, k1, k2 - 1);
    }
}

/// `band_sum` over a prefix is unchanged when the band list grows.
pub proof fn lemma_band_sum_push(bands: Seq<BinBand>, x: BinBand, k: int)
    requires
        0 <= k <= bands.len(),
    ensures
        band_sum(bands.push(x), k) == band_sum(bands, k),
    decreases k,
{
    if k > 0 {
        lemma_band_sum_push(bands, x, k - 1);
    }
}

/// Bands whose counts match a table sum like the table.
pub proof fn lemma_band_sum_matches_counts(bands: Seq<BinBand>, counts: Seq<usize>, k: int)
    requires
        0 <= k <= bands.len(),
        k <= counts.len(),
        forall|i: int| 0 <= i < k ==> (#[trigger] bands[i]).num_bins == counts[i],
    ensures
        band_sum(bands, k) == counts_sum(counts, k),
    decreases k,
{
    if k > 0 {
        lemma_band_sum_matches_counts(bands, counts, k - 1);
    }
}

impl GscBinning {
    /// Structural invariant: each band's start index is the sum of the counts
    /// before it, and the configured total is the sum of all counts.
    pub open spec fn wf(&self) -> bool {
        &&& self.dec_bins >= 1
        &&& self.bins_per_degree >= 1
        &&& self.master_index@.len() == self.dec_bins
        &&& (forall|i: int|
            0 <= i < self.dec_bins ==> (#[trigger] self.master_index@[i]).num_bins >= 1)
        &&& (forall|i: int|
            0 <= i < self.dec_bins ==> (#[trigger] self.master_index@[i]).start_bin == band_sum(
                self.master_index@,
                i,
            ))
        &&& self.total_bins == band_sum(self.master_index@, self.dec_bins as int)
    }

    /// Build a binning from a per-band RA bin count table.
    ///
    /// Succeeds exactly when the table has one positive entry per declination
    /// band and its sum equals the expected total; any mismatch is the startup
    /// invariant error.
    pub fn new_generic(
        bins_per_degree: usize,
        dec_bins: usize,
        total_gsc_bins: usize,
        num_ra_bins: &Vec<usize>,
    ) -> (r: Result<Self, ServiceError>)
        requires
            bins_per_degree >= 1,
        ensures
            r is Ok <==> valid_band_counts(num_ra_bins@, dec_bins as int, total_gsc_bins as int),
            match r {
                Ok(b) => {
                    &&& b.wf()
                    &&& b.bins_per_degree == bins_per_degree
                    &&& b.dec_bins == dec_bins
                    &&& b.total_bins == total_gsc_bins
                    &&& forall|i: int|
                        0 <= i < dec_bins ==> (#[trigger] b.master_index@[i]).num_bins
                            == num_ra_bins@[i]
                },
                Err(e) => e == ServiceError::Fatal,
            },
    {
        if dec_bins < 1 || num_ra_bins.len() != dec_bins {
            return Err(ServiceError::Fatal);
        }
        let mut master_index: Vec<BinBand> = Vec::new();
        let mut ra_sum: usize = 0;
        let mut i: usize = 0;
        while i < dec_bins
            invariant
                i <= dec_bins,
                num_ra_bins@.len() == dec_bins,
                master_index@.len() == i,
                forall|k: int|
                    0 <= k < i ==> (#[trigger] master_index@[k]).num_bins == num_ra_bins@[k],
                forall|k: int| 0 <= k < i ==> (#[trigger] master_index@[k]).num_bins >= 1,
                forall|k: int|
                    0 <= k < i ==> (#[trigger] master_index@[k]).start_bin == band_sum(
                        master_index@,
                        k,
                    ),
                ra_sum == band_sum(master_index@, i as int),
            decreases dec_bins - i,
        {
            let num = num_ra_bins[i];
            if num == 0 {
                return Err(ServiceError::Fatal);
            }
            let new_sum = match ra_sum.checked_add(num) {
                Some(s) => s,
                None => {
                    // The running sum no longer fits a machine word, so it
                    // cannot equal the expected total.
                    proof {
                        lemma_band_sum_matches_counts(master_index@, num_ra_bins@, i as int);
                        lemma_counts_sum_le(num_ra_bins@, i as int + 1, num_ra_bins@.len() as int);
                    }
                    return Err(ServiceError::Fatal);
                },
            };
            let ghost old_bands = master_index@;
            master_index.push(BinBand { start_bin: ra_sum, num_bins: num });
            proof {
                assert forall|k: int| 0 <= k <= i implies band_sum(master_index@, k) == band_sum(
                    old_bands,
                    k,
                ) by {
                    lemma_band_sum_push(old_bands, master_index@[i as int], k);
                }
            }
            ra_sum = new_sum;
            i = i + 1;
        }
        if ra_sum != total_gsc_bins {
            proof {
                lemma_band_sum_matches_counts(master_index@, num_ra_bins@, dec_bins as int);
            }
            return Err(ServiceError::Fatal);
        }
        proof {
            lemma_band_sum_matches_counts(master_index@, num_ra_bins@, dec_bins as int);
            assert forall|k: int| 0 <= k < num_ra_bins@.len() implies (#[trigger] num_ra_bins@[k])
                >= 1 by {
                assert(master_index@[k].num_bins == num_ra_bins@[k]);
            }
        }
        Ok(
            GscBinning {
                bins_per_degree,
                dec_bins,
                total_bins: total_gsc_bins,
                master_index,
            },
        )
    }

    /// The catalog binning: 1/64-degree bands and the empirically expected
    /// grand total of RA bins.
    pub fn new64(num_ra_bins: &Vec<usize>) -> (r: Result<Self, ServiceError>)
        ensures
            r is Ok <==> valid_band_counts(num_ra_bins@, 11520, 168966386),
            match r {
                Ok(b) => b.wf() && b.bins_per_degree == 64 && b.dec_bins == 11520 && b.total_bins
                    == 168966386,
                Err(e) => e == ServiceError::Fatal,
            },
    {
        Self::new_generic(64, 11520, 168966386, num_ra_bins)
    }

    /// The declination bin holding `dec_udeg`, clamped to the last band.
    pub open spec fn spec_dec_bin(&self, dec_udeg: int) -> int {
        let raw = (dec_udeg + 90_000_000) * self.bins_per_degree / 1_000_000;
        if raw >= self.dec_bins {
            self.dec_bins - 1
        } else {
            raw
        }
    }

    /// RA normalized into [0, 360) degrees, in micro-degrees.
    pub open spec fn spec_norm_ra(ra_udeg: int) -> int {
        ra_udeg % 360_000_000
    }

    /// The total bin for a declination bin and an RA, clamping the RA bin to
    /// the band's last slot.
    pub open spec fn spec_total_bin(&self, dec_bin: int, ra_udeg: int) -> int {
        let band = self.master_index@[dec_bin];
        let delta = Self::spec_norm_ra(ra_udeg) * band.num_bins / 360_000_000;
        band.start_bin + if delta >= band.num_bins {
            band.num_bins - 1
        } else {
            delta
        }
    }

    /// Given a declination in micro-degrees, get the declination bin number
    /// for this binning. The result is below `dec_bins`.
    pub fn get_dec_bin(&self, dec_udeg: i64) -> (r: usize)
        requires
            self.wf(),
            -90_000_000 <= dec_udeg <= 90_000_000,
        ensures
            r == self.spec_dec_bin(dec_udeg as int),
            r < self.dec_bins,
    {
        let shifted: i64 = dec_udeg + 90_000_000;
        proof {
            lemma_mul_upper_bound(
                shifted as int,
                180_000_000,
                self.bins_per_degree as int,
                u64::MAX as int,
            );
        }
        let raw: u128 = (shifted as u128) * (self.bins_per_degree as u128) / 1_000_000;
        if raw >= self.dec_bins as u128 {
            self.dec_bins - 1
        } else {
            raw as usize
        }
    }

    /// Given a declination bin number and an RA in micro-degrees, get the
    /// total bin number for the RA. The result is below `total_bins`.
    pub fn get_total_bin(&self, dec_bin: usize, ra_udeg: i64) -> (r: usize)
        requires
            self.wf(),
            dec_bin < self.dec_bins,
        ensures
            r == self.spec_total_bin(dec_bin as int, ra_udeg as int),
            r < self.total_bins,
    {
        let nra: i64 = match ra_udeg.checked_rem_euclid(360_000_000) {
            Some(v) => v,
            None => 0,  // unreachable: the divisor is positive
        };
        proof {
            lemma_mod_bound(ra_udeg as int, 360_000_000);
        }
        let band_start = self.master_index[dec_bin].start_bin;
        let band_num = self.master_index[dec_bin].num_bins;
        proof {
            lemma_mul_upper_bound(nra as int, 360_000_000, band_num as int, u64::MAX as int);
        }
        let delta: u128 = (nra as u128) * (band_num as u128) / 360_000_000;
        let delta_clamped: usize = if delta >= band_num as u128 {
            band_num - 1
        } else {
            delta as usize
        };
        proof {
            lemma_band_sum_le(self.master_index@, dec_bin as int + 1, self.dec_bins as int);
        }
        band_start + delta_clamped
    }
}

/// Chaining the two bin lookups always lands inside the configured total:
/// for any in-range declination and any RA,
/// `total_bin(dec_bin(dec), ra)` lies in `[0, total_bins)`.
pub proof fn lemma_total_bin_in_range(b: &GscBinning, dec_udeg: int, ra_udeg: int)
    requires
        b.wf(),
        -90_000_000 <= dec_udeg <= 90_000_000,
    ensures
        0 <= b.spec_dec_bin(dec_udeg) < b.dec_bins,
        0 <= b.spec_total_bin(b.spec_dec_bin(dec_udeg), ra_udeg) < b.total_bins,
{
    let dbin = b.spec_dec_bin(dec_udeg);
    assert(0 <= dbin < b.dec_bins);
    let band = b.master_index@[dbin];
    lemma_mod_bound(ra_udeg, 360_000_000);
    let nra = GscBinning::spec_norm_ra(ra_udeg);
    assert(nra * band.num_bins >= 0) by (nonlinear_arith)
        requires
            nra >= 0,
            band.num_bins >= 0,
    ;
    lemma_div_pos_is_pos(nra * band.num_bins, 360_000_000);
    lemma_band_sum_le(b.master_index@, dbin + 1, b.dec_bins as int);
}

} // verus!
