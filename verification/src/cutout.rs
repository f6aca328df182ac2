//! Pure geometry of the cutout pipeline: rotation remapping of destination
//! sample coordinates, out-of-bounds flagging, compaction of the surviving
//! samples with an index map, the bounding source rectangle, and the final
//! scatter of resampled pixels back into the full output grid.
//!
//! Sample coordinates are carried in milli-pixels (1/1000 pixel) so the
//! fractional positions handed over by the coordinate transform keep their
//! sub-pixel placement through the exact integer logic here.

use vstd::prelude::*;

use crate::errors::ServiceError;
use crate::fits::{cards_with, dec_bytes, padded_key, render_string_card, render_value_card, scaled_bytes};

verus! {

/// Half-size of the output image in pixels.
pub const OUT_HALF: usize = 417;

/// Full output image side: `2 * OUT_HALF + 1`.
pub const OUT_FULL: usize = 835;

/// Total output pixels.
pub const OUT_NPIX: usize = 697225;

/// Output pixel scale in micro-degrees per pixel.
pub const OUT_PIXSCALE_UDEG: i64 = 400;

/// Largest sample coordinate magnitude accepted, in milli-pixels.
pub const COORD_BOUND: i64 = 1_000_000_000_000;

/// Largest image side accepted, in pixels.
pub const SIDE_BOUND: usize = 100_000_000;

/// The quarter-turn rotation between the solved plate frame and the stored
/// mosaic frame.
#[derive(Clone, Copy, Debug, PartialEq, Eq, Structural)]
pub enum DeltaRotation {
    Zero,
    Plus90,
    Plus180,
    Minus90,
}

impl DeltaRotation {
    /// Parse a stored rotation-delta value, accepting only multiples of a
    /// quarter turn and folding equivalent angles together.
    pub fn from_delta(n: i64) -> (r: Result<DeltaRotation, ServiceError>)
        ensures
            n == 0 ==> r == Ok::<_, ServiceError>(DeltaRotation::Zero),
            n == -180 || n == 180 ==> r == Ok::<_, ServiceError>(DeltaRotation::Plus180),
            n == -90 || n == 270 ==> r == Ok::<_, ServiceError>(DeltaRotation::Minus90),
            n == 90 || n == -270 ==> r == Ok::<_, ServiceError>(DeltaRotation::Plus90),
            !(n == 0 || n == -180 || n == 180 || n == -90 || n == 270 || n == 90 || n == -270)
                ==> r == Err::<DeltaRotation, _>(ServiceError::RotationDeltaIllegal),
    {
        if n == 0 {
            Ok(DeltaRotation::Zero)
        } else if n == -180 || n == 180 {
            Ok(DeltaRotation::Plus180)
        } else if n == -90 || n == 270 {
            Ok(DeltaRotation::Minus90)
        } else if n == 90 || n == -270 {
            Ok(DeltaRotation::Plus90)
        } else {
            Err(ServiceError::RotationDeltaIllegal)
        }
    }
}

/// One destination sample's position on the source image, in milli-pixels.
#[derive(Clone, Copy, Debug, PartialEq, Eq, Structural)]
pub struct SamplePoint {
    pub x: i64,
    pub y: i64,
}

/// A sample position after the rotation remap, given `wm = (W-1)*1000` and
/// `hm = (H-1)*1000`.
pub open spec fn spec_remap(p: SamplePoint, drot: DeltaRotation, wm: int, hm: int) -> SamplePoint {
    match drot {
        DeltaRotation::Zero => p,
        DeltaRotation::Plus180 => (SamplePoint { x: (wm - p.x) as i64, y: (hm - p.y) as i64 }),
        DeltaRotation::Minus90 => (SamplePoint { x: (wm - p.y) as i64, y: p.x }),
        DeltaRotation::Plus90 => (SamplePoint { x: p.y, y: (hm - p.x) as i64 }),
    }
}

/// The sample lands on the image: both coordinates within `[0, side-1]`
/// pixels.
pub open spec fn in_bounds(p: SamplePoint, wm: int, hm: int) -> bool {
    0 <= p.x <= wm && 0 <= p.y <= hm
}

/// The flag vector after combining transform failures with the bounds test
/// on the remapped positions.
pub open spec fn combined_flags(
    points: Seq<SamplePoint>,
    flags: Seq<bool>,
    drot: DeltaRotation,
    wm: int,
    hm: int,
) -> Seq<bool> {
    Seq::new(points.len(), |i: int| flags[i] || !in_bounds(spec_remap(points[i], drot, wm, hm), wm, hm))
}

/// The positions of the unflagged samples, in increasing order.
pub open spec fn unflagged_indices(flags: Seq<bool>) -> Seq<usize>
    decreases flags.len(),
{
    if flags.len() == 0 {
        Seq::empty()
    } else {
        unflagged_indices(flags.drop_last()) + if !flags.last() {
            seq![(flags.len() - 1) as usize]
        } else {
            Seq::empty()
        }
    }
}

/// Shape of the unflagged index list: strictly increasing positions of the
/// false flags, and nothing else.
pub proof fn lemma_unflagged_indices_props(flags: Seq<bool>)
    requires
        flags.len() <= usize::MAX,
    ensures
        forall|k: int|
            0 <= k < unflagged_indices(flags).len() ==> (#[trigger] unflagged_indices(flags)[k])
                < flags.len() && !flags[unflagged_indices(flags)[k] as int],
        forall|k1: int, k2: int|
            0 <= k1 < k2 < unflagged_indices(flags).len() ==> unflagged_indices(flags)[k1]
                < unflagged_indices(flags)[k2],
        forall|j: int|
            0 <= j < flags.len() && !flags[j] ==> exists|k: int|
                0 <= k < unflagged_indices(flags).len() && (#[trigger] unflagged_indices(flags)[k])
                    == j,
    decreases flags.len(),
{
    if flags.len() > 0 {
        lemma_unflagged_indices_props(flags.drop_last());
        let prev = unflagged_indices(flags.drop_last());
        let cur = unflagged_indices(flags);
        assert forall|j: int| 0 <= j < flags.len() && !flags[j] implies exists|k: int|
            0 <= k < cur.len() && (#[trigger] cur[k]) == j by {
            if j == flags.len() - 1 {
                assert(cur[cur.len() - 1] == j);
            } else {
                assert(!flags.drop_last()[j]);
                let k = choose|k: int| 0 <= k < prev.len() && (#[trigger] prev[k]) == j;
                assert(cur[k] == j);
            }
        }
    }
}

/// Apply the rotation remap in place to every sample position.
pub fn remap_rotation(points: &mut Vec<SamplePoint>, drot: DeltaRotation, wm: i64, hm: i64)
    requires
        0 <= wm <= COORD_BOUND,
        0 <= hm <= COORD_BOUND,
        forall|i: int|
            0 <= i < old(points)@.len() ==> -COORD_BOUND <= (#[trigger] old(points)@[i]).x
                <= COORD_BOUND && -COORD_BOUND <= old(points)@[i].y <= COORD_BOUND,
    ensures
        final(points)@.len() == old(points)@.len(),
        forall|i: int|
            0 <= i < old(points)@.len() ==> final(points)@[i] == spec_remap(
                old(points)@[i],
                drot,
                wm as int,
                hm as int,
            ),
{
    let n = points.len();
    let mut i: usize = 0;
    while i < n
        invariant
            i <= n,
            n == points@.len(),
            0 <= wm <= COORD_BOUND,
            0 <= hm <= COORD_BOUND,
            forall|k: int|
                0 <= k < n ==> -COORD_BOUND <= (#[trigger] old(points)@[k]).x <= COORD_BOUND
                    && -COORD_BOUND <= old(points)@[k].y <= COORD_BOUND,
            forall|k: int| i <= k < n ==> points@[k] == old(points)@[k],
            forall|k: int|
                0 <= k < i ==> points@[k] == spec_remap(
                    old(points)@[k],
                    drot,
                    wm as int,
                    hm as int,
                ),
        decreases n - i,
    {
        let p = points[i];
        let q = match drot {
            DeltaRotation::Zero => p,
            DeltaRotation::Plus180 => SamplePoint { x: wm - p.x, y: hm - p.y },
            DeltaRotation::Minus90 => SamplePoint { x: wm - p.y, y: p.x },
            DeltaRotation::Plus90 => SamplePoint { x: p.y, y: hm - p.x },
        };
        points.set(i, q);
        i = i + 1;
    }
}

/// Flag every sample whose position misses the image.
pub fn flag_out_of_bounds(points: &Vec<SamplePoint>, flags: &mut Vec<bool>, wm: i64, hm: i64)
    requires
        old(flags)@.len() == points@.len(),
    ensures
        final(flags)@.len() == points@.len(),
        forall|i: int|
            0 <= i < points@.len() ==> final(flags)@[i] == (old(flags)@[i] || !in_bounds(
                points@[i],
                wm as int,
                hm as int,
            )),
{
    let n = points.len();
    let mut i: usize = 0;
    while i < n
        invariant
            i <= n,
            n == points@.len(),
            flags@.len() == n,
            forall|k: int| i <= k < n ==> flags@[k] == old(flags)@[k],
            forall|k: int|
                0 <= k < i ==> flags@[k] == (old(flags)@[k] || !in_bounds(
                    points@[k],
                    wm as int,
                    hm as int,
                )),
        decreases n - i,
    {
        let p = points[i];
        let out = p.x < 0 || p.x > wm || p.y < 0 || p.y > hm;
        if out {
            flags.set(i, true);
        }
        i = i + 1;
    }
}

/// Keep the unflagged samples, in order, together with the index map back to
/// their original positions.
pub fn compact_unflagged(points: &Vec<SamplePoint>, flags: &Vec<bool>) -> (r: (
    Vec<SamplePoint>,
    Vec<usize>,
))
    requires
        flags@.len() == points@.len(),
    ensures
        r.1@ == unflagged_indices(flags@),
        r.0@.len() == r.1@.len(),
        forall|k: int| 0 <= k < r.0@.len() ==> r.0@[k] == points@[(#[trigger] r.1@[k]) as int],
{
    let n = points.len();
    let mut kept: Vec<SamplePoint> = Vec::new();
    let mut indices: Vec<usize> = Vec::new();
    let mut i: usize = 0;
    proof {
        assert(flags@.subrange(0, 0) =~= Seq::<bool>::empty());
    }
    while i < n
        invariant
            i <= n,
            n == points@.len() == flags@.len(),
            indices@ == unflagged_indices(flags@.subrange(0, i as int)),
            kept@.len() == indices@.len(),
            forall|k: int|
                0 <= k < kept@.len() ==> kept@[k] == points@[(#[trigger] indices@[k]) as int],
            forall|k: int| 0 <= k < indices@.len() ==> (#[trigger] indices@[k]) < i,
        decreases n - i,
    {
        proof {
            assert(flags@.subrange(0, i as int + 1).drop_last() =~= flags@.subrange(0, i as int));
            assert(flags@.subrange(0, i as int + 1).last() == flags@[i as int]);
        }
        if !flags[i] {
            indices.push(i);
            kept.push(points[i]);
            proof {
                assert(indices@ =~= unflagged_indices(flags@.subrange(0, i as int + 1)));
            }
        } else {
            proof {
                assert(indices@ =~= unflagged_indices(flags@.subrange(0, i as int + 1)));
            }
        }
        i = i + 1;
    }
    proof {
        assert(flags@.subrange(0, n as int) =~= flags@);
    }
    (kept, indices)
}

/// Scatter the resampled values back onto the full output grid: pixel
/// `indices[k]` takes `values[k]`, and every position that no index names is
/// zero — flagged samples therefore read as blank.
pub fn scatter_samples(values: &Vec<i16>, indices: &Vec<usize>, npix: usize) -> (out: Vec<i16>)
    requires
        values@.len() == indices@.len(),
        forall|k: int| 0 <= k < indices@.len() ==> (#[trigger] indices@[k]) < npix,
        forall|k1: int, k2: int|
            0 <= k1 < k2 < indices@.len() ==> indices@[k1] < indices@[k2],
    ensures
        out@.len() == npix,
        forall|k: int|
            0 <= k < indices@.len() ==> out@[(#[trigger] indices@[k]) as int] == values@[k],
        forall|j: int|
            0 <= j < npix && (forall|k: int|
                0 <= k < indices@.len() ==> (#[trigger] indices@[k]) != j) ==> out@[j] == 0,
{
    let mut out: Vec<i16> = Vec::new();
    let mut i: usize = 0;
    while i < npix
        invariant
            i <= npix,
            out@.len() == i,
            forall|j: int| 0 <= j < i ==> out@[j] == 0,
        decreases npix - i,
    {
        out.push(0);
        i = i + 1;
    }
    let m = indices.len();
    let mut k: usize = 0;
    while k < m
        invariant
            k <= m,
            m == indices@.len() == values@.len(),
            out@.len() == npix,
            forall|kk: int| 0 <= kk < m ==> (#[trigger] indices@[kk]) < npix,
            forall|k1: int, k2: int| 0 <= k1 < k2 < m ==> indices@[k1] < indices@[k2],
            forall|kk: int|
                0 <= kk < k ==> out@[(#[trigger] indices@[kk]) as int] == values@[kk],
            forall|j: int|
                0 <= j < npix && (forall|kk: int|
                    0 <= kk < m ==> (#[trigger] indices@[kk]) != j) ==> out@[j] == 0,
        decreases m - k,
    {
        out.set(indices[k], values[k]);
        proof {
            assert forall|kk: int| 0 <= kk < k implies out@[(#[trigger] indices@[kk]) as int]
                == values@[kk] by {
                assert(indices@[kk] < indices@[k as int]);
            }
        }
        k = k + 1;
    }
    out
}

/// Smallest x over a non-empty sample list.
pub open spec fn min_x(ps: Seq<SamplePoint>) -> int
    decreases ps.len(),
{
    if ps.len() <= 1 {
        ps[0].x as int
    } else {
        let m = min_x(ps.drop_last());
        if ps.last().x < m {
            ps.last().x as int
        } else {
            m
        }
    }
}

/// Largest x over a non-empty sample list.
pub open spec fn max_x(ps: Seq<SamplePoint>) -> int
    decreases ps.len(),
{
    if ps.len() <= 1 {
        ps[0].x as int
    } else {
        let m = max_x(ps.drop_last());
        if ps.last().x > m {
            ps.last().x as int
        } else {
            m
        }
    }
}

/// Smallest y over a non-empty sample list.
pub open spec fn min_y(ps: Seq<SamplePoint>) -> int
    decreases ps.len(),
{
    if ps.len() <= 1 {
        ps[0].y as int
    } else {
        let m = min_y(ps.drop_last());
        if ps.last().y < m {
            ps.last().y as int
        } else {
            m
        }
    }
}

/// Largest y over a non-empty sample list.
pub open spec fn max_y(ps: Seq<SamplePoint>) -> int
    decreases ps.len(),
{
    if ps.len() <= 1 {
        ps[0].y as int
    } else {
        let m = max_y(ps.drop_last());
        if ps.last().y > m {
            ps.last().y as int
        } else {
            m
        }
    }
}

/// The axis-aligned source rectangle bounding the samples: the floor of the
/// smallest and the ceiling of the largest coordinate on each axis, clamped
/// to the image.
pub open spec fn spec_bounds(ps: Seq<SamplePoint>, width: int, height: int) -> (int, int, int, int) {
    let x0 = min_x(ps) / 1000;
    let x1 = (max_x(ps) + 999) / 1000;
    let y0 = min_y(ps) / 1000;
    let y1 = (max_y(ps) + 999) / 1000;
    (
        if x0 < 0 {
            0
        } else {
            x0
        },
        if x1 > width - 1 {
            width - 1
        } else {
            x1
        },
        if y0 < 0 {
            0
        } else {
            y0
        },
        if y1 > height - 1 {
            height - 1
        } else {
            y1
        },
    )
}

/// Compute the bounding source rectangle of a non-empty, in-bounds sample
/// list, as inclusive pixel limits `(xmin, xmax, ymin, ymax)`.
pub fn bounding_rect(points: &Vec<SamplePoint>, width: usize, height: usize) -> (r: (
    usize,
    usize,
    usize,
    usize,
))
    requires
        points@.len() > 0,
        1 <= width <= SIDE_BOUND,
        1 <= height <= SIDE_BOUND,
        forall|i: int|
            0 <= i < points@.len() ==> in_bounds(
                #[trigger] points@[i],
                1000 * (width - 1),
                1000 * (height - 1),
            ),
    ensures
        (r.0 as int, r.1 as int, r.2 as int, r.3 as int) == spec_bounds(
            points@,
            width as int,
            height as int,
        ),
        r.0 <= r.1 < width,
        r.2 <= r.3 < height,
{
    let n = points.len();
    let p0 = points[0];
    let mut mn_x: i64 = p0.x;
    let mut mx_x: i64 = p0.x;
    let mut mn_y: i64 = p0.y;
    let mut mx_y: i64 = p0.y;
    let mut i: usize = 1;
    proof {
        assert(points@.subrange(0, 1).len() == 1);
    }
    while i < n
        invariant
            1 <= i <= n,
            n == points@.len(),
            mn_x == min_x(points@.subrange(0, i as int)),
            mx_x == max_x(points@.subrange(0, i as int)),
            mn_y == min_y(points@.subrange(0, i as int)),
            mx_y == max_y(points@.subrange(0, i as int)),
            forall|k: int|
                0 <= k < points@.len() ==> in_bounds(
                    #[trigger] points@[k],
                    1000 * (width - 1),
                    1000 * (height - 1),
                ),
            0 <= mn_x <= 1000 * (width - 1),
            0 <= mx_x <= 1000 * (width - 1),
            0 <= mn_y <= 1000 * (height - 1),
            0 <= mx_y <= 1000 * (height - 1),
        decreases n - i,
    {
        let p = points[i];
        proof {
            assert(points@.subrange(0, i as int + 1).drop_last() =~= points@.subrange(0, i as int));
            assert(points@.subrange(0, i as int + 1).last() == points@[i as int]);
        }
        if p.x < mn_x {
            mn_x = p.x;
        }
        if p.x > mx_x {
            mx_x = p.x;
        }
        if p.y < mn_y {
            mn_y = p.y;
        }
        if p.y > mx_y {
            mx_y = p.y;
        }
        i = i + 1;
    }
    proof {
        assert(points@.subrange(0, n as int) =~= points@);
    }
    let xmin = (mn_x / 1000) as usize;
    let xmax = ((mx_x + 999) / 1000) as usize;
    let ymin = (mn_y / 1000) as usize;
    let ymax = ((mx_y + 999) / 1000) as usize;
    let xmax = if xmax > width - 1 {
        width - 1
    } else {
        xmax
    };
    let ymax = if ymax > height - 1 {
        height - 1
    } else {
        ymax
    };
    (xmin, xmax, ymin, ymax)
}

/// Everything the cutout pipeline needs after the coordinate transform: the
/// surviving sample positions, the index map back into the full grid, the
/// final flag vector, and the bounding source rectangle.
pub struct CutoutPlan {
    pub sample_points: Vec<SamplePoint>,
    pub decompress_indices: Vec<usize>,
    pub flags: Vec<bool>,
    pub xmin: usize,
    pub xmax: usize,
    pub ymin: usize,
    pub ymax: usize,
}

/// Steps of the cutout pipeline between the sky-to-pixel transform and the
/// pixel fetch: remap the sample positions by the plate's rotation delta,
/// flag everything off the mosaic, compact the survivors with an index map,
/// and bound them with a source rectangle.
///
/// Fails with the no-overlap error exactly when every sample is flagged.
pub fn plan_cutout(
    points: Vec<SamplePoint>,
    flags: Vec<bool>,
    drot: DeltaRotation,
    width: usize,
    height: usize,
) -> (r: Result<CutoutPlan, ServiceError>)
    requires
        flags@.len() == points@.len(),
        1 <= width <= SIDE_BOUND,
        1 <= height <= SIDE_BOUND,
        forall|i: int|
            0 <= i < points@.len() ==> -COORD_BOUND <= (#[trigger] points@[i]).x <= COORD_BOUND
                && -COORD_BOUND <= points@[i].y <= COORD_BOUND,
    ensures
        ({
            let wm = 1000 * (width - 1);
            let hm = 1000 * (height - 1);
            let cf = combined_flags(points@, flags@, drot, wm, hm);
            &&& (r is Ok <==> unflagged_indices(cf).len() > 0)
            &&& match r {
                Ok(plan) => {
                    &&& plan.flags@ == cf
                    &&& plan.decompress_indices@ == unflagged_indices(cf)
                    &&& plan.sample_points@.len() == plan.decompress_indices@.len()
                    &&& forall|k: int|
                        0 <= k < plan.sample_points@.len() ==> plan.sample_points@[k] == spec_remap(
                            points@[(#[trigger] plan.decompress_indices@[k]) as int],
                            drot,
                            wm,
                            hm,
                        )
                    &&& (
                    plan.xmin as int,
                    plan.xmax as int,
                    plan.ymin as int,
                    plan.ymax as int,
                    ) == spec_bounds(plan.sample_points@, width as int, height as int)
                    &&& plan.xmin <= plan.xmax < width
                    &&& plan.ymin <= plan.ymax < height
                },
                Err(e) => e == ServiceError::NoOverlap,
            }
        }),
{
    let mut points = points;
    let mut flags = flags;
    let wm: i64 = 1000 * ((width - 1) as i64);
    let hm: i64 = 1000 * ((height - 1) as i64);
    let ghost original = points@;
    let ghost original_flags = flags@;
    remap_rotation(&mut points, drot, wm, hm);
    flag_out_of_bounds(&points, &mut flags, wm, hm);
    proof {
        assert(flags@ =~= combined_flags(original, original_flags, drot, wm as int, hm as int));
    }
    let (kept, indices) = compact_unflagged(&points, &flags);
    if indices.len() == 0 {
        return Err(ServiceError::NoOverlap);
    }
    let nf = flags.len();
    proof {
        assert(flags@.len() == nf);
        lemma_unflagged_indices_props(flags@);
        assert forall|k: int| 0 <= k < kept@.len() implies in_bounds(
            #[trigger] kept@[k],
            1000 * (width - 1),
            1000 * (height - 1),
        ) by {
            let j = indices@[k];
            assert(!flags@[j as int]);
            assert(kept@[k] == points@[j as int]);
        }
    }
    let (xmin, xmax, ymin, ymax) = bounding_rect(&kept, width, height);
    Ok(
        CutoutPlan {
            sample_points: kept,
            decompress_indices: indices,
            flags,
            xmin,
            xmax,
            ymin,
            ymax,
        },
    )
}

/// Every flagged output position reads zero after the scatter: if position
/// `i` was flagged, no entry of the unflagged index map names it, so the
/// scattered grid holds zero there.
pub proof fn lemma_flagged_pixels_zero(
    flags: Seq<bool>,
    values: Seq<i16>,
    out: Seq<i16>,
    i: int,
)
    requires
        flags.len() <= usize::MAX,
        out.len() == flags.len(),
        values.len() == unflagged_indices(flags).len(),
        forall|k: int|
            0 <= k < unflagged_indices(flags).len() ==> out[(#[trigger] unflagged_indices(
                flags,
            )[k]) as int] == values[k],
        forall|j: int|
            0 <= j < out.len() && (forall|k: int|
                0 <= k < unflagged_indices(flags).len() ==> (#[trigger] unflagged_indices(
                    flags,
                )[k]) != j) ==> out[j] == 0,
        0 <= i < flags.len(),
        flags[i],
    ensures
        out[i] == 0,
{
    lemma_unflagged_indices_props(flags);
    assert forall|k: int| 0 <= k < unflagged_indices(flags).len() implies (
    #[trigger] unflagged_indices(flags)[k]) != i by {
        assert(!flags[unflagged_indices(flags)[k] as int]);
    }
}


/// Mosaic attributes of a plate, as the cutout needs them.
pub struct MosaicMeta {
    pub b01_width: usize,
    pub b01_height: usize,
    pub s3_key_template: Vec<u8>,
}

/// Astrometry attributes of a plate, as the cutout needs them.
pub struct AstrometryMeta {
    pub b01_header_gz: Vec<u8>,
    pub n_solutions: usize,
    pub rotation_delta: i64,
}

/// The plate attributes a cutout request reads.
pub struct CutoutPlateMeta {
    pub mosaic: Option<MosaicMeta>,
    pub astrometry: Option<AstrometryMeta>,
}

/// What validating a cutout request yields: the parsed rotation delta, or
/// the first failing check's error — range checks, then plate completeness,
/// then the solution index, then the rotation delta.
pub open spec fn spec_validate_cutout(
    ra_udeg: int,
    dec_udeg: int,
    sol_num: int,
    mosaic_present: bool,
    astrometry_present: bool,
    n_solutions: int,
    rotation_delta: int,
) -> Result<DeltaRotation, ServiceError> {
    if !(0 <= ra_udeg <= 360_000_000) {
        Err(ServiceError::BadRequest)
    } else if !(-90_000_000 <= dec_udeg <= 90_000_000) {
        Err(ServiceError::BadRequest)
    } else if !mosaic_present {
        Err(ServiceError::IncompletePlate)
    } else if !astrometry_present {
        Err(ServiceError::IncompletePlate)
    } else if sol_num >= n_solutions {
        Err(ServiceError::BadRequest)
    } else if rotation_delta == 0 {
        Ok(DeltaRotation::Zero)
    } else if rotation_delta == -180 || rotation_delta == 180 {
        Ok(DeltaRotation::Plus180)
    } else if rotation_delta == -90 || rotation_delta == 270 {
        Ok(DeltaRotation::Minus90)
    } else if rotation_delta == 90 || rotation_delta == -270 {
        Ok(DeltaRotation::Plus90)
    } else {
        Err(ServiceError::RotationDeltaIllegal)
    }
}

/// Validate a cutout request against the fetched plate attributes, yielding
/// the parsed rotation delta.
pub fn validate_cutout(ra_udeg: i64, dec_udeg: i64, sol_num: usize, meta: &CutoutPlateMeta) -> (r:
    Result<DeltaRotation, ServiceError>)
    ensures
        r == spec_validate_cutout(
            ra_udeg as int,
            dec_udeg as int,
            sol_num as int,
            meta.mosaic is Some,
            meta.astrometry is Some,
            match meta.astrometry {
                Some(a) => a.n_solutions as int,
                None => 0,
            },
            match meta.astrometry {
                Some(a) => a.rotation_delta as int,
                None => 0,
            },
        ),
{
    if !(0 <= ra_udeg && ra_udeg <= 360_000_000) {
        return Err(ServiceError::BadRequest);
    }
    if !(-90_000_000 <= dec_udeg && dec_udeg <= 90_000_000) {
        return Err(ServiceError::BadRequest);
    }
    if meta.mosaic.is_none() {
        return Err(ServiceError::IncompletePlate);
    }
    let astrometry = match &meta.astrometry {
        Some(a) => a,
        None => {
            return Err(ServiceError::IncompletePlate);
        },
    };
    if sol_num >= astrometry.n_solutions {
        return Err(ServiceError::BadRequest);
    }
    DeltaRotation::from_delta(astrometry.rotation_delta)
}

/// The destination header cards of a cutout: a square 16-bit image with a
/// tangent-plane solution centered on the request position.
pub open spec fn spec_cutout_header(ra_udeg: int, dec_udeg: int) -> Seq<Seq<u8>> {
    let c0 = crate::fits::FitsFile::with_image_header(Seq::empty(), 835);
    let c1 = cards_with(c0, padded_key(seq![66u8, 76u8, 65u8, 78u8, 75u8]), render_value_card(seq![66u8, 76u8, 65u8, 78u8, 75u8], dec_bytes(0)));
    let c2 = cards_with(c1, padded_key(seq![67u8, 84u8, 89u8, 80u8, 69u8, 49u8]), render_string_card(seq![67u8, 84u8, 89u8, 80u8, 69u8, 49u8], seq![82u8, 65u8, 45u8, 45u8, 45u8, 84u8, 65u8, 78u8]));
    let c3 = cards_with(c2, padded_key(seq![67u8, 84u8, 89u8, 80u8, 69u8, 50u8]), render_string_card(seq![67u8, 84u8, 89u8, 80u8, 69u8, 50u8], seq![68u8, 69u8, 67u8, 45u8, 45u8, 84u8, 65u8, 78u8]));
    let c4 = cards_with(c3, padded_key(seq![67u8, 85u8, 78u8, 73u8, 84u8, 49u8]), render_string_card(seq![67u8, 85u8, 78u8, 73u8, 84u8, 49u8], seq![100u8, 101u8, 103u8]));
    let c5 = cards_with(c4, padded_key(seq![67u8, 85u8, 78u8, 73u8, 84u8, 50u8]), render_string_card(seq![67u8, 85u8, 78u8, 73u8, 84u8, 50u8], seq![100u8, 101u8, 103u8]));
    let c6 = cards_with(c5, padded_key(seq![67u8, 82u8, 86u8, 65u8, 76u8, 49u8]), render_value_card(seq![67u8, 82u8, 86u8, 65u8, 76u8, 49u8], scaled_bytes(ra_udeg, 6)));
    let c7 = cards_with(c6, padded_key(seq![67u8, 82u8, 86u8, 65u8, 76u8, 50u8]), render_value_card(seq![67u8, 82u8, 86u8, 65u8, 76u8, 50u8], scaled_bytes(dec_udeg, 6)));
    let c8 = cards_with(c7, padded_key(seq![67u8, 68u8, 49u8, 95u8, 49u8]), render_value_card(seq![67u8, 68u8, 49u8, 95u8, 49u8], scaled_bytes(-400, 6)));
    let c9 = cards_with(c8, padded_key(seq![67u8, 68u8, 50u8, 95u8, 50u8]), render_value_card(seq![67u8, 68u8, 50u8, 95u8, 50u8], scaled_bytes(400, 6)));
    let c10 = cards_with(c9, padded_key(seq![67u8, 82u8, 80u8, 73u8, 88u8, 49u8]), render_value_card(seq![67u8, 82u8, 80u8, 73u8, 88u8, 49u8], scaled_bytes(418_000_000, 6)));
    let c11 = cards_with(c10, padded_key(seq![67u8, 82u8, 80u8, 73u8, 88u8, 50u8]), render_value_card(seq![67u8, 82u8, 80u8, 73u8, 88u8, 50u8], scaled_bytes(418_000_000, 6)));
    c11
}

/// Build the destination FITS header for a cutout centered on the request
/// position: the square image header plus the tangent-plane solution cards.
pub fn build_cutout_header(ra_udeg: i64, dec_udeg: i64) -> (f: crate::fits::FitsFile)
    requires
        0 <= ra_udeg <= 360_000_000,
        -90_000_000 <= dec_udeg <= 90_000_000,
    ensures
        f.wf(),
        f.naxis == OUT_FULL,
        f.pixels@.len() == 0,
        f.card_views() == spec_cutout_header(ra_udeg as int, dec_udeg as int),
{
    let mut f = crate::fits::FitsFile::create_mem();
    proof {
        assert(f.card_views() =~= Seq::<Seq<u8>>::empty());
    }
    f.write_square_image_header(835);
    let mut key: Vec<u8> = Vec::new();
    key.push(66);
    key.push(76);
    key.push(65);
    key.push(78);
    key.push(75);
    proof {
        assert(key@ =~= seq![66u8, 76u8, 65u8, 78u8, 75u8]);
    }
    f.set_u16_header(&key, 0);
    let mut key: Vec<u8> = Vec::new();
    key.push(67);
    key.push(84);
    key.push(89);
    key.push(80);
    key.push(69);
    key.push(49);
    proof {
        assert(key@ =~= seq![67u8, 84u8, 89u8, 80u8, 69u8, 49u8]);
    }
    let mut sval: Vec<u8> = Vec::new();
    sval.push(82);
    sval.push(65);
    sval.push(45);
    sval.push(45);
    sval.push(45);
    sval.push(84);
    sval.push(65);
    sval.push(78);
    proof {
        assert(sval@ =~= seq![82u8, 65u8, 45u8, 45u8, 45u8, 84u8, 65u8, 78u8]);
    }
    f.set_string_header(&key, &sval);
    let mut key: Vec<u8> = Vec::new();
    key.push(67);
    key.push(84);
    key.push(89);
    key.push(80);
    key.push(69);
    key.push(50);
    proof {
        assert(key@ =~= seq![67u8, 84u8, 89u8, 80u8, 69u8, 50u8]);
    }
    let mut sval: Vec<u8> = Vec::new();
    sval.push(68);
    sval.push(69);
    sval.push(67);
    sval.push(45);
    sval.push(45);
    sval.push(84);
    sval.push(65);
    sval.push(78);
    proof {
        assert(sval@ =~= seq![68u8, 69u8, 67u8, 45u8, 45u8, 84u8, 65u8, 78u8]);
    }
    f.set_string_header(&key, &sval);
    let mut key: Vec<u8> = Vec::new();
    key.push(67);
    key.push(85);
    key.push(78);
    key.push(73);
    key.push(84);
    key.push(49);
    proof {
        assert(key@ =~= seq![67u8, 85u8, 78u8, 73u8, 84u8, 49u8]);
    }
    let mut sval: Vec<u8> = Vec::new();
    sval.push(100);
    sval.push(101);
    sval.push(103);
    proof {
        assert(sval@ =~= seq![100u8, 101u8, 103u8]);
    }
    f.set_string_header(&key, &sval);
    let mut key: Vec<u8> = Vec::new();
    key.push(67);
    key.push(85);
    key.push(78);
    key.push(73);
    key.push(84);
    key.push(50);
    proof {
        assert(key@ =~= seq![67u8, 85u8, 78u8, 73u8, 84u8, 50u8]);
    }
    let mut sval: Vec<u8> = Vec::new();
    sval.push(100);
    sval.push(101);
    sval.push(103);
    proof {
        assert(sval@ =~= seq![100u8, 101u8, 103u8]);
    }
    f.set_string_header(&key, &sval);
    let mut key: Vec<u8> = Vec::new();
    key.push(67);
    key.push(82);
    key.push(86);
    key.push(65);
    key.push(76);
    key.push(49);
    proof {
        assert(key@ =~= seq![67u8, 82u8, 86u8, 65u8, 76u8, 49u8]);
    }
    f.set_scaled_header(&key, ra_udeg, 6);
    let mut key: Vec<u8> = Vec::new();
    key.push(67);
    key.push(82);
    key.push(86);
    key.push(65);
    key.push(76);
    key.push(50);
    proof {
        assert(key@ =~= seq![67u8, 82u8, 86u8, 65u8, 76u8, 50u8]);
    }
    f.set_scaled_header(&key, dec_udeg, 6);
    let mut key: Vec<u8> = Vec::new();
    key.push(67);
    key.push(68);
    key.push(49);
    key.push(95);
    key.push(49);
    proof {
        assert(key@ =~= seq![67u8, 68u8, 49u8, 95u8, 49u8]);
    }
    f.set_scaled_header(&key, -400, 6);
    let mut key: Vec<u8> = Vec::new();
    key.push(67);
    key.push(68);
    key.push(50);
    key.push(95);
    key.push(50);
    proof {
        assert(key@ =~= seq![67u8, 68u8, 50u8, 95u8, 50u8]);
    }
    f.set_scaled_header(&key, 400, 6);
    let mut key: Vec<u8> = Vec::new();
    key.push(67);
    key.push(82);
    key.push(80);
    key.push(73);
    key.push(88);
    key.push(49);
    proof {
        assert(key@ =~= seq![67u8, 82u8, 80u8, 73u8, 88u8, 49u8]);
    }
    f.set_scaled_header(&key, 418_000_000, 6);
    let mut key: Vec<u8> = Vec::new();
    key.push(67);
    key.push(82);
    key.push(80);
    key.push(73);
    key.push(88);
    key.push(50);
    proof {
        assert(key@ =~= seq![67u8, 82u8, 80u8, 73u8, 88u8, 50u8]);
    }
    f.set_scaled_header(&key, 418_000_000, 6);
    f
}

} // verus!
