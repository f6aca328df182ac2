//! Cutout geometry: rotation parsing, the plan step, scatter, bounds, the
//! key template and payload encoding.

use dasch_science::cutout::{
    bounding_rect, plan_cutout, scatter_samples, AstrometryMeta, CutoutPlateMeta, DeltaRotation,
    MosaicMeta, SamplePoint, validate_cutout,
};
use dasch_science::codec::encode_cutout_payload;
use dasch_science::errors::ServiceError;
use dasch_science::mosaics::fill_key_template;

fn p(x: i64, y: i64) -> SamplePoint {
    SamplePoint { x, y }
}

#[test]
fn rotation_parsing() {
    assert_eq!(DeltaRotation::from_delta(0), Ok(DeltaRotation::Zero));
    assert_eq!(DeltaRotation::from_delta(180), Ok(DeltaRotation::Plus180));
    assert_eq!(DeltaRotation::from_delta(-180), Ok(DeltaRotation::Plus180));
    assert_eq!(DeltaRotation::from_delta(-90), Ok(DeltaRotation::Minus90));
    assert_eq!(DeltaRotation::from_delta(270), Ok(DeltaRotation::Minus90));
    assert_eq!(DeltaRotation::from_delta(90), Ok(DeltaRotation::Plus90));
    assert_eq!(DeltaRotation::from_delta(-270), Ok(DeltaRotation::Plus90));
    assert_eq!(DeltaRotation::from_delta(45), Err(ServiceError::RotationDeltaIllegal));
}

#[test]
fn plan_keeps_in_bounds_samples() {
    // A 10x10 source image; two samples on it, one off it.
    let points = vec![p(1500, 2500), p(3200, 4700), p(20000, 1000)];
    let flags = vec![false, false, false];
    let plan = plan_cutout(points, flags, DeltaRotation::Zero, 10, 10).expect("overlap");
    assert_eq!(plan.decompress_indices, vec![0, 1]);
    assert_eq!(plan.sample_points, vec![p(1500, 2500), p(3200, 4700)]);
    assert_eq!(plan.flags, vec![false, false, true]);
    assert_eq!((plan.xmin, plan.xmax, plan.ymin, plan.ymax), (1, 4, 2, 5));
}

#[test]
fn plan_applies_half_turn() {
    // With a half turn, (x, y) maps to (wm - x, hm - y).
    let points = vec![p(1000, 2000)];
    let flags = vec![false];
    let plan = plan_cutout(points, flags, DeltaRotation::Plus180, 10, 10).expect("overlap");
    assert_eq!(plan.sample_points, vec![p(8000, 7000)]);
}

#[test]
fn plan_applies_quarter_turns() {
    let points = vec![p(1000, 2000), p(1000, 2000)];
    let flags = vec![false, false];
    let plan = plan_cutout(points.clone(), flags.clone(), DeltaRotation::Minus90, 10, 10)
        .expect("overlap");
    assert_eq!(plan.sample_points[0], p(7000, 1000));
    let plan = plan_cutout(points, flags, DeltaRotation::Plus90, 10, 10).expect("overlap");
    assert_eq!(plan.sample_points[0], p(2000, 8000));
}

#[test]
fn no_overlap_is_an_error() {
    let points = vec![p(-5000, 0), p(90000, 90000)];
    let flags = vec![false, false];
    assert!(matches!(
        plan_cutout(points, flags, DeltaRotation::Zero, 10, 10),
        Err(ServiceError::NoOverlap)
    ));
}

#[test]
fn prior_flags_are_kept() {
    let points = vec![p(1000, 1000), p(2000, 2000)];
    let flags = vec![true, false];
    let plan = plan_cutout(points, flags, DeltaRotation::Zero, 10, 10).expect("overlap");
    assert_eq!(plan.decompress_indices, vec![1]);
}

#[test]
fn scatter_zeroes_unnamed_positions() {
    let values = vec![5i16, 7];
    let indices = vec![1usize, 3];
    let out = scatter_samples(&values, &indices, 5);
    assert_eq!(out, vec![0, 5, 0, 7, 0]);
}

#[test]
fn flagged_pixels_read_zero() {
    // End-to-end over the plan: flagged samples end as zero output pixels.
    let points = vec![p(500, 500), p(-1000, 0), p(1500, 1500), p(50000, 0)];
    let flags = vec![false, false, false, false];
    let plan = plan_cutout(points, flags, DeltaRotation::Zero, 4, 4).expect("overlap");
    let values: Vec<i16> = plan.sample_points.iter().map(|_| 9).collect();
    let out = scatter_samples(&values, &plan.decompress_indices, plan.flags.len());
    for (i, flagged) in plan.flags.iter().enumerate() {
        if *flagged {
            assert_eq!(out[i], 0);
        } else {
            assert_eq!(out[i], 9);
        }
    }
}

#[test]
fn bounding_rect_floors_and_ceils() {
    let points = vec![p(1500, 2500), p(3200, 4700)];
    assert_eq!(bounding_rect(&points, 10, 10), (1, 4, 2, 5));
    let exact = vec![p(2000, 3000)];
    assert_eq!(bounding_rect(&exact, 10, 10), (2, 2, 3, 3));
}

#[test]
fn key_template_fill() {
    let t = b"dasch/mosaics/{bin}/a123{tnx}.fits".to_vec();
    assert_eq!(fill_key_template(&t), b"dasch/mosaics/01/a123_tnx.fits".to_vec());
    let none = b"no placeholders".to_vec();
    assert_eq!(fill_key_template(&none), none);
}

fn meta(mosaic: bool, astrometry: bool, n_solutions: usize, rot: i64) -> CutoutPlateMeta {
    CutoutPlateMeta {
        mosaic: if mosaic {
            Some(MosaicMeta { b01_width: 100, b01_height: 100, s3_key_template: Vec::new() })
        } else {
            None
        },
        astrometry: if astrometry {
            Some(AstrometryMeta { b01_header_gz: Vec::new(), n_solutions, rotation_delta: rot })
        } else {
            None
        },
    }
}

#[test]
fn cutout_validation_errors() {
    let ok = meta(true, true, 2, 0);
    assert_eq!(validate_cutout(0, 0, 0, &ok), Ok(DeltaRotation::Zero));
    assert_eq!(
        validate_cutout(400_000_000, 0, 0, &ok),
        Err(ServiceError::BadRequest)
    );
    assert_eq!(
        validate_cutout(0, 95_000_000, 0, &ok),
        Err(ServiceError::BadRequest)
    );
    assert_eq!(
        validate_cutout(0, 0, 0, &meta(false, true, 2, 0)),
        Err(ServiceError::IncompletePlate)
    );
    assert_eq!(
        validate_cutout(0, 0, 0, &meta(true, false, 2, 0)),
        Err(ServiceError::IncompletePlate)
    );
    assert_eq!(validate_cutout(0, 0, 2, &ok), Err(ServiceError::BadRequest));
    assert_eq!(
        validate_cutout(0, 0, 0, &meta(true, true, 1, 17)),
        Err(ServiceError::RotationDeltaIllegal)
    );
}

#[test]
fn payload_encoding_round_trips() {
    let fits = b"SIMPLE  =                    T".to_vec();
    let payload = encode_cutout_payload(&fits);
    let compressed =
        base64::Engine::decode(&base64::engine::general_purpose::STANDARD, payload.as_bytes())
            .expect("valid base64");
    assert_ne!(compressed, fits);
    let mut decoder = flate2::read::GzDecoder::new(&compressed[..]);
    let mut out = Vec::new();
    std::io::Read::read_to_end(&mut decoder, &mut out).expect("valid gzip");
    assert_eq!(out, fits);
}
