//! Error taxonomy for the query services.
//!
//! Each kind corresponds to one failure mode of a request; everything is
//! request-scoped except `Fatal`, which marks a startup invariant violation.

use vstd::prelude::*;

verus! {

#[derive(Clone, Copy, Debug, PartialEq, Eq, Structural)]
pub enum ServiceError {
    /// Out-of-range or unparsable request parameter.
    BadRequest,
    /// Plate id absent from the metadata store.
    NotFound,
    /// Plate lacks mosaic or astrometry data needed by the request.
    IncompletePlate,
    /// All destination samples fall outside the source image.
    NoOverlap,
    /// Unexpected attribute shape in a metadata item.
    SchemaError,
    /// Stored rotation delta outside the allowed set of quarter turns.
    RotationDeltaIllegal,
    /// Structurally invalid ASCII-FITS header blob.
    MalformedHeader,
    /// Non-zero status from the FITS or coordinate library.
    LibraryError,
    /// Object-store read failure or truncated range read.
    IoError,
    /// Invariant violation at startup.
    Fatal,
}

impl ServiceError {
    /// A short human-readable label for the error kind.
    pub fn text(&self) -> (r: &'static str)
        ensures
            r@ == self.spec_text(),
    {
        match self {
            ServiceError::BadRequest => "bad request parameter",
            ServiceError::NotFound => "no such plate_id",
            ServiceError::IncompletePlate => "plate lacks mosaic or astrometry",
            ServiceError::NoOverlap => "does not overlap the target region",
            ServiceError::SchemaError => "unexpected metadata attribute type",
            ServiceError::RotationDeltaIllegal => "illegal database deltaRotation value",
            ServiceError::MalformedHeader => "malformatted ASCII-FITS header",
            ServiceError::LibraryError => "FITS or WCS library error",
            ServiceError::IoError => "object storage read failed",
            ServiceError::Fatal => "consistency error in service configuration",
        }
    }

    pub open spec fn spec_text(&self) -> Seq<char> {
        match self {
            ServiceError::BadRequest => "bad request parameter"@,
            ServiceError::NotFound => "no such plate_id"@,
            ServiceError::IncompletePlate => "plate lacks mosaic or astrometry"@,
            ServiceError::NoOverlap => "does not overlap the target region"@,
            ServiceError::SchemaError => "unexpected metadata attribute type"@,
            ServiceError::RotationDeltaIllegal => "illegal database deltaRotation value"@,
            ServiceError::MalformedHeader => "malformatted ASCII-FITS header"@,
            ServiceError::LibraryError => "FITS or WCS library error"@,
            ServiceError::IoError => "object storage read failed"@,
            ServiceError::Fatal => "consistency error in service configuration"@,
        }
    }
}

} // verus!
