//! The pipeline's error taxonomy.
//!
//! Every stage of the pipeline reports its failure through this one enum;
//! no stage retries or suppresses an error.

use vstd::prelude::*;

verus! {

/// The ways a pipeline run can fail.
#[derive(Clone, Copy, Debug, PartialEq, Eq, Structural)]
pub enum PipelineError {
    /// Transport-level failure (timeout, DNS, connection reset) on an
    /// outbound call.
    NetworkError,
    /// A remote endpoint answered with a non-success HTTP status; carries
    /// the status code.
    HttpStatusError(u16),
    /// The search response body is not a JSON array of objects that each
    /// hold a `url` string field.
    DecodeError,
    /// The search succeeded but returned zero candidates.
    NoResultError,
    /// The downloaded bytes are in no recognised raster-image container.
    UnsupportedFormatError,
    /// The downloaded bytes claim a recognised container but cannot be
    /// decoded.
    CorruptDataError,
}

} // verus!
