//! What one outbound call came back with.
//!
//! The shell that performs the network calls reports each of them as a
//! `FetchOutcome`: either the transport failed, or the remote endpoint
//! answered with a status code and a body.  Every decision about such an
//! outcome is made here and in the stages built on it, so that a whole
//! pipeline run is a function of the two outcomes it saw.

use vstd::prelude::*;

use crate::error::PipelineError;

verus! {

/// What one outbound HTTP call produced.
pub enum FetchOutcome {
    /// The transport failed: timeout, name resolution, connection reset.
    Failed,
    /// The endpoint answered.
    Response { status: u16, body: Vec<u8> },
}

/// A success status: the 2xx range.
pub open spec fn is_success(status: u16) -> bool {
    200 <= status < 300
}

/// The status discipline shared by both outbound calls: a response is
/// only used when its status is a success, and any other status is an
/// `HttpStatusError` carrying the code.
pub fn check_status(status: u16) -> (r: Result<(), PipelineError>)
    ensures
        is_success(status) <==> r is Ok,
        !is_success(status) ==> r == Err::<(), PipelineError>(
            PipelineError::HttpStatusError(status),
        ),
{
    if 200 <= status && status < 300 {
        Ok(())
    } else {
        Err(PipelineError::HttpStatusError(status))
    }
}

} // verus!
