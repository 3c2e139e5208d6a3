//! The later pipeline stages and the delivered reply.
//!
//! After the locator has produced a candidate, the shell downloads the
//! candidate's bytes and hands the outcome back; this module turns that
//! outcome into the rendered art document, and turns a whole pipeline
//! result into the HTTP reply the route handler owes.

use vstd::prelude::*;
use vstd::string::StringExecFns;

use crate::error::PipelineError;
use crate::http::{is_success, check_status, FetchOutcome};
use crate::imaging::{
    art_of, decodable, decode_and_render, doc_footer, doc_header, RenderOptions,
};

verus! {

/// Renders the art document from the image download's outcome: checks the
/// status, decodes the bytes, and renders the decoded image.  Success is
/// owed exactly when the transport held, the status was a success and the
/// bytes decode; every failure is the exact error owed for it; and the
/// art is `art_of` of the body and the two flags, so byte-identical
/// downloads render to the identical document.
pub fn render_from_fetch(outcome: &FetchOutcome, options: &RenderOptions) -> (r: Result<
    String,
    PipelineError,
>)
    ensures
        (*outcome is Failed ==> r == Err::<String, PipelineError>(PipelineError::NetworkError)),
        (*outcome matches FetchOutcome::Response { status, body } ==> {
            &&& (!is_success(status) ==> r == Err::<String, PipelineError>(
                PipelineError::HttpStatusError(status),
            ))
            &&& (is_success(status) ==> {
                &&& (r is Ok <==> decodable(body@))
                &&& (r matches Err(e) ==> e == PipelineError::UnsupportedFormatError || e
                    == PipelineError::CorruptDataError)
                &&& (r matches Ok(art) ==> art@ == art_of(
                    body@,
                    options.color,
                    options.background_color,
                ))
                &&& (r matches Ok(art) ==> art@.len() >= doc_header().len() + doc_footer().len()
                    && art@.subrange(0, doc_header().len() as int) == doc_header()
                    && art@.subrange(art@.len() - doc_footer().len(), art@.len() as int)
                    == doc_footer())
            })
        }),
{
    match outcome {
        FetchOutcome::Failed => Err(PipelineError::NetworkError),
        FetchOutcome::Response { status, body } => {
            match check_status(*status) {
                Err(e) => Err(e),
                Ok(()) => decode_and_render(body, options),
            }
        },
    }
}

/// One HTTP reply of the route handler.
pub struct HttpReply {
    pub status: u16,
    pub content_type: String,
    pub body: String,
}

/// Turns a pipeline result into the reply the route handler owes: on
/// success the art document as an HTML body with status 200; on any
/// failure status 500 with a fixed generic message, so that no internal
/// error detail reaches the client — the caller logs the error itself.
pub fn deliver(result: Result<String, PipelineError>) -> (r: HttpReply)
    ensures
        (result matches Ok(art) ==> r.status == 200 && r.content_type@ == "text/html; charset=utf-8"@
            && r.body@ == art@),
        (result is Err ==> r.status == 500 && r.content_type@ == "text/plain; charset=utf-8"@
            && r.body@ == "Encountered error"@),
{
    match result {
        Ok(art) => HttpReply {
            status: 200,
            content_type: String::from_str("text/html; charset=utf-8"),
            body: art,
        },
        Err(_) => HttpReply {
            status: 500,
            content_type: String::from_str("text/plain; charset=utf-8"),
            body: String::from_str("Encountered error"),
        },
    }
}

} // verus!
