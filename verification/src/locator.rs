//! The image locator: reading the search response and picking a candidate.
//!
//! The search endpoint answers with an array of candidate descriptors.
//! The locator checks the status, parses the body against the grammar of
//! `json`, and hands the candidates to the selection strategy.

use vstd::prelude::*;

use crate::error::PipelineError;
use crate::http::{is_success, check_status, FetchOutcome};
use crate::json::{search_urls, search_urls_x, urls_view};

verus! {

/// A parsed reference to one remote image candidate.
pub struct ImageDescriptor {
    /// The candidate's url, as the unescaped bytes of its JSON string.
    pub url: Vec<u8>,
}

/// The urls of a list of descriptors, in order.
pub open spec fn desc_views(s: Seq<ImageDescriptor>) -> Seq<Seq<u8>> {
    s.map_values(|d: ImageDescriptor| d.url@)
}

/// The selection strategy: keep the last candidate, in response order.
/// The choice of the last one is arbitrary — it stands for "any one" —
/// but it is deliberately a named, swappable policy rather than an index
/// buried in the caller.
pub fn select_last(candidates: Vec<ImageDescriptor>) -> (r: Result<
    ImageDescriptor,
    PipelineError,
>)
    ensures
        candidates@.len() == 0 ==> r == Err::<ImageDescriptor, PipelineError>(
            PipelineError::NoResultError,
        ),
        candidates@.len() > 0 ==> r == Ok::<ImageDescriptor, PipelineError>(candidates@.last()),
{
    let mut c = candidates;
    match c.pop() {
        Some(d) => Ok(d),
        None => Err(PipelineError::NoResultError),
    }
}

/// What locating a candidate yields for a given search outcome: the url
/// of the selected candidate, or the exact error owed.
pub open spec fn spec_locate(o: FetchOutcome) -> Result<Seq<u8>, PipelineError> {
    match o {
        FetchOutcome::Failed => Err(PipelineError::NetworkError),
        FetchOutcome::Response { status, body } => {
            if !is_success(status) {
                Err(PipelineError::HttpStatusError(status))
            } else {
                match search_urls(body@) {
                    None => Err(PipelineError::DecodeError),
                    Some(urls) => {
                        if urls.len() == 0 {
                            Err(PipelineError::NoResultError)
                        } else {
                            Ok(urls.last())
                        }
                    },
                }
            }
        },
    }
}

/// Locates the image to fetch: checks the search call's status, parses
/// its body as the array of candidate objects, and selects one candidate
/// by the selection strategy.
pub fn locate(outcome: &FetchOutcome) -> (r: Result<ImageDescriptor, PipelineError>)
    ensures
        (spec_locate(*outcome) matches Ok(u) ==> r matches Ok(d) && d.url@ == u),
        (spec_locate(*outcome) matches Err(e) ==> r matches Err(e2) && e2 == e),
{
    match outcome {
        FetchOutcome::Failed => Err(PipelineError::NetworkError),
        FetchOutcome::Response { status, body } => {
            match check_status(*status) {
                Err(e) => Err(e),
                Ok(()) => {
                    match search_urls_x(body) {
                        None => Err(PipelineError::DecodeError),
                        Some(urls) => {
                            let ghost full = urls_view(urls);
                            let mut rest = urls;
                            let mut candidates: Vec<ImageDescriptor> = Vec::new();
                            proof {
                                assert(desc_views(candidates@) + urls_view(rest) =~= full);
                            }
                            while rest.len() > 0
                                invariant
                                    desc_views(candidates@) + urls_view(rest) == full,
                                decreases rest@.len(),
                            {
                                let ghost candidates0 = candidates@;
                                let ghost rest0 = rest@;
                                let u = rest.remove(0);
                                candidates.push(ImageDescriptor { url: u });
                                proof {
                                    assert(desc_views(candidates@) + urls_view(rest)
                                        =~= desc_views(candidates0) + rest0.map_values(
                                        |w: Vec<u8>| w@,
                                    ));
                                }
                            }
                            proof {
                                assert(desc_views(candidates@) =~= full);
                            }
                            select_last(candidates)
                        },
                    }
                },
            }
        },
    }
}

/// Selection is deterministic: two pipeline runs that see the same search
/// response locate the same candidate — in particular, repeated runs over
/// a fixed response always select the last descriptor of its array.
pub proof fn lemma_selection_deterministic(o1: FetchOutcome, o2: FetchOutcome)
    requires
        o1 == o2,
    ensures
        spec_locate(o1) == spec_locate(o2),
{
}

} // verus!
