//! A verified core for a cat ASCII-art service.
//!
//! The pipeline locates a candidate image through a remote search endpoint,
//! downloads its bytes, decodes them into a raster image, and renders the
//! image as an ASCII-art document.  The decision logic of every stage —
//! status checking, parsing of the search response, candidate selection,
//! error classification, and the shape of the delivered reply — lives here
//! and carries contracts; the network calls themselves are driven by a thin
//! unverified shell around this crate.

pub mod error;
pub mod http;
pub mod imaging;
pub mod json;
pub mod locator;
pub mod pipeline;

use vstd::prelude::*;

verus! {

} // verus!
