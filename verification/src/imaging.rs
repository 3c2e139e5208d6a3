//! The image decoder and the art renderer.
//!
//! Decoding and rendering are done by the `image` and `artem` crates.  The
//! renderer cannot take a zero-dimension image (it would divide by zero),
//! and the decoder does accept such images — a sixteen-byte farbfeld body
//! with all-zero dimensions decodes — so the two calls stand behind one
//! trusted boundary from plain bytes to the art, which refuses the
//! degenerate images that must never reach the renderer.  That the art is
//! a function of the bytes and the two flags alone also gives it a name,
//! `art_of`, which the pipeline's contracts pin the result to.

use vstd::prelude::*;

use crate::error::PipelineError;

verus! {

/// Whether the bytes decode as a raster image the pipeline can render:
/// format sniffing plus a pure decode succeeds on them, and the decoded
/// image has positive width and height.  Decoding reads the bytes alone,
/// so this is a function of them; which bytes decode takes the format
/// specifications to state, so the predicate is left unstated and the
/// boundary below is the only place it is promised of.
pub uninterp spec fn decodable(bytes: Seq<u8>) -> bool;

/// The art rendered from the bytes under the two flags, for bytes that
/// are `decodable`: what decoding them and rendering the decoded image
/// with the fixed HTML-file target returns.  With that target the
/// renderer reads nothing but the image and the flags, so the art is a
/// function of these arguments alone.
pub uninterp spec fn art_of(bytes: Seq<u8>, color: bool, background_color: bool) -> Seq<char>;

/// The rendering options the pipeline exposes: the output flavor is fixed
/// to a self-contained HTML-like document, and these two flags choose
/// whether glyphs carry their colors and whether they carry background
/// colors.  Every other rendering parameter keeps the renderer's default.
pub struct RenderOptions {
    pub color: bool,
    pub background_color: bool,
}

/// The fixed text every rendered document opens with: the whole document
/// shell up to the opening of the preformatted block, title included.
pub open spec fn doc_header() -> Seq<char> {
    "<!DOCTYPE html>\n    <html lang=\"en\">\n    \n    <head>\n        <meta charset=\"UTF-8\">\n        <meta http-equiv=\"X-UA-Compatible\" content=\"IE=edge\">\n        <meta name=\"viewport\" content=\"width=device-width, initial-scale=1.0\">\n        <title>Artem Ascii Image</title>\n    </head>\n    \n    <body>\n        <pre>"@
}

/// The fixed text every rendered document closes with.
pub open spec fn doc_footer() -> Seq<char> {
    "\n</pre></body></html>"@
}

/// Relies on image::load_from_memory and artem::convert.  The decoder
/// sniffs the container from the byte content and decodes, with no I/O
/// and no other input, reporting an unrecognised container as
/// `ImageError::Unsupported`; a decoded image of zero width or height is
/// refused here, before the renderer, which would divide by zero on it.
/// The renderer, with the HTML-file target, reads nothing but the image
/// and the two flags, and wraps its output in a fixed document shell —
/// so the art opens with the document header, closes with the document
/// footer, and is a function of the bytes and the flags alone.
#[verifier::external_body]
pub(crate) fn decode_and_render(bytes: &Vec<u8>, options: &RenderOptions) -> (r: Result<
    String,
    PipelineError,
>)
    ensures
        r is Ok <==> decodable(bytes@),
        (r matches Ok(art) ==> art@ == art_of(bytes@, options.color, options.background_color)),
        (r matches Ok(art) ==> art@.len() >= doc_header().len() + doc_footer().len()
            && art@.subrange(0, doc_header().len() as int) == doc_header() && art@.subrange(
            art@.len() - doc_footer().len(),
            art@.len() as int,
        ) == doc_footer()),
        (r matches Err(e) ==> e == PipelineError::UnsupportedFormatError || e
            == PipelineError::CorruptDataError),
{
    let img = match image::load_from_memory(bytes.as_slice()) {
        Ok(img) => img,
        Err(image::ImageError::Unsupported(_)) => return Err(PipelineError::UnsupportedFormatError),
        Err(_) => return Err(PipelineError::CorruptDataError),
    };
    if img.width() == 0 || img.height() == 0 {
        return Err(PipelineError::CorruptDataError);
    }
    let config = artem::config::ConfigBuilder::new()
        .target(artem::config::TargetType::HtmlFile)
        .color(options.color)
        .background_color(options.background_color)
        .build();
    Ok(artem::convert(img, &config))
}

} // verus!
