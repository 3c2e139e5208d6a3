//! End-to-end tests of the pipeline stages and the delivered reply.

use catscii::error::PipelineError;
use catscii::http::{check_status, FetchOutcome};
use catscii::imaging::RenderOptions;
use catscii::locator::{locate, select_last, ImageDescriptor};
use catscii::pipeline::{deliver, render_from_fetch};

fn options() -> RenderOptions {
    RenderOptions { color: true, background_color: true }
}

/// A 2 by 2 bitmap, 24 bits a pixel, rows padded to four bytes.
fn tiny_bmp() -> Vec<u8> {
    let mut v: Vec<u8> = Vec::new();
    v.extend_from_slice(b"BM");
    v.extend_from_slice(&70u32.to_le_bytes()); // file size
    v.extend_from_slice(&[0, 0, 0, 0]); // reserved
    v.extend_from_slice(&54u32.to_le_bytes()); // pixel data offset
    v.extend_from_slice(&40u32.to_le_bytes()); // header size
    v.extend_from_slice(&2i32.to_le_bytes()); // width
    v.extend_from_slice(&2i32.to_le_bytes()); // height
    v.extend_from_slice(&1u16.to_le_bytes()); // planes
    v.extend_from_slice(&24u16.to_le_bytes()); // bits a pixel
    v.extend_from_slice(&0u32.to_le_bytes()); // no compression
    v.extend_from_slice(&16u32.to_le_bytes()); // pixel data size
    v.extend_from_slice(&2835u32.to_le_bytes()); // horizontal resolution
    v.extend_from_slice(&2835u32.to_le_bytes()); // vertical resolution
    v.extend_from_slice(&0u32.to_le_bytes()); // palette size
    v.extend_from_slice(&0u32.to_le_bytes()); // important colors
    v.extend_from_slice(&[0, 0, 0, 255, 255, 255, 0, 0]);
    v.extend_from_slice(&[255, 255, 255, 0, 0, 0, 0, 0]);
    v
}

#[test]
fn happy_path() {
    let search = FetchOutcome::Response {
        status: 200,
        body: b"[{\"url\":\"https://x/a.jpg\"}, {\"url\":\"https://x/b.jpg\"}]".to_vec(),
    };
    let descriptor = locate(&search).expect("the search response holds candidates");
    assert_eq!(descriptor.url, b"https://x/b.jpg".to_vec());

    let download = FetchOutcome::Response { status: 200, body: tiny_bmp() };
    let art = render_from_fetch(&download, &options()).expect("the bitmap decodes");
    assert!(!art.is_empty());
    let header = "<!DOCTYPE html>\n    <html lang=\"en\">\n    \n    <head>\n        <meta charset=\"UTF-8\">\n        <meta http-equiv=\"X-UA-Compatible\" content=\"IE=edge\">\n        <meta name=\"viewport\" content=\"width=device-width, initial-scale=1.0\">\n        <title>Artem Ascii Image</title>\n    </head>\n    \n    <body>\n        <pre>";
    assert!(art.starts_with(header));
    assert!(art.contains("<title>Artem Ascii Image</title>"));
    assert!(art.ends_with("\n</pre></body></html>"));

    let reply = deliver(Ok(art.clone()));
    assert_eq!(reply.status, 200);
    assert_eq!(reply.content_type, "text/html; charset=utf-8");
    assert_eq!(reply.body, art);
}

#[test]
fn empty_search_result() {
    let search = FetchOutcome::Response { status: 200, body: b"[]".to_vec() };
    let r = locate(&search);
    assert!(matches!(r, Err(PipelineError::NoResultError)));

    let reply = deliver(Err(PipelineError::NoResultError));
    assert_eq!(reply.status, 500);
    assert_eq!(reply.body, "Encountered error");
}

#[test]
fn non_success_search_status() {
    // the locator fails before any image fetch could be owed
    let search = FetchOutcome::Response { status: 503, body: b"[{\"url\":\"a\"}]".to_vec() };
    let r = locate(&search);
    assert!(matches!(r, Err(PipelineError::HttpStatusError(503))));
}

#[test]
fn non_success_image_status() {
    let download = FetchOutcome::Response { status: 404, body: tiny_bmp() };
    let r = render_from_fetch(&download, &options());
    assert!(matches!(r, Err(PipelineError::HttpStatusError(404))));
}

#[test]
fn network_failures() {
    assert!(matches!(locate(&FetchOutcome::Failed), Err(PipelineError::NetworkError)));
    assert!(matches!(
        render_from_fetch(&FetchOutcome::Failed, &options()),
        Err(PipelineError::NetworkError)
    ));
}

#[test]
fn corrupt_image_bytes() {
    let download = FetchOutcome::Response {
        status: 200,
        body: b"these bytes are not an image".to_vec(),
    };
    let r = render_from_fetch(&download, &options());
    assert!(matches!(r, Err(PipelineError::UnsupportedFormatError)));

    let reply = deliver(r);
    assert_eq!(reply.status, 500);
    assert_eq!(reply.content_type, "text/plain; charset=utf-8");
    assert_eq!(reply.body, "Encountered error");
}

#[test]
fn truncated_image_bytes() {
    // a recognised container whose data breaks off
    let mut body = tiny_bmp();
    body.truncate(20);
    let download = FetchOutcome::Response { status: 200, body };
    let r = render_from_fetch(&download, &options());
    assert!(matches!(
        r,
        Err(PipelineError::CorruptDataError) | Err(PipelineError::UnsupportedFormatError)
    ));
}

#[test]
fn zero_dimension_image_is_corrupt_data() {
    // a farbfeld body whose width and height are both zero: it decodes,
    // but the pipeline must refuse it rather than hand it to the renderer
    let mut body = b"farbfeld".to_vec();
    body.extend_from_slice(&[0u8; 8]);
    let download = FetchOutcome::Response { status: 200, body };
    let r = render_from_fetch(&download, &options());
    assert!(matches!(r, Err(PipelineError::CorruptDataError)));
}

#[test]
fn rendering_is_deterministic() {
    // byte-identical downloads render to the identical document
    let first = FetchOutcome::Response { status: 200, body: tiny_bmp() };
    let second = FetchOutcome::Response { status: 200, body: tiny_bmp() };
    let a = render_from_fetch(&first, &options()).expect("the bitmap decodes");
    let b = render_from_fetch(&second, &options()).expect("the bitmap decodes");
    assert_eq!(a, b);
}

#[test]
fn selection_is_deterministic() {
    let body = b"[{\"url\":\"https://x/a.jpg\"}, {\"url\":\"https://x/b.jpg\"}]";
    let mut seen: Vec<Vec<u8>> = Vec::new();
    for _ in 0..3 {
        let search = FetchOutcome::Response { status: 200, body: body.to_vec() };
        seen.push(locate(&search).expect("the response holds candidates").url);
    }
    assert_eq!(seen[0], b"https://x/b.jpg".to_vec());
    assert_eq!(seen[0], seen[1]);
    assert_eq!(seen[1], seen[2]);
}

#[test]
fn runs_are_independent() {
    // two interleaved runs; each result reflects its own response alone
    let first = FetchOutcome::Response { status: 200, body: b"[{\"url\":\"one\"}]".to_vec() };
    let second = FetchOutcome::Response { status: 200, body: b"[{\"url\":\"two\"}]".to_vec() };
    let r1 = locate(&first);
    let r2 = locate(&second);
    let r1_again = locate(&first);
    assert_eq!(r1.map(|d| d.url), Ok(b"one".to_vec()));
    assert_eq!(r2.map(|d| d.url), Ok(b"two".to_vec()));
    assert_eq!(r1_again.map(|d| d.url), Ok(b"one".to_vec()));
}

#[test]
fn status_discipline() {
    assert!(check_status(200).is_ok());
    assert!(check_status(204).is_ok());
    assert!(check_status(299).is_ok());
    assert!(matches!(check_status(199), Err(PipelineError::HttpStatusError(199))));
    assert!(matches!(check_status(300), Err(PipelineError::HttpStatusError(300))));
    assert!(matches!(check_status(503), Err(PipelineError::HttpStatusError(503))));
}

#[test]
fn selection_strategy_takes_the_last() {
    let candidates = vec![
        ImageDescriptor { url: b"a".to_vec() },
        ImageDescriptor { url: b"b".to_vec() },
        ImageDescriptor { url: b"c".to_vec() },
    ];
    assert_eq!(select_last(candidates).map(|d| d.url), Ok(b"c".to_vec()));
    assert!(matches!(select_last(Vec::new()), Err(PipelineError::NoResultError)));
}
