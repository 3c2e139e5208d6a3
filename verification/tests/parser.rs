//! Tests of the search-response parsing inside `locate`.

use catscii::error::PipelineError;
use catscii::http::FetchOutcome;
use catscii::locator::locate;

fn response(body: &[u8]) -> FetchOutcome {
    FetchOutcome::Response { status: 200, body: body.to_vec() }
}

fn url_of(body: &[u8]) -> Result<Vec<u8>, PipelineError> {
    locate(&response(body)).map(|d| d.url)
}

#[test]
fn single_candidate() {
    assert_eq!(url_of(b"[{\"url\":\"https://x/a.jpg\"}]"), Ok(b"https://x/a.jpg".to_vec()));
}

#[test]
fn last_candidate_wins() {
    let body = b"[{\"url\":\"https://x/a.jpg\"}, {\"url\":\"https://x/b.jpg\"}]";
    assert_eq!(url_of(body), Ok(b"https://x/b.jpg".to_vec()));
}

#[test]
fn extra_members_are_skipped() {
    let body = b" [ { \"id\" : \"abc\" , \"width\" : 640 , \"url\" : \"https://a\" ,
        \"height\" : -4.5e2 , \"tags\" : [ null , true , false , { \"x\" : [] } ] } ,
        { \"url\" : \"https://b\" } ] ";
    assert_eq!(url_of(body), Ok(b"https://b".to_vec()));
}

#[test]
fn member_order_does_not_matter() {
    let body = b"[{\"width\":1,\"url\":\"https://a\",\"height\":2}]";
    assert_eq!(url_of(body), Ok(b"https://a".to_vec()));
}

#[test]
fn empty_array_is_no_result() {
    assert_eq!(url_of(b"[]"), Err(PipelineError::NoResultError));
    assert_eq!(url_of(b"  [  ]  "), Err(PipelineError::NoResultError));
}

#[test]
fn simple_escapes() {
    assert_eq!(url_of(b"[{\"url\":\"a\\\"b\\\\c\\/d\\ne\\tf\\rg\\bh\\fi\"}]"), Ok(
        b"a\"b\\c/d\ne\tf\rg\x08h\x0ci".to_vec(),
    ));
}

#[test]
fn unicode_escapes() {
    // an ASCII letter, a two-byte code point, a three-byte code point
    assert_eq!(url_of(b"[{\"url\":\"a\\u0041b\\u00e9c\\u20acd\"}]"), Ok(
        b"aAb\xc3\xa9c\xe2\x82\xacd".to_vec(),
    ));
}

#[test]
fn surrogate_pair_escape() {
    // a code point outside the basic plane, written as a surrogate pair
    assert_eq!(url_of(b"[{\"url\":\"\\ud83d\\ude00\"}]"), Ok(b"\xf0\x9f\x98\x80".to_vec()));
}

#[test]
fn raw_multibyte_characters() {
    let mut body = b"[{\"url\":\"".to_vec();
    body.extend_from_slice(&[0xc3, 0xa9, 0xe2, 0x82, 0xac, 0xf0, 0x9f, 0x98, 0x80]);
    body.extend_from_slice(b"\"}]");
    assert_eq!(url_of(&body), Ok(vec![0xc3, 0xa9, 0xe2, 0x82, 0xac, 0xf0, 0x9f, 0x98, 0x80]));
}

#[test]
fn escaped_url_key() {
    assert_eq!(url_of(b"[{\"\\u0075rl\":\"https://a\"}]"), Ok(b"https://a".to_vec()));
}

#[test]
fn missing_url_is_decode_error() {
    assert_eq!(url_of(b"[{\"id\":\"x\"}]"), Err(PipelineError::DecodeError));
    assert_eq!(url_of(b"[{}]"), Err(PipelineError::DecodeError));
}

#[test]
fn repeated_url_is_decode_error() {
    assert_eq!(url_of(b"[{\"url\":\"a\",\"url\":\"b\"}]"), Err(PipelineError::DecodeError));
}

#[test]
fn non_string_url_is_decode_error() {
    assert_eq!(url_of(b"[{\"url\":7}]"), Err(PipelineError::DecodeError));
    assert_eq!(url_of(b"[{\"url\":null}]"), Err(PipelineError::DecodeError));
    assert_eq!(url_of(b"[{\"url\":[\"a\"]}]"), Err(PipelineError::DecodeError));
}

#[test]
fn malformed_documents_are_decode_errors() {
    assert_eq!(url_of(b""), Err(PipelineError::DecodeError));
    assert_eq!(url_of(b"{\"url\":\"a\"}"), Err(PipelineError::DecodeError));
    assert_eq!(url_of(b"[\"https://a\"]"), Err(PipelineError::DecodeError));
    assert_eq!(url_of(b"[{\"url\":\"a\"}"), Err(PipelineError::DecodeError));
    assert_eq!(url_of(b"[{\"url\":\"a\"}] x"), Err(PipelineError::DecodeError));
    assert_eq!(url_of(b"[{\"url\":\"a\"},]"), Err(PipelineError::DecodeError));
    assert_eq!(url_of(b"[{\"url\":\"a\" \"b\"}]"), Err(PipelineError::DecodeError));
    assert_eq!(url_of(b"[{\"url\" \"a\"}]"), Err(PipelineError::DecodeError));
}

#[test]
fn malformed_numbers_are_decode_errors() {
    assert_eq!(url_of(b"[{\"n\":01,\"url\":\"a\"}]"), Err(PipelineError::DecodeError));
    assert_eq!(url_of(b"[{\"n\":1.,\"url\":\"a\"}]"), Err(PipelineError::DecodeError));
    assert_eq!(url_of(b"[{\"n\":+1,\"url\":\"a\"}]"), Err(PipelineError::DecodeError));
    assert_eq!(url_of(b"[{\"n\":1e,\"url\":\"a\"}]"), Err(PipelineError::DecodeError));
    assert_eq!(url_of(b"[{\"n\":-,\"url\":\"a\"}]"), Err(PipelineError::DecodeError));
}

#[test]
fn well_formed_numbers_are_accepted() {
    let body = b"[{\"a\":0,\"b\":-0,\"c\":12.75,\"d\":3e8,\"e\":-1.5E-2,\"url\":\"u\"}]";
    assert_eq!(url_of(body), Ok(b"u".to_vec()));
}

#[test]
fn malformed_strings_are_decode_errors() {
    // an unpaired low surrogate
    assert_eq!(url_of(b"[{\"url\":\"\\ude00\"}]"), Err(PipelineError::DecodeError));
    // a high surrogate with no partner
    assert_eq!(url_of(b"[{\"url\":\"\\ud83dx\"}]"), Err(PipelineError::DecodeError));
    // an unknown escape
    assert_eq!(url_of(b"[{\"url\":\"\\x\"}]"), Err(PipelineError::DecodeError));
    // an unescaped control character
    assert_eq!(url_of(b"[{\"url\":\"a\nb\"}]"), Err(PipelineError::DecodeError));
    // a stray continuation byte
    let mut body = b"[{\"url\":\"".to_vec();
    body.push(0xff);
    body.extend_from_slice(b"\"}]");
    assert_eq!(url_of(&body), Err(PipelineError::DecodeError));
    // a truncated multibyte character
    let mut body = b"[{\"url\":\"".to_vec();
    body.extend_from_slice(&[0xe2, 0x82]);
    body.extend_from_slice(b"\"}]");
    assert_eq!(url_of(&body), Err(PipelineError::DecodeError));
}

#[test]
fn overlong_and_surrogate_bytes_are_decode_errors() {
    // an overlong two-byte encoding of an ASCII character
    let mut body = b"[{\"url\":\"".to_vec();
    body.extend_from_slice(&[0xc0, 0xaf]);
    body.extend_from_slice(b"\"}]");
    assert_eq!(url_of(&body), Err(PipelineError::DecodeError));
    // a raw surrogate encoding
    let mut body = b"[{\"url\":\"".to_vec();
    body.extend_from_slice(&[0xed, 0xa0, 0x80]);
    body.extend_from_slice(b"\"}]");
    assert_eq!(url_of(&body), Err(PipelineError::DecodeError));
}
