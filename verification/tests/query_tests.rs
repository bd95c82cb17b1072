//! Query-parameter decoding: splitting, percent-decoding, and the
//! base64-then-inflate payload pipeline.

use base64::Engine;
use tfxed_core::query::{decode_compressed_param, decompress, parse_query_params, query_value};

#[test]
fn query_splits_into_decoded_pairs() {
    let pairs = parse_query_params("?code=a%20b&x=1&flag").unwrap();
    assert_eq!(pairs.len(), 3);
    assert_eq!(pairs[0].0, "code");
    assert_eq!(pairs[0].1, "a b");
    assert_eq!(pairs[1].0, "x");
    assert_eq!(pairs[1].1, "1");
    assert_eq!(pairs[2].0, "flag");
    assert_eq!(pairs[2].1, "");
}

#[test]
fn query_keeps_later_equals_signs_in_the_value() {
    let pairs = parse_query_params("k=a=b").unwrap();
    assert_eq!(pairs.len(), 1);
    assert_eq!(pairs[0].0, "k");
    assert_eq!(pairs[0].1, "a=b");
}

#[test]
fn malformed_percent_escapes_pass_through() {
    let pairs = parse_query_params("k=%zz&u=%2F%2f").unwrap();
    assert_eq!(pairs[0].1, "%zz");
    assert_eq!(pairs[1].1, "//");
}

#[test]
fn invalid_utf8_after_decoding_is_an_error() {
    assert!(parse_query_params("k=%FF").is_err());
}

#[test]
fn query_value_takes_the_last_pair_under_a_key() {
    let pairs = parse_query_params("a=1&b=9&a=2").unwrap();
    assert_eq!(query_value(&pairs, &"a".to_string()).unwrap(), "2");
    assert_eq!(query_value(&pairs, &"b".to_string()).unwrap(), "9");
    assert!(query_value(&pairs, &"c".to_string()).is_none());
}

#[test]
fn compressed_payload_round_trips() {
    let text = "fx::dissolve(500)\nfx::sleep(100)";
    let packed = miniz_oxide::deflate::compress_to_vec(text.as_bytes(), 6);
    let encoded = base64::engine::general_purpose::URL_SAFE_NO_PAD.encode(&packed);
    assert_eq!(decode_compressed_param(&encoded).unwrap(), text);
}

#[test]
fn garbage_payload_decodes_to_nothing() {
    // not base64 at all
    assert!(decode_compressed_param("!!!").is_none());
    // valid base64 but not a DEFLATE stream
    let encoded = base64::engine::general_purpose::URL_SAFE_NO_PAD.encode(b"not deflate");
    assert!(decode_compressed_param(&encoded).is_none());
}

#[test]
fn decompress_rejects_invalid_streams() {
    let r = decompress(vec![0xde, 0xad, 0xbe, 0xef]);
    assert!(r.is_err());
    let packed = miniz_oxide::deflate::compress_to_vec(b"hello", 6);
    assert_eq!(decompress(packed).unwrap(), "hello");
}
