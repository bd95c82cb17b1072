//! Decoding of compressed, encoded query parameters, as the browser entry
//! point hands them in: a query string is split into key–value pairs and
//! percent-decoded, and a parameter's payload is base64-decoded and then
//! inflated back into source text.

use vstd::prelude::*;
use vstd::string::StringSliceAdditionalSpecFns;

use base64::Engine;

verus! {

/// An error while decoding query data: the underlying library's message.
#[derive(Debug)]
pub struct QueryError {
    /// What the decoder reported.
    pub message: String,
}

/// The byte value of `%`.
pub const BYTE_PERCENT: u8 = 37;

/// The byte value of `&`.
pub const BYTE_AMPERSAND: u8 = 38;

/// The byte value of `=`.
pub const BYTE_EQUALS: u8 = 61;

/// The byte value of `?`.
pub const BYTE_QUESTION: u8 = 63;

/// The value of a hexadecimal digit byte, if it is one.
pub open spec fn hex_val(b: u8) -> Option<u8> {
    if 48 <= b && b <= 57 {
        Some((b - 48) as u8)
    } else if 97 <= b && b <= 102 {
        Some((b - 97 + 10) as u8)
    } else if 65 <= b && b <= 70 {
        Some((b - 65 + 10) as u8)
    } else {
        None
    }
}

/// Percent-decoding: a `%` followed by two hexadecimal digits becomes the
/// byte they spell; anything else passes through unchanged.
pub open spec fn pct_decode_spec(s: Seq<u8>) -> Seq<u8>
    decreases s.len(),
{
    if s.len() == 0 {
        Seq::empty()
    } else if s[0] == BYTE_PERCENT && s.len() >= 3 && hex_val(s[1]) is Some && hex_val(s[2]) is Some {
        seq![(hex_val(s[1])->Some_0 * 16 + hex_val(s[2])->Some_0) as u8] + pct_decode_spec(
            s.skip(3),
        )
    } else {
        seq![s[0]] + pct_decode_spec(s.skip(1))
    }
}

/// What base64 decoding (URL-safe alphabet, no padding) makes of a byte
/// string: `None` when the input is not valid base64.
pub uninterp spec fn b64url_of(s: Seq<u8>) -> Option<Seq<u8>>;

/// What inflating a raw DEFLATE stream yields: `None` when the stream is
/// not valid.
pub uninterp spec fn inflate_of(b: Seq<u8>) -> Option<Seq<u8>>;

/// What decoding a byte string as UTF-8 yields: `None` when the bytes are
/// not valid UTF-8.
pub uninterp spec fn utf8_of(b: Seq<u8>) -> Option<Seq<char>>;

/// Relies on `percent_encoding::percent_decode`: each `%` followed by two
/// hexadecimal digits is decoded to one byte, everything else is passed
/// through — exactly `pct_decode_spec`.
#[verifier::external_body]
fn pct_decode(s: &[u8]) -> (r: Vec<u8>)
    ensures
        r@ == pct_decode_spec(s@),
{
    percent_encoding::percent_decode(s).collect()
}

/// Relies on `base64`'s `URL_SAFE_NO_PAD` engine: whether a byte string
/// decodes, and to what, is a function of the bytes alone.
#[verifier::external_body]
fn b64url_decode(s: &[u8]) -> (r: Option<Vec<u8>>)
    ensures
        r is Some <==> b64url_of(s@) is Some,
        r matches Some(v) ==> v@ == b64url_of(s@)->Some_0,
{
    base64::engine::general_purpose::URL_SAFE_NO_PAD.decode(s).ok()
}

/// Relies on `miniz_oxide::inflate::decompress_to_vec`: whether a raw
/// DEFLATE stream inflates, and to what, is a function of the bytes alone.
#[verifier::external_body]
fn inflate(b: &[u8]) -> (r: Result<Vec<u8>, QueryError>)
    ensures
        r is Ok <==> inflate_of(b@) is Some,
        r matches Ok(v) ==> v@ == inflate_of(b@)->Some_0,
{
    match miniz_oxide::inflate::decompress_to_vec(b) {
        Ok(v) => Ok(v),
        Err(e) => Err(QueryError { message: e.to_string() }),
    }
}

/// Relies on `String::from_utf8`: whether bytes are valid UTF-8, and which
/// characters they spell, is a function of the bytes alone.
#[verifier::external_body]
fn utf8_string(b: Vec<u8>) -> (r: Result<String, QueryError>)
    ensures
        r is Ok <==> utf8_of(b@) is Some,
        r matches Ok(s) ==> s@ == utf8_of(b@)->Some_0,
{
    match String::from_utf8(b) {
        Ok(s) => Ok(s),
        Err(e) => Err(QueryError { message: e.to_string() }),
    }
}

/// Decompresses raw DEFLATE-compressed bytes into a UTF-8 string.
pub fn decompress(compressed: Vec<u8>) -> (r: Result<String, QueryError>)
    ensures
        r is Ok <==> (inflate_of(compressed@) matches Some(b) && utf8_of(b) is Some),
        r matches Ok(s) ==> s@ == utf8_of(inflate_of(compressed@)->Some_0)->Some_0,
{
    let bytes = match inflate(compressed.as_slice()) {
        Ok(b) => b,
        Err(e) => {
            return Err(e);
        },
    };
    utf8_string(bytes)
}

/// Decodes one compressed query payload: base64 (URL-safe, unpadded), then
/// DEFLATE, then UTF-8.  `None` when any stage rejects its input.
pub fn decode_compressed_param(s: &str) -> (r: Option<String>)
    ensures
        ({
            let chain = match b64url_of(s.spec_bytes()) {
                None => None::<Seq<char>>,
                Some(packed) => match inflate_of(packed) {
                    None => None,
                    Some(raw) => utf8_of(raw),
                },
            };
            match r {
                None => chain is None,
                Some(out) => chain == Some(out@),
            }
        }),
{
    let packed = match b64url_decode(s.as_bytes()) {
        Some(v) => v,
        None => {
            return None;
        },
    };
    match decompress(packed) {
        Ok(out) => Some(out),
        Err(_) => None,
    }
}

/// The query string's key–value pairs from position `i` on, with `done`
/// the finished pairs, `key` and `val` the pair being gathered, and
/// `in_val` whether the first `=` of the pair has passed: pairs split on
/// `&`, a pair splits on its first `=`, and a pair without `=` has an
/// empty value.
pub open spec fn pairs_acc(
    s: Seq<u8>,
    i: int,
    done: Seq<(Seq<u8>, Seq<u8>)>,
    key: Seq<u8>,
    val: Seq<u8>,
    in_val: bool,
) -> Seq<(Seq<u8>, Seq<u8>)>
    decreases s.len() - i,
{
    if i < 0 || i >= s.len() {
        done.push((key, val))
    } else if s[i] == BYTE_AMPERSAND {
        pairs_acc(s, i + 1, done.push((key, val)), Seq::empty(), Seq::empty(), false)
    } else if s[i] == BYTE_EQUALS && !in_val {
        pairs_acc(s, i + 1, done, key, val, true)
    } else if !in_val {
        pairs_acc(s, i + 1, done, key.push(s[i]), val, false)
    } else {
        pairs_acc(s, i + 1, done, key, val.push(s[i]), true)
    }
}

/// Where the query's pairs start: past any leading question marks.
pub open spec fn query_start(s: Seq<u8>) -> int
    decreases s.len(),
{
    if s.len() > 0 && s[0] == BYTE_QUESTION {
        1 + query_start(s.skip(1))
    } else {
        0
    }
}

/// The raw key–value byte pairs of a query string.
pub open spec fn query_pairs(s: Seq<u8>) -> Seq<(Seq<u8>, Seq<u8>)> {
    pairs_acc(s, query_start(s), Seq::empty(), Seq::empty(), Seq::empty(), false)
}

/// One raw pair, percent-decoded and read as UTF-8; `None` when either
/// side is not valid UTF-8 after decoding.
pub open spec fn decoded_pair(p: (Seq<u8>, Seq<u8>)) -> Option<(Seq<char>, Seq<char>)> {
    match (utf8_of(pct_decode_spec(p.0)), utf8_of(pct_decode_spec(p.1))) {
        (Some(k), Some(v)) => Some((k, v)),
        _ => None,
    }
}

/// Parses a query string into its key–value pairs, in order: leading
/// question marks are skipped, pairs split on `&`, each pair splits on its
/// first `=`, and both sides are percent-decoded.  Fails exactly when some
/// decoded side is not valid UTF-8.
#[verifier::loop_isolation(false)]
pub fn parse_query_params(query: &str) -> (r: Result<Vec<(String, String)>, QueryError>)
    ensures
        r is Ok <==> (forall|j: int|
            0 <= j < query_pairs(query.spec_bytes()).len() ==> decoded_pair(
                #[trigger] query_pairs(query.spec_bytes())[j],
            ) is Some),
        r matches Ok(ps) ==> ps@.len() == query_pairs(query.spec_bytes()).len() && forall|j: int|
            0 <= j < ps@.len() ==> (decoded_pair(query_pairs(query.spec_bytes())[j]) matches Some(
                kv,
            ) && (#[trigger] ps@[j]).0@ == kv.0 && ps@[j].1@ == kv.1),
{
    let bytes = query.as_bytes();
    let ghost s = query.spec_bytes();
    let n = bytes.len();

    proof {
        assert(s.skip(0) =~= s);
    }
    let mut start: usize = 0;
    while start < n && bytes[start] == BYTE_QUESTION
        invariant
            n == s.len(),
            bytes@ == s,
            start <= n,
            query_start(s) == start + query_start(s.skip(start as int)),
        decreases n - start,
    {
        proof {
            assert(s.skip(start as int)[0] == s[start as int]);
            assert(s.skip(start as int).skip(1) =~= s.skip(start as int + 1));
        }
        start = start + 1;
    }
    proof {
        if start < n {
            assert(s.skip(start as int)[0] == s[start as int]);
        }
        assert(query_start(s.skip(start as int)) == 0);
        assert(query_start(s) == start as int);
    }

    let mut raw: Vec<(Vec<u8>, Vec<u8>)> = Vec::new();
    let mut key: Vec<u8> = Vec::new();
    let mut val: Vec<u8> = Vec::new();
    let mut in_val: bool = false;
    let mut i: usize = start;
    proof {
        assert(raw_view(raw@) =~= Seq::<(Seq<u8>, Seq<u8>)>::empty());
    }
    while i < n
        invariant
            n == s.len(),
            bytes@ == s,
            start <= i <= n,
            query_pairs(s) == pairs_acc(
                s,
                i as int,
                raw_view(raw@),
                key@,
                val@,
                in_val,
            ),
        decreases n - i,
    {
        let b = bytes[i];
        if b == BYTE_AMPERSAND {
            let ghost prev = raw_view(raw@);
            let ghost pk = key@;
            let ghost pv = val@;
            raw.push((key, val));
            key = Vec::new();
            val = Vec::new();
            in_val = false;
            proof {
                assert(raw_view(raw@) =~= prev.push((pk, pv)));
            }
        } else if b == BYTE_EQUALS && !in_val {
            in_val = true;
        } else if !in_val {
            key.push(b);
        } else {
            val.push(b);
        }
        i = i + 1;
    }
    let ghost prev = raw_view(raw@);
    let ghost pk = key@;
    let ghost pv = val@;
    raw.push((key, val));
    proof {
        assert(raw_view(raw@) =~= prev.push((pk, pv)));
        assert(query_pairs(s) == raw_view(raw@));
    }

    let mut out: Vec<(String, String)> = Vec::new();
    let mut j: usize = 0;
    let m = raw.len();
    while j < m
        invariant
            m == raw@.len(),
            j <= m,
            query_pairs(s) == raw_view(raw@),
            out@.len() == j,
            forall|t: int|
                0 <= t < j ==> decoded_pair(raw_view(raw@)[t]) is Some,
            forall|t: int|
                0 <= t < j ==> (decoded_pair(raw_view(raw@)[t]) matches Some(kv) && (
                #[trigger] out@[t]).0@ == kv.0 && out@[t].1@ == kv.1),
        decreases m - j,
    {
        proof {
            assert(raw_view(raw@)[j as int] == (raw@[j as int].0@, raw@[j as int].1@));
        }
        let key_bytes = pct_decode(raw[j].0.as_slice());
        let val_bytes = pct_decode(raw[j].1.as_slice());
        let k = match utf8_string(key_bytes) {
            Ok(k) => k,
            Err(e) => {
                return Err(e);
            },
        };
        let v = match utf8_string(val_bytes) {
            Ok(v) => v,
            Err(e) => {
                return Err(e);
            },
        };
        out.push((k, v));
        j = j + 1;
    }
    Ok(out)
}

/// The view of gathered raw byte pairs.
pub open spec fn raw_view(v: Seq<(Vec<u8>, Vec<u8>)>) -> Seq<(Seq<u8>, Seq<u8>)> {
    v.map_values(|p: (Vec<u8>, Vec<u8>)| (p.0@, p.1@))
}

/// The value under `key`, taking the pair registered last — the pair a map
/// filled in order would keep.
#[verifier::loop_isolation(false)]
pub fn query_value<'a>(pairs: &'a Vec<(String, String)>, key: &String) -> (r: Option<&'a String>)
    ensures
        ({
            let ps = pairs@;
            match r {
                Some(v) => exists|j: int|
                    0 <= j < ps.len() && (#[trigger] ps[j]).0@ == key@ && v@ == ps[j].1@ && (
                    forall|t: int| j < t < ps.len() ==> (#[trigger] ps[t]).0@ != key@),
                None => forall|j: int| 0 <= j < ps.len() ==> (#[trigger] ps[j]).0@ != key@,
            }
        }),
{
    let n = pairs.len();
    let mut j: usize = n;
    while j > 0
        invariant
            n == pairs@.len(),
            j <= n,
            forall|t: int| j <= t < n ==> (#[trigger] pairs@[t]).0@ != key@,
        decreases j,
    {
        j = j - 1;
        if pairs[j].0.eq(key) {
            return Some(&pairs[j].1);
        }
    }
    None
}

} // verus!
