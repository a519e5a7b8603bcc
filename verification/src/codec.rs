//! Encodings and parsers of outside crates (`base64`, `url`, `serde_json`,
//! `mime_guess`) and of std where vstd gives no specification, each behind one
//! trusted function with the facts the rest of the library relies on.

use vstd::prelude::*;
use vstd::utf8::{decode_utf8, encode_utf8, valid_utf8};

verus! {

/// Characters of the URL-safe base64 alphabet (RFC 4648 §5).
pub open spec fn is_url_safe_b64_char(c: char) -> bool {
    ||| 'A' <= c <= 'Z'
    ||| 'a' <= c <= 'z'
    ||| '0' <= c <= '9'
    ||| c == '-'
    ||| c == '_'
}

/// What `URL_SAFE_NO_PAD.encode` returns for some bytes.
pub uninterp spec fn b64url_encode_of(data: Seq<u8>) -> Seq<char>;

/// What `URL_SAFE_NO_PAD.decode` returns for some input bytes (`None` on error).
pub uninterp spec fn b64url_decode_of(data: Seq<u8>) -> Option<Seq<u8>>;

/// What `STANDARD.decode` returns for some input bytes (`None` on error).
pub uninterp spec fn b64std_decode_of(data: Seq<u8>) -> Option<Seq<u8>>;

/// Calls `base64::Engine::encode` with `general_purpose::URL_SAFE_NO_PAD`.
/// Trusted: the result is named by `b64url_encode_of`, uses only the URL-safe
/// alphabet (the engine's alphabet, no padding), and decoding it with the same
/// engine gives the input back (the round trip the crate's own tests check).
#[verifier::external_body]
pub(crate) fn b64url_encode(data: &[u8]) -> (r: String)
    ensures
        r@ == b64url_encode_of(data@),
        forall|i: int| 0 <= i < r@.len() ==> is_url_safe_b64_char(#[trigger] r@[i]),
        b64url_decode_of(encode_utf8(r@)) == Some(data@),
{
    base64::Engine::encode(&base64::engine::general_purpose::URL_SAFE_NO_PAD, data)
}

/// Calls `base64::Engine::decode` with `general_purpose::URL_SAFE_NO_PAD`.
/// Trusted: the result is `b64url_decode_of(data)` (an error becomes `None`).
#[verifier::external_body]
pub(crate) fn b64url_decode(data: &[u8]) -> (r: Option<Vec<u8>>)
    ensures
        r matches Some(v) ==> b64url_decode_of(data@) == Some(v@),
        r is None ==> b64url_decode_of(data@) is None,
{
    base64::Engine::decode(&base64::engine::general_purpose::URL_SAFE_NO_PAD, data).ok()
}

/// Calls `base64::Engine::decode` with `general_purpose::STANDARD`. Trusted:
/// the result is `b64std_decode_of(data)` (an error becomes `None`).
#[verifier::external_body]
pub(crate) fn b64std_decode(data: &[u8]) -> (r: Option<Vec<u8>>)
    ensures
        r matches Some(v) ==> b64std_decode_of(data@) == Some(v@),
        r is None ==> b64std_decode_of(data@) is None,
{
    base64::Engine::decode(&base64::engine::general_purpose::STANDARD, data).ok()
}

/// What `String::from_utf8_lossy` returns for some bytes.
pub uninterp spec fn utf8_lossy_of(bytes: Seq<u8>) -> Seq<char>;

/// Calls `String::from_utf8_lossy(..).into_owned()`. Trusted: the result is
/// `utf8_lossy_of(bytes)`, and on valid UTF-8 it is the decoded text (std's
/// documentation: invalid sequences only are replaced).
#[verifier::external_body]
pub(crate) fn utf8_lossy(bytes: &[u8]) -> (r: String)
    ensures
        r@ == utf8_lossy_of(bytes@),
        valid_utf8(bytes@) ==> r@ == decode_utf8(bytes@),
{
    String::from_utf8_lossy(bytes).into_owned()
}

/// Calls `String::from_utf8`. Trusted as std documents it: `Some` exactly on
/// valid UTF-8, holding the decoded text.
#[verifier::external_body]
pub(crate) fn utf8_strict(bytes: Vec<u8>) -> (r: Option<String>)
    ensures
        r is Some <==> valid_utf8(bytes@),
        r matches Some(s) ==> s@ == decode_utf8(bytes@),
{
    String::from_utf8(bytes).ok()
}

/// The scheme and host (`Url::scheme`, `Url::host_str`) of a string that
/// `url::Url::parse` accepts, `None` when it refuses it.
pub uninterp spec fn url_parts_of(s: Seq<char>) -> Option<(Seq<char>, Option<Seq<char>>)>;

/// Calls `url::Url::parse` (what `reqwest::Url` re-exports) and reads back
/// `scheme()` and `host_str()`. Trusted: the result is `url_parts_of(s)`.
#[verifier::external_body]
pub(crate) fn url_parts(s: &str) -> (r: Option<(String, Option<String>)>)
    ensures
        match r {
            Some((scheme, host)) => url_parts_of(s@) == Some(
                (scheme@, match host { Some(h) => Some(h@), None => None }),
            ),
            None => url_parts_of(s@) is None,
        },
{
    let u = url::Url::parse(s).ok()?;
    Some((u.scheme().to_string(), u.host_str().map(String::from)))
}

/// What `serde_json::from_str::<Vec<String>>` gives for a text (`None` on error).
pub uninterp spec fn json_string_list_of(s: Seq<char>) -> Option<Seq<Seq<char>>>;

/// Calls `serde_json::from_str::<Vec<String>>`. Trusted: the result is
/// `json_string_list_of(s)` (an error becomes `None`).
#[verifier::external_body]
pub(crate) fn json_string_list(s: &str) -> (r: Option<Vec<String>>)
    ensures
        match r {
            Some(v) => json_string_list_of(s@) == Some(v.deep_view()),
            None => json_string_list_of(s@) is None,
        },
{
    serde_json::from_str::<Vec<String>>(s).ok()
}

/// The string at `key` of a JSON object text, as `serde_json` reads it
/// (`None` when the text is no JSON, or the key is missing or no string).
pub uninterp spec fn json_str_field_of(text: Seq<char>, key: Seq<char>) -> Option<Seq<char>>;

/// Parses `text` with `serde_json::from_str::<serde_json::Value>` and reads
/// `value.get(key)` then `as_str()`. Trusted: the result is
/// `json_str_field_of(text, key)`.
#[verifier::external_body]
pub(crate) fn json_str_field(text: &str, key: &str) -> (r: Option<String>)
    ensures
        match r {
            Some(v) => json_str_field_of(text@, key@) == Some(v@),
            None => json_str_field_of(text@, key@) is None,
        },
{
    let v = serde_json::from_str::<serde_json::Value>(text).ok()?;
    v.get(key)?.as_str().map(String::from)
}

/// What `url::Url::parse(base)` followed by `query_pairs_mut()` appending
/// `(k1, v1)` then `(k2, v2)` reads as (`Url::as_str`); `None` when `base`
/// does not parse.
pub uninterp spec fn url_with_pairs_of(
    base: Seq<char>,
    k1: Seq<char>,
    v1: Seq<char>,
    k2: Seq<char>,
    v2: Seq<char>,
) -> Option<Seq<char>>;

/// Calls `url::Url::parse` (what `reqwest::Url` re-exports), appends two
/// query pairs with `query_pairs_mut().append_pair(..)` (form-encoded by
/// `form_urlencoded`) and reads the URL back. Trusted: the result is
/// `url_with_pairs_of(base, k1, v1, k2, v2)`.
#[verifier::external_body]
pub(crate) fn url_with_pairs(base: &str, k1: &str, v1: &str, k2: &str, v2: &str) -> (r: Option<String>)
    ensures
        match r {
            Some(u) => url_with_pairs_of(base@, k1@, v1@, k2@, v2@) == Some(u@),
            None => url_with_pairs_of(base@, k1@, v1@, k2@, v2@) is None,
        },
{
    let mut u = url::Url::parse(base).ok()?;
    u.query_pairs_mut().append_pair(k1, v1).append_pair(k2, v2);
    Some(u.as_str().to_string())
}

/// What `url::Url::parse(base)` followed by `set_path(path)` and one
/// `query_pairs_mut().append_pair(k, v)` reads as (`Url::as_str`); `None`
/// when `base` does not parse.
pub uninterp spec fn url_with_path_pair_of(base: Seq<char>, path: Seq<char>, k: Seq<char>, v: Seq<char>) -> Option<
    Seq<char>,
>;

/// Calls `url::Url::parse` (what `reqwest::Url` re-exports), replaces the
/// path with `set_path`, appends one query pair with
/// `query_pairs_mut().append_pair(..)` and reads the URL back. Trusted: the
/// result is `url_with_path_pair_of(base, path, k, v)`.
#[verifier::external_body]
pub(crate) fn url_with_path_pair(base: &str, path: &str, k: &str, v: &str) -> (r: Option<String>)
    ensures
        match r {
            Some(u) => url_with_path_pair_of(base@, path@, k@, v@) == Some(u@),
            None => url_with_path_pair_of(base@, path@, k@, v@) is None,
        },
{
    let mut u = url::Url::parse(base).ok()?;
    u.set_path(path);
    u.query_pairs_mut().append_pair(k, v);
    Some(u.as_str().to_string())
}

/// What `mime_guess::from_path(path).first_raw()` gives for a path.
pub uninterp spec fn mime_first_raw_of(path: Seq<char>) -> Option<Seq<char>>;

/// Calls `mime_guess::from_path(path).first_raw()`. Trusted: the result is
/// `mime_first_raw_of(path)`, a guess from the path's extension alone.
#[verifier::external_body]
pub(crate) fn mime_first_raw(path: &str) -> (r: Option<String>)
    ensures
        match r {
            Some(m) => mime_first_raw_of(path@) == Some(m@),
            None => mime_first_raw_of(path@) is None,
        },
{
    mime_guess::from_path(path).first_raw().map(String::from)
}

} // verus!
