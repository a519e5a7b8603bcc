//! Digests and MACs from the `sha2`, `md-5`, `hmac` and `cookie` crates, and
//! the hex renderings the server builds on them.

use vstd::prelude::*;
use crate::text::{hex_lower, push_hex, to_hex, utf8_bytes};

verus! {

/// SHA-256 of a byte string (what `sha2::Sha256::digest` returns).
pub uninterp spec fn sha256_of(data: Seq<u8>) -> Seq<u8>;

/// SHA-512 of a byte string (what `sha2::Sha512::digest` returns).
pub uninterp spec fn sha512_of(data: Seq<u8>) -> Seq<u8>;

/// MD5 of a byte string (what `md5::Md5::digest` of the `md-5` crate returns).
pub uninterp spec fn md5_of(data: Seq<u8>) -> Seq<u8>;

/// HMAC-SHA256 tag of `msg` under `key` (`hmac::Hmac<Sha256>`).
pub uninterp spec fn hmac_sha256_of(key: Seq<u8>, msg: Seq<u8>) -> Seq<u8>;

/// Calls `sha2::Sha256::digest`. Trusted: the result is the digest named by
/// `sha256_of` (a function of the input alone) and is 32 bytes long, as the
/// output type `GenericArray<u8, U32>` fixes.
#[verifier::external_body]
pub(crate) fn sha256(data: &[u8]) -> (r: Vec<u8>)
    ensures
        r@ == sha256_of(data@),
        r@.len() == 32,
{
    <sha2::Sha256 as sha2::Digest>::digest(data).to_vec()
}

/// Calls `sha2::Sha512::digest`. Trusted: the result is `sha512_of(data)`,
/// 64 bytes long as its output type fixes.
#[verifier::external_body]
pub(crate) fn sha512(data: &[u8]) -> (r: Vec<u8>)
    ensures
        r@ == sha512_of(data@),
        r@.len() == 64,
{
    <sha2::Sha512 as sha2::Digest>::digest(data).to_vec()
}

/// Calls `md5::Md5::digest` (crate `md-5`). Trusted: the result is
/// `md5_of(data)`, 16 bytes long as its output type fixes.
#[verifier::external_body]
pub(crate) fn md5(data: &[u8]) -> (r: Vec<u8>)
    ensures
        r@ == md5_of(data@),
        r@.len() == 16,
{
    <md5::Md5 as md5::Digest>::digest(data).to_vec()
}

/// Calls `hmac::Mac::new_from_slice` for `Hmac<Sha256>`, `update` and
/// `finalize`. `new_from_slice` accepts a key of any length for HMAC (its
/// source always returns `Ok`), so the `expect` never fires. Trusted: the tag
/// is `hmac_sha256_of(key, msg)`, 32 bytes long.
#[verifier::external_body]
pub(crate) fn hmac_sha256(key: &[u8], msg: &[u8]) -> (r: Vec<u8>)
    ensures
        r@ == hmac_sha256_of(key@, msg@),
        r@.len() == 32,
{
    let mut mac = <hmac::Hmac<sha2::Sha256> as hmac::Mac>::new_from_slice(key).expect("hmac key");
    hmac::Mac::update(&mut mac, msg);
    hmac::Mac::finalize(mac).into_bytes().to_vec()
}

#[verifier::external_type_specification]
#[verifier::external_body]
pub struct ExCookieKey(axum_extra::extract::cookie::Key);

/// The key `cookie::Key::from` makes from some bytes: it copies the first 64
/// of them into the key, so the same bytes give the same key.
pub uninterp spec fn cookie_key_of(bytes: Seq<u8>) -> axum_extra::extract::cookie::Key;

/// Calls `cookie::Key::from` (re-exported by `axum_extra`), which panics on
/// fewer than 64 bytes; `requires` rules that out. Trusted: the key is the
/// one named by `cookie_key_of` for these bytes. What the key holds is private
/// to the crate and not stated.
#[verifier::external_body]
pub(crate) fn cookie_key_from(bytes: &[u8]) -> (r: axum_extra::extract::cookie::Key)
    requires
        bytes@.len() >= 64,
    ensures
        r == cookie_key_of(bytes@),
{
    axum_extra::extract::cookie::Key::from(bytes)
}

/// Lower-case hex SHA-256 of a string's UTF-8 bytes.
pub fn sha256_hex(s: &str) -> (r: String)
    ensures
        r@ == hex_lower(sha256_of(utf8_bytes(s))),
{
    let d = sha256(s.as_bytes());
    to_hex(d.as_slice())
}

/// Lower-case hex MD5 of a string's UTF-8 bytes.
pub fn md5_hex(input: &str) -> (r: String)
    ensures
        r@ == hex_lower(md5_of(utf8_bytes(input))),
{
    let d = md5(input.as_bytes());
    to_hex(d.as_slice())
}

/// Lower-case hex HMAC-SHA256 of `body` keyed by the UTF-8 bytes of `secret`.
pub fn hmac_hex(secret: &str, body: &[u8]) -> (r: String)
    ensures
        r@ == hex_lower(hmac_sha256_of(utf8_bytes(secret), body@)),
{
    let d = hmac_sha256(secret.as_bytes(), body);
    to_hex(d.as_slice())
}

/// Hex of the first eight bytes (sixteen hex digits when there are eight).
pub fn hex16(bytes: &[u8]) -> (r: String)
    ensures
        r@ == hex_lower(bytes@.take(if bytes@.len() < 8 { bytes@.len() as int } else { 8 })),
{
    let n: usize = if bytes.len() < 8 {
        bytes.len()
    } else {
        8
    };
    let mut head: Vec<u8> = Vec::new();
    let mut i: usize = 0;
    while i < n
        invariant
            n <= bytes@.len(),
            i <= n,
            head@ == bytes@.take(i as int),
        decreases n - i,
    {
        head.push(bytes[i]);
        assert(head@ =~= bytes@.take(i + 1));
        i = i + 1;
    }
    let mut r = String::new();
    push_hex(&mut r, head.as_slice());
    assert(r@ =~= hex_lower(head@));
    r
}

/// Key id of an RSA signing key: sixteen hex digits of SHA-256 over the
/// big-endian modulus bytes.
pub fn kid_for_modulus(n: &[u8]) -> (r: String)
    ensures
        r@ == hex_lower(sha256_of(n@).take(8)),
{
    let d = sha256(n);
    hex16(d.as_slice())
}

/// The 64-byte cookie-signing key material derived from the configured secret
/// (SHA-512 of its UTF-8 bytes).
pub fn cookie_key_material(secret: &str) -> (r: Vec<u8>)
    ensures
        r@ == sha512_of(utf8_bytes(secret)),
        r@.len() == 64,
{
    sha512(secret.as_bytes())
}

/// The private-cookie key derived from the configured secret: the key
/// `cookie::Key::from` makes from the SHA-512 of the secret's UTF-8 bytes.
pub fn derive_cookie_key(secret: &str) -> (r: axum_extra::extract::cookie::Key)
    ensures
        r == cookie_key_of(sha512_of(utf8_bytes(secret))),
{
    let m = cookie_key_material(secret);
    cookie_key_from(m.as_slice())
}

} // verus!
