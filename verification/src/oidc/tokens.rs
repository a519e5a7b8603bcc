//! Authorization-code checks and the token set handed to clients.

use vstd::prelude::*;
use crate::codec;
use crate::crypto;
use crate::addr;
use crate::oidc;
use crate::text;

verus! {

/// The PKCE code challenge a verifier produces under `S256`: URL-safe base64
/// (no padding) of the SHA-256 of the verifier.
pub open spec fn s256_challenge(verifier: Seq<char>) -> Seq<char> {
    codec::b64url_encode_of(crypto::sha256_of(vstd::utf8::encode_utf8(verifier)))
}

/// RFC 7636: whether `verifier` answers `challenge` under `method`
/// (`S256`, or `plain` when absent or anything else).
pub open spec fn pkce_ok(challenge: Seq<char>, method: Option<Seq<char>>, verifier: Seq<char>) -> bool {
    if method == Some("S256"@) {
        s256_challenge(verifier) == challenge
    } else {
        challenge == verifier
    }
}

/// A verifier answers the challenge derived from it: under `S256` its
/// hashed encoding, under `plain` (or no method) itself.
pub proof fn lemma_pkce_roundtrip(verifier: Seq<char>)
    ensures
        pkce_ok(s256_challenge(verifier), Some("S256"@), verifier),
        pkce_ok(verifier, None, verifier),
{
}

/// Verifies an RFC 7636 code verifier against the stored challenge.
pub fn verify_pkce(challenge: &str, method: Option<&str>, verifier: &str) -> (r: bool)
    ensures
        r == pkce_ok(challenge@, match method { Some(m) => Some(m@), None => None }, verifier@),
{
    let is_s256 = match method {
        Some(m) => text::chars_eq(&text::chars_of(m), &text::lit("S256")),
        None => false,
    };
    let c = text::chars_of(challenge);
    if is_s256 {
        let h = crypto::sha256(verifier.as_bytes());
        let enc = codec::b64url_encode(h.as_slice());
        text::chars_eq(&text::chars_of(enc.as_str()), &c)
    } else {
        text::chars_eq(&c, &text::chars_of(verifier))
    }
}

/// The tokens issued for one grant.
pub struct TokenSet {
    pub access: String,
    pub refresh: String,
    pub id_token: String,
    pub expires_in: u64,
    pub scope: String,
}

/// The profile claims of an ID token or `userinfo` answer, by scope: with
/// `profile`, the display name (the username when unset), `username@domain`
/// and the picture; with `email`, the address.
pub struct ProfileClaims {
    pub profile: bool,
    pub name: Option<String>,
    pub preferred_username: Option<String>,
    pub picture: Option<String>,
    pub email: Option<String>,
}

/// The plain value of an optional string.
pub open spec fn opt_chars(o: Option<String>) -> Option<Seq<char>> {
    match o {
        Some(s) => Some(s@),
        None => None,
    }
}

/// The claims a scope releases about a user.
pub fn profile_claims(
    scope: &str,
    username: &str,
    domain: &str,
    display_name: Option<String>,
    picture: Option<String>,
    email: Option<String>,
) -> (r: ProfileClaims)
    ensures
        r.profile == oidc::scope_has_spec(scope@, "profile"@),
        opt_chars(r.name) == (if r.profile {
            Some(
                match display_name {
                    Some(d) => d@,
                    None => username@,
                },
            )
        } else {
            None
        }),
        opt_chars(r.preferred_username) == (if r.profile {
            Some(addr::full_spec(username@, domain@))
        } else {
            None
        }),
        r.picture == (if r.profile {
            picture
        } else {
            None
        }),
        r.email == (if oidc::scope_has_spec(scope@, "email"@) {
            email
        } else {
            None
        }),
{
    let profile = oidc::scope_has(scope, "profile");
    let with_email = oidc::scope_has(scope, "email");
    if profile {
        let name = match display_name {
            Some(d) => d,
            None => String::from_str(username),
        };
        ProfileClaims {
            profile,
            name: Some(name),
            preferred_username: Some(addr::full_id(username, domain)),
            picture,
            email: if with_email {
                email
            } else {
                None
            },
        }
    } else {
        ProfileClaims {
            profile,
            name: None,
            preferred_username: None,
            picture: None,
            email: if with_email {
                email
            } else {
                None
            },
        }
    }
}

/// The token of an `Authorization: Bearer <token>` header.
pub fn bearer_token(authorization: Option<&str>) -> (r: Option<String>)
    ensures
        match r {
            Some(t) => match authorization {
                Some(h) => h@ == "Bearer "@ + t@,
                None => false,
            },
            None => match authorization {
                Some(h) => !"Bearer "@.is_prefix_of(h@),
                None => true,
            },
        },
{
    match authorization {
        None => None,
        Some(h) => {
            let cs = text::chars_of(h);
            let p = text::lit("Bearer ");
            if text::starts_with(&cs, &p) {
                let t = text::slice_chars(&cs, p.len(), cs.len());
                assert(cs@ =~= p@ + t@);
                Some(text::string_from_chars(&t))
            } else {
                None
            }
        },
    }
}

} // verus!
