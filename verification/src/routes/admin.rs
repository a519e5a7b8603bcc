//! Server administration: installing modules and changing storage limits.

use vstd::prelude::*;
use crate::codec;
use crate::oidc::clients;
use crate::routes::auth;

verus! {

/// The base URL of a module to install: trimmed, trailing slashes removed,
/// and refused unless it parses as a URL.
pub open spec fn module_base_url_spec(input: Seq<char>) -> Result<Seq<char>, Seq<char>> {
    let u = clients::trim_end_char(auth::trim_spec(input), '/');
    match codec::url_parts_of(u) {
        Some(_) => Ok(u),
        None => Err("base_url must be a valid URL"@),
    }
}

/// Normalises and checks the base URL of a module to install.
pub fn module_base_url(input: &str) -> (r: Result<String, &'static str>)
    ensures
        match r {
            Ok(u) => module_base_url_spec(input@) == Ok::<Seq<char>, Seq<char>>(u@),
            Err(m) => module_base_url_spec(input@) == Err::<Seq<char>, Seq<char>>(m@),
        },
{
    let t = auth::trim(input);
    let u = clients::trim_end(t.as_str(), '/');
    match codec::url_parts(u.as_str()) {
        Some(_) => Ok(u),
        None => Err("base_url must be a valid URL"),
    }
}

/// A fetched manifest must name its module.
pub fn manifest_name(name: &str) -> (r: Result<String, &'static str>)
    ensures
        match r {
            Ok(n) => name@.len() > 0 && n@ == name@,
            Err(m) => name@.len() == 0 && m@ == "module manifest has no name"@,
        },
{
    if name.as_bytes().len() == 0 {
        proof {
            if name@.len() > 0 {
                assert(vstd::utf8::encode_utf8(name@).len() > 0) by {
                    vstd::utf8::encode_utf8_decode_utf8(name@);
                }
            }
        }
        Err("module manifest has no name")
    } else {
        proof {
            if name@.len() == 0 {
                assert(vstd::utf8::encode_utf8(name@) =~= Seq::<u8>::empty());
            }
        }
        Ok(String::from_str(name))
    }
}

/// A storage limit is at least one megabyte.
pub fn storage_limit_refusal(limit: i64) -> (r: Option<&'static str>)
    ensures
        match r {
            Some(m) => limit < 1 && m@ == "Storage limit must be at least 1 MB"@,
            None => limit >= 1,
        },
{
    if limit < 1 {
        Some("Storage limit must be at least 1 MB")
    } else {
        None
    }
}

} // verus!
