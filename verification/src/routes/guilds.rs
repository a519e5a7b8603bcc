//! Guilds on channel servers, reached through this server: invite links,
//! the paths used on the channel server, and the gateway's target URL.

use vstd::prelude::*;
use crate::addr;
use crate::oidc::clients;
use crate::routes::{auth, oidc};
use crate::text;

verus! {

/// `s` with every leading copy of `p` removed (`str::trim_start_matches`).
pub open spec fn strip_prefixes(s: Seq<char>, p: Seq<char>) -> Seq<char>
    decreases s.len(),
{
    if p.len() > 0 && p.is_prefix_of(s) {
        strip_prefixes(s.skip(p.len() as int), p)
    } else {
        s
    }
}

fn strip_prefixes_exec(s: Vec<char>, p: &Vec<char>) -> (r: Vec<char>)
    ensures
        r@ == strip_prefixes(s@, p@),
{
    let mut cur = s;
    if p.len() == 0 {
        return cur;
    }
    while text::starts_with(&cur, p)
        invariant
            p@.len() > 0,
            strip_prefixes(cur@, p@) == strip_prefixes(s@, p@),
        decreases cur@.len(),
    {
        let next = text::slice_chars(&cur, p.len(), cur.len());
        assert(next@ =~= cur@.skip(p@.len() as int));
        cur = next;
    }
    cur
}

/// The channel server and code of an invite link (`http://cs/invite/CODE`,
/// `cs/invite/CODE` or `cs/CODE`): the text trimmed, `https://` and `http://`
/// prefixes and trailing slashes dropped, the host before the first `/`,
/// the code after the last one; both must be non-empty.
pub open spec fn invite_spec(input: Seq<char>) -> Option<(Seq<char>, Seq<char>)> {
    let s = clients::trim_end_char(
        strip_prefixes(strip_prefixes(auth::trim_spec(input), "https://"@), "http://"@),
        '/',
    );
    match text::split_first(s, '/') {
        None => None,
        Some((host, rest)) => {
            let code = match addr::split_last(rest, '/') {
                Some((_, c)) => c,
                None => rest,
            };
            if host.len() > 0 && code.len() > 0 {
                Some((host, code))
            } else {
                None
            }
        },
    }
}

/// Parses an invite link into its channel server and code.
pub fn parse_invite(input: &str) -> (r: Option<(String, String)>)
    ensures
        match r {
            Some((h, c)) => invite_spec(input@) == Some((h@, c@)),
            None => invite_spec(input@) is None,
        },
{
    let t = auth::trim(input);
    let a = strip_prefixes_exec(text::chars_of(t.as_str()), &text::lit("https://"));
    let b = strip_prefixes_exec(a, &text::lit("http://"));
    let bs = text::string_from_chars(&b);
    let s = clients::trim_end(bs.as_str(), '/');
    let cs = text::chars_of(s.as_str());
    let (host, rest) = match text::split_once_char(&cs, '/') {
        Some(pair) => pair,
        None => return None,
    };
    let rest_s = text::string_from_chars(&rest);
    let code = match addr::rsplit_once(rest_s.as_str(), '/') {
        Some((_, c)) => c,
        None => rest_s,
    };
    if host.len() > 0 && code.as_str().as_bytes().len() > 0 {
        proof {
            vstd::utf8::encode_utf8_decode_utf8(code@);
        }
        Some((text::string_from_chars(&host), code))
    } else {
        proof {
            if code@.len() == 0 {
                assert(vstd::utf8::encode_utf8(code@) =~= Seq::<u8>::empty());
            }
        }
        None
    }
}

/// A channel server's answer counts as a success in `200..300`.
pub fn success_status(status: u16) -> (r: bool)
    ensures
        r == (200 <= status < 300),
{
    200 <= status && status < 300
}

/// The channel-server path that accepts an invite: `invites/{code}/accept`.
pub fn invite_accept_path(code: &str) -> (r: String)
    ensures
        r@ == "invites/"@ + code@ + "/accept"@,
{
    let mut r = String::from_str("invites/");
    r.append(code);
    r.append("/accept");
    r
}

/// The channel-server path that removes member `me` (path-encoded) from a guild.
pub fn member_path(guild_id: &str, me: &str) -> (r: String)
    ensures
        r@ == "guilds/"@ + guild_id@ + "/members/"@ + oidc::encode_bytes(
            vstd::utf8::encode_utf8(me@),
            false,
        ),
{
    let mut r = String::from_str("guilds/");
    r.append(guild_id);
    r.append("/members/");
    let e = oidc::urlencode(me);
    r.append(e.as_str());
    r
}

/// `s` without its leading `/`s.
pub open spec fn strip_slashes(s: Seq<char>) -> Seq<char>
    decreases s.len(),
{
    if s.len() > 0 && s[0] == '/' {
        strip_slashes(s.drop_first())
    } else {
        s
    }
}

/// The API base of a channel server: the advertised one without trailing
/// slashes, or `http://{cs}` when it advertises none.
pub fn channel_base(advertised: Option<String>, cs: &str) -> (r: String)
    ensures
        r@ == match advertised {
            Some(b) => clients::trim_end_char(b@, '/'),
            None => "http://"@ + cs@,
        },
{
    match advertised {
        Some(b) => clients::trim_end(b.as_str(), '/'),
        None => {
            let mut r = String::from_str("http://");
            r.append(cs);
            r
        },
    }
}

/// The URL the gateway forwards a call to: `{base}/api/{path without leading
/// slashes}`, then `?{query}` for a non-empty query; none for a path with `..`.
pub open spec fn gateway_url_spec(base: Seq<char>, path: Seq<char>, query: Option<Seq<char>>) -> Option<Seq<char>> {
    if text::has_infix(path, ".."@) {
        None
    } else {
        let u = base + "/api/"@ + strip_slashes(path);
        Some(
            match query {
                Some(q) => if q.len() > 0 {
                    u + seq!['?'] + q
                } else {
                    u
                },
                None => u,
            },
        )
    }
}

/// The gateway's target URL, or none for a path that climbs with `..`.
pub fn gateway_url(base: &str, path: &str, query: Option<&str>) -> (r: Option<String>)
    ensures
        match r {
            Some(u) => gateway_url_spec(base@, path@, match query {
                Some(q) => Some(q@),
                None => None,
            }) == Some(u@),
            None => gateway_url_spec(base@, path@, match query {
                Some(q) => Some(q@),
                None => None,
            }) is None,
        },
{
    let cs = text::chars_of(path);
    if text::contains_infix(&cs, &text::lit("..")) {
        return None;
    }
    let mut a: usize = 0;
    assert(cs@.skip(0) =~= cs@);
    while a < cs.len() && cs[a] == '/'
        invariant
            cs@ == path@,
            a <= cs@.len(),
            strip_slashes(path@) == strip_slashes(cs@.skip(a as int)),
        decreases cs@.len() - a,
    {
        assert(cs@.skip(a as int).drop_first() =~= cs@.skip(a + 1));
        a = a + 1;
    }
    let rel = text::slice_chars(&cs, a, cs.len());
    assert(rel@ =~= cs@.skip(a as int));
    let mut u = String::from_str(base);
    u.append("/api/");
    text::push_all(&mut u, &rel);
    match query {
        Some(q) => {
            if q.as_bytes().len() > 0 {
                text::string_push(&mut u, '?');
                u.append(q);
            } else {
                proof {
                    if q@.len() > 0 {
                        vstd::utf8::encode_utf8_decode_utf8(q@);
                        assert(vstd::utf8::encode_utf8(q@).len() > 0);
                    }
                }
            }
        },
        None => {},
    }
    Some(u)
}

} // verus!
