//! OpenID Connect provider logic. The server is its own issuer and only ever
//! authenticates its local users; these are the pure parts of that provider.

use vstd::prelude::*;
use crate::text;

pub mod clients;
pub mod consent;
pub mod tokens;

verus! {

/// A port: one or more decimal digits.
pub open spec fn is_port(p: Seq<char>) -> bool {
    p.len() > 0 && text::all_digits(p)
}

/// One decimal octet of a dotted IPv4 address: one to three digits, at most 255.
pub open spec fn is_octet(s: Seq<char>) -> bool {
    1 <= s.len() <= 3 && text::all_digits(s) && text::digits_value(s) <= 255
}

/// A literal loopback IPv4 address, `127.a.b.c` (the 127.0.0.0/8 block).
pub open spec fn is_loopback_v4(a: Seq<char>) -> bool {
    let parts = text::split_all(a, '.');
    &&& parts.len() == 4
    &&& parts[0] == "127"@
    &&& is_octet(parts[1])
    &&& is_octet(parts[2])
    &&& is_octet(parts[3])
}

/// Hosts allowed over plain `http` (development / loopback): `localhost` or a
/// 127.0.0.0/8 address, each with an optional `:port`; `[::1]` with an
/// optional `:port`; and `0.0.0.0`.
pub open spec fn is_local_host_spec(host: Seq<char>) -> bool {
    ||| host == "0.0.0.0"@
    ||| host == "[::1]"@
    ||| ("[::1]:"@.is_prefix_of(host) && is_port(host.skip(6)))
    ||| match text::split_first(host, ':') {
        Some((name, port)) => is_port(port) && (name == "localhost"@ || is_loopback_v4(name)),
        None => host == "localhost"@ || is_loopback_v4(host),
    }
}

fn digits_only(s: &Vec<char>) -> (r: bool)
    ensures
        r == text::all_digits(s@),
{
    let mut i: usize = 0;
    while i < s.len()
        invariant
            i <= s@.len(),
            forall|j: int| 0 <= j < i ==> text::is_digit(#[trigger] s@[j]),
        decreases s@.len() - i,
    {
        if !('0' <= s[i] && s[i] <= '9') {
            return false;
        }
        i = i + 1;
    }
    true
}

fn port_ok(p: &Vec<char>) -> (r: bool)
    ensures
        r == is_port(p@),
{
    p.len() > 0 && digits_only(p)
}

fn octet_ok(s: &Vec<char>) -> (r: bool)
    ensures
        r == is_octet(s@),
{
    if s.len() < 1 || s.len() > 3 || !digits_only(s) {
        return false;
    }
    let mut v: u32 = 0;
    let mut i: usize = 0;
    while i < s.len()
        invariant
            1 <= s@.len() <= 3,
            text::all_digits(s@),
            i <= s@.len(),
            v == text::digits_value(s@.take(i as int)),
            i == 0 ==> v == 0,
            i == 1 ==> v <= 9,
            i == 2 ==> v <= 99,
            i == 3 ==> v <= 999,
        decreases s@.len() - i,
    {
        assert(s@.take(i + 1).drop_last() =~= s@.take(i as int));
        assert(text::is_digit(s@[i as int]));
        let d = s[i] as u32 - 48;
        v = v * 10 + d;
        i = i + 1;
    }
    assert(s@.take(s@.len() as int) =~= s@);
    v <= 255
}

fn loopback_v4(a: &Vec<char>) -> (r: bool)
    ensures
        r == is_loopback_v4(a@),
{
    let parts = text::split_char(a, '.');
    if parts.len() != 4 {
        return false;
    }
    assert(parts.deep_view()[0] == parts[0]@);
    assert(parts.deep_view()[1] == parts[1]@);
    assert(parts.deep_view()[2] == parts[2]@);
    assert(parts.deep_view()[3] == parts[3]@);
    text::chars_eq(&parts[0], &text::lit("127")) && octet_ok(&parts[1]) && octet_ok(&parts[2])
        && octet_ok(&parts[3])
}

/// True for hosts allowed over plain `http` (dev / loopback).
pub fn is_local_host(host: &str) -> (r: bool)
    ensures
        r == is_local_host_spec(host@),
{
    proof {
        reveal_strlit("[::1]:");
    }
    let h = text::chars_of(host);
    if text::chars_eq(&h, &text::lit("0.0.0.0")) || text::chars_eq(&h, &text::lit("[::1]")) {
        return true;
    }
    let v6 = text::lit("[::1]:");
    if text::starts_with(&h, &v6) {
        let rest = text::slice_chars(&h, 6, h.len());
        assert(rest@ =~= h@.skip(6));
        if port_ok(&rest) {
            return true;
        }
    }
    match text::split_once_char(&h, ':') {
        Some((name, port)) => port_ok(&port) && (text::chars_eq(&name, &text::lit("localhost"))
            || loopback_v4(&name)),
        None => text::chars_eq(&h, &text::lit("localhost")) || loopback_v4(&h),
    }
}

/// The standard scopes this provider understands, in order.
pub open spec fn known_scopes_spec() -> Seq<Seq<char>> {
    seq!["openid"@, "profile"@, "email"@, "bscp:links"@]
}

/// The standard scopes this provider understands.
pub fn known_scopes() -> (r: Vec<Vec<char>>)
    ensures
        r.deep_view() == known_scopes_spec(),
{
    let mut r: Vec<Vec<char>> = Vec::new();
    let ghost g0 = r;
    let a = text::lit("openid");
    r.push(a);
    proof { text::lemma_push_deep_view(g0, r, a); }
    let ghost g1 = r;
    let b = text::lit("profile");
    r.push(b);
    proof { text::lemma_push_deep_view(g1, r, b); }
    let ghost g2 = r;
    let c = text::lit("email");
    r.push(c);
    proof { text::lemma_push_deep_view(g2, r, c); }
    let ghost g3 = r;
    let d = text::lit("bscp:links");
    r.push(d);
    proof { text::lemma_push_deep_view(g3, r, d); }
    assert(r.deep_view() =~= known_scopes_spec());
    r
}

/// Whether the space-separated scope string grants `want`.
pub open spec fn scope_has_spec(scope: Seq<char>, want: Seq<char>) -> bool {
    text::words(scope).contains(want)
}

/// Whether the whitespace-separated scope string contains the scope `want`.
pub fn scope_has(scope: &str, want: &str) -> (r: bool)
    ensures
        r == scope_has_spec(scope@, want@),
{
    let ws = text::split_words(scope);
    text::contains_chars(&ws, &text::chars_of(want))
}

} // verus!
