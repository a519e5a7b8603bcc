//! The OpenID Connect endpoints' logic: scope filtering, form rendering,
//! URL encoding and decoding, client authentication and the decisions of the
//! authorize and token endpoints.

use vstd::prelude::*;
use vstd::utf8::{encode_utf8, is_char_boundary};
use crate::codec;
use crate::crypto;
use crate::oidc;
use crate::oidc::clients::ResolvedClient;
use crate::oidc::consent;
use crate::text;

verus! {

// ── percent encoding ───────────────────────────────────────────────────

/// Bytes kept as they are by the query encoders (RFC 3986 unreserved).
pub open spec fn is_unreserved(b: u8) -> bool {
    ||| 65 <= b <= 90
    ||| 97 <= b <= 122
    ||| 48 <= b <= 57
    ||| b == 45
    ||| b == 95
    ||| b == 46
    ||| b == 126
}

/// Upper-case hex digit of a nibble.
pub open spec fn hex_upper(n: int) -> char {
    if n < 10 {
        (n + 48) as char
    } else {
        (n + 55) as char
    }
}

/// One byte percent-encoded; a space becomes `+` when `plus` is set.
pub open spec fn encode_byte(b: u8, plus: bool) -> Seq<char> {
    if is_unreserved(b) {
        seq![b as char]
    } else if plus && b == 32 {
        seq!['+']
    } else {
        seq!['%', hex_upper((b / 16) as int), hex_upper((b % 16) as int)]
    }
}

/// Every byte percent-encoded in turn.
pub open spec fn encode_bytes(bs: Seq<u8>, plus: bool) -> Seq<char>
    decreases bs.len(),
{
    if bs.len() == 0 {
        seq![]
    } else {
        encode_bytes(bs.drop_last(), plus) + encode_byte(bs.last(), plus)
    }
}

fn upper_nibble(n: u8) -> (c: char)
    requires
        n < 16,
    ensures
        c == hex_upper(n as int),
{
    if n < 10 {
        (n + 48) as char
    } else {
        (n + 55) as char
    }
}

fn percent_encode(s: &str, plus: bool) -> (r: String)
    ensures
        r@ == encode_bytes(encode_utf8(s@), plus),
{
    let bs = s.as_bytes();
    let mut r = String::new();
    let mut i: usize = 0;
    while i < bs.len()
        invariant
            bs@ == encode_utf8(s@),
            i <= bs.len(),
            r@ == encode_bytes(bs@.take(i as int), plus),
        decreases bs.len() - i,
    {
        let b = bs[i];
        if (65 <= b && b <= 90) || (97 <= b && b <= 122) || (48 <= b && b <= 57) || b == 45 || b
            == 95 || b == 46 || b == 126 {
            text::string_push(&mut r, b as char);
        } else if plus && b == 32 {
            text::string_push(&mut r, '+');
        } else {
            text::string_push(&mut r, '%');
            text::string_push(&mut r, upper_nibble(b / 16));
            text::string_push(&mut r, upper_nibble(b % 16));
        }
        assert(bs@.take(i + 1).drop_last() =~= bs@.take(i as int));
        assert(r@ =~= encode_bytes(bs@.take(i + 1), plus));
        i = i + 1;
    }
    assert(bs@.take(bs.len() as int) =~= bs@);
    r
}

/// Form-style encoding of a query value: unreserved bytes kept, space as `+`,
/// everything else `%XX`.
pub fn urlenc(s: &str) -> (r: String)
    ensures
        r@ == encode_bytes(encode_utf8(s@), true),
{
    percent_encode(s, true)
}

/// Path-segment encoding: unreserved bytes kept, everything else `%XX`.
pub fn urlencode(s: &str) -> (r: String)
    ensures
        r@ == encode_bytes(encode_utf8(s@), false),
{
    percent_encode(s, false)
}

// ── HTML ─────────────────────────────────────────────────────────────

/// `s` with `&`, `<` and `>` replaced by HTML entities.
pub fn html_escape(s: &str) -> (r: String)
    ensures
        r@ == consent::escape_all(s@, false),
{
    let mut r = String::new();
    consent::push_escaped(&mut r, s, false);
    assert(r@ =~= consent::escape_all(s@, false));
    r
}

/// The body of the authorization error page.
pub open spec fn err_page_body(msg: Seq<char>) -> Seq<char> {
    "<h3>Authorization error</h3><p>"@ + consent::escape_all(msg, false) + "</p>"@
}

/// Renders the authorization error page body.
pub fn err_page_html(msg: &str) -> (r: String)
    ensures
        r@ == err_page_body(msg@),
{
    let mut r = String::from_str("<h3>Authorization error</h3><p>");
    consent::push_escaped(&mut r, msg, false);
    r.append("</p>");
    r
}

/// A value with `"` replaced by `&quot;` (the only escaping the hidden form
/// fields apply).
pub open spec fn quote_escape(s: Seq<char>) -> Seq<char>
    decreases s.len(),
{
    if s.len() == 0 {
        seq![]
    } else {
        quote_escape(s.drop_last()) + if s.last() == '"' {
            "&quot;"@
        } else {
            seq![s.last()]
        }
    }
}

/// One hidden input.
pub open spec fn hidden_input(name: Seq<char>, value: Seq<char>) -> Seq<char> {
    "<input type=\"hidden\" name=\""@ + name + "\" value=\""@ + quote_escape(value) + "\">"@
}

fn push_hidden(out: &mut String, name: &str, value: &str)
    ensures
        final(out)@ == old(out)@ + hidden_input(name@, value@),
{
    out.append("<input type=\"hidden\" name=\"");
    out.append(name);
    out.append("\" value=\"");
    let cs = text::chars_of(value);
    let ghost start = out@;
    let mut i: usize = 0;
    while i < cs.len()
        invariant
            cs@ == value@,
            i <= cs.len(),
            out@ == start + quote_escape(value@.take(i as int)),
        decreases cs.len() - i,
    {
        if cs[i] == '"' {
            out.append("&quot;");
        } else {
            text::string_push(out, cs[i]);
        }
        assert(value@.take(i + 1).drop_last() =~= value@.take(i as int));
        assert(out@ =~= start + quote_escape(value@.take(i + 1)));
        i = i + 1;
    }
    assert(value@.take(cs.len() as int) =~= value@);
    out.append("\">");
    assert(final(out)@ =~= old(out)@ + hidden_input(name@, value@));
}

/// The parameters of an authorization request.
pub struct AuthorizeParams {
    pub client_id: String,
    pub redirect_uri: String,
    pub response_type: String,
    pub scope: String,
    pub state: Option<String>,
    pub nonce: Option<String>,
    pub code_challenge: Option<String>,
    pub code_challenge_method: Option<String>,
    pub prompt: Option<String>,
}

/// An optional hidden input.
pub open spec fn hidden_opt(name: Seq<char>, value: Option<String>) -> Seq<char> {
    match value {
        Some(v) => hidden_input(name, v@),
        None => seq![],
    }
}

/// The hidden inputs carrying an authorization request through the consent form.
pub open spec fn hidden_fields_spec(p: AuthorizeParams, scope: Seq<char>) -> Seq<char> {
    hidden_input("client_id"@, p.client_id@) + hidden_input("redirect_uri"@, p.redirect_uri@)
        + hidden_input("response_type"@, "code"@) + hidden_input("scope"@, scope) + hidden_opt(
        "state"@,
        p.state,
    ) + hidden_opt("nonce"@, p.nonce) + hidden_opt("code_challenge"@, p.code_challenge)
        + hidden_opt("code_challenge_method"@, p.code_challenge_method)
}

/// Renders the hidden inputs for every authorize parameter, with the effective scope.
pub fn hidden_fields(p: &AuthorizeParams, scope: &str) -> (r: String)
    ensures
        r@ == hidden_fields_spec(*p, scope@),
{
    let mut f = String::new();
    push_hidden(&mut f, "client_id", p.client_id.as_str());
    push_hidden(&mut f, "redirect_uri", p.redirect_uri.as_str());
    push_hidden(&mut f, "response_type", "code");
    push_hidden(&mut f, "scope", scope);
    if let Some(s) = &p.state {
        push_hidden(&mut f, "state", s.as_str());
    }
    if let Some(n) = &p.nonce {
        push_hidden(&mut f, "nonce", n.as_str());
    }
    if let Some(c) = &p.code_challenge {
        push_hidden(&mut f, "code_challenge", c.as_str());
    }
    if let Some(m) = &p.code_challenge_method {
        push_hidden(&mut f, "code_challenge_method", m.as_str());
    }
    assert(f@ =~= hidden_fields_spec(*p, scope@));
    f
}


// ── scopes ───────────────────────────────────────────────────────────

/// The requested scopes this provider knows and the client is allowed, in order.
pub open spec fn keep_scopes(ws: Seq<Seq<char>>, allow: Seq<Seq<char>>) -> Seq<Seq<char>>
    decreases ws.len(),
{
    if ws.len() == 0 {
        seq![]
    } else {
        let w = ws.last();
        keep_scopes(ws.drop_last(), allow) + if oidc::known_scopes_spec().contains(w)
            && allow.contains(w) {
            seq![w]
        } else {
            seq![]
        }
    }
}

/// Consecutive repeats removed (`Vec::dedup`).
pub open spec fn dedup_adjacent(ws: Seq<Seq<char>>) -> Seq<Seq<char>>
    decreases ws.len(),
{
    if ws.len() == 0 {
        seq![]
    } else {
        let p = dedup_adjacent(ws.drop_last());
        if ws.len() >= 2 && ws.last() == ws[ws.len() - 2] {
            p
        } else {
            p.push(ws.last())
        }
    }
}

/// `openid` put in front unless already present.
pub open spec fn with_openid(ws: Seq<Seq<char>>) -> Seq<Seq<char>> {
    if ws.contains("openid"@) {
        ws
    } else {
        seq!["openid"@] + ws
    }
}

/// The scope granted for a request: the requested scopes that are known and
/// allowed, `openid` added in front when missing, consecutive repeats
/// dropped, joined by single spaces.
pub open spec fn effective_scope_spec(requested: Seq<char>, allowed: Seq<char>) -> Seq<char> {
    text::join_words(
        dedup_adjacent(with_openid(keep_scopes(text::words(requested), text::words(allowed)))),
        seq![' '],
    )
}

proof fn lemma_keep_scopes(ws: Seq<Seq<char>>, allow: Seq<Seq<char>>)
    ensures
        forall|x: Seq<char>| #[trigger] keep_scopes(ws, allow).contains(x) ==> oidc::known_scopes_spec().contains(x)
            && allow.contains(x),
    decreases ws.len(),
{
    if ws.len() > 0 {
        lemma_keep_scopes(ws.drop_last(), allow);
        let k = keep_scopes(ws, allow);
        let kp = keep_scopes(ws.drop_last(), allow);
        assert forall|x: Seq<char>| #[trigger] k.contains(x) implies oidc::known_scopes_spec().contains(x)
            && allow.contains(x) by {
            let j = choose|j: int| 0 <= j < k.len() && k[j] == x;
            if j < kp.len() {
                assert(kp[j] == x);
                assert(kp.contains(x));
            }
        }
    }
}

proof fn lemma_dedup_members(ws: Seq<Seq<char>>)
    ensures
        forall|x: Seq<char>| #[trigger] dedup_adjacent(ws).contains(x) <==> ws.contains(x),
    decreases ws.len(),
{
    if ws.len() > 0 {
        let p = ws.drop_last();
        lemma_dedup_members(p);
        let d = dedup_adjacent(ws);
        let dp = dedup_adjacent(p);
        assert forall|x: Seq<char>| #[trigger] d.contains(x) <==> ws.contains(x) by {
            if d.contains(x) {
                let j = choose|j: int| 0 <= j < d.len() && d[j] == x;
                if j < dp.len() {
                    assert(dp[j] == x);
                    assert(dp.contains(x));
                    let q = choose|q: int| 0 <= q < p.len() && p[q] == x;
                    assert(ws[q] == x);
                } else {
                    assert(ws[ws.len() - 1] == x);
                }
            }
            if ws.contains(x) {
                let q = choose|q: int| 0 <= q < ws.len() && ws[q] == x;
                if q < p.len() {
                    assert(p[q] == x);
                    assert(p.contains(x));
                    assert(dp.contains(x));
                    let j = choose|j: int| 0 <= j < dp.len() && dp[j] == x;
                    assert(d[j] == x);
                } else if ws.len() >= 2 && ws.last() == ws[ws.len() - 2] {
                    assert(p[p.len() - 1] == x);
                    assert(p.contains(x));
                    assert(dp.contains(x));
                    let j = choose|j: int| 0 <= j < dp.len() && dp[j] == x;
                    assert(d[j] == x);
                } else {
                    assert(d[d.len() - 1] == x);
                }
            }
        }
    }
}

/// The scopes this provider knows are words (no whitespace, not empty).
proof fn lemma_known_words()
    ensures
        forall|x: Seq<char>| #[trigger] oidc::known_scopes_spec().contains(x) ==> text::is_word(x),
        text::is_word("openid"@),
{
    reveal_strlit("openid");
    reveal_strlit("profile");
    reveal_strlit("email");
    reveal_strlit("bscp:links");
    let k = oidc::known_scopes_spec();
    assert(text::is_word(k[0]));
    assert(text::is_word(k[1]));
    assert(text::is_word(k[2]));
    assert(text::is_word(k[3]));
}

/// The granted scope always includes `openid`, and every scope it grants is
/// `openid` or one this provider knows and the client is allowed.
pub proof fn lemma_effective_scope_grants(requested: Seq<char>, allowed: Seq<char>)
    ensures
        oidc::scope_has_spec(effective_scope_spec(requested, allowed), "openid"@),
        forall|w: Seq<char>|
            #[trigger] oidc::scope_has_spec(effective_scope_spec(requested, allowed), w) ==> w
                == "openid"@ || (oidc::known_scopes_spec().contains(w) && oidc::scope_has_spec(
                allowed,
                w,
            )),
{
    let k = keep_scopes(text::words(requested), text::words(allowed));
    let w = with_openid(k);
    let d = dedup_adjacent(w);
    lemma_keep_scopes(text::words(requested), text::words(allowed));
    lemma_dedup_members(w);
    lemma_known_words();
    assert(w.contains("openid"@)) by {
        if !k.contains("openid"@) {
            assert(w[0] == "openid"@);
        }
    }
    assert forall|x: Seq<char>| #[trigger] w.contains(x) implies x == "openid"@ || k.contains(x) by {
        if !k.contains("openid"@) {
            let j = choose|j: int| 0 <= j < w.len() && w[j] == x;
            if j > 0 {
                assert(k[j - 1] == x);
            }
        }
    }
    assert forall|i: int| 0 <= i < d.len() implies text::is_word(#[trigger] d[i]) by {
        assert(d.contains(d[i]));
        assert(w.contains(d[i]));
    }
    text::lemma_words_join(d);
}

/// Filters a requested scope string to what this provider and client allow.
pub fn effective_scope(requested: &str, allowed: &str) -> (r: String)
    ensures
        r@ == effective_scope_spec(requested@, allowed@),
{
    let allow = text::split_words(allowed);
    let req = text::split_words(requested);
    let known = oidc::known_scopes();
    let mut kept: Vec<Vec<char>> = Vec::new();
    let mut i: usize = 0;
    while i < req.len()
        invariant
            i <= req.len(),
            known.deep_view() == oidc::known_scopes_spec(),
            kept.deep_view() == keep_scopes(req.deep_view().take(i as int), allow.deep_view()),
        decreases req.len() - i,
    {
        let w = &req[i];
        let ghost before = kept;
        if text::contains_chars(&known, w) && text::contains_chars(&allow, w) {
            let wc = w.clone();
            assert(wc@ == w@);
            kept.push(wc);
            proof {
                text::lemma_push_deep_view(before, kept, wc);
            }
        }
        proof {
            let t = req.deep_view().take(i + 1);
            assert(t.drop_last() =~= req.deep_view().take(i as int));
            text::lemma_chars_deep_view(*w);
            assert(t.last() == w@);
            assert(kept.deep_view() =~= keep_scopes(t, allow.deep_view()));
        }
        i = i + 1;
    }
    assert(req.deep_view().take(req.len() as int) =~= req.deep_view());
    let openid = text::lit("openid");
    let with: Vec<Vec<char>> = if text::contains_chars(&kept, &openid) {
        kept
    } else {
        let mut v: Vec<Vec<char>> = Vec::new();
        let ghost v0 = v;
        v.push(openid);
        proof {
            text::lemma_push_deep_view(v0, v, openid);
        }
        let mut j: usize = 0;
        while j < kept.len()
            invariant
                j <= kept.len(),
                v.deep_view() == seq!["openid"@] + kept.deep_view().take(j as int),
            decreases kept.len() - j,
        {
            let ghost before = v;
            let w = kept[j].clone();
            v.push(w);
            proof {
                text::lemma_push_deep_view(before, v, w);
                text::lemma_chars_deep_view(kept@[j as int]);
                assert(v.deep_view() =~= seq!["openid"@] + kept.deep_view().take(j + 1));
            }
            j = j + 1;
        }
        assert(kept.deep_view().take(kept.len() as int) =~= kept.deep_view());
        v
    };
    assert(with.deep_view() == with_openid(kept.deep_view()));
    let mut out: Vec<Vec<char>> = Vec::new();
    let mut k: usize = 0;
    while k < with.len()
        invariant
            k <= with.len(),
            out.deep_view() == dedup_adjacent(with.deep_view().take(k as int)),
        decreases with.len() - k,
    {
        proof {
            text::lemma_chars_deep_view(with@[k as int]);
            if k > 0 {
                text::lemma_chars_deep_view(with@[k - 1]);
            }
        }
        let repeat = k > 0 && text::chars_eq(&with[k], &with[k - 1]);
        let ghost before = out;
        if !repeat {
            let w = with[k].clone();
            out.push(w);
            proof {
                text::lemma_push_deep_view(before, out, w);
            }
        }
        proof {
            let t = with.deep_view().take(k + 1);
            assert(t.drop_last() =~= with.deep_view().take(k as int));
            assert(out.deep_view() =~= dedup_adjacent(t));
        }
        k = k + 1;
    }
    assert(with.deep_view().take(with.len() as int) =~= with.deep_view());
    text::join_spaced(&out)
}


// ── percent decoding ────────────────────────────────────────────────

pub open spec fn is_hex_byte(b: u8) -> bool {
    ||| 48 <= b <= 57
    ||| 65 <= b <= 70
    ||| 97 <= b <= 102
}

pub open spec fn hex_val(b: u8) -> int {
    if b <= 57 {
        b - 48
    } else if b <= 70 {
        b - 55
    } else {
        b - 87
    }
}

/// Whether `u8::from_str_radix(.., 16)` accepts the two bytes: two hex
/// digits, or a `+` sign followed by one.
pub open spec fn radix16_ok(x: u8, y: u8) -> bool {
    (is_hex_byte(x) && is_hex_byte(y)) || (x == 43 && is_hex_byte(y))
}

/// The value `u8::from_str_radix(.., 16)` gives for two accepted bytes.
pub open spec fn radix16_val(x: u8, y: u8) -> u8 {
    if x == 43 {
        hex_val(y) as u8
    } else {
        (hex_val(x) * 16 + hex_val(y)) as u8
    }
}

/// Percent-decoding of bytes from position `i`: `%XX` becomes a byte when the
/// two following bytes parse as hex, `+` becomes a space, all else is kept.
pub open spec fn pd_from(b: Seq<u8>, i: nat) -> Seq<u8>
    decreases b.len() - i,
{
    if i >= b.len() {
        seq![]
    } else if b[i as int] == 37 && i + 2 < b.len() && radix16_ok(b[i + 1int], b[i + 2int]) {
        seq![radix16_val(b[i + 1int], b[i + 2int])] + pd_from(b, i + 3)
    } else if b[i as int] == 43 {
        seq![32u8] + pd_from(b, i + 1)
    } else {
        seq![b[i as int]] + pd_from(b, i + 1)
    }
}

/// The decoding walk never cuts the text inside a character. (The server
/// slices `s[i+1..i+3]` at each `%` with two bytes after it; Rust panics when
/// that range is not on character boundaries.)
pub open spec fn pd_safe(b: Seq<u8>, i: nat) -> bool
    decreases b.len() - i,
{
    if i >= b.len() {
        true
    } else if b[i as int] == 37 && i + 2 < b.len() {
        is_char_boundary(b, i + 1int) && is_char_boundary(b, i + 3int) && if radix16_ok(
            b[i + 1int],
            b[i + 2int],
        ) {
            pd_safe(b, i + 3)
        } else {
            pd_safe(b, i + 1)
        }
    } else {
        pd_safe(b, i + 1)
    }
}

/// The decoded text of `s`: its percent-decoded bytes read as UTF-8, invalid
/// sequences replaced.
pub open spec fn percent_decoded(s: Seq<char>) -> Seq<char> {
    codec::utf8_lossy_of(pd_from(encode_utf8(s), 0))
}

fn hex_byte_val(b: u8) -> (v: u8)
    requires
        is_hex_byte(b),
    ensures
        v == hex_val(b),
{
    if b <= 57 {
        b - 48
    } else if b <= 70 {
        b - 55
    } else {
        b - 87
    }
}

proof fn lemma_encode_bytes_first(bs: Seq<u8>, plus: bool)
    requires
        bs.len() > 0,
    ensures
        encode_bytes(bs, plus) == encode_byte(bs[0], plus) + encode_bytes(bs.drop_first(), plus),
    decreases bs.len(),
{
    if bs.len() == 1 {
        assert(bs.drop_last() =~= Seq::<u8>::empty());
        assert(bs.drop_first() =~= Seq::<u8>::empty());
        assert(encode_bytes(bs, plus) =~= encode_byte(bs[0], plus) + encode_bytes(bs.drop_first(), plus));
    } else {
        lemma_encode_bytes_first(bs.drop_last(), plus);
        assert(bs.drop_last().drop_first() =~= bs.drop_first().drop_last());
        assert(bs.drop_first().last() == bs.last());
        assert(encode_bytes(bs, plus) =~= encode_byte(bs[0], plus) + encode_bytes(bs.drop_first(), plus));
    }
}

proof fn lemma_encode_byte_ascii(b: u8, plus: bool)
    ensures
        vstd::utf8::is_ascii_chars(encode_byte(b, plus)),
{
    if !is_unreserved(b) && !(plus && b == 32) {
        assert((b / 16) < 16 && (b % 16) < 16);
    }
}

proof fn lemma_encode_bytes_ascii(bs: Seq<u8>, plus: bool)
    ensures
        vstd::utf8::is_ascii_chars(encode_bytes(bs, plus)),
    decreases bs.len(),
{
    if bs.len() > 0 {
        lemma_encode_bytes_ascii(bs.drop_last(), plus);
        lemma_encode_byte_ascii(bs.last(), plus);
        let a = encode_bytes(bs.drop_last(), plus);
        let c = encode_byte(bs.last(), plus);
        assert forall|i: int| 0 <= i < (a + c).len() implies '\0' <= #[trigger] (a + c)[i] <= '\u{7f}' by {
            if i < a.len() {
                assert((a + c)[i] == a[i]);
            } else {
                assert((a + c)[i] == c[i - a.len()]);
            }
        }
    }
}

/// Percent-decoding from position `i` only looks at what follows `i`.
proof fn lemma_pd_shift(b: Seq<u8>, j: nat, i: nat)
    requires
        j <= i,
        j <= b.len(),
    ensures
        pd_from(b, i) == pd_from(b.skip(j as int), (i - j) as nat),
    decreases b.len() - i,
{
    let t = b.skip(j as int);
    if i < b.len() {
        assert(t[i - j] == b[i as int]);
        if i + 2 < b.len() {
            assert(t[(i - j) + 1] == b[i + 1int]);
            assert(t[(i - j) + 2] == b[i + 2int]);
        }
        lemma_pd_shift(b, j, i + 1);
        if i + 3 <= b.len() {
            lemma_pd_shift(b, j, i + 3);
        }
    }
}

proof fn lemma_hex_upper_val(n: int)
    requires
        0 <= n < 16,
    ensures
        is_hex_byte(hex_upper(n) as u8),
        hex_val(hex_upper(n) as u8) == n,
{
}

/// Percent-decoding the bytes of an encoding gives the encoded bytes back.
proof fn lemma_decode_encoded(bs: Seq<u8>, plus: bool)
    ensures
        pd_from(encode_utf8(encode_bytes(bs, plus)), 0) == bs,
    decreases bs.len(),
{
    let e = encode_bytes(bs, plus);
    let x = encode_utf8(e);
    lemma_encode_bytes_ascii(bs, plus);
    vstd::utf8::is_ascii_chars_encode_utf8(e);
    if bs.len() == 0 {
        assert(x.len() == 0);
    } else {
        let b0 = bs[0];
        let rest = bs.drop_first();
        let c = encode_byte(b0, plus);
        let er = encode_bytes(rest, plus);
        lemma_encode_bytes_first(bs, plus);
        lemma_encode_bytes_ascii(rest, plus);
        vstd::utf8::is_ascii_chars_encode_utf8(er);
        lemma_decode_encoded(rest, plus);
        let k = c.len();
        assert(e == c + er);
        assert forall|i: int| 0 <= i < er.len() implies #[trigger] x.skip(k as int)[i] == encode_utf8(er)[i] by {
            assert(e[i + k] == er[i]);
            assert(x[i + k] == e[i + k] as u8);
        }
        assert(x.skip(k as int) =~= encode_utf8(er));
        lemma_pd_shift(x, k as nat, k as nat);
        assert(pd_from(x, k as nat) == rest);
        assert(x[0] == e[0] as u8);
        assert(e[0] == c[0]);
        if is_unreserved(b0) {
            assert(c == seq![b0 as char]);
            assert(x[0] == b0);
        } else if plus && b0 == 32 {
            assert(x[0] == 43);
        } else {
            lemma_hex_upper_val((b0 / 16) as int);
            lemma_hex_upper_val((b0 % 16) as int);
            assert(x[1] == e[1] as u8);
            assert(x[2] == e[2] as u8);
            assert(e[1] == c[1] && e[2] == c[2]);
            assert(x[0] == 37);
            assert(radix16_ok(x[1], x[2]));
            assert(radix16_val(x[1], x[2]) == b0);
        }
        assert(pd_from(x, 0) =~= seq![b0] + rest);
        assert(seq![b0] + rest =~= bs);
    }
}

/// On ASCII text every position is a character boundary, so the decoder
/// never cuts a character.
proof fn lemma_pd_safe_ascii(x: Seq<u8>, i: nat)
    requires
        vstd::utf8::valid_utf8(x),
        forall|j: int| 0 <= j < x.len() ==> (#[trigger] x[j]) < 128,
    ensures
        pd_safe(x, i),
    decreases x.len() - i,
{
    if i < x.len() {
        lemma_pd_safe_ascii(x, i + 1);
        if i + 3 <= x.len() {
            lemma_pd_safe_ascii(x, i + 3);
        }
        if x[i as int] == 37 && i + 2 < x.len() {
            vstd::utf8::is_char_boundary_iff_not_is_continuation_byte(x, i + 1int);
            assert(x[i + 1int] < 128);
            if i + 3 < x.len() {
                vstd::utf8::is_char_boundary_iff_not_is_continuation_byte(x, i + 3int);
                assert(x[i + 3int] < 128);
            } else {
                vstd::utf8::is_char_boundary_start_end_of_seq(x);
            }
        }
    }
}

/// Decoding what `urlenc` or `urlencode` produces gives the text's bytes
/// back, and such text never makes the decoder cut a character.
pub proof fn lemma_urlencode_decode(s: Seq<char>, plus: bool)
    ensures
        pd_safe(encode_utf8(encode_bytes(encode_utf8(s), plus)), 0),
        pd_from(encode_utf8(encode_bytes(encode_utf8(s), plus)), 0) == encode_utf8(s),
{
    let e = encode_bytes(encode_utf8(s), plus);
    let x = encode_utf8(e);
    lemma_decode_encoded(encode_utf8(s), plus);
    lemma_encode_bytes_ascii(encode_utf8(s), plus);
    vstd::utf8::is_ascii_chars_encode_utf8(e);
    vstd::utf8::encode_utf8_valid_utf8(e);
    assert forall|j: int| 0 <= j < x.len() implies (#[trigger] x[j]) < 128 by {
        assert(x[j] == e[j] as u8);
    }
    lemma_pd_safe_ascii(x, 0);
}

/// Percent-decodes `s`, or `None` exactly where the server would panic on it.
pub fn try_percent_decode(s: &str) -> (r: Option<String>)
    ensures
        r is Some <==> pd_safe(encode_utf8(s@), 0),
        r matches Some(d) ==> d@ == percent_decoded(s@),
{
    let bytes = s.as_bytes();
    let ghost b = bytes@;
    let mut out: Vec<u8> = Vec::new();
    let mut i: usize = 0;
    while i < bytes.len()
        invariant
            b == bytes@,
            b == encode_utf8(s@),
            i <= bytes.len(),
            out@ + pd_from(b, i as nat) == pd_from(b, 0),
            pd_safe(b, 0) == pd_safe(b, i as nat),
        decreases bytes.len() - i,
    {
        let c = bytes[i];
        if c == 37 && bytes.len() - i > 2 {
            if !s.is_char_boundary(i + 1) || !s.is_char_boundary(i + 3) {
                return None;
            }
            let x = bytes[i + 1];
            let y = bytes[i + 2];
            let hx = (48 <= x && x <= 57) || (65 <= x && x <= 70) || (97 <= x && x <= 102);
            let hy = (48 <= y && y <= 57) || (65 <= y && y <= 70) || (97 <= y && y <= 102);
            if hy && (hx || x == 43) {
                let v: u8 = if x == 43 {
                    hex_byte_val(y)
                } else {
                    hex_byte_val(x) * 16 + hex_byte_val(y)
                };
                out.push(v);
                assert(out@ + pd_from(b, (i + 3) as nat) =~= pd_from(b, 0));
                i = i + 3;
                continue ;
            }
            out.push(c);
            assert(out@ + pd_from(b, (i + 1) as nat) =~= pd_from(b, 0));
            i = i + 1;
        } else if c == 43 {
            out.push(32u8);
            assert(out@ + pd_from(b, (i + 1) as nat) =~= pd_from(b, 0));
            i = i + 1;
        } else {
            out.push(c);
            assert(out@ + pd_from(b, (i + 1) as nat) =~= pd_from(b, 0));
            i = i + 1;
        }
    }
    assert(out@ =~= pd_from(b, 0));
    Some(codec::utf8_lossy(out.as_slice()))
}

/// Percent-decodes `s` (`%XX` and `+` as in form encoding), reading the
/// result as UTF-8 with invalid sequences replaced.
pub fn percent_decode(s: &str) -> (r: String)
    requires
        pd_safe(encode_utf8(s@), 0),
    ensures
        r@ == percent_decoded(s@),
{
    match try_percent_decode(s) {
        Some(d) => d,
        None => {
            assert(false);
            String::new()
        },
    }
}

/// Same as `percent_decode`.
pub fn urldecode(s: &str) -> (r: String)
    requires
        pd_safe(encode_utf8(s@), 0),
    ensures
        r@ == percent_decoded(s@),
{
    percent_decode(s)
}

// ── client authentication ───────────────────────────────────────────

/// The `id:secret` text carried by an `Authorization: Basic` header, if the
/// header is there, has the `Basic ` prefix and its rest is valid base64.
pub open spec fn basic_text(header: Option<Seq<char>>) -> Option<Seq<char>> {
    match header {
        Some(v) => if "Basic "@.is_prefix_of(v) {
            match codec::b64std_decode_of(encode_utf8(v.skip(6))) {
                Some(bytes) => Some(codec::utf8_lossy_of(bytes)),
                None => None,
            }
        } else {
            None
        },
        None => None,
    }
}

/// Client credentials from an `Authorization: Basic` header: the id and
/// secret (each percent-decoded) around the first `:`, or two empty strings
/// when the header is absent, not `Basic`, not base64 or has no `:`. `None`
/// stands for the inputs on which the server panics (see `pd_safe`).
pub open spec fn basic_auth_spec(header: Option<Seq<char>>) -> Option<(Seq<char>, Seq<char>)> {
    match basic_text(header) {
        Some(t) => match text::split_first(t, ':') {
            Some((id, secret)) => if pd_safe(encode_utf8(id), 0) && pd_safe(
                encode_utf8(secret),
                0,
            ) {
                Some((percent_decoded(id), percent_decoded(secret)))
            } else {
                None
            },
            None => Some((seq![], seq![])),
        },
        None => Some((seq![], seq![])),
    }
}

/// Reads client credentials from the `Authorization` header value.
pub fn parse_basic_auth(authorization: Option<&str>) -> (r: Option<(String, String)>)
    ensures
        match r {
            Some((id, secret)) => basic_auth_spec(
                match authorization { Some(v) => Some(v@), None => None },
            ) == Some((id@, secret@)),
            None => basic_auth_spec(match authorization { Some(v) => Some(v@), None => None })
                is None,
        },
{
    let v = match authorization {
        Some(v) => v,
        None => return Some((String::new(), String::new())),
    };
    let cs = text::chars_of(v);
    if !text::starts_with(&cs, &text::lit("Basic ")) {
        return Some((String::new(), String::new()));
    }
    proof {
        reveal_strlit("Basic ");
    }
    let rest = text::slice_chars(&cs, 6, cs.len());
    assert(rest@ =~= v@.skip(6));
    let rest_s = text::string_from_chars(&rest);
    let decoded = match codec::b64std_decode(rest_s.as_str().as_bytes()) {
        Some(d) => d,
        None => return Some((String::new(), String::new())),
    };
    let t = codec::utf8_lossy(decoded.as_slice());
    match text::split_once_char(&text::chars_of(t.as_str()), ':') {
        Some((id, secret)) => {
            let id_s = text::string_from_chars(&id);
            let secret_s = text::string_from_chars(&secret);
            let a = try_percent_decode(id_s.as_str());
            let b = try_percent_decode(secret_s.as_str());
            match (a, b) {
                (Some(a), Some(b)) => Some((a, b)),
                _ => None,
            }
        },
        None => Some((String::new(), String::new())),
    }
}


// ── redirects ──────────────────────────────────────────────────────

/// `&state=…` when the request carried a state.
pub open spec fn state_suffix(state: Option<Seq<char>>) -> Seq<char> {
    match state {
        Some(s) => "&state="@ + encode_bytes(encode_utf8(s), true),
        None => seq![],
    }
}

pub open spec fn opt_str(o: Option<&str>) -> Option<Seq<char>> {
    match o {
        Some(s) => Some(s@),
        None => None,
    }
}

/// The redirect back to the client reporting an error.
pub open spec fn redirect_err_spec(
    redirect_uri: Seq<char>,
    error: Seq<char>,
    desc: Seq<char>,
    state: Option<Seq<char>>,
) -> Seq<char> {
    redirect_uri + "?error="@ + error + "&error_description="@ + encode_bytes(encode_utf8(desc), true)
        + state_suffix(state)
}

/// Builds the error redirect `{redirect_uri}?error=…&error_description=…[&state=…]`.
pub fn redirect_err_url(redirect_uri: &str, error: &str, desc: &str, state: Option<&str>) -> (r:
    String)
    ensures
        r@ == redirect_err_spec(redirect_uri@, error@, desc@, opt_str(state)),
{
    let mut u = String::from_str(redirect_uri);
    u.append("?error=");
    u.append(error);
    u.append("&error_description=");
    let d = urlenc(desc);
    u.append(d.as_str());
    if let Some(s) = state {
        u.append("&state=");
        let e = urlenc(s);
        u.append(e.as_str());
    }
    assert(u@ =~= redirect_err_spec(redirect_uri@, error@, desc@, opt_str(state)));
    u
}

/// The redirect back to the client carrying a fresh authorization code.
pub open spec fn code_redirect_spec(redirect_uri: Seq<char>, code: Seq<char>, state: Option<Seq<char>>) -> Seq<char> {
    redirect_uri + "?code="@ + encode_bytes(encode_utf8(code), true) + state_suffix(state)
}

/// Builds the success redirect `{redirect_uri}?code=…[&state=…]`.
pub fn code_redirect_url(redirect_uri: &str, code: &str, state: Option<&str>) -> (r: String)
    ensures
        r@ == code_redirect_spec(redirect_uri@, code@, opt_str(state)),
{
    let mut u = String::from_str(redirect_uri);
    u.append("?code=");
    let c = urlenc(code);
    u.append(c.as_str());
    if let Some(s) = state {
        u.append("&state=");
        let e = urlenc(s);
        u.append(e.as_str());
    }
    assert(u@ =~= code_redirect_spec(redirect_uri@, code@, opt_str(state)));
    u
}

/// Where an authorization request without a session is sent: the server's
/// `/login` page, with `next` the authorize URL and its query.
pub open spec fn login_redirect_spec(public_url: Seq<char>, raw_query: Seq<char>) -> Option<Seq<char>> {
    codec::url_with_path_pair_of(public_url, "/login"@, "next"@, "/oauth/authorize?"@ + raw_query)
}

/// The login redirect of an authorization request, none when the public URL
/// does not parse.
pub fn login_redirect(public_url: &str, raw_query: &str) -> (r: Option<String>)
    ensures
        match r {
            Some(u) => login_redirect_spec(public_url@, raw_query@) == Some(u@),
            None => login_redirect_spec(public_url@, raw_query@) is None,
        },
{
    let mut next = String::from_str("/oauth/authorize?");
    next.append(raw_query);
    codec::url_with_path_pair(public_url, "/login", "next", next.as_str())
}

/// The CSRF token of a consent form: hex SHA-256 of `{session_token}:{client_id}`.
pub open spec fn csrf_spec(session_token: Seq<char>, client_id: Seq<char>) -> Seq<char> {
    text::hex_lower(crypto::sha256_of(encode_utf8(session_token + seq![':'] + client_id)))
}

/// The CSRF token of a consent form, bound to the session and the client.
pub fn csrf_token(session_token: &str, client_id: &str) -> (r: String)
    ensures
        r@ == csrf_spec(session_token@, client_id@),
{
    let mut m = String::from_str(session_token);
    text::string_push(&mut m, ':');
    m.append(client_id);
    assert(m@ =~= session_token@ + seq![':'] + client_id@);
    crypto::sha256_hex(m.as_str())
}

// ── authorize ──────────────────────────────────────────────────────

/// What the authorize endpoint does with a request once the client is resolved.
pub enum AuthorizeOutcome {
    /// Show the error page with this message (the redirect URI is not trusted).
    ErrorPage(String),
    /// Redirect to this URL, reporting an error to the client.
    ErrorRedirect(String),
    /// Go on with this effective scope.
    Proceed(String),
}

pub open spec fn opt_string(o: Option<String>) -> Option<Seq<char>> {
    match o {
        Some(s) => Some(s@),
        None => None,
    }
}

/// The checks of `GET /oauth/authorize`, in order, once the client resolved.
pub open spec fn authorize_check_spec(c: ResolvedClient, p: AuthorizeParams) -> (Seq<char>, Seq<char>) {
    if !c.redirect_uris.deep_view().contains(p.redirect_uri@) {
        ("page"@, "redirect_uri is not registered for this client"@)
    } else if p.response_type@ != "code"@ {
        ("redirect"@, redirect_err_spec(
            p.redirect_uri@,
            "unsupported_response_type"@,
            "only code is supported"@,
            opt_string(p.state),
        ))
    } else if c.is_public && p.code_challenge is None {
        ("redirect"@, redirect_err_spec(
            p.redirect_uri@,
            "invalid_request"@,
            "PKCE (code_challenge) is required"@,
            opt_string(p.state),
        ))
    } else if p.code_challenge is Some && opt_string(p.code_challenge_method) != Some("S256"@) {
        ("redirect"@, redirect_err_spec(
            p.redirect_uri@,
            "invalid_request"@,
            "code_challenge_method must be S256"@,
            opt_string(p.state),
        ))
    } else {
        ("proceed"@, effective_scope_spec(p.scope@, c.allowed_scope@))
    }
}

/// A request carrying a PKCE challenge must name the `S256` method: once its
/// redirect URI is registered, its response type is `code` and a public
/// client sent a challenge, any other method, or none, is refused with an
/// error redirect to the client and never proceeds.
pub proof fn lemma_challenge_needs_s256(c: ResolvedClient, p: AuthorizeParams)
    requires
        c.redirect_uris.deep_view().contains(p.redirect_uri@),
        p.response_type@ == "code"@,
        p.code_challenge is Some,
        match p.code_challenge_method {
            Some(m) => m@ != "S256"@,
            None => true,
        },
    ensures
        authorize_check_spec(c, p) == (
            "redirect"@,
            redirect_err_spec(
                p.redirect_uri@,
                "invalid_request"@,
                "code_challenge_method must be S256"@,
                match p.state {
                    Some(s) => Some(s@),
                    None => None,
                },
            ),
        ),
        authorize_check_spec(c, p).0 != "proceed"@,
{
    reveal_strlit("redirect");
    reveal_strlit("proceed");
    assert("redirect"@.len() != "proceed"@.len());
}

pub open spec fn outcome_view(o: AuthorizeOutcome) -> (Seq<char>, Seq<char>) {
    match o {
        AuthorizeOutcome::ErrorPage(m) => ("page"@, m@),
        AuthorizeOutcome::ErrorRedirect(u) => ("redirect"@, u@),
        AuthorizeOutcome::Proceed(s) => ("proceed"@, s@),
    }
}

fn state_ref(state: &Option<String>) -> (r: Option<&str>)
    ensures
        opt_str(r) == opt_string(*state),
{
    match state {
        Some(s) => Some(s.as_str()),
        None => None,
    }
}

/// Validates an authorization request against its client: the redirect URI
/// must be registered (else an error page), the response type must be `code`,
/// public clients must send a PKCE challenge, and a challenge must use `S256`
/// (else an error redirect); then the effective scope is computed.
pub fn authorize_check(c: &ResolvedClient, p: &AuthorizeParams) -> (r: AuthorizeOutcome)
    ensures
        outcome_view(r) == authorize_check_spec(*c, *p),
{
    if !c.allows_redirect(p.redirect_uri.as_str()) {
        return AuthorizeOutcome::ErrorPage(
            String::from_str("redirect_uri is not registered for this client"),
        );
    }
    let state = state_ref(&p.state);
    if !text::chars_eq(&text::chars_of(p.response_type.as_str()), &text::lit("code")) {
        return AuthorizeOutcome::ErrorRedirect(
            redirect_err_url(
                p.redirect_uri.as_str(),
                "unsupported_response_type",
                "only code is supported",
                state,
            ),
        );
    }
    if c.is_public && p.code_challenge.is_none() {
        return AuthorizeOutcome::ErrorRedirect(
            redirect_err_url(
                p.redirect_uri.as_str(),
                "invalid_request",
                "PKCE (code_challenge) is required",
                state,
            ),
        );
    }
    let method_ok = match &p.code_challenge_method {
        Some(m) => text::chars_eq(&text::chars_of(m.as_str()), &text::lit("S256")),
        None => false,
    };
    if p.code_challenge.is_some() && !method_ok {
        return AuthorizeOutcome::ErrorRedirect(
            redirect_err_url(
                p.redirect_uri.as_str(),
                "invalid_request",
                "code_challenge_method must be S256",
                state,
            ),
        );
    }
    AuthorizeOutcome::Proceed(effective_scope(p.scope.as_str(), c.allowed_scope.as_str()))
}

/// Consent is skipped only for registered clients, when the request does not
/// ask for `prompt=consent` and the user already granted every scope.
pub fn skip_consent(registered: bool, prompt: Option<&str>, granted: Option<&str>, scope: &str) -> (r:
    bool)
    ensures
        r == (registered && opt_str(prompt) != Some("consent"@) && match granted {
            Some(g) => consent_covers(g@, scope@),
            None => false,
        }),
{
    let prompt_consent = match prompt {
        Some(pr) => text::chars_eq(&text::chars_of(pr), &text::lit("consent")),
        None => false,
    };
    if !registered || prompt_consent {
        return false;
    }
    match granted {
        Some(g) => covers(g, scope),
        None => false,
    }
}

/// Every scope word of `scope` is among the granted scope's words.
pub open spec fn consent_covers(granted: Seq<char>, scope: Seq<char>) -> bool {
    forall|i: int| 0 <= i < text::words(scope).len() ==> oidc::scope_has_spec(granted, #[trigger] text::words(scope)[i])
}

fn covers(granted: &str, scope: &str) -> (r: bool)
    ensures
        r == consent_covers(granted@, scope@),
{
    let g = text::split_words(granted);
    let ws = text::split_words(scope);
    let mut i: usize = 0;
    while i < ws.len()
        invariant
            i <= ws.len(),
            g.deep_view() == text::words(granted@),
            ws.deep_view() == text::words(scope@),
            forall|j: int| 0 <= j < i ==> oidc::scope_has_spec(granted@, #[trigger] text::words(scope@)[j]),
        decreases ws.len() - i,
    {
        proof {
            text::lemma_chars_deep_view(ws@[i as int]);
        }
        if !text::contains_chars(&g, &ws[i]) {
            assert(ws.deep_view()[i as int] == ws@[i as int]@);
            assert(!oidc::scope_has_spec(granted@, text::words(scope@)[i as int]));
            return false;
        }
        i = i + 1;
    }
    true
}

/// Why `POST /oauth/authorize` stops before issuing a code.
pub enum ConsentRefusal {
    /// Error page with this message.
    ErrorPage(String),
    /// The user denied: redirect to this URL.
    Denied(String),
}

/// The checks of the consent form post, in order, once the client resolved:
/// registered redirect URI, a live session, the form's CSRF token, and the
/// user's decision.
pub open spec fn consent_check_spec(
    c: ResolvedClient,
    redirect_uri: Seq<char>,
    state: Option<Seq<char>>,
    session_token: Option<Seq<char>>,
    csrf: Seq<char>,
    decision: Seq<char>,
) -> Option<(Seq<char>, Seq<char>)> {
    if !c.redirect_uris.deep_view().contains(redirect_uri) {
        Some(("page"@, "redirect_uri is not registered for this client"@))
    } else if session_token is None {
        Some(("page"@, "session expired \u{2014} start again"@))
    } else if csrf != csrf_spec(session_token->0, c.client_id@) {
        Some(("page"@, "invalid form token"@))
    } else if decision != "approve"@ {
        Some(("denied"@, redirect_err_spec(redirect_uri, "access_denied"@, "user denied the request"@, state)))
    } else {
        None
    }
}

pub open spec fn refusal_view(r: Option<ConsentRefusal>) -> Option<(Seq<char>, Seq<char>)> {
    match r {
        Some(ConsentRefusal::ErrorPage(m)) => Some(("page"@, m@)),
        Some(ConsentRefusal::Denied(u)) => Some(("denied"@, u@)),
        None => None,
    }
}

/// Checks a consent form post; `None` means approved and valid.
pub fn consent_check(
    c: &ResolvedClient,
    redirect_uri: &str,
    state: Option<&str>,
    session_token: Option<&str>,
    csrf: &str,
    decision: &str,
) -> (r: Option<ConsentRefusal>)
    ensures
        refusal_view(r) == consent_check_spec(*c, redirect_uri@, opt_str(state), opt_str(session_token), csrf@, decision@),
{
    if !c.allows_redirect(redirect_uri) {
        return Some(ConsentRefusal::ErrorPage(String::from_str("redirect_uri is not registered for this client")));
    }
    let token = match session_token {
        Some(t) => t,
        None => return Some(ConsentRefusal::ErrorPage(String::from_str("session expired \u{2014} start again"))),
    };
    let expected = csrf_token(token, c.client_id.as_str());
    if !text::chars_eq(&text::chars_of(csrf), &text::chars_of(expected.as_str())) {
        return Some(ConsentRefusal::ErrorPage(String::from_str("invalid form token")));
    }
    if !text::chars_eq(&text::chars_of(decision), &text::lit("approve")) {
        return Some(ConsentRefusal::Denied(redirect_err_url(redirect_uri, "access_denied", "user denied the request", state)));
    }
    None
}


// ── token ──────────────────────────────────────────────────────────

/// An OAuth error answer of the token endpoint.
pub struct TokenError {
    pub status: u16,
    pub error: String,
    pub description: String,
}

pub open spec fn token_error_view(e: TokenError) -> (u16, Seq<char>, Seq<char>) {
    (e.status, e.error@, e.description@)
}

pub open spec fn opt_token_error(e: Option<TokenError>) -> Option<(u16, Seq<char>, Seq<char>)> {
    match e {
        Some(e) => Some(token_error_view(e)),
        None => None,
    }
}

fn token_error(status: u16, error: &str, description: &str) -> (r: TokenError)
    ensures
        token_error_view(r) == (status, error@, description@),
{
    TokenError {
        status,
        error: String::from_str(error),
        description: String::from_str(description),
    }
}

/// The client id and secret of a token request: those of the Basic header
/// where non-empty, else the form's.
pub fn client_credentials(basic_id: String, basic_secret: String, form_id: &str, form_secret: &str) -> (r: (
    String,
    String,
))
    ensures
        r.0@ == (if basic_id@.len() > 0 { basic_id@ } else { form_id@ }),
        r.1@ == (if basic_secret@.len() > 0 { basic_secret@ } else { form_secret@ }),
{
    let id = if !basic_id.as_str().is_empty() {
        basic_id
    } else {
        String::from_str(form_id)
    };
    let secret = if !basic_secret.as_str().is_empty() {
        basic_secret
    } else {
        String::from_str(form_secret)
    };
    (id, secret)
}

/// A token request must name a client.
pub fn require_client_id(client_id: &str) -> (r: Option<TokenError>)
    ensures
        opt_token_error(r) == (if client_id@.len() == 0 {
            Some((401u16, "invalid_client"@, "client_id is required"@))
        } else {
            None
        }),
{
    if client_id.is_empty() {
        Some(token_error(401, "invalid_client", "client_id is required"))
    } else {
        None
    }
}

/// The answer when the client cannot be resolved.
pub fn unknown_client() -> (r: TokenError)
    ensures
        token_error_view(r) == (401u16, "invalid_client"@, "unknown client"@),
{
    token_error(401, "invalid_client", "unknown client")
}

/// A confidential client's secret must hash to the stored hash.
pub fn check_client_secret(secret_hash: &Option<String>, client_secret: &str) -> (r: Option<TokenError>)
    ensures
        opt_token_error(r) == match secret_hash {
            Some(h) => if text::hex_lower(crypto::sha256_of(encode_utf8(client_secret@))) != h@ {
                Some((401u16, "invalid_client"@, "bad client secret"@))
            } else {
                None
            },
            None => None,
        },
{
    match secret_hash {
        Some(h) => {
            let got = crypto::sha256_hex(client_secret);
            if !got.eq(h) {
                Some(token_error(401, "invalid_client", "bad client secret"))
            } else {
                None
            }
        },
        None => None,
    }
}

/// The grant types of the token endpoint.
pub enum Grant {
    AuthorizationCode,
    RefreshToken,
    Unsupported,
}

/// Which grant a `grant_type` names.
pub fn grant_kind(grant_type: &str) -> (r: Grant)
    ensures
        grant_type@ == "authorization_code"@ <==> r is AuthorizationCode,
        grant_type@ == "refresh_token"@ <==> r is RefreshToken,
{
    proof {
        reveal_strlit("authorization_code");
        reveal_strlit("refresh_token");
        assert("authorization_code"@[0] != "refresh_token"@[0]);
    }
    let g = text::chars_of(grant_type);
    if text::chars_eq(&g, &text::lit("authorization_code")) {
        Grant::AuthorizationCode
    } else if text::chars_eq(&g, &text::lit("refresh_token")) {
        Grant::RefreshToken
    } else {
        Grant::Unsupported
    }
}

/// The answer to an unsupported grant type (the type itself as description).
pub fn unsupported_grant(grant_type: &str) -> (r: TokenError)
    ensures
        token_error_view(r) == (400u16, "unsupported_grant_type"@, grant_type@),
{
    token_error(400, "unsupported_grant_type", grant_type)
}

/// The answer when the code is unknown, used or expired.
pub fn invalid_code() -> (r: TokenError)
    ensures
        token_error_view(r) == (400u16, "invalid_grant"@, "code is invalid or expired"@),
{
    token_error(400, "invalid_grant", "code is invalid or expired")
}

/// The answer when the code's user no longer exists.
pub fn user_gone() -> (r: TokenError)
    ensures
        token_error_view(r) == (400u16, "invalid_grant"@, "user no longer exists"@),
{
    token_error(400, "invalid_grant", "user no longer exists")
}

/// The answer when the refresh token is unknown, revoked or expired.
pub fn invalid_refresh() -> (r: TokenError)
    ensures
        token_error_view(r) == (400u16, "invalid_grant"@, "refresh token is invalid"@),
{
    token_error(400, "invalid_grant", "refresh token is invalid")
}

/// An authorization code as stored when it was issued.
pub struct CodeGrant {
    pub client_id: String,
    pub user_id: String,
    pub redirect_uri: String,
    pub scope: String,
    pub nonce: Option<String>,
    pub code_challenge: Option<String>,
    pub code_challenge_method: Option<String>,
}

/// The checks on a consumed code, in order: same client and redirect URI,
/// then PKCE when a challenge was stored (a non-empty verifier that answers
/// it), and a challenge is mandatory for public clients.
pub open spec fn code_grant_check_spec(
    row: CodeGrant,
    client_id: Seq<char>,
    redirect_uri: Seq<char>,
    verifier: Seq<char>,
    is_public: bool,
) -> Option<(u16, Seq<char>, Seq<char>)> {
    if row.client_id@ != client_id || row.redirect_uri@ != redirect_uri {
        Some((400u16, "invalid_grant"@, "code does not match this request"@))
    } else {
        match row.code_challenge {
            Some(ch) => if verifier.len() == 0 || !crate::oidc::tokens::pkce_ok(
                ch@,
                opt_string(row.code_challenge_method),
                verifier,
            ) {
                Some((400u16, "invalid_grant"@, "PKCE verification failed"@))
            } else {
                None
            },
            None => if is_public {
                Some((400u16, "invalid_grant"@, "PKCE required"@))
            } else {
                None
            },
        }
    }
}

/// Checks a consumed authorization code against the token request.
pub fn check_code_grant(row: &CodeGrant, client_id: &str, redirect_uri: &str, verifier: &str, is_public: bool) -> (r:
    Option<TokenError>)
    ensures
        opt_token_error(r) == code_grant_check_spec(*row, client_id@, redirect_uri@, verifier@, is_public),
{
    if !text::chars_eq(&text::chars_of(row.client_id.as_str()), &text::chars_of(client_id))
        || !text::chars_eq(&text::chars_of(row.redirect_uri.as_str()), &text::chars_of(redirect_uri)) {
        return Some(token_error(400, "invalid_grant", "code does not match this request"));
    }
    match &row.code_challenge {
        Some(ch) => {
            let method = match &row.code_challenge_method {
                Some(m) => Some(m.as_str()),
                None => None,
            };
            if verifier.is_empty() || !crate::oidc::tokens::verify_pkce(ch.as_str(), method, verifier) {
                Some(token_error(400, "invalid_grant", "PKCE verification failed"))
            } else {
                None
            }
        },
        None => if is_public {
            Some(token_error(400, "invalid_grant", "PKCE required"))
        } else {
            None
        },
    }
}

/// The refusal of a confidential client's secret, as `check_client_secret` gives it.
pub open spec fn secret_refusal_spec(secret_hash: Option<String>, client_secret: Seq<char>) -> Option<
    (u16, Seq<char>, Seq<char>),
> {
    match secret_hash {
        Some(h) => if text::hex_lower(crypto::sha256_of(encode_utf8(client_secret))) != h@ {
            Some((401u16, "invalid_client"@, "bad client secret"@))
        } else {
            None
        },
        None => None,
    }
}

/// What `POST /oauth/token` does next, given the outcomes of the outside
/// steps that have run so far.
pub enum TokenStep {
    /// Answer with this OAuth error.
    Refuse(TokenError),
    /// Resolve the client.
    ResolveClient,
    /// Consume the authorization code.
    ConsumeCode,
    /// Look the code's user up.
    FindUser,
    /// Rotate the refresh token (which issues the new tokens).
    RotateRefresh,
    /// Answer with freshly issued tokens.
    Issue,
}

/// The plain value of a step: a tag (0 refuse, 1 resolve, 2 consume code,
/// 3 find user, 4 rotate, 5 issue) and the error of a refusal.
pub open spec fn token_step_view(s: TokenStep) -> (int, Option<(u16, Seq<char>, Seq<char>)>) {
    match s {
        TokenStep::Refuse(e) => (0, Some(token_error_view(e))),
        TokenStep::ResolveClient => (1, None),
        TokenStep::ConsumeCode => (2, None),
        TokenStep::FindUser => (3, None),
        TokenStep::RotateRefresh => (4, None),
        TokenStep::Issue => (5, None),
    }
}

/// The order of a token request: a client id is required; the client must
/// resolve and a confidential client's secret must match; then the grant
/// type decides. An authorization code must be live and match the request
/// (`check_code_grant`) and its user must still exist; a refresh token must
/// rotate; any other grant type is unsupported. `None` stands for a step that
/// has not run yet (`Some(None)`: the client or code was not found).
pub open spec fn token_step_spec(
    client_id: Seq<char>,
    client: Option<Option<&ResolvedClient>>,
    client_secret: Seq<char>,
    grant_type: Seq<char>,
    code: Option<Option<&CodeGrant>>,
    redirect_uri: Seq<char>,
    verifier: Seq<char>,
    user_found: Option<bool>,
    refreshed: Option<bool>,
) -> (int, Option<(u16, Seq<char>, Seq<char>)>) {
    if client_id.len() == 0 {
        (0, Some((401u16, "invalid_client"@, "client_id is required"@)))
    } else {
        match client {
            None => (1, None),
            Some(None) => (0, Some((401u16, "invalid_client"@, "unknown client"@))),
            Some(Some(c)) => match secret_refusal_spec(c.secret_hash, client_secret) {
                Some(e) => (0, Some(e)),
                None => if grant_type == "authorization_code"@ {
                    match code {
                        None => (2, None),
                        Some(None) => (0, Some((400u16, "invalid_grant"@, "code is invalid or expired"@))),
                        Some(Some(row)) => match code_grant_check_spec(
                            *row,
                            client_id,
                            redirect_uri,
                            verifier,
                            c.is_public,
                        ) {
                            Some(e) => (0, Some(e)),
                            None => match user_found {
                                None => (3, None),
                                Some(false) => (0, Some((400u16, "invalid_grant"@, "user no longer exists"@))),
                                Some(true) => (5, None),
                            },
                        },
                    }
                } else if grant_type == "refresh_token"@ {
                    match refreshed {
                        None => (4, None),
                        Some(false) => (0, Some((400u16, "invalid_grant"@, "refresh token is invalid"@))),
                        Some(true) => (5, None),
                    }
                } else {
                    (0, Some((400u16, "unsupported_grant_type"@, grant_type)))
                },
            },
        }
    }
}

/// The next step of a token request.
pub fn token_step(
    client_id: &str,
    client: Option<Option<&ResolvedClient>>,
    client_secret: &str,
    grant_type: &str,
    code: Option<Option<&CodeGrant>>,
    redirect_uri: &str,
    verifier: &str,
    user_found: Option<bool>,
    refreshed: Option<bool>,
) -> (r: TokenStep)
    ensures
        token_step_view(r) == token_step_spec(
            client_id@,
            client,
            client_secret@,
            grant_type@,
            code,
            redirect_uri@,
            verifier@,
            user_found,
            refreshed,
        ),
{
    if let Some(e) = require_client_id(client_id) {
        return TokenStep::Refuse(e);
    }
    let c = match client {
        None => return TokenStep::ResolveClient,
        Some(None) => return TokenStep::Refuse(unknown_client()),
        Some(Some(c)) => c,
    };
    if let Some(e) = check_client_secret(&c.secret_hash, client_secret) {
        return TokenStep::Refuse(e);
    }
    match grant_kind(grant_type) {
        Grant::AuthorizationCode => {
            let row = match code {
                None => return TokenStep::ConsumeCode,
                Some(None) => return TokenStep::Refuse(invalid_code()),
                Some(Some(row)) => row,
            };
            if let Some(e) = check_code_grant(row, client_id, redirect_uri, verifier, c.is_public) {
                return TokenStep::Refuse(e);
            }
            match user_found {
                None => TokenStep::FindUser,
                Some(false) => TokenStep::Refuse(user_gone()),
                Some(true) => TokenStep::Issue,
            }
        },
        Grant::RefreshToken => match refreshed {
            None => TokenStep::RotateRefresh,
            Some(false) => TokenStep::Refuse(invalid_refresh()),
            Some(true) => TokenStep::Issue,
        },
        Grant::Unsupported => TokenStep::Refuse(unsupported_grant(grant_type)),
    }
}

} // verus!
