//! Server-rendered consent page for `/oauth/authorize`.

use vstd::prelude::*;
use crate::text;

verus! {

/// HTML escaping of one character: `&`, `<`, `>` and, when `quotes` is set, `"`.
pub open spec fn escape_char(c: char, quotes: bool) -> Seq<char> {
    if c == '&' {
        "&amp;"@
    } else if c == '<' {
        "&lt;"@
    } else if c == '>' {
        "&gt;"@
    } else if quotes && c == '"' {
        "&quot;"@
    } else {
        seq![c]
    }
}

/// Every character of `s` escaped in turn.
pub open spec fn escape_all(s: Seq<char>, quotes: bool) -> Seq<char>
    decreases s.len(),
{
    if s.len() == 0 {
        seq![]
    } else {
        escape_all(s.drop_last(), quotes) + escape_char(s.last(), quotes)
    }
}

/// Appends `s` with `&`, `<`, `>` (and `"` when `quotes`) replaced by entities.
pub fn push_escaped(out: &mut String, s: &str, quotes: bool)
    ensures
        final(out)@ == old(out)@ + escape_all(s@, quotes),
{
    let cs = text::chars_of(s);
    let mut i: usize = 0;
    while i < cs.len()
        invariant
            cs@ == s@,
            i <= cs.len(),
            out@ == old(out)@ + escape_all(s@.take(i as int), quotes),
        decreases cs.len() - i,
    {
        let c = cs[i];
        if c == '&' {
            out.append("&amp;");
        } else if c == '<' {
            out.append("&lt;");
        } else if c == '>' {
            out.append("&gt;");
        } else if quotes && c == '"' {
            out.append("&quot;");
        } else {
            text::string_push(out, c);
        }
        assert(s@.take(i + 1).drop_last() =~= s@.take(i as int));
        assert(out@ =~= old(out)@ + escape_all(s@.take(i + 1), quotes));
        i = i + 1;
    }
    assert(s@.take(cs.len() as int) =~= s@);
}

/// `s` with `&`, `<`, `>` and `"` replaced by HTML entities.
pub fn esc(s: &str) -> (r: String)
    ensures
        r@ == escape_all(s@, true),
{
    let mut r = String::new();
    push_escaped(&mut r, s, true);
    assert(r@ =~= escape_all(s@, true));
    r
}

/// The human-readable label of a scope on the consent page.
pub open spec fn scope_label_spec(s: Seq<char>) -> Seq<char> {
    if s == "openid"@ {
        "Confirm your identity"@
    } else if s == "profile"@ {
        "Your display name and avatar"@
    } else if s == "email"@ {
        "Your email address"@
    } else if s == "bscp:links"@ {
        "Your linked external accounts"@
    } else {
        "Additional access"@
    }
}

/// The human-readable label of a scope on the consent page.
pub fn scope_label(s: &str) -> (r: &'static str)
    ensures
        r@ == scope_label_spec(s@),
{
    let cs = text::chars_of(s);
    if text::chars_eq(&cs, &text::lit("openid")) {
        "Confirm your identity"
    } else if text::chars_eq(&cs, &text::lit("profile")) {
        "Your display name and avatar"
    } else if text::chars_eq(&cs, &text::lit("email")) {
        "Your email address"
    } else if text::chars_eq(&cs, &text::lit("bscp:links")) {
        "Your linked external accounts"
    } else {
        "Additional access"
    }
}

pub const PAGE_OPEN: &'static str = "<!doctype html><html lang=\"en\"><head><meta charset=\"utf-8\">\n<meta name=\"viewport\" content=\"width=device-width,initial-scale=1\">\n<title>Authorize ";

pub const PAGE_AFTER_TITLE: &'static str = "</title>\n<style>\n:root{color-scheme:dark}\nbody{margin:0;min-height:100vh;display:flex;align-items:center;justify-content:center;\nbackground:#0a0a0b;color:#e8eaed;font:15px/1.5 system-ui,sans-serif}\n.card{width:340px;background:#151517;border:1px solid #232529;border-radius:16px;padding:28px;text-align:center}\n.logo{width:48px;height:48px;border-radius:12px;object-fit:cover;margin-bottom:8px}\nh1{font-size:18px;margin:.2rem 0}\n.muted{color:#8a8d93;font-size:13px;margin:.6rem 0 .3rem}\n.sub{font-family:ui-monospace,monospace;color:#7eafff;font-size:13px;word-break:break-all}\nul{text-align:left;margin:.3rem 0 1rem;padding-left:1.1rem;color:#c9ccd1;font-size:13px}\n.row{display:flex;gap:10px;margin-top:16px}\nbutton{flex:1;padding:10px;border:0;border-radius:9px;font:inherit;font-weight:600;cursor:pointer}\n.deny{background:#232529;color:#e8eaed}\n.allow{background:#6e8efb;color:#fff}\n</style></head><body>\n<form class=\"card\" method=\"post\" action=\"";

pub const PAGE_AFTER_ACTION: &'static str = "\">\n";

pub const PAGE_AFTER_LOGO: &'static str = "\n<h1>";

pub const PAGE_AFTER_NAME: &'static str = "</h1>\n<p class=\"muted\">wants to sign you in as</p>\n<p class=\"sub\">";

pub const PAGE_AFTER_SUBJECT: &'static str = "</p>\n";

pub const PAGE_AFTER_SCOPES: &'static str = "\n";

pub const PAGE_AFTER_HIDDEN: &'static str = "\n<input type=\"hidden\" name=\"csrf\" value=\"";

pub const PAGE_CLOSE: &'static str = "\">\n<div class=\"row\">\n<button class=\"deny\" name=\"decision\" value=\"deny\" type=\"submit\">Deny</button>\n<button class=\"allow\" name=\"decision\" value=\"approve\" type=\"submit\">Allow</button>\n</div>\n</form></body></html>";

/// The logo element, present only when the client has a logo URL.
pub open spec fn logo_html(logo_url: Option<Seq<char>>) -> Seq<char> {
    match logo_url {
        Some(u) => "<img src=\""@ + escape_all(u, true) + "\" alt=\"\" class=\"logo\">"@,
        None => seq![],
    }
}

/// One list item per shared scope, `openid` left out.
pub open spec fn scope_items(scopes: Seq<Seq<char>>) -> Seq<char>
    decreases scopes.len(),
{
    if scopes.len() == 0 {
        seq![]
    } else {
        let s = scopes.last();
        scope_items(scopes.drop_last()) + if s == "openid"@ {
            seq![]
        } else {
            "<li>"@ + escape_all(scope_label_spec(s), true) + "</li>"@
        }
    }
}

/// The "This will share" block, empty when no scope besides `openid` is asked.
pub open spec fn scope_block(scopes: Seq<Seq<char>>) -> Seq<char> {
    let items = scope_items(scopes);
    if items.len() == 0 {
        seq![]
    } else {
        "<p class=\"muted\">This will share:</p><ul>"@ + items + "</ul>"@
    }
}

/// The full consent page.
pub open spec fn page_spec(
    client_name: Seq<char>,
    logo_url: Option<Seq<char>>,
    subject: Seq<char>,
    scopes: Seq<Seq<char>>,
    hidden_fields: Seq<char>,
    csrf: Seq<char>,
    action: Seq<char>,
) -> Seq<char> {
    let name = escape_all(client_name, true);
    let action = escape_all(action, true);
    let logo = logo_html(logo_url);
    let subject = escape_all(subject, true);
    let scope_block = scope_block(scopes);
    let hidden = hidden_fields;
    let csrf = escape_all(csrf, true);
    PAGE_OPEN@ + name + PAGE_AFTER_TITLE@ + action + PAGE_AFTER_ACTION@ + logo + PAGE_AFTER_LOGO@ + name + PAGE_AFTER_NAME@ + subject + PAGE_AFTER_SUBJECT@ + scope_block + PAGE_AFTER_SCOPES@ + hidden + PAGE_AFTER_HIDDEN@ + csrf + PAGE_CLOSE@
}

/// Renders the consent page. `hidden_fields` is pre-rendered
/// `<input type=hidden …>` markup for every authorize parameter so the POST
/// carries them back.
pub fn page(
    client_name: &str,
    logo_url: Option<&str>,
    subject: &str,
    scopes: &[&str],
    hidden_fields: &str,
    csrf: &str,
    action: &str,
) -> (r: String)
    ensures
        r@ == page_spec(
            client_name@,
            match logo_url { Some(u) => Some(u@), None => None },
            subject@,
            scopes.deep_view(),
            hidden_fields@,
            csrf@,
            action@,
        ),
{
    let mut items = String::new();
    let mut i: usize = 0;
    while i < scopes.len()
        invariant
            i <= scopes.len(),
            items@ == scope_items(scopes.deep_view().take(i as int)),
        decreases scopes.len() - i,
    {
        let s = scopes[i];
        let ghost before = items@;
        if !text::chars_eq(&text::chars_of(s), &text::lit("openid")) {
            items.append("<li>");
            push_escaped(&mut items, scope_label(s), true);
            items.append("</li>");
        }
        proof {
            let t = scopes.deep_view().take(i + 1);
            assert(t.drop_last() =~= scopes.deep_view().take(i as int));
            assert(t.last() == s@);
            assert(items@ =~= scope_items(t));
        }
        i = i + 1;
    }
    assert(scopes.deep_view().take(scopes.len() as int) =~= scopes.deep_view());
    let mut r = String::new();
    r.append(PAGE_OPEN);
    push_escaped(&mut r, client_name, true);
    r.append(PAGE_AFTER_TITLE);
    push_escaped(&mut r, action, true);
    r.append(PAGE_AFTER_ACTION);
    match logo_url {
        Some(u) => {
            r.append("<img src=\"");
            push_escaped(&mut r, u, true);
            r.append("\" alt=\"\" class=\"logo\">");
        },
        None => {},
    }
    r.append(PAGE_AFTER_LOGO);
    push_escaped(&mut r, client_name, true);
    r.append(PAGE_AFTER_NAME);
    push_escaped(&mut r, subject, true);
    r.append(PAGE_AFTER_SUBJECT);
    if !items.as_str().is_empty() {
        r.append("<p class=\"muted\">This will share:</p><ul>");
        r.append(items.as_str());
        r.append("</ul>");
    }
    r.append(PAGE_AFTER_SCOPES);
    r.append(hidden_fields);
    r.append(PAGE_AFTER_HIDDEN);
    push_escaped(&mut r, csrf, true);
    r.append(PAGE_CLOSE);
    assert(r@ =~= page_spec(
            client_name@,
            match logo_url { Some(u) => Some(u@), None => None },
            subject@,
            scopes.deep_view(),
            hidden_fields@,
            csrf@,
            action@,
        ));
    r
}

} // verus!
