//! Routes outside the API: posts to personal webhooks and the single-page
//! application's files.

use vstd::prelude::*;
use crate::text;

verus! {

/// The title of the push notification for a message posted by webhook `name`.
pub fn webhook_push_title(name: &str) -> (r: String)
    ensures
        r@ == "Message from "@ + name@,
{
    let mut r = String::from_str("Message from ");
    r.append(name);
    r
}

/// The sender address of a message posted by webhook `id`: `webhook-{id}@{domain}`.
pub fn webhook_sender(id: &str, domain: &str) -> (r: String)
    ensures
        r@ == "webhook-"@ + id@ + seq!['@'] + domain@,
{
    let mut r = String::from_str("webhook-");
    r.append(id);
    text::string_push(&mut r, '@');
    r.append(domain);
    r
}

/// The content of a webhook post: present and not empty.
pub fn webhook_content(content: Option<String>) -> (r: Option<String>)
    ensures
        match r {
            Some(c) => content == Some(c) && c@.len() > 0,
            None => match content {
                Some(c) => c@.len() == 0,
                None => true,
            },
        },
{
    match content {
        Some(c) => {
            if c.as_str().is_empty() {
                None
            } else {
                Some(c)
            }
        },
        None => None,
    }
}

/// What the fallback route does for a path.
pub enum SpaAction {
    /// An unknown API or federation path: a JSON 404.
    NotFound,
    /// Serve this file of the static directory if it exists, else `index.html`.
    TryFile(String),
    /// Serve `index.html`.
    Index,
}

/// `s` without its leading `/`s.
pub open spec fn strip_slashes(s: Seq<char>) -> Seq<char>
    decreases s.len(),
{
    if s.len() > 0 && s[0] == '/' {
        strip_slashes(s.drop_first())
    } else {
        s
    }
}

/// What the fallback route does for `path`: API and federation paths are
/// not found; any other path names a static file unless it is empty or
/// holds `..`.
pub fn spa_action(path: &str) -> (r: SpaAction)
    ensures
        match r {
            SpaAction::NotFound => "/api/"@.is_prefix_of(path@) || "/federation/"@.is_prefix_of(path@),
            SpaAction::TryFile(rel) => !"/api/"@.is_prefix_of(path@) && !"/federation/"@.is_prefix_of(path@)
                && rel@ == strip_slashes(path@) && rel@.len() > 0 && !text::has_infix(rel@, ".."@),
            SpaAction::Index => !"/api/"@.is_prefix_of(path@) && !"/federation/"@.is_prefix_of(path@)
                && (strip_slashes(path@).len() == 0 || text::has_infix(strip_slashes(path@), ".."@)),
        },
{
    let cs = text::chars_of(path);
    if text::starts_with(&cs, &text::lit("/api/")) || text::starts_with(&cs, &text::lit("/federation/")) {
        return SpaAction::NotFound;
    }
    let mut a: usize = 0;
    assert(cs@.skip(0) =~= cs@);
    while a < cs.len() && cs[a] == '/'
        invariant
            cs@ == path@,
            a <= cs@.len(),
            strip_slashes(path@) == strip_slashes(cs@.skip(a as int)),
        decreases cs@.len() - a,
    {
        assert(cs@.skip(a as int).drop_first() =~= cs@.skip(a + 1));
        a = a + 1;
    }
    let rel = text::slice_chars(&cs, a, cs.len());
    assert(rel@ =~= cs@.skip(a as int));
    if rel.len() > 0 && !text::contains_infix(&rel, &text::lit("..")) {
        SpaAction::TryFile(text::string_from_chars(&rel))
    } else {
        SpaAction::Index
    }
}

} // verus!
