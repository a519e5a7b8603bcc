//! Media proxy helpers: cache file naming, the metadata file location, and the
//! content type a proxied or served file is given.

use vstd::prelude::*;
use crate::codec;
use crate::crypto;
use crate::text;

verus! {

/// Name of the cache metadata file inside the cache directory.
pub const METADATA_FILE: &'static str = ".cache_metadata.json";

/// `dir` joined with a relative file name, as `Path::join` does on Unix.
pub open spec fn join_path(dir: Seq<char>, name: Seq<char>) -> Seq<char> {
    if dir.len() == 0 {
        name
    } else if dir.last() == '/' {
        dir + name
    } else {
        dir + seq!['/'] + name
    }
}

/// The location of the cache metadata file in `cache_dir`.
pub fn metadata_path(cache_dir: &str) -> (r: String)
    ensures
        r@ == join_path(cache_dir@, METADATA_FILE@),
{
    let d = text::chars_of(cache_dir);
    let mut r = String::from_str(cache_dir);
    if d.len() > 0 && d[d.len() - 1] != '/' {
        text::string_push(&mut r, '/');
    }
    r.append(METADATA_FILE);
    r
}

/// Query of `/media/proxy`.
pub struct ProxyQuery {
    pub url: Option<String>,
}

/// The part of a URL before its first `?` or `#`.
pub open spec fn url_path_part(url: Seq<char>) -> Seq<char>
    decreases url.len(),
{
    if url.len() == 0 {
        seq![]
    } else if url[0] == '?' || url[0] == '#' {
        seq![]
    } else {
        seq![url[0]] + url_path_part(url.drop_first())
    }
}

/// The content type a proxied URL is served with: the guess from its path's
/// extension, `image/jpeg` when there is none.
pub open spec fn guess_mime_spec(url: Seq<char>) -> Seq<char> {
    match codec::mime_first_raw_of(url_path_part(url)) {
        Some(m) => m,
        None => "image/jpeg"@,
    }
}

/// Guesses the content type of a proxied URL from its path's extension.
pub fn guess_mime(url: &str) -> (r: String)
    ensures
        r@ == guess_mime_spec(url@),
{
    let cs = text::chars_of(url);
    let mut n: usize = 0;
    while n < cs.len() && cs[n] != '?' && cs[n] != '#'
        invariant
            cs@ == url@,
            n <= cs.len(),
            forall|j: int| 0 <= j < n ==> url@[j] != '?' && url@[j] != '#',
        decreases cs.len() - n,
    {
        n = n + 1;
    }
    let mut head: Vec<char> = Vec::new();
    let mut i: usize = 0;
    while i < n
        invariant
            n <= cs.len(),
            i <= n,
            head@ == cs@.take(i as int),
        decreases n - i,
    {
        head.push(cs[i]);
        assert(head@ =~= cs@.take(i + 1));
        i = i + 1;
    }
    proof {
        lemma_url_path_part(url@, n as int);
    }
    let path = text::string_from_chars(&head);
    match codec::mime_first_raw(path.as_str()) {
        Some(m) => m,
        None => String::from_str("image/jpeg"),
    }
}

proof fn lemma_url_path_part(url: Seq<char>, n: int)
    requires
        0 <= n <= url.len(),
        forall|j: int| 0 <= j < n ==> url[j] != '?' && url[j] != '#',
        n == url.len() || url[n] == '?' || url[n] == '#',
    ensures
        url_path_part(url) == url.take(n),
    decreases url.len(),
{
    if url.len() > 0 && n > 0 {
        lemma_url_path_part(url.drop_first(), n - 1);
        assert(url.take(n) =~= seq![url[0]] + url.drop_first().take(n - 1));
    } else if url.len() > 0 {
        assert(url.take(n) =~= seq![]);
    } else {
        assert(url.take(n) =~= seq![]);
    }
}

/// The cache file name of a proxied URL: the hex MD5 of the URL.
pub fn cache_key(url: &str) -> (r: String)
    ensures
        r@ == text::hex_lower(crypto::md5_of(text::utf8_bytes(url))),
{
    crypto::md5_hex(url)
}

/// The content type an uploaded or static file is served with: the guess from
/// its name's extension, `application/octet-stream` when there is none.
pub fn file_content_type(name: &str) -> (r: String)
    ensures
        r@ == match codec::mime_first_raw_of(name@) {
            Some(m) => m,
            None => "application/octet-stream"@,
        },
{
    match codec::mime_first_raw(name) {
        Some(m) => m,
        None => String::from_str("application/octet-stream"),
    }
}

} // verus!
