//! Small shared helpers: safe on-disk file names and path-segment checks.

use vstd::prelude::*;
use crate::text;

verus! {

/// Characters kept as they are in a stored file name.
pub open spec fn filename_char_ok(c: char) -> bool {
    ||| 'a' <= c <= 'z'
    ||| 'A' <= c <= 'Z'
    ||| '0' <= c <= '9'
    ||| c == '.'
    ||| c == '-'
    ||| c == '_'
}

pub open spec fn sanitize_char(c: char) -> char {
    if filename_char_ok(c) {
        c
    } else {
        '_'
    }
}

/// Runs of `_` collapsed into one `_`.
pub open spec fn collapse_underscores(s: Seq<char>) -> Seq<char>
    decreases s.len(),
{
    if s.len() == 0 {
        seq![]
    } else {
        let p = collapse_underscores(s.drop_last());
        if s.last() == '_' && p.len() > 0 && p.last() == '_' {
            p
        } else {
            p.push(s.last())
        }
    }
}

pub open spec fn is_trim_char(c: char) -> bool {
    c == '_' || c == '.'
}

/// Leading `_` and `.` removed.
pub open spec fn trim_start_set(s: Seq<char>) -> Seq<char>
    decreases s.len(),
{
    if s.len() > 0 && is_trim_char(s[0]) {
        trim_start_set(s.drop_first())
    } else {
        s
    }
}

/// Trailing `_` and `.` removed.
pub open spec fn trim_end_set(s: Seq<char>) -> Seq<char>
    decreases s.len(),
{
    if s.len() > 0 && is_trim_char(s.last()) {
        trim_end_set(s.drop_last())
    } else {
        s
    }
}

/// The sanitised file name: every character outside `[A-Za-z0-9._-]`
/// (path separators included) becomes `_`, runs of `_` collapse to one, `_`
/// and `.` are trimmed from both ends, and an empty result becomes `file`.
pub open spec fn secure_filename_spec(name: Seq<char>) -> Seq<char> {
    let t = trim_start_set(trim_end_set(collapse_underscores(name.map_values(|c| sanitize_char(c)))));
    if t.len() == 0 {
        "file"@
    } else {
        t
    }
}

proof fn lemma_trim_end_take(s: Seq<char>, n: int)
    requires
        0 <= n <= s.len(),
        forall|j: int| n <= j < s.len() ==> is_trim_char(s[j]),
        n == 0 || !is_trim_char(s[n - 1]),
    ensures
        trim_end_set(s) == s.take(n),
    decreases s.len(),
{
    if s.len() > n {
        assert(s.drop_last().len() == s.len() - 1);
        lemma_trim_end_take(s.drop_last(), n);
        assert(s.drop_last().take(n) =~= s.take(n));
    } else {
        assert(s.take(n) =~= s);
        if n > 0 {
            assert(s.last() == s[n - 1]);
        }
    }
}

proof fn lemma_trim_start_skip(s: Seq<char>, k: int)
    requires
        0 <= k <= s.len(),
        forall|j: int| 0 <= j < k ==> is_trim_char(s[j]),
        k == s.len() || !is_trim_char(s[k]),
    ensures
        trim_start_set(s) == s.subrange(k, s.len() as int),
    decreases s.len(),
{
    if k > 0 {
        lemma_trim_start_skip(s.drop_first(), k - 1);
        assert(s.drop_first().subrange(k - 1, s.len() - 1) =~= s.subrange(k, s.len() as int));
    } else {
        assert(s.subrange(0, s.len() as int) =~= s);
    }
}

/// Sanitises a filename for safe on-disk storage. Callers make names unique by
/// prefixing a UUID.
pub fn secure_filename(name: &str) -> (r: String)
    ensures
        r@ == secure_filename_spec(name@),
{
    let cs = text::chars_of(name);
    let ghost mapped = name@.map_values(|c| sanitize_char(c));
    let mut out: Vec<char> = Vec::new();
    let mut i: usize = 0;
    while i < cs.len()
        invariant
            cs@ == name@,
            mapped == name@.map_values(|c| sanitize_char(c)),
            i <= cs.len(),
            out@ == collapse_underscores(mapped.take(i as int)),
        decreases cs.len() - i,
    {
        let c = cs[i];
        let ok = ('a' <= c && c <= 'z') || ('A' <= c && c <= 'Z') || ('0' <= c && c <= '9') || c
            == '.' || c == '-' || c == '_';
        let d = if ok {
            c
        } else {
            '_'
        };
        assert(d == mapped[i as int]);
        assert(mapped.take(i + 1).drop_last() =~= mapped.take(i as int));
        if !(d == '_' && out.len() > 0 && out[out.len() - 1] == '_') {
            out.push(d);
        }
        i = i + 1;
    }
    assert(mapped.take(cs.len() as int) =~= mapped);
    let ghost collapsed = out@;
    let mut n: usize = out.len();
    while n > 0 && (out[n - 1] == '_' || out[n - 1] == '.')
        invariant
            n <= out.len(),
            forall|j: int| n <= j < out@.len() ==> is_trim_char(out@[j]),
        decreases n,
    {
        n = n - 1;
    }
    proof {
        lemma_trim_end_take(collapsed, n as int);
    }
    let mut k: usize = 0;
    while k < n && (out[k] == '_' || out[k] == '.')
        invariant
            k <= n,
            n <= out.len(),
            forall|j: int| 0 <= j < k ==> is_trim_char(out@[j]),
        decreases n - k,
    {
        k = k + 1;
    }
    proof {
        let t = collapsed.take(n as int);
        assert forall|j: int| 0 <= j < k implies is_trim_char(t[j]) by {}
        lemma_trim_start_skip(t, k as int);
    }
    let mut res: Vec<char> = Vec::new();
    let mut p: usize = k;
    while p < n
        invariant
            k <= p <= n,
            n <= out.len(),
            res@ == out@.subrange(k as int, p as int),
        decreases n - p,
    {
        res.push(out[p]);
        assert(res@ =~= out@.subrange(k as int, p + 1));
        p = p + 1;
    }
    assert(res@ =~= collapsed.take(n as int).subrange(k as int, n as int));
    if res.len() == 0 {
        String::from_str("file")
    } else {
        text::string_from_chars(&res)
    }
}

/// Every character is one a stored file name keeps.
pub open spec fn all_filename_chars(s: Seq<char>) -> bool {
    forall|i: int| 0 <= i < s.len() ==> filename_char_ok(#[trigger] s[i])
}

/// No `_` directly follows another.
pub open spec fn no_double_underscore(s: Seq<char>) -> bool {
    forall|i: int| 0 <= i < s.len() - 1 ==> !(#[trigger] s[i] == '_' && s[i + 1] == '_')
}

proof fn lemma_collapse(s: Seq<char>)
    ensures
        all_filename_chars(s) ==> all_filename_chars(collapse_underscores(s)),
        no_double_underscore(collapse_underscores(s)),
        s.len() > 0 ==> collapse_underscores(s).len() > 0,
    decreases s.len(),
{
    if s.len() > 0 {
        let q = s.drop_last();
        lemma_collapse(q);
        let p = collapse_underscores(q);
        let c = collapse_underscores(s);
        if all_filename_chars(s) {
            assert(all_filename_chars(q)) by {
                assert forall|i: int| 0 <= i < q.len() implies filename_char_ok(#[trigger] q[i]) by {
                    assert(q[i] == s[i]);
                }
            }
            assert forall|i: int| 0 <= i < c.len() implies filename_char_ok(#[trigger] c[i]) by {
                if i < p.len() {
                    assert(c[i] == p[i]);
                } else {
                    assert(c[i] == s[s.len() - 1]);
                }
            }
        }
        assert forall|i: int| 0 <= i < c.len() - 1 implies !(#[trigger] c[i] == '_' && c[i + 1] == '_') by {
            if i + 1 < p.len() {
                assert(c[i] == p[i] && c[i + 1] == p[i + 1]);
            } else if !(s.last() == '_' && p.len() > 0 && p.last() == '_') {
                assert(c[i] == p[i]);
                assert(c[i + 1] == s.last());
            }
        }
    }
}

proof fn lemma_trim_end_set(s: Seq<char>)
    ensures
        all_filename_chars(s) ==> all_filename_chars(trim_end_set(s)),
        no_double_underscore(s) ==> no_double_underscore(trim_end_set(s)),
        trim_end_set(s).len() > 0 ==> !is_trim_char(trim_end_set(s).last()),
        trim_end_set(s).len() <= s.len(),
        forall|i: int| 0 <= i < trim_end_set(s).len() ==> #[trigger] trim_end_set(s)[i] == s[i],
    decreases s.len(),
{
    if s.len() > 0 && is_trim_char(s.last()) {
        let q = s.drop_last();
        lemma_trim_end_set(q);
        if all_filename_chars(s) {
            assert forall|i: int| 0 <= i < q.len() implies filename_char_ok(#[trigger] q[i]) by {
                assert(q[i] == s[i]);
            }
        }
        if no_double_underscore(s) {
            assert forall|i: int| 0 <= i < q.len() - 1 implies !(#[trigger] q[i] == '_' && q[i + 1] == '_') by {
                assert(q[i] == s[i] && q[i + 1] == s[i + 1]);
            }
        }
    }
}

proof fn lemma_trim_start_set(s: Seq<char>)
    ensures
        all_filename_chars(s) ==> all_filename_chars(trim_start_set(s)),
        no_double_underscore(s) ==> no_double_underscore(trim_start_set(s)),
        trim_start_set(s).len() > 0 ==> !is_trim_char(trim_start_set(s)[0]) && trim_start_set(s).last()
            == s.last(),
    decreases s.len(),
{
    if s.len() > 0 && is_trim_char(s[0]) {
        let q = s.drop_first();
        lemma_trim_start_set(q);
        if all_filename_chars(s) {
            assert forall|i: int| 0 <= i < q.len() implies filename_char_ok(#[trigger] q[i]) by {
                assert(q[i] == s[i + 1]);
            }
        }
        if no_double_underscore(s) {
            assert forall|i: int| 0 <= i < q.len() - 1 implies !(#[trigger] q[i] == '_' && q[i + 1] == '_') by {
                assert(q[i] == s[i + 1] && q[i + 1] == s[i + 2]);
            }
        }
        if trim_start_set(q).len() > 0 {
            assert(q.last() == s.last());
        }
    }
}

/// A stored file name is never empty, uses only `[A-Za-z0-9._-]` (so holds
/// no path separator), has no `__`, and neither starts nor ends with `_` or `.`.
pub proof fn lemma_secure_filename_safe(name: Seq<char>)
    ensures
        secure_filename_spec(name).len() > 0,
        all_filename_chars(secure_filename_spec(name)),
        no_double_underscore(secure_filename_spec(name)),
        !is_trim_char(secure_filename_spec(name)[0]),
        !is_trim_char(secure_filename_spec(name).last()),
{
    let m = name.map_values(|c| sanitize_char(c));
    assert forall|i: int| 0 <= i < m.len() implies filename_char_ok(#[trigger] m[i]) by {
        assert(m[i] == sanitize_char(name[i]));
    }
    lemma_collapse(m);
    let c = collapse_underscores(m);
    lemma_trim_end_set(c);
    let e = trim_end_set(c);
    lemma_trim_start_set(e);
    let t = trim_start_set(e);
    if t.len() == 0 {
        reveal_strlit("file");
        let f = secure_filename_spec(name);
        assert(f == "file"@);
        assert forall|i: int| 0 <= i < f.len() implies filename_char_ok(#[trigger] f[i]) by {}
        assert forall|i: int| 0 <= i < f.len() - 1 implies !(#[trigger] f[i] == '_' && f[i + 1] == '_') by {}
    } else {
        assert(t.last() == e.last());
    }
}

proof fn lemma_collapse_fixed(s: Seq<char>)
    requires
        no_double_underscore(s),
    ensures
        collapse_underscores(s) == s,
    decreases s.len(),
{
    if s.len() > 0 {
        let q = s.drop_last();
        assert forall|i: int| 0 <= i < q.len() - 1 implies !(#[trigger] q[i] == '_' && q[i + 1] == '_') by {
            assert(q[i] == s[i] && q[i + 1] == s[i + 1]);
        }
        lemma_collapse_fixed(q);
        assert(q.push(s.last()) =~= s);
        if s.len() >= 2 {
            assert(q.last() == s[s.len() - 2]);
            assert(!(s[s.len() - 2] == '_' && s[s.len() - 2 + 1] == '_'));
        }
    }
}

/// Sanitising a stored file name again leaves it as it is.
pub proof fn lemma_secure_filename_idempotent(name: Seq<char>)
    ensures
        secure_filename_spec(secure_filename_spec(name)) == secure_filename_spec(name),
{
    let s = secure_filename_spec(name);
    lemma_secure_filename_safe(name);
    let m = s.map_values(|c| sanitize_char(c));
    assert(m =~= s) by {
        assert forall|i: int| 0 <= i < s.len() implies m[i] == s[i] by {
            assert(filename_char_ok(s[i]));
        }
    }
    lemma_collapse_fixed(s);
    assert(trim_end_set(s) == s);
    assert(trim_start_set(s) == s);
}

/// A requested upload name is served only if it holds no `..`, `/` or `\`.
pub open spec fn upload_name_ok_spec(name: Seq<char>) -> bool {
    !text::has_infix(name, ".."@) && !name.contains('/') && !name.contains('\\')
}

/// Whether a requested upload file name may be served.
pub fn upload_name_ok(name: &str) -> (r: bool)
    ensures
        r == upload_name_ok_spec(name@),
{
    let cs = text::chars_of(name);
    !text::contains_infix(&cs, &text::lit("..")) && !text::has_char(&cs, '/') && !text::has_char(
        &cs,
        '\\',
    )
}

} // verus!
