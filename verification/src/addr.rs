//! Addresses of users and messages: `name@domain`.

use vstd::prelude::*;
use crate::text;

verus! {

/// `s` split around its last `c` (`str::rsplit_once` with a char).
pub open spec fn split_last(s: Seq<char>, c: char) -> Option<(Seq<char>, Seq<char>)>
    decreases s.len(),
{
    if s.len() == 0 {
        None
    } else if s.last() == c {
        Some((s.drop_last(), seq![]))
    } else {
        match split_last(s.drop_last(), c) {
            Some((a, b)) => Some((a, b.push(s.last()))),
            None => None,
        }
    }
}

pub proof fn lemma_split_last(s: Seq<char>, c: char, k: int)
    requires
        0 <= k < s.len(),
        s[k] == c,
        forall|j: int| k < j < s.len() ==> s[j] != c,
    ensures
        split_last(s, c) == Some((s.take(k), s.skip(k + 1))),
    decreases s.len(),
{
    if k == s.len() - 1 {
        assert(s.drop_last() =~= s.take(k));
        assert(s.skip(k + 1) =~= Seq::<char>::empty());
    } else {
        lemma_split_last(s.drop_last(), c, k);
        assert(s.drop_last().take(k) =~= s.take(k));
        assert(s.drop_last().skip(k + 1).push(s.last()) =~= s.skip(k + 1));
    }
}

pub proof fn lemma_split_last_none(s: Seq<char>, c: char)
    requires
        text::lacks(s, c),
    ensures
        split_last(s, c) is None,
    decreases s.len(),
{
    if s.len() > 0 {
        lemma_split_last_none(s.drop_last(), c);
    }
}

/// The domain of an address: what follows its last `@`; none without `@`.
pub open spec fn domain_spec(addr: Seq<char>) -> Option<Seq<char>> {
    match split_last(addr, '@') {
        Some((_, d)) => Some(d),
        None => None,
    }
}

/// The local part of an address: what precedes its first `@` (all of it
/// without `@`).
pub open spec fn local_spec(addr: Seq<char>) -> Seq<char> {
    match text::split_first(addr, '@') {
        Some((l, _)) => l,
        None => addr,
    }
}

/// `name@domain`.
pub open spec fn full_spec(name: Seq<char>, domain: Seq<char>) -> Seq<char> {
    name + seq!['@'] + domain
}

/// A target as given, or qualified with `domain` when it has no `@`.
pub open spec fn qualify_spec(target: Seq<char>, domain: Seq<char>) -> Seq<char> {
    if target.contains('@') {
        target
    } else {
        full_spec(target, domain)
    }
}

/// `s` split at its last `c` (`str::rsplit_once` with a char).
pub fn rsplit_once(s: &str, c: char) -> (r: Option<(String, String)>)
    ensures
        match r {
            Some((u, d)) => split_last(s@, c) == Some((u@, d@)),
            None => split_last(s@, c) is None,
        },
{
    let cs = text::chars_of(s);
    let mut i: usize = cs.len();
    while i > 0
        invariant
            cs@ == s@,
            i <= cs@.len(),
            forall|j: int| i <= j < cs@.len() ==> cs@[j] != c,
        decreases i,
    {
        if cs[i - 1] == c {
            proof {
                lemma_split_last(cs@, c, i - 1);
            }
            let u = text::slice_chars(&cs, 0, i - 1);
            let d = text::slice_chars(&cs, i, cs.len());
            assert(u@ =~= cs@.take(i - 1));
            assert(d@ =~= cs@.skip(i as int));
            return Some((text::string_from_chars(&u), text::string_from_chars(&d)));
        }
        i = i - 1;
    }
    proof {
        lemma_split_last_none(cs@, c);
    }
    None
}

/// The domain of an address (`rsplit('@').next()` once an `@` is known to be there).
pub fn domain_of(addr: &str) -> (r: Option<String>)
    ensures
        match r {
            Some(d) => domain_spec(addr@) == Some(d@),
            None => domain_spec(addr@) is None,
        },
        r is Some <==> addr@.contains('@'),
{
    let cs = text::chars_of(addr);
    let mut i: usize = cs.len();
    while i > 0
        invariant
            cs@ == addr@,
            i <= cs@.len(),
            forall|j: int| i <= j < cs@.len() ==> cs@[j] != '@',
        decreases i,
    {
        if cs[i - 1] == '@' {
            proof {
                lemma_split_last(cs@, '@', i - 1);
            }
            let d = text::slice_chars(&cs, i, cs.len());
            assert(d@ =~= cs@.skip(i as int));
            return Some(text::string_from_chars(&d));
        }
        i = i - 1;
    }
    proof {
        lemma_split_last_none(cs@, '@');
    }
    None
}

/// The local part of an address (`split('@').next()`).
pub fn local_part(addr: &str) -> (r: String)
    ensures
        r@ == local_spec(addr@),
{
    let cs = text::chars_of(addr);
    match text::split_once_char(&cs, '@') {
        Some((l, _)) => text::string_from_chars(&l),
        None => String::from_str(addr),
    }
}

/// `name@domain` (a user's full id on a server).
pub fn full_id(name: &str, domain: &str) -> (r: String)
    ensures
        r@ == full_spec(name@, domain@),
{
    let mut r = String::from_str(name);
    text::string_push(&mut r, '@');
    r.append(domain);
    r
}

/// A target as given when it has an `@`, else `target@domain`.
pub fn qualify(target: &str, domain: &str) -> (r: String)
    ensures
        r@ == qualify_spec(target@, domain@),
{
    if text::has_char(&text::chars_of(target), '@') {
        String::from_str(target)
    } else {
        full_id(target, domain)
    }
}

} // verus!
