//! Character-level building blocks shared by the rest of the library:
//! turning strings into character vectors and back, hex and decimal
//! rendering, and the whitespace word split used for OAuth scopes.

use vstd::prelude::*;

verus! {

/// The UTF-8 bytes of a string slice.
pub open spec fn utf8_bytes(s: &str) -> Seq<u8> {
    vstd::string::StringSliceAdditionalSpecFns::spec_bytes(s)
}

/// Calls `String::push`, to which vstd gives no specification. Trusted, as
/// std documents it: the character is appended at the end.
#[verifier::external_body]
pub(crate) fn string_push(s: &mut String, c: char)
    ensures
        final(s)@ == old(s)@.push(c),
{
    s.push(c);
}

/// The characters of `s`, in order.
pub fn chars_of(s: &str) -> (v: Vec<char>)
    ensures
        v@ == s@,
{
    let mut v: Vec<char> = Vec::new();
    let mut it = s.chars();
    loop
        invariant
            vstd::std_specs::iter::IteratorSpec::obeys_prophetic_iter_laws(&it),
            v@ + vstd::std_specs::iter::IteratorSpec::remaining(&it) == s@,
            vstd::std_specs::iter::IteratorSpec::decrease(&it) is Some,
        ensures
            v@ == s@,
        decreases vstd::std_specs::iter::IteratorSpec::decrease(&it)->0,
    {
        let ghost before = vstd::std_specs::iter::IteratorSpec::remaining(&it);
        match it.next() {
            Some(c) => {
                v.push(c);
                assert(v@ + vstd::std_specs::iter::IteratorSpec::remaining(&it) =~= s@) by {
                    assert(before == seq![c] + before.drop_first());
                }
            },
            None => {
                assert(v@ =~= s@);
                break ;
            },
        }
    }
    v
}

/// Appends every character of `cs` to `out`.
pub fn push_all(out: &mut String, cs: &Vec<char>)
    ensures
        final(out)@ == old(out)@ + cs@,
{
    let mut i: usize = 0;
    while i < cs.len()
        invariant
            i <= cs.len(),
            out@ == old(out)@ + cs@.take(i as int),
        decreases cs.len() - i,
    {
        string_push(out, cs[i]);
        assert(cs@.take(i + 1) =~= cs@.take(i as int).push(cs@[i as int]));
        i = i + 1;
    }
    assert(cs@.take(cs.len() as int) =~= cs@);
}

/// A `String` holding exactly the characters `cs`.
pub fn string_from_chars(cs: &Vec<char>) -> (s: String)
    ensures
        s@ == cs@,
{
    let mut s = String::new();
    push_all(&mut s, cs);
    assert(s@ =~= cs@);
    s
}


/// Equality of two character sequences.
pub fn chars_eq(a: &Vec<char>, b: &Vec<char>) -> (r: bool)
    ensures
        r == (a@ == b@),
{
    if a.len() != b.len() {
        return false;
    }
    let mut i: usize = 0;
    while i < a.len()
        invariant
            a.len() == b.len(),
            i <= a.len(),
            forall|j: int| 0 <= j < i ==> a@[j] == b@[j],
        decreases a.len() - i,
    {
        if a[i] != b[i] {
            return false;
        }
        i = i + 1;
    }
    assert(a@ =~= b@);
    true
}

/// A character vector's deep view is its plain view.
pub broadcast proof fn lemma_chars_deep_view(v: Vec<char>)
    ensures
        #[trigger] v.deep_view() == v@,
{
    assert(v.deep_view() =~= v@);
}

/// Pushing onto a vector of character vectors extends its deep view.
pub proof fn lemma_push_deep_view(old_ws: Vec<Vec<char>>, ws: Vec<Vec<char>>, w: Vec<char>)
    requires
        ws@ == old_ws@.push(w),
    ensures
        ws.deep_view() == old_ws.deep_view().push(w@),
{
    lemma_chars_deep_view(w);
    assert(ws.deep_view() =~= old_ws.deep_view().push(w@)) by {
        assert forall|j: int| 0 <= j < ws@.len() implies #[trigger] ws.deep_view()[j]
            == old_ws.deep_view().push(w@)[j] by {
            if j < old_ws@.len() {
                assert(ws@[j] == old_ws@[j]);
            }
        }
    }
}

/// Whether `w` occurs among `ws`.
pub fn contains_chars(ws: &Vec<Vec<char>>, w: &Vec<char>) -> (r: bool)
    ensures
        r == ws.deep_view().contains(w@),
{
    let mut i: usize = 0;
    while i < ws.len()
        invariant
            i <= ws.len(),
            forall|j: int| 0 <= j < i ==> ws.deep_view()[j] != w@,
        decreases ws.len() - i,
    {
        proof {
            lemma_chars_deep_view(ws@[i as int]);
        }
        if chars_eq(&ws[i], w) {
            assert(ws.deep_view()[i as int] == w@);
            return true;
        }
        i = i + 1;
    }
    assert forall|x: Seq<char>| ws.deep_view().contains(x) implies x != w@ by {
        let j = choose|j: int| 0 <= j < ws.deep_view().len() && ws.deep_view()[j] == x;
    }
    false
}

/// The characters of a string literal, as a vector.
pub fn lit(s: &str) -> (v: Vec<char>)
    ensures
        v@ == s@,
{
    chars_of(s)
}

/// Whether `p` is a prefix of `s`.
pub fn starts_with(s: &Vec<char>, p: &Vec<char>) -> (r: bool)
    ensures
        r == p@.is_prefix_of(s@),
{
    if p.len() > s.len() {
        return false;
    }
    let mut i: usize = 0;
    while i < p.len()
        invariant
            p.len() <= s.len(),
            i <= p.len(),
            forall|j: int| 0 <= j < i ==> p@[j] == s@[j],
        decreases p.len() - i,
    {
        if p[i] != s[i] {
            return false;
        }
        i = i + 1;
    }
    assert(p@ =~= s@.subrange(0, p@.len() as int));
    true
}

/// Whether `p` is a suffix of `s`.
pub fn ends_with(s: &Vec<char>, p: &Vec<char>) -> (r: bool)
    ensures
        r == p@.is_suffix_of(s@),
{
    if p.len() > s.len() {
        return false;
    }
    let off = s.len() - p.len();
    let mut i: usize = 0;
    while i < p.len()
        invariant
            p.len() <= s.len(),
            off == s.len() - p.len(),
            i <= p.len(),
            forall|j: int| 0 <= j < i ==> p@[j] == s@[off + j],
        decreases p.len() - i,
    {
        if p[i] != s[off + i] {
            return false;
        }
        i = i + 1;
    }
    assert(p@ =~= s@.subrange(off as int, s@.len() as int));
    true
}

/// Whether `c` occurs in `s`.
pub fn has_char(s: &Vec<char>, c: char) -> (r: bool)
    ensures
        r == s@.contains(c),
{
    let mut i: usize = 0;
    while i < s.len()
        invariant
            i <= s.len(),
            forall|j: int| 0 <= j < i ==> s@[j] != c,
        decreases s.len() - i,
    {
        if s[i] == c {
            assert(s@[i as int] == c);
            return true;
        }
        i = i + 1;
    }
    false
}

/// `needle` occurs as a contiguous run in `s` starting at `at`.
pub open spec fn occurs_at(s: Seq<char>, needle: Seq<char>, at: int) -> bool {
    0 <= at && at + needle.len() <= s.len() && s.subrange(at, at + needle.len()) =~= needle
}

/// `needle` occurs somewhere in `s` (`str::contains` with a string pattern).
pub open spec fn has_infix(s: Seq<char>, needle: Seq<char>) -> bool {
    exists|at: int| occurs_at(s, needle, at)
}

/// `str::contains` for a string pattern.
pub fn contains_infix(s: &Vec<char>, needle: &Vec<char>) -> (r: bool)
    ensures
        r == has_infix(s@, needle@),
{
    if needle.len() > s.len() {
        assert(forall|at: int| !occurs_at(s@, needle@, at));
        return false;
    }
    let last = s.len() - needle.len();
    let mut at: usize = 0;
    while at <= last
        invariant
            needle.len() <= s.len(),
            last == s.len() - needle.len(),
            forall|k: int| 0 <= k < at ==> !occurs_at(s@, needle@, k),
        decreases last + 1 - at,
    {
        let mut j: usize = 0;
        let mut ok = true;
        while j < needle.len()
            invariant
                needle.len() <= s.len(),
                at <= last,
                last == s.len() - needle.len(),
                j <= needle.len(),
                ok ==> forall|q: int| 0 <= q < j ==> s@[at + q] == needle@[q],
                !ok ==> !occurs_at(s@, needle@, at as int),
            decreases needle.len() - j,
        {
            if ok && s[at + j] != needle[j] {
                ok = false;
                assert(s@.subrange(at as int, at + needle@.len())[j as int] != needle@[j as int]);
            }
            j = j + 1;
        }
        if ok {
            assert(occurs_at(s@, needle@, at as int));
            return true;
        }
        if at == last {
            assert(forall|k: int| 0 <= k <= at ==> !occurs_at(s@, needle@, k));
            assert(forall|k: int| !occurs_at(s@, needle@, k)) by {
                assert forall|k: int| !occurs_at(s@, needle@, k) by {
                    if 0 <= k <= at {
                    }
                }
            }
            return false;
        }
        at = at + 1;
    }
    false
}

/// `s` split around its first `c` (`str::split_once` with a char).
pub open spec fn split_first(s: Seq<char>, c: char) -> Option<(Seq<char>, Seq<char>)>
    decreases s.len(),
{
    if s.len() == 0 {
        None
    } else if s[0] == c {
        Some((seq![], s.drop_first()))
    } else {
        match split_first(s.drop_first(), c) {
            Some((a, b)) => Some((seq![s[0]] + a, b)),
            None => None,
        }
    }
}

pub proof fn lemma_split_first(s: Seq<char>, c: char, k: int)
    requires
        0 <= k <= s.len(),
        forall|j: int| 0 <= j < k ==> s[j] != c,
        k < s.len() ==> s[k] == c,
    ensures
        k == s.len() ==> split_first(s, c) is None,
        k < s.len() ==> split_first(s, c) == Some((s.take(k), s.skip(k + 1))),
    decreases s.len(),
{
    if s.len() > 0 && k > 0 {
        lemma_split_first(s.drop_first(), c, k - 1);
        if k < s.len() {
            assert(seq![s[0]] + s.drop_first().take(k - 1) =~= s.take(k));
            assert(s.drop_first().skip(k) =~= s.skip(k + 1));
        }
    } else if s.len() > 0 {
        assert(s.take(0) =~= seq![]);
        assert(s.skip(1) =~= s.drop_first());
    }
}

/// The characters `cs[from..to]`.
pub fn slice_chars(cs: &Vec<char>, from: usize, to: usize) -> (r: Vec<char>)
    requires
        from <= to <= cs.len(),
    ensures
        r@ == cs@.subrange(from as int, to as int),
{
    let mut r: Vec<char> = Vec::new();
    let mut i: usize = from;
    while i < to
        invariant
            from <= i <= to,
            to <= cs.len(),
            r@ == cs@.subrange(from as int, i as int),
        decreases to - i,
    {
        r.push(cs[i]);
        assert(r@ =~= cs@.subrange(from as int, i + 1));
        i = i + 1;
    }
    r
}

/// Index of the first `c` in `cs`, if any.
pub fn find_char(cs: &Vec<char>, c: char) -> (r: Option<usize>)
    ensures
        match r {
            Some(k) => k < cs@.len() && cs@[k as int] == c && forall|j: int|
                0 <= j < k ==> cs@[j] != c,
            None => forall|j: int| 0 <= j < cs@.len() ==> cs@[j] != c,
        },
{
    let mut i: usize = 0;
    while i < cs.len()
        invariant
            i <= cs.len(),
            forall|j: int| 0 <= j < i ==> cs@[j] != c,
        decreases cs.len() - i,
    {
        if cs[i] == c {
            return Some(i);
        }
        i = i + 1;
    }
    None
}

/// `str::split_once` with a char pattern.
pub fn split_once_char(cs: &Vec<char>, c: char) -> (r: Option<(Vec<char>, Vec<char>)>)
    ensures
        match r {
            Some((a, b)) => split_first(cs@, c) == Some((a@, b@)),
            None => split_first(cs@, c) is None,
        },
{
    match find_char(cs, c) {
        Some(k) => {
            proof {
                lemma_split_first(cs@, c, k as int);
            }
            assert(k < cs.len());
            let a = slice_chars(cs, 0, k);
            let b = slice_chars(cs, k + 1, cs.len());
            assert(a@ =~= cs@.take(k as int));
            assert(b@ =~= cs@.skip(k + 1));
            Some((a, b))
        },
        None => {
            proof {
                lemma_split_first(cs@, c, cs@.len() as int);
            }
            None
        },
    }
}

/// All the pieces of `s` between occurrences of `sep` (`str::split` with a
/// char): at least one piece, empty pieces kept.
pub open spec fn split_all(s: Seq<char>, sep: char) -> Seq<Seq<char>>
    decreases s.len(),
{
    match split_first(s, sep) {
        Some((a, b)) => {
            if b.len() < s.len() {
                seq![a] + split_all(b, sep)
            } else {
                seq![]
            }
        },
        None => seq![s],
    }
}

pub proof fn lemma_split_first_shorter(s: Seq<char>, c: char)
    ensures
        split_first(s, c) matches Some((a, b)) ==> b.len() < s.len() && a.len() + b.len() + 1
            == s.len(),
    decreases s.len(),
{
    if s.len() > 0 && s[0] != c {
        lemma_split_first_shorter(s.drop_first(), c);
    }
}

/// `str::split` with a char: every piece, in order.
pub fn split_char(s: &Vec<char>, sep: char) -> (r: Vec<Vec<char>>)
    ensures
        r.deep_view() == split_all(s@, sep),
{
    let mut done: Vec<Vec<char>> = Vec::new();
    let mut rest: Vec<char> = s.clone();
    assert(rest@ =~= s@);
    loop
        invariant
            done.deep_view() + split_all(rest@, sep) == split_all(s@, sep),
        decreases rest@.len(),
    {
        proof {
            lemma_split_first_shorter(rest@, sep);
        }
        match split_once_char(&rest, sep) {
            Some((a, b)) => {
                let ghost before = done;
                let ghost r0 = rest@;
                done.push(a);
                proof {
                    lemma_push_deep_view(before, done, a);
                    assert(split_all(r0, sep) == seq![a@] + split_all(b@, sep));
                    assert(done.deep_view() + split_all(b@, sep) =~= before.deep_view() + split_all(
                        r0,
                        sep,
                    ));
                }
                rest = b;
            },
            None => {
                let ghost before = done;
                let ghost r0 = rest@;
                done.push(rest);
                proof {
                    lemma_push_deep_view(before, done, rest);
                    assert(done.deep_view() =~= before.deep_view() + split_all(r0, sep));
                }
                return done;
            },
        }
    }
}

/// `s` has no `c`.
pub open spec fn lacks(s: Seq<char>, c: char) -> bool {
    forall|i: int| 0 <= i < s.len() ==> s[i] != c
}

/// Splitting `a + [sep] + b` where `a` has no `sep` gives `a` then the pieces of `b`.
pub proof fn lemma_split_all_cons(a: Seq<char>, b: Seq<char>, sep: char)
    requires
        lacks(a, sep),
    ensures
        split_all(a + seq![sep] + b, sep) == seq![a] + split_all(b, sep),
{
    let s = a + seq![sep] + b;
    lemma_split_first(s, sep, a.len() as int);
    assert(s.take(a.len() as int) =~= a);
    assert(s.skip(a.len() + 1int) =~= b);
}

/// A piece with no separator splits into itself.
pub proof fn lemma_split_all_single(a: Seq<char>, sep: char)
    requires
        lacks(a, sep),
    ensures
        split_all(a, sep) == seq![a],
{
    lemma_split_first(a, sep, a.len() as int);
}

// ── byte order of strings ───────────────────────────────────────────

/// Lexicographic order of byte strings, the order of `str` and `String`.
pub open spec fn lex_lt(a: Seq<u8>, b: Seq<u8>) -> bool
    decreases a.len(),
{
    if b.len() == 0 {
        false
    } else if a.len() == 0 {
        true
    } else if a[0] != b[0] {
        a[0] < b[0]
    } else {
        lex_lt(a.drop_first(), b.drop_first())
    }
}

pub proof fn lemma_lex_irreflexive(a: Seq<u8>)
    ensures
        !lex_lt(a, a),
    decreases a.len(),
{
    if a.len() > 0 {
        lemma_lex_irreflexive(a.drop_first());
    }
}

pub proof fn lemma_lex_asymmetric(a: Seq<u8>, b: Seq<u8>)
    ensures
        lex_lt(a, b) ==> !lex_lt(b, a),
    decreases a.len(),
{
    if a.len() > 0 && b.len() > 0 && a[0] == b[0] {
        lemma_lex_asymmetric(a.drop_first(), b.drop_first());
    }
}

pub proof fn lemma_lex_transitive(a: Seq<u8>, b: Seq<u8>, c: Seq<u8>)
    ensures
        lex_lt(a, b) && lex_lt(b, c) ==> lex_lt(a, c),
    decreases a.len(),
{
    if a.len() > 0 && b.len() > 0 && c.len() > 0 {
        lemma_lex_transitive(a.drop_first(), b.drop_first(), c.drop_first());
    }
}

pub proof fn lemma_lex_total(a: Seq<u8>, b: Seq<u8>)
    ensures
        a != b ==> lex_lt(a, b) || lex_lt(b, a),
    decreases a.len(),
{
    if a.len() > 0 && b.len() > 0 {
        lemma_lex_total(a.drop_first(), b.drop_first());
        if a[0] == b[0] && a.drop_first() == b.drop_first() {
            assert(a =~= seq![a[0]] + a.drop_first());
            assert(b =~= seq![b[0]] + b.drop_first());
        }
    } else if a.len() == 0 && b.len() == 0 {
        assert(a =~= b);
    }
}

/// `a < b` on strings (byte order).
pub fn str_lt(a: &str, b: &str) -> (r: bool)
    ensures
        r == lex_lt(utf8_bytes(a), utf8_bytes(b)),
{
    let x = a.as_bytes();
    let y = b.as_bytes();
    let mut i: usize = 0;
    assert(x@.skip(0) =~= x@);
    assert(y@.skip(0) =~= y@);
    while i < x.len() && i < y.len()
        invariant
            x@ == utf8_bytes(a),
            y@ == utf8_bytes(b),
            i <= x@.len(),
            i <= y@.len(),
            lex_lt(x@, y@) == lex_lt(x@.skip(i as int), y@.skip(i as int)),
        decreases x@.len() - i,
    {
        assert(x@.skip(i as int)[0] == x@[i as int]);
        assert(y@.skip(i as int)[0] == y@[i as int]);
        if x[i] != y[i] {
            return x[i] < y[i];
        }
        assert(x@.skip(i as int).drop_first() =~= x@.skip(i + 1));
        assert(y@.skip(i as int).drop_first() =~= y@.skip(i + 1));
        i = i + 1;
    }
    i < y.len()
}

// ── decimal parsing ─────────────────────────────────────────────────

pub open spec fn is_digit(c: char) -> bool {
    '0' <= c <= '9'
}

pub open spec fn all_digits(s: Seq<char>) -> bool {
    forall|i: int| 0 <= i < s.len() ==> is_digit(#[trigger] s[i])
}

/// The value of a string of decimal digits.
pub open spec fn digits_value(s: Seq<char>) -> int
    decreases s.len(),
{
    if s.len() == 0 {
        0
    } else {
        digits_value(s.drop_last()) * 10 + (s.last() as int - 48)
    }
}

/// What `str::parse::<i64>` accepts and gives: an optional sign then one or
/// more ASCII digits, in range.
pub open spec fn parse_i64_spec(s: Seq<char>) -> Option<int> {
    if s.len() == 0 {
        None
    } else {
        let neg = s[0] == '-';
        let digits = if s[0] == '+' || s[0] == '-' {
            s.drop_first()
        } else {
            s
        };
        if digits.len() == 0 || !all_digits(digits) {
            None
        } else {
            let v = if neg {
                -digits_value(digits)
            } else {
                digits_value(digits)
            };
            if i64::MIN <= v <= i64::MAX {
                Some(v)
            } else {
                None
            }
        }
    }
}

pub proof fn lemma_digits_value_nonneg(s: Seq<char>)
    requires
        all_digits(s),
    ensures
        digits_value(s) >= 0,
    decreases s.len(),
{
    if s.len() > 0 {
        assert(is_digit(s[s.len() - 1]));
        assert(all_digits(s.drop_last())) by {
            assert forall|i: int| 0 <= i < s.drop_last().len() implies is_digit(
                #[trigger] s.drop_last()[i],
            ) by {
                assert(s.drop_last()[i] == s[i]);
            }
        }
        lemma_digits_value_nonneg(s.drop_last());
    }
}

pub proof fn lemma_digits_value_mono(s: Seq<char>, k: int)
    requires
        all_digits(s),
        0 <= k <= s.len(),
    ensures
        digits_value(s.take(k)) <= digits_value(s),
    decreases s.len(),
{
    if k < s.len() {
        assert(all_digits(s.drop_last())) by {
            assert forall|i: int| 0 <= i < s.drop_last().len() implies is_digit(
                #[trigger] s.drop_last()[i],
            ) by {
                assert(s.drop_last()[i] == s[i]);
            }
        }
        assert(is_digit(s[s.len() - 1]));
        lemma_digits_value_mono(s.drop_last(), k);
        assert(s.drop_last().take(k) =~= s.take(k));
        lemma_digits_value_nonneg(s.drop_last());
    } else {
        assert(s.take(k) =~= s);
    }
}

/// `str::parse::<i64>`.
pub fn parse_i64(s: &Vec<char>) -> (r: Option<i64>)
    ensures
        match r {
            Some(v) => parse_i64_spec(s@) == Some(v as int),
            None => parse_i64_spec(s@) is None,
        },
{
    if s.len() == 0 {
        return None;
    }
    let neg = s[0] == '-';
    let start: usize = if s[0] == '+' || s[0] == '-' {
        1
    } else {
        0
    };
    let ghost digits = if s@[0] == '+' || s@[0] == '-' {
        s@.drop_first()
    } else {
        s@
    };
    assert(digits =~= s@.subrange(start as int, s@.len() as int));
    if start == s.len() {
        return None;
    }
    let limit: i128 = 9223372036854775808;
    let mut acc: i128 = 0;
    let mut i: usize = start;
    while i < s.len()
        invariant
            start <= i <= s.len(),
            s@.len() > 0,
            neg == (s@[0] == '-'),
            digits == (if s@[0] == '+' || s@[0] == '-' {
                s@.drop_first()
            } else {
                s@
            }),
            digits =~= s@.subrange(start as int, s@.len() as int),
            all_digits(digits.take(i - start)),
            acc == digits_value(digits.take(i - start)),
            0 <= acc <= limit,
            limit == 9223372036854775808i128,
        decreases s.len() - i,
    {
        let c = s[i];
        if !('0' <= c && c <= '9') {
            assert(digits[i - start] == c);
            assert(!is_digit(digits[i - start]));
            assert(!all_digits(digits));
            return None;
        }
        let d: i128 = (c as u32 - 48) as i128;
        let next = acc * 10 + d;
        proof {
            let t = digits.take(i + 1 - start);
            assert(t.drop_last() =~= digits.take(i - start));
            assert(t.last() == c);
            assert(all_digits(t)) by {
                assert forall|j: int| 0 <= j < t.len() implies is_digit(#[trigger] t[j]) by {
                    if j < t.len() - 1 {
                        assert(t[j] == digits.take(i - start)[j]);
                    }
                }
            }
        }
        proof {
            let t = digits.take(i + 1 - start);
            assert(digits_value(t) == digits_value(t.drop_last()) * 10 + (t.last() as int - 48));
            assert(next == digits_value(t));
        }
        if next > limit {
            proof {
                if all_digits(digits) {
                    lemma_digits_value_mono(digits, i + 1 - start);
                    assert(digits_value(digits) > limit);
                }
            }
            return None;
        }
        acc = next;
        i = i + 1;
    }
    assert(digits.take(s.len() - start) =~= digits);
    if neg {
        Some((-acc) as i64)
    } else {
        if acc > 9223372036854775807 {
            return None;
        }
        Some(acc as i64)
    }
}

pub proof fn lemma_decimal_digits(n: nat)
    ensures
        all_digits(decimal(n)),
        digits_value(decimal(n)) == n,
        decimal(n).len() > 0,
    decreases n,
{
    if n >= 10 {
        lemma_decimal_digits(n / 10);
        let d = decimal(n / 10);
        let e = d.push(digit_char((n % 10) as int));
        assert(e.drop_last() =~= d);
        assert(e == decimal(n));
        assert(e.last() as int - 48 == n % 10);
        assert(digits_value(e) == digits_value(d) * 10 + n % 10);
        assert(digits_value(d) == n / 10);
        assert forall|i: int| 0 <= i < e.len() implies is_digit(#[trigger] e[i]) by {
            if i < d.len() {
                assert(e[i] == d[i]);
            }
        }
    } else {
        let e = decimal(n);
        assert(e.drop_last() =~= seq![]);
        assert(digits_value(e.drop_last()) == 0);
        assert(e.last() as int - 48 == n);
    }
}

/// Parsing the decimal rendering of an `i64` gives it back.
pub proof fn lemma_parse_signed_decimal(n: i64)
    ensures
        parse_i64_spec(signed_decimal(n as int)) == Some(n as int),
{
    if n < 0 {
        let m = (-n) as nat;
        lemma_decimal_digits(m);
        let s = signed_decimal(n as int);
        assert(s.drop_first() =~= decimal(m));
    } else {
        lemma_decimal_digits(n as nat);
        let s = decimal(n as nat);
        assert(is_digit(s[0]));
    }
}

pub proof fn lemma_decimal_lacks(n: nat, c: char)
    requires
        !is_digit(c),
    ensures
        lacks(decimal(n), c),
{
    lemma_decimal_digits(n);
}

// ── hex ─────────────────────────────────────────────────────────────

/// Lower-case hex digit for a nibble.
pub open spec fn hex_digit(n: int) -> char {
    if n < 10 {
        (n + 48) as char
    } else {
        (n + 87) as char
    }
}

/// Two lower-case hex digits per byte (the `{:02x}` rendering), in order.
pub open spec fn hex_lower(bytes: Seq<u8>) -> Seq<char>
    decreases bytes.len(),
{
    if bytes.len() == 0 {
        seq![]
    } else {
        let b = bytes.last();
        hex_lower(bytes.drop_last()) + seq![hex_digit((b / 16) as int), hex_digit((b % 16) as int)]
    }
}

fn nibble_char(n: u8) -> (c: char)
    requires
        n < 16,
    ensures
        c == hex_digit(n as int),
{
    if n < 10 {
        (n + 48) as char
    } else {
        (n + 87) as char
    }
}

/// Appends the two-digit lower-case hex rendering of every byte.
pub fn push_hex(out: &mut String, bytes: &[u8])
    ensures
        final(out)@ == old(out)@ + hex_lower(bytes@),
{
    let mut i: usize = 0;
    while i < bytes.len()
        invariant
            i <= bytes.len(),
            out@ == old(out)@ + hex_lower(bytes@.take(i as int)),
        decreases bytes.len() - i,
    {
        let b = bytes[i];
        string_push(out, nibble_char(b / 16));
        string_push(out, nibble_char(b % 16));
        assert(bytes@.take(i + 1).drop_last() =~= bytes@.take(i as int));
        i = i + 1;
    }
    assert(bytes@.take(bytes.len() as int) =~= bytes@);
}

/// Lower-case hex of `bytes`.
pub fn to_hex(bytes: &[u8]) -> (s: String)
    ensures
        s@ == hex_lower(bytes@),
{
    let mut s = String::new();
    push_hex(&mut s, bytes);
    assert(s@ =~= hex_lower(bytes@));
    s
}

pub proof fn lemma_hex_lower_len(bytes: Seq<u8>)
    ensures
        hex_lower(bytes).len() == 2 * bytes.len(),
    decreases bytes.len(),
{
    if bytes.len() > 0 {
        lemma_hex_lower_len(bytes.drop_last());
    }
}

// ── decimal ─────────────────────────────────────────────────────────

pub open spec fn digit_char(d: int) -> char {
    (d + 48) as char
}

/// Decimal digits of a natural number, most significant first, no leading zeros.
pub open spec fn decimal(n: nat) -> Seq<char>
    decreases n,
{
    if n < 10 {
        seq![digit_char(n as int)]
    } else {
        decimal(n / 10).push(digit_char((n % 10) as int))
    }
}

/// Decimal rendering of a signed integer (`{}` formatting).
pub open spec fn signed_decimal(n: int) -> Seq<char> {
    if n < 0 {
        seq!['-'] + decimal((-n) as nat)
    } else {
        decimal(n as nat)
    }
}

/// Appends the decimal digits of `n`.
pub fn push_decimal(out: &mut String, n: u64)
    ensures
        final(out)@ == old(out)@ + decimal(n as nat),
    decreases n,
{
    if n < 10 {
        string_push(out, ((n as u8) + 48) as char);
        assert(out@ =~= old(out)@ + decimal(n as nat));
    } else {
        push_decimal(out, n / 10);
        string_push(out, (((n % 10) as u8) + 48) as char);
        assert(out@ =~= old(out)@ + decimal(n as nat));
    }
}

/// Appends the decimal rendering of a signed integer.
pub fn push_signed(out: &mut String, n: i64)
    ensures
        final(out)@ == old(out)@ + signed_decimal(n as int),
{
    if n < 0 {
        string_push(out, '-');
        let m: u64 = ((-(n + 1)) as u64) + 1;
        push_decimal(out, m);
        assert(out@ =~= old(out)@ + signed_decimal(n as int));
    } else {
        push_decimal(out, n as u64);
    }
}

// ── whitespace words ────────────────────────────────────────────────

/// Unicode `White_Space` (what `char::is_whitespace` tests).
pub open spec fn is_ws(c: char) -> bool {
    ||| '\u{9}' <= c <= '\u{d}'
    ||| c == ' '
    ||| c == '\u{85}'
    ||| c == '\u{a0}'
    ||| c == '\u{1680}'
    ||| '\u{2000}' <= c <= '\u{200a}'
    ||| c == '\u{2028}'
    ||| c == '\u{2029}'
    ||| c == '\u{202f}'
    ||| c == '\u{205f}'
    ||| c == '\u{3000}'
}

pub fn char_is_ws(c: char) -> (r: bool)
    ensures
        r == is_ws(c),
{
    ('\u{9}' <= c && c <= '\u{d}') || c == ' ' || c == '\u{85}' || c == '\u{a0}' || c == '\u{1680}'
        || ('\u{2000}' <= c && c <= '\u{200a}') || c == '\u{2028}' || c == '\u{2029}' || c
        == '\u{202f}' || c == '\u{205f}' || c == '\u{3000}'
}

/// One step of a left-to-right word split: finished words and the word in progress.
pub open spec fn split_step(acc: (Seq<Seq<char>>, Seq<char>), c: char) -> (
    Seq<Seq<char>>,
    Seq<char>,
) {
    if is_ws(c) {
        if acc.1.len() > 0 {
            (acc.0.push(acc.1), seq![])
        } else {
            acc
        }
    } else {
        (acc.0, acc.1.push(c))
    }
}

pub open spec fn split_prefix(s: Seq<char>, n: nat) -> (Seq<Seq<char>>, Seq<char>)
    decreases n,
{
    if n == 0 {
        (seq![], seq![])
    } else {
        split_step(split_prefix(s, (n - 1) as nat), s[n - 1])
    }
}

/// The maximal runs of non-whitespace characters of `s`, in order
/// (`str::split_whitespace`).
pub open spec fn words(s: Seq<char>) -> Seq<Seq<char>> {
    let acc = split_prefix(s, s.len());
    if acc.1.len() > 0 {
        acc.0.push(acc.1)
    } else {
        acc.0
    }
}

/// `str::split_whitespace`, each word as a character vector.
pub fn split_words(s: &str) -> (ws: Vec<Vec<char>>)
    ensures
        ws.deep_view() == words(s@),
{
    let cs = chars_of(s);
    let mut done: Vec<Vec<char>> = Vec::new();
    let mut cur: Vec<char> = Vec::new();
    let mut i: usize = 0;
    while i < cs.len()
        invariant
            i <= cs.len(),
            cs@ == s@,
            (done.deep_view(), cur@) == split_prefix(s@, i as nat),
        decreases cs.len() - i,
    {
        let c = cs[i];
        if char_is_ws(c) {
            if cur.len() > 0 {
                let w = cur;
                let ghost old_done = done;
                done.push(w);
                proof {
                    lemma_push_deep_view(old_done, done, w);
                }
                cur = Vec::new();
                assert(done.deep_view() =~= split_prefix(s@, (i + 1) as nat).0);
                assert(cur@ =~= split_prefix(s@, (i + 1) as nat).1);
            }
        } else {
            cur.push(c);
        }
        i = i + 1;
    }
    if cur.len() > 0 {
        let ghost old_done = done;
        let ghost w = cur;
        done.push(cur);
        proof {
            lemma_push_deep_view(old_done, done, w);
        }
        assert(done.deep_view() =~= words(s@));
    }
    done
}

/// Words joined by single separators.
pub open spec fn join_words(ws: Seq<Seq<char>>, sep: Seq<char>) -> Seq<char>
    decreases ws.len(),
{
    if ws.len() == 0 {
        seq![]
    } else if ws.len() == 1 {
        ws[0]
    } else {
        join_words(ws.drop_last(), sep) + sep + ws.last()
    }
}

/// The word split carried on from `acc` over the characters of `t`.
pub open spec fn split_fold(acc: (Seq<Seq<char>>, Seq<char>), t: Seq<char>) -> (
    Seq<Seq<char>>,
    Seq<char>,
)
    decreases t.len(),
{
    if t.len() == 0 {
        acc
    } else {
        split_step(split_fold(acc, t.drop_last()), t.last())
    }
}

proof fn lemma_split_prefix_fold(s: Seq<char>, n: nat)
    requires
        n <= s.len(),
    ensures
        split_prefix(s, n) == split_fold((seq![], seq![]), s.take(n as int)),
    decreases n,
{
    if n > 0 {
        lemma_split_prefix_fold(s, (n - 1) as nat);
        assert(s.take(n as int).drop_last() =~= s.take(n - 1));
    }
}

proof fn lemma_split_fold_concat(acc: (Seq<Seq<char>>, Seq<char>), a: Seq<char>, b: Seq<char>)
    ensures
        split_fold(acc, a + b) == split_fold(split_fold(acc, a), b),
    decreases b.len(),
{
    if b.len() == 0 {
        assert(a + b =~= a);
    } else {
        lemma_split_fold_concat(acc, a, b.drop_last());
        assert((a + b).drop_last() =~= a + b.drop_last());
        assert((a + b).last() == b.last());
    }
}

/// A word: not empty, no whitespace.
pub open spec fn is_word(w: Seq<char>) -> bool {
    w.len() > 0 && forall|i: int| 0 <= i < w.len() ==> !is_ws(#[trigger] w[i])
}

proof fn lemma_split_fold_word(d: Seq<Seq<char>>, cur: Seq<char>, w: Seq<char>)
    requires
        forall|i: int| 0 <= i < w.len() ==> !is_ws(#[trigger] w[i]),
    ensures
        split_fold((d, cur), w) == (d, cur + w),
    decreases w.len(),
{
    if w.len() > 0 {
        lemma_split_fold_word(d, cur, w.drop_last());
        assert(cur + w.drop_last() + seq![w.last()] =~= cur + w);
        assert(!is_ws(w[w.len() - 1]));
    } else {
        assert(cur + w =~= cur);
    }
}

/// Splitting words joined by single spaces gives the words back.
pub proof fn lemma_words_join(ws: Seq<Seq<char>>)
    requires
        forall|i: int| 0 <= i < ws.len() ==> is_word(#[trigger] ws[i]),
    ensures
        words(join_words(ws, seq![' '])) == ws,
{
    if ws.len() > 0 {
        lemma_join_fold(ws);
        let j = join_words(ws, seq![' ']);
        lemma_split_prefix_fold(j, j.len());
        assert(j.take(j.len() as int) =~= j);
        assert(ws.drop_last().push(ws.last()) =~= ws);
    } else {
        let j = join_words(ws, seq![' ']);
        assert(j.len() == 0);
    }
}

proof fn lemma_join_fold(ws: Seq<Seq<char>>)
    requires
        ws.len() > 0,
        forall|i: int| 0 <= i < ws.len() ==> is_word(#[trigger] ws[i]),
    ensures
        split_fold((seq![], seq![]), join_words(ws, seq![' '])) == (ws.drop_last(), ws.last()),
    decreases ws.len(),
{
    if ws.len() == 1 {
        assert(is_word(ws[0]));
        lemma_split_fold_word(seq![], seq![], ws[0]);
        assert(Seq::<char>::empty() + ws[0] =~= ws[0]);
        assert(ws.drop_last() =~= Seq::<Seq<char>>::empty());
    } else {
        let p = ws.drop_last();
        assert forall|i: int| 0 <= i < p.len() implies is_word(#[trigger] p[i]) by {
            assert(p[i] == ws[i]);
        }
        lemma_join_fold(p);
        let jp = join_words(p, seq![' ']);
        let w = ws.last();
        assert(is_word(ws[ws.len() - 1]));
        let init: (Seq<Seq<char>>, Seq<char>) = (seq![], seq![]);
        assert(join_words(ws, seq![' ']) == jp + seq![' '] + w);
        lemma_split_fold_concat(init, jp + seq![' '], w);
        lemma_split_fold_concat(init, jp, seq![' ']);
        assert(seq![' '].drop_last() =~= Seq::<char>::empty());
        assert(is_word(p[p.len() - 1]));
        assert(p.last().len() > 0);
        let mid = split_fold(init, jp);
        assert(mid == (p.drop_last(), p.last()));
        assert(split_fold(mid, Seq::<char>::empty()) == mid);
        assert(split_fold(mid, seq![' ']) == split_step(mid, ' '));
        assert(is_ws(' '));
        assert(split_step(mid, ' ') == (p.drop_last().push(p.last()), Seq::<char>::empty()));
        assert(p.drop_last().push(p.last()) =~= p);
        assert(split_fold(init, jp + seq![' ']) == (p, Seq::<char>::empty()));
        lemma_split_fold_word(p, seq![], w);
        assert(Seq::<char>::empty() + w =~= w);
        assert(ws.drop_last() == p);
    }
}

/// Joins `ws` with single spaces.
pub fn join_spaced(ws: &Vec<Vec<char>>) -> (s: String)
    ensures
        s@ == join_words(ws.deep_view(), seq![' ']),
{
    let mut s = String::new();
    let mut i: usize = 0;
    while i < ws.len()
        invariant
            i <= ws.len(),
            s@ == join_words(ws.deep_view().take(i as int), seq![' ']),
        decreases ws.len() - i,
    {
        proof {
            let t = ws.deep_view().take(i + 1);
            assert(t.drop_last() =~= ws.deep_view().take(i as int));
        }
        if i > 0 {
            string_push(&mut s, ' ');
        }
        push_all(&mut s, &ws[i]);
        proof {
            let t = ws.deep_view().take(i + 1);
            if i == 0 {
                assert(s@ =~= t[0]);
            } else {
                assert(s@ =~= join_words(t.drop_last(), seq![' ']) + seq![' '] + t.last());
            }
        }
        i = i + 1;
    }
    assert(ws.deep_view().take(ws.len() as int) =~= ws.deep_view());
    s
}

} // verus!
