//! A string-keyed map kept as a list of entries in which no key occurs twice.

use vstd::prelude::*;

verus! {

/// Whether some entry of `s` has key `k`.
pub open spec fn key_in<V>(s: Seq<(String, V)>, k: Seq<char>) -> bool {
    exists|i: int| 0 <= i < s.len() && (#[trigger] s[i]).0@ == k
}

/// No key occurs twice in `s`.
pub open spec fn distinct_keys<V>(s: Seq<(String, V)>) -> bool {
    forall|i: int, j: int|
        0 <= i < s.len() && 0 <= j < s.len() && i != j ==> (#[trigger] s[i]).0@ != (#[trigger] s[j]).0@
}

/// The map that a list of entries stands for.
pub open spec fn entries_map<V>(s: Seq<(String, V)>) -> Map<Seq<char>, V> {
    Map::new(
        |k: Seq<char>| key_in(s, k),
        |k: Seq<char>| s[choose|i: int| 0 <= i < s.len() && (#[trigger] s[i]).0@ == k].1,
    )
}

/// With distinct keys, the entry at `i` is what the map holds for its key.
pub proof fn lemma_entry<V>(s: Seq<(String, V)>, i: int)
    requires
        distinct_keys(s),
        0 <= i < s.len(),
    ensures
        entries_map(s).contains_key(s[i].0@),
        entries_map(s)[s[i].0@] == s[i].1,
{
    let k = s[i].0@;
    assert(key_in(s, k));
    let j = choose|j: int| 0 <= j < s.len() && (#[trigger] s[j]).0@ == k;
    assert(j == i);
}

/// A map from strings to values.
pub struct Keyed<V> {
    entries: Vec<(String, V)>,
}

impl<V> View for Keyed<V> {
    type V = Map<Seq<char>, V>;

    closed spec fn view(&self) -> Map<Seq<char>, V> {
        entries_map(self.entries@)
    }
}

impl<V> Keyed<V> {
    /// No key occurs twice among the entries.
    pub closed spec fn wf(&self) -> bool {
        distinct_keys(self.entries@)
    }

    /// An empty map.
    pub fn new() -> (r: Self)
        ensures
            r.wf(),
            r@ == Map::<Seq<char>, V>::empty(),
    {
        let r = Keyed { entries: Vec::new() };
        assert(r@ =~= Map::<Seq<char>, V>::empty());
        r
    }

    /// The number of keys.
    pub fn len(&self) -> (n: usize)
        requires
            self.wf(),
        ensures
            n == self@.len(),
    {
        proof {
            self.lemma_len();
        }
        self.entries.len()
    }

    proof fn lemma_len(&self)
        requires
            self.wf(),
        ensures
            self@.dom().finite(),
            self@.len() == self.entries@.len(),
        decreases self.entries@.len(),
    {
        let s = self.entries@;
        lemma_dom_len(s);
    }

    fn find(&self, k: &str) -> (r: Option<usize>)
        requires
            self.wf(),
        ensures
            match r {
                Some(i) => i < self.entries@.len() && self.entries@[i as int].0@ == k@,
                None => !key_in(self.entries@, k@),
            },
    {
        let key = String::from_str(k);
        let mut i: usize = 0;
        while i < self.entries.len()
            invariant
                key@ == k@,
                i <= self.entries@.len(),
                forall|j: int| 0 <= j < i ==> (#[trigger] self.entries@[j]).0@ != k@,
            decreases self.entries@.len() - i,
        {
            if self.entries[i].0 == key {
                return Some(i);
            }
            i = i + 1;
        }
        None
    }

    /// The value held for `k`.
    pub fn get(&self, k: &str) -> (r: Option<&V>)
        requires
            self.wf(),
        ensures
            match r {
                Some(v) => self@.contains_key(k@) && *v == self@[k@],
                None => !self@.contains_key(k@),
            },
    {
        match self.find(k) {
            Some(i) => {
                proof {
                    lemma_entry(self.entries@, i as int);
                }
                Some(&self.entries[i].1)
            },
            None => None,
        }
    }

    /// Whether `k` has a value.
    pub fn contains_key(&self, k: &str) -> (r: bool)
        requires
            self.wf(),
        ensures
            r == self@.contains_key(k@),
    {
        match self.find(k) {
            Some(i) => {
                proof {
                    lemma_entry(self.entries@, i as int);
                }
                true
            },
            None => false,
        }
    }

    /// Sets the value of `k`, replacing any earlier one.
    pub fn insert(&mut self, k: &str, v: V)
        requires
            old(self).wf(),
        ensures
            final(self).wf(),
            final(self)@ == old(self)@.insert(k@, v),
    {
        let ghost s0 = self.entries@;
        let ghost m0 = entries_map(s0);
        match self.find(k) {
            Some(i) => {
                self.entries.remove(i);
                proof {
                    lemma_remove_at(s0, i as int);
                }
            },
            None => {
                proof {
                    assert(entries_map(s0).remove(k@) =~= m0);
                }
            },
        }
        let ghost s1 = self.entries@;
        let key = String::from_str(k);
        let ghost e = (key, v);
        self.entries.push((key, v));
        proof {
            lemma_push_new(s1, e);
            assert(entries_map(self.entries@) =~= m0.insert(k@, v));
        }
    }

    /// Removes `k`, giving back its value.
    pub fn remove(&mut self, k: &str) -> (r: Option<V>)
        requires
            old(self).wf(),
        ensures
            final(self).wf(),
            final(self)@ == old(self)@.remove(k@),
            match r {
                Some(v) => old(self)@.contains_key(k@) && v == old(self)@[k@],
                None => !old(self)@.contains_key(k@),
            },
    {
        let ghost s0 = self.entries@;
        match self.find(k) {
            Some(i) => {
                proof {
                    lemma_entry(s0, i as int);
                    lemma_remove_at(s0, i as int);
                }
                let e = self.entries.remove(i);
                Some(e.1)
            },
            None => {
                proof {
                    assert(entries_map(s0).remove(k@) =~= entries_map(s0));
                }
                None
            },
        }
    }
}

/// Removing the entry at `i` removes its key from the map.
proof fn lemma_remove_at<V>(s: Seq<(String, V)>, i: int)
    requires
        distinct_keys(s),
        0 <= i < s.len(),
    ensures
        distinct_keys(s.remove(i)),
        entries_map(s.remove(i)) == entries_map(s).remove(s[i].0@),
{
    let t = s.remove(i);
    let k = s[i].0@;
    assert forall|a: int, b: int|
        0 <= a < t.len() && 0 <= b < t.len() && a != b implies (#[trigger] t[a]).0@ != (#[trigger] t[b]).0@ by {
        let a0 = if a < i { a } else { a + 1 };
        let b0 = if b < i { b } else { b + 1 };
        assert(t[a] == s[a0]);
        assert(t[b] == s[b0]);
    }
    let m = entries_map(s).remove(k);
    assert forall|x: Seq<char>| #[trigger] entries_map(t).contains_key(x) == m.contains_key(x) by {
        if key_in(t, x) {
            let a = choose|a: int| 0 <= a < t.len() && (#[trigger] t[a]).0@ == x;
            let a0 = if a < i { a } else { a + 1 };
            assert(t[a] == s[a0]);
            assert(key_in(s, x));
        }
        if key_in(s, x) && x != k {
            let a0 = choose|a: int| 0 <= a < s.len() && (#[trigger] s[a]).0@ == x;
            let a = if a0 < i { a0 } else { a0 - 1 };
            assert(t[a] == s[a0]);
            assert(key_in(t, x));
        }
    }
    assert forall|x: Seq<char>| #[trigger] entries_map(t).contains_key(x) implies entries_map(t)[x]
        == m[x] by {
        let a = choose|a: int| 0 <= a < t.len() && (#[trigger] t[a]).0@ == x;
        let a0 = if a < i { a } else { a + 1 };
        assert(t[a] == s[a0]);
        lemma_entry(t, a);
        lemma_entry(s, a0);
    }
    assert(entries_map(t) =~= m);
}

/// Appending an entry with a new key adds it to the map.
proof fn lemma_push_new<V>(s: Seq<(String, V)>, e: (String, V))
    requires
        distinct_keys(s),
        !key_in(s, e.0@),
    ensures
        distinct_keys(s.push(e)),
        entries_map(s.push(e)) == entries_map(s).insert(e.0@, e.1),
{
    let t = s.push(e);
    assert forall|a: int, b: int|
        0 <= a < t.len() && 0 <= b < t.len() && a != b implies (#[trigger] t[a]).0@ != (#[trigger] t[b]).0@ by {
        if a < s.len() {
            assert(t[a] == s[a]);
        }
        if b < s.len() {
            assert(t[b] == s[b]);
        }
    }
    let m = entries_map(s).insert(e.0@, e.1);
    assert forall|x: Seq<char>| #[trigger] entries_map(t).contains_key(x) == m.contains_key(x) by {
        if key_in(t, x) {
            let a = choose|a: int| 0 <= a < t.len() && (#[trigger] t[a]).0@ == x;
            if a < s.len() {
                assert(t[a] == s[a]);
                assert(key_in(s, x));
            }
        }
        if key_in(s, x) {
            let a = choose|a: int| 0 <= a < s.len() && (#[trigger] s[a]).0@ == x;
            assert(t[a] == s[a]);
            assert(key_in(t, x));
        }
        if x == e.0@ {
            assert(t[s.len() as int] == e);
            assert(key_in(t, x));
        }
    }
    assert forall|x: Seq<char>| #[trigger] entries_map(t).contains_key(x) implies entries_map(t)[x]
        == m[x] by {
        let a = choose|a: int| 0 <= a < t.len() && (#[trigger] t[a]).0@ == x;
        lemma_entry(t, a);
        if a < s.len() {
            assert(t[a] == s[a]);
            lemma_entry(s, a);
        }
    }
    assert(entries_map(t) =~= m);
}

/// A list of entries with distinct keys stands for a finite map with one key
/// per entry.
proof fn lemma_dom_len<V>(s: Seq<(String, V)>)
    requires
        distinct_keys(s),
    ensures
        entries_map(s).dom().finite(),
        entries_map(s).len() == s.len(),
    decreases s.len(),
{
    if s.len() == 0 {
        assert(entries_map(s).dom() =~= Set::<Seq<char>>::empty());
    } else {
        let t = s.drop_last();
        let e = s.last();
        assert(distinct_keys(t)) by {
            assert forall|a: int, b: int|
                0 <= a < t.len() && 0 <= b < t.len() && a != b implies (#[trigger] t[a]).0@ != (
                #[trigger] t[b]).0@ by {
                assert(t[a] == s[a]);
                assert(t[b] == s[b]);
            }
        }
        assert(!key_in(t, e.0@)) by {
            if key_in(t, e.0@) {
                let a = choose|a: int| 0 <= a < t.len() && (#[trigger] t[a]).0@ == e.0@;
                assert(t[a] == s[a]);
                assert(s[s.len() - 1] == e);
            }
        }
        lemma_dom_len(t);
        lemma_push_new(t, e);
        assert(t.push(e) =~= s);
    }
}

} // verus!
