//! A map keyed by text, kept as a list of entries in insertion order.

use crate::text::text_eq;
use vstd::prelude::*;

verus! {

/// Index of the first entry at or after `i` whose key is `k`.
pub open spec fn key_index_from<V>(s: Seq<(Seq<char>, V)>, k: Seq<char>, i: int) -> Option<int>
    decreases s.len() - i,
{
    if i < 0 || i >= s.len() {
        None
    } else if s[i].0 == k {
        Some(i)
    } else {
        key_index_from(s, k, i + 1)
    }
}

/// Index of the first entry whose key is `k`.
pub open spec fn key_index<V>(s: Seq<(Seq<char>, V)>, k: Seq<char>) -> Option<int> {
    key_index_from(s, k, 0)
}

/// The value stored under `k`.
pub open spec fn lookup<V>(s: Seq<(Seq<char>, V)>, k: Seq<char>) -> Option<V> {
    match key_index(s, k) {
        Some(i) => Some(s[i].1),
        None => None,
    }
}

/// `s` with `k` bound to `v`: the entry of `k` replaced in place, or a new
/// entry at the end.
pub open spec fn upsert<V>(s: Seq<(Seq<char>, V)>, k: Seq<char>, v: V) -> Seq<(Seq<char>, V)> {
    match key_index(s, k) {
        Some(i) => s.update(i, (k, v)),
        None => s.push((k, v)),
    }
}

/// The keys of `s`, in order.
pub open spec fn keys_of<V>(s: Seq<(Seq<char>, V)>) -> Seq<Seq<char>> {
    s.map_values(|e: (Seq<char>, V)| e.0)
}

/// No key occurs twice.
pub open spec fn distinct_keys<V>(s: Seq<(Seq<char>, V)>) -> bool {
    forall|i: int, j: int| 0 <= i < j < s.len() ==> s[i].0 != s[j].0
}

pub proof fn lemma_key_index_from<V>(s: Seq<(Seq<char>, V)>, k: Seq<char>, i: int)
    requires
        0 <= i,
    ensures
        key_index_from(s, k, i) matches Some(j) ==> i <= j < s.len() && s[j].0 == k && forall|
            t: int,
        |
            i <= t < j ==> s[t].0 != k,
        key_index_from(s, k, i) is None ==> forall|t: int| i <= t < s.len() ==> s[t].0 != k,
    decreases s.len() - i,
{
    if i < s.len() && s[i].0 != k {
        lemma_key_index_from(s, k, i + 1);
    }
}

/// Looking a key up right after binding it gives the bound value.
pub proof fn lemma_lookup_upsert<V>(s: Seq<(Seq<char>, V)>, k: Seq<char>, v: V)
    ensures
        lookup(upsert(s, k, v), k) == Some(v),
{
    lemma_key_index_from(s, k, 0);
    let u = upsert(s, k, v);
    lemma_key_index_from(u, k, 0);
    if let Some(j) = key_index_from(u, k, 0) {
        match key_index(s, k) {
            Some(i) => {
                if j < i {
                    assert(u[j].0 == s[j].0);
                }
                if i < j {
                    assert(u[i].0 == k);
                }
            },
            None => {
                if j < s.len() {
                    assert(u[j].0 == s[j].0);
                }
            },
        }
    } else {
        match key_index(s, k) {
            Some(i) => assert(u[i].0 == k),
            None => assert(u[s.len() as int].0 == k),
        }
    }
}

/// Binding a key keeps the keys distinct.
pub proof fn lemma_upsert_distinct<V>(s: Seq<(Seq<char>, V)>, k: Seq<char>, v: V)
    requires
        distinct_keys(s),
    ensures
        distinct_keys(upsert(s, k, v)),
{
    lemma_key_index_from(s, k, 0);
    let u = upsert(s, k, v);
    match key_index(s, k) {
        Some(i) => {
            assert forall|a: int, b: int| 0 <= a < b < u.len() implies u[a].0 != u[b].0 by {
                assert(u[a].0 == s[a].0);
                assert(u[b].0 == s[b].0);
            }
        },
        None => {
            assert forall|a: int, b: int| 0 <= a < b < u.len() implies u[a].0 != u[b].0 by {
                assert(u[a].0 == s[a].0);
                if b < s.len() {
                    assert(u[b].0 == s[b].0);
                }
            }
        },
    }
}

/// A map keyed by text; each key occurs once.
pub struct TextMap<V> {
    entries: Vec<(String, V)>,
}

impl<V> TextMap<V> {
    /// The entries, in insertion order.
    pub closed spec fn view(&self) -> Seq<(Seq<char>, V)> {
        self.entries@.map_values(|e: (String, V)| (e.0@, e.1))
    }

    pub open spec fn wf(&self) -> bool {
        distinct_keys(self.view())
    }

    pub fn new() -> (r: Self)
        ensures
            r.view() == Seq::<(Seq<char>, V)>::empty(),
            r.wf(),
    {
        let r = TextMap { entries: Vec::new() };
        assert(r.view() =~= Seq::<(Seq<char>, V)>::empty());
        r
    }

    /// Index of the entry of `k`.
    fn position(&self, k: &str) -> (r: Option<usize>)
        ensures
            r matches Some(i) ==> key_index(self.view(), k@) == Some(i as int) && i
                < self.entries@.len(),
            r is None ==> key_index(self.view(), k@) is None,
    {
        proof {
            lemma_key_index_from(self.view(), k@, 0);
        }
        let n = self.entries.len();
        let mut i: usize = 0;
        while i < n
            invariant
                n == self.entries@.len(),
                i <= n,
                key_index(self.view(), k@) == key_index_from(self.view(), k@, i as int),
            decreases n - i,
        {
            assert(self.view()[i as int].0 == self.entries@[i as int].0@);
            if text_eq(self.entries[i].0.as_str(), k) {
                return Some(i);
            }
            i = i + 1;
        }
        None
    }

    /// The value stored under `k`.
    pub fn get(&self, k: &str) -> (r: Option<&V>)
        ensures
            r matches Some(v) ==> lookup(self.view(), k@) == Some(*v),
            r is None ==> lookup(self.view(), k@) is None,
    {
        match self.position(k) {
            Some(i) => {
                assert(self.view()[i as int].1 == self.entries@[i as int].1);
                Some(&self.entries[i].1)
            },
            None => None,
        }
    }

    /// Binds `k` to `v`, replacing an earlier value of `k`.
    pub fn insert(&mut self, k: String, v: V)
        requires
            old(self).wf(),
        ensures
            final(self).view() == upsert(old(self).view(), k@, v),
            final(self).wf(),
    {
        proof {
            lemma_upsert_distinct(self.view(), k@, v);
        }
        let ghost before = self.view();
        match self.position(k.as_str()) {
            Some(i) => {
                self.entries.set(i, (k, v));
                assert(self.view() =~= before.update(i as int, (k@, v)));
            },
            None => {
                self.entries.push((k, v));
                assert(self.view() =~= before.push((k@, v)));
            },
        }
    }

    /// Removes every entry.
    pub fn clear(&mut self)
        ensures
            final(self).view() == Seq::<(Seq<char>, V)>::empty(),
            final(self).wf(),
    {
        self.entries.clear();
        assert(self.view() =~= Seq::<(Seq<char>, V)>::empty());
    }

    /// The keys, in insertion order.
    pub fn keys(&self) -> (r: Vec<String>)
        ensures
            r@.map_values(|s: String| s@) == keys_of(self.view()),
    {
        let n = self.entries.len();
        let mut out: Vec<String> = Vec::new();
        let mut i: usize = 0;
        while i < n
            invariant
                n == self.entries@.len(),
                i <= n,
                out@.map_values(|s: String| s@) == keys_of(self.view()).subrange(0, i as int),
            decreases n - i,
        {
            let ghost before = out@;
            let key = self.entries[i].0.clone();
            assert(key@ == self.view()[i as int].0);
            out.push(key);
            assert(out@.map_values(|s: String| s@) =~= before.map_values(|s: String| s@).push(
                key@,
            ));
            assert(out@.map_values(|s: String| s@) =~= keys_of(self.view()).subrange(
                0,
                i + 1,
            ));
            i = i + 1;
        }
        assert(keys_of(self.view()).subrange(0, n as int) =~= keys_of(self.view()));
        out
    }

    /// The entries, in insertion order.
    pub fn entries(&self) -> (r: &Vec<(String, V)>)
        ensures
            r@.map_values(|e: (String, V)| (e.0@, e.1)) == self.view(),
    {
        &self.entries
    }
}

} // verus!
