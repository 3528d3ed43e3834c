//! The per-document store of pushed diagnostics, and the set of open documents.
use vstd::prelude::*;

use crate::json::{items_view, json_view, lemma_items_view, text_eq, Json, JsonV};

verus! {

/// The diagnostics stored under `k`: those of the last entry with that key.
pub open spec fn cache_lookup(s: Seq<(String, Vec<Json>)>, k: Seq<char>) -> Option<Seq<JsonV>>
    decreases s.len(),
{
    if s.len() == 0 {
        None
    } else if s.last().0@ == k {
        Some(items_view(s.last().1@))
    } else {
        cache_lookup(s.drop_last(), k)
    }
}

pub open spec fn unique_keys(s: Seq<(String, Vec<Json>)>) -> bool {
    forall|i: int, j: int| 0 <= i < s.len() && 0 <= j < s.len() && i != j ==> s[i].0@ != s[j].0@
}

proof fn lemma_cache_lookup(s: Seq<(String, Vec<Json>)>, k: Seq<char>)
    requires
        unique_keys(s),
    ensures
        forall|i: int| 0 <= i < s.len() && s[i].0@ == k ==> cache_lookup(s, k) == Some(items_view(s[i].1@)),
        (forall|i: int| 0 <= i < s.len() ==> s[i].0@ != k) ==> cache_lookup(s, k) is None,
    decreases s.len(),
{
    if s.len() > 0 {
        let t = s.drop_last();
        assert(unique_keys(t)) by {
            assert forall|i: int, j: int| 0 <= i < t.len() && 0 <= j < t.len() && i != j implies t[i].0@ != t[j].0@ by {
                assert(t[i] == s[i] && t[j] == s[j]);
            }
        }
        lemma_cache_lookup(t, k);
        if s.last().0@ != k {
            assert forall|i: int| 0 <= i < s.len() && s[i].0@ == k implies cache_lookup(s, k) == Some(items_view(s[i].1@)) by {
                assert(i < s.len() - 1);
                assert(t[i] == s[i]);
            }
            assert((forall|i: int| 0 <= i < s.len() ==> s[i].0@ != k) ==> (forall|i: int| 0 <= i < t.len() ==> t[i].0@ != k)) by {
                if forall|i: int| 0 <= i < s.len() ==> s[i].0@ != k {
                    assert forall|i: int| 0 <= i < t.len() implies t[i].0@ != k by {
                        assert(t[i] == s[i]);
                    }
                }
            }
        }
    }
}

/// The most recent diagnostics that the engine pushed, per document.
pub struct DiagnosticsCache {
    entries: Vec<(String, Vec<Json>)>,
}

impl View for DiagnosticsCache {
    type V = Map<Seq<char>, Seq<JsonV>>;

    closed spec fn view(&self) -> Map<Seq<char>, Seq<JsonV>> {
        Map::new(
            |k: Seq<char>| cache_lookup(self.entries@, k) is Some,
            |k: Seq<char>| cache_lookup(self.entries@, k)->0,
        )
    }
}

impl DiagnosticsCache {
    pub closed spec fn wf(&self) -> bool {
        unique_keys(self.entries@)
    }

    pub fn new() -> (r: Self)
        ensures
            r.wf(),
            r@ == Map::<Seq<char>, Seq<JsonV>>::empty(),
    {
        let r = DiagnosticsCache { entries: Vec::new() };
        assert(r@ =~= Map::<Seq<char>, Seq<JsonV>>::empty());
        r
    }

    fn find(&self, uri: &str) -> (r: Option<usize>)
        ensures
            match r {
                Some(i) => i < self.entries@.len() && self.entries@[i as int].0@ == uri@,
                None => forall|i: int| 0 <= i < self.entries@.len() ==> self.entries@[i].0@ != uri@,
            },
    {
        let mut i: usize = 0;
        while i < self.entries.len()
            invariant
                0 <= i <= self.entries@.len(),
                forall|j: int| 0 <= j < i ==> self.entries@[j].0@ != uri@,
            decreases self.entries@.len() - i,
        {
            if text_eq(self.entries[i].0.as_str(), uri) {
                return Some(i);
            }
            i = i + 1;
        }
        None
    }

    /// Stores `diagnostics` for `uri`, in place of whatever was stored for it.
    pub fn store(&mut self, uri: String, diagnostics: Vec<Json>)
        requires
            old(self).wf(),
        ensures
            final(self).wf(),
            final(self)@ == old(self)@.insert(uri@, items_view(diagnostics@)),
    {
        let ghost d = items_view(diagnostics@);
        let ghost u = uri@;
        let ghost idx: int;
        match self.find(uri.as_str()) {
            Some(i) => {
                self.entries.set(i, (uri, diagnostics));
                proof {
                    idx = i as int;
                }
            },
            None => {
                self.entries.push((uri, diagnostics));
                proof {
                    idx = old(self).entries@.len() as int;
                }
            },
        }
        assert(self.entries@[idx].0@ == u && items_view(self.entries@[idx].1@) == d);
        let ghost s = self.entries@;
        let ghost o = old(self).entries@;
        assert(unique_keys(s)) by {
            assert forall|a: int, b: int| 0 <= a < s.len() && 0 <= b < s.len() && a != b implies s[a].0@ != s[b].0@ by {
                if a < o.len() && b < o.len() {
                    if s[a].0@ == u || s[b].0@ == u {
                    }
                }
            }
        }
        assert forall|k: Seq<char>| true implies cache_lookup(s, k) == if k == u {
            Some(d)
        } else {
            cache_lookup(o, k)
        } by {
            lemma_cache_lookup(s, k);
            lemma_cache_lookup(o, k);
            if k != u {
                if exists|i: int| 0 <= i < o.len() && o[i].0@ == k {
                    let i = choose|i: int| 0 <= i < o.len() && o[i].0@ == k;
                    assert(s[i] == o[i]);
                } else {
                    assert forall|i: int| 0 <= i < s.len() implies s[i].0@ != k by {
                        if i < o.len() {
                            assert(o[i].0@ != k);
                        }
                    }
                }
            } else {
                assert(s[idx].0@ == k);
            }
        }
        assert(self@ =~= old(self)@.insert(uri@, d));
    }

    /// Forgets what was stored for `uri`.
    pub fn clear(&mut self, uri: &str)
        requires
            old(self).wf(),
        ensures
            final(self).wf(),
            final(self)@ == old(self)@.remove(uri@),
    {
        let ghost o = self.entries@;
        match self.find(uri) {
            Some(i) => {
                self.entries.remove(i);
                let ghost s = self.entries@;
                assert forall|j: int| 0 <= j < s.len() implies s[j] == (if j < i { o[j] } else { o[j + 1] }) by {}
                assert(unique_keys(s)) by {
                    assert forall|a: int, b: int| 0 <= a < s.len() && 0 <= b < s.len() && a != b implies s[a].0@ != s[b].0@ by {
                        let a2 = if a < i { a } else { a + 1 };
                        let b2 = if b < i { b } else { b + 1 };
                        assert(s[a] == o[a2] && s[b] == o[b2]);
                    }
                }
                assert forall|k: Seq<char>| true implies cache_lookup(s, k) == if k == uri@ {
                    None
                } else {
                    cache_lookup(o, k)
                } by {
                    lemma_cache_lookup(s, k);
                    lemma_cache_lookup(o, k);
                    if k == uri@ {
                        assert forall|j: int| 0 <= j < s.len() implies s[j].0@ != k by {
                            let j2 = if j < i { j } else { j + 1 };
                            assert(s[j] == o[j2]);
                        }
                    } else {
                        if exists|j: int| 0 <= j < o.len() && o[j].0@ == k {
                            let j = choose|j: int| 0 <= j < o.len() && o[j].0@ == k;
                            assert(j != i);
                            let j2 = if j < i { j } else { j - 1 };
                            assert(s[j2] == o[j]);
                        } else {
                            assert forall|j: int| 0 <= j < s.len() implies s[j].0@ != k by {
                                let j2 = if j < i { j } else { j + 1 };
                                assert(s[j] == o[j2]);
                            }
                        }
                    }
                }
            },
            None => {
                assert forall|k: Seq<char>| true implies cache_lookup(o, k) == if k == uri@ {
                    None
                } else {
                    cache_lookup(o, k)
                } by {
                    lemma_cache_lookup(o, k);
                }
            },
        }
        assert(self@ =~= old(self)@.remove(uri@));
    }

    /// Forgets everything stored.
    pub fn clear_all(&mut self)
        ensures
            final(self).wf(),
            final(self)@ == Map::<Seq<char>, Seq<JsonV>>::empty(),
    {
        self.entries = Vec::new();
        assert(self@ =~= Map::<Seq<char>, Seq<JsonV>>::empty());
    }

    /// The diagnostics stored for `uri`, if any.
    pub fn lookup(&self, uri: &str) -> (r: Option<&Vec<Json>>)
        requires
            self.wf(),
        ensures
            match r {
                Some(v) => self@.contains_key(uri@) && self@[uri@] == items_view(v@),
                None => !self@.contains_key(uri@),
            },
    {
        proof {
            lemma_cache_lookup(self.entries@, uri@);
        }
        match self.find(uri) {
            Some(i) => Some(&self.entries[i].1),
            None => None,
        }
    }
}

/// Storing twice under one document keeps only the second set: the first is replaced,
/// not merged.
pub proof fn lemma_replace_not_merge(
    m: Map<Seq<char>, Seq<JsonV>>,
    uri: Seq<char>,
    first: Seq<JsonV>,
    second: Seq<JsonV>,
)
    ensures
        m.insert(uri, first).insert(uri, second) == m.insert(uri, second),
        m.insert(uri, first).insert(uri, second)[uri] == second,
{
    assert(m.insert(uri, first).insert(uri, second) =~= m.insert(uri, second));
}

/// Whether some string of `s` reads `k`.
pub open spec fn holds(s: Seq<String>, k: Seq<char>) -> bool {
    exists|j: int| 0 <= j < s.len() && s[j]@ == k
}

proof fn lemma_holds_push(s: Seq<String>, x: String)
    ensures
        forall|k: Seq<char>| #[trigger] holds(s.push(x), k) == (holds(s, k) || x@ == k),
{
    assert forall|k: Seq<char>| #[trigger] holds(s.push(x), k) == (holds(s, k) || x@ == k) by {
        if holds(s, k) {
            let j = choose|j: int| 0 <= j < s.len() && s[j]@ == k;
            assert(s.push(x)[j] == s[j]);
        }
        if x@ == k {
            assert(s.push(x)[s.len() as int] == x);
        }
        if holds(s.push(x), k) {
            let j = choose|j: int| 0 <= j < s.push(x).len() && s.push(x)[j]@ == k;
            if j < s.len() {
                assert(s[j] == s.push(x)[j]);
            }
        }
    }
}

/// The documents that have been announced to the engine.
pub struct OpenDocuments {
    uris: Vec<String>,
}

impl View for OpenDocuments {
    type V = Set<Seq<char>>;

    closed spec fn view(&self) -> Set<Seq<char>> {
        Set::new(|k: Seq<char>| exists|i: int| 0 <= i < self.uris@.len() && self.uris@[i]@ == k)
    }
}

impl OpenDocuments {
    pub fn new() -> (r: Self)
        ensures
            r@ == Set::<Seq<char>>::empty(),
    {
        let r = OpenDocuments { uris: Vec::new() };
        assert(r@ =~= Set::<Seq<char>>::empty());
        r
    }

    pub fn contains(&self, uri: &str) -> (r: bool)
        ensures
            r == self@.contains(uri@),
    {
        let mut i: usize = 0;
        while i < self.uris.len()
            invariant
                0 <= i <= self.uris@.len(),
                forall|j: int| 0 <= j < i ==> self.uris@[j]@ != uri@,
            decreases self.uris@.len() - i,
        {
            if text_eq(self.uris[i].as_str(), uri) {
                return true;
            }
            i = i + 1;
        }
        false
    }

    /// Marks `uri` open.
    pub fn insert(&mut self, uri: String)
        ensures
            final(self)@ == old(self)@.insert(uri@),
    {
        let ghost u = uri@;
        if !self.contains(uri.as_str()) {
            self.uris.push(uri);
            assert forall|k: Seq<char>| final(self)@.contains(k) == old(self)@.insert(u).contains(k) by {
                if old(self)@.contains(k) {
                    let i = choose|i: int| 0 <= i < old(self).uris@.len() && old(self).uris@[i]@ == k;
                    assert(self.uris@[i] == old(self).uris@[i]);
                }
                if k == u {
                    assert(self.uris@[self.uris@.len() - 1]@ == u);
                }
            }
        } else {
            assert(old(self)@.contains(u));
        }
        assert(self@ =~= old(self)@.insert(u));
    }

    /// Marks `uri` closed.
    pub fn remove(&mut self, uri: &str)
        ensures
            final(self)@ == old(self)@.remove(uri@),
    {
        let mut kept: Vec<String> = Vec::new();
        let mut i: usize = 0;
        while i < self.uris.len()
            invariant
                0 <= i <= self.uris@.len(),
                forall|k: Seq<char>|
                    #[trigger] holds(kept@, k) <==> (k != uri@ && holds(self.uris@.subrange(0, i as int), k)),
            decreases self.uris@.len() - i,
        {
            let ghost before = kept@;
            let ghost seen = self.uris@.subrange(0, i as int);
            let ghost next = self.uris@.subrange(0, i + 1);
            let ghost u = self.uris@[i as int];
            proof {
                assert(next =~= seen.push(u));
                lemma_holds_push(seen, u);
            }
            if !text_eq(self.uris[i].as_str(), uri) {
                let c = self.uris[i].clone();
                kept.push(c);
                proof {
                    assert(kept@ =~= before.push(u));
                    lemma_holds_push(before, u);
                }
            }
            i = i + 1;
        }
        assert(self.uris@.subrange(0, self.uris@.len() as int) =~= self.uris@);
        self.uris = kept;
        assert(self@ =~= old(self)@.remove(uri@)) by {
            assert forall|k: Seq<char>| self@.contains(k) == holds(self.uris@, k) by {}
            assert forall|k: Seq<char>| old(self)@.contains(k) == holds(old(self).uris@, k) by {}
        }
    }

    /// Marks every document closed.
    pub fn clear(&mut self)
        ensures
            final(self)@ == Set::<Seq<char>>::empty(),
    {
        self.uris = Vec::new();
        assert(self@ =~= Set::<Seq<char>>::empty());
    }

    /// The open documents.
    pub fn uris(&self) -> (r: Vec<String>)
        ensures
            forall|k: Seq<char>| self@.contains(k) <==> exists|i: int| 0 <= i < r@.len() && r@[i]@ == k,
    {
        let r = self.uris.clone();
        assert(r@ == self.uris@) by {
            assert(r@ =~= self.uris@);
        }
        r
    }
}

} // verus!
