//! `NameMap`: a map from names to values whose entries are kept in the
//! order of their names, with each name at most once. It stands where a
//! `BTreeMap<String, V>` would: lookups by name, and a walk of the entries
//! in ascending name order.

use vstd::prelude::*;
use crate::text::{chars_lt, lemma_chars_lt_asymmetric, lemma_chars_lt_irreflexive, lemma_chars_lt_total, lemma_chars_lt_transitive, same_text, str_lt};

verus! {

/// Names in strictly ascending order (so none occurs twice).
pub open spec fn names_ascending<V>(s: Seq<(Seq<char>, V)>) -> bool {
    forall|i: int, j: int| 0 <= i < j < s.len() ==> chars_lt(#[trigger] s[i].0, #[trigger] s[j].0)
}

/// The value stored under `name` in an entry sequence, if any.
pub open spec fn lookup<V>(s: Seq<(Seq<char>, V)>, name: Seq<char>) -> Option<V> {
    if exists|i: int| 0 <= i < s.len() && s[i].0 == name {
        Some(s[choose|i: int| 0 <= i < s.len() && s[i].0 == name].1)
    } else {
        None
    }
}

/// The names of an entry sequence, in order.
pub open spec fn names_of<V>(s: Seq<(Seq<char>, V)>) -> Seq<Seq<char>> {
    s.map_values(|e: (Seq<char>, V)| e.0)
}

/// A map from names to values, walked in ascending name order.
#[derive(Debug)]
pub struct NameMap<V> {
    entries: Vec<(String, V)>,
}

impl<V> View for NameMap<V> {
    type V = Seq<(Seq<char>, V)>;

    closed spec fn view(&self) -> Seq<(Seq<char>, V)> {
        self.entries@.map_values(|e: (String, V)| (e.0@, e.1))
    }
}

/// In an ascending entry sequence the entry at `i` is the one `lookup` finds.
pub proof fn lemma_lookup_at<V>(s: Seq<(Seq<char>, V)>, i: int)
    requires
        names_ascending(s),
        0 <= i < s.len(),
    ensures
        lookup(s, s[i].0) == Some(s[i].1),
{
    let j = choose|j: int| 0 <= j < s.len() && s[j].0 == s[i].0;
    if j != i {
        if j < i {
            assert(chars_lt(s[j].0, s[i].0));
        } else {
            assert(chars_lt(s[i].0, s[j].0));
        }
        lemma_chars_lt_irreflexive(s[i].0);
    }
}

/// Two ascending entry sequences that agree on every lookup are equal.
pub proof fn lemma_ascending_unique<V>(s: Seq<(Seq<char>, V)>, t: Seq<(Seq<char>, V)>)
    requires
        names_ascending(s),
        names_ascending(t),
        forall|k: Seq<char>| lookup(s, k) == lookup(t, k),
    ensures
        s == t,
    decreases s.len() + t.len(),
{
    if s.len() == 0 && t.len() == 0 {
        assert(s =~= t);
    } else if s.len() == 0 {
        lemma_lookup_at(t, 0);
        assert(lookup(s, t[0].0) is None);
    } else if t.len() == 0 {
        lemma_lookup_at(s, 0);
        assert(lookup(t, s[0].0) is None);
    } else {
        // the first names agree: each is the least name of the other
        lemma_lookup_at(s, 0);
        lemma_lookup_at(t, 0);
        let a = s[0].0;
        let b = t[0].0;
        if a != b {
            lemma_chars_lt_total(a, b);
            if chars_lt(a, b) {
                // a is in t somewhere after position 0
                let j = choose|j: int| 0 <= j < t.len() && t[j].0 == a;
                if j > 0 {
                    assert(chars_lt(t[0].0, t[j].0));
                    lemma_chars_lt_asymmetric(a, b);
                } else {
                    assert(t[0].0 == a);
                }
            } else {
                let j = choose|j: int| 0 <= j < s.len() && s[j].0 == b;
                if j > 0 {
                    assert(chars_lt(s[0].0, s[j].0));
                    lemma_chars_lt_asymmetric(b, a);
                } else {
                    assert(s[0].0 == b);
                }
            }
        }
        let s1 = s.drop_first();
        let t1 = t.drop_first();
        assert forall|k: Seq<char>| lookup(s1, k) == lookup(t1, k) by {
            lemma_lookup_drop_first(s, k);
            lemma_lookup_drop_first(t, k);
        }
        lemma_ascending_unique(s1, t1);
        assert(s =~= seq![s[0]] + s1);
        assert(t =~= seq![t[0]] + t1);
    }
}

/// Looking up a name in an ascending sequence without its first entry.
pub proof fn lemma_lookup_drop_first<V>(s: Seq<(Seq<char>, V)>, k: Seq<char>)
    requires
        names_ascending(s),
        s.len() > 0,
    ensures
        lookup(s.drop_first(), k) == if k == s[0].0 {
            None
        } else {
            lookup(s, k)
        },
{
    let t = s.drop_first();
    if k == s[0].0 {
        if exists|i: int| 0 <= i < t.len() && t[i].0 == k {
            let i = choose|i: int| 0 <= i < t.len() && t[i].0 == k;
            assert(chars_lt(s[0].0, s[i + 1].0));
            lemma_chars_lt_irreflexive(k);
        }
    } else {
        if exists|i: int| 0 <= i < s.len() && s[i].0 == k {
            let i = choose|i: int| 0 <= i < s.len() && s[i].0 == k;
            assert(i > 0);
            assert(t[i - 1].0 == k);
            lemma_lookup_at(s, i);
            let tt = t;
            assert(names_ascending(tt)) by {
                assert forall|a: int, b: int| 0 <= a < b < tt.len() implies chars_lt(
                    #[trigger] tt[a].0,
                    #[trigger] tt[b].0,
                ) by {
                    assert(tt[a] == s[a + 1] && tt[b] == s[b + 1]);
                }
            }
            lemma_lookup_at(tt, i - 1);
        } else {
            if exists|i: int| 0 <= i < t.len() && t[i].0 == k {
                let i = choose|i: int| 0 <= i < t.len() && t[i].0 == k;
                assert(s[i + 1].0 == k);
            }
        }
    }
}

impl<V> NameMap<V> {
    #[verifier::type_invariant]
    closed spec fn inv(self) -> bool {
        names_ascending(self@)
    }

    /// An empty map.
    pub fn new() -> (r: Self)
        ensures
            r@ == Seq::<(Seq<char>, V)>::empty(),
    {
        let r = NameMap { entries: Vec::new() };
        assert(r@ =~= Seq::<(Seq<char>, V)>::empty());
        r
    }

    /// The number of entries; the entries are in strictly ascending name
    /// order.
    pub fn len(&self) -> (r: usize)
        ensures
            r == self@.len(),
            names_ascending(self@),
    {
        proof {
            use_type_invariant(self);
        }
        self.entries.len()
    }

    /// Whether the map has no entries.
    pub fn is_empty(&self) -> (r: bool)
        ensures
            r == (self@.len() == 0),
    {
        self.entries.len() == 0
    }

    /// The name of the `i`-th entry in ascending order.
    pub fn name_at(&self, i: usize) -> (r: &String)
        requires
            i < self@.len(),
        ensures
            r@ == self@[i as int].0,
    {
        &self.entries[i].0
    }

    /// The value of the `i`-th entry in ascending order.
    pub fn value_at(&self, i: usize) -> (r: &V)
        requires
            i < self@.len(),
        ensures
            *r == self@[i as int].1,
    {
        &self.entries[i].1
    }

    /// The position of `name`, if it is present.
    pub fn position(&self, name: &str) -> (r: Option<usize>)
        ensures
            match r {
                Some(i) => i < self@.len() && self@[i as int].0 == name@,
                None => forall|i: int| 0 <= i < self@.len() ==> self@[i].0 != name@,
            },
    {
        let mut i: usize = 0;
        while i < self.entries.len()
            invariant
                i <= self@.len(),
                self@.len() == self.entries@.len(),
                forall|j: int| 0 <= j < i ==> self@[j].0 != name@,
            decreases self@.len() - i,
        {
            if same_text(self.entries[i].0.as_str(), name) {
                return Some(i);
            }
            i = i + 1;
        }
        None
    }

    /// The value stored under `name`, if any.
    pub fn get(&self, name: &str) -> (r: Option<&V>)
        ensures
            match r {
                Some(v) => lookup(self@, name@) == Some(*v),
                None => lookup(self@, name@) is None,
            },
    {
        proof {
            use_type_invariant(self);
        }
        match self.position(name) {
            Some(i) => {
                proof {
                    lemma_lookup_at(self@, i as int);
                }
                Some(&self.entries[i].1)
            },
            None => None,
        }
    }

    /// The values in ascending name order, consuming the map.
    pub fn into_values(self) -> (r: Vec<V>)
        ensures
            r@ == self@.map_values(|e: (Seq<char>, V)| e.1),
    {
        let mut out: Vec<V> = Vec::new();
        let NameMap { mut entries } = self;
        let ghost ev = entries@;
        let mut rest: Vec<(String, V)> = Vec::new();
        // move the entries out back to front, then reverse
        while entries.len() > 0
            invariant
                entries@.len() + rest@.len() == ev.len(),
                forall|i: int| 0 <= i < entries@.len() ==> entries@[i] == ev[i],
                forall|i: int| 0 <= i < rest@.len() ==> rest@[i] == ev[ev.len() - 1 - i],
            decreases entries@.len(),
        {
            let e = entries.pop().unwrap();
            rest.push(e);
        }
        while rest.len() > 0
            invariant
                rest@.len() + out@.len() == ev.len(),
                forall|i: int| 0 <= i < rest@.len() ==> rest@[i] == ev[ev.len() - 1 - i],
                forall|i: int| 0 <= i < out@.len() ==> out@[i] == ev[i].1,
            decreases rest@.len(),
        {
            let (_, v) = rest.pop().unwrap();
            out.push(v);
        }
        assert(out@ =~= self@.map_values(|e: (Seq<char>, V)| e.1));
        out
    }

    /// Whether `name` has an entry.
    pub fn contains(&self, name: &str) -> (r: bool)
        ensures
            r == (lookup(self@, name@) is Some),
    {
        self.get(name).is_some()
    }

    /// Stores `value` under `name`, replacing the value stored there before.
    pub fn insert(&mut self, name: String, value: V)
        ensures
            names_ascending(final(self)@),
            forall|k: Seq<char>|
                lookup(final(self)@, k) == if k == name@ {
                    Some(value)
                } else {
                    lookup(old(self)@, k)
                },
    {
        proof {
            use_type_invariant(&*self);
        }
        let ghost old_view = self@;
        let mut entries: Vec<(String, V)> = Vec::new();
        std::mem::swap(&mut entries, &mut self.entries);
        let ghost ev = entries@.map_values(|e: (String, V)| (e.0@, e.1));
        assert(ev == old_view);
        // find the first entry whose name is not below `name`
        let mut i: usize = 0;
        while i < entries.len()
            invariant
                i <= entries@.len(),
                ev == entries@.map_values(|e: (String, V)| (e.0@, e.1)),
                names_ascending(ev),
                forall|j: int| 0 <= j < i ==> chars_lt(#[trigger] ev[j].0, name@),
            ensures
                i <= entries@.len(),
                forall|j: int| 0 <= j < i ==> chars_lt(#[trigger] ev[j].0, name@),
                i < entries@.len() ==> !chars_lt(ev[i as int].0, name@),
            decreases entries@.len() - i,
        {
            if !str_lt(entries[i].0.as_str(), name.as_str()) {
                break;
            }
            i = i + 1;
        }
        let found = i < entries.len() && same_text(entries[i].0.as_str(), name.as_str());
        let ghost k0 = name@;
        let ghost v0 = value;
        if found {
            entries.set(i, (name, value));
        } else {
            entries.insert(i, (name, value));
        }
        let ghost nv = entries@.map_values(|e: (String, V)| (e.0@, e.1));
        proof {
            if found {
                assert(nv =~= ev.update(i as int, (k0, v0)));
                assert(names_ascending(nv)) by {
                    assert forall|a: int, b: int| 0 <= a < b < nv.len() implies chars_lt(
                        #[trigger] nv[a].0,
                        #[trigger] nv[b].0,
                    ) by {
                        assert(ev[a].0 == nv[a].0 || a == i);
                        assert(ev[b].0 == nv[b].0 || b == i);
                        assert(ev[i as int].0 == k0);
                        assert(chars_lt(ev[a].0, ev[b].0));
                    }
                }
                assert forall|k: Seq<char>|
                    lookup(nv, k) == if k == k0 {
                        Some(v0)
                    } else {
                        lookup(ev, k)
                    } by {
                    lemma_lookup_at(nv, i as int);
                    if k != k0 {
                        if exists|j: int| 0 <= j < ev.len() && ev[j].0 == k {
                            let j = choose|j: int| 0 <= j < ev.len() && ev[j].0 == k;
                            lemma_lookup_at(ev, j);
                            lemma_lookup_at(nv, j);
                        } else {
                            if exists|j: int| 0 <= j < nv.len() && nv[j].0 == k {
                                let j = choose|j: int| 0 <= j < nv.len() && nv[j].0 == k;
                                assert(ev[j].0 == k);
                            }
                        }
                    }
                }
            } else {
                assert(nv =~= ev.insert(i as int, (k0, v0)));
                assert(i < ev.len() ==> chars_lt(k0, ev[i as int].0)) by {
                    if i < ev.len() {
                        assert(!chars_lt(ev[i as int].0, k0));
                        assert(ev[i as int].0 != k0);
                        lemma_chars_lt_total(ev[i as int].0, k0);
                    }
                }
                assert(names_ascending(nv)) by {
                    assert forall|a: int, b: int| 0 <= a < b < nv.len() implies chars_lt(
                        #[trigger] nv[a].0,
                        #[trigger] nv[b].0,
                    ) by {
                        if a < i && b < i {
                            assert(nv[a] == ev[a] && nv[b] == ev[b]);
                        } else if a < i && b == i {
                            assert(nv[a] == ev[a]);
                        } else if a < i && b > i {
                            assert(nv[a] == ev[a] && nv[b] == ev[b - 1]);
                            assert(chars_lt(ev[a].0, k0));
                            assert(chars_lt(k0, ev[i as int].0));
                            lemma_chars_lt_transitive(ev[a].0, k0, ev[i as int].0);
                            if b - 1 > i {
                                lemma_chars_lt_transitive(ev[a].0, ev[i as int].0, ev[b - 1].0);
                            }
                        } else if a == i {
                            assert(nv[b] == ev[b - 1]);
                            if b - 1 > i {
                                lemma_chars_lt_transitive(k0, ev[i as int].0, ev[b - 1].0);
                            }
                        } else {
                            assert(nv[a] == ev[a - 1] && nv[b] == ev[b - 1]);
                        }
                    }
                }
                assert forall|k: Seq<char>|
                    lookup(nv, k) == if k == k0 {
                        Some(v0)
                    } else {
                        lookup(ev, k)
                    } by {
                    lemma_lookup_at(nv, i as int);
                    if k != k0 {
                        if exists|j: int| 0 <= j < ev.len() && ev[j].0 == k {
                            let j = choose|j: int| 0 <= j < ev.len() && ev[j].0 == k;
                            lemma_lookup_at(ev, j);
                            if j < i {
                                assert(nv[j] == ev[j]);
                                lemma_lookup_at(nv, j);
                            } else {
                                assert(nv[j + 1] == ev[j]);
                                lemma_lookup_at(nv, j + 1);
                            }
                        } else {
                            if exists|j: int| 0 <= j < nv.len() && nv[j].0 == k {
                                let j = choose|j: int| 0 <= j < nv.len() && nv[j].0 == k;
                                if j < i {
                                    assert(ev[j].0 == k);
                                } else {
                                    assert(j != i);
                                    assert(ev[j - 1].0 == k);
                                }
                            }
                        }
                    }
                }
            }
        }
        self.entries = entries;
    }
}

} // verus!
