//! A map from names, held in the order of the names.

use crate::text::chars::same;
use crate::text::order::{
    is_before, lemma_irreflexive, lemma_total, lemma_transitive, precedes,
};
use vstd::prelude::*;

verus! {

/// Values by name, in the order of the names.
#[derive(Debug)]
pub struct Names<V> {
    pub entries: Vec<(String, V)>,
}

/// The names ascend strictly.
pub open spec fn sorted<V>(s: Seq<(String, V)>) -> bool {
    forall|i: int, j: int|
        0 <= i < j < s.len() ==> precedes((#[trigger] s[i]).0@, (#[trigger] s[j]).0@)
}

/// `s` holds the name `k`.
pub open spec fn has_name<V>(s: Seq<(String, V)>, k: Seq<char>) -> bool {
    exists|i: int| 0 <= i < s.len() && (#[trigger] s[i]).0@ == k
}

/// A place at which `s` holds the name `k`.
pub open spec fn name_index<V>(s: Seq<(String, V)>, k: Seq<char>) -> int {
    choose|i: int| 0 <= i < s.len() && (#[trigger] s[i]).0@ == k
}

/// What `s` holds, as a map.
pub open spec fn name_map<V>(s: Seq<(String, V)>) -> Map<Seq<char>, V> {
    Map::new(|k: Seq<char>| has_name(s, k), |k: Seq<char>| s[name_index(s, k)].1)
}

impl<V> View for Names<V> {
    type V = Map<Seq<char>, V>;

    open spec fn view(&self) -> Map<Seq<char>, V> {
        name_map(self.entries@)
    }
}

/// Each entry is what the map holds under its name.
pub proof fn lemma_entry<V>(s: Seq<(String, V)>, i: int)
    requires
        sorted(s),
        0 <= i < s.len(),
    ensures
        name_map(s).contains_key(s[i].0@),
        name_map(s)[s[i].0@] == s[i].1,
        name_index(s, s[i].0@) == i,
{
    let k = s[i].0@;
    let j = name_index(s, k);
    assert(0 <= j < s.len() && s[j].0@ == k);
    lemma_irreflexive(k);
    assert(i == j) by {
        if i < j {
            assert(precedes(s[i].0@, s[j].0@));
        } else if j < i {
            assert(precedes(s[j].0@, s[i].0@));
        }
    }
}

/// A new value for a name that is there replaces the old one and leaves the names in order.
proof fn lemma_update<V>(s: Seq<(String, V)>, i: int, value: V)
    requires
        sorted(s),
        0 <= i < s.len(),
    ensures
        sorted(s.update(i, (s[i].0, value))),
        name_map(s.update(i, (s[i].0, value))) == name_map(s).insert(s[i].0@, value),
{
    let t = s.update(i, (s[i].0, value));
    assert(sorted(t)) by {
        assert forall|a: int, b: int| 0 <= a < b < t.len() implies precedes(
            (#[trigger] t[a]).0@,
            (#[trigger] t[b]).0@,
        ) by {
            assert(t[a].0 == s[a].0 && t[b].0 == s[b].0);
            assert(precedes(s[a].0@, s[b].0@));
        }
    }
    assert forall|k: Seq<char>| has_name(t, k) <==> has_name(s, k) || k == s[i].0@ by {
        if has_name(t, k) {
            assert(s[name_index(t, k)].0@ == k);
        }
        if has_name(s, k) {
            assert(t[name_index(s, k)].0@ == k);
        }
        assert(t[i].0@ == s[i].0@);
    }
    assert forall|k: Seq<char>| has_name(t, k) implies name_map(t)[k] == name_map(s).insert(
        s[i].0@,
        value,
    )[k] by {
        let a = name_index(t, k);
        lemma_entry(t, a);
        lemma_entry(t, i);
        lemma_entry(s, a);
    }
    assert(name_map(t) =~= name_map(s).insert(s[i].0@, value));
}

proof fn lemma_insert<V>(s: Seq<(String, V)>, i: int, key: String, value: V)
    requires
        sorted(s),
        0 <= i <= s.len(),
        forall|j: int| 0 <= j < i ==> precedes((#[trigger] s[j]).0@, key@),
        forall|j: int| i <= j < s.len() ==> precedes(key@, (#[trigger] s[j]).0@),
    ensures
        sorted(s.insert(i, (key, value))),
        name_map(s.insert(i, (key, value))) == name_map(s).insert(key@, value),
{
    let t = s.insert(i, (key, value));
    assert(sorted(t)) by {
        assert forall|a: int, b: int| 0 <= a < b < t.len() implies precedes(
            (#[trigger] t[a]).0@,
            (#[trigger] t[b]).0@,
        ) by {
            let c = if a < i { a } else { a - 1 };
            let d = if b < i { b } else { b - 1 };
            if a != i {
                assert(t[a] == s[c]);
            }
            if b != i {
                assert(t[b] == s[d]);
            }
            if a != i && b != i {
                assert(precedes(s[c].0@, s[d].0@));
            }
        }
    }
    assert forall|k: Seq<char>| has_name(t, k) <==> has_name(s, k) || k == key@ by {
        if has_name(t, k) && k != key@ {
            let a = name_index(t, k);
            let c = if a < i { a } else { a - 1 };
            assert(s[c].0@ == k);
        }
        if has_name(s, k) {
            let a = name_index(s, k);
            let c = if a < i { a } else { a + 1 };
            assert(t[c].0@ == k);
        }
        assert(t[i].0@ == key@);
    }
    assert forall|k: Seq<char>| has_name(t, k) implies name_map(t)[k] == name_map(s).insert(
        key@,
        value,
    )[k] by {
        let a = name_index(t, k);
        lemma_entry(t, a);
        lemma_entry(t, i);
        if k != key@ {
            let c = if a < i { a } else { a - 1 };
            assert(s[c] == t[a]);
            lemma_entry(s, c);
        }
    }
    assert(name_map(t) =~= name_map(s).insert(key@, value));
}

proof fn lemma_remove<V>(s: Seq<(String, V)>, i: int)
    requires
        sorted(s),
        0 <= i < s.len(),
    ensures
        sorted(s.remove(i)),
        name_map(s.remove(i)) == name_map(s).remove(s[i].0@),
{
    let t = s.remove(i);
    assert(sorted(t)) by {
        assert forall|a: int, b: int| 0 <= a < b < t.len() implies precedes(
            (#[trigger] t[a]).0@,
            (#[trigger] t[b]).0@,
        ) by {
            let c = if a < i { a } else { a + 1 };
            let d = if b < i { b } else { b + 1 };
            assert(t[a] == s[c] && t[b] == s[d]);
            assert(precedes(s[c].0@, s[d].0@));
        }
    }
    assert forall|k: Seq<char>| has_name(t, k) <==> has_name(s, k) && k != s[i].0@ by {
        if has_name(t, k) {
            let a = name_index(t, k);
            let c = if a < i { a } else { a + 1 };
            assert(s[c].0@ == k);
            lemma_entry(s, c);
            lemma_entry(s, i);
        }
        if has_name(s, k) && k != s[i].0@ {
            let a = name_index(s, k);
            let c = if a < i { a } else { a - 1 };
            assert(t[c].0@ == k);
        }
    }
    assert forall|k: Seq<char>| has_name(t, k) implies name_map(t)[k] == name_map(s)[k] by {
        let a = name_index(t, k);
        lemma_entry(t, a);
        let c = if a < i { a } else { a + 1 };
        assert(s[c] == t[a]);
        lemma_entry(s, c);
    }
    assert(name_map(t) =~= name_map(s).remove(s[i].0@));
}

impl<V> Names<V> {
    pub open spec fn wf(self) -> bool {
        sorted(self.entries@)
    }

    /// A map that holds nothing.
    pub fn new() -> (r: Self)
        ensures
            r.wf(),
            r.entries@.len() == 0,
            r@ == Map::<Seq<char>, V>::empty(),
    {
        let r = Names { entries: Vec::new() };
        assert(r@ =~= Map::<Seq<char>, V>::empty());
        r
    }

    /// The place of `name`, where the map holds it.
    pub fn position(&self, name: &str) -> (r: Option<usize>)
        requires
            self.wf(),
        ensures
            r is Some <==> self@.contains_key(name@),
            r matches Some(i) ==> i < self.entries@.len() && self.entries@[i as int].0@ == name@
                && self@[name@] == self.entries@[i as int].1,
    {
        let mut i: usize = 0;
        while i < self.entries.len()
            invariant
                self.wf(),
                i <= self.entries@.len(),
                forall|j: int| 0 <= j < i ==> (#[trigger] self.entries@[j]).0@ != name@,
            decreases self.entries.len() - i,
        {
            if same(self.entries[i].0.as_str(), name) {
                proof {
                    lemma_entry(self.entries@, i as int);
                }
                return Some(i);
            }
            i = i + 1;
        }
        None
    }

    /// What `name` is mapped to.
    pub fn get(&self, name: &str) -> (r: Option<&V>)
        requires
            self.wf(),
        ensures
            r is Some <==> self@.contains_key(name@),
            r matches Some(v) ==> *v == self@[name@],
    {
        match self.position(name) {
            Some(i) => Some(&self.entries[i].1),
            None => None,
        }
    }

    /// Whether the map holds `name`.
    pub fn contains_key(&self, name: &str) -> (r: bool)
        requires
            self.wf(),
        ensures
            r == self@.contains_key(name@),
    {
        self.position(name).is_some()
    }

    /// Maps `name` to `value`, in place of what it was mapped to before.
    pub fn insert(&mut self, name: String, value: V)
        requires
            old(self).wf(),
        ensures
            final(self).wf(),
            final(self)@ == old(self)@.insert(name@, value),
    {
        let ghost before = self.entries@;
        let ghost key = name@;
        let mut i: usize = 0;
        while i < self.entries.len() && is_before(self.entries[i].0.as_str(), name.as_str())
            invariant
                self.entries@ == before,
                sorted(before),
                key == name@,
                i <= before.len(),
                forall|j: int| 0 <= j < i ==> precedes((#[trigger] before[j]).0@, key),
            decreases self.entries.len() - i,
        {
            i = i + 1;
        }
        if i < self.entries.len() && same(self.entries[i].0.as_str(), name.as_str()) {
            proof {
                lemma_update(before, i as int, value);
            }
            let (kept, _) = self.entries.remove(i);
            self.entries.insert(i, (kept, value));
            assert(self.entries@ =~= before.update(i as int, (before[i as int].0, value)));
        } else {
            proof {
                assert forall|j: int| i <= j < before.len() implies precedes(
                    key,
                    (#[trigger] before[j]).0@,
                ) by {
                    lemma_total(key, before[i as int].0@);
                    if j > i {
                        assert(precedes(before[i as int].0@, before[j].0@));
                        lemma_transitive(key, before[i as int].0@, before[j].0@);
                    }
                }
                lemma_insert(before, i as int, name, value);
            }
            self.entries.insert(i, (name, value));
        }
    }

    /// Drops what `name` is mapped to, and hands it back.
    pub fn remove(&mut self, name: &str) -> (r: Option<V>)
        requires
            old(self).wf(),
        ensures
            final(self).wf(),
            final(self)@ == old(self)@.remove(name@),
            r is Some <==> old(self)@.contains_key(name@),
            r matches Some(v) ==> v == old(self)@[name@],
    {
        match self.position(name) {
            Some(i) => {
                proof {
                    lemma_remove(self.entries@, i as int);
                }
                let (_, value) = self.entries.remove(i);
                Some(value)
            },
            None => {
                assert(self@.remove(name@) =~= self@);
                None
            },
        }
    }
}

/// A map holds a name exactly where an entry has it, under the value of that entry, and the entries
/// stand in the order of the names.
pub proof fn value_is_that_of_its_entry<V>(s: Seq<(String, V)>, k: Seq<char>)
    requires
        sorted(s),
    ensures
        forall|i: int, j: int|
            0 <= i < j < s.len() ==> precedes((#[trigger] s[i]).0@, (#[trigger] s[j]).0@),
        name_map(s).contains_key(k) <==> exists|i: int|
            0 <= i < s.len() && (#[trigger] s[i]).0@ == k,
        forall|i: int| 0 <= i < s.len() ==> name_map(s)[(#[trigger] s[i]).0@] == s[i].1,
{
    assert forall|i: int| 0 <= i < s.len() implies name_map(s)[(#[trigger] s[i]).0@] == s[i].1 by {
        lemma_entry(s, i);
    }
}

} // verus!
