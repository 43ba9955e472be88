//! A map from numbers, held in ascending order.

use vstd::prelude::*;

verus! {

/// Values by number, in ascending order of the numbers.
#[derive(Debug)]
pub struct Levels<V> {
    pub entries: Vec<(u64, V)>,
}

/// The numbers ascend strictly.
pub open spec fn ascending<V>(s: Seq<(u64, V)>) -> bool {
    forall|i: int, j: int| 0 <= i < j < s.len() ==> (#[trigger] s[i]).0 < (#[trigger] s[j]).0
}

/// `s` holds the number `k`.
pub open spec fn has_level<V>(s: Seq<(u64, V)>, k: u64) -> bool {
    exists|i: int| 0 <= i < s.len() && (#[trigger] s[i]).0 == k
}

/// A place at which `s` holds the number `k`.
pub open spec fn level_index<V>(s: Seq<(u64, V)>, k: u64) -> int {
    choose|i: int| 0 <= i < s.len() && (#[trigger] s[i]).0 == k
}

/// What `s` holds, as a map.
pub open spec fn level_map<V>(s: Seq<(u64, V)>) -> Map<u64, V> {
    Map::new(|k: u64| has_level(s, k), |k: u64| s[level_index(s, k)].1)
}

impl<V> View for Levels<V> {
    type V = Map<u64, V>;

    open spec fn view(&self) -> Map<u64, V> {
        level_map(self.entries@)
    }
}

proof fn lemma_lookup<V>(s: Seq<(u64, V)>, i: int)
    requires
        ascending(s),
        0 <= i < s.len(),
    ensures
        level_map(s).contains_key(s[i].0),
        level_map(s)[s[i].0] == s[i].1,
{
    let j = level_index(s, s[i].0);
    assert(0 <= j < s.len() && s[j].0 == s[i].0);
    assert(i == j) by {
        if i < j {
            assert(s[i].0 < s[j].0);
        } else if j < i {
            assert(s[j].0 < s[i].0);
        }
    }
}

/// `after` is `before` with `value` at the place `i` of `key`.
spec fn placed<V>(
    before: Seq<(u64, V)>,
    after: Seq<(u64, V)>,
    i: int,
    key: u64,
    value: V,
) -> bool {
    &&& ascending(before)
    &&& 0 <= i <= before.len()
    &&& forall|j: int| 0 <= j < i ==> (#[trigger] before[j]).0 < key
    &&& if i < before.len() && before[i].0 == key {
        after == before.update(i, (key, value))
    } else {
        (i < before.len() ==> key < before[i].0) && after == before.insert(i, (key, value))
    }
}

proof fn lemma_entries_placed<V>(
    before: Seq<(u64, V)>,
    after: Seq<(u64, V)>,
    i: int,
    key: u64,
    value: V,
)
    requires
        placed(before, after, i, key, value),
    ensures
        ascending(after),
        forall|a: int|
            0 <= a < before.len() && (#[trigger] before[a]).0 != key ==> after.contains(before[a]),
        forall|a: int|
            0 <= a < after.len() && (#[trigger] after[a]).0 != key ==> before.contains(after[a]),
{
    assert forall|a: int| 0 <= a < before.len() && (#[trigger] before[a]).0
        != key implies after.contains(before[a]) by {
        let c = if after.len() == before.len() || a < i { a } else { a + 1 };
        assert(after[c] == before[a]);
    }
    assert forall|a: int| 0 <= a < after.len() && (#[trigger] after[a]).0
        != key implies before.contains(after[a]) by {
        let c = if after.len() == before.len() || a < i { a } else { a - 1 };
        assert(before[c] == after[a]);
    }
    assert forall|a: int, b: int| 0 <= a < b < after.len() implies (#[trigger] after[a]).0 < (
    #[trigger] after[b]).0 by {
        if after.len() == before.len() {
            assert(after[a].0 == before[a].0 && after[b].0 == before[b].0);
        } else {
            let c = if a < i { a } else { a - 1 };
            let d = if b < i { b } else { b - 1 };
            if a != i {
                assert(after[a] == before[c]);
            }
            if b != i {
                assert(after[b] == before[d]);
            }
            if a == i && b > i {
                assert(before[i].0 <= before[d].0);
            }
        }
    }
}

proof fn lemma_map_placed<V>(
    before: Seq<(u64, V)>,
    after: Seq<(u64, V)>,
    i: int,
    key: u64,
    value: V,
)
    requires
        placed(before, after, i, key, value),
    ensures
        level_map(after) == level_map(before).insert(key, value),
{
    lemma_entries_placed(before, after, i, key, value);
    assert(after[i] == (key, value));
    assert forall|k: u64| has_level(after, k) <==> has_level(before, k) || k == key by {
        if has_level(after, k) && k != key {
            let a = level_index(after, k);
            assert(before.contains(after[a]));
        }
        if has_level(before, k) && k != key {
            let a = level_index(before, k);
            assert(after.contains(before[a]));
        }
        if k == key {
            assert(after[i].0 == k);
        }
    }
    assert forall|k: u64| has_level(after, k) implies level_map(after)[k] == level_map(
        before,
    ).insert(key, value)[k] by {
        let a = level_index(after, k);
        lemma_lookup(after, a);
        if k == key {
            lemma_lookup(after, i);
        } else {
            assert(before.contains(after[a]));
            let c = choose|c: int| 0 <= c < before.len() && before[c] == after[a];
            lemma_lookup(before, c);
        }
    }
    assert(level_map(after) =~= level_map(before).insert(key, value));
}

impl<V> Levels<V> {
    pub open spec fn wf(self) -> bool {
        ascending(self.entries@)
    }

    /// A map that holds nothing.
    pub fn new() -> (r: Self)
        ensures
            r.wf(),
            r.entries@.len() == 0,
            r@ == Map::<u64, V>::empty(),
    {
        let r = Levels { entries: Vec::new() };
        assert(r@ =~= Map::<u64, V>::empty());
        r
    }

    /// Maps `key` to `value`, in place of what it was mapped to before.
    pub fn insert(&mut self, key: u64, value: V)
        requires
            old(self).wf(),
        ensures
            final(self).wf(),
            final(self)@ == old(self)@.insert(key, value),
            exists|i: int|
                0 <= i < final(self).entries@.len() && #[trigger] final(self).entries@[i] == (
                    key,
                    value,
                ),
            forall|i: int|
                0 <= i < old(self).entries@.len() && (#[trigger] old(self).entries@[i]).0 != key
                    ==> final(self).entries@.contains(old(self).entries@[i]),
            forall|i: int|
                0 <= i < final(self).entries@.len() && (#[trigger] final(self).entries@[i]).0 != key
                    ==> old(self).entries@.contains(final(self).entries@[i]),
            forall|i: int, j: int|
                0 <= i < j < final(self).entries@.len() ==> (#[trigger] final(self).entries@[i]).0 < (
                #[trigger] final(self).entries@[j]).0,
    {
        let ghost before = self.entries@;
        let mut i: usize = 0;
        while i < self.entries.len() && self.entries[i].0 < key
            invariant
                self.entries@ == before,
                ascending(before),
                i <= before.len(),
                forall|j: int| 0 <= j < i ==> (#[trigger] before[j]).0 < key,
            decreases self.entries.len() - i,
        {
            i = i + 1;
        }
        if i < self.entries.len() && self.entries[i].0 == key {
            self.entries.remove(i);
            self.entries.insert(i, (key, value));
            assert(self.entries@ =~= before.update(i as int, (key, value)));
        } else {
            self.entries.insert(i, (key, value));
            assert(self.entries@ =~= before.insert(i as int, (key, value)));
        }
        proof {
            lemma_entries_placed(before, self.entries@, i as int, key, value);
            lemma_map_placed(before, self.entries@, i as int, key, value);
            assert(self.entries@[i as int] == (key, value));
        }
    }
}

/// A map holds a number exactly where an entry has it, under the value of that entry.
pub proof fn level_is_that_of_its_entry<V>(s: Seq<(u64, V)>, k: u64)
    requires
        ascending(s),
    ensures
        forall|i: int, j: int| 0 <= i < j < s.len() ==> (#[trigger] s[i]).0 < (#[trigger] s[j]).0,
        level_map(s).contains_key(k) <==> exists|i: int| 0 <= i < s.len() && (#[trigger] s[i]).0 == k,
        forall|i: int| 0 <= i < s.len() ==> level_map(s)[(#[trigger] s[i]).0] == s[i].1,
{
    assert forall|i: int| 0 <= i < s.len() implies level_map(s)[(#[trigger] s[i]).0] == s[i].1 by {
        lemma_lookup(s, i);
    }
}

} // verus!
