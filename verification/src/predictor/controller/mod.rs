//! What is predicted, and when.

pub mod adaptive;
pub mod manual;

use super::data::Entry;
use vstd::prelude::*;

verus! {

/// How long the first reading of ambient light may take, in nanoseconds.
pub const INITIAL_TIMEOUT: u128 = 15_000_000_000;

/// For how long nothing is predicted after the user has changed the brightness, in
/// nanoseconds.
pub const PENDING_COOLDOWN: u128 = 1_500_000_000;

/// A time during which nothing is predicted.
#[derive(Clone, Copy, Debug, PartialEq, Eq, Structural)]
pub struct Cooldown {
    pub until: Option<u128>,
}

impl Default for Cooldown {
    fn default() -> (r: Cooldown)
        ensures
            r == (Cooldown { until: None }),
    {
        Cooldown { until: None }
    }
}

impl Cooldown {
    /// The time is not over.
    pub open spec fn lasts(self, now: u128) -> bool {
        self.until matches Some(until) && now < until
    }

    /// Begins the time anew.
    pub fn reset(&mut self, now: u128, duration: u128)
        requires
            now + duration <= u128::MAX,
        ensures
            *final(self) == (Cooldown { until: Some((now + duration) as u128) }),
    {
        self.until = Some(now + duration);
    }

    /// Whether the time is not over.
    pub fn is_active(&self, now: u128) -> (r: bool)
        ensures
            r == self.lasts(now),
            r <==> self.until is Some && now < self.until->0,
    {
        match self.until {
            Some(until) => now < until,
            None => false,
        }
    }

    pub fn clear(&mut self)
        ensures
            *final(self) == (Cooldown { until: None }),
    {
        self.until = None;
    }

    /// Ends the time at once.
    pub fn finish(&mut self, now: u128)
        ensures
            *final(self) == (Cooldown { until: Some(now) }),
            !final(self).lasts(now),
    {
        self.until = Some(now);
    }
}

/// How close the conditions of an entry are to the present ones.
#[derive(Clone, Copy, Debug, PartialEq, Eq, Structural)]
pub enum Closeness {
    /// They are the same.
    Same,
    Near,
    /// They are too far away to tell anything.
    Far,
}

/// What entries tell about the present conditions.
#[derive(Debug)]
pub enum Choice {
    /// The brightness is known.
    Known(u64),
    /// The brightness lies between those of the entries at these places.
    Between(Vec<usize>),
    Unknown,
}

/// The first entry, from the place `from` on, whose conditions are the same.
pub open spec fn first_same(closeness: Seq<Closeness>, from: int) -> Option<int>
    decreases closeness.len() - from,
{
    if from < 0 || from >= closeness.len() {
        None
    } else if closeness[from] is Same {
        Some(from)
    } else {
        first_same(closeness, from + 1)
    }
}

/// The places of the near ones among the first `n` entries.
pub open spec fn near_places(closeness: Seq<Closeness>, n: nat) -> Seq<int>
    decreases n,
{
    if n == 0 {
        Seq::empty()
    } else if closeness[n - 1] is Near {
        near_places(closeness, (n - 1) as nat).push(n - 1)
    } else {
        near_places(closeness, (n - 1) as nat)
    }
}

/// What the entries tell: the brightness of the first one with the same conditions, or
/// something between the near ones.
pub fn consult(entries: &Vec<Entry>, closeness: &Vec<Closeness>) -> (r: Choice)
    requires
        entries@.len() == closeness@.len(),
    ensures
        match first_same(closeness@, 0) {
            Some(i) => r == Choice::Known(entries@[i].brightness),
            None => if near_places(closeness@, closeness@.len()).len() == 0 {
                r is Unknown
            } else {
                r matches Choice::Between(places) && places@.map_values(|i: usize| i as int)
                    == near_places(closeness@, closeness@.len())
            },
        },
        // Entries with the same conditions are all that counts, and the first of them does.
        r is Known <==> exists|i: int| 0 <= i < closeness@.len() && #[trigger] closeness@[i] is Same,
        r matches Choice::Known(brightness) ==> exists|i: int|
            {
                &&& 0 <= i < closeness@.len()
                &&& #[trigger] closeness@[i] is Same
                &&& entries@[i].brightness == brightness
                &&& forall|j: int| 0 <= j < i ==> !(#[trigger] closeness@[j] is Same)
            },
        // Without any, every near entry counts, once and in order, and no other does.
        r matches Choice::Between(places) ==> {
            &&& places@.len() > 0
            &&& forall|i: int|
                0 <= i < closeness@.len() ==> ((#[trigger] closeness@[i]) is Near
                    <==> places@.contains(i as usize))
            &&& forall|k: int|
                0 <= k < places@.len() ==> (#[trigger] places@[k]) < closeness@.len()
                    && closeness@[places@[k] as int] is Near
            &&& forall|k: int, l: int|
                0 <= k < l < places@.len() ==> #[trigger] places@[k] < #[trigger] places@[l]
        },
        r is Unknown <==> forall|i: int|
            0 <= i < closeness@.len() ==> (#[trigger] closeness@[i]) is Far,
{
    let n = entries.len();
    let mut i: usize = 0;
    let mut places: Vec<usize> = Vec::new();
    assert(places@.map_values(|i: usize| i as int) =~= Seq::empty());
    while i < n
        invariant
            i <= n,
            n == entries@.len(),
            n == closeness@.len(),
            first_same(closeness@, 0) == first_same(closeness@, i as int),
            places@.map_values(|i: usize| i as int) == near_places(closeness@, i as nat),
        decreases n - i,
    {
        match closeness[i] {
            Closeness::Same => {
                proof {
                    first_same_is_first(closeness@, 0);
                    assert(first_same(closeness@, 0) == Some(i as int));
                    assert(closeness@[i as int] is Same);
                }
                return Choice::Known(entries[i].brightness);
            },
            Closeness::Near => {
                let ghost before = places@;
                places.push(i);
                assert(places@.map_values(|i: usize| i as int) =~= before.map_values(
                    |i: usize| i as int,
                ).push(i as int));
            },
            Closeness::Far => {},
        }
        i = i + 1;
    }
    let ghost all = near_places(closeness@, closeness@.len());
    proof {
        first_same_is_first(closeness@, 0);
        near_places_are_all(closeness@, closeness@.len());
        assert(places@.len() == places@.map_values(|i: usize| i as int).len());
        assert forall|k: int| 0 <= k < places@.len() implies #[trigger] places@[k] as int == all[k] by {
            assert(places@.map_values(|i: usize| i as int)[k] == all[k]);
        }
        assert forall|i: int| 0 <= i < closeness@.len() && (#[trigger] closeness@[i]) is Near implies places@.contains(
            i as usize,
        ) by {
            let k = all.index_of(i);
            assert(all.contains(i));
            assert(all[k] == i);
            assert(places@[k] == i as usize);
        }
        assert forall|k: int| 0 <= k < places@.len() implies (#[trigger] places@[k]) < closeness@.len()
            && closeness@[places@[k] as int] is Near by {
            assert(all.contains(all[k]));
        }
        assert forall|i: int| 0 <= i < closeness@.len() && places@.contains(i as usize) implies (
        #[trigger] closeness@[i]) is Near by {
            let k = places@.index_of(i as usize);
            assert(places@[k] as int == i);
        }
        if places@.len() == 0 {
            assert forall|i: int| 0 <= i < closeness@.len() implies (#[trigger] closeness@[i]) is Far by {
                assert(!(closeness@[i] is Same));
                if closeness@[i] is Near {
                    assert(places@.contains(i as usize));
                }
            }
        } else {
            assert(closeness@[places@[0] as int] is Near);
        }
    }
    if places.len() == 0 {
        Choice::Unknown
    } else {
        Choice::Between(places)
    }
}

/// The first entry whose conditions are the same has the same conditions, and no earlier one has; there
/// is none only where none has.
pub proof fn first_same_is_first(closeness: Seq<Closeness>, from: int)
    requires
        0 <= from,
    ensures
        first_same(closeness, from) matches Some(i) ==> from <= i < closeness.len() && closeness[i] is Same
            && forall|j: int| from <= j < i ==> !(#[trigger] closeness[j] is Same),
        first_same(closeness, from) is None ==> forall|j: int|
            from <= j < closeness.len() ==> !(#[trigger] closeness[j] is Same),
    decreases closeness.len() - from,
{
    if from < closeness.len() && !(closeness[from] is Same) {
        first_same_is_first(closeness, from + 1);
    }
}

/// All near ones among the first entries count, each of them once and in order, and no others.
pub proof fn near_places_are_all(closeness: Seq<Closeness>, n: nat)
    requires
        n <= closeness.len(),
    ensures
        forall|i: int|
            #![trigger near_places(closeness, n).contains(i)]
            near_places(closeness, n).contains(i) <==> 0 <= i < n && closeness[i] is Near,
        forall|k: int, l: int|
            0 <= k < l < near_places(closeness, n).len() ==> #[trigger] near_places(closeness, n)[k]
                < #[trigger] near_places(closeness, n)[l],
    decreases n,
{
    if n > 0 {
        let m = (n - 1) as nat;
        near_places_are_all(closeness, m);
        let before = near_places(closeness, m);
        let after = near_places(closeness, n);
        assert forall|k: int| 0 <= k < before.len() implies #[trigger] before[k] < m by {
            assert(before.contains(before[k]));
        }
        assert forall|i: int|
            #![trigger after.contains(i)]
            after.contains(i) <==> 0 <= i < n && closeness[i] is Near by {
            if closeness[m as int] is Near {
                vstd::seq_lib::lemma_seq_contains_after_push(before, m as int, i);
            }
            assert(before.contains(i) <==> 0 <= i < m && closeness[i] is Near);
        }
    }
}

/// A time during which nothing is predicted lasts until its end, and no longer.
pub proof fn time_is_over_at_its_end(c: Cooldown, now: u128)
    ensures
        c.until is None ==> !c.lasts(now),
        c.until matches Some(until) ==> (c.lasts(now) <==> now < until),
{
}

} // verus!
