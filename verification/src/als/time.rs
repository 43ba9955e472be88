//! Ambient light by the time of day.

use crate::maps::levels::{ascending, Levels};
use vstd::prelude::*;

verus! {

/// Why levels cannot be used.
#[derive(Clone, Copy, Debug, PartialEq, Eq, Structural)]
pub enum TimeError {
    NoLevels,
    InvalidHour,
}

impl TimeError {
    /// What the error says.
    pub open spec fn spec_message(self) -> Seq<char> {
        match self {
            TimeError::NoLevels => "Time ALS requires at least one level"@,
            TimeError::InvalidHour => "Time ALS hours must be between 0 and 23"@,
        }
    }

    pub fn message(&self) -> (r: &'static str)
        ensures
            r@ == self.spec_message(),
            self is NoLevels ==> r@ == "Time ALS requires at least one level"@,
            self is InvalidHour ==> r@ == "Time ALS hours must be between 0 and 23"@,
    {
        match self {
            TimeError::NoLevels => "Time ALS requires at least one level",
            TimeError::InvalidHour => "Time ALS hours must be between 0 and 23",
        }
    }
}

/// Levels of light by hour.
#[derive(Debug)]
pub struct Als {
    pub levels: Vec<(u64, u64)>,
}

/// The levels between which a time lies.
#[derive(Clone, Copy, Debug, PartialEq, Eq, Structural)]
pub struct Bracket {
    pub previous_hour: u64,
    pub previous_value: u64,
    pub next_hour: u64,
    pub next_value: u64,
    /// The hour of the time itself, on the same count as the other two.
    pub hour: u64,
}

/// Every hour is an hour of the day.
pub open spec fn hours_are_valid(levels: Seq<(u64, u64)>) -> bool {
    forall|i: int| 0 <= i < levels.len() ==> (#[trigger] levels[i]).0 < 24
}

/// What is wrong with levels.
pub open spec fn fault(levels: Seq<(u64, u64)>) -> Option<TimeError> {
    if levels.len() == 0 {
        Some(TimeError::NoLevels)
    } else if !hours_are_valid(levels) {
        Some(TimeError::InvalidHour)
    } else {
        None
    }
}

/// How many of the levels begin at the given hour or before.
pub open spec fn begun(levels: Seq<(u64, u64)>, hour: u64) -> nat
    decreases levels.len(),
{
    if levels.len() == 0 {
        0
    } else if levels.last().0 > hour {
        begun(levels.drop_last(), hour)
    } else {
        levels.len()
    }
}

impl Als {
    /// There is a level, the hours are hours of the day, and they ascend.
    pub open spec fn wf(self) -> bool {
        &&& self.levels@.len() > 0
        &&& hours_are_valid(self.levels@)
        &&& ascending(self.levels@)
    }

    pub fn new(levels: Levels<u64>) -> (r: Result<Als, TimeError>)
        requires
            levels.wf(),
        ensures
            r is Ok <==> fault(levels.entries@) is None,
            r matches Ok(als) ==> als.wf() && als.levels@ == levels.entries@,
            r matches Err(error) ==> fault(levels.entries@) == Some(error),
    {
        if levels.entries.len() == 0 {
            return Err(TimeError::NoLevels);
        }
        for i in 0..levels.entries.len()
            invariant
                levels.entries@.len() > 0,
                forall|j: int| 0 <= j < i ==> (#[trigger] levels.entries@[j]).0 < 24,
        {
            if levels.entries[i].0 >= 24 {
                assert(!hours_are_valid(levels.entries@));
                return Err(TimeError::InvalidHour);
            }
        }
        Ok(Als { levels: levels.entries })
    }

    /// The levels between which a time in the given hour lies. Before the first level
    /// and after the last one, the time lies between the last level and the first one
    /// of the next day.
    pub fn bracket(&self, hour: u64) -> (r: Bracket)
        requires
            self.wf(),
            hour < 24,
        ensures
            r == bracket_of(self.levels@, hour),
            r.previous_hour <= r.hour < r.next_hour || self.levels@.len() == 1,
            r.previous_hour < r.next_hour,
    {
        let n = self.levels.len();
        let mut next: usize = 0;
        while next < n && self.levels[next].0 <= hour
            invariant
                n == self.levels@.len(),
                next <= n,
                forall|j: int| 0 <= j < next ==> (#[trigger] self.levels@[j]).0 <= hour,
            decreases n - next,
        {
            next = next + 1;
        }
        proof {
            lemma_begun(self.levels@, hour, next as int);
        }
        if next == n {
            next = 0;
        }
        let previous = if next == 0 {
            n - 1
        } else {
            next - 1
        };
        let (previous_hour, previous_value) = self.levels[previous];
        let (next_hour, next_value) = self.levels[next];
        proof {
            assert(self.levels@[previous as int].0 < 24);
            assert(self.levels@[next as int].0 < 24);
            if 0 < next {
                assert(self.levels@[previous as int].0 < self.levels@[next as int].0);
            }
        }
        if next == 0 {
            Bracket {
                previous_hour,
                previous_value,
                next_hour: next_hour + 24,
                next_value,
                hour: if hour < previous_hour {
                    hour + 24
                } else {
                    hour
                },
            }
        } else {
            Bracket { previous_hour, previous_value, next_hour, next_value, hour }
        }
    }
}

/// The levels between which a time lies.
pub open spec fn bracket_of(levels: Seq<(u64, u64)>, hour: u64) -> Bracket {
    let n = begun(levels, hour);
    if n == 0 || n == levels.len() {
        Bracket {
            previous_hour: levels.last().0,
            previous_value: levels.last().1,
            next_hour: (levels[0].0 + 24) as u64,
            next_value: levels[0].1,
            hour: if hour < levels.last().0 {
                (hour + 24) as u64
            } else {
                hour
            },
        }
    } else {
        Bracket {
            previous_hour: levels[n - 1].0,
            previous_value: levels[n - 1].1,
            next_hour: levels[n as int].0,
            next_value: levels[n as int].1,
            hour,
        }
    }
}

/// The levels that have begun are the first ones.
proof fn lemma_begun(levels: Seq<(u64, u64)>, hour: u64, n: int)
    requires
        ascending(levels),
        0 <= n <= levels.len(),
        forall|j: int| 0 <= j < n ==> (#[trigger] levels[j]).0 <= hour,
        n < levels.len() ==> levels[n].0 > hour,
    ensures
        begun(levels, hour) == n,
    decreases levels.len(),
{
    if n < levels.len() {
        assert(levels.last().0 >= levels[n].0);
        let shorter = levels.drop_last();
        assert(ascending(shorter));
        if n < shorter.len() {
            assert(shorter[n] == levels[n]);
        }
        assert forall|j: int| 0 <= j < n implies (#[trigger] shorter[j]).0 <= hour by {
            assert(shorter[j] == levels[j]);
        }
        lemma_begun(shorter, hour, n);
    } else if levels.len() > 0 {
        assert(levels[levels.len() - 1].0 <= hour);
    }
}

/// The levels between which a time lies are the last one that has begun and the next one that begins, on
/// a clock that goes on from day to day: both are levels, the time lies between them, and no other
/// level does.
pub proof fn bracket_encloses_time(levels: Seq<(u64, u64)>, hour: u64, i: int)
    requires
        levels.len() > 0,
        hours_are_valid(levels),
        ascending(levels),
        hour < 24,
        0 <= i < levels.len(),
    ensures
        ({
            let b = bracket_of(levels, hour);
            &&& levels.contains((b.previous_hour, b.previous_value))
            &&& levels.contains(((b.next_hour as int % 24) as u64, b.next_value))
            &&& b.hour as int % 24 == hour
            &&& b.previous_hour <= b.hour < b.next_hour <= b.previous_hour + 24
            &&& !(b.previous_hour < levels[i].0 < b.next_hour)
            &&& !(b.previous_hour < levels[i].0 + 24 < b.next_hour)
        }),
{
    let n = levels.len() as int;
    lemma_begun_count(levels, hour);
    let k = begun(levels, hour) as int;
    assert(levels[0].0 < 24 && levels[n - 1].0 < 24);
    assert(i > 0 ==> levels[0].0 < levels[i].0);
    assert(i < n - 1 ==> levels[i].0 < levels[n - 1].0);
    assert(n > 1 ==> levels[0].0 < levels[n - 1].0);
    if 0 < k < n {
        assert(levels[k - 1].0 <= hour < levels[k].0);
        assert(i < k - 1 ==> levels[i].0 < levels[k - 1].0);
        assert(i > k ==> levels[k].0 < levels[i].0);
        assert(levels[k].0 < 24);
        assert(levels[k - 1] == (levels[k - 1].0, levels[k - 1].1));
        assert(levels[k] == (levels[k].0, levels[k].1));
    } else {
        assert(levels[n - 1] == (levels.last().0, levels.last().1));
        assert(levels[0] == (levels[0].0, levels[0].1));
        if k == 0 {
            assert(levels[0].0 > hour);
        }
    }
}

/// The levels that have begun are those that begin at the hour or before.
proof fn lemma_begun_count(levels: Seq<(u64, u64)>, hour: u64)
    requires
        ascending(levels),
    ensures
        begun(levels, hour) <= levels.len(),
        forall|j: int| 0 <= j < begun(levels, hour) ==> (#[trigger] levels[j]).0 <= hour,
        forall|j: int| begun(levels, hour) <= j < levels.len() ==> (#[trigger] levels[j]).0 > hour,
    decreases levels.len(),
{
    if levels.len() > 0 {
        let shorter = levels.drop_last();
        let last = levels.len() - 1;
        if levels.last().0 > hour {
            assert(ascending(shorter));
            lemma_begun_count(shorter, hour);
            assert forall|j: int| 0 <= j < begun(levels, hour) implies (#[trigger] levels[j]).0
                <= hour by {
                assert(shorter[j] == levels[j]);
            }
            assert forall|j: int| begun(levels, hour) <= j < levels.len() implies (
            #[trigger] levels[j]).0 > hour by {
                if j < last {
                    assert(shorter[j] == levels[j]);
                }
            }
        } else {
            assert forall|j: int| 0 <= j < levels.len() implies (#[trigger] levels[j]).0 <= hour by {
                assert(j < last ==> levels[j].0 < levels[last].0);
            }
        }
    }
}

/// Levels can be used where there is one and all of them are at an hour of the day; what is wrong with
/// others is told.
pub proof fn fault_is_told(levels: Seq<(u64, u64)>)
    ensures
        fault(levels) is None <==> levels.len() > 0 && forall|i: int|
            0 <= i < levels.len() ==> (#[trigger] levels[i]).0 <= 23,
        fault(levels) == Some(TimeError::NoLevels) <==> levels.len() == 0,
{
}

} // verus!
