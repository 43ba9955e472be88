//! When readings of ambient light have settled.

use super::wide::within_tenth;
use super::{Reading, Scale};
use vstd::arithmetic::power::{lemma_pow_distributes, lemma_pow_positive, pow};
use vstd::prelude::*;

verus! {

/// For how long readings have to stay near each other, in nanoseconds.
pub const STABILIZATION_DURATION: u128 = 5_000_000_000;

/// How far readings in lux may lie apart in any case.
pub const LUX_STABILIZATION_ABSOLUTE_TOLERANCE: u64 = 3;

/// How far readings in percent may lie apart.
pub const LINEAR_STABILIZATION_TOLERANCE: u64 = 10;

/// Up to which readings in lux it can be told in whole numbers how far apart they are perceived. With
/// larger ones it may depend on how logarithms are rounded.
pub const LARGEST_COMPARED: u64 = 1_000_000;

/// The largest reading up to which doubles hold every reading as it is.
pub const LARGEST_KEPT: u64 = 0x20_0000_0000_0000;

/// How far two numbers lie apart.
pub open spec fn gap(left: u64, right: u64) -> int {
    if left < right {
        right - left
    } else {
        left - right
    }
}

/// The larger of two numbers.
pub open spec fn larger(left: u64, right: u64) -> u64 {
    if left < right {
        right
    } else {
        left
    }
}

/// The smaller of two numbers.
pub open spec fn smaller(left: u64, right: u64) -> u64 {
    if left < right {
        left
    } else {
        right
    }
}

/// Two readings are near each other. In lux, readings are near each other where, with one added to
/// each, they are not further apart than a tenth of an order of magnitude. Of large ones `close`
/// tells that.
pub open spec fn are_near(scale: Scale, left: u64, right: u64, close: bool) -> bool {
    match scale {
        Scale::Lux => {
            ||| gap(left, right) <= LUX_STABILIZATION_ABSOLUTE_TOLERANCE
            ||| if larger(left, right) <= LARGEST_COMPARED {
                pow(larger(left, right) + 1, 10) <= 10 * pow(smaller(left, right) + 1, 10)
            } else {
                close
            }
        },
        Scale::Linear => gap(left, right) <= LINEAR_STABILIZATION_TOLERANCE,
    }
}

/// Whether two readings are near each other. `close` tells whether they are perceived as not further
/// apart than a tenth of an order of magnitude, where they are large.
pub fn near(scale: Scale, left: u64, right: u64, close: bool) -> (r: bool)
    ensures
        r == are_near(scale, left, right, close),
{
    let (small, large) = if left < right {
        (left, right)
    } else {
        (right, left)
    };
    match scale {
        Scale::Lux => large - small <= LUX_STABILIZATION_ABSOLUTE_TOLERANCE || (if large
            <= LARGEST_COMPARED {
            within_tenth(large as u128 + 1, small as u128 + 1)
        } else {
            close
        }),
        Scale::Linear => large - small <= LINEAR_STABILIZATION_TOLERANCE,
    }
}

/// Which of two readings comes first does not matter, and a reading is near itself.
pub proof fn nearness_is_symmetric(scale: Scale, left: u64, right: u64, close: bool)
    ensures
        are_near(scale, left, right, close) == are_near(scale, right, left, close),
        are_near(scale, left, left, close),
{
}

/// Readings that may turn out to have settled: since when they are near each other,
/// and between which values they lie.
#[derive(Clone, Copy, Debug, PartialEq, Eq, Structural)]
pub struct Candidate {
    pub since: u128,
    pub min: u64,
    pub max: u64,
}

/// One reading on its own.
pub open spec fn fresh(value: u64, now: u128) -> Candidate {
    Candidate { since: now, min: value, max: value }
}

/// The readings with one more. What is not near the others begins anew.
pub open spec fn extended(
    c: Candidate,
    scale: Scale,
    value: u64,
    close: bool,
    now: u128,
) -> Candidate {
    let min = smaller(c.min, value);
    let max = larger(c.max, value);
    if are_near(scale, min, max, close) {
        Candidate { since: c.since, min, max }
    } else {
        fresh(value, now)
    }
}

/// With one more, the readings have been near each other for long enough.
pub open spec fn is_settled(
    c: Candidate,
    scale: Scale,
    value: u64,
    close: bool,
    now: u128,
) -> bool {
    are_near(scale, smaller(c.min, value), larger(c.max, value), close) && now - c.since
        >= STABILIZATION_DURATION
}

impl Candidate {
    /// Adds a reading. Says whether the readings have settled.
    fn update(&mut self, scale: Scale, value: u64, close: bool, now: u128) -> (r: bool)
        ensures
            *final(self) == extended(*old(self), scale, value, close, now),
            r == is_settled(*old(self), scale, value, close, now),
    {
        let min = if self.min < value {
            self.min
        } else {
            value
        };
        let max = if self.max < value {
            value
        } else {
            self.max
        };
        if !near(scale, min, max, close) {
            self.since = now;
            self.min = value;
            self.max = value;
            false
        } else {
            self.min = min;
            self.max = max;
            now >= self.since && now - self.since >= STABILIZATION_DURATION
        }
    }
}

/// What to do with the precise value that readings are smoothed to.
#[derive(Clone, Copy, Debug, PartialEq, Eq, Structural)]
pub enum Filter {
    Keep,
    /// The reading takes its place.
    Replace,
    /// It moves towards the reading.
    Smooth,
}

/// Turns readings into ones that can be relied upon.
#[derive(Clone, Copy, Debug, PartialEq, Eq, Structural)]
pub struct Stabilizer {
    pub scale: Scale,
    /// The accepted value, rounded.
    pub filtered: Option<u64>,
    pub candidate: Option<Candidate>,
}

/// What an observation gives.
#[derive(Clone, Copy, Debug, PartialEq, Eq, Structural)]
pub struct Observation {
    pub reading: Option<Reading>,
    pub filter: Filter,
}

/// What was computed of a reading that whole numbers do not tell.
#[derive(Clone, Copy, Debug, PartialEq, Eq, Structural)]
pub struct Weighed {
    /// The reading as it is kept, rounded.
    pub kept: u64,
    /// What the accepted value becomes, rounded, where it moves towards the reading.
    pub smoothed: u64,
    /// The accepted value and the reading are not perceived as further apart than a tenth of an
    /// order of magnitude.
    pub close_to_accepted: bool,
    /// The lowest and the highest reading that may have settled are not, this one included.
    pub close_together: bool,
}

/// Which numbers have to be compared for a reading.
#[derive(Clone, Copy, Debug)]
pub struct Pairs {
    /// The accepted value and the reading.
    pub accepted: Option<(u64, u64)>,
    /// The lowest and the highest reading that may have settled, this one included.
    pub candidate: Option<(u64, u64)>,
}

/// A reading as it is kept. Only large ones are rounded.
pub open spec fn kept_value(value: u64, weighed: Weighed) -> u64 {
    if value <= LARGEST_KEPT {
        value
    } else {
        weighed.kept
    }
}

/// The readings that may have settled, with one more.
pub open spec fn watched(s: Stabilizer, value: u64, weighed: Weighed, now: u128) -> Candidate {
    match s.candidate {
        Some(c) => extended(c, s.scale, value, weighed.close_together, now),
        None => fresh(value, now),
    }
}

/// With one more, the readings have settled.
pub open spec fn has_settled(s: Stabilizer, value: u64, weighed: Weighed, now: u128) -> bool {
    s.candidate matches Some(c) && is_settled(c, s.scale, value, weighed.close_together, now)
}

/// The reading is near the accepted value.
pub open spec fn is_accepted(s: Stabilizer, value: u64, weighed: Weighed) -> bool {
    s.filtered matches Some(filtered) && are_near(
        s.scale,
        filtered,
        value,
        weighed.close_to_accepted,
    )
}

/// What an observation gives. A reading near the accepted value moves that value towards it. Any
/// other has to settle before it is accepted; until then, the accepted value is given as one that is
/// not stable, or nothing where there is none.
pub open spec fn observed(s: Stabilizer, value: u64, weighed: Weighed, now: u128) -> (
    Stabilizer,
    Observation,
) {
    if is_accepted(s, value, weighed) {
        (
            Stabilizer { filtered: Some(weighed.smoothed), candidate: None, ..s },
            Observation {
                reading: Some(Reading { value: weighed.smoothed, stable: true }),
                filter: Filter::Smooth,
            },
        )
    } else if has_settled(s, value, weighed, now) {
        (
            Stabilizer { filtered: Some(kept_value(value, weighed)), candidate: None, ..s },
            Observation {
                reading: Some(Reading { value: kept_value(value, weighed), stable: true }),
                filter: Filter::Replace,
            },
        )
    } else {
        (
            Stabilizer { candidate: Some(watched(s, value, weighed, now)), ..s },
            Observation {
                reading: match s.filtered {
                    Some(filtered) => Some(Reading { value: filtered, stable: false }),
                    None => None,
                },
                filter: Filter::Keep,
            },
        )
    }
}

impl Stabilizer {
    /// The readings that may turn out to have settled are near each other, as far as whole numbers
    /// tell that.
    pub open spec fn wf(self) -> bool {
        self.candidate matches Some(c) ==> c.min <= c.max && are_near(
            self.scale,
            c.min,
            c.max,
            true,
        )
    }

    pub fn new(scale: Scale) -> (r: Stabilizer)
        ensures
            r.wf(),
            r == (Stabilizer { scale, filtered: None, candidate: None }),
    {
        Stabilizer { scale, filtered: None, candidate: None }
    }

    /// Which numbers have to be compared for a reading.
    pub fn pairs(&self, value: u64) -> (r: Pairs)
        ensures
            r.accepted == match self.filtered {
                Some(filtered) => Some((filtered, value)),
                None => None,
            },
            r.candidate == match self.candidate {
                Some(c) => Some((smaller(c.min, value), larger(c.max, value))),
                None => None,
            },
            r.candidate matches Some((low, high)) ==> low <= value <= high && low
                <= self.candidate->0.min && self.candidate->0.max <= high && (low == value || low
                == self.candidate->0.min) && (high == value || high == self.candidate->0.max),
    {
        Pairs {
            accepted: match self.filtered {
                Some(filtered) => Some((filtered, value)),
                None => None,
            },
            candidate: match self.candidate {
                Some(c) => Some(
                    (
                        if c.min < value {
                            c.min
                        } else {
                            value
                        },
                        if c.max < value {
                            value
                        } else {
                            c.max
                        },
                    ),
                ),
                None => None,
            },
        }
    }

    /// Takes note of a reading, and of what was computed of it.
    pub fn observe(&mut self, value: u64, weighed: Weighed, now: u128) -> (r: Observation)
        requires
            old(self).wf(),
        ensures
            final(self).wf(),
            (*final(self), r) == observed(*old(self), value, weighed, now),
    {
        if let Some(filtered) = self.filtered {
            if near(self.scale, filtered, value, weighed.close_to_accepted) {
                self.candidate = None;
                self.filtered = Some(weighed.smoothed);
                return Observation {
                    reading: Some(Reading { value: weighed.smoothed, stable: true }),
                    filter: Filter::Smooth,
                };
            }
        }
        let stable = match self.candidate {
            Some(known) => {
                let mut candidate = known;
                let stable = candidate.update(self.scale, value, weighed.close_together, now);
                self.candidate = Some(candidate);
                stable
            },
            None => {
                self.candidate = Some(Candidate { since: now, min: value, max: value });
                false
            },
        };
        if stable {
            let kept = if value <= LARGEST_KEPT {
                value
            } else {
                weighed.kept
            };
            self.filtered = Some(kept);
            self.candidate = None;
            return Observation {
                reading: Some(Reading { value: kept, stable: true }),
                filter: Filter::Replace,
            };
        }
        Observation {
            reading: match self.filtered {
                Some(filtered) => Some(Reading { value: filtered, stable: false }),
                None => None,
            },
            filter: Filter::Keep,
        }
    }
}

/// Nothing is given before readings have been near each other for long enough.
pub proof fn first_reading_has_settled(s: Stabilizer, value: u64, weighed: Weighed, now: u128)
    requires
        s.filtered is None,
        observed(s, value, weighed, now).1.reading is Some,
    ensures
        s.candidate is Some,
        now - s.candidate->0.since >= STABILIZATION_DURATION,
        are_near(
            s.scale,
            smaller(s.candidate->0.min, value),
            larger(s.candidate->0.max, value),
            weighed.close_together,
        ),
        observed(s, value, weighed, now).1.reading == Some(
            Reading { value: kept_value(value, weighed), stable: true },
        ),
{
}

/// While a jump is being confirmed, the accepted value is held, and given as one that
/// is not stable.
pub proof fn accepted_value_is_held(s: Stabilizer, value: u64, weighed: Weighed, now: u128)
    requires
        s.filtered is Some,
        !is_accepted(s, value, weighed),
        !has_settled(s, value, weighed, now),
    ensures
        observed(s, value, weighed, now).0.filtered == s.filtered,
        observed(s, value, weighed, now).1.reading == Some(
            Reading { value: s.filtered->0, stable: false },
        ),
{
}

/// A reading near the accepted value ends the confirmation of a jump.
pub proof fn return_ends_confirmation(s: Stabilizer, value: u64, weighed: Weighed, now: u128)
    requires
        is_accepted(s, value, weighed),
    ensures
        observed(s, value, weighed, now).0.candidate is None,
        observed(s, value, weighed, now).1.reading matches Some(reading) && reading.stable,
{
}

/// A reading that is repeated for long enough is accepted in the end: the second of two
/// equal readings that are far enough apart in time.
pub proof fn repeated_reading_is_accepted(
    s: Stabilizer,
    value: u64,
    weighed: Weighed,
    again: Weighed,
    first: u128,
    second: u128,
)
    requires
        s.candidate is None,
        !is_accepted(s, value, weighed),
        !is_accepted(s, value, again),
        first + STABILIZATION_DURATION <= second,
    ensures
        ({
            let after = observed(s, value, weighed, first).0;
            observed(after, value, again, second).1.reading == Some(
                Reading { value: kept_value(value, again), stable: true },
            )
        }),
{
    nearness_is_symmetric(s.scale, value, value, again.close_together);
}

/// A tenth of an order of magnitude is about 1.2589: readings in lux whose ratio is clearly below it are
/// near each other, and those whose ratio is clearly above it are not, unless they are no more than
/// three apart.
pub proof fn lux_are_compared_by_ratio(small: u64, large: u64, close: bool)
    requires
        small <= large <= 1_000_000,
    ensures
        100_000 * (large + 1) <= 125_892 * (small + 1) ==> are_near(Scale::Lux, small, large, close),
        large - small <= 3 ==> are_near(Scale::Lux, small, large, close),
        100_000 * (large + 1) >= 125_893 * (small + 1) && large - small > 3 ==> !are_near(
            Scale::Lux,
            small,
            large,
            close,
        ),
{
    let s = small + 1;
    let l = large + 1;
    lemma_tenth_powers();
    lemma_pow_distributes(100_000, l, 10);
    lemma_pow_distributes(125_892, s, 10);
    lemma_pow_distributes(125_893, s, 10);
    lemma_pow_positive(s, 10);
    lemma_pow_positive(l, 10);
    let k = pow(100_000, 10);
    let below = pow(125_892, 10);
    let above = pow(125_893, 10);
    let ps = pow(s, 10);
    let pl = pow(l, 10);
    if 100_000 * l <= 125_892 * s {
        lemma_pow_grows(100_000 * l, 125_892 * s, 10);
        assert(pl <= 10 * ps) by (nonlinear_arith)
            requires
                k * pl <= below * ps,
                below <= 10 * k,
                k > 0,
                ps > 0,
        ;
    }
    if 100_000 * l >= 125_893 * s {
        lemma_pow_grows(125_893 * s, 100_000 * l, 10);
        assert(pl > 10 * ps) by (nonlinear_arith)
            requires
                k * pl >= above * ps,
                above > 10 * k,
                k > 0,
                ps > 0,
        ;
    }
}

/// Powers of larger numbers are not smaller.
proof fn lemma_pow_grows(a: int, b: int, n: nat)
    requires
        0 < a <= b,
    ensures
        0 < pow(a, n) <= pow(b, n),
    decreases n,
{
    reveal(pow);
    if n > 0 {
        lemma_pow_grows(a, b, (n - 1) as nat);
        let x = pow(a, (n - 1) as nat);
        let y = pow(b, (n - 1) as nat);
        assert(0 < a * x <= b * y) by (nonlinear_arith)
            requires
                0 < a <= b,
                0 < x <= y,
        ;
    }
}

proof fn lemma_tenth_powers()
    ensures
        0 < pow(100_000, 10),
        pow(125_892, 10) <= 10 * pow(100_000, 10),
        pow(125_893, 10) > 10 * pow(100_000, 10),
{
    reveal_with_fuel(pow, 11);
}

/// Readings in percent are near each other where they are no more than ten apart.
pub proof fn percentages_are_compared_by_difference(left: u64, right: u64, close: bool)
    ensures
        are_near(Scale::Linear, left, right, close) <==> -10 <= left - right <= 10,
{
}

/// Readings between two that are near each other are near each other.
pub proof fn nearness_holds_in_between(
    scale: Scale,
    low: u64,
    high: u64,
    left: u64,
    right: u64,
    close: bool,
)
    requires
        low <= left <= right <= high <= 1_000_000,
        are_near(scale, low, high, close),
    ensures
        are_near(scale, left, right, close),
{
    if scale is Lux {
        lemma_pow_grows(right + 1, high + 1, 10);
        lemma_pow_grows(low + 1, left + 1, 10);
    }
}

/// Light that stays between two readings that are near each other is accepted once it has done so for
/// five seconds, and not before; until then, it is remembered since when.
pub proof fn steady_light_is_accepted(
    s: Stabilizer,
    value: u64,
    weighed: Weighed,
    now: u128,
    low: u64,
    high: u64,
)
    requires
        s.candidate matches Some(c) && low <= c.min <= c.max <= high,
        low <= value <= high <= 1_000_000,
        are_near(s.scale, low, high, weighed.close_together),
        !is_accepted(s, value, weighed),
    ensures
        ({
            let (after, o) = observed(s, value, weighed, now);
            let since = s.candidate->0.since;
            &&& after.scale == s.scale
            &&& now - since >= 5_000_000_000 ==> o.reading == Some(Reading { value, stable: true })
                && after.filtered == Some(value) && after.candidate is None
            &&& now - since < 5_000_000_000 ==> after.filtered == s.filtered && (after.candidate matches Some(
                d,
            ) && d.since == since && low <= d.min <= d.max <= high && d.min <= value <= d.max
                && d.min <= s.candidate->0.min && d.max >= s.candidate->0.max)
        }),
{
    let c = s.candidate->0;
    nearness_holds_in_between(
        s.scale,
        low,
        high,
        smaller(c.min, value),
        larger(c.max, value),
        weighed.close_together,
    );
}

/// Light that jumps has to settle anew: it is remembered since now, and by nothing but the reading.
pub proof fn jump_starts_over(s: Stabilizer, value: u64, weighed: Weighed, now: u128)
    requires
        !is_accepted(s, value, weighed),
        s.candidate matches Some(c) ==> !are_near(
            s.scale,
            smaller(c.min, value),
            larger(c.max, value),
            weighed.close_together,
        ),
    ensures
        observed(s, value, weighed, now).0.candidate == Some(
            Candidate { since: now, min: value, max: value },
        ),
        observed(s, value, weighed, now).0.filtered == s.filtered,
        !(observed(s, value, weighed, now).1.reading matches Some(reading) && reading.stable),
{
}

/// What is given as stable is the accepted value from then on, and a reading near the accepted value is
/// given as it was smoothed.
pub proof fn stable_reading_is_accepted(s: Stabilizer, value: u64, weighed: Weighed, now: u128)
    ensures
        ({
            let (after, o) = observed(s, value, weighed, now);
            &&& o.reading matches Some(reading) ==> after.filtered == Some(reading.value)
            &&& o.reading is None ==> s.filtered is None && after.filtered is None
            &&& o.filter is Keep <==> after.filtered == s.filtered && !(o.reading matches Some(reading)
                && reading.stable)
            &&& o.filter is Keep ==> after.filtered == s.filtered
            &&& is_accepted(s, value, weighed) ==> o.reading == Some(
                Reading { value: weighed.smoothed, stable: true },
            ) && o.filter is Smooth
            &&& after.candidate is None <==> (o.reading matches Some(reading) && reading.stable)
        }),
{
}

/// Readings have settled exactly when they have been near each other for five seconds, from the lowest
/// to the highest one; as long as they are near each other, it is remembered since when.
pub proof fn readings_settle_within_five_seconds(
    s: Stabilizer,
    value: u64,
    weighed: Weighed,
    now: u128,
    low: u64,
    high: u64,
)
    requires
        s.candidate matches Some(c) && low == (if c.min < value {
            c.min
        } else {
            value
        }) && high == (if c.max > value {
            c.max
        } else {
            value
        }),
    ensures
        has_settled(s, value, weighed, now) <==> are_near(
            s.scale,
            low,
            high,
            weighed.close_together,
        ) && now - s.candidate->0.since >= 5_000_000_000,
        are_near(s.scale, low, high, weighed.close_together) ==> watched(s, value, weighed, now) == (
        Candidate { since: s.candidate->0.since, min: low, max: high }),
{
}

/// A reading is accepted only where one was before and it is near that one; what settles is given as it
/// was read, and rounded only where it is very large.
pub proof fn settled_reading_is_given_as_read(s: Stabilizer, value: u64, weighed: Weighed, now: u128)
    ensures
        s.filtered is None ==> !is_accepted(s, value, weighed),
        s.filtered matches Some(known) ==> (is_accepted(s, value, weighed) <==> are_near(
            s.scale,
            known,
            value,
            weighed.close_to_accepted,
        )),
        s.candidate is None ==> !has_settled(s, value, weighed, now),
        !is_accepted(s, value, weighed) && has_settled(s, value, weighed, now) && value
            <= 0x20_0000_0000_0000 ==> observed(s, value, weighed, now).1.reading == Some(
            Reading { value, stable: true },
        ),
        !is_accepted(s, value, weighed) && has_settled(s, value, weighed, now) && value
            > 0x20_0000_0000_0000 ==> observed(s, value, weighed, now).1.reading == Some(
            Reading { value: weighed.kept, stable: true },
        ),
{
}

} // verus!
