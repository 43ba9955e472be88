//! Brightness that the user sets, reduced by what the configuration says.

use super::{Cooldown, PENDING_COOLDOWN};
use crate::als::Scale;
use crate::predictor::data::Entry;
use vstd::prelude::*;

verus! {

/// What is known of an output.
#[derive(Debug)]
pub struct Controller {
    pub last_brightness: Option<u64>,
    /// By how much to reduce the brightness under which conditions, in percent.
    pub points: Vec<Entry>,
    /// The brightness before it was reduced.
    pub pre_reduction_brightness: Option<u64>,
    pub pending_cooldown: Cooldown,
    pub last_als: Option<u64>,
    pub output_name: String,
    pub scale: Scale,
}

/// The largest number up to which doubles hold every whole number.
pub const EXACT_LIMIT: u128 = 0x20_0000_0000_0000;

/// By how much a brightness is reduced: so many percent of it, rounded down.
pub open spec fn reduction_of(brightness: u64, percent: Option<u64>) -> int {
    match percent {
        Some(percent) => brightness * percent / 100,
        None => 0,
    }
}

/// The product of a brightness and a percentage is one that doubles hold.
pub open spec fn is_exact(brightness: u64, percent: Option<u64>) -> bool {
    percent matches Some(percent) ==> brightness * percent <= EXACT_LIMIT
}

/// By how much a brightness is reduced, as far as that does not depend on how doubles are
/// rounded.
pub fn brightness_reduction(brightness: u64, percent: Option<u64>) -> (r: Option<u64>)
    ensures
        r is Some <==> is_exact(brightness, percent),
        r matches Some(reduction) ==> reduction == reduction_of(brightness, percent),
{
    match percent {
        Some(percent) => {
            assert(0 <= brightness * percent <= 0xffff_ffff_ffff_ffff * 0xffff_ffff_ffff_ffff)
                by (nonlinear_arith)
                requires
                    0 <= brightness <= 0xffff_ffff_ffff_ffff,
                    0 <= percent <= 0xffff_ffff_ffff_ffff,
            ;
            let product: u128 = brightness as u128 * percent as u128;
            if product <= EXACT_LIMIT {
                Some((product / 100) as u64)
            } else {
                None
            }
        },
        None => Some(0),
    }
}

/// A brightness, and by how much it is reduced under the present conditions.
#[derive(Clone, Copy, Debug, PartialEq, Eq, Structural)]
pub struct Reduced {
    pub brightness: u64,
    pub reduction: u64,
}

/// What is known of the brightness: what it was last, and what it was before it was reduced.
pub ghost struct Known {
    pub last: u64,
    pub before: int,
}

/// A brightness that others have set: it counts as reduced already.
pub open spec fn taken_over(brightness: u64, reduction: u64) -> Known {
    Known { last: brightness, before: brightness + reduction }
}

/// What is predicted.
pub open spec fn prediction_of(known: Known, reduction: u64) -> int {
    if known.before < reduction {
        0
    } else {
        known.before - reduction
    }
}

/// What `adjust` leads to: the state `after` it, and the prediction `r`.
pub open spec fn is_adjusted(
    before: Controller,
    after: Controller,
    initial: Option<Reduced>,
    received: Option<u64>,
    reduction: u64,
    now: u128,
    r: Option<u64>,
) -> bool {
    let known = before.known(initial);
    let changed = before.is_changed(initial, received);
    let waits = before.pending_cooldown.lasts(now);
    let kept = if changed {
        taken_over(received->0, reduction)
    } else {
        known
    };
    &&& after == (Controller {
        last_brightness: Some(kept.last),
        pre_reduction_brightness: Some(kept.before as u64),
        pending_cooldown: Cooldown {
            until: if changed {
                Some((now + PENDING_COOLDOWN) as u128)
            } else if waits {
                before.pending_cooldown.until
            } else {
                None
            },
        },
        ..before
    })
    &&& r is Some <==> !changed && !waits
    &&& r matches Some(prediction) ==> prediction == prediction_of(known, reduction)
}

/// A reduction depends on how doubles are rounded.
#[derive(Clone, Copy, Debug, PartialEq, Eq, Structural)]
pub struct NotExact;

/// A brightness at the start, reduced by a percentage.
pub open spec fn reduced(initial: Option<u64>, percent: Option<u64>) -> Option<Reduced> {
    match initial {
        Some(brightness) => Some(
            Reduced { brightness, reduction: reduction_of(brightness, percent) as u64 },
        ),
        None => None,
    }
}

/// A reduction that is exact is small enough to be added.
proof fn lemma_sum_fits(brightness: u64, percent: Option<u64>)
    requires
        is_exact(brightness, percent),
    ensures
        0 <= reduction_of(brightness, percent),
        brightness + reduction_of(brightness, percent) <= u64::MAX,
{
    if let Some(percent) = percent {
        if percent == 0 {
            assert(brightness * percent == 0) by (nonlinear_arith)
                requires
                    percent == 0,
            ;
        } else {
            assert(brightness * percent >= brightness) by (nonlinear_arith)
                requires
                    percent >= 1,
                    brightness >= 0,
            ;
        }
    }
}

impl Controller {
    /// The user has set another brightness than the one that is known.
    pub open spec fn is_changed(self, initial: Option<Reduced>, received: Option<u64>) -> bool {
        received matches Some(brightness) && brightness != self.known(initial).last
    }

    /// The brightness that counts: what the user has set, or what is known, or what it was at the
    /// start.
    pub open spec fn counted(self, initial: Option<u64>, received: Option<u64>) -> u64 {
        match received {
            Some(received) => received,
            None => match self.last_brightness {
                Some(last) => last,
                None => initial->0,
            },
        }
    }

    /// All reductions by a percentage that are needed are exact.
    pub open spec fn is_computable(
        self,
        initial: Option<u64>,
        received: Option<u64>,
        percent: Option<u64>,
    ) -> bool {
        &&& self.last_brightness is None ==> is_exact(initial->0, percent)
        &&& is_exact(self.counted(initial, received), percent)
    }

    /// What was known before the call, or the initial brightness where nothing was.
    pub open spec fn known(self, initial: Option<Reduced>) -> Known {
        match self.last_brightness {
            Some(last) => Known { last, before: self.pre_reduction_brightness->0 as int },
            None => taken_over(initial->0.brightness, initial->0.reduction),
        }
    }

    /// Once a brightness is known, so is what it was before it was reduced.
    pub open spec fn wf(self) -> bool {
        self.last_brightness is Some <==> self.pre_reduction_brightness is Some
    }

    pub fn new(points: Vec<Entry>, output_name: &str, scale: Scale) -> (r: Controller)
        ensures
            r.wf(),
            r.last_brightness is None,
            r.points@ == points@,
            r.pre_reduction_brightness is None,
            r.pending_cooldown == (Cooldown { until: None }),
            r.last_als is None,
            r.output_name@ == output_name@,
            r.scale == scale,
    {
        Controller {
            last_brightness: None,
            points,
            pre_reduction_brightness: None,
            pending_cooldown: Cooldown::default(),
            last_als: None,
            output_name: output_name.to_string(),
            scale,
        }
    }

    /// Takes note of the ambient light, where there is news of it. Gives what is known then.
    pub fn hear(&mut self, als: Option<u64>) -> (r: Option<u64>)
        ensures
            r == if als is Some {
                als
            } else {
                old(self).last_als
            },
            *final(self) == (Controller { last_als: r, ..*old(self) }),
    {
        if als.is_some() {
            self.last_als = als;
        }
        self.last_als
    }

    /// Whether a brightness has to be given before anything can be predicted.
    pub fn needs_brightness(&self) -> (r: bool)
        ensures
            r == (self.last_brightness is None),
    {
        self.last_brightness.is_none()
    }

    /// The brightness that counts: what the user has set, or what is known, or what it was at the
    /// start.
    pub fn current(&self, initial: Option<Reduced>, received: Option<u64>) -> (r: Option<u64>)
        ensures
            r == match received {
                Some(received) => Some(received),
                None => match self.last_brightness {
                    Some(last) => Some(last),
                    None => match initial {
                        Some(initial) => Some(initial.brightness),
                        None => None,
                    },
                },
            },
    {
        match received {
            Some(received) => Some(received),
            None => match self.last_brightness {
                Some(last) => Some(last),
                None => match initial {
                    Some(initial) => Some(initial.brightness),
                    None => None,
                },
            },
        }
    }

    fn process_brightness_change(&mut self, brightness: u64, reduction: u64)
        requires
            brightness + reduction <= u64::MAX,
        ensures
            *final(self) == (Controller {
                last_brightness: Some(brightness),
                pre_reduction_brightness: Some((brightness + reduction) as u64),
                ..*old(self)
            }),
    {
        self.pre_reduction_brightness = Some(brightness + reduction);
        self.last_brightness = Some(brightness);
    }

    /// What to set the brightness to, where anything is predicted. `initial` is the brightness
    /// at the start, `received` what the user has set it to since, and `reduction` by how much to
    /// reduce the brightness that counts under the present conditions. A change by the user is
    /// taken over, and nothing is predicted for a while.
    pub fn adjust(
        &mut self,
        initial: Option<Reduced>,
        received: Option<u64>,
        reduction: u64,
        now: u128,
    ) -> (r: Option<u64>)
        requires
            old(self).wf(),
            old(self).last_brightness is None ==> initial is Some && initial->0.brightness
                + initial->0.reduction <= u64::MAX,
            old(self).is_changed(initial, received) ==> received->0 + reduction <= u64::MAX && now
                + PENDING_COOLDOWN <= u128::MAX,
        ensures
            final(self).wf(),
            is_adjusted(*old(self), *final(self), initial, received, reduction, now, r),
    {
        let last = match self.last_brightness {
            Some(last) => last,
            None => match initial {
                Some(initial) => {
                    self.process_brightness_change(initial.brightness, initial.reduction);
                    initial.brightness
                },
                None => 0,
            },
        };
        let current = match received {
            Some(received) => received,
            None => last,
        };
        if current != last {
            self.process_brightness_change(current, reduction);
            self.pending_cooldown.reset(now, PENDING_COOLDOWN);
            return None;
        }
        if self.pending_cooldown.is_active(now) {
            return None;
        }
        self.pending_cooldown.clear();
        let before = match self.pre_reduction_brightness {
            Some(before) => before,
            None => 0,
        };
        Some(
            if before < reduction {
                0
            } else {
                before - reduction
            },
        )
    }
}

impl Controller {
    /// What to set the brightness to, where anything is predicted. `initial` is the brightness at
    /// the start, `received` what the user has set it to since, and `percent` by how many percent the
    /// brightness is to be reduced under the present conditions. Each brightness is reduced by its
    /// own share. Nothing changes where a reduction depends on how doubles are rounded.
    pub fn adjust_by_percent(
        &mut self,
        initial: Option<u64>,
        received: Option<u64>,
        percent: Option<u64>,
        now: u128,
    ) -> (r: Result<Option<u64>, NotExact>)
        requires
            old(self).wf(),
            old(self).last_brightness is None ==> initial is Some,
            old(self).is_changed(reduced(initial, percent), received) ==> now + PENDING_COOLDOWN
                <= u128::MAX,
        ensures
            final(self).wf(),
            r is Ok <==> old(self).is_computable(initial, received, percent),
            r is Err ==> *final(self) == *old(self),
            r matches Ok(prediction) ==> is_adjusted(
                *old(self),
                *final(self),
                reduced(initial, percent),
                received,
                reduction_of(old(self).counted(initial, received), percent) as u64,
                now,
                prediction,
            ),
    {
        let start = match (self.last_brightness, initial) {
            (None, Some(brightness)) => match brightness_reduction(brightness, percent) {
                Some(reduction) => {
                    proof {
                        lemma_sum_fits(brightness, percent);
                    }
                    Some(Reduced { brightness, reduction })
                },
                None => {
                    return Err(NotExact);
                },
            },
            _ => None,
        };
        let counted = match received {
            Some(received) => received,
            None => match self.last_brightness {
                Some(last) => last,
                None => match initial {
                    Some(initial) => initial,
                    None => 0,
                },
            },
        };
        match brightness_reduction(counted, percent) {
            Some(reduction) => {
                proof {
                    lemma_sum_fits(counted, percent);
                }
                Ok(self.adjust(start, received, reduction, now))
            },
            None => Err(NotExact),
        }
    }
}

/// A brightness that the user has set is kept as long as the conditions stay: what is predicted
/// under the conditions under which it was set is that brightness itself.
pub proof fn same_conditions_keep_brightness(brightness: u64, reduction: u64)
    ensures
        prediction_of(taken_over(brightness, reduction), reduction) == brightness,
{
}

/// The more the brightness is to be reduced, the lower the prediction.
pub proof fn larger_reduction_predicts_less(
    known: Known,
    percent: u64,
    larger: u64,
    reduction: u64,
    other: u64,
)
    requires
        percent <= larger,
        reduction == reduction_of(known.last, Some(percent)),
        other == reduction_of(known.last, Some(larger)),
    ensures
        prediction_of(known, other) <= prediction_of(known, reduction),
{
    let b = known.last as int;
    assert(b * percent <= b * larger) by (nonlinear_arith)
        requires
            0 <= b,
            percent <= larger,
    ;
}

/// A reduction is the share of the brightness that was asked for, rounded down.
pub proof fn reduction_is_a_share(brightness: u64, percent: u64)
    ensures
        ({
            let reduction = reduction_of(brightness, Some(percent));
            &&& 100 * reduction <= brightness * percent < 100 * (reduction + 1)
            &&& percent == 0 ==> reduction == 0
            &&& percent == 100 ==> reduction == brightness
        }),
        reduction_of(brightness, None) == 0,
{
    let product = brightness * percent;
    assert(product >= 0) by (nonlinear_arith)
        requires
            product == brightness * percent,
            brightness >= 0,
            percent >= 0,
    ;
    assert(percent == 0 ==> product == 0) by (nonlinear_arith)
        requires
            product == brightness * percent,
    ;
    assert(percent == 100 ==> product == 100 * brightness) by (nonlinear_arith)
        requires
            product == brightness * percent,
    ;
}

/// A choice of the user is taken over: it is known from then on, as reduced already, and nothing is
/// predicted for a second and a half. Otherwise what is known stays, and as soon as that time is over, it
/// is predicted what the brightness was before it was reduced, less the present reduction.
pub proof fn choice_of_user_is_taken_over(
    before: Controller,
    after: Controller,
    initial: Option<Reduced>,
    received: Option<u64>,
    reduction: u64,
    now: u128,
    r: Option<u64>,
)
    requires
        before.wf(),
        before.last_brightness is None ==> initial is Some && initial->0.brightness
            + initial->0.reduction <= u64::MAX,
        received is Some ==> received->0 + reduction <= u64::MAX,
        now + 1_500_000_000 <= u128::MAX,
        is_adjusted(before, after, initial, received, reduction, now, r),
    ensures
        ({
            let last = if before.last_brightness is Some {
                before.last_brightness->0
            } else {
                initial->0.brightness
            };
            let full = if before.last_brightness is Some {
                before.pre_reduction_brightness->0 as int
            } else {
                initial->0.brightness + initial->0.reduction
            };
            let chosen = received is Some && received->0 != last;
            let waits = before.pending_cooldown.until is Some && now
                < before.pending_cooldown.until->0;
            &&& chosen ==> r is None && after.last_brightness == received
                && after.pre_reduction_brightness == Some((received->0 + reduction) as u64)
                && after.pending_cooldown.until == Some((now + 1_500_000_000) as u128)
            &&& !chosen ==> after.last_brightness == Some(last) && after.pre_reduction_brightness
                == Some(full as u64)
            &&& !chosen && waits ==> r is None && after.pending_cooldown == before.pending_cooldown
            &&& !chosen && !waits ==> r is Some && after.pending_cooldown.until is None
            &&& r matches Some(prediction) ==> prediction == full - reduction || prediction == 0 && full
                < reduction
            &&& after.points == before.points && after.last_als == before.last_als
                && after.output_name == before.output_name && after.scale == before.scale
        }),
{
}

/// The brightness that is reduced is the one that counts: what the user has set since, or else what is
/// known, or else what it was at the start.
pub proof fn newest_brightness_counts(c: Controller, initial: u64, received: Option<u64>)
    ensures
        received matches Some(b) ==> c.counted(Some(initial), received) == b,
        received is None && c.last_brightness is Some ==> Some(c.counted(Some(initial), received))
            == c.last_brightness,
        received is None && c.last_brightness is None ==> c.counted(Some(initial), received) == initial,
{
}

/// A brightness that was chosen under one reduction is predicted under another one as much darker or
/// brighter as their shares of it differ, but never as darker than nothing.
pub proof fn prediction_moves_by_the_difference(chosen: u64, percent: u64, now: u64)
    requires
        is_exact(chosen, Some(percent)),
        is_exact(chosen, Some(now)),
    ensures
        ({
            let then = reduction_of(chosen, Some(percent));
            let share = reduction_of(chosen, Some(now));
            let prediction = prediction_of(taken_over(chosen, then as u64), share as u64);
            prediction == chosen + then - share || prediction == 0 && chosen + then < share
        }),
{
    lemma_sum_fits(chosen, Some(percent));
    lemma_sum_fits(chosen, Some(now));
}

/// A reduction is exact as long as the product that it is made of is one that doubles hold, and all that
/// are needed have to be.
pub proof fn small_products_are_exact(
    c: Controller,
    initial: u64,
    received: Option<u64>,
    brightness: u64,
    percent: u64,
)
    ensures
        is_exact(brightness, None),
        is_exact(brightness, Some(percent)) <==> brightness * percent <= 0x20_0000_0000_0000,
        reduced(None, Some(percent)) is None,
        reduced(Some(initial), Some(percent)) matches Some(r) && r.brightness == initial && r.reduction
            == reduction_of(initial, Some(percent)) as u64,
        c.is_computable(Some(initial), received, Some(percent)) <==> (c.last_brightness is None
            ==> initial * percent <= 0x20_0000_0000_0000) && c.counted(Some(initial), received)
            * percent <= 0x20_0000_0000_0000,
        c.is_computable(Some(initial), received, None),
        reduction_of(brightness, None) == 0,
{
}

} // verus!
