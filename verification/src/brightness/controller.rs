//! Decisions of the loop that drives one brightness device.
//!
//! The caller reads and writes the device, receives predictions and sleeps; the
//! [`Controller`] decides what each reading, prediction and command leads to.
//! Times are nanoseconds of a monotonic clock.

use super::{percent, percent_of, value_at_percent, value_of};
use crate::control::Adjustment;
use vstd::prelude::*;

verus! {

/// How long a transition to a predicted brightness may take.
pub const TRANSITION_MAX_MS: u64 = 200;

const NANOS_PER_SECOND: u128 = 1_000_000_000;

/// The last second that the monotonic clock can name.
pub const LAST_CLOCK_SECOND: u128 = 0x7fff_ffff_ffff_ffff;

/// A brightness on the way to which the device moves by `step` at a time.
#[derive(Clone, Copy, Debug, PartialEq, Eq, Structural)]
pub struct Target {
    pub desired: u64,
    pub step: i64,
}

/// A command to one output.
#[derive(Clone, Copy, Debug, PartialEq, Eq, Structural)]
pub enum CommandAction {
    Get,
    SetTo(Adjustment),
    /// For so many seconds, or until it is resumed.
    Pause(Option<u64>),
    Resume,
    Toggle,
    IdleEnter(u8),
    IdleLeave,
}

#[derive(Clone, Copy, Debug, PartialEq, Eq, Structural)]
pub struct Controller {
    /// The brightness that the device was last known to have.
    pub current: Option<u64>,
    pub target: Option<Target>,
    /// Set while a client has paused the output, with the end of a timed pause.
    pub paused_until: Option<Option<u128>>,
    pub idle: bool,
    /// The next reading is the starting point after a pause, not a choice of the user.
    pub resuming: bool,
}

/// What a reading leads to.
#[derive(Clone, Copy, Debug, PartialEq, Eq, Structural)]
pub enum StepAction {
    /// The user chose this brightness: tell the predictor.
    Learn(u64),
    /// The user chose a brightness while the output was paused: tell nobody.
    Ignore,
    /// Write this value to the device, then wait for one transition step.
    Write(u64),
    /// The target is reached.
    Settled,
    /// There is nothing to do.
    Wait,
}

/// What a change of the pause state asks of the caller.
#[derive(Clone, Copy, Debug, PartialEq, Eq, Structural)]
pub struct PauseChange {
    pub manual: bool,
    pub idle: bool,
    /// Predictions made while the output was paused are to be dropped.
    pub discard_predictions: bool,
}

/// Why a command reads the device.
#[derive(Clone, Copy, Debug, PartialEq, Eq, Structural)]
pub enum ReadReason {
    Get,
    Adjust(Adjustment),
    Dim(u8),
}

/// How a command goes on.
#[derive(Clone, Copy, Debug, PartialEq, Eq, Structural)]
pub enum Execution {
    /// Read the device, then call [`Controller::read`].
    Read(Option<PauseChange>, ReadReason),
    /// Adjust this brightness, write the result, then call [`Controller::written`].
    Adjust(u64, Adjustment),
    Done(PauseChange),
}

/// The pause ends later than the clock can tell.
#[derive(Clone, Copy, Debug, PartialEq, Eq, Structural)]
pub struct PauseTooLong;

impl PauseTooLong {
    /// What the error says.
    pub fn message(&self) -> (r: &'static str)
        ensures
            r@ == "pause duration is too large"@,
    {
        "pause duration is too large"
    }
}

/// What a command does with the brightness that it read.
#[derive(Clone, Copy, Debug, PartialEq, Eq, Structural)]
pub enum ReadStep {
    Reply(u64),
    Adjust(u64, Adjustment),
    /// Write this value, then call [`Controller::written`].
    Dim(u64),
}

#[derive(Clone, Copy, Debug, PartialEq, Eq, Structural)]
pub struct ReadOutcome {
    /// A brightness for the predictor.
    pub learn: Option<u64>,
    /// A brightness for the status.
    pub report: Option<u64>,
    pub step: ReadStep,
}

/// Why a command wrote to the device.
#[derive(Clone, Copy, Debug, PartialEq, Eq, Structural)]
pub enum WriteReason {
    Adjust,
    Dim,
}

#[derive(Clone, Copy, Debug, PartialEq, Eq, Structural)]
pub struct WriteOutcome {
    pub discard_predictions: bool,
    pub report: Option<u64>,
    pub learn: Option<u64>,
}

pub open spec fn distance(a: int, b: int) -> int {
    if a <= b {
        b - a
    } else {
        a - b
    }
}

/// `a / b`, rounded up.
pub open spec fn ceil_div(a: int, b: int) -> int {
    (a + b - 1) / b
}

/// How many steps of `step_ms` fill the time of a transition.
pub open spec fn transition_steps(step_ms: u64) -> int {
    ceil_div(TRANSITION_MAX_MS as int, step_ms as int)
}

/// How far each step of a transition goes.
pub open spec fn step_size(from: u64, to: u64, step_ms: u64) -> int {
    ceil_div(distance(from as int, to as int), transition_steps(step_ms))
}

/// The target that leads from `from` to `to`. A step that does not fit wraps around.
pub open spec fn target_to(from: u64, to: u64, step_ms: u64) -> Target {
    let size = step_size(from, to, step_ms) as i64;
    Target {
        desired: to,
        step: if to > from {
            size
        } else {
            (-size) as i64
        },
    }
}

/// The step from `from` to `to` can be told: it does not wrap around to the one number
/// that has no negative.
pub open spec fn has_step(from: u64, to: u64, step_ms: u64) -> bool {
    to > from || step_size(from, to, step_ms) != 0x8000_0000_0000_0000
}

/// One step from `current`, which stops at either end of the range.
pub open spec fn stepped(current: u64, step: i64) -> u64 {
    let next = current + step;
    if next < 0 {
        0
    } else if next > u64::MAX {
        u64::MAX
    } else {
        next as u64
    }
}

/// The percentage that an adjustment leads to.
pub open spec fn adjusted_percent(current: u8, adjustment: Adjustment) -> int {
    if !adjustment.relative {
        adjustment.percent as int
    } else if adjustment.increase {
        if current + adjustment.percent > 100 {
            100
        } else {
            current + adjustment.percent
        }
    } else if current < adjustment.percent {
        0
    } else {
        current - adjustment.percent
    }
}

/// The brightness to which an idle output is dimmed: `percent` of the current
/// one, but not below the least.
pub open spec fn dimmed(current: u64, percent: u8, min: u64) -> int {
    let product = current * percent;
    let scaled = (if product > u64::MAX {
        u64::MAX as int
    } else {
        product
    }) / 100;
    if scaled < min {
        min as int
    } else if scaled > current {
        current as int
    } else {
        scaled
    }
}

/// How far each step of a transition over `gap` goes.
fn find_step_size(gap: u64, step_ms: u64) -> (r: u64)
    requires
        step_ms > 0,
    ensures
        r == ceil_div(gap as int, transition_steps(step_ms)),
{
    let steps: u64 = TRANSITION_MAX_MS / step_ms + (if TRANSITION_MAX_MS % step_ms != 0 {
        1
    } else {
        0
    });
    proof {
        lemma_ceil(TRANSITION_MAX_MS as int, step_ms as int);
        assert(steps == transition_steps(step_ms));
        lemma_ceil(gap as int, steps as int);
    }
    let rest: u64 = if gap % steps != 0 {
        1
    } else {
        0
    };
    gap / steps + rest
}

impl Target {
    pub open spec fn is_reached(self, current: u64) -> bool {
        (self.step > 0 && current >= self.desired) || (self.step < 0 && current <= self.desired)
    }

    /// Whether `current` has come as far as the target, or further.
    pub fn reached(&self, current: u64) -> (r: bool)
        ensures
            r == self.is_reached(current),
            self.step > 0 ==> (r <==> current >= self.desired),
            self.step < 0 ==> (r <==> current <= self.desired),
            self.step == 0 ==> !r,
    {
        (self.step > 0 && current >= self.desired) || (self.step < 0 && current <= self.desired)
    }
}

impl Controller {
    pub open spec fn paused(self) -> bool {
        self.paused_until is Some || self.idle
    }

    /// A prediction becomes the new target: it is not the target already, nor too near to what the
    /// device shows.
    pub open spec fn takes(self, desired: u64, threshold: u64) -> bool {
        &&& !(self.target matches Some(t) && t.desired == desired)
        &&& distance(desired as int, self.current->0 as int) >= threshold
    }

    /// The state after a prediction.
    pub open spec fn with_prediction(self, desired: u64, threshold: u64, step_ms: u64) -> Self {
        if self.takes(desired, threshold) {
            Controller { target: Some(target_to(self.current->0, desired, step_ms)), ..self }
        } else {
            self
        }
    }

    /// The state after the next transition step was decided.
    pub open spec fn after_transition(self) -> Self {
        if self.target->0.is_reached(self.current->0) {
            Controller { target: None, ..self }
        } else {
            self
        }
    }

    pub open spec fn transition_action(self) -> StepAction {
        if self.target->0.is_reached(self.current->0) {
            StepAction::Settled
        } else {
            StepAction::Write(stepped(self.current->0, self.target->0.step))
        }
    }

    /// The state from which a reading that is no choice of the user goes on.
    pub open spec fn settled_on(self, reading: u64) -> Self {
        if self.resuming {
            Controller { resuming: false, current: Some(reading), target: None, ..self }
        } else {
            self
        }
    }

    /// The reading differs from what is known, and no pause has just ended.
    pub open spec fn is_user_change(self, reading: u64) -> bool {
        !self.resuming && self.current != Some(reading)
    }

    /// The state once the reading and the prediction that came with it are known,
    /// before the transition goes on.
    pub open spec fn predicted(
        self,
        reading: u64,
        prediction: Option<u64>,
        threshold: u64,
        step_ms: u64,
    ) -> Self {
        let settled = self.settled_on(reading);
        match prediction {
            Some(desired) if !self.paused() => settled.with_prediction(desired, threshold, step_ms),
            _ => settled,
        }
    }

    /// Where the prediction that came with a reading becomes the target, there is a step to it.
    pub open spec fn is_observable(
        self,
        reading: u64,
        prediction: Option<u64>,
        threshold: u64,
        step_ms: u64,
    ) -> bool {
        match prediction {
            Some(desired) => {
                !self.is_user_change(reading) && !self.paused() && self.settled_on(reading).takes(
                    desired,
                    threshold,
                ) ==> step_ms > 0 && has_step(reading, desired, step_ms)
            },
            None => true,
        }
    }

    /// The state after the pause state was changed, from `before`.
    pub open spec fn pause_changed(self, before: Self) -> Self {
        Controller {
            resuming: self.resuming || (before.paused() && !self.paused()),
            target: None,
            ..self
        }
    }

    pub open spec fn pause_change(self, before: Self) -> PauseChange {
        PauseChange {
            manual: self.paused_until is Some,
            idle: self.idle,
            discard_predictions: before.paused() && !self.paused(),
        }
    }

    pub open spec fn manually_paused(self, until: Option<Option<u128>>) -> Self {
        Controller { paused_until: until, ..self }.pause_changed(self)
    }

    pub open spec fn idled(self, idle: bool) -> Self {
        Controller { idle, ..self }.pause_changed(self)
    }

    /// The end of a pause of so many seconds, where the clock can tell it.
    pub open spec fn deadline(seconds: u64, now: u128) -> Option<u128> {
        if (now + seconds * 1_000_000_000) / 1_000_000_000 <= LAST_CLOCK_SECOND {
            Some((now + seconds * 1_000_000_000) as u128)
        } else {
            None
        }
    }

    /// A controller that has seen nothing yet.
    pub fn new() -> (r: Self)
        ensures
            r == (Controller {
                current: None,
                target: None,
                paused_until: None,
                idle: false,
                resuming: false,
            }),
    {
        Controller { current: None, target: None, paused_until: None, idle: false, resuming: false }
    }

    /// Whether the output is left alone, for a client or for an absent user.
    pub fn is_paused(&self) -> (r: bool)
        ensures
            r == self.paused(),
            r <==> self.paused_until is Some || self.idle,
    {
        self.paused_until.is_some() || self.idle
    }

    fn pause_state_changed(&mut self, was_paused: bool) -> (r: PauseChange)
        ensures
            *final(self) == (Controller {
                resuming: old(self).resuming || (was_paused && !old(self).paused()),
                target: None,
                ..*old(self)
            }),
            r == (PauseChange {
                manual: old(self).paused_until is Some,
                idle: old(self).idle,
                discard_predictions: was_paused && !old(self).paused(),
            }),
    {
        let discard = was_paused && !self.is_paused();
        if discard {
            self.resuming = true;
        }
        self.target = None;
        PauseChange {
            manual: self.paused_until.is_some(),
            idle: self.idle,
            discard_predictions: discard,
        }
    }

    /// Begins, changes or ends a pause that a client asked for.
    pub fn set_manual_paused(&mut self, until: Option<Option<u128>>) -> (r: PauseChange)
        ensures
            *final(self) == old(self).manually_paused(until),
            r == final(self).pause_change(*old(self)),
    {
        let was_paused = self.is_paused();
        self.paused_until = until;
        self.pause_state_changed(was_paused)
    }

    /// Notes that the user is absent, or back.
    pub fn set_idle(&mut self, idle: bool) -> (r: PauseChange)
        ensures
            *final(self) == old(self).idled(idle),
            r == final(self).pause_change(*old(self)),
    {
        let was_paused = self.is_paused();
        self.idle = idle;
        self.pause_state_changed(was_paused)
    }

    /// Ends a timed pause whose time has come.
    pub fn expire_pause(&mut self, now: u128) -> (r: Option<PauseChange>)
        ensures
            r is Some <==> (old(self).paused_until matches Some(Some(end)) && now >= end),
            r matches Some(change) ==> {
                &&& *final(self) == old(self).manually_paused(None)
                &&& change == final(self).pause_change(*old(self))
            },
            r is None ==> *final(self) == *old(self),
    {
        match self.paused_until {
            Some(Some(end)) => {
                if now >= end {
                    Some(self.set_manual_paused(None))
                } else {
                    None
                }
            },
            _ => None,
        }
    }

    /// Takes a prediction as the new target, unless it is the target already or
    /// too near to what the device shows.
    pub fn update_target(&mut self, desired: u64, threshold: u64, step_ms: u64)
        requires
            old(self).current is Some || (old(self).target matches Some(t) && t.desired == desired),
            old(self).takes(desired, threshold) ==> step_ms > 0 && has_step(
                old(self).current->0,
                desired,
                step_ms,
            ),
        ensures
            *final(self) == old(self).with_prediction(desired, threshold, step_ms),
            final(self).current == old(self).current,
            final(self).target == old(self).target || (final(self).target matches Some(t) && t.desired
                == desired),
            final(self).paused_until == old(self).paused_until,
            final(self).idle == old(self).idle,
            final(self).resuming == old(self).resuming,
            old(self).target matches Some(t) && t.desired == desired ==> final(self).target == old(
                self,
            ).target,
            old(self).current matches Some(current) ==> {
                let gap = desired - current;
                &&& -threshold < gap < threshold ==> final(self).target == old(self).target
                &&& !(-threshold < gap < threshold) ==> (final(self).target matches Some(t) && t.desired
                    == desired)
            },
    {
        if let Some(target) = self.target {
            if target.desired == desired {
                return;
            }
        }
        if let Some(current) = self.current {
            let gap: u64 = if desired > current {
                desired - current
            } else {
                current - desired
            };
            if gap < threshold {
                return;
            }
            let size = find_step_size(gap, step_ms);
            assert(size != 0x8000_0000_0000_0000 ==> size as i64 != i64::MIN) by (bit_vector);
            let step: i64 = if desired > current {
                #[verifier::truncate]
                (size as i64)
            } else {
                -(#[verifier::truncate]
                (size as i64))
            };
            self.target = Some(Target { desired, step });
        }
    }

    fn transition(&mut self) -> (r: StepAction)
        requires
            old(self).target is Some,
            old(self).current is Some,
        ensures
            *final(self) == old(self).after_transition(),
            r == old(self).transition_action(),
    {
        if let (Some(target), Some(current)) = (self.target, self.current) {
            if target.reached(current) {
                self.target = None;
                StepAction::Settled
            } else if target.step >= 0 {
                StepAction::Write(current.saturating_add(target.step as u64))
            } else {
                StepAction::Write(current.saturating_sub((-(target.step as i128)) as u64))
            }
        } else {
            StepAction::Wait
        }
    }

    /// Whether the prediction that came with a reading can be followed, where it becomes the
    /// target.
    pub fn can_observe(
        &self,
        reading: u64,
        prediction: Option<u64>,
        threshold: u64,
        step_ms: u64,
    ) -> (r: bool)
        ensures
            r == self.is_observable(reading, prediction, threshold, step_ms),
    {
        let desired = match prediction {
            Some(desired) => desired,
            None => {
                return true;
            },
        };
        if self.is_paused() {
            return true;
        }
        if !self.resuming {
            if self.current != Some(reading) {
                return true;
            }
            if let Some(target) = self.target {
                if target.desired == desired {
                    return true;
                }
            }
        }
        let gap: u64 = if desired > reading {
            desired - reading
        } else {
            reading - desired
        };
        gap < threshold || (step_ms > 0 && (desired > reading || find_step_size(gap, step_ms)
            != 0x8000_0000_0000_0000))
    }

    /// Decides what a reading of the device leads to, given the last prediction
    /// that came since the reading before.
    pub fn observe(
        &mut self,
        reading: u64,
        prediction: Option<u64>,
        threshold: u64,
        step_ms: u64,
    ) -> (r: StepAction)
        requires
            old(self).is_observable(reading, prediction, threshold, step_ms),
        ensures
            old(self).is_user_change(reading) ==> {
                &&& *final(self) == (Controller {
                    current: Some(reading),
                    target: None,
                    ..*old(self)
                })
                &&& r == (if old(self).paused() {
                    StepAction::Ignore
                } else {
                    StepAction::Learn(reading)
                })
            },
            !old(self).is_user_change(reading) ==> {
                let next = old(self).predicted(reading, prediction, threshold, step_ms);
                &&& next.target is None ==> *final(self) == next && r == StepAction::Wait
                &&& next.target is Some ==> *final(self) == next.after_transition() && r
                    == next.transition_action()
            },
            // Whatever comes, the reading is what is known of the device, and pauses stay.
            final(self).current == Some(reading),
            final(self).paused_until == old(self).paused_until,
            final(self).idle == old(self).idle,
            !final(self).resuming,
            // Only a reading that nobody else accounts for is a choice of the user.
            r == StepAction::Learn(reading) <==> !old(self).resuming && old(self).current != Some(
                reading,
            ) && old(self).paused_until is None && !old(self).idle,
            r is Learn ==> r == StepAction::Learn(reading),
            r is Ignore <==> !old(self).resuming && old(self).current != Some(reading) && (
            old(self).paused_until is Some || old(self).idle),
            r is Learn || r is Ignore || r is Settled || r is Wait ==> final(self).target is None,
            // A prediction that is far enough from the reading is followed, up or down.
            prediction matches Some(desired) ==> {
                let gap = desired - reading;
                let counts = (old(self).resuming || old(self).current == Some(reading))
                    && old(self).paused_until is None && !old(self).idle;
                let known = !old(self).resuming && old(self).target is Some
                    && old(self).target->0.desired == desired;
                &&& counts && !known && (gap >= threshold || -gap >= threshold) && gap != 0 && -i64::MAX
                    <= gap <= i64::MAX ==> {
                    &&& final(self).target matches Some(t) && t.desired == desired && t.step != 0 && (
                    t.step > 0 <==> gap > 0)
                    &&& r matches StepAction::Write(v) && (v > reading <==> gap > 0) && (v < reading
                        <==> gap < 0)
                }
                &&& counts && final(self).target is Some && !known && final(self).target->0.desired
                    == desired && old(self).target != final(self).target ==> gap >= threshold || -gap
                    >= threshold
            },
            // A transition goes on with the same steps until the device is there.
            !old(self).resuming && old(self).current == Some(reading) && old(self).target is Some && (
            prediction is None || prediction == Some(old(self).target->0.desired)
                || old(self).paused_until is Some || old(self).idle) ==> {
                let target = old(self).target->0;
                let next = reading + target.step;
                let arrived = target.step > 0 && reading >= target.desired || target.step < 0
                    && reading <= target.desired;
                &&& arrived ==> r == StepAction::Settled
                &&& !arrived ==> final(self).target == Some(target)
                &&& !arrived && 0 <= next <= u64::MAX ==> r == StepAction::Write(next as u64)
                &&& !arrived && next < 0 ==> r == StepAction::Write(0)
                &&& !arrived && next > u64::MAX ==> r == StepAction::Write(u64::MAX)
            },
            // A prediction that is too near to the reading changes nothing.
            !old(self).resuming && old(self).current == Some(reading) && (prediction matches Some(
                desired,
            ) && -threshold < desired - reading < threshold) ==> match old(self).target {
                None => r == StepAction::Wait,
                Some(target) => {
                    let next = reading + target.step;
                    let arrived = target.step > 0 && reading >= target.desired || target.step < 0
                        && reading <= target.desired;
                    &&& arrived ==> r == StepAction::Settled
                    &&& !arrived ==> final(self).target == Some(target)
                    &&& !arrived && 0 <= next <= u64::MAX ==> r == StepAction::Write(next as u64)
                },
            },
            old(self).resuming && (prediction matches Some(desired) && -threshold < desired - reading
                < threshold) ==> r == StepAction::Wait,
            // Without a target and a prediction there is nothing to do.
            (old(self).resuming || old(self).current == Some(reading) && old(self).target is None) && (
            prediction is None || old(self).paused_until is Some || old(self).idle) ==> r
                == StepAction::Wait,
    {
        proof {
            if let Some(desired) = prediction {
                if step_ms > 0 && desired != reading {
                    lemma_followed(reading, desired, step_ms);
                }
            }
        }
        if self.resuming {
            self.resuming = false;
            self.current = Some(reading);
            self.target = None;
        } else if self.current != Some(reading) {
            self.current = Some(reading);
            self.target = None;
            return if self.is_paused() {
                StepAction::Ignore
            } else {
                StepAction::Learn(reading)
            };
        }
        if let Some(desired) = prediction {
            if !self.is_paused() {
                self.update_target(desired, threshold, step_ms);
            }
        }
        if self.target.is_some() {
            self.transition()
        } else {
            StepAction::Wait
        }
    }

    /// Notes what the device was set to by a transition step, where that succeeded.
    pub fn moved(&mut self, set: Option<u64>)
        ensures
            set is None ==> *final(self) == *old(self),
            set is Some ==> *final(self) == (Controller { current: set, ..*old(self) }),
    {
        if set.is_some() {
            self.current = set;
        }
    }

    /// Begins a command.
    pub fn execute(&mut self, action: CommandAction, now: u128) -> (r: Result<
        Execution,
        PauseTooLong,
    >)
        requires
            now / 1_000_000_000 <= LAST_CLOCK_SECOND,
        ensures
            r is Err <==> (action matches CommandAction::Pause(Some(seconds)) && Self::deadline(
                seconds,
                now,
            ) is None),
            r is Err ==> *final(self) == *old(self),
            r matches Ok(execution) ==> match action {
                CommandAction::Get => *final(self) == *old(self) && execution == Execution::Read(
                    None,
                    ReadReason::Get,
                ),
                CommandAction::SetTo(adjustment) => {
                    &&& *final(self) == *old(self)
                    &&& execution == (if old(self).paused() || old(self).current is None {
                        Execution::Read(None, ReadReason::Adjust(adjustment))
                    } else {
                        Execution::Adjust(old(self).current->0, adjustment)
                    })
                },
                CommandAction::Pause(seconds) => {
                    &&& *final(self) == old(self).manually_paused(
                        Some(
                            match seconds {
                                Some(seconds) => Self::deadline(seconds, now),
                                None => None,
                            },
                        ),
                    )
                    &&& execution == Execution::Done(final(self).pause_change(*old(self)))
                },
                CommandAction::Resume => {
                    &&& *final(self) == old(self).manually_paused(None)
                    &&& execution == Execution::Done(final(self).pause_change(*old(self)))
                },
                CommandAction::Toggle => {
                    &&& *final(self) == old(self).manually_paused(
                        if old(self).paused_until is Some {
                            None
                        } else {
                            Some(None)
                        },
                    )
                    &&& execution == Execution::Done(final(self).pause_change(*old(self)))
                },
                CommandAction::IdleEnter(percent) => {
                    &&& *final(self) == old(self).idled(true)
                    &&& execution == Execution::Read(
                        Some(final(self).pause_change(*old(self))),
                        ReadReason::Dim(percent),
                    )
                },
                CommandAction::IdleLeave => {
                    &&& *final(self) == old(self).idled(false)
                    &&& execution == Execution::Done(final(self).pause_change(*old(self)))
                },
            },
    {
        match action {
            CommandAction::Get => Ok(Execution::Read(None, ReadReason::Get)),
            CommandAction::SetTo(adjustment) => {
                if !self.is_paused() {
                    if let Some(current) = self.current {
                        return Ok(Execution::Adjust(current, adjustment));
                    }
                }
                Ok(Execution::Read(None, ReadReason::Adjust(adjustment)))
            },
            CommandAction::Pause(Some(seconds)) => {
                let end: u128 = now + seconds as u128 * NANOS_PER_SECOND;
                if end / NANOS_PER_SECOND > LAST_CLOCK_SECOND {
                    return Err(PauseTooLong);
                }
                Ok(Execution::Done(self.set_manual_paused(Some(Some(end)))))
            },
            CommandAction::Pause(None) => Ok(Execution::Done(self.set_manual_paused(Some(None)))),
            CommandAction::Resume => Ok(Execution::Done(self.set_manual_paused(None))),
            CommandAction::Toggle => {
                let until: Option<Option<u128>> = if self.paused_until.is_some() {
                    None
                } else {
                    Some(None)
                };
                Ok(Execution::Done(self.set_manual_paused(until)))
            },
            CommandAction::IdleEnter(percent) => {
                let change = self.set_idle(true);
                Ok(Execution::Read(Some(change), ReadReason::Dim(percent)))
            },
            CommandAction::IdleLeave => Ok(Execution::Done(self.set_idle(false))),
        }
    }

    /// Goes on with a command once the device was read. `min` is the least
    /// brightness of the device.
    pub fn read(&mut self, reason: ReadReason, value: u64, min: u64) -> (r: ReadOutcome)
        requires
            reason is Dim ==> min <= value,
        ensures
            match reason {
                ReadReason::Get => {
                    let changed = !old(self).paused() && old(self).current != Some(value);
                    &&& *final(self) == (if changed {
                        Controller { current: Some(value), target: None, ..*old(self) }
                    } else {
                        *old(self)
                    })
                    &&& r == (ReadOutcome {
                        learn: if changed {
                            Some(value)
                        } else {
                            None
                        },
                        report: if changed {
                            Some(value)
                        } else {
                            None
                        },
                        step: ReadStep::Reply(value),
                    })
                },
                ReadReason::Adjust(adjustment) => {
                    &&& *final(self) == (if old(self).paused() {
                        *old(self)
                    } else {
                        Controller { current: Some(value), target: None, ..*old(self) }
                    })
                    &&& r == (ReadOutcome {
                        learn: if old(self).paused() {
                            None
                        } else {
                            Some(value)
                        },
                        report: if old(self).paused() {
                            None
                        } else {
                            Some(value)
                        },
                        step: ReadStep::Adjust(value, adjustment),
                    })
                },
                ReadReason::Dim(percent) => {
                    let desired = dimmed(value, percent, min);
                    &&& desired < value ==> *final(self) == *old(self) && r.step == ReadStep::Dim(
                        desired as u64,
                    ) && r.report is None
                    &&& desired >= value ==> *final(self) == (Controller {
                        current: Some(value),
                        ..*old(self)
                    }) && r.step == ReadStep::Reply(value) && r.report == Some(value)
                    &&& r.learn == (if old(self).current is None {
                        Some(value)
                    } else {
                        None
                    })
                },
            },
            r.step matches ReadStep::Dim(to) ==> (reason matches ReadReason::Dim(percent) && min <= to
                < value && (value * percent <= u64::MAX ==> to == min || to == value * percent / 100)),
            r.step matches ReadStep::Reply(told) ==> told == value,
            r.step matches ReadStep::Adjust(from, a) ==> from == value && reason == ReadReason::Adjust(
                a,
            ),
    {
        match reason {
            ReadReason::Get => {
                let mut learn: Option<u64> = None;
                if !self.is_paused() && self.current != Some(value) {
                    self.current = Some(value);
                    self.target = None;
                    learn = Some(value);
                }
                ReadOutcome { learn, report: learn, step: ReadStep::Reply(value) }
            },
            ReadReason::Adjust(adjustment) => {
                let mut learn: Option<u64> = None;
                if !self.is_paused() {
                    self.current = Some(value);
                    self.target = None;
                    learn = Some(value);
                }
                ReadOutcome { learn, report: learn, step: ReadStep::Adjust(value, adjustment) }
            },
            ReadReason::Dim(percent) => {
                let learn: Option<u64> = if self.current.is_none() {
                    Some(value)
                } else {
                    None
                };
                proof {
                    assert(value * percent <= u64::MAX * 255) by (nonlinear_arith)
                        requires
                            value <= u64::MAX,
                            percent <= 255,
                    ;
                }
                let product: u128 = value as u128 * percent as u128;
                let capped: u64 = if product > u64::MAX as u128 {
                    u64::MAX
                } else {
                    product as u64
                };
                let scaled = capped / 100;
                let desired: u64 = if scaled < min {
                    min
                } else if scaled > value {
                    value
                } else {
                    scaled
                };
                if desired < value {
                    ReadOutcome { learn, report: None, step: ReadStep::Dim(desired) }
                } else {
                    self.current = Some(value);
                    ReadOutcome { learn, report: Some(value), step: ReadStep::Reply(value) }
                }
            },
        }
    }

    /// Goes on with a command once the device was set to `value`.
    pub fn written(&mut self, reason: WriteReason, value: u64) -> (r: WriteOutcome)
        ensures
            match reason {
                WriteReason::Adjust => {
                    &&& old(self).paused() ==> *final(self) == *old(self) && r == (WriteOutcome {
                        discard_predictions: false,
                        report: None,
                        learn: None,
                    })
                    &&& !old(self).paused() ==> *final(self) == (Controller {
                        current: Some(value),
                        target: None,
                        ..*old(self)
                    }) && r == (WriteOutcome {
                        discard_predictions: true,
                        report: Some(value),
                        learn: Some(value),
                    })
                },
                WriteReason::Dim => *final(self) == (Controller {
                    current: Some(value),
                    ..*old(self)
                }) && r == (WriteOutcome {
                    discard_predictions: false,
                    report: Some(value),
                    learn: None,
                }),
            },
    {
        match reason {
            WriteReason::Adjust => {
                if self.is_paused() {
                    WriteOutcome { discard_predictions: false, report: None, learn: None }
                } else {
                    self.current = Some(value);
                    self.target = None;
                    WriteOutcome {
                        discard_predictions: true,
                        report: Some(value),
                        learn: Some(value),
                    }
                }
            },
            WriteReason::Dim => {
                self.current = Some(value);
                WriteOutcome { discard_predictions: false, report: Some(value), learn: None }
            },
        }
    }

    /// The brightness that a finished command answers with: its own result, or
    /// what is known of the device.
    pub fn reply(&self, result: Option<u64>, min: u64) -> (r: u64)
        ensures
            r == (match (result, self.current) {
                (Some(value), _) => value,
                (None, Some(current)) => current,
                (None, None) => min,
            }),
    {
        match (result, self.current) {
            (Some(value), _) => value,
            (None, Some(current)) => current,
            (None, None) => min,
        }
    }
}

/// The percentage that an adjustment leads to from `current`.
pub fn adjust_percent(current: u8, adjustment: Adjustment) -> (r: u8)
    ensures
        r == adjusted_percent(current, adjustment),
{
    if !adjustment.relative {
        adjustment.percent
    } else if adjustment.increase {
        let sum: u16 = current as u16 + adjustment.percent as u16;
        if sum > 100 {
            100
        } else {
            sum as u8
        }
    } else if current < adjustment.percent {
        0
    } else {
        current - adjustment.percent
    }
}

/// The brightness that an adjustment leads to from `current`, on a device with the given range.
pub open spec fn adjusted_value(current: u64, adjustment: Adjustment, min: u64, max: u64) -> int {
    value_of(
        adjusted_percent(percent_of(current, max) as u8, adjustment) as u8,
        min,
        max,
    )
}

/// The brightness that an adjustment leads to from `current`, on a device with the given range.
pub fn adjusted(current: u64, adjustment: Adjustment, min: u64, max: u64) -> (r: u64)
    ensures
        r == adjusted_value(current, adjustment, min, max),
{
    value_at_percent(adjust_percent(percent(current, max), adjustment), min, max)
}

/// Rounding up is rounding down and one more where something is left.
proof fn lemma_ceil(a: int, b: int)
    requires
        a >= 0,
        b > 0,
    ensures
        ceil_div(a, b) == a / b + (if a % b != 0 {
            1int
        } else {
            0
        }),
        ceil_div(a, b) * b >= a,
        a > 0 ==> (ceil_div(a, b) - 1) * b < a,
        a > 0 ==> ceil_div(a, b) > 0,
        a == 0 ==> ceil_div(a, b) == 0,
        ceil_div(a, b) <= a,
{
    let q = a / b;
    let m = a % b;
    assert(a == q * b + m && 0 <= m < b) by {
        vstd::arithmetic::div_mod::lemma_fundamental_div_mod(a, b);
        assert(b * q == q * b) by (nonlinear_arith);
    }
    if m == 0 {
        assert((a + b - 1) / b == q) by (nonlinear_arith)
            requires
                a == q * b,
                b > 0,
        ;
        assert(a > 0 ==> q > 0) by (nonlinear_arith)
            requires
                a == q * b,
                b > 0,
        ;
    } else {
        assert((a + b - 1) / b == q + 1) by (nonlinear_arith)
            requires
                a == q * b + m,
                0 < m < b,
        ;
        assert((q + 1) * b == q * b + b) by (nonlinear_arith);
        assert(q >= 0) by (nonlinear_arith)
            requires
                a == q * b + m,
                a >= 0,
                m < b,
                b > 0,
        ;
    }
    let c = ceil_div(a, b);
    assert((c - 1) * b == c * b - b) by (nonlinear_arith);
    if a > 0 {
        assert(c - 1 <= (c - 1) * b) by (nonlinear_arith)
            requires
                c > 0,
                b > 0,
        ;
    }
}

/// The brightness after `n` transition steps from `current`.
pub open spec fn after_steps(current: u64, step: i64, n: nat) -> u64
    decreases n,
{
    if n == 0 {
        current
    } else {
        stepped(after_steps(current, step, (n - 1) as nat), step)
    }
}

/// A target moves towards what is desired, by the smallest step that gets there
/// within the time of a transition.
pub proof fn step_is_minimal(from: u64, to: u64, step_ms: u64)
    requires
        step_ms > 0,
        from != to,
        step_size(from, to, step_ms) <= i64::MAX,
    ensures
        ({
            let step = target_to(from, to, step_ms).step;
            let steps = transition_steps(step_ms);
            let size = distance(step as int, 0);
            &&& step > 0 <==> to > from
            &&& step < 0 <==> to < from
            &&& size * steps >= distance(from as int, to as int)
            &&& (size - 1) * steps < distance(from as int, to as int)
        }),
{
    lemma_ceil(TRANSITION_MAX_MS as int, step_ms as int);
    lemma_ceil(distance(from as int, to as int), transition_steps(step_ms));
}

proof fn lemma_after_steps(from: u64, step: i64, n: nat)
    ensures
        after_steps(from, step, n) == (if from + n * step < 0 {
            0
        } else if from + n * step > u64::MAX {
            u64::MAX as int
        } else {
            from + n * step
        }),
    decreases n,
{
    if n == 0 {
        assert(0 * step == 0);
    } else {
        let m = (n - 1) as nat;
        lemma_after_steps(from, step, m);
        assert(n * step == m * step + step) by (nonlinear_arith)
            requires
                n == m + 1,
        ;
        assert(step >= 0 ==> m * step >= 0) by (nonlinear_arith);
        assert(step <= 0 ==> m * step <= 0) by (nonlinear_arith);
    }
}

/// The first step to a target goes towards it.
proof fn lemma_followed(from: u64, to: u64, step_ms: u64)
    requires
        step_ms > 0,
        from != to,
    ensures
        distance(from as int, to as int) <= i64::MAX ==> {
            let target = target_to(from, to, step_ms);
            &&& target.desired == to
            &&& target.step > 0 <==> to > from
            &&& target.step < 0 <==> to < from
            &&& stepped(from, target.step) > from <==> to > from
            &&& stepped(from, target.step) < from <==> to < from
            &&& !target.is_reached(from)
        },
{
    lemma_ceil(TRANSITION_MAX_MS as int, step_ms as int);
    lemma_ceil(distance(from as int, to as int), transition_steps(step_ms));
    if distance(from as int, to as int) <= i64::MAX {
        step_is_minimal(from, to, step_ms);
    }
}

/// A prediction that is followed is reached within a fifth of a second, and not by larger steps than
/// that needs. `n` is how many steps fit into that time, the last one begun.
pub proof fn transition_takes_a_fifth_of_a_second(from: u64, to: u64, step_ms: u64, n: int)
    requires
        step_ms > 0,
        from != to,
        -i64::MAX <= to - from <= i64::MAX,
        (n - 1) * step_ms < 200 <= n * step_ms,
    ensures
        ({
            let step = target_to(from, to, step_ms).step as int;
            let size = if step < 0 {
                -step
            } else {
                step
            };
            let gap = if to > from {
                to - from
            } else {
                from - to
            };
            &&& target_to(from, to, step_ms).desired == to
            &&& step > 0 <==> to > from
            &&& size * n >= gap
            &&& (size - 1) * n < gap
        }),
{
    lemma_ceil(TRANSITION_MAX_MS as int, step_ms as int);
    lemma_ceil(distance(from as int, to as int), transition_steps(step_ms));
    let steps = transition_steps(step_ms);
    let ms = step_ms as int;
    assert(n == steps) by (nonlinear_arith)
        requires
            ms > 0,
            (n - 1) * ms < 200 <= n * ms,
            (steps - 1) * ms < 200,
            steps * ms >= 200,
    ;
    step_is_minimal(from, to, step_ms);
}

/// A device that takes every step reaches the target within the time of a
/// transition.
pub proof fn transition_reaches_target(from: u64, to: u64, step_ms: u64)
    requires
        step_ms > 0,
        from != to,
        step_size(from, to, step_ms) <= i64::MAX,
    ensures
        ({
            let target = target_to(from, to, step_ms);
            target.is_reached(after_steps(from, target.step, transition_steps(step_ms) as nat))
        }),
{
    step_is_minimal(from, to, step_ms);
    lemma_ceil(TRANSITION_MAX_MS as int, step_ms as int);
    let step = target_to(from, to, step_ms).step;
    let steps = transition_steps(step_ms) as nat;
    let size = distance(step as int, 0);
    lemma_after_steps(from, step, steps);
    assert(steps * step == if step > 0 {
        size * steps
    } else {
        -(size * steps)
    }) by (nonlinear_arith)
        requires
            size == (if step <= 0 {
                -step
            } else {
                step as int
            }),
            step != 0,
    ;
}

/// The end of every pause makes the next reading a starting point that is not
/// learned, and drops the predictions that came meanwhile.
pub proof fn resume_starts_afresh(paused: Controller, reading: u64)
    requires
        paused.paused_until is Some,
        !paused.idle,
    ensures
        ({
            let resumed = paused.manually_paused(None);
            &&& !resumed.paused()
            &&& resumed.pause_change(paused).discard_predictions
            &&& !resumed.is_user_change(reading)
            &&& resumed.settled_on(reading).current == Some(reading)
            &&& resumed.target is None
        }),
{
}

/// The user's return leaves a pause of a client as it was, and defers what the
/// end of a pause brings.
pub proof fn idle_preserves_manual_pause(before: Controller)
    ensures
        ({
            let idle = before.idled(true);
            let back = idle.idled(false);
            &&& idle.paused()
            &&& back.paused_until == before.paused_until
            &&& back.current == before.current
            &&& back.paused() <==> before.paused_until is Some
            &&& back.pause_change(idle).discard_predictions <==> before.paused_until is None
            &&& back.resuming <==> before.resuming || before.paused_until is None
        }),
{
}

/// A pause that a client asks for, or the end of one, is what was asked for. It leaves the device and
/// the absence of the user as they are, and drops the target. Where a pause of any kind ends by it, and
/// only there, the next reading is a starting point and predictions are dropped.
pub proof fn pause_is_what_was_asked_for(c: Controller, until: Option<Option<u128>>)
    ensures
        ({
            let after = c.manually_paused(until);
            let change = after.pause_change(c);
            let ends = (c.paused_until is Some || c.idle) && until is None && !c.idle;
            &&& after.paused_until == until
            &&& after.idle == c.idle
            &&& after.current == c.current
            &&& after.target is None
            &&& after.resuming <==> c.resuming || ends
            &&& after.paused() <==> until is Some || c.idle
            &&& change.manual <==> until is Some
            &&& change.idle == c.idle
            &&& change.discard_predictions <==> ends
        }),
{
}

/// The absence of the user is noted as it is, and leaves the device and a pause of a client as they are.
pub proof fn absence_is_noted(c: Controller, idle: bool)
    ensures
        ({
            let after = c.idled(idle);
            let change = after.pause_change(c);
            let ends = c.idle && !idle && c.paused_until is None;
            &&& after.idle == idle
            &&& after.paused_until == c.paused_until
            &&& after.current == c.current
            &&& after.target is None
            &&& after.resuming <==> c.resuming || ends
            &&& after.paused() <==> c.paused_until is Some || idle
            &&& change.manual <==> c.paused_until is Some
            &&& change.idle == idle
            &&& change.discard_predictions <==> ends
        }),
{
}

/// A timed pause lasts as long as was asked for, unless the clock cannot tell its end.
pub proof fn pause_lasts_as_asked(seconds: u64, now: u128)
    ensures
        Controller::deadline(seconds, now) matches Some(end) ==> end - now == seconds * 1_000_000_000,
        Controller::deadline(seconds, now) is None ==> now + seconds * 1_000_000_000
            >= 0x8000_0000_0000_0000 * 1_000_000_000,
{
}

/// An idle output is dimmed to the share that was asked for, rounded down, unless that is below the
/// least brightness of the device. A share below the whole dims whatever the least one allows.
pub proof fn dimming_keeps_a_share(current: u64, percent: u8, min: u64)
    requires
        min <= current,
        percent <= 100,
        current * percent <= u64::MAX,
    ensures
        ({
            let d = dimmed(current, percent, min);
            &&& d == min || 100 * d <= current * percent < 100 * (d + 1)
            &&& d == min ==> current * percent < 100 * (min + 1)
            &&& current * percent >= 100 * min ==> 100 * d <= current * percent < 100 * (d + 1)
            &&& current * percent < 100 * min ==> d == min
            &&& percent < 100 && min < current ==> d < current
            &&& percent == 100 ==> d == current
        }),
{
    let product = current * percent;
    assert(product <= current * 100) by (nonlinear_arith)
        requires
            product == current * percent,
            percent <= 100,
            current >= 0,
    ;
    if percent < 100 && min < current {
        assert(product < current * 100) by (nonlinear_arith)
            requires
                product == current * percent,
                percent < 100,
                current > 0,
        ;
    }
}

/// The lower the share, the darker an idle output.
pub proof fn lower_share_dims_more(current: u64, percent: u8, larger: u8, min: u64)
    requires
        min <= current,
        percent <= larger,
    ensures
        dimmed(current, percent, min) <= dimmed(current, larger, min),
{
    assert(current * percent <= current * larger) by (nonlinear_arith)
        requires
            percent <= larger,
            current >= 0,
    ;
}

/// A relative change moves by the amount that was asked for, as far as the range allows, and an
/// absolute one leads to what was asked for.
pub proof fn change_is_as_large_as_asked(current: u8, adjustment: Adjustment)
    requires
        current <= 100,
    ensures
        ({
            let after = adjusted_percent(current, adjustment);
            &&& !adjustment.relative ==> after == adjustment.percent
            &&& adjustment.relative && adjustment.increase ==> current <= after <= 100 && (after
                - current == adjustment.percent || after == 100 && 100 - current
                < adjustment.percent)
            &&& adjustment.relative && !adjustment.increase ==> 0 <= after <= current && (current
                - after == adjustment.percent || after == 0 && current < adjustment.percent)
        }),
{
}

/// A relative change and its opposite cancel out, where neither end of the range is reached.
pub proof fn opposite_changes_cancel_out(current: u8, percent: u8)
    requires
        current + percent <= 100,
    ensures
        ({
            let up = Adjustment { percent, relative: true, increase: true };
            let down = Adjustment { percent, relative: true, increase: false };
            adjusted_percent(adjusted_percent(current, up) as u8, down) == current
        }),
{
}

/// What an output is set to by a request is the percentage that was asked for, of the highest
/// brightness of its device and rounded to the nearest, or one of the ends of its range.
pub proof fn request_sets_the_device(current: u64, adjustment: Adjustment, min: u64, max: u64)
    requires
        min <= max,
        adjustment.percent <= 100,
    ensures
        ({
            let value = adjusted_value(current, adjustment, min, max);
            let shown = percent_of(current, max);
            let asked = if !adjustment.relative {
                adjustment.percent as int
            } else if adjustment.increase {
                shown + adjustment.percent
            } else {
                shown - adjustment.percent
            };
            &&& min <= value <= max
            &&& asked >= 100 ==> value == max
            &&& asked <= 0 ==> value == min
            &&& 0 <= asked <= 100 && value != min ==> -50 <= 100 * value - asked * max <= 50
            &&& 0 <= asked <= 100 && value == min ==> asked * max <= 100 * min + 50
        }),
{
    super::percent_is_rounded(current, max);
    let p = adjusted_percent(percent_of(current, max) as u8, adjustment) as u8;
    super::value_is_rounded(p, min, max);
}

/// Dimming never brightens, and never goes below the least brightness.
pub proof fn dimming_stays_in_range(current: u64, percent: u8, min: u64)
    requires
        min <= current,
    ensures
        min <= dimmed(current, percent, min) <= current,
        percent == 0 ==> dimmed(current, percent, min) == min,
{
    assert(current * 0 == 0);
}

/// An adjustment of a percentage is a percentage.
pub proof fn adjustment_is_percentage(current: u8, adjustment: Adjustment)
    requires
        current <= 100,
        adjustment.percent <= 100,
    ensures
        0 <= adjusted_percent(current, adjustment) <= 100,
{
}

/// A prediction can be followed wherever the device takes time for a step and the way to it is one that
/// a step can be told for.
pub proof fn ordinary_predictions_can_be_followed(
    c: Controller,
    reading: u64,
    prediction: Option<u64>,
    threshold: u64,
    step_ms: u64,
)
    ensures
        prediction is None ==> c.is_observable(reading, prediction, threshold, step_ms),
        prediction matches Some(desired) ==> step_ms > 0 && desired - reading <= u64::MAX && reading
            - desired <= i64::MAX ==> c.is_observable(reading, prediction, threshold, step_ms),
        c.paused_until is Some || c.idle ==> c.is_observable(reading, prediction, threshold, step_ms),
{
    if let Some(desired) = prediction {
        if step_ms > 0 && desired <= reading && reading - desired <= i64::MAX {
            let gap = distance(reading as int, desired as int);
            lemma_ceil(TRANSITION_MAX_MS as int, step_ms as int);
            lemma_ceil(gap, transition_steps(step_ms));
        }
    }
}

/// A prediction is followed, up as well as down: where it is at least as far from what the device shows
/// as it has to be, and nobody has paused the output, the device is moved towards it at once.
pub proof fn prediction_is_followed_either_way(
    c: Controller,
    reading: u64,
    desired: u64,
    threshold: u64,
    step_ms: u64,
)
    requires
        step_ms > 0,
        c.paused_until is None,
        !c.idle,
        c.resuming || c.current == Some(reading),
        !c.resuming ==> !(c.target matches Some(t) && t.desired == desired),
        desired != reading,
        -i64::MAX <= desired - reading <= i64::MAX,
        desired - reading >= threshold || reading - desired >= threshold,
    ensures
        !c.is_user_change(reading),
        ({
            let next = c.predicted(reading, Some(desired), threshold, step_ms);
            &&& next.target matches Some(t) && t.desired == desired && (t.step > 0 <==> desired
                > reading) && (t.step < 0 <==> desired < reading)
            &&& next.after_transition() == next
            &&& next.transition_action() matches StepAction::Write(v) && (v > reading <==> desired
                > reading) && (v < reading <==> desired < reading)
            &&& next.current == Some(reading)
        }),
{
    lemma_followed(reading, desired, step_ms);
}

/// A prediction that is nearer to what the device shows than it has to be is not followed, and neither is
/// any while the output is paused: what was on its way goes on.
pub proof fn near_prediction_changes_nothing(
    c: Controller,
    reading: u64,
    desired: u64,
    threshold: u64,
    step_ms: u64,
)
    requires
        !c.resuming,
        c.current == Some(reading),
        -threshold < desired - reading < threshold || c.paused_until is Some || c.idle,
    ensures
        c.predicted(reading, Some(desired), threshold, step_ms) == c,
        c.predicted(reading, None, threshold, step_ms) == c,
{
}

/// A reading that nobody accounts for is a choice of the user, unless a pause has just ended: then it is
/// only taken note of, and what was on its way is dropped.
pub proof fn reading_is_a_choice_of_the_user(c: Controller, reading: u64)
    ensures
        c.is_user_change(reading) <==> !c.resuming && c.current != Some(reading),
        c.resuming ==> c.settled_on(reading) == (Controller {
            current: Some(reading),
            target: None,
            paused_until: c.paused_until,
            idle: c.idle,
            resuming: false,
        }),
        !c.resuming ==> c.settled_on(reading) == c,
        c.paused() <==> c.paused_until is Some || c.idle,
{
}

/// A transition goes on by its step, as far as the range of numbers goes, until the device has come as
/// far as the target, and then it is over.
pub proof fn transition_goes_on_until_the_target(c: Controller, current: u64, target: Target)
    requires
        c.current == Some(current),
        c.target == Some(target),
    ensures
        ({
            let there = target.step > 0 && current >= target.desired || target.step < 0 && current
                <= target.desired;
            let next = current + target.step;
            &&& there ==> c.transition_action() is Settled && c.after_transition().target is None
            &&& !there ==> c.after_transition() == c
            &&& !there && 0 <= next <= u64::MAX ==> c.transition_action() == StepAction::Write(
                next as u64,
            )
            &&& !there && next < 0 ==> c.transition_action() == StepAction::Write(0)
            &&& !there && next > u64::MAX ==> c.transition_action() == StepAction::Write(u64::MAX)
            &&& c.after_transition().current == c.current
            &&& c.after_transition().paused_until == c.paused_until
            &&& c.after_transition().idle == c.idle
            &&& c.after_transition().resuming == c.resuming
        }),
{
}

} // verus!
