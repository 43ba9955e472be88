//! Predictions from what the user was seen to prefer.

use super::{Cooldown, PENDING_COOLDOWN};
use vstd::prelude::*;

verus! {

/// What is known of the user and of the ambient light.
#[derive(Clone, Copy, Debug, PartialEq, Eq, Structural)]
pub struct Controller {
    pub last_als: Option<u64>,
    pub last_brightness: Option<u64>,
    pub cooldown: Cooldown,
}

/// The brightness has become another one.
pub open spec fn is_changed(c: Controller, received: Option<u64>) -> bool {
    received is Some && received != c.last_brightness
}

/// The brightness that is to be learned: one that the user has changed it to. The first one is no
/// choice of the user.
pub open spec fn preferred(c: Controller, received: Option<u64>) -> Option<u64> {
    if is_changed(c, received) && c.last_brightness is Some {
        received
    } else {
        None
    }
}

/// What is known once a brightness was told. After a choice of the user nothing is predicted for a
/// while.
pub open spec fn informed(c: Controller, received: Option<u64>, now: u128) -> Controller {
    Controller {
        last_brightness: if is_changed(c, received) {
            received
        } else {
            c.last_brightness
        },
        cooldown: if preferred(c, received) is Some {
            Cooldown { until: Some((now + PENDING_COOLDOWN) as u128) }
        } else {
            c.cooldown
        },
        ..c
    }
}

impl Default for Controller {
    fn default() -> (r: Controller)
        ensures
            r == (Controller {
                last_als: None,
                last_brightness: None,
                cooldown: Cooldown { until: None },
            }),
    {
        Controller { last_als: None, last_brightness: None, cooldown: Cooldown::default() }
    }
}

impl Controller {
    /// Takes note of the ambient light, where there is news of it. Gives what is known then.
    pub fn hear(&mut self, als: Option<u64>) -> (r: Option<u64>)
        ensures
            r == if als is Some {
                als
            } else {
                old(self).last_als
            },
            *final(self) == (Controller { last_als: r, ..*old(self) }),
    {
        if als.is_some() {
            self.last_als = als;
        }
        self.last_als
    }

    /// Takes note of the brightness, where there is news of it. Gives what is to be learned.
    pub fn notice(&mut self, received: Option<u64>, now: u128) -> (r: Option<u64>)
        requires
            preferred(*old(self), received) is Some ==> now + PENDING_COOLDOWN <= u128::MAX,
        ensures
            *final(self) == informed(*old(self), received, now),
            r == preferred(*old(self), received),
            r is Some ==> r == received,
            r is Some <==> received is Some && old(self).last_brightness is Some && received
                != old(self).last_brightness,
            received is Some ==> final(self).last_brightness == received,
            received is None ==> *final(self) == *old(self),
            r is Some ==> final(self).cooldown.until == Some((now + 1_500_000_000) as u128),
            r is None ==> final(self).cooldown == old(self).cooldown,
            final(self).last_als == old(self).last_als,
    {
        if received.is_none() || received == self.last_brightness {
            return None;
        }
        let known = self.last_brightness.is_some();
        self.last_brightness = received;
        if known {
            self.cooldown.reset(now, PENDING_COOLDOWN);
            received
        } else {
            None
        }
    }

    /// Whether something is to be predicted.
    pub fn predicts(&self, now: u128) -> (r: bool)
        ensures
            r == !self.cooldown.lasts(now),
            r <==> self.cooldown.until is None || now >= self.cooldown.until->0,
    {
        !self.cooldown.is_active(now)
    }
}

/// After a choice of the user nothing is predicted before the time is up.
pub proof fn choice_is_respected(c: Controller, received: Option<u64>, now: u128, later: u128)
    requires
        now + PENDING_COOLDOWN <= u128::MAX,
        preferred(c, received) is Some,
    ensures
        informed(c, received, now).cooldown.lasts(later) <==> later < now + PENDING_COOLDOWN,
{
}

/// A brightness is learned exactly when it is another one than the one that was known; the first one is
/// only noted.
pub proof fn changes_are_learned(c: Controller, brightness: u64, now: u128)
    ensures
        preferred(c, None) is None,
        preferred(c, Some(brightness)) is Some <==> c.last_brightness is Some && c.last_brightness
            != Some(brightness),
        preferred(c, Some(brightness)) matches Some(b) ==> b == brightness,
        informed(c, Some(brightness), now).last_brightness == Some(brightness),
        informed(c, None, now) == c,
        informed(c, Some(brightness), now).last_als == c.last_als,
{
}

} // verus!
