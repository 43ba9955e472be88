//! The service that reads sensors.

use crate::text::chars::same;
use vstd::prelude::*;

verus! {

pub const DESTINATION: &'static str = "net.hadess.SensorProxy";

pub const INTERFACE: &'static str = "net.hadess.SensorProxy";

/// How long to wait before the next attempt to reach the service again, in nanoseconds.
pub const RECONNECT_INTERVAL: u128 = 5_000_000_000;

/// Why the service is of no use.
#[derive(Clone, Copy, Debug, PartialEq, Eq, Structural)]
pub enum ProxyError {
    NoSensor,
    UnsupportedUnit,
}

impl ProxyError {
    /// What the error says.
    pub open spec fn spec_message(self, unit: Seq<char>) -> Seq<char> {
        match self {
            ProxyError::NoSensor => "iio-sensor-proxy has no ambient light sensor"@,
            ProxyError::UnsupportedUnit => "iio-sensor-proxy reports unsupported light level unit '"@
                + unit + "'"@,
        }
    }

    /// What the error says, where the service measures in the given unit.
    pub fn message(&self, unit: &str) -> (r: String)
        ensures
            r@ == self.spec_message(unit@),
            self is NoSensor ==> r@ == "iio-sensor-proxy has no ambient light sensor"@,
            self is UnsupportedUnit ==> r@
                == "iio-sensor-proxy reports unsupported light level unit '"@ + unit@ + "'"@,
    {
        match self {
            ProxyError::NoSensor => "iio-sensor-proxy has no ambient light sensor".to_string(),
            ProxyError::UnsupportedUnit => {
                let mut r = "iio-sensor-proxy reports unsupported light level unit '".to_string();
                r.append(unit);
                r.append("'");
                r
            },
        }
    }
}

/// Whether the service can be used: it has a sensor that measures in lux.
pub fn check_capabilities(has_ambient_light: bool, unit: &str) -> (r: Result<(), ProxyError>)
    ensures
        r is Ok <==> has_ambient_light && unit@ == "lux"@,
        r matches Err(error) ==> (error is NoSensor <==> !has_ambient_light),
{
    if !has_ambient_light {
        return Err(ProxyError::NoSensor);
    }
    if !same(unit, "lux") {
        return Err(ProxyError::UnsupportedUnit);
    }
    Ok(())
}

/// Whether a change of properties is one of the service.
pub fn is_own_interface(interface: &str) -> (r: bool)
    ensures
        r == (interface@ == INTERFACE@),
        r == (interface@ == "net.hadess.SensorProxy"@),
{
    same(interface, INTERFACE)
}

/// Whether a change of the owner of a name means that the service is another one now.
pub fn is_own_name(name: &str) -> (r: bool)
    ensures
        r == (name@ == DESTINATION@),
        r == (name@ == "net.hadess.SensorProxy"@),
{
    same(name, DESTINATION)
}

/// What is known of the sensor.
#[derive(Clone, Copy, Debug, PartialEq, Eq, Structural)]
pub struct Sensor {
    pub value: u64,
    /// When to try to reach the service again.
    pub reconnect_at: Option<u128>,
}

/// How the value of the sensor is to be learned.
#[derive(Clone, Copy, Debug, PartialEq, Eq, Structural)]
pub enum Poll {
    Known(u64),
    /// The service has to be reached again first.
    Reconnect,
}

/// The last of the values, or what was known before where there is none.
pub open spec fn latest(known: u64, values: Seq<u64>) -> u64 {
    if values.len() == 0 {
        known
    } else {
        values.last()
    }
}

/// An attempt to reach the service again has to wait.
pub open spec fn has_to_wait(s: Sensor, now: u128) -> bool {
    s.reconnect_at matches Some(at) && at > now
}

impl Sensor {
    pub fn new(value: u64) -> (r: Sensor)
        ensures
            r == (Sensor { value, reconnect_at: None }),
    {
        Sensor { value, reconnect_at: None }
    }

    /// Takes note of the values that the service has sent. Where it is gone, it has to be
    /// reached again, but not too often.
    pub fn poll(&mut self, values: &Vec<u64>, closed: bool, now: u128) -> (r: Poll)
        ensures
            *final(self) == (Sensor { value: latest(old(self).value, values@), ..*old(self) }),
            r == if closed && !has_to_wait(*old(self), now) {
                Poll::Reconnect
            } else {
                Poll::Known(latest(old(self).value, values@))
            },
            final(self).value == if values@.len() > 0 {
                values@[values@.len() - 1]
            } else {
                old(self).value
            },
            r matches Poll::Known(value) ==> value == final(self).value,
            r is Reconnect <==> closed && !(old(self).reconnect_at matches Some(at) && at > now),
    {
        if values.len() > 0 {
            self.value = values[values.len() - 1];
        }
        if !closed {
            return Poll::Known(self.value);
        }
        let wait = match self.reconnect_at {
            Some(at) => at > now,
            None => false,
        };
        if wait {
            Poll::Known(self.value)
        } else {
            Poll::Reconnect
        }
    }

    /// Takes note of an attempt to reach the service again. Says whether the connection
    /// was lost just now, and what is known.
    pub fn reconnected(&mut self, sensor: Option<Sensor>, now: u128) -> (r: (bool, u64))
        requires
            now + RECONNECT_INTERVAL <= u128::MAX,
        ensures
            *final(self) == match sensor {
                Some(sensor) => sensor,
                None => Sensor {
                    reconnect_at: Some((now + RECONNECT_INTERVAL) as u128),
                    ..*old(self)
                },
            },
            r == (sensor is None && old(self).reconnect_at is None, final(self).value),
            sensor is None ==> final(self).value == old(self).value && final(self).reconnect_at
                == Some((now + 5_000_000_000) as u128),
    {
        match sensor {
            Some(sensor) => {
                *self = sensor;
                (false, self.value)
            },
            None => {
                let first = self.reconnect_at.is_none();
                self.reconnect_at = Some(now + RECONNECT_INTERVAL);
                (first, self.value)
            },
        }
    }
}

/// While the service is gone, the last value is kept, and attempts to reach it again are
/// as far apart as they have to be.
pub proof fn lost_service_is_not_hammered(s: Sensor, now: u128, later: u128)
    requires
        s.reconnect_at == Some((now + RECONNECT_INTERVAL) as u128),
        now + RECONNECT_INTERVAL <= u128::MAX,
    ensures
        has_to_wait(s, later) <==> later < now + RECONNECT_INTERVAL,
{
}

/// What the service has sent last is what is known; where it has sent nothing, what was known stays.
pub proof fn latest_value_counts(known: u64, values: Seq<u64>, value: u64)
    ensures
        latest(known, values.push(value)) == value,
        latest(known, Seq::empty()) == known,
{
}

/// An attempt to reach the service has to wait exactly as long as its time has not come.
pub proof fn attempt_waits_for_its_time(s: Sensor, now: u128)
    ensures
        s.reconnect_at is None ==> !has_to_wait(s, now),
        s.reconnect_at matches Some(at) ==> (has_to_wait(s, now) <==> now < at),
{
}

} // verus!
