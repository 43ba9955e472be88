//! Ambient light from whatever source there is.

use super::iio;
use super::DEFAULT_POLL_INTERVAL;
use super::external;
use vstd::prelude::*;

verus! {

/// How often a source that is not in use is looked for, in nanoseconds.
pub const PROBE_INTERVAL: u128 = 2_000_000_000;

/// The source in use.
#[derive(Clone, Copy, Debug, PartialEq, Eq, Structural)]
pub enum Source {
    External,
    Iio(iio::Als),
    Off,
}

/// What is known of the sources.
#[derive(Clone, Copy, Debug, PartialEq, Eq, Structural)]
pub struct Als {
    pub source: Source,
    pub last_external_probe: Option<u128>,
    pub last_iio_probe: Option<u128>,
    /// Changes with the source.
    pub generation: u64,
    /// How often ambient light is asked for, in whole milliseconds.
    pub poll_interval_ms: u64,
}

/// What to do next.
#[derive(Clone, Copy, Debug, PartialEq, Eq, Structural)]
pub enum Step {
    /// Read the external source in use.
    ReadExternal,
    /// Try an external source.
    ProbeExternal,
    /// Read the sensor in use.
    ReadIio,
    /// Look for a sensor and read it.
    ProbeIio,
    /// The ambient light is known.
    Done(u64),
}

/// What came of it.
#[derive(Clone, Copy, Debug, PartialEq, Eq, Structural)]
pub enum Outcome {
    Value(u64),
    /// A sensor was found, and read.
    Sensor(iio::Als, u64),
    Failed,
}

/// A source was not looked for in a while.
pub open spec fn probe_is_due(last: Option<u128>, now: u128) -> bool {
    match last {
        Some(last) => now - last >= PROBE_INTERVAL,
        None => true,
    }
}

/// How often a source is asked, in nanoseconds.
pub open spec fn source_interval(source: Source) -> u128 {
    match source {
        Source::External => external::POLL_INTERVAL,
        Source::Iio(sensor) => match sensor.source {
            iio::Source::SensorProxy => iio::SENSOR_PROXY_POLL_INTERVAL,
            iio::Source::Sysfs { poll_interval } => poll_interval,
        },
        Source::Off => DEFAULT_POLL_INTERVAL,
    }
}

/// An interval in nanoseconds, in whole milliseconds; one that is too long becomes the longest.
pub open spec fn whole_milliseconds(interval: u128) -> u64 {
    if interval / 1_000_000 > u64::MAX {
        u64::MAX
    } else {
        (interval / 1_000_000) as u64
    }
}

/// With another source in use.
pub open spec fn switched(s: Als, source: Source) -> Als {
    Als {
        source,
        poll_interval_ms: whole_milliseconds(source_interval(source)),
        generation: if s.generation == u64::MAX {
            0
        } else {
            (s.generation + 1) as u64
        },
        ..s
    }
}

/// What to do where no external source can be used: read the sensor in use, or look for
/// one. Without any source it counts as dark.
pub open spec fn without_external(s: Als, now: u128) -> (Als, Step) {
    if s.source is Iio {
        (s, Step::ReadIio)
    } else {
        look_for_sensor(s, now)
    }
}

/// What to do where no source is in use.
pub open spec fn look_for_sensor(s: Als, now: u128) -> (Als, Step) {
    if probe_is_due(s.last_iio_probe, now) {
        (Als { last_iio_probe: Some(now), ..s }, Step::ProbeIio)
    } else {
        (s, Step::Done(0))
    }
}

/// What to do first. An external source is preferred to a sensor.
pub open spec fn started(s: Als, external_available: bool, now: u128) -> (Als, Step) {
    if external_available {
        if s.source is External {
            (s, Step::ReadExternal)
        } else if probe_is_due(s.last_external_probe, now) {
            (Als { last_external_probe: Some(now), ..s }, Step::ProbeExternal)
        } else {
            without_external(s, now)
        }
    } else if s.source is External {
        without_external(switched(s, Source::Off), now)
    } else {
        without_external(s, now)
    }
}

/// What to do after a step. A source that fails is given up.
pub open spec fn continued(s: Als, step: Step, outcome: Outcome, now: u128) -> (Als, Step) {
    match step {
        Step::ReadExternal => match outcome {
            Outcome::Value(value) => (s, Step::Done(value)),
            _ => without_external(switched(s, Source::Off), now),
        },
        Step::ProbeExternal => match outcome {
            Outcome::Value(value) => (switched(s, Source::External), Step::Done(value)),
            _ => without_external(s, now),
        },
        Step::ReadIio => match outcome {
            Outcome::Value(value) => (s, Step::Done(value)),
            _ => look_for_sensor(switched(s, Source::Off), now),
        },
        Step::ProbeIio => match outcome {
            Outcome::Sensor(sensor, value) => (
                switched(s, Source::Iio(sensor)),
                Step::Done(value),
            ),
            _ => (s, Step::Done(0)),
        },
        Step::Done(value) => (s, Step::Done(value)),
    }
}

impl Als {
    /// No source is in use yet.
    pub fn new() -> (r: Als)
        ensures
            r == (Als {
                source: Source::Off,
                last_external_probe: None,
                last_iio_probe: None,
                generation: 0,
                poll_interval_ms: 100,
            }),
    {
        Als {
            source: Source::Off,
            last_external_probe: None,
            last_iio_probe: None,
            generation: 0,
            poll_interval_ms: 100,
        }
    }

    /// What to do first to learn the ambient light.
    pub fn start(&mut self, external_available: bool, now: u128) -> (r: Step)
        ensures
            (*final(self), r) == started(*old(self), external_available, now),
    {
        if external_available {
            if let Source::External = self.source {
                return Step::ReadExternal;
            }
            if is_due(self.last_external_probe, now) {
                self.last_external_probe = Some(now);
                return Step::ProbeExternal;
            }
        } else if let Source::External = self.source {
            self.switch(Source::Off);
        }
        self.go_on(now)
    }

    /// What to do after a step.
    pub fn proceed(&mut self, step: Step, outcome: Outcome, now: u128) -> (r: Step)
        ensures
            (*final(self), r) == continued(*old(self), step, outcome, now),
    {
        match step {
            Step::ReadExternal => match outcome {
                Outcome::Value(value) => Step::Done(value),
                _ => {
                    self.switch(Source::Off);
                    self.go_on(now)
                },
            },
            Step::ProbeExternal => match outcome {
                Outcome::Value(value) => {
                    self.switch(Source::External);
                    Step::Done(value)
                },
                _ => self.go_on(now),
            },
            Step::ReadIio => match outcome {
                Outcome::Value(value) => Step::Done(value),
                _ => {
                    self.switch(Source::Off);
                    self.probe(now)
                },
            },
            Step::ProbeIio => match outcome {
                Outcome::Sensor(sensor, value) => {
                    self.switch(Source::Iio(sensor));
                    Step::Done(value)
                },
                _ => Step::Done(0),
            },
            Step::Done(value) => Step::Done(value),
        }
    }

    fn go_on(&mut self, now: u128) -> (r: Step)
        ensures
            (*final(self), r) == without_external(*old(self), now),
    {
        if let Source::Iio(_) = self.source {
            return Step::ReadIio;
        }
        self.probe(now)
    }

    fn probe(&mut self, now: u128) -> (r: Step)
        ensures
            (*final(self), r) == look_for_sensor(*old(self), now),
    {
        if is_due(self.last_iio_probe, now) {
            self.last_iio_probe = Some(now);
            Step::ProbeIio
        } else {
            Step::Done(0)
        }
    }

    fn switch(&mut self, source: Source)
        ensures
            *final(self) == switched(*old(self), source),
    {
        let interval: u128 = match source {
            Source::External => external::POLL_INTERVAL,
            Source::Iio(sensor) => sensor.poll_interval(),
            Source::Off => DEFAULT_POLL_INTERVAL,
        } / 1_000_000;
        self.poll_interval_ms = if interval > u64::MAX as u128 {
            u64::MAX
        } else {
            interval as u64
        };
        self.source = source;
        self.generation = if self.generation == u64::MAX {
            0
        } else {
            self.generation + 1
        };
    }

    /// The kind of the source in use.
    pub open spec fn spec_kind(self) -> Seq<char> {
        match self.source {
            Source::External => "external"@,
            Source::Iio(sensor) => sensor.spec_name(),
            Source::Off => "none"@,
        }
    }

    pub fn kind(&self) -> (r: &'static str)
        ensures
            r@ == self.spec_kind(),
            self.source is External ==> r@ == "external"@,
            self.source is Off ==> r@ == "none"@,
            self.source matches Source::Iio(sensor) ==> r@ == if sensor.source is SensorProxy {
                "iio-sensor-proxy"@
            } else {
                "sysfs"@
            },
    {
        match self.source {
            Source::External => "external",
            Source::Iio(sensor) => sensor.backend_name(),
            Source::Off => "none",
        }
    }

    pub fn generation(&self) -> (r: u64)
        ensures
            r == self.generation,
    {
        self.generation
    }

    /// How often ambient light is asked for, in nanoseconds.
    pub fn poll_interval(&self) -> (r: u128)
        ensures
            r == self.poll_interval_ms * 1_000_000,
    {
        self.poll_interval_ms as u128 * 1_000_000
    }
}

impl Default for Als {
    fn default() -> (r: Als)
        ensures
            r == (Als {
                source: Source::Off,
                last_external_probe: None,
                last_iio_probe: None,
                generation: 0,
                poll_interval_ms: 100,
            }),
    {
        Als::new()
    }
}

fn is_due(last: Option<u128>, now: u128) -> (r: bool)
    ensures
        r == probe_is_due(last, now),
{
    match last {
        Some(last) => now >= last && now - last >= PROBE_INTERVAL,
        None => true,
    }
}

/// How many steps may still follow.
pub open spec fn steps_left(step: Step) -> nat {
    match step {
        Step::ReadExternal => 3,
        Step::ProbeExternal => 3,
        Step::ReadIio => 2,
        Step::ProbeIio => 1,
        Step::Done(value) => 0,
    }
}

/// Each step brings the reading closer.
pub proof fn reading_comes_to_an_end(s: Als, step: Step, outcome: Outcome, now: u128)
    requires
        step !is Done,
    ensures
        steps_left(continued(s, step, outcome, now).1) < steps_left(step),
{
}

/// The interval at which ambient light is asked for is always that of the source in use, in whole
/// milliseconds.
pub proof fn interval_follows_source(
    s: Als,
    external_available: bool,
    step: Step,
    outcome: Outcome,
    now: u128,
)
    requires
        s.poll_interval_ms == whole_milliseconds(source_interval(s.source)),
    ensures
        started(s, external_available, now).0.poll_interval_ms == whole_milliseconds(
            source_interval(started(s, external_available, now).0.source),
        ),
        continued(s, step, outcome, now).0.poll_interval_ms == whole_milliseconds(
            source_interval(continued(s, step, outcome, now).0.source),
        ),
{
}

/// A source is never replaced without a new generation.
pub proof fn generation_follows_source(
    s: Als,
    external_available: bool,
    step: Step,
    outcome: Outcome,
    now: u128,
)
    ensures
        started(s, external_available, now).0.source != s.source ==> started(
            s,
            external_available,
            now,
        ).0.generation != s.generation,
        continued(s, step, outcome, now).0.source != s.source ==> continued(
            s,
            step,
            outcome,
            now,
        ).0.generation != s.generation,
{
}

/// A value that was read is the value that is given, whatever it was read from, and the source that it
/// was read from is in use then.
pub proof fn value_that_was_read_is_given(s: Als, step: Step, outcome: Outcome, now: u128)
    ensures
        outcome matches Outcome::Value(value) ==> {
            let (after, next) = continued(s, step, outcome, now);
            &&& step is ReadExternal || step is ReadIio ==> next == Step::Done(value) && after == s
            &&& step is ProbeExternal ==> next == Step::Done(value) && after.source == Source::External
        },
        outcome matches Outcome::Sensor(sensor, value) ==> {
            let (after, next) = continued(s, step, outcome, now);
            step is ProbeIio ==> next == Step::Done(value) && after.source == Source::Iio(sensor)
        },
        step matches Step::Done(value) ==> continued(s, step, outcome, now) == (s, step),
{
}

/// Where nothing was read, it counts as dark, and then no source is in use, and a sensor was looked for
/// now or a short while ago. A source that has failed is not in use any more.
pub proof fn darkness_is_the_last_resort(
    s: Als,
    external_available: bool,
    step: Step,
    now: u128,
)
    ensures
        ({
            let (after, next) = started(s, external_available, now);
            &&& next is Done ==> next == Step::Done(0) && after.source is Off && (
            after.last_iio_probe matches Some(last) && now - last < 2_000_000_000)
            &&& next is ReadIio ==> after.source is Iio
            &&& next is ReadExternal ==> after.source is External && external_available
        }),
        ({
            let (after, next) = continued(s, step, Outcome::Failed, now);
            &&& step is ReadExternal || step is ReadIio ==> after.source is Off && after.generation
                != s.generation
            &&& step is ReadExternal || step is ProbeExternal || step is ReadIio ==> (next is Done
                ==> next == Step::Done(0) && (after.last_iio_probe matches Some(last) && now - last
                < 2_000_000_000))
            &&& step is ReadExternal || step is ProbeExternal || step is ReadIio ==> next is Done
                || next is ReadIio || next is ProbeIio
            &&& step is ProbeExternal ==> (next is ReadIio <==> s.source is Iio)
            &&& step is ProbeIio ==> next == Step::Done(0) && after == s
        }),
{
}

/// An external source comes first. One that is in use is read; another one is looked for every two
/// seconds, and meanwhile the sensor in use is read. Without one the sensor in use is read, and one is
/// looked for every two seconds.
pub proof fn external_source_comes_first(s: Als, external_available: bool, now: u128)
    ensures
        ({
            let (after, next) = started(s, external_available, now);
            let due = s.last_external_probe is None || now - s.last_external_probe->0
                >= 2_000_000_000;
            let sensor_due = s.last_iio_probe is None || now - s.last_iio_probe->0 >= 2_000_000_000;
            &&& next is ReadExternal <==> external_available && s.source is External
            &&& next is ProbeExternal <==> external_available && s.source !is External && due
            &&& next is ProbeExternal ==> after.last_external_probe == Some(now) && after.source
                == s.source
            &&& next !is ProbeExternal ==> after.last_external_probe == s.last_external_probe
            &&& next is ReadIio <==> s.source is Iio && !(external_available && due)
            &&& next is ProbeIio <==> sensor_due && s.source !is Iio && !(external_available && (
            s.source is External || due))
            &&& next is ProbeIio ==> after.last_iio_probe == Some(now)
            &&& next !is ProbeIio ==> after.last_iio_probe == s.last_iio_probe
            &&& after.source == (if s.source is External && !external_available {
                Source::Off
            } else {
                s.source
            })
        }),
{
}

/// With another source in use, it is asked as often as that source wants it, in whole milliseconds, and
/// what it reports counts as coming from elsewhere. What was looked for when is still known.
pub proof fn source_is_switched(s: Als, source: Source)
    ensures
        ({
            let after = switched(s, source);
            &&& after.source == source
            &&& after.last_external_probe == s.last_external_probe
            &&& after.last_iio_probe == s.last_iio_probe
            &&& s.generation < u64::MAX ==> after.generation == s.generation + 1
            &&& s.generation == u64::MAX ==> after.generation == 0
            &&& source is External || source is Off ==> after.poll_interval_ms == 100
            &&& source matches Source::Iio(sensor) ==> match sensor.source {
                iio::Source::SensorProxy => after.poll_interval_ms == 100,
                iio::Source::Sysfs { poll_interval } => if poll_interval / 1_000_000 <= u64::MAX {
                    after.poll_interval_ms == poll_interval / 1_000_000
                } else {
                    after.poll_interval_ms == u64::MAX
                },
            }
        }),
{
}

/// An outcome that does not belong to a step counts as its failure.
pub proof fn strange_outcome_is_a_failure(s: Als, sensor: iio::Als, value: u64, now: u128)
    ensures
        continued(s, Step::ReadExternal, Outcome::Sensor(sensor, value), now) == continued(
            s,
            Step::ReadExternal,
            Outcome::Failed,
            now,
        ),
        continued(s, Step::ProbeExternal, Outcome::Sensor(sensor, value), now) == continued(
            s,
            Step::ProbeExternal,
            Outcome::Failed,
            now,
        ),
        continued(s, Step::ReadIio, Outcome::Sensor(sensor, value), now) == continued(
            s,
            Step::ReadIio,
            Outcome::Failed,
            now,
        ),
        continued(s, Step::ProbeIio, Outcome::Value(value), now) == continued(
            s,
            Step::ProbeIio,
            Outcome::Failed,
            now,
        ),
{
}

} // verus!
