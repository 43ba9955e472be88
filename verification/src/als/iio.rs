//! Ambient light sensors of the kernel, through a service or through files.

use crate::text::search::{begins_with, ends_with, starts_with, strip_suffix};
use vstd::prelude::*;

verus! {

/// How often the service is asked, in nanoseconds.
pub const SENSOR_PROXY_POLL_INTERVAL: u128 = 100_000_000;

/// How often files are read that do not tell how long a measurement takes, in nanoseconds.
pub const DEFAULT_SYSFS_POLL_INTERVAL: u128 = 800_000_000;

/// How many channels a sensor may have its value on.
pub const CHANNEL_COUNT: usize = 5;

/// The channels on which a sensor may have its value, the best one first.
pub open spec fn channel_name(i: int) -> Seq<char> {
    if i == 0 {
        "in_illuminance"@
    } else if i == 1 {
        "in_illuminance0"@
    } else if i == 2 {
        "in_illuminance_clear"@
    } else if i == 3 {
        "in_intensity_clear"@
    } else {
        "in_intensity_both"@
    }
}

/// The name of a channel.
pub fn channel(i: usize) -> (r: &'static str)
    requires
        i < CHANNEL_COUNT,
    ensures
        r@ == channel_name(i as int),
        i == 0 ==> r@ == "in_illuminance"@,
        i == 1 ==> r@ == "in_illuminance0"@,
        i == 2 ==> r@ == "in_illuminance_clear"@,
        i == 3 ==> r@ == "in_intensity_clear"@,
        i == 4 ==> r@ == "in_intensity_both"@,
{
    if i == 0 {
        "in_illuminance"
    } else if i == 1 {
        "in_illuminance0"
    } else if i == 2 {
        "in_illuminance_clear"
    } else if i == 3 {
        "in_intensity_clear"
    } else {
        "in_intensity_both"
    }
}

/// The file of a channel with the given suffix.
pub fn channel_file(name: &str, suffix: &str) -> (r: String)
    ensures
        r@ == name@ + "_"@ + suffix@,
{
    let mut r = name.to_string();
    r.append("_");
    r.append(suffix);
    r
}

/// The channel that an attribute may belong to where it does not belong to the channel
/// itself.
pub open spec fn generic_name(name: Seq<char>) -> Seq<char> {
    if begins_with(name, "in_illuminance"@) {
        "in_illuminance"@
    } else {
        "in_intensity"@
    }
}

/// The channel that an attribute may belong to where it does not belong to the channel
/// itself.
pub fn generic_channel(name: &str) -> (r: &'static str)
    ensures
        r@ == generic_name(name@),
        r@ == if begins_with(name@, "in_illuminance"@) {
            "in_illuminance"@
        } else {
            "in_intensity"@
        },
{
    if starts_with(name, "in_illuminance") {
        "in_illuminance"
    } else {
        "in_intensity"
    }
}

/// Whether a file holds how often a sensor measures.
pub fn is_sampling_frequency(name: &str) -> (r: bool)
    ensures
        r == ends_with(name@, "sampling_frequency"@),
{
    strip_suffix(name, "sampling_frequency").is_some()
}

/// On what a sensor has its value.
#[derive(Clone, Copy, Debug, PartialEq, Eq, Structural)]
pub enum Sensor {
    /// In lux, on the channel with this number.
    Processed(usize),
    /// As a raw number, on the channel with this number.
    Raw(usize),
    /// As the intensities of three colours.
    Rgb,
}

/// The first of the flags that is set.
pub open spec fn first_set(flags: Seq<bool>, from: int) -> Option<int>
    decreases flags.len() - from,
{
    if from < 0 || from >= flags.len() {
        None
    } else if flags[from] {
        Some(from)
    } else {
        first_set(flags, from + 1)
    }
}

fn find_set(flags: &Vec<bool>) -> (r: Option<usize>)
    ensures
        r is Some <==> first_set(flags@, 0) is Some,
        r matches Some(i) ==> i < flags@.len() && first_set(flags@, 0) == Some(i as int),
{
    let mut i: usize = 0;
    while i < flags.len()
        invariant
            i <= flags@.len(),
            first_set(flags@, 0) == first_set(flags@, i as int),
        decreases flags.len() - i,
    {
        if flags[i] {
            return Some(i);
        }
        i = i + 1;
    }
    None
}

/// On what a sensor has its value, by which of the files of its channels there are. A
/// processed value is better than a raw one, and that is better than colours.
pub fn choose_sensor(processed: &Vec<bool>, raw: &Vec<bool>, rgb: bool) -> (r: Option<Sensor>)
    ensures
        r == match first_set(processed@, 0) {
            Some(i) => Some(Sensor::Processed(i as usize)),
            None => match first_set(raw@, 0) {
                Some(i) => Some(Sensor::Raw(i as usize)),
                None => if rgb {
                    Some(Sensor::Rgb)
                } else {
                    None
                },
            },
        },
        r matches Some(Sensor::Processed(i)) ==> i < processed@.len() && processed@[i as int]
            && forall|j: int| 0 <= j < i ==> !#[trigger] processed@[j],
        r matches Some(Sensor::Raw(i)) ==> i < raw@.len() && raw@[i as int] && (forall|j: int|
            0 <= j < i ==> !#[trigger] raw@[j]) && forall|j: int|
            0 <= j < processed@.len() ==> !#[trigger] processed@[j],
        (r is None || r == Some(Sensor::Rgb)) ==> (r is Some <==> rgb) && (forall|j: int|
            0 <= j < processed@.len() ==> !#[trigger] processed@[j]) && forall|j: int|
            0 <= j < raw@.len() ==> !#[trigger] raw@[j],
{
    proof {
        first_set_is_first(processed@, 0);
        first_set_is_first(raw@, 0);
    }
    if let Some(i) = find_set(processed) {
        return Some(Sensor::Processed(i));
    }
    if let Some(i) = find_set(raw) {
        return Some(Sensor::Raw(i));
    }
    if rgb {
        Some(Sensor::Rgb)
    } else {
        None
    }
}

/// Through what a sensor is read.
#[derive(Clone, Copy, Debug, PartialEq, Eq, Structural)]
pub enum Source {
    SensorProxy,
    /// Through files, which are read at an interval in nanoseconds.
    Sysfs { poll_interval: u128 },
}

/// A sensor.
#[derive(Clone, Copy, Debug, PartialEq, Eq, Structural)]
pub struct Als {
    pub source: Source,
}

/// What to do to get hold of a sensor.
#[derive(Clone, Copy, Debug, PartialEq, Eq, Structural)]
pub enum Opening {
    /// Use the service.
    SensorProxy,
    /// Look for files.
    Sysfs,
    /// There is neither the service nor a place to look for files.
    Unavailable,
}

/// What to do to get hold of a sensor. The service is used where it can be.
pub fn opening(has_proxy: bool, has_path: bool) -> (r: Opening)
    ensures
        r is SensorProxy <==> has_proxy,
        r is Sysfs <==> !has_proxy && has_path,
{
    if has_proxy {
        Opening::SensorProxy
    } else if has_path {
        Opening::Sysfs
    } else {
        Opening::Unavailable
    }
}

impl Als {
    /// How often the sensor is asked, in nanoseconds.
    pub fn poll_interval(&self) -> (r: u128)
        ensures
            r == match self.source {
                Source::SensorProxy => SENSOR_PROXY_POLL_INTERVAL,
                Source::Sysfs { poll_interval } => poll_interval,
            },
            self.source is SensorProxy ==> r == 100_000_000,
    {
        match self.source {
            Source::SensorProxy => SENSOR_PROXY_POLL_INTERVAL,
            Source::Sysfs { poll_interval } => poll_interval,
        }
    }

    /// What the sensor is read through.
    pub open spec fn spec_name(self) -> Seq<char> {
        match self.source {
            Source::SensorProxy => "iio-sensor-proxy"@,
            Source::Sysfs { poll_interval } => "sysfs"@,
        }
    }

    pub fn backend_name(&self) -> (r: &'static str)
        ensures
            r@ == self.spec_name(),
            self.source is SensorProxy ==> r@ == "iio-sensor-proxy"@,
            self.source is Sysfs ==> r@ == "sysfs"@,
    {
        match self.source {
            Source::SensorProxy => "iio-sensor-proxy",
            Source::Sysfs { .. } => "sysfs",
        }
    }
}

/// The first flag that is set is set, and no earlier one is; there is none only where none is set.
pub proof fn first_set_is_first(flags: Seq<bool>, from: int)
    requires
        0 <= from,
    ensures
        first_set(flags, from) matches Some(i) ==> from <= i < flags.len() && flags[i] && forall|j: int|
            from <= j < i ==> !#[trigger] flags[j],
        first_set(flags, from) is None ==> forall|j: int|
            from <= j < flags.len() ==> !#[trigger] flags[j],
    decreases flags.len() - from,
{
    if from < flags.len() && !flags[from] {
        first_set_is_first(flags, from + 1);
    }
}

} // verus!
