//! Ambient light: what a source reports and how readings settle.

pub mod auto;
pub mod controller;
pub mod external;
pub mod iio;
pub mod none;
pub mod sensor_proxy;
pub mod time;
pub mod wide;

use vstd::prelude::*;

verus! {

/// How often a source is asked that does not say otherwise, in nanoseconds.
pub const DEFAULT_POLL_INTERVAL: u128 = 100_000_000;

/// How the numbers of a source of ambient light are to be read.
#[derive(Clone, Copy, Debug, PartialEq, Eq, Structural)]
pub enum Scale {
    /// Lux, perceived by orders of magnitude.
    Lux,
    /// A percentage.
    Linear,
}

/// A reading of ambient light, and whether it has settled.
#[derive(Clone, Copy, Debug, PartialEq, Eq, Structural)]
pub struct Reading {
    pub value: u64,
    pub stable: bool,
}

/// A source of ambient light.
#[derive(Debug)]
pub enum Als {
    Auto(auto::Als),
    Webcam,
    External(external::Als),
    Iio(iio::Als),
    Time(time::Als),
    Off(none::Als),
}

impl Als {
    /// The kind of the source.
    pub open spec fn spec_kind(self) -> Seq<char> {
        match self {
            Als::Auto(als) => als.spec_kind(),
            Als::Webcam => "webcam"@,
            Als::External(_) => "external"@,
            Als::Iio(als) => als.spec_name(),
            Als::Time(_) => "time"@,
            Als::Off(_) => "none"@,
        }
    }

    pub fn kind(&self) -> (r: &'static str)
        ensures
            r@ == self.spec_kind(),
            self is Webcam ==> r@ == "webcam"@,
            self is External ==> r@ == "external"@,
            self is Time ==> r@ == "time"@,
            self is Off ==> r@ == "none"@,
    {
        match self {
            Als::Auto(als) => als.kind(),
            Als::Webcam => "webcam",
            Als::External(_) => "external",
            Als::Iio(als) => als.backend_name(),
            Als::Time(_) => "time",
            Als::Off(_) => "none",
        }
    }

    /// How often the source is asked, in nanoseconds.
    pub fn poll_interval(&self) -> (r: u128)
        ensures
            r == match self {
                Als::Auto(als) => (als.poll_interval_ms * 1_000_000) as u128,
                Als::External(_) => external::POLL_INTERVAL,
                Als::Iio(als) => auto::source_interval(auto::Source::Iio(*als)),
                _ => DEFAULT_POLL_INTERVAL,
            },
            self is Webcam || self is Time || self is Off || self is External ==> r == 100_000_000,
            self matches Als::Auto(als) ==> r == als.poll_interval_ms * 1_000_000,
    {
        match self {
            Als::Auto(als) => als.poll_interval(),
            Als::External(als) => als.poll_interval(),
            Als::Iio(als) => als.poll_interval(),
            Als::Webcam | Als::Time(_) | Als::Off(_) => DEFAULT_POLL_INTERVAL,
        }
    }

    /// How the numbers of the source are to be read.
    pub fn scale(&self) -> (r: Scale)
        ensures
            r == match self {
                Als::Auto(_) => Scale::Lux,
                Als::External(als) => als.scale,
                Als::Iio(_) => Scale::Lux,
                _ => Scale::Linear,
            },
    {
        match self {
            Als::Auto(_) => Scale::Lux,
            Als::External(als) => als.scale(),
            Als::Iio(_) => Scale::Lux,
            Als::Webcam | Als::Time(_) | Als::Off(_) => Scale::Linear,
        }
    }

    /// Changes where what the source reports comes from elsewhere.
    pub fn generation(&self) -> (r: u64)
        ensures
            r == match self {
                Als::Auto(als) => als.generation,
                _ => 0,
            },
    {
        match self {
            Als::Auto(als) => als.generation(),
            _ => 0,
        }
    }
}

} // verus!
