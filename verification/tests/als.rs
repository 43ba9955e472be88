use wluma::als::controller::{
    near, Filter, Observation, Stabilizer, Weighed, LARGEST_COMPARED, LARGEST_KEPT,
    STABILIZATION_DURATION,
};
use wluma::als::external::{self, ExternalError};
use wluma::als::iio::{self, Opening, Sensor, Source};
use wluma::als::none;
use wluma::als::sensor_proxy::{self, Poll, ProxyError, RECONNECT_INTERVAL};
use wluma::als::time::{self, Bracket, TimeError};
use wluma::als::{Als, Reading, Scale};
use wluma::maps::levels::Levels;

const START: u128 = 1_000_000_000_000;
const SECOND: u128 = 1_000_000_000;

fn levels(entries: &[(u64, u64)]) -> Levels<u64> {
    let mut levels = Levels::new();
    for (hour, value) in entries {
        levels.insert(*hour, *value);
    }
    levels
}

fn close(left: u64, right: u64) -> bool {
    ((left as f64 + 1.0).log10() - (right as f64 + 1.0).log10()).abs() <= 0.1
}

fn is_near(scale: Scale, left: u64, right: u64) -> bool {
    near(scale, left, right, close(left, right))
}

fn observe(stabilizer: &mut Stabilizer, value: u64, smoothed: u64, now: u128) -> Observation {
    let pairs = stabilizer.pairs(value);
    let weighed = Weighed {
        kept: (value as f64).round() as u64,
        smoothed,
        close_to_accepted: pairs.accepted.is_some_and(|(left, right)| close(left, right)),
        close_together: pairs.candidate.is_some_and(|(left, right)| close(left, right)),
    };
    stabilizer.observe(value, weighed, now)
}

#[test]
fn stability_uses_source_scale() {
    assert!(is_near(Scale::Lux, 100, 125));
    assert!(!is_near(Scale::Lux, 100, 130));
    assert!(is_near(Scale::Lux, 0, 3));
    assert!(is_near(Scale::Linear, 40, 50));
    assert!(!is_near(Scale::Linear, 40, 51));
}

#[test]
fn nearness_in_lux_is_relative() {
    // 10 to the power of a tenth is about 1.2589.
    assert!(is_near(Scale::Lux, 9_999, 12_588));
    assert!(!is_near(Scale::Lux, 9_999, 12_589));
    assert!(!is_near(Scale::Lux, 0, 4));
    assert!(is_near(Scale::Lux, u64::MAX, u64::MAX));
    assert!(!is_near(Scale::Lux, 0, u64::MAX));
    assert!(is_near(Scale::Lux, 125, 100));
}

#[test]
fn nearness_in_lux_agrees_with_logarithms() {
    let mut left: u64 = 0;
    while left < 2_000 {
        for right in left..left + 700 {
            let apart = ((right as f64 + 1.0).log10() - (left as f64 + 1.0).log10()).abs();
            let expected = right - left <= 3 || apart <= 0.1;
            assert_eq!(expected, near(Scale::Lux, left, right, !expected), "{left} {right}");
        }
        left += 7;
    }
}

#[test]
fn nearness_of_large_readings_is_told() {
    for left in 0..800_000u64 {
        // The last that is near, and the first that is not.
        let right = ((left as f64 + 1.0) * 10f64.powf(0.1)) as u64 - 1;
        for right in [right, right + 1] {
            if right <= LARGEST_COMPARED && left % 7 == 0 {
                let expected = left.abs_diff(right) <= 3 || close(left, right);
                assert_eq!(expected, near(Scale::Lux, left, right, !expected), "{left} {right}");
            }
        }
    }
    assert!(near(Scale::Lux, LARGEST_COMPARED, 2 * LARGEST_COMPARED, true));
    assert!(!near(Scale::Lux, LARGEST_COMPARED, LARGEST_COMPARED + 4, false));
    assert!(near(Scale::Lux, LARGEST_COMPARED, LARGEST_COMPARED + 3, false));
    let smaller = 1_000_000_000_000_000_000 - 1;
    let limit = 1_258_925_411_794_167_000;
    for larger in limit - 500..limit + 500 {
        assert_eq!(close(smaller, larger), is_near(Scale::Lux, smaller, larger));
    }
}

#[test]
fn large_readings_are_kept_rounded() {
    for value in [LARGEST_KEPT, LARGEST_KEPT + 1, LARGEST_KEPT + 3, u64::MAX] {
        let mut stabilizer = Stabilizer::new(Scale::Lux);
        assert_eq!(None, observe(&mut stabilizer, value, 0, START).reading);
        assert_eq!(
            Some(Reading {
                value: (value as f64).round() as u64,
                stable: true,
            }),
            observe(&mut stabilizer, value, 0, START + STABILIZATION_DURATION).reading
        );
    }
}

#[test]
fn waits_for_initial_stability() {
    let mut stabilizer = Stabilizer::new(Scale::Linear);
    assert_eq!(None, observe(&mut stabilizer, 100, 0, START).reading);
    assert_eq!(
        Some(Reading {
            value: 105,
            stable: true,
        }),
        observe(&mut stabilizer, 105, 0, START + STABILIZATION_DURATION)
            .reading
    );
}

#[test]
fn holds_the_accepted_value_while_confirming_a_jump() {
    let mut stabilizer = Stabilizer::new(Scale::Linear);
    stabilizer.filtered = Some(10);
    assert_eq!(
        Some(Reading {
            value: 10,
            stable: false,
        }),
        observe(&mut stabilizer, 100, 10, START).reading
    );
    assert_eq!(
        Some(Reading {
            value: 100,
            stable: true,
        }),
        observe(&mut stabilizer, 100, 10, START + STABILIZATION_DURATION)
            .reading
    );
}

#[test]
fn returning_to_the_accepted_value_ends_confirmation() {
    let mut stabilizer = Stabilizer::new(Scale::Linear);
    stabilizer.filtered = Some(10);
    observe(&mut stabilizer, 100, 10, START);
    assert_eq!(
        Some(Reading {
            value: 10,
            stable: true,
        }),
        observe(&mut stabilizer, 10, 10, START + SECOND).reading
    );
    assert!(stabilizer.candidate.is_none());
}

#[test]
fn readings_that_drift_apart_start_over() {
    let mut stabilizer = Stabilizer::new(Scale::Linear);
    assert_eq!(None, observe(&mut stabilizer, 10, 0, START).reading);
    assert_eq!(None, observe(&mut stabilizer, 20, 0, START + 4 * SECOND).reading);
    assert_eq!(None, observe(&mut stabilizer, 9, 0, START + 6 * SECOND).reading);
    assert_eq!(None, observe(&mut stabilizer, 9, 0, START + 10 * SECOND).reading);
    assert_eq!(
        Observation {
            reading: Some(Reading {
                value: 9,
                stable: true
            }),
            filter: Filter::Replace,
        },
        observe(&mut stabilizer, 9, 0, START + 11 * SECOND)
    );
}

#[test]
fn near_readings_are_smoothed() {
    let mut stabilizer = Stabilizer::new(Scale::Linear);
    stabilizer.filtered = Some(50);
    assert_eq!(
        Observation {
            reading: Some(Reading {
                value: 52,
                stable: true
            }),
            filter: Filter::Smooth,
        },
        observe(&mut stabilizer, 55, 52, START)
    );
    assert_eq!(Some(52), stabilizer.filtered);
    assert_eq!(Filter::Keep, observe(&mut stabilizer, 90, 52, START).filter);
}

#[test]
fn interpolates_levels() {
    let als = time::Als::new(levels(&[(0, 0), (12, 100)])).unwrap();
    let value_at = |hour: u64| {
        let b = als.bracket(hour);
        let progress =
            (b.hour as f64 - b.previous_hour as f64) / (b.next_hour - b.previous_hour) as f64;
        (b.previous_value as f64 + (b.next_value as f64 - b.previous_value as f64) * progress)
            .round() as u64
    };
    assert_eq!(50, value_at(6));
    assert_eq!(50, value_at(18));
}

#[test]
fn validates_hours() {
    assert!(time::Als::new(levels(&[(24, 0)])).is_err());
    assert_eq!(
        Some(TimeError::InvalidHour),
        time::Als::new(levels(&[(3, 0), (24, 0)])).err()
    );
    let error = time::Als::new(levels(&[])).err().unwrap();
    assert_eq!(TimeError::NoLevels, error);
    assert_eq!("Time ALS requires at least one level", error.message());
    assert_eq!(
        "Time ALS hours must be between 0 and 23",
        TimeError::InvalidHour.message()
    );
}

#[test]
fn night_lies_between_the_last_level_and_the_first() {
    let als = time::Als::new(levels(&[(20, 5), (8, 90), (6, 10)])).unwrap();
    let night = Bracket {
        previous_hour: 20,
        previous_value: 5,
        next_hour: 30,
        next_value: 10,
        hour: 22,
    };
    assert_eq!(night, als.bracket(22));
    assert_eq!(Bracket { hour: 26, ..night }, als.bracket(2));
    assert_eq!(
        Bracket {
            previous_hour: 6,
            previous_value: 10,
            next_hour: 8,
            next_value: 90,
            hour: 6,
        },
        als.bracket(6)
    );
    let alone = time::Als::new(levels(&[(7, 42)])).unwrap();
    let bracket = alone.bracket(3);
    assert_eq!((42, 42), (bracket.previous_value, bracket.next_value));
}

#[test]
fn rejects_incomplete_lines() {
    let mut als = external::Als::new(Scale::Lux);
    als.connect();
    assert_eq!(
        Err(ExternalError::NotTerminated),
        als.receive(Some("42")),
    );
    assert!(als.needs_connection());
}

#[test]
fn reconnects_after_the_connection_closes() {
    let mut als = external::Als::new(Scale::Lux);
    assert!(als.needs_connection());
    als.connect();
    assert!(!als.needs_connection());
    assert_eq!(Err(ExternalError::Closed), als.receive(Some("")));
    assert!(als.needs_connection());
    als.connect();
    assert_eq!(Ok("42".to_string()), als.receive(Some("42\n")));
    assert!(!als.needs_connection());
}

#[test]
fn a_failed_read_gives_the_connection_up() {
    let mut als = external::Als::new(Scale::Linear);
    als.connect();
    let error = als.receive(None).unwrap_err();
    assert_eq!("Unable to read external ALS value", error.message());
    assert!(als.needs_connection());
    assert_eq!("External ALS connection closed", ExternalError::Closed.message());
    assert_eq!(
        "External ALS value is not newline-terminated",
        ExternalError::NotTerminated.message()
    );
    assert_eq!(Ok("4 2.5".to_string()), als.receive(Some("\t 4 2.5 \u{a0}\n")));
}

#[test]
fn prefers_processed_channels() {
    let none = vec![false; iio::CHANNEL_COUNT];
    let mut second = none.clone();
    second[1] = true;
    let mut last = none.clone();
    last[4] = true;
    assert_eq!(
        Some(Sensor::Processed(4)),
        iio::choose_sensor(&last, &second, true)
    );
    assert_eq!(Some(Sensor::Raw(1)), iio::choose_sensor(&none, &second, true));
    assert_eq!(Some(Sensor::Rgb), iio::choose_sensor(&none, &none, true));
    assert_eq!(None, iio::choose_sensor(&none, &none, false));
}

#[test]
fn names_sensor_files() {
    let names: Vec<&str> = (0..iio::CHANNEL_COUNT).map(iio::channel).collect();
    assert_eq!(
        vec![
            "in_illuminance",
            "in_illuminance0",
            "in_illuminance_clear",
            "in_intensity_clear",
            "in_intensity_both"
        ],
        names
    );
    assert_eq!(
        "in_intensity_clear_raw",
        iio::channel_file("in_intensity_clear", "raw")
    );
    assert_eq!("in_illuminance", iio::generic_channel("in_illuminance_clear"));
    assert_eq!("in_intensity", iio::generic_channel("in_intensity_both"));
    assert!(iio::is_sampling_frequency("in_illuminance_sampling_frequency"));
    assert!(!iio::is_sampling_frequency("sampling_frequency_available"));
}

#[test]
fn the_service_is_used_where_it_can_be() {
    assert_eq!(Opening::SensorProxy, iio::opening(true, true));
    assert_eq!(Opening::Sysfs, iio::opening(false, true));
    assert_eq!(Opening::Unavailable, iio::opening(false, false));
    let proxy = iio::Als {
        source: Source::SensorProxy,
    };
    let files = iio::Als {
        source: Source::Sysfs {
            poll_interval: 250_999_999,
        },
    };
    assert_eq!(("iio-sensor-proxy", 100_000_000), (proxy.backend_name(), proxy.poll_interval()));
    assert_eq!(("sysfs", 250_999_999), (files.backend_name(), files.poll_interval()));
}

#[test]
fn the_service_must_measure_in_lux() {
    assert_eq!(Ok(()), sensor_proxy::check_capabilities(true, "lux"));
    let unit = sensor_proxy::check_capabilities(true, "vendor").unwrap_err();
    assert_eq!(
        "iio-sensor-proxy reports unsupported light level unit 'vendor'",
        unit.message("vendor")
    );
    let sensor = sensor_proxy::check_capabilities(false, "lux").unwrap_err();
    assert_eq!(ProxyError::NoSensor, sensor);
    assert_eq!(
        "iio-sensor-proxy has no ambient light sensor",
        sensor.message("lux")
    );
    assert!(sensor_proxy::is_own_interface("net.hadess.SensorProxy"));
    assert!(!sensor_proxy::is_own_name("net.hadess.SensorProxy2"));
}

#[test]
fn a_lost_service_is_tried_again_after_a_while() {
    let mut sensor = sensor_proxy::Sensor::new(7);
    assert_eq!(Poll::Known(9), sensor.poll(&vec![8, 9], false, START));
    assert_eq!(Poll::Known(9), sensor.poll(&vec![], false, START));
    assert_eq!(Poll::Reconnect, sensor.poll(&vec![10], true, START));
    assert_eq!((true, 10), sensor.reconnected(None, START));
    assert_eq!(
        Poll::Known(10),
        sensor.poll(&vec![], true, START + RECONNECT_INTERVAL - 1)
    );
    assert_eq!(
        Poll::Reconnect,
        sensor.poll(&vec![], true, START + RECONNECT_INTERVAL)
    );
    assert_eq!((false, 10), sensor.reconnected(None, START + RECONNECT_INTERVAL));
    assert_eq!(
        (false, 3),
        sensor.reconnected(Some(sensor_proxy::Sensor::new(3)), START)
    );
    assert_eq!(None, sensor.reconnect_at);
}

#[test]
fn automatic_source_prefers_the_external_one() {
    let mut als = wluma::als::auto::Als::new();
    assert_eq!(wluma::als::auto::Step::ProbeExternal, als.start(true, START));
    assert_eq!(
        wluma::als::auto::Step::Done(42),
        als.proceed(wluma::als::auto::Step::ProbeExternal, wluma::als::auto::Outcome::Value(42), START)
    );
    assert_eq!("external", als.kind());
    assert_eq!(1, als.generation());
    assert_eq!(wluma::als::auto::Step::ReadExternal, als.start(true, START));
    assert_eq!(
        wluma::als::auto::Step::ProbeIio,
        als.proceed(wluma::als::auto::Step::ReadExternal, wluma::als::auto::Outcome::Failed, START)
    );
    assert_eq!("none", als.kind());
    assert_eq!(2, als.generation());
}

#[test]
fn automatic_source_falls_back_to_a_sensor() {
    let sensor = iio::Als {
        source: Source::Sysfs {
            poll_interval: 250_999_999,
        },
    };
    let mut als = wluma::als::auto::Als::default();
    assert_eq!(100_000_000, als.poll_interval());
    assert_eq!(wluma::als::auto::Step::ProbeIio, als.start(false, START));
    assert_eq!(
        wluma::als::auto::Step::Done(5),
        als.proceed(wluma::als::auto::Step::ProbeIio, wluma::als::auto::Outcome::Sensor(sensor, 5), START)
    );
    assert_eq!("sysfs", als.kind());
    assert_eq!(250_000_000, als.poll_interval());
    assert_eq!(wluma::als::auto::Step::ReadIio, als.start(false, START + SECOND));
    assert_eq!(
        wluma::als::auto::Step::Done(0),
        als.proceed(wluma::als::auto::Step::ReadIio, wluma::als::auto::Outcome::Failed, START + SECOND)
    );
    assert_eq!(100_000_000, als.poll_interval());
    assert_eq!(
        wluma::als::auto::Step::Done(0),
        als.start(false, START + wluma::als::auto::PROBE_INTERVAL - 1)
    );
    assert_eq!(
        wluma::als::auto::Step::ProbeIio,
        als.start(false, START + wluma::als::auto::PROBE_INTERVAL)
    );
}

#[test]
fn an_external_source_that_disappears_is_left() {
    let mut als = wluma::als::auto::Als::new();
    als.start(true, START);
    als.proceed(wluma::als::auto::Step::ProbeExternal, wluma::als::auto::Outcome::Value(1), START);
    assert_eq!(wluma::als::auto::Step::ProbeIio, als.start(false, START));
    assert_eq!("none", als.kind());
    als.proceed(wluma::als::auto::Step::ProbeIio, wluma::als::auto::Outcome::Failed, START);
    assert_eq!(wluma::als::auto::Step::Done(0), als.start(true, START + SECOND));
    assert_eq!(
        wluma::als::auto::Step::ProbeExternal,
        als.start(true, START + wluma::als::auto::PROBE_INTERVAL)
    );
}

#[test]
fn sources_know_their_scale() {
    let external = Als::External(external::Als::new(Scale::Linear));
    assert_eq!(("external", Scale::Linear, 100_000_000), (external.kind(), external.scale(), external.poll_interval()));
    let automatic = Als::Auto(wluma::als::auto::Als::new());
    assert_eq!(("none", Scale::Lux, 0), (automatic.kind(), automatic.scale(), automatic.generation()));
    let files = Als::Iio(iio::Als {
        source: Source::Sysfs {
            poll_interval: 12_800_000,
        },
    });
    assert_eq!(("sysfs", Scale::Lux, 12_800_000), (files.kind(), files.scale(), files.poll_interval()));
    let off = Als::Off(none::Als::default());
    assert_eq!(("none", Scale::Linear, 100_000_000), (off.kind(), off.scale(), off.poll_interval()));
    assert_eq!(0, none::Als::default().get());
    assert_eq!(("webcam", Scale::Linear), (Als::Webcam.kind(), Als::Webcam.scale()));
    let time = Als::Time(time::Als::new(levels(&[(7, 42)])).unwrap());
    assert_eq!(("time", Scale::Linear, 0), (time.kind(), time.scale(), time.generation()));
}

#[test]
fn a_long_interval_becomes_the_longest() {
    let sensor = iio::Als {
        source: Source::Sysfs {
            poll_interval: u128::MAX,
        },
    };
    let mut als = wluma::als::auto::Als::default();
    als.start(false, START);
    als.proceed(wluma::als::auto::Step::ProbeIio, wluma::als::auto::Outcome::Sensor(sensor, 5), START);
    assert_eq!(u64::MAX as u128 * 1_000_000, als.poll_interval());
}
