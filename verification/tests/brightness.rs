use wluma::brightness::backlight::{
    access, address, clamp, read_max_brightness, requires_polling, Access, AddressError, Backlight,
    Lookup, Store, Watched,
};
use wluma::brightness::controller::{
    adjust_percent, adjusted, CommandAction, Controller, Execution, PauseChange, ReadOutcome, ReadReason,
    ReadStep, StepAction, Target, WriteOutcome, WriteReason,
};
use wluma::brightness::{percent, value_at_percent};
use wluma::brightness::ddcutil::{
    self, after_attempt, counts_as_set, describe, failure_message, find_bus,
    find_ddcutil_bus_by_identifier, find_display_by_identifier, open_step, parse_bus_number,
    parse_ddcutil_detect_output, parse_ddcutil_getvcp_output, Attempt, Backend, DdcUtil, Described,
    Event, OpenEvent, OpenStep, ParseError, Phase, Step, Work,
};
use wluma::control::Adjustment;

const NOW: u128 = 1_000_000_000_000;
const SECOND: u128 = 1_000_000_000;

fn target(desired: u64, step: i64) -> Target {
    Target { desired, step }
}

fn absolute(percent: u8) -> Adjustment {
    Adjustment {
        percent,
        relative: false,
        increase: true,
    }
}

#[test]
fn led_brightness_requires_polling() {
    assert!(requires_polling("/sys/class/leds/dell::kbd_backlight"));
}

#[test]
fn display_brightness_uses_inotify() {
    assert!(!requires_polling("/sys/class/backlight/intel_backlight"));
}

#[test]
fn test_update_target_ignore_when_desired_didnt_change() {
    let old_target = Some(target(10, -20));
    let mut controller = Controller::new();
    controller.target = old_target;
    controller.current = Some(7);

    controller.update_target(10, 1, 1);

    assert_eq!(old_target, controller.target);
}

#[test]
fn test_update_target_ignore_when_desired_equals_current() {
    let old_target = Some(target(10, -20));
    let mut controller = Controller::new();
    controller.target = old_target;
    controller.current = Some(7);

    controller.update_target(7, 1, 1);

    assert_eq!(old_target, controller.target);
}

#[test]
fn test_update_target_ignores_changes_below_device_threshold() {
    let mut controller = Controller::new();
    controller.current = Some(10000);

    controller.update_target(10019, 20, 1);

    assert_eq!(None, controller.target);

    controller.update_target(10020, 20, 1);

    assert_eq!(Some(target(10020, 1)), controller.target);
}

#[test]
fn test_update_target_finds_minimal_step_that_reaches_target_within_transition_duration() {
    let mut controller = Controller::new();

    let test_cases = vec![
        (0, 1, 1),
        (10000, 10001, 1),
        (10000, 10013, 1),
        (10000, 10199, 1),
        (10000, 10200, 1),
        (10000, 10413, 3),
        (10000, 11732, 9),
        (10000, 9999, -1),
        (10000, 9983, -1),
        (10000, 9801, -1),
        (10000, 9800, -1),
        (10000, 9473, -3),
        (10000, 8433, -8),
    ];

    for (current, desired, expected_step) in test_cases {
        controller.current = Some(current);
        controller.update_target(desired, 1, 1);
        assert_eq!(Some(target(desired, expected_step)), controller.target);
    }
}

#[test]
fn slow_devices_take_larger_steps() {
    let mut controller = Controller::new();
    controller.current = Some(0);
    controller.update_target(100, 1, 50);
    assert_eq!(Some(target(100, 25)), controller.target);
    controller.update_target(101, 1, 300);
    assert_eq!(Some(target(101, 101)), controller.target);
    controller.update_target(u64::MAX, 1, 300);
    assert_eq!(Some(target(u64::MAX, -1)), controller.target);
}

#[test]
fn test_target_reached() {
    assert!(!target(10, 1).reached(9));
    assert!(target(10, 1).reached(10));
    assert!(target(10, 1).reached(11));

    assert!(target(10, -1).reached(9));
    assert!(target(10, -1).reached(10));
    assert!(!target(10, -1).reached(11));
}

#[test]
fn test_step_first_run() {
    let mut controller = Controller::new();
    assert_eq!(StepAction::Learn(42), controller.observe(42, Some(37), 1, 1));
    assert_eq!(Some(42), controller.current);
    assert!(controller.target.is_none());
}

#[test]
fn test_step_first_run_brightness_zero() {
    let mut controller = Controller::new();
    assert_eq!(StepAction::Learn(0), controller.observe(0, Some(37), 1, 1));
    assert_eq!(Some(0), controller.current);
    assert!(controller.target.is_none());
}

#[test]
fn test_step_user_changed_brightness() {
    let mut controller = Controller::new();
    controller.current = Some(66);
    controller.target = Some(target(77, 1));
    assert_eq!(StepAction::Learn(42), controller.observe(42, Some(37), 1, 1));
    assert_eq!(Some(42), controller.current);
    assert!(controller.target.is_none());
}

#[test]
fn test_transition_reset_target_when_reached() {
    let mut controller = Controller::new();
    controller.current = Some(10);
    controller.target = Some(target(10, 20));
    assert_eq!(StepAction::Settled, controller.observe(10, None, 1, 1));
    assert_eq!(None, controller.target);
    assert_eq!(StepAction::Wait, controller.observe(10, None, 1, 1));
}

#[test]
fn test_transition_increases_brightness_with_next_step() {
    let mut controller = Controller::new();
    controller.current = Some(10);
    controller.target = Some(target(20, 2));
    assert_eq!(StepAction::Write(12), controller.observe(10, None, 1, 1));
    controller.moved(Some(12));
    assert_eq!(Some(12), controller.current);
    controller.moved(None);
    assert_eq!(Some(12), controller.current);
}

#[test]
fn test_transition_decreases_brightness_with_next_step() {
    let mut controller = Controller::new();
    controller.current = Some(10);
    controller.target = Some(target(9, -1));
    assert_eq!(StepAction::Write(9), controller.observe(10, None, 1, 1));
    controller.moved(Some(9));
    assert_eq!(Some(9), controller.current);
}

#[test]
fn test_transition_doesnt_decrease_below_0() {
    let mut controller = Controller::new();
    controller.current = Some(1);
    controller.target = Some(target(0, -2)); // step of -2 should not overshoot
    assert_eq!(StepAction::Write(0), controller.observe(1, None, 1, 1));
    controller.moved(Some(0));
    assert_eq!(Some(0), controller.current);
}

#[test]
fn a_transition_ends_at_its_target() {
    let mut controller = Controller::new();
    controller.current = Some(100);
    let mut action = controller.observe(100, Some(63), 1, 16);
    let mut steps = 0;
    while let StepAction::Write(value) = action {
        let value = clamp(value, 63, 100);
        controller.moved(Some(value));
        steps += 1;
        action = controller.observe(value, None, 1, 16);
    }
    assert_eq!(StepAction::Settled, action);
    assert_eq!(Some(63), controller.current);
    assert_eq!(13, steps);
}

#[test]
fn cli_set_discards_pending_prediction() {
    let mut controller = Controller::new();
    controller.current = Some(50);
    assert_eq!(
        Ok(Execution::Adjust(50, absolute(60))),
        controller.execute(CommandAction::SetTo(absolute(60)), NOW)
    );
    assert_eq!(
        WriteOutcome {
            discard_predictions: true,
            report: Some(60),
            learn: Some(60),
        },
        controller.written(WriteReason::Adjust, 60)
    );
    assert_eq!(Some(60), controller.current);
}

#[test]
fn resumes_from_current_brightness_without_learning_it() {
    let mut controller = Controller::new();
    controller.current = Some(50);
    controller.set_manual_paused(Some(None));
    assert_eq!(
        Ok(Execution::Read(None, ReadReason::Adjust(absolute(60)))),
        controller.execute(CommandAction::SetTo(absolute(60)), NOW)
    );
    assert_eq!(
        ReadOutcome {
            learn: None,
            report: None,
            step: ReadStep::Adjust(50, absolute(60)),
        },
        controller.read(ReadReason::Adjust(absolute(60)), 50, 0)
    );
    assert_eq!(
        WriteOutcome {
            discard_predictions: false,
            report: None,
            learn: None,
        },
        controller.written(WriteReason::Adjust, 60)
    );
    assert_eq!(Some(50), controller.current);

    controller.set_manual_paused(None);
    assert_eq!(StepAction::Wait, controller.observe(60, None, 1, 1));
    assert_eq!(Some(60), controller.current);
}

#[test]
fn every_resume_discards_pending_predictions() {
    let mut controller = Controller::new();
    controller.set_manual_paused(Some(None));
    let change = controller.set_manual_paused(None);
    assert!(change.discard_predictions);
    assert!(controller.resuming);
}

#[test]
fn idle_dim_does_not_restore_or_learn() {
    let mut controller = Controller::new();
    controller.current = Some(80);
    assert_eq!(
        Ok(Execution::Read(
            Some(PauseChange {
                manual: false,
                idle: true,
                discard_predictions: false
            }),
            ReadReason::Dim(30)
        )),
        controller.execute(CommandAction::IdleEnter(30), NOW)
    );
    let outcome = controller.read(ReadReason::Dim(30), 80, 0);
    assert_eq!((None, ReadStep::Dim(24)), (outcome.learn, outcome.step));
    let outcome = controller.written(WriteReason::Dim, 24);
    assert_eq!((None, Some(24)), (outcome.learn, outcome.report));
    assert_eq!(Some(24), controller.current);
    assert!(controller.is_paused());

    assert_eq!(
        Ok(Execution::Done(PauseChange {
            manual: false,
            idle: false,
            discard_predictions: true
        })),
        controller.execute(CommandAction::IdleLeave, NOW)
    );
    assert_eq!(Some(24), controller.current);
    assert!(!controller.is_paused());
    assert!(controller.resuming);
}

#[test]
fn idle_dim_can_turn_a_backlight_off() {
    let mut controller = Controller::new();
    controller.current = Some(3);
    controller.execute(CommandAction::IdleEnter(0), NOW).unwrap();
    assert_eq!(ReadStep::Dim(0), controller.read(ReadReason::Dim(0), 3, 0).step);
    controller.written(WriteReason::Dim, 0);
    assert_eq!(Some(0), controller.current);
}

#[test]
fn idle_dim_preserves_initial_predictor_brightness() {
    let mut controller = Controller::new();
    controller.execute(CommandAction::IdleEnter(30), NOW).unwrap();
    let outcome = controller.read(ReadReason::Dim(30), 80, 0);
    assert_eq!(Some(80), outcome.learn);
    assert_eq!(ReadStep::Dim(24), outcome.step);
    controller.written(WriteReason::Dim, 24);
    assert_eq!(Some(24), controller.current);
}

#[test]
fn idle_leave_preserves_manual_pause_and_defers_resume() {
    let mut controller = Controller::new();
    controller.current = Some(30);
    controller.set_manual_paused(Some(None));
    controller.execute(CommandAction::IdleEnter(30), NOW).unwrap();
    assert_eq!(ReadStep::Dim(9), controller.read(ReadReason::Dim(30), 30, 0).step);
    controller.written(WriteReason::Dim, 9);

    assert_eq!(
        Ok(Execution::Done(PauseChange {
            manual: true,
            idle: false,
            discard_predictions: false
        })),
        controller.execute(CommandAction::IdleLeave, NOW)
    );
    assert!(controller.is_paused());

    let change = controller.set_manual_paused(None);
    assert!(!controller.is_paused());
    assert!(change.discard_predictions);
    assert!(controller.resuming);
}

#[test]
fn rejects_unrepresentable_pause_duration() {
    let mut controller = Controller::new();
    controller.current = Some(50);

    let error = controller
        .execute(CommandAction::Pause(Some(u64::MAX)), NOW)
        .unwrap_err();
    assert_eq!("pause duration is too large", error.message());
    assert!(!controller.is_paused());
}

#[test]
fn a_timed_pause_expires() {
    let mut controller = Controller::new();
    controller
        .execute(CommandAction::Pause(Some(30)), NOW)
        .unwrap();
    assert_eq!(Some(Some(NOW + 30 * SECOND)), controller.paused_until);
    assert_eq!(None, controller.expire_pause(NOW + 30 * SECOND - 1));
    assert!(controller.is_paused());
    let change = controller.expire_pause(NOW + 30 * SECOND).unwrap();
    assert!(change.discard_predictions && !change.manual);
    assert!(!controller.is_paused());
}

#[test]
fn toggling_twice_ends_a_pause() {
    let mut controller = Controller::new();
    controller.execute(CommandAction::Toggle, NOW).unwrap();
    assert_eq!(Some(None), controller.paused_until);
    controller.execute(CommandAction::Toggle, NOW).unwrap();
    assert_eq!(None, controller.paused_until);
    controller.execute(CommandAction::Pause(None), NOW).unwrap();
    assert!(controller.is_paused());
    controller.execute(CommandAction::Resume, NOW).unwrap();
    assert!(!controller.is_paused());
}

#[test]
fn asking_for_brightness_learns_it() {
    let mut controller = Controller::new();
    controller.target = Some(target(3, 1));
    assert_eq!(
        Ok(Execution::Read(None, ReadReason::Get)),
        controller.execute(CommandAction::Get, NOW)
    );
    let outcome = controller.read(ReadReason::Get, 12, 0);
    assert_eq!(
        ReadOutcome {
            learn: Some(12),
            report: Some(12),
            step: ReadStep::Reply(12)
        },
        outcome
    );
    assert_eq!(None, controller.target);
    let outcome = controller.read(ReadReason::Get, 12, 0);
    assert_eq!(None, outcome.learn);
    assert_eq!(12, controller.reply(None, 5));
    assert_eq!(40, controller.reply(Some(40), 5));
    assert_eq!(5, Controller::new().reply(None, 5));
}

#[test]
fn dimming_stays_above_the_least_brightness() {
    let mut controller = Controller::new();
    assert_eq!(ReadStep::Dim(7), controller.read(ReadReason::Dim(5), 80, 7).step);
    assert_eq!(ReadStep::Reply(80), controller.read(ReadReason::Dim(100), 80, 7).step);
    assert_eq!(ReadStep::Reply(80), controller.read(ReadReason::Dim(200), 80, 7).step);
}

#[test]
fn adjusts_percentages() {
    let change = |percent, increase| Adjustment {
        percent,
        relative: true,
        increase,
    };
    assert_eq!(60, adjust_percent(10, absolute(60)));
    assert_eq!(65, adjust_percent(60, change(5, true)));
    assert_eq!(100, adjust_percent(98, change(5, true)));
    assert_eq!(55, adjust_percent(60, change(5, false)));
    assert_eq!(0, adjust_percent(3, change(5, false)));
}

#[test]
fn backlights_are_addressed_by_subsystem_and_name() {
    let found = address("/sys/class/backlight/intel_backlight").unwrap();
    assert_eq!(
        ("backlight", "intel_backlight"),
        (found.subsystem.as_str(), found.id.as_str())
    );
    let found = address("/sys/class/leds/kbd/").unwrap();
    assert_eq!(("leds", "kbd"), (found.subsystem.as_str(), found.id.as_str()));
    let error = address("/dev/intel_backlight").unwrap_err();
    assert_eq!(AddressError::UnknownSubsystem, error);
    assert_eq!(
        "Unable to identify backlight subsystem out of /dev/intel_backlight, please open an issue on GitHub",
        error.message("/dev/intel_backlight")
    );
    let error = address("/").unwrap_err();
    assert_eq!("Unable to identify backlight ID", error.message("/"));
}

#[test]
fn reads_the_highest_brightness() {
    assert_eq!(Some(19200), read_max_brightness("19200\n"));
    assert_eq!(Some(7), read_max_brightness(" +7 "));
    assert_eq!(None, read_max_brightness("-7"));
    assert_eq!(None, read_max_brightness("18446744073709551616"));
    assert_eq!(None, read_max_brightness(""));
}

#[test]
fn a_backlight_is_read_when_something_changed() {
    let mut device = Backlight::new("/sys/class/backlight/panel", 1, 100, Access::File);
    assert_eq!(Lookup::Read, device.get(Watched::WouldBlock));
    assert_eq!(150, device.learn(150));
    assert_eq!(Some(100), device.current);
    assert_eq!(Lookup::Known(100), device.get(Watched::Unchanged));
    assert_eq!(Lookup::Known(100), device.get(Watched::WouldBlock));
    assert_eq!(Lookup::Read, device.get(Watched::Changed));
    assert_eq!(Lookup::Failed, device.get(Watched::Failed));
    let mut light = Backlight::new("/sys/class/leds/kbd", 0, 3, Access::File);
    light.learn(2);
    assert_eq!(Lookup::Read, light.get(Watched::Unchanged));
}

#[test]
fn a_backlight_is_set_within_its_range() {
    let mut device = Backlight::new("/sys/class/backlight/panel", 10, 100, access(true, false));
    assert_eq!(Store::Write(10), device.set(3));
    assert_eq!(Store::Write(100), device.set(300));
    assert_eq!(Some(42), device.stored(42, Watched::Changed));
    assert_eq!(Lookup::Known(42), device.get(Watched::Unchanged));
    assert_eq!(None, device.stored(50, Watched::Failed));
    assert_eq!(Some(50), device.current);
    let remote = Backlight::new("/sys/class/backlight/panel", 10, 100, access(false, true));
    assert_eq!(Store::Send(55), remote.set(55));
    let denied = Backlight::new("/sys/class/backlight/panel", 10, 100, access(false, false));
    assert_eq!(Store::Denied, denied.set(55));
}

#[test]
fn small_changes_of_a_backlight_do_not_count() {
    let threshold = |min, max| Backlight::new("/b", min, max, Access::File).change_threshold();
    assert_eq!(1, threshold(0, 100));
    assert_eq!(1, threshold(0, 1000));
    assert_eq!(2, threshold(0, 1001));
    assert_eq!(20, threshold(1, 19393));
    assert_eq!(1, threshold(5, 5));
    assert_eq!(1, threshold(7, 5));
    let device = Backlight::new("/b", 1, 9, Access::File);
    assert_eq!((1, 9, 16), (device.min(), device.max(), device.transition_step_ms()));
}

#[test]
fn test_parse_ddcutil_detect_output() {
    let output = r#"
Invalid display
   I2C bus:          /dev/i2c-4
   DRM connector:    card1-eDP-1
   Monitor:          AUO::

Display 1
   I2C bus:          /dev/i2c-12
   DRM connector:    card0-HDMI-A-3
   Monitor:          GSM:LG ULTRAWIDE:504AZER5F964
"#;

    let displays = parse_ddcutil_detect_output(output).unwrap();
    assert_eq!(
        vec![(12, "GSM:LG ULTRAWIDE:504AZER5F964")],
        displays
            .iter()
            .map(|display| (display.bus, display.monitor.as_str()))
            .collect::<Vec<_>>()
    );
    assert_eq!(Some(12), find_bus(&displays, "ULTRAWIDE"));
    assert_eq!(None, find_bus(&displays, "AUO"));
    assert_eq!(Ok(Some(12)), find_ddcutil_bus_by_identifier(output, "504AZER5F964"));
}

#[test]
fn test_parse_ddcutil_getvcp_output() {
    assert_eq!(Ok((27, 100)), parse_ddcutil_getvcp_output("VCP 10 C 27 100"));
}

#[test]
fn refuses_what_the_program_should_not_write() {
    let message = |output: &str| {
        parse_ddcutil_getvcp_output(output)
            .unwrap_err()
            .message(output)
    };
    assert_eq!(
        "ddcutil getvcp returned unexpected output: nothing",
        message(" nothing\n")
    );
    assert_eq!(
        "ddcutil getvcp returned unexpected terse output:  VCP 10 C",
        message("noise\n VCP 10 C\n")
    );
    assert_eq!(
        "Unable to parse current brightness from ddcutil getvcp output",
        message("VCP 10 C x 100")
    );
    assert_eq!(
        "Unable to parse max brightness from ddcutil getvcp output",
        message("VCP 10 C 1 x")
    );
    let error = parse_ddcutil_detect_output("Display 1\n I2C bus: /dev/i2c-x\n").unwrap_err();
    assert_eq!(ParseError::InvalidBus, error);
    assert_eq!("Unable to parse ddcutil bus number", error.message(""));
    assert_eq!(Some(7), parse_bus_number("/dev/i2c-7"));
    assert_eq!(Some(7), parse_bus_number("7"));
    assert_eq!(None, parse_bus_number("/dev/i2c-"));
    assert_eq!(None, parse_bus_number("-4294967296"));
}

#[test]
fn arguments_for_the_program() {
    assert_eq!(vec!["detect", "--terse"], ddcutil::detect_args());
    assert_eq!(
        vec!["--bus", "12", "getvcp", "10", "--terse"],
        ddcutil::get_args(12)
    );
    assert_eq!(
        vec!["--bus", "12", "setvcp", "10", "60", "--noverify"],
        ddcutil::set_args(12, 60)
    );
}

#[test]
fn tells_why_the_program_failed() {
    let args = ddcutil::detect_args();
    assert_eq!(
        "ddcutil detect --terse failed with status 1. stdout: out stderr: err",
        failure_message(&args, Some(1), "out\n", " err")
    );
    assert_eq!(
        "ddcutil detect --terse failed with status 1. stdout: out",
        failure_message(&args, Some(1), "out\n", " ")
    );
    assert_eq!(
        "ddcutil detect --terse failed with status 2. stderr: err",
        failure_message(&args, Some(2), "", "err")
    );
    assert_eq!(
        "ddcutil detect --terse failed with status terminated by signal. no output",
        failure_message(&args, None, "", "")
    );
    assert_eq!(
        "Unable to find a ddcutil display that matches 'DELL'",
        ddcutil::no_match_message("DELL")
    );
    assert_eq!(
        "Unable to initialize DDC display 'DELL' directly (a) or via ddcutil CLI (b)",
        ddcutil::open_failure_message("DELL", "a", "b")
    );
    assert_eq!(
        "ddcutil setvcp failed on bus 3 while setting brightness to 40",
        ddcutil::set_failure_message(3, 40)
    );
}

#[test]
fn attempts_are_limited() {
    assert_eq!(Attempt::TryAgain, after_attempt(1, false));
    assert_eq!(Attempt::TryAgain, after_attempt(2, false));
    assert_eq!(Attempt::Failed, after_attempt(3, false));
    assert_eq!(Attempt::Succeeded, after_attempt(3, true));
    assert!(counts_as_set(true, 60, None));
    assert!(counts_as_set(false, 60, Some(60)));
    assert!(!counts_as_set(false, 60, Some(59)));
    assert!(!counts_as_set(false, 60, None));
}

#[test]
fn displays_are_found_by_what_they_tell() {
    let display = |model: &str, serial: Option<&str>, capable: bool| Described {
        model_name: Some(model.to_string()),
        serial_number: serial.map(str::to_string),
        manufacturer_id: Some("DEL".to_string()),
        capable,
    };
    let displays = vec![
        display("U2720Q", None, false),
        display("U2720Q", Some("serial-123"), true),
    ];
    assert_eq!("U2720Q  DEL", describe(&displays[0]));
    assert_eq!("U2720Q serial-123 DEL", describe(&displays[1]));
    assert_eq!(Some(1), find_display_by_identifier(&displays, "U2720Q", true));
    assert_eq!(Some(0), find_display_by_identifier(&displays, "U2720Q", false));
    assert_eq!(Some(1), find_display_by_identifier(&displays, "3 DEL", false));
    assert_eq!(None, find_display_by_identifier(&displays, "LG", false));
}

#[test]
fn direct_access_that_fails_is_replaced() {
    let mut monitor = DdcUtil::direct(5, 100);
    assert_eq!((500, 50), (monitor.waiting_sleep_ms(), monitor.transition_step_ms()));
    let (work, phase, step) = monitor.set(3);
    assert_eq!((Work::SetTo(5), Step::WriteDirect(5)), (work, step));
    let (phase, step) = monitor.step(work, phase, Event::Failed);
    assert_eq!(Step::FindBus, step);
    let (phase, step) = monitor.step(work, phase, Event::Bus(Some(4)));
    assert_eq!(Step::ReadCli { bus: 4 }, step);
    let (phase, step) = monitor.step(work, phase, Event::Told(50, 80));
    assert_eq!(Step::WriteCli { bus: 4, value: 5 }, step);
    let (phase, step) = monitor.step(work, phase, Event::Written);
    assert_eq!((Phase::Over, Step::Done(5)), (phase, step));
    assert_eq!(Backend::Cli { bus: 4 }, monitor.backend);
    assert_eq!(80, monitor.max_brightness);
    assert_eq!((800, 100), (monitor.waiting_sleep_ms(), monitor.transition_step_ms()));
}

#[test]
fn a_monitor_without_a_bus_reports_the_first_failure() {
    let mut monitor = DdcUtil::direct(0, 100);
    let (work, phase, step) = monitor.get();
    assert_eq!(Step::ReadDirect, step);
    let (phase, _) = monitor.step(work, phase, Event::Failed);
    assert_eq!(
        (Phase::Over, Step::FailedFirst),
        monitor.step(work, phase, Event::Bus(None))
    );
    assert_eq!(
        (Phase::Over, Step::FailedLast),
        monitor.step(work, phase, Event::Failed)
    );
    let mut program = DdcUtil::cli(7, 10, 3);
    assert_eq!(10, program.max_brightness);
    let (work, phase, step) = program.get();
    assert_eq!(Step::ReadCli { bus: 7 }, step);
    assert_eq!(
        (Phase::Over, Step::FailedFirst),
        program.step(work, phase, Event::Failed)
    );
    assert_eq!(
        (Phase::Over, Step::Done(10)),
        program.step(work, phase, Event::Told(4, 90))
    );
    assert_eq!(90, program.max_brightness);
}

#[test]
fn a_target_that_stays_needs_no_step() {
    let mut controller = Controller::new();
    controller.current = Some(u64::MAX);
    controller.target = Some(target(0, -1));
    controller.update_target(0, 1, 0);
    assert_eq!(Some(target(0, -1)), controller.target);
    controller.target = None;
    controller.update_target(u64::MAX - 5, 10, 0);
    assert_eq!(None, controller.target);
    assert!(!controller.can_observe(u64::MAX, Some((1 << 63) - 1), 1, 200));
    assert!(controller.can_observe(u64::MAX, Some(1 << 63), 1, 200));
    assert!(!controller.can_observe(u64::MAX, Some(0), 1, 0));
    assert!(controller.can_observe(u64::MAX, None, 1, 0));
    assert!(controller.can_observe(7, Some(0), 1, 0));
    assert_eq!(StepAction::Learn(7), controller.observe(7, Some(0), 1, 0));
}

#[test]
fn brightness_in_percent_is_rounded() {
    assert_eq!(50, percent(128, 255));
    assert_eq!(1, percent(5, 1000));
    assert_eq!(0, percent(4, 1000));
    assert_eq!(100, percent(7, 0));
    assert_eq!(0, percent(0, 0));
    assert_eq!(100, percent(u64::MAX, 255));
    assert_eq!(153, value_at_percent(60, 1, 255));
    assert_eq!(1, value_at_percent(0, 1, 255));
    assert_eq!(255, value_at_percent(255, 1, 255));
    assert_eq!(9, value_at_percent(50, 9, 3));
    assert_eq!(u64::MAX, value_at_percent(100, 0, u64::MAX));
}

#[test]
fn blocks_of_monitors_are_independent() {
    let first = "Display 1\n I2C bus: /dev/i2c-4\n Monitor: DEL:A:1";
    let invalid = "Invalid display\n I2C bus: /dev/i2c-5\n Monitor: X:B:2\r";
    let nameless = " I2C bus: /dev/i2c-6";
    let busless = " Monitor: Y:C:3\n";
    let faulty = " I2C bus: none";
    let parsed = |text: &str| {
        parse_ddcutil_detect_output(text).map(|displays| {
            let known = displays.into_iter().map(|display| (display.bus, display.monitor));
            known.collect::<Vec<_>>()
        })
    };
    for a in ["", first, invalid, nameless, busless, faulty] {
        for b in ["", first, invalid, nameless, busless, faulty] {
            let both = parsed(&format!("{a}\n\n{b}"));
            match (parsed(a), parsed(b)) {
                (Ok(known), Ok(more)) => assert_eq!(Ok([known, more].concat()), both),
                _ => assert_eq!(Err(ParseError::InvalidBus), both),
            }
        }
    }
}

#[test]
fn direct_access_is_tried_before_the_program() {
    let after = |step, event| open_step(step, event, 10);
    assert_eq!(OpenStep::ReadMaximum, after(OpenStep::FindCapable, OpenEvent::Found));
    assert_eq!(OpenStep::FindAny, after(OpenStep::FindCapable, OpenEvent::Failed));
    assert_eq!(OpenStep::ReadMaximum, after(OpenStep::FindAny, OpenEvent::Found));
    assert_eq!(OpenStep::FindBus, after(OpenStep::FindAny, OpenEvent::Failed));
    assert_eq!(
        OpenStep::Opened(DdcUtil {
            backend: Backend::Direct,
            min_brightness: 10,
            max_brightness: 5,
        }),
        after(OpenStep::ReadMaximum, OpenEvent::Maximum(5))
    );
    assert_eq!(OpenStep::FindBus, after(OpenStep::ReadMaximum, OpenEvent::Failed));
    assert_eq!(OpenStep::Probe { bus: 4 }, after(OpenStep::FindBus, OpenEvent::Bus(4)));
    assert_eq!(OpenStep::Failed, after(OpenStep::FindBus, OpenEvent::Failed));
    assert_eq!(OpenStep::Failed, after(OpenStep::Probe { bus: 4 }, OpenEvent::Failed));
    assert_eq!(OpenStep::Failed, after(OpenStep::Failed, OpenEvent::Found));
    for (told, max_brightness) in [(5, 10), (100, 100)] {
        let opened = OpenStep::Opened(DdcUtil {
            backend: Backend::Cli { bus: 4 },
            min_brightness: 10,
            max_brightness,
        });
        assert_eq!(opened, after(OpenStep::Probe { bus: 4 }, OpenEvent::Told(3, told)));
        assert_eq!(opened, after(opened, OpenEvent::Failed));
    }
}

#[test]
fn adjustments_lead_to_a_brightness_of_the_device() {
    let relative = |percent: u8, increase: bool| Adjustment {
        percent,
        relative: true,
        increase,
    };
    assert_eq!(153, adjusted(7, absolute(60), 1, 255));
    assert_eq!(1, adjusted(200, absolute(0), 1, 255));
    assert_eq!(140, adjusted(128, relative(5, true), 1, 255));
    assert_eq!(115, adjusted(128, relative(5, false), 1, 255));
    assert_eq!(255, adjusted(250, relative(5, true), 1, 255));
    assert_eq!(10, adjusted(12, relative(100, false), 10, 255));
}
