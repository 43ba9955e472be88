use wluma::als::Scale;
use wluma::brightness::controller::CommandAction;
use wluma::config::app::{
    BacklightKind, BacklightOutput, Capturer, DdcUtilOutput, Idle, IdleProfile, ManualPoint,
    Output, Predictor, VulkanDevice, WaylandProtocol,
};
use wluma::control::{Action, Adjustment};
use wluma::frame::capturer;
use wluma::idle::{Event, PowerSource};
use wluma::maps::levels::Levels;
use wluma::predictor::data::Entry;
use wluma::predictor::AlsDirection;
use wluma::runtime::{
    answer_all, answer_one, describe_discovered, is_keyboard, plan_session, Device, Dispatch,
    IdleStep, Runtime, DISCOVERY_REFRESH_INTERVAL, START_RETRY_INTERVAL, TOPOLOGY_SETTLE_INTERVAL,
};

const NOW: u128 = 1_000_000_000_000;

fn panel(name: &str, path: &str) -> Output {
    Output::Backlight(BacklightOutput {
        name: name.to_string(),
        path: path.to_string(),
        capturer: Capturer::Auto,
        vulkan_device: VulkanDevice::Auto,
        min_brightness: 1,
        predictor: Predictor::Adaptive,
        als_direction: AlsDirection::Increasing,
        kind: BacklightKind::Display,
    })
}

fn keyboard(name: &str) -> Output {
    Output::Backlight(BacklightOutput {
        name: name.to_string(),
        path: "/leds/keys".to_string(),
        capturer: Capturer::Off,
        vulkan_device: VulkanDevice::Auto,
        min_brightness: 0,
        predictor: Predictor::Adaptive,
        als_direction: AlsDirection::Decreasing,
        kind: BacklightKind::Keyboard,
    })
}

fn monitor(name: &str) -> Output {
    Output::DdcUtil(DdcUtilOutput {
        name: name.to_string(),
        identifier: "serial-123".to_string(),
        identifier_overridden: false,
        capturer: Capturer::Wayland(WaylandProtocol::Any),
        vulkan_device: VulkanDevice::Path("/dev/dri/card1".to_string()),
        min_brightness: 1,
        predictor: Predictor::Manual {
            points: vec![ManualPoint {
                als: 1,
                luma: 2,
                reduction: 3,
            }],
        },
    })
}

fn idle() -> Idle {
    Idle {
        ac: IdleProfile {
            enabled: true,
            timeout: 300,
            brightness: 30,
        },
        battery: IdleProfile {
            enabled: true,
            timeout: 60,
            brightness: 10,
        },
    }
}

fn runtime() -> Runtime {
    Runtime::new(vec![], Scale::Lux, Levels::new(), Some(idle()))
}

fn connectors(names: &[&str]) -> Vec<String> {
    names.iter().map(|name| name.to_string()).collect()
}

fn names(outputs: &[Output]) -> Vec<&str> {
    outputs.iter().map(Output::name).collect()
}

fn commands(commands: &[wluma::runtime::Command]) -> Vec<(&str, CommandAction)> {
    commands
        .iter()
        .map(|command| (command.output.as_str(), command.action))
        .collect()
}

#[test]
fn connectors_settle_after_a_change() {
    let mut runtime = runtime();
    assert!(runtime.step(connectors(&["a"]), NOW));
    assert_eq!(None, runtime.settling_until);
    runtime.discover(vec![], NOW);
    assert!(!runtime.step(connectors(&["a"]), NOW));
    assert!(runtime.step(connectors(&["a", "b"]), NOW));
    assert_eq!(Some(NOW + TOPOLOGY_SETTLE_INTERVAL), runtime.settling_until);
    assert!(!runtime.step(connectors(&["a", "b"]), NOW + TOPOLOGY_SETTLE_INTERVAL - 1));
    assert!(runtime.step(connectors(&["a", "b"]), NOW + TOPOLOGY_SETTLE_INTERVAL));
    assert_eq!(None, runtime.settling_until);
}

#[test]
fn outputs_are_looked_for_now_and_then() {
    let mut runtime = runtime();
    assert!(runtime.step(vec![], NOW));
    runtime.discover(vec![], NOW);
    assert!(!runtime.step(vec![], NOW + DISCOVERY_REFRESH_INTERVAL - 1));
    assert!(runtime.step(vec![], NOW + DISCOVERY_REFRESH_INTERVAL));
}

#[test]
fn discovery_tells_what_is_new() {
    let mut runtime = runtime();
    let news = runtime.discover(vec![panel("b", "/1"), monitor("a"), panel("b", "/2")], NOW);
    assert_eq!(vec!["a", "b"], news);
    let news = runtime.discover(vec![monitor("a"), panel("b", "/1")], NOW);
    assert!(news.is_empty());
    let news = runtime.discover(vec![monitor("a"), panel("b", "/2")], NOW);
    assert_eq!(vec!["b"], news);
    assert_eq!(Some(NOW), runtime.last_discovery);
}

#[test]
fn sessions_follow_what_is_desired() {
    let mut runtime = runtime();
    runtime.discover(vec![panel("b", "/1"), monitor("a")], NOW);
    let done = runtime.reconcile(&vec![], NOW);
    assert_eq!(vec!["a", "b"], names(&done.start));
    for output in done.start {
        assert_eq!(None, runtime.started(output));
    }
    let done = runtime.reconcile(&vec![], NOW);
    assert!(done.start.is_empty() && done.stopped.is_empty() && done.removed.is_empty());
    runtime.discover(vec![panel("b", "/2")], NOW);
    let done = runtime.reconcile(&vec![], NOW);
    assert_eq!(vec!["a", "b"], done.removed);
    assert_eq!(vec!["b"], names(&done.start));
}

#[test]
fn failed_outputs_are_tried_again_later() {
    let mut runtime = runtime();
    runtime.discover(vec![panel("a", "/1"), panel("b", "/2")], NOW);
    runtime.started(panel("a", "/1"));
    runtime.start_failed("b", NOW);
    let done = runtime.reconcile(&vec!["a".to_string(), "c".to_string()], NOW);
    assert_eq!(vec!["a"], done.stopped);
    assert!(done.start.is_empty());
    let later = NOW + START_RETRY_INTERVAL;
    assert!(runtime.pending(later - 1).is_empty());
    assert_eq!(vec!["a", "b"], names(&runtime.pending(later)));
    runtime.settling_until = Some(later);
    assert!(runtime.pending(later).is_empty());
    runtime.settling_until = None;
    runtime.started(panel("b", "/2"));
    assert_eq!(vec!["a"], names(&runtime.pending(later)));
    assert!(!runtime.failures.contains_key("b"));
}

#[test]
fn removed_outputs_are_forgotten() {
    let mut runtime = runtime();
    runtime.started(panel("a", "/1"));
    runtime.start_failed("a", NOW);
    assert_eq!(vec!["a"], runtime.drop_obsolete());
    assert!(!runtime.failures.contains_key("a"));
    assert!(!runtime.sessions.contains_key("a"));
}

#[test]
fn idle_users_dim_outputs() {
    let mut runtime = runtime();
    runtime.started(panel("a", "/1"));
    runtime.started(keyboard("k"));
    match runtime.idle_event(Event::PowerSourceChanged(PowerSource::Battery)) {
        IdleStep::ShowProfile { source, profile } => {
            assert_eq!(("battery", idle().battery), (source, profile))
        }
        other => panic!("{other:?}"),
    }
    match runtime.idle_event(Event::Idled(PowerSource::Ac)) {
        IdleStep::Enter(told) => assert_eq!(
            vec![
                ("a", CommandAction::IdleEnter(30)),
                ("k", CommandAction::IdleEnter(0))
            ],
            commands(&told)
        ),
        other => panic!("{other:?}"),
    }
    assert!(matches!(
        runtime.idle_event(Event::Idled(PowerSource::Battery)),
        IdleStep::Nothing
    ));
    assert_eq!(
        Some(CommandAction::IdleEnter(30)),
        runtime.started(panel("late", "/2"))
    );
    match runtime.idle_event(Event::Resumed) {
        IdleStep::Leave(told) => assert_eq!(
            vec![
                ("a", CommandAction::IdleLeave),
                ("k", CommandAction::IdleLeave),
                ("late", CommandAction::IdleLeave)
            ],
            commands(&told)
        ),
        other => panic!("{other:?}"),
    }
    assert!(matches!(runtime.idle_event(Event::Resumed), IdleStep::Nothing));
    assert_eq!(None, runtime.started(panel("later", "/3")));
}

#[test]
fn clients_reach_outputs() {
    let mut runtime = runtime();
    runtime.started(panel("a", "/1"));
    runtime.started(panel("b", "/2"));
    let adjustment = Adjustment {
        percent: 5,
        relative: false,
        increase: true,
    };
    match runtime.execute(Action::SetTo("a".to_string(), adjustment)) {
        Dispatch::One {
            command,
            tells_brightness,
        } => {
            assert!(tells_brightness);
            assert_eq!(
                ("a", CommandAction::SetTo(adjustment)),
                (command.output.as_str(), command.action)
            );
        }
        other => panic!("{other:?}"),
    }
    match runtime.execute(Action::Pause(None, Some(30))) {
        Dispatch::All(told) => assert_eq!(
            vec![
                ("a", CommandAction::Pause(Some(30))),
                ("b", CommandAction::Pause(Some(30)))
            ],
            commands(&told)
        ),
        other => panic!("{other:?}"),
    }
    match runtime.execute(Action::Get("c".to_string())) {
        Dispatch::Refused(error) => assert_eq!("unknown or disconnected output 'c'", error),
        other => panic!("{other:?}"),
    }
    assert!(matches!(
        runtime.execute(Action::Toggle(Some("b".to_string()))),
        Dispatch::One {
            tells_brightness: false,
            ..
        }
    ));
}

#[test]
fn clients_are_answered() {
    assert_eq!(Ok("60%".to_string()), answer_one(Ok(60), true));
    assert_eq!(Ok("ok".to_string()), answer_one(Ok(60), false));
    assert_eq!(Err("no".to_string()), answer_one(Err("no".to_string()), true));
    let result = |name: &str, result: Result<u8, &str>| {
        (name.to_string(), result.map_err(str::to_string))
    };
    assert_eq!(Ok("ok".to_string()), answer_all(&vec![result("a", Ok(1))]));
    assert_eq!(
        Err("failed for a: z; b: y".to_string()),
        answer_all(&vec![
            result("b", Err("y")),
            result("c", Ok(1)),
            result("a", Err("z"))
        ])
    );
}

#[test]
fn sessions_are_planned() {
    let plan = plan_session(&monitor("DP-1"));
    assert_eq!(("DP-1", "ddc"), (plan.name.as_str(), plan.kind));
    assert!(matches!(
        plan.device,
        Device::Ddc { identifier, min_brightness: 1 } if identifier == "serial-123"
    ));
    assert_eq!(Some("wayland"), plan.shown_capturer);
    assert_eq!(
        capturer::Capturer::Wayland(WaylandProtocol::Any),
        plan.capturer
    );
    assert_eq!(Some("/dev/dri/card1"), plan.vulkan_device.as_deref());
    assert_eq!(Some(vec![Entry::new(1, 2, 3)]), plan.points);
    assert_eq!(AlsDirection::Increasing, plan.als_direction);
    let plan = plan_session(&keyboard("keys"));
    assert_eq!((None, "backlight"), (plan.shown_capturer, plan.kind));
    assert_eq!(AlsDirection::Decreasing, plan.als_direction);
    assert!(matches!(
        plan.device,
        Device::Backlight { path, min_brightness: 0 } if path == "/leds/keys"
    ));
    assert_eq!(None, plan.points);
    assert!(is_keyboard(&keyboard("keys")) && !is_keyboard(&panel("a", "/1")));
    assert!(!is_keyboard(&monitor("DP-1")));
}

#[test]
fn discovered_outputs_are_described() {
    assert_eq!(
        "Discovered output 'a' using backlight /1",
        describe_discovered(&panel("a", "/1"))
    );
    assert_eq!(
        "Discovered keyboard 'k' using backlight /leds/keys",
        describe_discovered(&keyboard("k"))
    );
    assert_eq!(
        "Discovered output 'm' using DDC identifier 'serial-123'",
        describe_discovered(&monitor("m"))
    );
}
