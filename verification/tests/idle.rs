use wluma::idle::{
    offered, power_service_left, source_of, spoken_version, Event, Fired, Offer, PowerSource,
    State, Watches, NOTIFIER_VERSION,
};

#[test]
fn switching_power_source_selects_its_idle_state() {
    let mut state = State::new(true, true);
    assert_eq!(None, state.set_idle(PowerSource::Battery, true));

    assert_eq!(
        (
            Event::PowerSourceChanged(PowerSource::Battery),
            Some(Event::Idled(PowerSource::Battery))
        ),
        state.set_source(PowerSource::Battery)
    );

    assert_eq!(
        (
            Event::PowerSourceChanged(PowerSource::Ac),
            Some(Event::Resumed)
        ),
        state.set_source(PowerSource::Ac)
    );
}

#[test]
fn switching_source_while_both_are_idle_does_not_enter_idle_again() {
    let mut state = State::new(true, true);
    assert_eq!(
        Some(Event::Idled(PowerSource::Ac)),
        state.set_idle(PowerSource::Ac, true)
    );
    assert_eq!(None, state.set_idle(PowerSource::Battery, true));

    assert_eq!(
        (Event::PowerSourceChanged(PowerSource::Battery), None),
        state.set_source(PowerSource::Battery)
    );
}

#[test]
fn disabled_power_source_never_enters_idle() {
    let mut state = State::new(false, true);
    assert_eq!(None, state.set_idle(PowerSource::Ac, true));
    assert_eq!(None, state.set_idle(PowerSource::Battery, true));
    assert_eq!(
        (
            Event::PowerSourceChanged(PowerSource::Battery),
            Some(Event::Idled(PowerSource::Battery))
        ),
        state.set_source(PowerSource::Battery)
    );
}

#[test]
fn activity_resumes_every_power_source() {
    let mut state = State::new(true, true);
    assert_eq!(
        Some(Event::Idled(PowerSource::Ac)),
        state.set_idle(PowerSource::Ac, true)
    );

    assert_eq!(Some(Event::Resumed), state.resume());

    assert_eq!(
        (Event::PowerSourceChanged(PowerSource::Battery), None),
        state.set_source(PowerSource::Battery)
    );
}

#[test]
fn idleness_is_reported_once() {
    let mut state = State::new(true, true);
    state.set_idle(PowerSource::Ac, true);
    assert_eq!(None, state.set_idle(PowerSource::Ac, true));
    assert_eq!(Some(Event::Resumed), state.set_idle(PowerSource::Ac, false));
    assert_eq!(None, state.resume());
}

#[test]
fn watches_tell_when_the_user_is_back() {
    let mut watches = Watches::new(Some(1), Some(2));
    assert_eq!(Fired::Ignored, watches.fired(3));
    assert_eq!(
        Fired::Idled {
            source: PowerSource::Battery,
            watch_activity: true
        },
        watches.fired(2)
    );
    watches.watching(3);
    assert_eq!(
        Fired::Idled {
            source: PowerSource::Ac,
            watch_activity: false
        },
        watches.fired(1)
    );
    assert_eq!(Fired::Resumed, watches.fired(3));
    assert_eq!(Fired::Ignored, watches.fired(3));
}

#[test]
fn compositors_offer_notifiers_and_seats() {
    let offer = |interface: &str, has_seat| {
        offered(interface, "ext_idle_notifier_v1", "wl_seat", has_seat)
    };
    assert_eq!(Offer::Notifier, offer("ext_idle_notifier_v1", true));
    assert_eq!(Offer::Seat, offer("wl_seat", false));
    assert_eq!(Offer::Ignored, offer("wl_seat", true));
    assert_eq!(Offer::Ignored, offer("wl_output", false));
    assert_eq!(1, spoken_version(1, NOTIFIER_VERSION));
    assert_eq!(2, spoken_version(5, NOTIFIER_VERSION));
}

#[test]
fn the_source_of_power_is_told_by_a_service() {
    assert_eq!(PowerSource::Battery, source_of(true));
    assert_eq!(PowerSource::Ac, source_of(false));
    assert!(power_service_left("org.freedesktop.UPower", ""));
    assert!(!power_service_left("org.freedesktop.UPower", ":1.5"));
    assert!(!power_service_left("org.freedesktop.DBus", ""));
}

#[test]
fn a_change_is_told_once() {
    let mut state = State::new(true, false);
    state.ac_idled = true;
    assert_eq!(Some(Event::Idled(PowerSource::Ac)), state.event());
    assert_eq!(None, state.event());
    state.ac_enabled = false;
    assert_eq!(Some(Event::Resumed), state.event());
    assert_eq!(None, state.event());
    assert!(state.ac_idled && !state.idled);
}
