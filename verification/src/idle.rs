//! Whether the user is idle, by the source of power.

use crate::text::chars::{chars, same};
use vstd::prelude::*;

verus! {

/// How long to wait before what failed is tried again, in milliseconds.
pub const RETRY_DELAY_MS: u64 = 5000;

/// The service that knows the source of power.
pub const UPOWER_DESTINATION: &'static str = "org.freedesktop.UPower";

/// The highest version of the idle notifier that is spoken.
pub const NOTIFIER_VERSION: u32 = 2;

/// Where power comes from.
#[derive(Clone, Copy, Debug, PartialEq, Eq, Structural)]
pub enum PowerSource {
    Ac,
    Battery,
}

/// What changed.
#[derive(Clone, Copy, Debug, PartialEq, Eq, Structural)]
pub enum Event {
    PowerSourceChanged(PowerSource),
    Idled(PowerSource),
    Resumed,
}

/// What is known of the user and of the power.
#[derive(Clone, Copy, Debug, PartialEq, Eq, Structural)]
pub struct State {
    pub source: PowerSource,
    pub ac_enabled: bool,
    pub battery_enabled: bool,
    pub ac_idled: bool,
    pub battery_idled: bool,
    pub idled: bool,
}

/// The user counts as idle: on the present source of power that is to be noticed,
/// and it was.
pub open spec fn counts_as_idle(s: State) -> bool {
    match s.source {
        PowerSource::Ac => s.ac_enabled && s.ac_idled,
        PowerSource::Battery => s.battery_enabled && s.battery_idled,
    }
}

/// The state with what it says of the user brought up to date.
pub open spec fn updated(s: State) -> State {
    State { idled: counts_as_idle(s), ..s }
}

/// What bringing the state up to date changes.
pub open spec fn news(s: State) -> Option<Event> {
    if counts_as_idle(s) == s.idled {
        None
    } else if counts_as_idle(s) {
        Some(Event::Idled(s.source))
    } else {
        Some(Event::Resumed)
    }
}

/// The state in which one source of power has noticed the user or the lack of one.
pub open spec fn noticed(s: State, source: PowerSource, idled: bool) -> State {
    match source {
        PowerSource::Ac => State { ac_idled: idled, ..s },
        PowerSource::Battery => State { battery_idled: idled, ..s },
    }
}

impl State {
    /// The state is up to date.
    pub open spec fn wf(self) -> bool {
        self.idled == counts_as_idle(self)
    }

    /// Nobody is idle, and power comes from the mains until more is known.
    pub fn new(ac_enabled: bool, battery_enabled: bool) -> (r: State)
        ensures
            r.wf(),
            r == (State {
                source: PowerSource::Ac,
                ac_enabled,
                battery_enabled,
                ac_idled: false,
                battery_idled: false,
                idled: false,
            }),
    {
        State {
            source: PowerSource::Ac,
            ac_enabled,
            battery_enabled,
            ac_idled: false,
            battery_idled: false,
            idled: false,
        }
    }

    /// Takes note of the source of power. That is news in any case, and it comes
    /// before what it means for the user.
    pub fn set_source(&mut self, source: PowerSource) -> (r: (Event, Option<Event>))
        requires
            old(self).wf(),
        ensures
            final(self).wf(),
            *final(self) == updated(State { source, ..*old(self) }),
            r == (Event::PowerSourceChanged(source), news(State { source, ..*old(self) })),
    {
        self.source = source;
        let event = self.event();
        (Event::PowerSourceChanged(source), event)
    }

    /// Takes note of what one source of power has noticed.
    pub fn set_idle(&mut self, source: PowerSource, idled: bool) -> (r: Option<Event>)
        requires
            old(self).wf(),
        ensures
            final(self).wf(),
            *final(self) == updated(noticed(*old(self), source, idled)),
            r == news(noticed(*old(self), source, idled)),
            final(self).source == old(self).source,
            final(self).ac_enabled == old(self).ac_enabled,
            final(self).battery_enabled == old(self).battery_enabled,
            final(self).ac_idled == if source is Ac {
                idled
            } else {
                old(self).ac_idled
            },
            final(self).battery_idled == if source is Battery {
                idled
            } else {
                old(self).battery_idled
            },
    {
        match source {
            PowerSource::Ac => self.ac_idled = idled,
            PowerSource::Battery => self.battery_idled = idled,
        }
        self.event()
    }

    /// Takes note that the user is back, whatever the source of power.
    pub fn resume(&mut self) -> (r: Option<Event>)
        requires
            old(self).wf(),
        ensures
            final(self).wf(),
            *final(self) == updated(
                State { ac_idled: false, battery_idled: false, ..*old(self) },
            ),
            r == news(State { ac_idled: false, battery_idled: false, ..*old(self) }),
    {
        self.ac_idled = false;
        self.battery_idled = false;
        self.event()
    }

    /// Brings the state up to date, and tells what that changes.
    pub fn event(&mut self) -> (r: Option<Event>)
        ensures
            final(self).wf(),
            *final(self) == updated(*old(self)),
            r == news(*old(self)),
            final(self).idled == if old(self).source is Ac {
                old(self).ac_enabled && old(self).ac_idled
            } else {
                old(self).battery_enabled && old(self).battery_idled
            },
            r is Some <==> final(self).idled != old(self).idled,
            r matches Some(event) ==> event == if final(self).idled {
                Event::Idled(old(self).source)
            } else {
                Event::Resumed
            },
    {
        let idled = match self.source {
            PowerSource::Ac => self.ac_enabled && self.ac_idled,
            PowerSource::Battery => self.battery_enabled && self.battery_idled,
        };
        if idled == self.idled {
            return None;
        }
        self.idled = idled;
        Some(
            if idled {
                Event::Idled(self.source)
            } else {
                Event::Resumed
            },
        )
    }
}

/// On a source of power on which that is not to be noticed, the user never becomes
/// idle.
pub proof fn disabled_source_never_idles(s: State, source: PowerSource, idled: bool)
    requires
        s.source == PowerSource::Ac ==> !s.ac_enabled,
        s.source == PowerSource::Battery ==> !s.battery_enabled,
    ensures
        !updated(s).idled,
        !(news(s) matches Some(event) && event is Idled),
        !updated(noticed(s, source, idled)).idled,
        !(news(noticed(s, source, idled)) is Some && news(noticed(s, source, idled))->0 is Idled),
{
}

/// A change of the source of power while both have noticed the same lack of a user
/// is no news about the user.
pub proof fn switching_while_idle_is_quiet(s: State, source: PowerSource)
    requires
        s.wf(),
        s.ac_enabled == s.battery_enabled,
        s.ac_idled == s.battery_idled,
    ensures
        news(State { source, ..s }) is None,
{
}

/// Bringing the state up to date changes nothing but what it says of the user. It is told where that
/// changes, and bringing the state up to date again is no news.
pub proof fn changes_are_told_once(s: State)
    ensures
        updated(s) == (State { idled: counts_as_idle(s), ..s }),
        news(s) is None <==> s.idled == counts_as_idle(s),
        news(s) == Some(Event::Idled(s.source)) <==> counts_as_idle(s) && !s.idled,
        news(s) == Some(Event::Resumed) <==> !counts_as_idle(s) && s.idled,
        updated(updated(s)) == updated(s),
        news(updated(s)) is None,
{
}

/// Going idle and coming back alternate: what is reported is always the opposite of
/// what was reported last.
pub proof fn reports_alternate(s: State, event: Event)
    requires
        news(s) == Some(event),
    ensures
        event is Idled <==> !s.idled,
        event is Resumed <==> s.idled,
        event is Idled <==> updated(s).idled,
{
}

/// After the user is back, nobody is idle, whatever the source of power is or
/// becomes.
pub proof fn activity_ends_idleness(s: State, source: PowerSource)
    ensures
        ({
            let back = updated(State { ac_idled: false, battery_idled: false, ..s });
            !back.idled && news(State { source, ..back }) is None
        }),
{
}

/// The source of power that a service tells of.
pub fn source_of(on_battery: bool) -> (r: PowerSource)
    ensures
        r is Battery <==> on_battery,
{
    if on_battery {
        PowerSource::Battery
    } else {
        PowerSource::Ac
    }
}

/// Whether a change of the owner of a name means that the service which knows the
/// source of power is gone.
pub fn power_service_left(name: &str, owner: &str) -> (r: bool)
    ensures
        r == (name@ == UPOWER_DESTINATION@ && owner@.len() == 0),
        r == (name@ == "org.freedesktop.UPower"@ && owner@.len() == 0),
{
    same(name, UPOWER_DESTINATION) && chars(owner).len() == 0
}

/// The smaller of two versions.
pub fn spoken_version(offered: u32, highest: u32) -> (r: u32)
    ensures
        r == if offered < highest {
            offered
        } else {
            highest
        },
{
    if offered < highest {
        offered
    } else {
        highest
    }
}

/// What to do with something that a compositor offers.
#[derive(Clone, Copy, Debug, PartialEq, Eq, Structural)]
pub enum Offer {
    Notifier,
    Seat,
    Ignored,
}

/// What to do with something that a compositor offers. Of several seats the first
/// one counts.
pub fn offered(interface: &str, notifier: &str, seat: &str, has_seat: bool) -> (r: Offer)
    ensures
        r is Notifier <==> interface@ == notifier@,
        r is Seat <==> interface@ != notifier@ && interface@ == seat@ && !has_seat,
{
    if same(interface, notifier) {
        Offer::Notifier
    } else if same(interface, seat) && !has_seat {
        Offer::Seat
    } else {
        Offer::Ignored
    }
}

/// The watches of a desktop's idle monitor.
#[derive(Clone, Copy, Debug, PartialEq, Eq, Structural)]
pub struct Watches {
    pub ac: Option<u32>,
    pub battery: Option<u32>,
    /// Tells when the user is back.
    pub active: Option<u32>,
}

/// What a watch that fires means.
#[derive(Clone, Copy, Debug, PartialEq, Eq, Structural)]
pub enum Fired {
    /// The user is back.
    Resumed,
    /// The user is idle. Where nothing tells yet when the user is back, that has to
    /// be watched from now on.
    Idled { source: PowerSource, watch_activity: bool },
    Ignored,
}

/// What a watch that fires means.
pub open spec fn meaning(w: Watches, id: u32) -> Fired {
    if w.active == Some(id) {
        Fired::Resumed
    } else if w.ac == Some(id) {
        Fired::Idled { source: PowerSource::Ac, watch_activity: w.active is None }
    } else if w.battery == Some(id) {
        Fired::Idled { source: PowerSource::Battery, watch_activity: w.active is None }
    } else {
        Fired::Ignored
    }
}

/// Whether a watch is the given one.
fn is_watch(watch: Option<u32>, id: u32) -> (r: bool)
    ensures
        r == (watch == Some(id)),
{
    match watch {
        Some(watch) => watch == id,
        None => false,
    }
}

impl Watches {
    pub fn new(ac: Option<u32>, battery: Option<u32>) -> (r: Watches)
        ensures
            r == (Watches { ac, battery, active: None }),
    {
        Watches { ac, battery, active: None }
    }

    /// What a watch that fires means. The one that tells when the user is back fires
    /// once.
    pub fn fired(&mut self, id: u32) -> (r: Fired)
        ensures
            r == meaning(*old(self), id),
            r is Resumed <==> old(self).active == Some(id),
            r is Ignored <==> old(self).active != Some(id) && old(self).ac != Some(id) && old(
                self,
            ).battery != Some(id),
            r matches Fired::Idled { source, watch_activity } ==> watch_activity == (old(
                self,
            ).active is None) && (source is Ac <==> old(self).ac == Some(id)),
            *final(self) == if r is Resumed {
                Watches { active: None, ..*old(self) }
            } else {
                *old(self)
            },
    {
        if is_watch(self.active, id) {
            self.active = None;
            return Fired::Resumed;
        }
        let watch_activity = self.active.is_none();
        if is_watch(self.ac, id) {
            Fired::Idled { source: PowerSource::Ac, watch_activity }
        } else if is_watch(self.battery, id) {
            Fired::Idled { source: PowerSource::Battery, watch_activity }
        } else {
            Fired::Ignored
        }
    }

    /// Takes note of the watch that tells when the user is back.
    pub fn watching(&mut self, id: u32)
        ensures
            *final(self) == (Watches { active: Some(id), ..*old(self) }),
    {
        self.active = Some(id);
    }
}

/// Only what was noticed on the present source of power counts, and only where it is to be noticed
/// there.
pub proof fn present_source_counts(s: State)
    ensures
        s.source is Ac ==> (counts_as_idle(s) <==> s.ac_enabled && s.ac_idled),
        s.source is Battery ==> (counts_as_idle(s) <==> s.battery_enabled && s.battery_idled),
        updated(s).idled == counts_as_idle(s),
        updated(s).source == s.source,
        updated(s).ac_idled == s.ac_idled && updated(s).battery_idled == s.battery_idled,
        updated(s).ac_enabled == s.ac_enabled && updated(s).battery_enabled == s.battery_enabled,
{
}

/// Each source of power notices for itself.
pub proof fn sources_notice_for_themselves(s: State, idled: bool)
    ensures
        noticed(s, PowerSource::Ac, idled).ac_idled == idled,
        noticed(s, PowerSource::Ac, idled).battery_idled == s.battery_idled,
        noticed(s, PowerSource::Battery, idled).battery_idled == idled,
        noticed(s, PowerSource::Battery, idled).ac_idled == s.ac_idled,
        forall|source: PowerSource|
            (#[trigger] noticed(s, source, idled)).source == s.source && noticed(
                s,
                source,
                idled,
            ).ac_enabled == s.ac_enabled && noticed(s, source, idled).battery_enabled
                == s.battery_enabled && noticed(s, source, idled).idled == s.idled,
{
}

/// A watch means what it was set for. That of the user who comes back counts first, and as long as it
/// is set, no other one is asked for.
pub proof fn watch_means_what_it_was_set_for(w: Watches, id: u32)
    ensures
        meaning(w, id) is Resumed <==> w.active == Some(id),
        meaning(w, id) is Idled <==> w.active != Some(id) && (w.ac == Some(id) || w.battery == Some(
            id,
        )),
        meaning(w, id) matches Fired::Idled { source, watch_activity } ==> (source is Ac <==> w.ac
            == Some(id)) && (watch_activity <==> w.active is None),
{
}

} // verus!
