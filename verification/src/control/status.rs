//! What the daemon knows of itself: ambient light, screens and monitors.

use crate::maps::names::Names;
use crate::text::chars::same;
use vstd::prelude::*;

verus! {

#[derive(Debug)]
pub struct AlsStatus {
    pub kind: String,
    pub value: Option<u64>,
}

#[derive(Debug)]
pub struct ScreenStatus {
    pub capturer: String,
    pub luma: Option<u8>,
}

#[derive(Debug)]
pub struct MonitorStatus {
    pub kind: String,
    pub brightness: Option<u8>,
    pub paused: bool,
}

/// The status at one moment. Screens and monitors stand in the order of their
/// names.
#[derive(Debug)]
pub struct Snapshot {
    pub als: AlsStatus,
    pub screens: Names<ScreenStatus>,
    pub monitors: Names<MonitorStatus>,
}

/// Keeps the status.
#[derive(Debug)]
pub struct Hub {
    pub state: Snapshot,
}

pub ghost struct ScreenView {
    pub capturer: Seq<char>,
    pub luma: Option<u8>,
}

pub ghost struct MonitorView {
    pub kind: Seq<char>,
    pub brightness: Option<u8>,
    pub paused: bool,
}

pub ghost struct StatusView {
    pub als_kind: Seq<char>,
    pub als_value: Option<u64>,
    pub screens: Map<Seq<char>, ScreenView>,
    pub monitors: Map<Seq<char>, MonitorView>,
}

impl View for ScreenStatus {
    type V = ScreenView;

    open spec fn view(&self) -> ScreenView {
        ScreenView { capturer: self.capturer@, luma: self.luma }
    }
}

impl View for MonitorStatus {
    type V = MonitorView;

    open spec fn view(&self) -> MonitorView {
        MonitorView { kind: self.kind@, brightness: self.brightness, paused: self.paused }
    }
}

/// What each screen is.
pub open spec fn screen_views(m: Map<Seq<char>, ScreenStatus>) -> Map<Seq<char>, ScreenView> {
    m.map_values(|s: ScreenStatus| s@)
}

/// What each monitor is.
pub open spec fn monitor_views(m: Map<Seq<char>, MonitorStatus>) -> Map<Seq<char>, MonitorView> {
    m.map_values(|s: MonitorStatus| s@)
}

impl View for Snapshot {
    type V = StatusView;

    open spec fn view(&self) -> StatusView {
        StatusView {
            als_kind: self.als.kind@,
            als_value: self.als.value,
            screens: screen_views(self.screens@),
            monitors: monitor_views(self.monitors@),
        }
    }
}

impl View for Hub {
    type V = StatusView;

    open spec fn view(&self) -> StatusView {
        self.state@
    }
}

impl Snapshot {
    pub open spec fn wf(self) -> bool {
        self.screens.wf() && self.monitors.wf()
    }
}

impl StatusView {
    /// The status before any output is known.
    pub open spec fn initial(als_kind: Seq<char>) -> StatusView {
        StatusView { als_kind, als_value: None, screens: Map::empty(), monitors: Map::empty() }
    }

    pub open spec fn with_als(self, kind: Seq<char>, value: u64) -> StatusView {
        StatusView { als_kind: kind, als_value: Some(value), ..self }
    }

    /// With one more output, which has a screen where it has a capturer.
    pub open spec fn with_output(
        self,
        name: Seq<char>,
        kind: Seq<char>,
        capturer: Option<Seq<char>>,
    ) -> StatusView {
        StatusView {
            monitors: self.monitors.insert(
                name,
                MonitorView { kind, brightness: None, paused: false },
            ),
            screens: match capturer {
                Some(capturer) => self.screens.insert(name, ScreenView { capturer, luma: None }),
                None => self.screens,
            },
            ..self
        }
    }

    pub open spec fn without_output(self, name: Seq<char>) -> StatusView {
        StatusView {
            screens: self.screens.remove(name),
            monitors: self.monitors.remove(name),
            ..self
        }
    }

    pub open spec fn with_capturer(self, name: Seq<char>, capturer: Seq<char>) -> StatusView {
        if self.screens.contains_key(name) {
            StatusView {
                screens: self.screens.insert(name, ScreenView { capturer, ..self.screens[name] }),
                ..self
            }
        } else {
            self
        }
    }

    pub open spec fn with_luma(self, name: Seq<char>, luma: u8) -> StatusView {
        if self.screens.contains_key(name) {
            StatusView {
                screens: self.screens.insert(
                    name,
                    ScreenView { luma: Some(luma), ..self.screens[name] },
                ),
                ..self
            }
        } else {
            self
        }
    }

    pub open spec fn with_brightness(self, name: Seq<char>, brightness: u8) -> StatusView {
        if self.monitors.contains_key(name) {
            StatusView {
                monitors: self.monitors.insert(
                    name,
                    MonitorView { brightness: Some(brightness), ..self.monitors[name] },
                ),
                ..self
            }
        } else {
            self
        }
    }

    pub open spec fn with_paused(self, name: Seq<char>, paused: bool) -> StatusView {
        if self.monitors.contains_key(name) {
            StatusView {
                monitors: self.monitors.insert(name, MonitorView { paused, ..self.monitors[name] }),
                ..self
            }
        } else {
            self
        }
    }
}

/// Mapping a key to what it is mapped to already changes nothing, and anything
/// else is a change.
proof fn lemma_insert_changes<V>(m: Map<Seq<char>, V>, k: Seq<char>, v: V)
    ensures
        (m.insert(k, v) == m) == (m.contains_key(k) && m[k] == v),
{
    if m.contains_key(k) && m[k] == v {
        assert(m.insert(k, v) =~= m);
    } else if m.insert(k, v) == m {
        assert(m.insert(k, v).contains_key(k));
        assert(m.insert(k, v)[k] == v);
    }
}

proof fn lemma_remove_changes<V>(m: Map<Seq<char>, V>, k: Seq<char>)
    ensures
        (m.remove(k) == m) == !m.contains_key(k),
{
    if !m.contains_key(k) {
        assert(m.remove(k) =~= m);
    } else {
        assert(!m.remove(k).contains_key(k));
    }
}

proof fn lemma_screen_views(m: Map<Seq<char>, ScreenStatus>, k: Seq<char>, v: ScreenStatus)
    ensures
        screen_views(m.insert(k, v)) == screen_views(m).insert(k, v@),
        screen_views(m.remove(k)) == screen_views(m).remove(k),
{
    assert(screen_views(m.insert(k, v)) =~= screen_views(m).insert(k, v@));
    assert(screen_views(m.remove(k)) =~= screen_views(m).remove(k));
}

proof fn lemma_monitor_views(m: Map<Seq<char>, MonitorStatus>, k: Seq<char>, v: MonitorStatus)
    ensures
        monitor_views(m.insert(k, v)) == monitor_views(m).insert(k, v@),
        monitor_views(m.remove(k)) == monitor_views(m).remove(k),
{
    assert(monitor_views(m.insert(k, v)) =~= monitor_views(m).insert(k, v@));
    assert(monitor_views(m.remove(k)) =~= monitor_views(m).remove(k));
}

/// Whether two optional numbers are the same.
fn same_percent(a: Option<u8>, b: Option<u8>) -> (r: bool)
    ensures
        r == (a == b),
{
    match (a, b) {
        (Some(x), Some(y)) => x == y,
        (None, None) => true,
        _ => false,
    }
}

/// Sets what is known of a screen. Says whether that is news.
fn put_screen(screens: &mut Names<ScreenStatus>, name: &str, status: ScreenStatus) -> (r: bool)
    requires
        old(screens).wf(),
    ensures
        final(screens).wf(),
        screen_views(final(screens)@) == screen_views(old(screens)@).insert(name@, status@),
        r == (screen_views(final(screens)@) != screen_views(old(screens)@)),
{
    let ghost before = screen_views(screens@);
    let news = match screens.get(name) {
        Some(known) => !(same(known.capturer.as_str(), status.capturer.as_str()) && same_percent(
            known.luma,
            status.luma,
        )),
        None => true,
    };
    proof {
        lemma_screen_views(screens@, name@, status);
        lemma_insert_changes(before, name@, status@);
    }
    screens.insert(name.to_string(), status);
    news
}

/// Sets what is known of a monitor. Says whether that is news.
fn put_monitor(monitors: &mut Names<MonitorStatus>, name: &str, status: MonitorStatus) -> (r: bool)
    requires
        old(monitors).wf(),
    ensures
        final(monitors).wf(),
        monitor_views(final(monitors)@) == monitor_views(old(monitors)@).insert(name@, status@),
        r == (monitor_views(final(monitors)@) != monitor_views(old(monitors)@)),
{
    let ghost before = monitor_views(monitors@);
    let news = match monitors.get(name) {
        Some(known) => !(same(known.kind.as_str(), status.kind.as_str()) && same_percent(
            known.brightness,
            status.brightness,
        ) && known.paused == status.paused),
        None => true,
    };
    proof {
        lemma_monitor_views(monitors@, name@, status);
        lemma_insert_changes(before, name@, status@);
    }
    monitors.insert(name.to_string(), status);
    news
}

impl Hub {
    pub open spec fn wf(self) -> bool {
        self.state.wf()
    }

    /// The status before any output is known.
    pub fn new(als_kind: &str) -> (r: Hub)
        ensures
            r.wf(),
            r@ == StatusView::initial(als_kind@),
    {
        let r = Hub {
            state: Snapshot {
                als: AlsStatus { kind: als_kind.to_string(), value: None },
                screens: Names::new(),
                monitors: Names::new(),
            },
        };
        assert(r@.screens =~= Map::empty());
        assert(r@.monitors =~= Map::empty());
        r
    }

    /// The status as it is.
    pub fn snapshot(&self) -> (r: &Snapshot)
        ensures
            *r == self.state,
    {
        &self.state
    }

    /// Sets the ambient light. Says whether the status changed by it.
    pub fn set_als(&mut self, kind: &str, value: u64) -> (r: bool)
        requires
            old(self).wf(),
        ensures
            final(self).wf(),
            final(self)@ == old(self)@.with_als(kind@, value),
            r == (final(self)@ != old(self)@),
    {
        let known = match self.state.als.value {
            Some(known) => known == value,
            None => false,
        };
        let news = !(known && same(self.state.als.kind.as_str(), kind));
        self.state.als.kind = kind.to_string();
        self.state.als.value = Some(value);
        news
    }

    /// Adds an output, which has a screen where it has a capturer. Says whether
    /// the status changed by it.
    pub fn add_output(&mut self, name: &str, kind: &str, capturer: Option<&str>) -> (r: bool)
        requires
            old(self).wf(),
        ensures
            final(self).wf(),
            final(self)@ == old(self)@.with_output(
                name@,
                kind@,
                match capturer {
                    Some(capturer) => Some(capturer@),
                    None => None,
                },
            ),
            r == (final(self)@ != old(self)@),
    {
        let mut news = put_monitor(
            &mut self.state.monitors,
            name,
            MonitorStatus { kind: kind.to_string(), brightness: None, paused: false },
        );
        if let Some(capturer) = capturer {
            let more = put_screen(
                &mut self.state.screens,
                name,
                ScreenStatus { capturer: capturer.to_string(), luma: None },
            );
            news = news || more;
        }
        news
    }

    /// Removes an output. Says whether the status changed by it.
    pub fn remove_output(&mut self, name: &str) -> (r: bool)
        requires
            old(self).wf(),
        ensures
            final(self).wf(),
            final(self)@ == old(self)@.without_output(name@),
            r == (final(self)@ != old(self)@),
    {
        proof {
            lemma_screen_views(
                self.state.screens@,
                name@,
                ScreenStatus { capturer: self.state.als.kind, luma: None },
            );
            lemma_monitor_views(
                self.state.monitors@,
                name@,
                MonitorStatus { kind: self.state.als.kind, brightness: None, paused: false },
            );
            lemma_remove_changes(self@.screens, name@);
            lemma_remove_changes(self@.monitors, name@);
        }
        let screen = self.state.screens.remove(name);
        let monitor = self.state.monitors.remove(name);
        screen.is_some() || monitor.is_some()
    }

    /// Sets the capturer of a screen, where the screen is known. Says whether the
    /// status changed by it.
    pub fn set_capturer(&mut self, name: &str, capturer: &str) -> (r: bool)
        requires
            old(self).wf(),
        ensures
            final(self).wf(),
            final(self)@ == old(self)@.with_capturer(name@, capturer@),
            r == (final(self)@ != old(self)@),
    {
        let luma = match self.state.screens.get(name) {
            Some(screen) => screen.luma,
            None => {
                return false;
            },
        };
        put_screen(
            &mut self.state.screens,
            name,
            ScreenStatus { capturer: capturer.to_string(), luma },
        )
    }

    /// Sets the lightness of a screen, where the screen is known. Says whether
    /// the status changed by it.
    pub fn set_luma(&mut self, name: &str, luma: u8) -> (r: bool)
        requires
            old(self).wf(),
        ensures
            final(self).wf(),
            final(self)@ == old(self)@.with_luma(name@, luma),
            r == (final(self)@ != old(self)@),
    {
        let capturer = match self.state.screens.get(name) {
            Some(screen) => screen.capturer.clone(),
            None => {
                return false;
            },
        };
        put_screen(&mut self.state.screens, name, ScreenStatus { capturer, luma: Some(luma) })
    }

    /// Sets the brightness of a monitor, where the monitor is known. Says whether
    /// the status changed by it.
    pub fn set_brightness(&mut self, name: &str, brightness: u8) -> (r: bool)
        requires
            old(self).wf(),
        ensures
            final(self).wf(),
            final(self)@ == old(self)@.with_brightness(name@, brightness),
            r == (final(self)@ != old(self)@),
    {
        let (kind, paused) = match self.state.monitors.get(name) {
            Some(monitor) => (monitor.kind.clone(), monitor.paused),
            None => {
                return false;
            },
        };
        put_monitor(
            &mut self.state.monitors,
            name,
            MonitorStatus { kind, brightness: Some(brightness), paused },
        )
    }

    /// Sets whether a monitor is paused, where the monitor is known. Says whether
    /// the status changed by it.
    pub fn set_paused(&mut self, name: &str, paused: bool) -> (r: bool)
        requires
            old(self).wf(),
        ensures
            final(self).wf(),
            final(self)@ == old(self)@.with_paused(name@, paused),
            r == (final(self)@ != old(self)@),
    {
        let (kind, brightness) = match self.state.monitors.get(name) {
            Some(monitor) => (monitor.kind.clone(), monitor.brightness),
            None => {
                return false;
            },
        };
        put_monitor(&mut self.state.monitors, name, MonitorStatus { kind, brightness, paused })
    }
}

/// An output that is added and then removed leaves nothing behind that was not
/// there before, whatever it was set to in between.
pub proof fn removal_undoes_addition(
    s: StatusView,
    name: Seq<char>,
    kind: Seq<char>,
    capturer: Option<Seq<char>>,
    luma: u8,
    brightness: u8,
    paused: bool,
)
    requires
        !s.screens.contains_key(name),
        !s.monitors.contains_key(name),
    ensures
        s.with_output(name, kind, capturer).with_luma(name, luma).with_brightness(
            name,
            brightness,
        ).with_paused(name, paused).without_output(name) == s,
{
    let r = s.with_output(name, kind, capturer).with_luma(name, luma).with_brightness(
        name,
        brightness,
    ).with_paused(name, paused).without_output(name);
    assert(r.screens =~= s.screens);
    assert(r.monitors =~= s.monitors);
}

/// Setting something of one output leaves the other outputs as they are.
pub proof fn outputs_are_independent(
    s: StatusView,
    name: Seq<char>,
    other: Seq<char>,
    luma: u8,
    brightness: u8,
    paused: bool,
)
    requires
        name != other,
    ensures
        s.with_luma(name, luma).screens.contains_key(other) == s.screens.contains_key(other),
        s.with_luma(name, luma).screens[other] == s.screens[other],
        s.with_brightness(name, brightness).monitors.contains_key(other)
            == s.monitors.contains_key(other),
        s.with_brightness(name, brightness).monitors[other] == s.monitors[other],
        s.with_paused(name, paused).monitors.contains_key(other) == s.monitors.contains_key(other),
        s.with_paused(name, paused).monitors[other] == s.monitors[other],
        s.without_output(name).monitors.contains_key(other) == s.monitors.contains_key(other),
        s.without_output(name).monitors[other] == s.monitors[other],
{
}

/// The luma of an output without a screen is never kept.
pub proof fn luma_needs_a_screen(s: StatusView, name: Seq<char>, luma: u8)
    requires
        !s.screens.contains_key(name),
    ensures
        s.with_luma(name, luma) == s,
{
}

/// What is set of a known screen or monitor is told of it afterwards, and all else stays.
pub proof fn setting_is_told(s: StatusView, name: Seq<char>, capturer: Seq<char>, n: u8, paused: bool)
    requires
        s.screens.contains_key(name),
        s.monitors.contains_key(name),
    ensures
        s.with_luma(name, n).screens[name] == (ScreenView {
            capturer: s.screens[name].capturer,
            luma: Some(n),
        }),
        s.with_luma(name, n).screens.dom() == s.screens.dom(),
        s.with_luma(name, n).monitors == s.monitors,
        s.with_luma(name, n).als_kind == s.als_kind && s.with_luma(name, n).als_value == s.als_value,
        s.with_capturer(name, capturer).screens[name] == (ScreenView {
            capturer,
            luma: s.screens[name].luma,
        }),
        s.with_capturer(name, capturer).screens.dom() == s.screens.dom(),
        s.with_capturer(name, capturer).monitors == s.monitors,
        s.with_capturer(name, capturer).als_kind == s.als_kind && s.with_capturer(
            name,
            capturer,
        ).als_value == s.als_value,
        s.with_brightness(name, n).monitors[name] == (MonitorView {
            kind: s.monitors[name].kind,
            brightness: Some(n),
            paused: s.monitors[name].paused,
        }),
        s.with_brightness(name, n).monitors.dom() == s.monitors.dom(),
        s.with_brightness(name, n).screens == s.screens,
        s.with_brightness(name, n).als_kind == s.als_kind && s.with_brightness(name, n).als_value
            == s.als_value,
        s.with_paused(name, paused).monitors[name] == (MonitorView {
            kind: s.monitors[name].kind,
            brightness: s.monitors[name].brightness,
            paused,
        }),
        s.with_paused(name, paused).monitors.dom() == s.monitors.dom(),
        s.with_paused(name, paused).screens == s.screens,
        s.with_paused(name, paused).als_kind == s.als_kind && s.with_paused(name, paused).als_value
            == s.als_value,
{
    assert(s.with_luma(name, n).screens.dom() =~= s.screens.dom());
    assert(s.with_capturer(name, capturer).screens.dom() =~= s.screens.dom());
    assert(s.with_brightness(name, n).monitors.dom() =~= s.monitors.dom());
    assert(s.with_paused(name, paused).monitors.dom() =~= s.monitors.dom());
}

/// Of an output that is not known nothing is kept.
pub proof fn unknown_output_is_left_alone(
    s: StatusView,
    name: Seq<char>,
    capturer: Seq<char>,
    n: u8,
    paused: bool,
)
    ensures
        !s.screens.contains_key(name) ==> s.with_capturer(name, capturer) == s && s.with_luma(name, n)
            == s,
        !s.monitors.contains_key(name) ==> s.with_brightness(name, n) == s && s.with_paused(
            name,
            paused,
        ) == s,
        !s.screens.contains_key(name) && !s.monitors.contains_key(name) ==> s.without_output(name)
            == s,
{
    if !s.screens.contains_key(name) && !s.monitors.contains_key(name) {
        assert(s.without_output(name).screens =~= s.screens);
        assert(s.without_output(name).monitors =~= s.monitors);
    }
}

/// An output that is added is known with its kind and its capturer, is not paused, and nothing else is
/// known of it. One that is removed is not known any more.
pub proof fn output_is_added_and_removed(
    s: StatusView,
    name: Seq<char>,
    kind: Seq<char>,
    capturer: Option<Seq<char>>,
    value: u64,
)
    ensures
        ({
            let t = s.with_output(name, kind, capturer);
            &&& t.monitors == s.monitors.insert(
                name,
                MonitorView { kind, brightness: None, paused: false },
            )
            &&& capturer is None ==> t.screens == s.screens
            &&& capturer matches Some(c) ==> t.screens == s.screens.insert(
                name,
                ScreenView { capturer: c, luma: None },
            )
            &&& t.als_kind == s.als_kind && t.als_value == s.als_value
        }),
        !s.without_output(name).monitors.contains_key(name),
        !s.without_output(name).screens.contains_key(name),
        s.without_output(name).als_kind == s.als_kind,
        s.without_output(name).als_value == s.als_value,
        s.without_output(name).screens == s.screens.remove(name),
        s.without_output(name).monitors == s.monitors.remove(name),
        s.with_als(kind, value).als_kind == kind,
        s.with_als(kind, value).als_value == Some(value),
        s.with_als(kind, value).screens == s.screens,
        s.with_als(kind, value).monitors == s.monitors,
        StatusView::initial(kind).als_kind == kind,
        StatusView::initial(kind).als_value is None,
        StatusView::initial(kind).screens == Map::<Seq<char>, ScreenView>::empty(),
        StatusView::initial(kind).monitors == Map::<Seq<char>, MonitorView>::empty(),
{
}

/// The status tells of each screen and of each monitor what is kept of it.
pub proof fn status_tells_what_is_kept(s: Snapshot, name: Seq<char>)
    ensures
        s@.als_kind == s.als.kind@,
        s@.als_value == s.als.value,
        s@.screens.contains_key(name) <==> s.screens@.contains_key(name),
        s@.monitors.contains_key(name) <==> s.monitors@.contains_key(name),
        s.screens@.contains_key(name) ==> s@.screens[name].capturer == s.screens@[name].capturer@
            && s@.screens[name].luma == s.screens@[name].luma,
        s.monitors@.contains_key(name) ==> s@.monitors[name].kind == s.monitors@[name].kind@
            && s@.monitors[name].brightness == s.monitors@[name].brightness
            && s@.monitors[name].paused == s.monitors@[name].paused,
        (Hub { state: s })@ == s@,
{
}

} // verus!
