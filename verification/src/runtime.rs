//! Which outputs are in use, and what is done with them.

use crate::als::Scale;
use crate::brightness::controller::CommandAction;
use crate::config::app::{
    output_views, BacklightKind, Capturer as Configured, Idle, IdleProfile, ManualPoint, Output,
    OutputView, Predictor, VulkanDevice,
};
use crate::control::{Action, ActionView};
use crate::frame::capturer::{configured, Capturer};
use crate::idle;
use crate::maps::levels::Levels;
use crate::maps::names::{has_name, lemma_entry, sorted, Names};
use crate::predictor::data::Entry;
use crate::predictor::AlsDirection;
use crate::text::chars::same;
use crate::text::decimal::digits_of;
use crate::text::layout::{join, joined_by};
use crate::text::order::{is_before, lemma_irreflexive, lemma_total, lemma_transitive, precedes};
use crate::text::space::views;
use vstd::prelude::*;

verus! {

/// How often outputs are looked for, in milliseconds.
pub const TOPOLOGY_POLL_INTERVAL_MS: u64 = 1000;

/// How long after a change of the connectors outputs are left alone, in nanoseconds.
pub const TOPOLOGY_SETTLE_INTERVAL: u128 = 2_000_000_000;

/// How often outputs are looked for without a change of the connectors, in nanoseconds.
pub const DISCOVERY_REFRESH_INTERVAL: u128 = 30_000_000_000;

/// How long after a failure an output is tried again, in nanoseconds.
pub const START_RETRY_INTERVAL: u128 = 5_000_000_000;

/// What is known of the outputs. Times are nanoseconds on one clock.
#[derive(Debug)]
pub struct Runtime {
    pub configured: Vec<Output>,
    pub als_scale: Scale,
    pub legacy_thresholds: Levels<String>,
    /// The connectors, as they were seen last.
    pub topology: Vec<String>,
    /// The outputs that should be in use.
    pub desired: Names<Output>,
    /// The outputs that are in use.
    pub sessions: Names<Output>,
    /// When outputs have failed.
    pub failures: Names<u128>,
    pub last_discovery: Option<u128>,
    /// Until when outputs are left alone.
    pub settling_until: Option<u128>,
    pub idle: Option<Idle>,
    /// The percentage to which brightness is reduced while the user is idle.
    pub idle_brightness: Option<u8>,
}

/// What the outputs with these names are.
pub open spec fn outputs_by_name(m: Map<Seq<char>, Output>) -> Map<Seq<char>, OutputView> {
    m.map_values(|o: Output| o@)
}

/// The first output of each name, among the first `n`.
pub open spec fn first_by_name(outputs: Seq<Output>, n: nat) -> Map<Seq<char>, Output>
    decreases n,
{
    if n == 0 {
        Map::empty()
    } else {
        let before = first_by_name(outputs, (n - 1) as nat);
        let o = outputs[n - 1];
        if before.contains_key(o@.name()) {
            before
        } else {
            before.insert(o@.name(), o)
        }
    }
}

/// The output is a keyboard.
pub open spec fn keyboard_output(o: OutputView) -> bool {
    o matches OutputView::Backlight(o) && o.kind == BacklightKind::Keyboard
}

/// Whether the output is a keyboard.
pub fn is_keyboard(output: &Output) -> (r: bool)
    ensures
        r == keyboard_output(output@),
        r <==> *output is Backlight && output->Backlight_0.kind is Keyboard,
{
    match output {
        Output::Backlight(output) => output.kind == BacklightKind::Keyboard,
        Output::DdcUtil(_) => false,
    }
}

/// What is said of an output that was discovered.
pub open spec fn discovered_text(o: OutputView) -> Seq<char> {
    match o {
        OutputView::Backlight(o) => if o.kind == BacklightKind::Keyboard {
            "Discovered keyboard '"@ + o.name + "' using backlight "@ + o.path
        } else {
            "Discovered output '"@ + o.name + "' using backlight "@ + o.path
        },
        OutputView::DdcUtil(o) => "Discovered output '"@ + o.name + "' using DDC identifier '"@
            + o.identifier + "'"@,
    }
}

/// What is said of an output that was discovered.
pub fn describe_discovered(output: &Output) -> (r: String)
    ensures
        r@ == discovered_text(output@),
        match *output {
            Output::Backlight(o) => r@ == (if o.kind is Keyboard {
                "Discovered keyboard '"@
            } else {
                "Discovered output '"@
            }) + o.name@ + "' using backlight "@ + o.path@,
            Output::DdcUtil(o) => r@ == "Discovered output '"@ + o.name@
                + "' using DDC identifier '"@ + o.identifier@ + "'"@,
        },
{
    match output {
        Output::Backlight(output) => {
            let mut r = if output.kind == BacklightKind::Keyboard {
                "Discovered keyboard '".to_string()
            } else {
                "Discovered output '".to_string()
            };
            r.append(output.name.as_str());
            r.append("' using backlight ");
            r.append(output.path.as_str());
            r
        },
        Output::DdcUtil(output) => {
            let mut r = "Discovered output '".to_string();
            r.append(output.name.as_str());
            r.append("' using DDC identifier '");
            r.append(output.identifier.as_str());
            r.append("'");
            r
        },
    }
}

/// What looking at the connectors leads to.
pub ghost struct Looked {
    pub topology: Seq<Seq<char>>,
    pub settling_until: Option<u128>,
    pub discover: bool,
}

/// What looking at the connectors leads to. When they change, outputs are looked for, and again when
/// they have settled; without a change that is done now and then.
pub open spec fn looked(s: Runtime, topology: Seq<Seq<char>>, now: u128) -> Looked {
    let settled = s.settling_until matches Some(deadline) && now >= deadline;
    let refresh = match s.last_discovery {
        Some(last) => now - last >= DISCOVERY_REFRESH_INTERVAL,
        None => true,
    };
    if topology != views(s.topology@) {
        Looked {
            topology,
            settling_until: if s.last_discovery is None {
                s.settling_until
            } else {
                Some((now + TOPOLOGY_SETTLE_INTERVAL) as u128)
            },
            discover: true,
        }
    } else if settled {
        Looked { topology, settling_until: None, discover: true }
    } else {
        Looked {
            topology,
            settling_until: s.settling_until,
            discover: s.settling_until is None && refresh,
        }
    }
}

/// A session has become useless: the output is not desired any more, or not as it is.
pub open spec fn is_obsolete(s: Runtime, name: Seq<char>) -> bool {
    !(s.desired@.contains_key(name) && s.desired@[name]@ == s.sessions@[name]@)
}

/// An output is to be started now: it is desired but not in use, nothing is settling, and it has not
/// failed lately.
pub open spec fn is_pending(s: Runtime, name: Seq<char>, now: u128) -> bool {
    &&& s.desired@.contains_key(name)
    &&& !s.sessions@.contains_key(name)
    &&& s.settling_until is None
    &&& s.failures@.contains_key(name) ==> now - s.failures@[name] >= START_RETRY_INTERVAL
}

/// The names that satisfy a condition, among the first `n` entries.
pub open spec fn names_where<V>(
    entries: Seq<(String, V)>,
    condition: spec_fn(Seq<char>) -> bool,
    n: nat,
) -> Seq<Seq<char>>
    decreases n,
{
    if n == 0 {
        Seq::empty()
    } else {
        let before = names_where(entries, condition, (n - 1) as nat);
        if condition(entries[n - 1].0@) {
            before.push(entries[n - 1].0@)
        } else {
            before
        }
    }
}

/// The outputs that are to be started, among the first `n` desired ones.
pub open spec fn pending_outputs(s: Runtime, now: u128, n: nat) -> Seq<OutputView>
    decreases n,
{
    if n == 0 {
        Seq::empty()
    } else {
        let before = pending_outputs(s, now, (n - 1) as nat);
        let (name, output) = s.desired.entries@[n - 1];
        if is_pending(s, name@, now) {
            before.push(output@)
        } else {
            before
        }
    }
}

proof fn lemma_names_where<V>(
    entries: Seq<(String, V)>,
    condition: spec_fn(Seq<char>) -> bool,
    n: nat,
    name: Seq<char>,
)
    requires
        n <= entries.len(),
    ensures
        names_where(entries, condition, n).contains(name) <==> condition(name) && exists|i: int|
            0 <= i < n && (#[trigger] entries[i]).0@ == name,
    decreases n,
{
    if n > 0 {
        lemma_names_where(entries, condition, (n - 1) as nat, name);
        let before = names_where(entries, condition, (n - 1) as nat);
        let last = entries[n - 1].0@;
        if condition(last) {
            let after = before.push(last);
            if before.contains(name) {
                let i = choose|i: int| 0 <= i < before.len() && before[i] == name;
                assert(after[i] == name);
            }
            if after.contains(name) && name != last {
                let i = choose|i: int| 0 <= i < after.len() && after[i] == name;
                assert(before[i] == name);
            }
            assert(after[before.len() as int] == last);
        }
        assert(entries[n - 1].0@ == last);
    }
}

/// The names are dropped from a map.
pub open spec fn without<V>(
    before: Map<Seq<char>, V>,
    after: Map<Seq<char>, V>,
    names: Seq<Seq<char>>,
) -> bool {
    &&& forall|k: Seq<char>|
        #[trigger] after.contains_key(k) <==> before.contains_key(k) && !names.contains(k)
    &&& forall|k: Seq<char>| #[trigger] after.contains_key(k) ==> after[k] == before[k]
}

/// Drops names from a map.
fn drop_names<V>(map: &mut Names<V>, names: &Vec<String>)
    requires
        old(map).wf(),
    ensures
        final(map).wf(),
        without(old(map)@, final(map)@, views(names@)),
{
    let ghost before = map@;
    let ghost all = views(names@);
    assert(all.take(0) =~= Seq::empty());
    for i in 0..names.len()
        invariant
            map.wf(),
            all == views(names@),
            without(before, map@, all.take(i as int)),
    {
        let ghost earlier = map@;
        map.remove(names[i].as_str());
        proof {
            let shorter = all.take(i as int);
            let longer = all.take(i + 1);
            assert(longer =~= shorter.push(all[i as int]));
            assert(all[i as int] == names@[i as int]@);
            assert forall|k: Seq<char>|
                longer.contains(k) <==> shorter.contains(k) || k == all[i as int] by {
                if shorter.contains(k) {
                    let j = choose|j: int| 0 <= j < shorter.len() && shorter[j] == k;
                    assert(longer[j] == k);
                }
                if longer.contains(k) && k != all[i as int] {
                    let j = choose|j: int| 0 <= j < longer.len() && longer[j] == k;
                    assert(shorter[j] == k);
                }
                assert(longer[i as int] == all[i as int]);
            }
        }
    }
    assert(all.take(all.len() as int) =~= all);
}

/// Whether two lists of names are the same.
fn same_names(a: &Vec<String>, b: &Vec<String>) -> (r: bool)
    ensures
        r == (views(a@) == views(b@)),
{
    assert(views(a@).len() == a@.len() && views(b@).len() == b@.len());
    if a.len() != b.len() {
        return false;
    }
    for i in 0..a.len()
        invariant
            a@.len() == b@.len(),
            forall|j: int| 0 <= j < i ==> a@[j]@ == (#[trigger] b@[j])@,
    {
        if !same(a[i].as_str(), b[i].as_str()) {
            assert(views(a@)[i as int] != views(b@)[i as int]);
            return false;
        }
    }
    assert(views(a@) =~= views(b@));
    true
}

impl Runtime {
    pub open spec fn wf(self) -> bool {
        &&& self.desired.wf()
        &&& self.sessions.wf()
        &&& self.failures.wf()
        &&& self.legacy_thresholds.wf()
    }

    /// No output is known yet.
    pub fn new(
        configured: Vec<Output>,
        als_scale: Scale,
        legacy_thresholds: Levels<String>,
        idle: Option<Idle>,
    ) -> (r: Runtime)
        requires
            legacy_thresholds.wf(),
        ensures
            r.wf(),
            r.configured@ == configured@,
            r.als_scale == als_scale,
            r.legacy_thresholds == legacy_thresholds,
            r.topology@.len() == 0,
            r.desired@ == Map::<Seq<char>, Output>::empty(),
            r.sessions@ == Map::<Seq<char>, Output>::empty(),
            r.failures@ == Map::<Seq<char>, u128>::empty(),
            r.last_discovery is None,
            r.settling_until is None,
            r.idle == idle,
            r.idle_brightness is None,
    {
        Runtime {
            configured,
            als_scale,
            legacy_thresholds,
            topology: Vec::new(),
            desired: Names::new(),
            sessions: Names::new(),
            failures: Names::new(),
            last_discovery: None,
            settling_until: None,
            idle,
            idle_brightness: None,
        }
    }

    /// Takes note of the connectors. Says whether to look for outputs.
    pub fn step(&mut self, topology: Vec<String>, now: u128) -> (r: bool)
        requires
            old(self).wf(),
            now + TOPOLOGY_SETTLE_INTERVAL <= u128::MAX,
        ensures
            final(self).wf(),
            ({
                let after = looked(*old(self), views(topology@), now);
                &&& r == after.discover
                &&& views(final(self).topology@) == after.topology
                &&& final(self).settling_until == after.settling_until
            }),
            views(final(self).topology@) == views(topology@),
            views(topology@) != views(old(self).topology@) ==> r && final(self).settling_until == if old(
                self,
            ).last_discovery is Some {
                Some((now + 2_000_000_000) as u128)
            } else {
                old(self).settling_until
            },
            views(topology@) == views(old(self).topology@) ==> match old(self).settling_until {
                Some(deadline) => (r <==> now >= deadline) && final(self).settling_until == if now
                    >= deadline {
                    None
                } else {
                    Some(deadline)
                },
                None => final(self).settling_until is None && (r <==> (old(
                    self,
                ).last_discovery matches Some(last) ==> now >= last + 30_000_000_000)),
            },
            final(self).configured == old(self).configured,
            final(self).als_scale == old(self).als_scale,
            final(self).legacy_thresholds == old(self).legacy_thresholds,
            final(self).desired == old(self).desired,
            final(self).sessions == old(self).sessions,
            final(self).failures == old(self).failures,
            final(self).last_discovery == old(self).last_discovery,
            final(self).idle == old(self).idle,
            final(self).idle_brightness == old(self).idle_brightness,
    {
        let changed = !same_names(&topology, &self.topology);
        let settled = match self.settling_until {
            Some(deadline) => now >= deadline,
            None => false,
        };
        let refresh = match self.last_discovery {
            Some(last) => now >= last && now - last >= DISCOVERY_REFRESH_INTERVAL,
            None => true,
        };
        if changed {
            self.topology = topology;
            if self.last_discovery.is_some() {
                self.settling_until = Some(now + TOPOLOGY_SETTLE_INTERVAL);
            }
            true
        } else if settled {
            self.settling_until = None;
            true
        } else {
            self.settling_until.is_none() && refresh
        }
    }

    /// Takes note of the outputs that were found. Of several with one name the first one counts. Gives the
    /// names of those that are new or not as they were.
    pub fn discover(&mut self, outputs: Vec<Output>, now: u128) -> (r: Vec<String>)
        requires
            old(self).wf(),
        ensures
            final(self).wf(),
            final(self).last_discovery == Some(now),
            outputs_by_name(final(self).desired@) == outputs_by_name(
                first_by_name(outputs@, outputs@.len()),
            ),
            views(r@) == names_where(
                final(self).desired.entries@,
                |name: Seq<char>|
                    !(old(self).desired@.contains_key(name) && old(self).desired@[name]@
                        == final(self).desired@[name]@),
                final(self).desired.entries@.len(),
            ),
            final(self).configured == old(self).configured,
            final(self).als_scale == old(self).als_scale,
            final(self).legacy_thresholds == old(self).legacy_thresholds,
            final(self).topology == old(self).topology,
            final(self).sessions == old(self).sessions,
            final(self).failures == old(self).failures,
            final(self).settling_until == old(self).settling_until,
            final(self).idle == old(self).idle,
            final(self).idle_brightness == old(self).idle_brightness,
    {
        self.last_discovery = Some(now);
        let ghost all = outputs@;
        let mut rest = outputs;
        let mut desired: Names<Output> = Names::new();
        let ghost mut n: nat = 0;
        assert(all.skip(0) =~= all);
        while rest.len() > 0
            invariant
                desired.wf(),
                n <= all.len(),
                rest@ == all.skip(n as int),
                desired@ == first_by_name(all, n),
            decreases rest.len(),
        {
            let output = rest.remove(0);
            assert(output == all[n as int]);
            assert(rest@ =~= all.skip(n as int + 1));
            if !desired.contains_key(output.name()) {
                let name = output.name().to_string();
                desired.insert(name, output);
            }
            proof {
                n = n + 1;
            }
        }
        let ghost condition = |name: Seq<char>|
            !(old(self).desired@.contains_key(name) && old(self).desired@[name]@
                == desired@[name]@);
        let mut news: Vec<String> = Vec::new();
        assert(views(news@) =~= Seq::empty());
        for i in 0..desired.entries.len()
            invariant
                self.wf(),
                desired.wf(),
                self.desired == old(self).desired,
                condition == (|name: Seq<char>|
                    !(old(self).desired@.contains_key(name) && old(self).desired@[name]@
                        == desired@[name]@)),
                views(news@) == names_where(desired.entries@, condition, i as nat),
        {
            let ghost before = news@;
            let name = &desired.entries[i].0;
            let output = &desired.entries[i].1;
            proof {
                lemma_entry(desired.entries@, i as int);
            }
            let known = match self.desired.get(name.as_str()) {
                Some(known) => known.same(output),
                None => false,
            };
            assert(known == !condition(name@));
            if !known {
                news.push(name.clone());
                assert(views(news@) =~= views(before).push(name@));
            }
        }
        self.desired = desired;
        news
    }

    /// Takes note of sessions that have stopped on their own. They have failed. Gives the names of those
    /// that were in use.
    pub fn stopped(&mut self, finished: &Vec<String>, now: u128) -> (r: Vec<String>)
        requires
            old(self).wf(),
        ensures
            final(self).wf(),
            views(r@) == names_where(
                old(self).sessions.entries@,
                |name: Seq<char>| views(finished@).contains(name),
                old(self).sessions.entries@.len(),
            ),
            without(old(self).sessions@, final(self).sessions@, views(r@)),
            forall|k: Seq<char>|
                #[trigger] final(self).failures@.contains_key(k) <==> old(self).failures@.contains_key(
                    k,
                ) || views(r@).contains(k),
            forall|k: Seq<char>|
                #[trigger] final(self).failures@.contains_key(k) ==> final(self).failures@[k]
                    == if views(r@).contains(k) {
                    now
                } else {
                    old(self).failures@[k]
                },
            final(self).configured == old(self).configured,
            final(self).als_scale == old(self).als_scale,
            final(self).legacy_thresholds == old(self).legacy_thresholds,
            final(self).topology == old(self).topology,
            final(self).desired == old(self).desired,
            final(self).last_discovery == old(self).last_discovery,
            final(self).settling_until == old(self).settling_until,
            final(self).idle == old(self).idle,
            final(self).idle_brightness == old(self).idle_brightness,
    {
        let ghost condition = |name: Seq<char>| views(finished@).contains(name);
        let mut names: Vec<String> = Vec::new();
        assert(views(names@) =~= Seq::empty());
        for i in 0..self.sessions.entries.len()
            invariant
                self.wf(),
                *self == *old(self),
                condition == (|name: Seq<char>| views(finished@).contains(name)),
                views(names@) == names_where(self.sessions.entries@, condition, i as nat),
        {
            let ghost before = names@;
            let name = &self.sessions.entries[i].0;
            if is_listed(finished, name.as_str()) {
                names.push(name.clone());
                assert(views(names@) =~= views(before).push(name@));
            }
        }
        drop_names(&mut self.sessions, &names);
        let ghost earlier = self.failures@;
        let ghost all = views(names@);
        assert(all.take(0) =~= Seq::empty());
        let ghost kept = *self;
        for i in 0..names.len()
            invariant
                self.failures.wf(),
                all == views(names@),
                *self == (Runtime { failures: self.failures, ..kept }),
                forall|k: Seq<char>|
                    #[trigger] self.failures@.contains_key(k) <==> earlier.contains_key(k)
                        || all.take(i as int).contains(k),
                forall|k: Seq<char>|
                    #[trigger] self.failures@.contains_key(k) ==> self.failures@[k] == if all.take(
                        i as int,
                    ).contains(k) {
                        now
                    } else {
                        earlier[k]
                    },
        {
            self.failures.insert(names[i].clone(), now);
            proof {
                let shorter = all.take(i as int);
                let longer = all.take(i + 1);
                assert(all[i as int] == names@[i as int]@);
                assert forall|k: Seq<char>|
                    longer.contains(k) <==> shorter.contains(k) || k == all[i as int] by {
                    if shorter.contains(k) {
                        let j = choose|j: int| 0 <= j < shorter.len() && shorter[j] == k;
                        assert(longer[j] == k);
                    }
                    if longer.contains(k) && k != all[i as int] {
                        let j = choose|j: int| 0 <= j < longer.len() && longer[j] == k;
                        assert(shorter[j] == k);
                    }
                    assert(longer[i as int] == all[i as int]);
                }
            }
        }
        assert(all.take(all.len() as int) =~= all);
        names
    }

    /// Drops the sessions that have become useless, and what is known of failures of their outputs. Gives
    /// their names.
    pub fn drop_obsolete(&mut self) -> (r: Vec<String>)
        requires
            old(self).wf(),
        ensures
            final(self).wf(),
            views(r@) == names_where(
                old(self).sessions.entries@,
                |name: Seq<char>| is_obsolete(*old(self), name),
                old(self).sessions.entries@.len(),
            ),
            without(old(self).sessions@, final(self).sessions@, views(r@)),
            without(old(self).failures@, final(self).failures@, views(r@)),
            final(self).configured == old(self).configured,
            final(self).als_scale == old(self).als_scale,
            final(self).legacy_thresholds == old(self).legacy_thresholds,
            final(self).topology == old(self).topology,
            final(self).desired == old(self).desired,
            final(self).last_discovery == old(self).last_discovery,
            final(self).settling_until == old(self).settling_until,
            final(self).idle == old(self).idle,
            final(self).idle_brightness == old(self).idle_brightness,
    {
        let ghost condition = |name: Seq<char>| is_obsolete(*old(self), name);
        let mut names: Vec<String> = Vec::new();
        assert(views(names@) =~= Seq::empty());
        for i in 0..self.sessions.entries.len()
            invariant
                self.wf(),
                *self == *old(self),
                condition == (|name: Seq<char>| is_obsolete(*old(self), name)),
                views(names@) == names_where(self.sessions.entries@, condition, i as nat),
        {
            let ghost before = names@;
            let name = &self.sessions.entries[i].0;
            let output = &self.sessions.entries[i].1;
            proof {
                lemma_entry(self.sessions.entries@, i as int);
            }
            let kept = match self.desired.get(name.as_str()) {
                Some(desired) => desired.same(output),
                None => false,
            };
            assert(kept == !condition(name@));
            if !kept {
                names.push(name.clone());
                assert(views(names@) =~= views(before).push(name@));
            }
        }
        drop_names(&mut self.sessions, &names);
        drop_names(&mut self.failures, &names);
        names
    }

    /// The outputs that are to be started now, in the order of their names.
    pub fn pending(&self, now: u128) -> (r: Vec<Output>)
        requires
            self.wf(),
        ensures
            output_views(r@) == pending_outputs(*self, now, self.desired.entries@.len()),
    {
        let mut r: Vec<Output> = Vec::new();
        assert(output_views(r@) =~= Seq::empty());
        for i in 0..self.desired.entries.len()
            invariant
                self.wf(),
                output_views(r@) == pending_outputs(*self, now, i as nat),
        {
            let ghost before = r@;
            let name = &self.desired.entries[i].0;
            let output = &self.desired.entries[i].1;
            proof {
                lemma_entry(self.desired.entries@, i as int);
            }
            let waits = match self.failures.get(name.as_str()) {
                Some(failed) => now < *failed || now - *failed < START_RETRY_INTERVAL,
                None => false,
            };
            if !self.sessions.contains_key(name.as_str()) && self.settling_until.is_none() && !waits {
                let copy = output.clone();
                r.push(copy);
                assert(output_views(r@) =~= output_views(before).push(output@));
            }
        }
        r
    }

    /// Takes note of an output that was started. While the user is idle, its brightness is to be reduced at
    /// once; a keyboard is switched off.
    pub fn started(&mut self, output: Output) -> (r: Option<CommandAction>)
        requires
            old(self).wf(),
        ensures
            final(self).wf(),
            final(self).sessions@ == old(self).sessions@.insert(output@.name(), output),
            final(self).failures@ == old(self).failures@.remove(output@.name()),
            r == match old(self).idle_brightness {
                Some(percent) => Some(idle_command(output@, percent)),
                None => None,
            },
            final(self).configured == old(self).configured,
            final(self).als_scale == old(self).als_scale,
            final(self).legacy_thresholds == old(self).legacy_thresholds,
            final(self).topology == old(self).topology,
            final(self).desired == old(self).desired,
            final(self).last_discovery == old(self).last_discovery,
            final(self).settling_until == old(self).settling_until,
            final(self).idle == old(self).idle,
            final(self).idle_brightness == old(self).idle_brightness,
    {
        let command = match self.idle_brightness {
            Some(percent) => Some(enter_command(&output, percent)),
            None => None,
        };
        let name = output.name().to_string();
        self.failures.remove(output.name());
        self.sessions.insert(name, output);
        command
    }

    /// Takes note of an output that could not be started.
    pub fn start_failed(&mut self, name: &str, now: u128)
        requires
            old(self).wf(),
        ensures
            final(self).wf(),
            final(self).failures@ == old(self).failures@.insert(name@, now),
            final(self).configured == old(self).configured,
            final(self).als_scale == old(self).als_scale,
            final(self).legacy_thresholds == old(self).legacy_thresholds,
            final(self).topology == old(self).topology,
            final(self).desired == old(self).desired,
            final(self).sessions == old(self).sessions,
            final(self).last_discovery == old(self).last_discovery,
            final(self).settling_until == old(self).settling_until,
            final(self).idle == old(self).idle,
            final(self).idle_brightness == old(self).idle_brightness,
    {
        self.failures.insert(name.to_string(), now);
    }
}

/// Whether a name is listed.
fn is_listed(names: &Vec<String>, name: &str) -> (r: bool)
    ensures
        r == views(names@).contains(name@),
{
    for i in 0..names.len()
        invariant
            forall|j: int| 0 <= j < i ==> (#[trigger] names@[j])@ != name@,
    {
        if same(names[i].as_str(), name) {
            assert(views(names@)[i as int] == name@);
            return true;
        }
    }
    assert forall|j: int| 0 <= j < views(names@).len() implies views(names@)[j] != name@ by {
        assert(names@[j]@ != name@);
    }
    false
}

/// The names stand in order, each once.
pub open spec fn names_ordered(names: Seq<Seq<char>>) -> bool {
    forall|i: int, j: int| 0 <= i < j < names.len() ==> precedes(#[trigger] names[i], #[trigger] names[j])
}

proof fn lemma_names_ordered<V>(
    entries: Seq<(String, V)>,
    condition: spec_fn(Seq<char>) -> bool,
    n: nat,
)
    requires
        sorted(entries),
        n <= entries.len(),
    ensures
        names_ordered(names_where(entries, condition, n)),
    decreases n,
{
    if n > 0 {
        lemma_names_ordered(entries, condition, (n - 1) as nat);
        let before = names_where(entries, condition, (n - 1) as nat);
        let last = entries[n - 1].0@;
        if condition(last) {
            assert forall|i: int| 0 <= i < before.len() implies precedes(
                #[trigger] before[i],
                last,
            ) by {
                lemma_names_where(entries, condition, (n - 1) as nat, before[i]);
                assert(before.contains(before[i]));
                let j = choose|j: int|
                    0 <= j < n - 1 && (#[trigger] entries[j]).0@ == before[i];
                assert(precedes(entries[j].0@, entries[n - 1].0@));
            }
        }
    }
}

/// What is done to have the outputs in use that are desired.
#[derive(Debug)]
pub struct Reconciled {
    /// Outputs that have stopped on their own.
    pub stopped: Vec<String>,
    /// Outputs that are not to be used any more, or not as they are.
    pub removed: Vec<String>,
    /// Outputs that are to be started, in the order of their names.
    pub start: Vec<Output>,
}

impl Runtime {
    /// What is done to have the outputs in use that are desired. What has stopped on its own has failed, and
    /// is tried again later; what has become useless is dropped, and what is known of its failures with it.
    pub fn reconcile(&mut self, finished: &Vec<String>, now: u128) -> (r: Reconciled)
        requires
            old(self).wf(),
        ensures
            final(self).wf(),
            names_ordered(views(r.stopped@)),
            forall|k: Seq<char>|
                #[trigger] views(r.stopped@).contains(k) <==> old(self).sessions@.contains_key(k)
                    && views(finished@).contains(k),
            names_ordered(views(r.removed@)),
            forall|k: Seq<char>|
                #[trigger] views(r.removed@).contains(k) <==> old(self).sessions@.contains_key(k)
                    && !views(finished@).contains(k) && is_obsolete(*old(self), k),
            output_views(r.start@) == pending_outputs(
                *final(self),
                now,
                final(self).desired.entries@.len(),
            ),
            forall|k: Seq<char>|
                #[trigger] final(self).sessions@.contains_key(k) <==> old(
                    self,
                ).sessions@.contains_key(k) && !views(finished@).contains(k) && !is_obsolete(
                    *old(self),
                    k,
                ),
            forall|k: Seq<char>|
                #[trigger] final(self).sessions@.contains_key(k) ==> final(self).sessions@[k] == old(
                    self,
                ).sessions@[k],
            forall|k: Seq<char>|
                #[trigger] final(self).failures@.contains_key(k) <==> views(r.stopped@).contains(k)
                    || (old(self).failures@.contains_key(k) && !views(r.removed@).contains(k)),
            forall|k: Seq<char>|
                #[trigger] final(self).failures@.contains_key(k) ==> final(self).failures@[k]
                    == if views(r.stopped@).contains(k) {
                    now
                } else {
                    old(self).failures@[k]
                },
            final(self).configured == old(self).configured,
            final(self).als_scale == old(self).als_scale,
            final(self).legacy_thresholds == old(self).legacy_thresholds,
            final(self).topology == old(self).topology,
            final(self).desired == old(self).desired,
            final(self).last_discovery == old(self).last_discovery,
            final(self).settling_until == old(self).settling_until,
            final(self).idle == old(self).idle,
            final(self).idle_brightness == old(self).idle_brightness,
    {
        let stopped = self.stopped(finished, now);
        proof {
            let condition = |name: Seq<char>| views(finished@).contains(name);
            let entries = old(self).sessions.entries@;
            lemma_names_ordered(entries, condition, entries.len());
            assert forall|k: Seq<char>| #[trigger] views(stopped@).contains(k) <==> old(
                self,
            ).sessions@.contains_key(k) && views(finished@).contains(k) by {
                lemma_names_where(entries, condition, entries.len(), k);
            }
        }
        let ghost between = *self;
        let removed = self.drop_obsolete();
        proof {
            let condition = |name: Seq<char>| is_obsolete(between, name);
            let entries = between.sessions.entries@;
            lemma_names_ordered(entries, condition, entries.len());
            assert forall|k: Seq<char>| #[trigger] views(removed@).contains(k) <==> old(
                self,
            ).sessions@.contains_key(k) && !views(finished@).contains(k) && is_obsolete(
                *old(self),
                k,
            ) by {
                lemma_names_where(entries, condition, entries.len(), k);
                assert(between.sessions@.contains_key(k) <==> old(self).sessions@.contains_key(k)
                    && !views(stopped@).contains(k));
            }
        }
        let start = self.pending(now);
        Reconciled { stopped, removed, start }
    }
}

/// What an output is told when the user becomes idle.
pub open spec fn idle_command(o: OutputView, percent: u8) -> CommandAction {
    CommandAction::IdleEnter(
        if keyboard_output(o) {
            0
        } else {
            percent
        },
    )
}

fn enter_command(output: &Output, percent: u8) -> (r: CommandAction)
    ensures
        r == idle_command(output@, percent),
{
    CommandAction::IdleEnter(
        if is_keyboard(output) {
            0
        } else {
            percent
        },
    )
}

/// A command for each of several outputs.
#[derive(Debug)]
pub struct Command {
    pub output: String,
    pub action: CommandAction,
}

/// What commands are.
pub open spec fn command_views(commands: Seq<Command>) -> Seq<(Seq<char>, CommandAction)> {
    commands.map_values(|c: Command| (c.output@, c.action))
}

/// What news about the user leads to.
#[derive(Debug)]
pub enum IdleStep {
    Nothing,
    /// Show what is done when the user is idle, on the named source of power.
    ShowProfile { source: &'static str, profile: IdleProfile },
    /// The user is idle. The outputs are told.
    Enter(Vec<Command>),
    /// The user is back. The outputs are told.
    Leave(Vec<Command>),
}

/// What is done when the user is idle, on a source of power.
pub open spec fn profile_of(i: Idle, source: idle::PowerSource) -> IdleProfile {
    match source {
        idle::PowerSource::Ac => i.ac,
        idle::PowerSource::Battery => i.battery,
    }
}

/// The name of a source of power.
pub open spec fn source_name(source: idle::PowerSource) -> Seq<char> {
    match source {
        idle::PowerSource::Ac => "ac"@,
        idle::PowerSource::Battery => "battery"@,
    }
}

/// What every output in use is told when the user becomes idle.
pub open spec fn enter_commands(s: Runtime, percent: u8) -> Seq<(Seq<char>, CommandAction)> {
    Seq::new(
        s.sessions.entries@.len(),
        |i: int| (s.sessions.entries@[i].0@, idle_command(s.sessions.entries@[i].1@, percent)),
    )
}

/// The same command for every output in use.
pub open spec fn same_commands(s: Runtime, action: CommandAction) -> Seq<
    (Seq<char>, CommandAction),
> {
    Seq::new(s.sessions.entries@.len(), |i: int| (s.sessions.entries@[i].0@, action))
}

impl Runtime {
    /// The same command for every output in use.
    fn all_outputs(&self, action: CommandAction) -> (r: Vec<Command>)
        ensures
            command_views(r@) == same_commands(*self, action),
    {
        let ghost all = same_commands(*self, action);
        let mut r: Vec<Command> = Vec::new();
        for i in 0..self.sessions.entries.len()
            invariant
                all == same_commands(*self, action),
                command_views(r@) =~= all.take(i as int),
        {
            let ghost before = r@;
            let command = Command { output: self.sessions.entries[i].0.clone(), action };
            r.push(command);
            assert(command_views(r@) =~= command_views(before).push((command.output@, action)));
        }
        assert(command_views(r@) =~= all);
        r
    }

    /// What news about the user leads to. Without a configuration for idle users there is none. A user who is
    /// idle already does not become so again, and only a user who was idle comes back.
    pub fn idle_event(&mut self, event: idle::Event) -> (r: IdleStep)
        requires
            old(self).wf(),
            event is PowerSourceChanged ==> old(self).idle is Some,
            event is Idled && old(self).idle_brightness is None ==> old(self).idle is Some,
        ensures
            final(self).wf(),
            match event {
                idle::Event::PowerSourceChanged(source) => {
                    &&& r matches IdleStep::ShowProfile { source: name, profile } && name@
                        == source_name(source) && profile == profile_of(old(self).idle->0, source)
                    &&& final(self).idle_brightness == old(self).idle_brightness
                },
                idle::Event::Idled(source) => if old(self).idle_brightness is Some {
                    r is Nothing && final(self).idle_brightness == old(self).idle_brightness
                } else {
                    let percent = profile_of(old(self).idle->0, source).brightness;
                    &&& r matches IdleStep::Enter(commands) && command_views(commands@)
                        == enter_commands(*old(self), percent)
                    &&& final(self).idle_brightness == Some(percent)
                },
                idle::Event::Resumed => if old(self).idle_brightness is None {
                    r is Nothing && final(self).idle_brightness is None
                } else {
                    &&& r matches IdleStep::Leave(commands) && command_views(commands@)
                        == same_commands(*old(self), CommandAction::IdleLeave)
                    &&& final(self).idle_brightness is None
                },
            },
            r matches IdleStep::ShowProfile { source: name, profile } ==> match event {
                idle::Event::PowerSourceChanged(idle::PowerSource::Ac) => name@ == "ac"@ && profile
                    == old(self).idle->0.ac,
                idle::Event::PowerSourceChanged(idle::PowerSource::Battery) => name@ == "battery"@
                    && profile == old(self).idle->0.battery,
                _ => false,
            },
            r matches IdleStep::Enter(commands) ==> {
                let percent = match event {
                    idle::Event::Idled(idle::PowerSource::Ac) => old(self).idle->0.ac.brightness,
                    _ => old(self).idle->0.battery.brightness,
                };
                &&& event is Idled
                &&& old(self).idle_brightness is None
                &&& final(self).idle_brightness == Some(percent)
                &&& commands@.len() == old(self).sessions.entries@.len()
                &&& forall|i: int|
                    0 <= i < commands@.len() ==> (#[trigger] commands@[i]).output@ == old(
                        self,
                    ).sessions.entries@[i].0@
                &&& forall|i: int|
                    0 <= i < commands@.len() ==> (#[trigger] commands@[i]).action
                        == CommandAction::IdleEnter(
                        if keyboard_output(old(self).sessions.entries@[i].1@) {
                            0
                        } else {
                            percent
                        },
                    )
            },
            r matches IdleStep::Leave(commands) ==> {
                &&& event is Resumed
                &&& old(self).idle_brightness is Some
                &&& commands@.len() == old(self).sessions.entries@.len()
                &&& forall|i: int|
                    0 <= i < commands@.len() ==> (#[trigger] commands@[i]).output@ == old(
                        self,
                    ).sessions.entries@[i].0@ && commands@[i].action is IdleLeave
            },
            final(self).configured == old(self).configured,
            final(self).als_scale == old(self).als_scale,
            final(self).legacy_thresholds == old(self).legacy_thresholds,
            final(self).topology == old(self).topology,
            final(self).desired == old(self).desired,
            final(self).sessions == old(self).sessions,
            final(self).failures == old(self).failures,
            final(self).last_discovery == old(self).last_discovery,
            final(self).settling_until == old(self).settling_until,
            final(self).idle == old(self).idle,
    {
        match event {
            idle::Event::PowerSourceChanged(source) => {
                let configuration = match self.idle {
                    Some(configuration) => configuration,
                    None => {
                        return IdleStep::Nothing;
                    },
                };
                match source {
                    idle::PowerSource::Ac => IdleStep::ShowProfile {
                        source: "ac",
                        profile: configuration.ac,
                    },
                    idle::PowerSource::Battery => IdleStep::ShowProfile {
                        source: "battery",
                        profile: configuration.battery,
                    },
                }
            },
            idle::Event::Idled(source) => {
                if self.idle_brightness.is_some() {
                    return IdleStep::Nothing;
                }
                let configuration = match self.idle {
                    Some(configuration) => configuration,
                    None => {
                        return IdleStep::Nothing;
                    },
                };
                let percent = match source {
                    idle::PowerSource::Ac => configuration.ac.brightness,
                    idle::PowerSource::Battery => configuration.battery.brightness,
                };
                self.idle_brightness = Some(percent);
                let ghost all = enter_commands(*self, percent);
                let mut commands: Vec<Command> = Vec::new();
                for i in 0..self.sessions.entries.len()
                    invariant
                        all == enter_commands(*self, percent),
                        command_views(commands@) =~= all.take(i as int),
                {
                    let ghost before = commands@;
                    let command = Command {
                        output: self.sessions.entries[i].0.clone(),
                        action: enter_command(&self.sessions.entries[i].1, percent),
                    };
                    commands.push(command);
                    assert(command_views(commands@) =~= command_views(before).push(
                        (command.output@, command.action),
                    ));
                }
                assert(command_views(commands@) =~= all);
                assert(enter_commands(*self, percent) =~= enter_commands(*old(self), percent));
                assert forall|i: int| 0 <= i < commands@.len() implies (
                (#[trigger] commands@[i]).output@, commands@[i].action) == all[i] by {
                    assert(command_views(commands@)[i] == all[i]);
                }
                assert(commands@.len() == command_views(commands@).len());
                IdleStep::Enter(commands)
            },
            idle::Event::Resumed => {
                if self.idle_brightness.is_none() {
                    return IdleStep::Nothing;
                }
                self.idle_brightness = None;
                let commands = self.all_outputs(CommandAction::IdleLeave);
                assert(same_commands(*self, CommandAction::IdleLeave) =~= same_commands(
                    *old(self),
                    CommandAction::IdleLeave,
                ));
                proof {
                    let all = same_commands(*old(self), CommandAction::IdleLeave);
                    assert(commands@.len() == command_views(commands@).len());
                    assert forall|i: int| 0 <= i < commands@.len() implies (
                    (#[trigger] commands@[i]).output@, commands@[i].action) == all[i] by {
                        assert(command_views(commands@)[i] == all[i]);
                    }
                }
                IdleStep::Leave(commands)
            },
        }
    }
}

/// What an action of a client means for outputs: the output that it is for, or all, what each is told, and
/// whether the answer is a brightness.
pub open spec fn command_of(action: ActionView) -> (Option<Seq<char>>, CommandAction, bool) {
    match action {
        ActionView::Get(name) => (Some(name), CommandAction::Get, true),
        ActionView::SetTo(name, adjustment) => (Some(name), CommandAction::SetTo(adjustment), true),
        ActionView::Pause(target, seconds) => (target, CommandAction::Pause(seconds), false),
        ActionView::Resume(target) => (target, CommandAction::Resume, false),
        ActionView::Toggle(target) => (target, CommandAction::Toggle, false),
    }
}

/// What is done for a client.
#[derive(Debug)]
pub enum Dispatch {
    /// One output is told. The answer may be a brightness.
    One { command: Command, tells_brightness: bool },
    /// All outputs are told.
    All(Vec<Command>),
    /// There is no such output.
    Refused(String),
}

/// What is said of an output that is not there.
pub open spec fn unknown_text(name: Seq<char>) -> Seq<char> {
    "unknown or disconnected output '"@ + name + "'"@
}

impl Runtime {
    /// What is done for a client.
    pub fn execute(&self, action: Action) -> (r: Dispatch)
        requires
            self.wf(),
        ensures
            ({
                let (target, command, tells) = command_of(action@);
                match target {
                    None => r matches Dispatch::All(commands) && command_views(commands@)
                        == same_commands(*self, command),
                    Some(name) => if self.sessions@.contains_key(name) {
                        r matches Dispatch::One { command: one, tells_brightness }
                            && tells_brightness == tells && one.output@ == name && one.action
                            == command
                    } else {
                        r matches Dispatch::Refused(error) && error@ == unknown_text(name)
                    },
                }
            }),
            r matches Dispatch::Refused(error) ==> match action {
                Action::Get(name) => error@ == "unknown or disconnected output '"@ + name@ + "'"@,
                Action::SetTo(name, _) => error@ == "unknown or disconnected output '"@ + name@
                    + "'"@,
                _ => true,
            },
            r matches Dispatch::All(commands) ==> {
                &&& commands@.len() == self.sessions.entries@.len()
                &&& forall|i: int|
                    0 <= i < commands@.len() ==> (#[trigger] commands@[i]).output@
                        == self.sessions.entries@[i].0@
                &&& forall|i: int|
                    0 <= i < commands@.len() ==> match action {
                        Action::Pause(_, seconds) => (#[trigger] commands@[i]).action
                            == CommandAction::Pause(seconds),
                        Action::Resume(_) => commands@[i].action is Resume,
                        Action::Toggle(_) => commands@[i].action is Toggle,
                        _ => false,
                    }
            },
            r matches Dispatch::One { command, tells_brightness } ==> match action {
                Action::Get(name) => tells_brightness && command.output@ == name@ && command.action
                    is Get,
                Action::SetTo(name, a) => tells_brightness && command.output@ == name@
                    && command.action == CommandAction::SetTo(a),
                Action::Pause(name, seconds) => !tells_brightness && name is Some && command.output@
                    == name->0@ && command.action == CommandAction::Pause(seconds),
                Action::Resume(name) => !tells_brightness && name is Some && command.output@
                    == name->0@ && command.action is Resume,
                Action::Toggle(name) => !tells_brightness && name is Some && command.output@
                    == name->0@ && command.action is Toggle,
            },
    {
        let (target, action, tells_brightness) = match action {
            Action::Get(name) => (Some(name), CommandAction::Get, true),
            Action::SetTo(name, adjustment) => (
                Some(name),
                CommandAction::SetTo(adjustment),
                true,
            ),
            Action::Pause(target, seconds) => (target, CommandAction::Pause(seconds), false),
            Action::Resume(target) => (target, CommandAction::Resume, false),
            Action::Toggle(target) => (target, CommandAction::Toggle, false),
        };
        match target {
            None => {
                let commands = self.all_outputs(action);
                proof {
                    let all = same_commands(*self, action);
                    assert(commands@.len() == command_views(commands@).len());
                    assert forall|i: int| 0 <= i < commands@.len() implies (
                    (#[trigger] commands@[i]).output@, commands@[i].action) == all[i] by {
                        assert(command_views(commands@)[i] == all[i]);
                    }
                }
                Dispatch::All(commands)
            },
            Some(output) => {
                if self.sessions.contains_key(output.as_str()) {
                    Dispatch::One { command: Command { output, action }, tells_brightness }
                } else {
                    let mut error = "unknown or disconnected output '".to_string();
                    error.append(output.as_str());
                    error.append("'");
                    Dispatch::Refused(error)
                }
            },
        }
    }
}

/// What a client is answered after one output was told.
pub open spec fn one_answer(
    result: Result<u8, Seq<char>>,
    tells_brightness: bool,
) -> Result<Seq<char>, Seq<char>> {
    match result {
        Ok(percent) => Ok(
            if tells_brightness {
                digits_of(percent as nat) + "%"@
            } else {
                "ok"@
            },
        ),
        Err(error) => Err(error),
    }
}

/// The outcome of a command, as plain text.
pub open spec fn result_view(result: Result<u8, String>) -> Result<u8, Seq<char>> {
    match result {
        Ok(percent) => Ok(percent),
        Err(error) => Err(error@),
    }
}

/// What a client is answered after one output was told.
pub fn answer_one(result: Result<u8, String>, tells_brightness: bool) -> (r: Result<String, String>)
    ensures
        crate::control::outcome_view(r) == one_answer(result_view(result), tells_brightness),
        result matches Ok(percent) ==> r is Ok && r->Ok_0@ == if tells_brightness {
            digits_of(percent as nat) + "%"@
        } else {
            "ok"@
        },
        result matches Err(error) ==> r is Err && r->Err_0@ == error@,
{
    match result {
        Ok(percent) => {
            if tells_brightness {
                let mut text = crate::text::decimal::digits(percent as u64);
                text.append("%");
                Ok(text)
            } else {
                Ok("ok".to_string())
            }
        },
        Err(error) => Err(error),
    }
}

/// What has failed, for which output.
pub open spec fn failure_text(name: Seq<char>, error: Seq<char>) -> Seq<char> {
    name + ": "@ + error
}

/// What has failed among the first `n` outcomes.
pub open spec fn failure_texts(results: Seq<(String, Result<u8, String>)>, n: nat) -> Seq<Seq<char>>
    decreases n,
{
    if n == 0 {
        Seq::empty()
    } else {
        let before = failure_texts(results, (n - 1) as nat);
        match results[n - 1].1 {
            Ok(_) => before,
            Err(error) => before.push(failure_text(results[n - 1].0@, error@)),
        }
    }
}

/// The texts stand in order.
pub open spec fn texts_ordered(s: Seq<Seq<char>>) -> bool {
    forall|i: int, j: int| 0 <= i < j < s.len() ==> !precedes(#[trigger] s[j], #[trigger] s[i])
}

/// A text that is put among others is one more of them.
proof fn lemma_text_counted(r: Seq<Seq<char>>, i: int, t: Seq<char>)
    requires
        0 <= i <= r.len(),
    ensures
        r.insert(i, t).to_multiset() =~= r.to_multiset().insert(t),
{
    let s = r.insert(i, t);
    s.to_multiset_ensures();
    assert(s.remove(i) =~= r);
    assert(s[i] == t);
    assert(s.contains(t));
}

/// Putting a text behind those that do not come after it keeps the order.
proof fn lemma_text_placed(r: Seq<Seq<char>>, i: int, t: Seq<char>)
    requires
        texts_ordered(r),
        0 <= i <= r.len(),
        forall|j: int| 0 <= j < i ==> !precedes(t, #[trigger] r[j]),
        forall|j: int| i <= j < r.len() ==> precedes(t, #[trigger] r[j]),
    ensures
        texts_ordered(r.insert(i, t)),
        r.insert(i, t).to_multiset() =~= r.to_multiset().insert(t),
{
    let s = r.insert(i, t);
    assert(s[i] == t);
    assert(s.to_multiset() =~= r.to_multiset().insert(t)) by {
        lemma_text_counted(r, i, t);
    }
    assert forall|a: int, b: int| 0 <= a < b < s.len() implies !precedes(
        #[trigger] s[b],
        #[trigger] s[a],
    ) by {
        let c = if a < i { a } else { a - 1 };
        let d = if b < i { b } else { b - 1 };
        if a != i {
            assert(s[a] == r[c]);
        }
        if b != i {
            assert(s[b] == r[d]);
        }
        if a == i && precedes(s[b], t) {
            assert(precedes(t, r[d]));
            lemma_transitive(t, r[d], t);
            lemma_irreflexive(t);
        }
    }
}

/// Puts a text where it belongs among others.
fn place(texts: &mut Vec<String>, text: String)
    requires
        texts_ordered(views(old(texts)@)),
    ensures
        texts_ordered(views(final(texts)@)),
        views(final(texts)@).to_multiset() == views(old(texts)@).to_multiset().insert(text@),
{
    let ghost before = texts@;
    let ghost t = text@;
    let mut i: usize = texts.len();
    while i > 0 && is_before(text.as_str(), texts[i - 1].as_str())
        invariant
            i <= texts@.len(),
            texts@ == before,
            text@ == t,
            forall|j: int| i <= j < texts@.len() ==> precedes(t, (#[trigger] texts@[j])@),
        decreases i,
    {
        i = i - 1;
    }
    proof {
        let v = views(before);
        assert forall|j: int| 0 <= j < i implies !precedes(t, #[trigger] v[j]) by {
            if j < i - 1 && precedes(t, v[j]) {
                assert(!precedes(v[i - 1], v[j]));
                assert(!precedes(t, before[i - 1]@));
                lemma_total(v[i - 1], v[j]);
                if precedes(v[j], v[i - 1]) {
                    lemma_transitive(t, v[j], v[i - 1]);
                }
            }
        }
        assert forall|j: int| i <= j < v.len() implies precedes(t, #[trigger] v[j]) by {
            assert(precedes(t, before[j]@));
        }
        lemma_text_placed(v, i as int, t);
    }
    texts.insert(i, text);
    assert(views(texts@) =~= views(before).insert(i as int, t));
}

/// What a client is answered after all outputs were told: that it is done, or what has failed, in order.
pub open spec fn is_all_answer(
    answer: Result<Seq<char>, Seq<char>>,
    results: Seq<(String, Result<u8, String>)>,
) -> bool {
    let failures = failure_texts(results, results.len());
    if failures.len() == 0 {
        answer == Ok::<Seq<char>, Seq<char>>("ok"@)
    } else {
        exists|ordered: Seq<Seq<char>>|
            {
                &&& #[trigger] texts_ordered(ordered)
                &&& ordered.to_multiset() == failures.to_multiset()
                &&& answer == Err::<Seq<char>, Seq<char>>(
                    "failed for "@ + joined_by(ordered, "; "@),
                )
            }
    }
}

/// What a client is answered after all outputs were told.
pub fn answer_all(results: &Vec<(String, Result<u8, String>)>) -> (r: Result<String, String>)
    ensures
        is_all_answer(crate::control::outcome_view(r), results@),
        r is Ok <==> forall|i: int| 0 <= i < results@.len() ==> (#[trigger] results@[i]).1 is Ok,
        r matches Ok(text) ==> text@ == "ok"@,
{
    let mut failures: Vec<String> = Vec::new();
    assert(views(failures@) =~= Seq::empty());
    proof {
        Seq::<Seq<char>>::empty().to_multiset_ensures();
    }
    for i in 0..results.len()
        invariant
            texts_ordered(views(failures@)),
            views(failures@).to_multiset() == failure_texts(results@, i as nat).to_multiset(),
    {
        let ghost before = failure_texts(results@, i as nat);
        if let Err(error) = &results[i].1 {
            let mut text = results[i].0.clone();
            text.append(": ");
            text.append(error.as_str());
            let ghost t = text@;
            place(&mut failures, text);
            proof {
                before.to_multiset_ensures();
                assert(failure_texts(results@, (i + 1) as nat) == before.push(t));
                assert(before.push(t).to_multiset() =~= before.to_multiset().insert(t));
            }
        }
    }
    proof {
        let all = failure_texts(results@, results@.len());
        all.to_multiset_ensures();
        views(failures@).to_multiset_ensures();
        assert(views(failures@).len() == all.len());
        assert(views(failures@).len() == failures@.len());
        failures_are_those_that_failed(results@, results@.len());
    }
    if failures.len() == 0 {
        Ok("ok".to_string())
    } else {
        let mut text = "failed for ".to_string();
        text.append(join(&failures, "; ").as_str());
        assert(texts_ordered(views(failures@)));
        Err(text)
    }
}

/// What the brightness of an output is set through.
#[derive(Debug)]
pub enum Device {
    Backlight { path: String, min_brightness: u64 },
    Ddc { identifier: String, min_brightness: u64 },
}

/// What an output needs to be used.
#[derive(Debug)]
pub struct SessionPlan {
    pub name: String,
    pub device: Device,
    /// The kind of the device, for the status.
    pub kind: &'static str,
    /// The capturer, for the status; a keyboard has no screen.
    pub shown_capturer: Option<&'static str>,
    pub capturer: Capturer,
    pub vulkan_device: VulkanDevice,
    /// By how much to reduce the brightness under which conditions; without them the predictor learns.
    pub points: Option<Vec<Entry>>,
    pub als_direction: AlsDirection,
}

/// The name of a capturer in the status.
pub open spec fn capturer_name(c: Configured) -> Seq<char> {
    match c {
        Configured::Auto => "auto"@,
        Configured::Wayland(_) => "wayland"@,
        Configured::Pipewire(_) => "pipewire"@,
        Configured::Off => "none"@,
    }
}

/// The points of a predictor as entries.
pub open spec fn entries_of(points: Seq<ManualPoint>) -> Seq<Entry> {
    points.map_values(
        |p: ManualPoint| Entry { als: p.als, luma: p.luma, brightness: p.reduction },
    )
}

/// What an output needs to be used.
pub open spec fn is_plan_of(plan: SessionPlan, o: OutputView) -> bool {
    &&& plan.name@ == o.name()
    &&& match o {
        OutputView::Backlight(o) => plan.device matches Device::Backlight { path, min_brightness }
            && path@ == o.path && min_brightness == o.min_brightness,
        OutputView::DdcUtil(o) => plan.device matches Device::Ddc { identifier, min_brightness }
            && identifier@ == o.identifier && min_brightness == o.min_brightness,
    }
    &&& plan.kind@ == match o {
        OutputView::Backlight(_) => "backlight"@,
        OutputView::DdcUtil(_) => "ddc"@,
    }
    &&& plan.shown_capturer is Some <==> !keyboard_output(o)
    &&& plan.shown_capturer matches Some(name) ==> name@ == capturer_name(o.capturer())
    &&& plan.capturer == match o.capturer() {
        Configured::Auto => Capturer::Auto,
        Configured::Wayland(protocol) => Capturer::Wayland(protocol),
        Configured::Pipewire(protocol) => Capturer::Pipewire(protocol),
        Configured::Off => Capturer::Off(crate::frame::capturer::none::Capturer {  }),
    }
    &&& plan.vulkan_device@ == o.vulkan_device()
    &&& plan.points is Some <==> o.predictor() is Some
    &&& plan.points matches Some(points) ==> points@ == entries_of(o.predictor()->0)
    &&& plan.als_direction == match o {
        OutputView::Backlight(o) => o.als_direction,
        OutputView::DdcUtil(_) => AlsDirection::Increasing,
    }
}

/// The points of a predictor as entries.
fn point_entries(predictor: &Predictor) -> (r: Option<Vec<Entry>>)
    ensures
        r is Some <==> predictor@ is Some,
        r matches Some(entries) ==> entries@ == entries_of(predictor@->0),
{
    match predictor {
        Predictor::Adaptive => None,
        Predictor::Manual { points } => {
            let ghost all = entries_of(points@);
            let mut entries: Vec<Entry> = Vec::new();
            for i in 0..points.len()
                invariant
                    all == entries_of(points@),
                    entries@ =~= all.take(i as int),
            {
                entries.push(Entry::new(points[i].als, points[i].luma, points[i].reduction));
            }
            assert(entries@ =~= all);
            Some(entries)
        },
    }
}

/// What an output needs to be used.
pub fn plan_session(output: &Output) -> (r: SessionPlan)
    ensures
        is_plan_of(r, output@),
        ({
            let asked = match *output {
                Output::Backlight(o) => o.capturer,
                Output::DdcUtil(o) => o.capturer,
            };
            &&& asked is Auto ==> r.capturer is Auto
            &&& asked is Off ==> r.capturer is Off
            &&& asked matches Configured::Wayland(p) ==> r.capturer == Capturer::Wayland(p)
            &&& asked matches Configured::Pipewire(p) ==> r.capturer == Capturer::Pipewire(p)
            &&& r.shown_capturer matches Some(name) ==> {
                &&& asked is Auto ==> name@ == "auto"@
                &&& asked is Off ==> name@ == "none"@
                &&& asked is Wayland ==> name@ == "wayland"@
                &&& asked is Pipewire ==> name@ == "pipewire"@
            }
        }),
        match *output {
            Output::Backlight(o) => {
                &&& r.name@ == o.name@
                &&& r.device matches Device::Backlight { path, min_brightness } && path@ == o.path@
                    && min_brightness == o.min_brightness
                &&& r.kind@ == "backlight"@
                &&& r.als_direction == o.als_direction
                &&& r.vulkan_device@ == o.vulkan_device@
                &&& r.shown_capturer is Some <==> o.kind !is Keyboard
                &&& r.points is Some <==> o.predictor is Manual
                &&& r.points matches Some(points) ==> points@.len()
                    == o.predictor->points@.len() && forall|i: int|
                    0 <= i < points@.len() ==> (#[trigger] points@[i]).als
                        == o.predictor->points@[i].als && points@[i].luma
                        == o.predictor->points@[i].luma && points@[i].brightness
                        == o.predictor->points@[i].reduction
            },
            Output::DdcUtil(o) => {
                &&& r.name@ == o.name@
                &&& r.device matches Device::Ddc { identifier, min_brightness } && identifier@
                    == o.identifier@ && min_brightness == o.min_brightness
                &&& r.kind@ == "ddc"@
                &&& r.als_direction is Increasing
                &&& r.vulkan_device@ == o.vulkan_device@
                &&& r.shown_capturer is Some
                &&& r.points is Some <==> o.predictor is Manual
                &&& r.points matches Some(points) ==> points@.len()
                    == o.predictor->points@.len() && forall|i: int|
                    0 <= i < points@.len() ==> (#[trigger] points@[i]).als
                        == o.predictor->points@[i].als && points@[i].luma
                        == o.predictor->points@[i].luma && points@[i].brightness
                        == o.predictor->points@[i].reduction
            },
        },
{
    let keyboard = is_keyboard(output);
    let (capturer, vulkan_device, predictor, als_direction, device, kind) = match output {
        Output::Backlight(output) => (
            output.capturer,
            output.vulkan_device.clone(),
            &output.predictor,
            output.als_direction,
            Device::Backlight { path: output.path.clone(), min_brightness: output.min_brightness },
            "backlight",
        ),
        Output::DdcUtil(output) => (
            output.capturer,
            output.vulkan_device.clone(),
            &output.predictor,
            AlsDirection::Increasing,
            Device::Ddc {
                identifier: output.identifier.clone(),
                min_brightness: output.min_brightness,
            },
            "ddc",
        ),
    };
    let shown = match capturer {
        Configured::Auto => "auto",
        Configured::Wayland(_) => "wayland",
        Configured::Pipewire(_) => "pipewire",
        Configured::Off => "none",
    };
    SessionPlan {
        name: output.name().to_string(),
        device,
        kind,
        shown_capturer: if keyboard {
            None
        } else {
            Some(shown)
        },
        capturer: configured(capturer),
        vulkan_device,
        points: point_entries(predictor),
        als_direction,
    }
}

/// Once useless sessions are dropped, every output in use is desired, just as it is.
pub proof fn sessions_follow_desired(before: Runtime, after: Runtime, names: Seq<Seq<char>>, name: Seq<char>)
    requires
        before.wf(),
        names == names_where(
            before.sessions.entries@,
            |name: Seq<char>| is_obsolete(before, name),
            before.sessions.entries@.len(),
        ),
        without(before.sessions@, after.sessions@, names),
        after.desired == before.desired,
        after.sessions@.contains_key(name),
    ensures
        after.desired@.contains_key(name),
        after.desired@[name]@ == after.sessions@[name]@,
{
    let condition = |name: Seq<char>| is_obsolete(before, name);
    lemma_names_where(
        before.sessions.entries@,
        condition,
        before.sessions.entries@.len(),
        name,
    );
    assert(before.sessions@.contains_key(name));
    assert(has_name(before.sessions.entries@, name));
    assert(!condition(name));
}

/// An output that is in use, and is desired as it is, is not dropped.
pub proof fn wanted_sessions_stay(before: Runtime, after: Runtime, names: Seq<Seq<char>>, name: Seq<char>)
    requires
        before.wf(),
        names == names_where(
            before.sessions.entries@,
            |name: Seq<char>| is_obsolete(before, name),
            before.sessions.entries@.len(),
        ),
        without(before.sessions@, after.sessions@, names),
        before.sessions@.contains_key(name),
        !is_obsolete(before, name),
    ensures
        after.sessions@.contains_key(name),
        after.sessions@[name] == before.sessions@[name],
{
    let condition = |name: Seq<char>| is_obsolete(before, name);
    lemma_names_where(
        before.sessions.entries@,
        condition,
        before.sessions.entries@.len(),
        name,
    );
    assert(!condition(name));
    assert(!names.contains(name));
    assert(after.sessions@.contains_key(name));
    assert(after.sessions@[name] == before.sessions@[name]);
}

/// An output that has failed is not tried again before the time is up, and then it is, where it is desired
/// and nothing is settling.
pub proof fn failed_output_is_retried_later(s: Runtime, name: Seq<char>, failed: u128, now: u128)
    requires
        s.desired@.contains_key(name),
        !s.sessions@.contains_key(name),
        s.settling_until is None,
        s.failures@.contains_key(name),
        s.failures@[name] == failed,
    ensures
        is_pending(s, name, now) <==> now >= failed + START_RETRY_INTERVAL,
{
}

/// While connectors are settling, no output is started.
pub proof fn nothing_starts_while_settling(s: Runtime, now: u128, n: nat)
    requires
        s.settling_until is Some,
        n <= s.desired.entries@.len(),
    ensures
        pending_outputs(s, now, n).len() == 0,
    decreases n,
{
    if n > 0 {
        nothing_starts_while_settling(s, now, (n - 1) as nat);
    }
}

/// After a change of the connectors, outputs are looked for at once and once more when they have settled.
pub proof fn change_is_looked_at_twice(s: Runtime, topology: Seq<Seq<char>>, now: u128, later: u128)
    requires
        topology != views(s.topology@),
        s.last_discovery is Some,
        now + TOPOLOGY_SETTLE_INTERVAL <= later,
    ensures
        looked(s, topology, now).discover,
        forall|after: Runtime|
            views(after.topology@) == topology && after.settling_until == looked(
                s,
                topology,
                now,
            ).settling_until ==> (#[trigger] looked(after, topology, later)).discover && looked(
                after,
                topology,
                later,
            ).settling_until is None,
{
}

/// Of several outputs with one name the first one counts, and no output is left out for another reason.
pub proof fn first_output_of_a_name_counts(outputs: Seq<Output>, n: nat, name: Seq<char>)
    requires
        n <= outputs.len(),
    ensures
        first_by_name(outputs, n).contains_key(name) <==> exists|i: int|
            0 <= i < n && (#[trigger] outputs[i])@.name() == name,
        first_by_name(outputs, n).contains_key(name) ==> exists|i: int|
            0 <= i < n && first_by_name(outputs, n)[name] == #[trigger] outputs[i]
                && outputs[i]@.name() == name && forall|j: int|
                0 <= j < i ==> (#[trigger] outputs[j])@.name() != name,
    decreases n,
{
    if n > 0 {
        first_output_of_a_name_counts(outputs, (n - 1) as nat, name);
        let before = first_by_name(outputs, (n - 1) as nat);
        let o = outputs[n - 1];
        if !before.contains_key(name) && o@.name() == name {
            assert(first_by_name(outputs, n)[name] == outputs[n - 1]);
        }
    }
}

/// An output in use is useless exactly when it is not desired, or desired otherwise than it is.
pub proof fn changed_output_is_useless(s: Runtime, name: Seq<char>)
    ensures
        !s.desired@.contains_key(name) ==> is_obsolete(s, name),
        s.desired@.contains_key(name) ==> (is_obsolete(s, name) <==> s.desired@[name]@
            != s.sessions@[name]@),
{
}

/// An output is to be started exactly when it is desired and not in use, nothing is settling, and five
/// seconds have passed since it failed, where it did.
pub proof fn desired_output_is_started(s: Runtime, name: Seq<char>, now: u128)
    ensures
        is_pending(s, name, now) <==> s.desired@.contains_key(name) && !s.sessions@.contains_key(name)
            && s.settling_until is None && (s.failures@.contains_key(name) ==> now
            >= s.failures@[name] + 5_000_000_000),
{
}

/// The outputs that are to be started are those that are pending, in the order of their names.
pub proof fn pending_outputs_are_started(s: Runtime, now: u128, n: nat)
    requires
        n < s.desired.entries@.len(),
    ensures
        pending_outputs(s, now, 0).len() == 0,
        is_pending(s, s.desired.entries@[n as int].0@, now) ==> pending_outputs(
            s,
            now,
            (n + 1) as nat,
        ) == pending_outputs(s, now, n).push(s.desired.entries@[n as int].1@),
        !is_pending(s, s.desired.entries@[n as int].0@, now) ==> pending_outputs(
            s,
            now,
            (n + 1) as nat,
        ) == pending_outputs(s, now, n),
{
}

/// The names that are chosen are those that meet the condition, in the order in which they stand.
pub proof fn chosen_names_meet_the_condition<V>(
    entries: Seq<(String, V)>,
    condition: spec_fn(Seq<char>) -> bool,
    n: nat,
    name: Seq<char>,
)
    requires
        sorted(entries),
        n <= entries.len(),
    ensures
        names_where(entries, condition, n).contains(name) <==> condition(name) && exists|i: int|
            0 <= i < n && (#[trigger] entries[i]).0@ == name,
        forall|i: int, j: int|
            0 <= i < j < names_where(entries, condition, n).len() ==> precedes(
                #[trigger] names_where(entries, condition, n)[i],
                #[trigger] names_where(entries, condition, n)[j],
            ),
{
    lemma_names_where(entries, condition, n, name);
    lemma_names_ordered(entries, condition, n);
}

/// While the user is idle, keyboards are dark, and other outputs are reduced to what is configured for
/// the source of power.
pub proof fn keyboards_are_dark_while_idle(o: OutputView, percent: u8, i: Idle)
    ensures
        keyboard_output(o) ==> idle_command(o, percent) == CommandAction::IdleEnter(0),
        !keyboard_output(o) ==> idle_command(o, percent) == CommandAction::IdleEnter(percent),
        profile_of(i, idle::PowerSource::Ac) == i.ac,
        profile_of(i, idle::PowerSource::Battery) == i.battery,
        o is DdcUtil ==> !keyboard_output(o),
        o matches OutputView::Backlight(b) ==> (keyboard_output(o) <==> b.kind is Keyboard),
{
}

/// Each output in use is told, by its name and once.
pub proof fn every_output_is_told(s: Runtime, action: CommandAction, percent: u8, i: int)
    requires
        0 <= i < s.sessions.entries@.len(),
    ensures
        same_commands(s, action).len() == s.sessions.entries@.len(),
        same_commands(s, action)[i] == (s.sessions.entries@[i].0@, action),
        enter_commands(s, percent).len() == s.sessions.entries@.len(),
        enter_commands(s, percent)[i].0 == s.sessions.entries@[i].0@,
        enter_commands(s, percent)[i].1 == idle_command(s.sessions.entries@[i].1@, percent),
{
}

/// An output is told what the client has asked for, and the client is told a brightness where it has
/// asked for one or set one.
pub proof fn output_is_told_what_was_asked(action: ActionView)
    ensures
        ({
            let (target, command, tells) = command_of(action);
            &&& action matches ActionView::Get(name) ==> target == Some(name) && command is Get
            &&& action matches ActionView::SetTo(name, a) ==> target == Some(name) && command
                == CommandAction::SetTo(a)
            &&& action matches ActionView::Pause(t, seconds) ==> target == t && command
                == CommandAction::Pause(seconds)
            &&& action matches ActionView::Resume(t) ==> target == t && command is Resume
            &&& action matches ActionView::Toggle(t) ==> target == t && command is Toggle
            &&& tells <==> action is Get || action is SetTo
        }),
{
}

/// What has failed is told of each output that has failed, with its name, and of no other.
pub proof fn failures_are_those_that_failed(results: Seq<(String, Result<u8, String>)>, n: nat)
    requires
        n <= results.len(),
    ensures
        failure_texts(results, n).len() == 0 <==> forall|i: int|
            0 <= i < n ==> (#[trigger] results[i]).1 is Ok,
        forall|i: int|
            0 <= i < n && (#[trigger] results[i]).1 is Err ==> failure_texts(results, n).contains(
                results[i].0@ + ": "@ + results[i].1->Err_0@,
            ),
        forall|k: int|
            0 <= k < failure_texts(results, n).len() ==> exists|i: int|
                0 <= i < n && (#[trigger] results[i]).1 is Err && #[trigger] failure_texts(results, n)[k]
                    == results[i].0@ + ": "@ + results[i].1->Err_0@,
        failure_texts(results, n).len() <= n,
    decreases n,
{
    if n > 0 {
        failures_are_those_that_failed(results, (n - 1) as nat);
        let before = failure_texts(results, (n - 1) as nat);
        let after = failure_texts(results, n);
        if results[n - 1].1 is Err {
            assert(after.len() == before.len() + 1);
            assert(after[before.len() as int] == results[n - 1].0@ + ": "@ + results[n
                - 1].1->Err_0@);
            assert forall|i: int| 0 <= i < n && (#[trigger] results[i]).1
                is Err implies after.contains(
                results[i].0@ + ": "@ + results[i].1->Err_0@,
            ) by {
                if i < n - 1 {
                    let t = results[i].0@ + ": "@ + results[i].1->Err_0@;
                    assert(before.contains(t));
                    let k = choose|k: int| 0 <= k < before.len() && before[k] == t;
                    assert(after[k] == t);
                }
            }
            assert forall|k: int| 0 <= k < after.len() implies exists|i: int|
                0 <= i < n && (#[trigger] results[i]).1 is Err && #[trigger] after[k]
                    == results[i].0@ + ": "@ + results[i].1->Err_0@ by {
                if k < before.len() {
                    assert(after[k] == before[k]);
                }
            }
        }
    }
}

/// A client that has asked for all outputs is told that it is done only where nothing has failed, and
/// otherwise what has failed, in order.
pub proof fn failure_is_never_hidden(
    answer: Result<Seq<char>, Seq<char>>,
    results: Seq<(String, Result<u8, String>)>,
)
    requires
        is_all_answer(answer, results),
    ensures
        answer is Ok <==> forall|i: int| 0 <= i < results.len() ==> (#[trigger] results[i]).1 is Ok,
        answer matches Ok(text) ==> text == "ok"@,
        answer matches Err(text) ==> exists|ordered: Seq<Seq<char>>|
            text == "failed for "@ + #[trigger] joined_by(ordered, "; "@) && ordered.to_multiset()
                == failure_texts(results, results.len()).to_multiset() && forall|i: int, j: int|
                0 <= i < j < ordered.len() ==> !precedes(#[trigger] ordered[j], #[trigger] ordered[i]),
{
    failures_are_those_that_failed(results, results.len());
    if answer is Err {
        let ordered = choose|ordered: Seq<Seq<char>>|
            {
                &&& #[trigger] texts_ordered(ordered)
                &&& ordered.to_multiset() == failure_texts(results, results.len()).to_multiset()
                &&& answer == Err::<Seq<char>, Seq<char>>(
                    "failed for "@ + joined_by(ordered, "; "@),
                )
            };
        assert(answer->Err_0 == "failed for "@ + joined_by(ordered, "; "@));
    }
}

/// A capturer is shown by its kind, and points are entries with their reduction in place of the
/// brightness.
pub proof fn plan_shows_the_kind(c: Configured, points: Seq<ManualPoint>, i: int)
    requires
        0 <= i < points.len(),
    ensures
        c is Auto ==> capturer_name(c) == "auto"@,
        c is Wayland ==> capturer_name(c) == "wayland"@,
        c is Pipewire ==> capturer_name(c) == "pipewire"@,
        c is Off ==> capturer_name(c) == "none"@,
        entries_of(points).len() == points.len(),
        entries_of(points)[i].als == points[i].als,
        entries_of(points)[i].luma == points[i].luma,
        entries_of(points)[i].brightness == points[i].reduction,
{
}

/// Outputs are told by name, each as it is, and what is dropped from a map is exactly what was named.
pub proof fn outputs_are_told_by_name(
    m: Map<Seq<char>, Output>,
    after: Map<Seq<char>, Output>,
    names: Seq<Seq<char>>,
    name: Seq<char>,
)
    ensures
        outputs_by_name(m).contains_key(name) <==> m.contains_key(name),
        m.contains_key(name) ==> outputs_by_name(m)[name] == m[name]@,
        without(m, after, names) ==> (after.contains_key(name) <==> m.contains_key(name)
            && !names.contains(name)),
        without(m, after, names) && after.contains_key(name) ==> after[name] == m[name],
{
}

/// Names that stand in order stand each once.
pub proof fn ordered_names_differ(names: Seq<Seq<char>>, i: int, j: int)
    requires
        names_ordered(names),
        0 <= i < j < names.len(),
    ensures
        precedes(names[i], names[j]),
        names[i] != names[j],
{
    lemma_irreflexive(names[i]);
}

} // verus!
