//! Where frames come from.

pub mod none;
pub mod pipewire;

use crate::config::app::{Capturer as Configured, PipewireProtocol, WaylandProtocol};
use vstd::prelude::*;

verus! {

/// Where the frames of an output come from.
#[derive(Clone, Copy, Debug, PartialEq, Eq, Structural)]
pub enum Capturer {
    Auto,
    Off(none::Capturer),
    Pipewire(PipewireProtocol),
    Wayland(WaylandProtocol),
}

/// The capturer that is configured.
pub fn configured(capturer: Configured) -> (r: Capturer)
    ensures
        r == match capturer {
            Configured::Auto => Capturer::Auto,
            Configured::Wayland(protocol) => Capturer::Wayland(protocol),
            Configured::Pipewire(protocol) => Capturer::Pipewire(protocol),
            Configured::Off => Capturer::Off(none::Capturer {  }),
        },
{
    match capturer {
        Configured::Auto => Capturer::Auto,
        Configured::Wayland(protocol) => Capturer::Wayland(protocol),
        Configured::Pipewire(protocol) => Capturer::Pipewire(protocol),
        Configured::Off => Capturer::Off(none::Capturer::default()),
    }
}

/// What is next for a capturer.
#[derive(Clone, Copy, Debug, PartialEq, Eq, Structural)]
pub enum Step {
    /// Ask the compositor whether it has a protocol for frames.
    AskWayland,
    /// Ask for a stream.
    PreparePipewire,
    /// Take frames by a protocol of the compositor.
    RunWayland(WaylandProtocol),
    /// Take frames from a stream. Whether it is prepared depends on how it was chosen.
    RunPipewire { protocol: PipewireProtocol, prepared: bool },
    /// Do without frames.
    RunNone,
}

/// What came of it.
#[derive(Clone, Copy, Debug, PartialEq, Eq, Structural)]
pub enum Outcome {
    Available,
    Unavailable,
    Failed,
}

/// What is first for a capturer. Only the automatic one has to find out what there is.
pub open spec fn started(c: Capturer) -> Step {
    match c {
        Capturer::Auto => Step::AskWayland,
        Capturer::Off(_) => Step::RunNone,
        Capturer::Pipewire(protocol) => Step::RunPipewire { protocol, prepared: false },
        Capturer::Wayland(protocol) => Step::RunWayland(protocol),
    }
}

/// What is next for the automatic capturer: protocols of the compositor are tried first, then
/// streams, and without either there are no frames.
pub open spec fn continued(step: Step, outcome: Outcome) -> Step {
    match step {
        Step::AskWayland => if outcome is Available {
            Step::RunWayland(WaylandProtocol::Any)
        } else {
            Step::PreparePipewire
        },
        Step::PreparePipewire => if outcome is Available {
            Step::RunPipewire { protocol: PipewireProtocol::Any, prepared: true }
        } else {
            Step::RunNone
        },
        _ => step,
    }
}

impl Capturer {
    /// What is first for the capturer.
    pub fn start(&self) -> (r: Step)
        ensures
            r == started(*self),
    {
        match self {
            Capturer::Auto => Step::AskWayland,
            Capturer::Off(_) => Step::RunNone,
            Capturer::Pipewire(protocol) => Step::RunPipewire {
                protocol: *protocol,
                prepared: false,
            },
            Capturer::Wayland(protocol) => Step::RunWayland(*protocol),
        }
    }
}

/// What is next for the automatic capturer.
pub fn proceed(step: Step, outcome: Outcome) -> (r: Step)
    ensures
        r == continued(step, outcome),
{
    match step {
        Step::AskWayland => match outcome {
            Outcome::Available => Step::RunWayland(WaylandProtocol::Any),
            _ => Step::PreparePipewire,
        },
        Step::PreparePipewire => match outcome {
            Outcome::Available => Step::RunPipewire {
                protocol: PipewireProtocol::Any,
                prepared: true,
            },
            _ => Step::RunNone,
        },
        _ => step,
    }
}

/// The capturer that is shown in the status, once it is known.
pub open spec fn shown(step: Step) -> Option<Seq<char>> {
    match step {
        Step::RunWayland(_) => Some("wayland"@),
        Step::RunPipewire { protocol, prepared } => Some("pipewire"@),
        Step::RunNone => Some("none"@),
        _ => None,
    }
}

/// The capturer that is shown in the status, once it is known.
pub fn status_name(step: Step) -> (r: Option<&'static str>)
    ensures
        r is Some <==> shown(step) is Some,
        r matches Some(name) ==> shown(step) == Some(name@),
{
    match step {
        Step::RunWayland(_) => Some("wayland"),
        Step::RunPipewire { .. } => Some("pipewire"),
        Step::RunNone => Some("none"),
        _ => None,
    }
}

/// After at most two answers it is known where frames come from, and whatever the answers are,
/// brightness is adjusted by something.
pub proof fn capturer_is_always_found(c: Capturer, first: Outcome, second: Outcome)
    ensures
        shown(continued(continued(started(c), first), second)) is Some,
{
}

/// A protocol of the compositor is preferred to a stream, and a stream to doing without frames.
pub proof fn wayland_is_preferred(first: Outcome, second: Outcome)
    ensures
        ({
            let found = continued(continued(started(Capturer::Auto), first), second);
            &&& found is RunWayland <==> first is Available
            &&& found is RunPipewire <==> first !is Available && second is Available
            &&& found is RunNone <==> first !is Available && second !is Available
        }),
{
}

/// A source that is configured is the one that is used, whatever is answered, and nothing is prepared
/// for it beforehand. The automatic choice leaves it open which protocol it is.
pub proof fn configured_source_is_used(
    wayland: WaylandProtocol,
    stream: PipewireProtocol,
    off: none::Capturer,
    first: Outcome,
    second: Outcome,
)
    ensures
        continued(continued(started(Capturer::Wayland(wayland)), first), second)
            == Step::RunWayland(wayland),
        continued(continued(started(Capturer::Pipewire(stream)), first), second)
            == (Step::RunPipewire { protocol: stream, prepared: false }),
        continued(continued(started(Capturer::Off(off)), first), second) is RunNone,
        ({
            let found = continued(continued(started(Capturer::Auto), first), second);
            &&& found matches Step::RunWayland(protocol) ==> protocol is Any
            &&& found matches Step::RunPipewire { protocol, prepared } ==> protocol is Any
                && prepared
        }),
{
}

/// Frames are asked for only until it is known where they come from.
pub proof fn known_source_stays(step: Step, outcome: Outcome)
    ensures
        shown(step) is Some ==> continued(step, outcome) == step,
        step is RunWayland ==> shown(step) == Some("wayland"@),
        step is RunPipewire ==> shown(step) == Some("pipewire"@),
        step is RunNone ==> shown(step) == Some("none"@),
        step is AskWayland || step is PreparePipewire ==> shown(step) is None,
{
}

} // verus!
