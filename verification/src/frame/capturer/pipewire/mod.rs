//! Frames from streams.

pub mod kwin;
pub mod mutter;
pub mod portal;

use crate::config::app::PipewireProtocol;
use crate::frame::format::{XBGR8888, XRGB8888};
use crate::frame::modifiers::{common_modifiers, common_of};
use crate::frame::object::Object;
use vstd::prelude::*;

verus! {

/// How many frames are taken per second at most.
pub const FRAME_RATE: u32 = 10;

/// How far apart frames are at least, in nanoseconds.
pub const FRAME_INTERVAL: u128 = 100_000_000;

/// A video format that a stream may have.
#[derive(Clone, Copy, Debug, PartialEq, Eq, Structural)]
pub enum VideoFormat {
    Bgrx,
    Rgbx,
    Other,
}

/// The pixel format of a video format. Video formats name colours in the order of bytes, pixel formats
/// in that of a number.
pub fn drm_format(format: VideoFormat) -> (r: Option<u32>)
    ensures
        r == match format {
            VideoFormat::Bgrx => Some(XRGB8888),
            VideoFormat::Rgbx => Some(XBGR8888),
            VideoFormat::Other => None,
        },
{
    match format {
        VideoFormat::Bgrx => Some(XRGB8888),
        VideoFormat::Rgbx => Some(XBGR8888),
        VideoFormat::Other => None,
    }
}

/// The modifiers that are offered to a stream: those that can be imported with either of the two video
/// formats. Without any there is no stream.
pub fn offered_modifiers(bgrx: &Vec<u64>, rgbx: &Vec<u64>) -> (r: Option<Vec<u64>>)
    ensures
        r is Some <==> common_of(bgrx@, rgbx@).len() > 0,
        r matches Some(modifiers) ==> modifiers@ == common_of(bgrx@, rgbx@),
{
    let modifiers = common_modifiers(bgrx, rgbx);
    if modifiers.len() == 0 {
        None
    } else {
        Some(modifiers)
    }
}

/// The state of a stream.
#[derive(Clone, Copy, Debug, PartialEq, Eq, Structural)]
pub enum StreamState {
    Error,
    Unconnected,
    Other,
}

/// Whether a stream is over: it has failed, or it was connected and is not any more.
pub fn is_over(before: StreamState, after: StreamState) -> (r: bool)
    ensures
        r == (after is Error || (after is Unconnected && before !is Unconnected)),
{
    match after {
        StreamState::Error => true,
        StreamState::Unconnected => match before {
            StreamState::Unconnected => false,
            _ => true,
        },
        StreamState::Other => false,
    }
}

/// Whether a buffer holds a frame in a single plane of shared memory. No other buffers are asked for.
pub fn is_single_plane(planes: usize, is_dma_buf: bool) -> (r: bool)
    ensures
        r == (planes == 1 && is_dma_buf),
{
    planes == 1 && is_dma_buf
}

/// The stride of a frame, where it is one.
pub fn stride_of(stride: i32) -> (r: Option<u32>)
    ensures
        r is Some <==> stride > 0,
        r matches Some(s) ==> s == stride,
{
    if stride > 0 {
        Some(stride as u32)
    } else {
        None
    }
}

/// Which frames are processed.
#[derive(Clone, Copy, Debug, PartialEq, Eq, Structural)]
pub struct Pace {
    pub last_frame_at: Option<u128>,
}

/// A frame comes long enough after the last one.
pub open spec fn is_due(p: Pace, now: u128) -> bool {
    match p.last_frame_at {
        Some(last) => now - last >= FRAME_INTERVAL,
        None => true,
    }
}

impl Pace {
    pub fn new() -> (r: Pace)
        ensures
            r.last_frame_at is None,
    {
        Pace { last_frame_at: None }
    }

    /// Whether a frame is to be processed: it holds something, it is whole, and it comes long enough
    /// after the last one.
    pub fn accept(&mut self, size: u32, corrupted: bool, now: u128) -> (r: bool)
        ensures
            r == (size > 0 && !corrupted && is_due(*old(self), now)),
            *final(self) == if r {
                Pace { last_frame_at: Some(now) }
            } else {
                *old(self)
            },
    {
        if size == 0 || corrupted {
            return false;
        }
        if let Some(last) = self.last_frame_at {
            if now < last || now - last < FRAME_INTERVAL {
                return false;
            }
        }
        self.last_frame_at = Some(now);
        true
    }
}

/// What was agreed upon with a stream.
#[derive(Clone, Copy, Debug, PartialEq, Eq, Structural)]
pub struct Negotiated {
    pub format: VideoFormat,
    pub width: u32,
    pub height: u32,
    pub modifier: u64,
}

/// What a stream hands out.
#[derive(Clone, Copy, Debug, PartialEq, Eq, Structural)]
pub struct Buffer {
    pub planes: usize,
    pub is_dma_buf: bool,
    /// How many bytes of the buffer are used.
    pub size: u32,
    pub corrupted: bool,
    pub offset: u32,
    pub stride: i32,
    pub fd: i32,
    /// How many bytes the buffer has.
    pub capacity: u32,
}

/// Why a buffer is not what was agreed upon.
#[derive(Clone, Copy, Debug, PartialEq, Eq, Structural)]
pub enum BufferFault {
    NotSinglePlane,
    InvalidStride,
    InvalidDescriptor,
    UnsupportedFormat,
}

impl BufferFault {
    /// What is said of such a buffer.
    pub open spec fn spec_message(self) -> Seq<char> {
        match self {
            BufferFault::NotSinglePlane => "PipeWire compositor did not provide a single-plane DMA-BUF"@,
            BufferFault::InvalidStride => "PipeWire DMA-BUF has an invalid stride"@,
            BufferFault::InvalidDescriptor => "PipeWire DMA-BUF has an invalid file descriptor"@,
            BufferFault::UnsupportedFormat => "PipeWire negotiated an unsupported video format"@,
        }
    }

    pub fn message(&self) -> (r: &'static str)
        ensures
            r@ == self.spec_message(),
            self is NotSinglePlane ==> r@
                == "PipeWire compositor did not provide a single-plane DMA-BUF"@,
            self is InvalidStride ==> r@ == "PipeWire DMA-BUF has an invalid stride"@,
            self is InvalidDescriptor ==> r@ == "PipeWire DMA-BUF has an invalid file descriptor"@,
            self is UnsupportedFormat ==> r@ == "PipeWire negotiated an unsupported video format"@,
    {
        match self {
            BufferFault::NotSinglePlane => "PipeWire compositor did not provide a single-plane DMA-BUF",
            BufferFault::InvalidStride => "PipeWire DMA-BUF has an invalid stride",
            BufferFault::InvalidDescriptor => "PipeWire DMA-BUF has an invalid file descriptor",
            BufferFault::UnsupportedFormat => "PipeWire negotiated an unsupported video format",
        }
    }
}

/// What is done with a buffer.
#[derive(Debug)]
pub enum FrameStep {
    /// It is left alone.
    Skip,
    /// It holds a frame to be processed.
    Process(Object),
    /// It is not what was agreed upon.
    Fault(BufferFault),
}

/// What is wrong with a buffer whose frame is due.
pub open spec fn fault_of(n: Negotiated, b: Buffer) -> Option<BufferFault> {
    if b.stride <= 0 {
        Some(BufferFault::InvalidStride)
    } else if b.fd < 0 {
        Some(BufferFault::InvalidDescriptor)
    } else if n.format is Other {
        Some(BufferFault::UnsupportedFormat)
    } else {
        None
    }
}

/// The frame that a buffer holds.
pub open spec fn is_frame_of(o: Object, n: Negotiated, b: Buffer) -> bool {
    &&& o.wf()
    &&& o.width == n.width
    &&& o.height == n.height
    &&& o.num_objects == 1
    &&& o.format == if n.format is Bgrx {
        XRGB8888
    } else {
        XBGR8888
    }
    &&& o.layout == Some((n.modifier, b.offset, b.stride as u32))
    &&& o.fds@ == seq![Some(b.fd)]
    &&& o.sizes@ == seq![b.capacity]
}

impl Pace {
    /// What is done with a buffer. Frames that are empty or broken, or that come too early, are left alone.
    pub fn process(&mut self, n: &Negotiated, b: &Buffer, now: u128) -> (r: FrameStep)
        ensures
            if b.planes != 1 || !b.is_dma_buf {
                r == FrameStep::Fault(BufferFault::NotSinglePlane) && *final(self) == *old(self)
            } else if b.size == 0 || b.corrupted || !is_due(*old(self), now) {
                r is Skip && *final(self) == *old(self)
            } else {
                &&& *final(self) == (Pace { last_frame_at: Some(now) })
                &&& match fault_of(*n, *b) {
                    Some(fault) => r == FrameStep::Fault(fault),
                    None => r matches FrameStep::Process(o) && is_frame_of(o, *n, *b),
                }
            },
            r matches FrameStep::Process(o) ==> {
                &&& b.planes == 1 && b.is_dma_buf && b.size > 0 && !b.corrupted
                &&& b.stride > 0 && b.fd >= 0 && n.format !is Other
                &&& o.wf()
                &&& o.width == n.width
                &&& o.height == n.height
                &&& n.format is Bgrx ==> o.format == XRGB8888
                &&& n.format is Rgbx ==> o.format == XBGR8888
                &&& o.layout == Some((n.modifier, b.offset, b.stride as u32))
                &&& o.fds@ == seq![Some(b.fd)]
                &&& o.sizes@ == seq![b.capacity]
                &&& old(self).last_frame_at matches Some(last) ==> now >= last + 100_000_000
            },
            r is Skip ==> b.size == 0 || b.corrupted || (old(self).last_frame_at matches Some(last)
                && now < last + 100_000_000),
    {
        if !is_single_plane(b.planes, b.is_dma_buf) {
            return FrameStep::Fault(BufferFault::NotSinglePlane);
        }
        if !self.accept(b.size, b.corrupted, now) {
            return FrameStep::Skip;
        }
        let stride = match stride_of(b.stride) {
            Some(stride) => stride,
            None => {
                return FrameStep::Fault(BufferFault::InvalidStride);
            },
        };
        if b.fd < 0 {
            return FrameStep::Fault(BufferFault::InvalidDescriptor);
        }
        match drm_format(n.format) {
            Some(format) => {
                let mut object = Object::new(n.width, n.height, 1, format);
                object.layout = Some((n.modifier, b.offset, stride));
                object.set_object(0, b.fd, b.capacity);
                assert(object.fds@ =~= seq![Some(b.fd)]);
                assert(object.sizes@ =~= seq![b.capacity]);
                FrameStep::Process(object)
            },
            None => FrameStep::Fault(BufferFault::UnsupportedFormat),
        }
    }
}

/// Between two frames that are processed lies at least the interval, however many arrive.
pub proof fn frames_are_spaced(p: Pace, now: u128, later: u128)
    requires
        p.last_frame_at == Some(now),
        is_due(p, later),
    ensures
        later >= now + FRAME_INTERVAL,
{
}

/// What is next to find a stream for an output.
#[derive(Clone, Copy, Debug, PartialEq, Eq, Structural)]
pub enum Search {
    /// Ask the compositor for a stream.
    Kwin,
    /// Ask the compositor which connector the output is on.
    Connector,
    /// Ask the desktop for a stream of a connector. Where the connector is not known, the name of the
    /// output takes its place.
    Mutter { connector_known: bool },
    /// Ask the portal.
    Portal,
    Found,
    Failed,
}

/// What came of it.
#[derive(Clone, Copy, Debug, PartialEq, Eq, Structural)]
pub enum Answer {
    /// There is a stream.
    Stream,
    /// There is no stream, but the connector is known or not.
    NoStream { connector_known: bool },
    Failed,
}

/// Where the search for a stream begins.
pub open spec fn search_of(protocol: PipewireProtocol) -> Search {
    match protocol {
        PipewireProtocol::Any => Search::Kwin,
        PipewireProtocol::Kwin => Search::Kwin,
        PipewireProtocol::Mutter => Search::Connector,
        PipewireProtocol::Portal => Search::Portal,
    }
}

/// Where the search for a stream goes on. Only where any source will do, another one is tried.
pub open spec fn searched(protocol: PipewireProtocol, search: Search, answer: Answer) -> Search {
    match search {
        Search::Kwin => match answer {
            Answer::Stream => Search::Found,
            Answer::NoStream { connector_known } => if protocol is Any {
                Search::Mutter { connector_known }
            } else {
                Search::Failed
            },
            Answer::Failed => if protocol is Any {
                Search::Mutter { connector_known: false }
            } else {
                Search::Failed
            },
        },
        Search::Connector => match answer {
            Answer::NoStream { connector_known: true } => Search::Mutter { connector_known: true },
            _ => Search::Failed,
        },
        Search::Mutter { connector_known } => match answer {
            Answer::Stream => Search::Found,
            _ => if protocol is Any {
                Search::Portal
            } else {
                Search::Failed
            },
        },
        Search::Portal => match answer {
            Answer::Stream => Search::Found,
            _ => Search::Failed,
        },
        Search::Found => Search::Found,
        Search::Failed => Search::Failed,
    }
}

/// Where the search for a stream begins.
pub fn prepare(protocol: PipewireProtocol) -> (r: Search)
    ensures
        r == search_of(protocol),
{
    match protocol {
        PipewireProtocol::Any => Search::Kwin,
        PipewireProtocol::Kwin => Search::Kwin,
        PipewireProtocol::Mutter => Search::Connector,
        PipewireProtocol::Portal => Search::Portal,
    }
}

/// Where the search for a stream goes on.
pub fn go_on(protocol: PipewireProtocol, search: Search, answer: Answer) -> (r: Search)
    ensures
        r == searched(protocol, search, answer),
{
    let any = match protocol {
        PipewireProtocol::Any => true,
        _ => false,
    };
    match search {
        Search::Kwin => match answer {
            Answer::Stream => Search::Found,
            Answer::NoStream { connector_known } => if any {
                Search::Mutter { connector_known }
            } else {
                Search::Failed
            },
            Answer::Failed => if any {
                Search::Mutter { connector_known: false }
            } else {
                Search::Failed
            },
        },
        Search::Connector => match answer {
            Answer::NoStream { connector_known: true } => Search::Mutter { connector_known: true },
            _ => Search::Failed,
        },
        Search::Mutter { .. } => match answer {
            Answer::Stream => Search::Found,
            _ => if any {
                Search::Portal
            } else {
                Search::Failed
            },
        },
        Search::Portal => match answer {
            Answer::Stream => Search::Found,
            _ => Search::Failed,
        },
        Search::Found => Search::Found,
        Search::Failed => Search::Failed,
    }
}

/// How many answers may still be needed.
pub open spec fn answers_left(search: Search) -> nat {
    match search {
        Search::Kwin => 3,
        Search::Connector => 3,
        Search::Mutter { connector_known } => 2,
        Search::Portal => 1,
        Search::Found => 0,
        Search::Failed => 0,
    }
}

/// The search for a stream comes to an end.
pub proof fn search_comes_to_an_end(protocol: PipewireProtocol, search: Search, answer: Answer)
    requires
        search !is Found,
        search !is Failed,
    ensures
        answers_left(searched(protocol, search, answer)) < answers_left(search),
{
}

/// Where any source will do, none is given up before all have been asked: the search fails only after
/// the portal has refused.
pub proof fn automatic_search_is_thorough(search: Search, answer: Answer)
    requires
        search is Kwin || search is Mutter || search is Portal,
        searched(PipewireProtocol::Any, search, answer) is Failed,
    ensures
        search is Portal,
        answer !is Stream,
{
}

/// A frame is due exactly when it is the first one or a tenth of a second has passed since the last.
pub proof fn frame_is_due_after_a_tenth_of_a_second(p: Pace, now: u128)
    ensures
        p.last_frame_at is None ==> is_due(p, now),
        p.last_frame_at matches Some(last) ==> (is_due(p, now) <==> now >= last + 100_000_000),
{
}

/// A buffer is what was agreed upon exactly when it has a stride, a descriptor and a known format; of
/// several faults, the stride is told first and the format last.
pub proof fn buffer_fault_is_told(n: Negotiated, b: Buffer)
    ensures
        fault_of(n, b) is None <==> b.stride > 0 && b.fd >= 0 && (n.format is Bgrx || n.format is Rgbx),
        fault_of(n, b) == Some(BufferFault::InvalidStride) <==> b.stride <= 0,
        fault_of(n, b) == Some(BufferFault::InvalidDescriptor) <==> b.stride > 0 && b.fd < 0,
        fault_of(n, b) == Some(BufferFault::UnsupportedFormat) <==> b.stride > 0 && b.fd >= 0
            && n.format is Other,
{
}

/// A stream that is offered is taken, and the search is over then. Only the question for the connector
/// is no question for a stream.
pub proof fn offered_stream_is_taken(protocol: PipewireProtocol, search: Search)
    requires
        search is Kwin || search is Mutter || search is Portal,
    ensures
        searched(protocol, search, Answer::Stream) is Found,
        forall|answer: Answer|
            #[trigger] searched(protocol, search, answer) is Found ==> answer is Stream,
{
}

/// A source that is named is the only one that is asked: the search begins there and fails where it
/// has no stream.
pub proof fn named_source_is_asked_alone(protocol: PipewireProtocol, answer: Answer)
    requires
        protocol !is Any,
        answer !is Stream,
    ensures
        protocol is Kwin ==> search_of(protocol) is Kwin && searched(protocol, Search::Kwin, answer)
            is Failed,
        protocol is Portal ==> search_of(protocol) is Portal && searched(
            protocol,
            Search::Portal,
            answer,
        ) is Failed,
        protocol is Mutter ==> search_of(protocol) is Connector,
        searched(protocol, Search::Connector, answer) == if answer == (Answer::NoStream {
            connector_known: true,
        }) {
            Search::Mutter { connector_known: true }
        } else {
            Search::Failed
        },
        forall|known: bool|
            (#[trigger] searched(protocol, Search::Mutter { connector_known: known }, answer))
                is Failed,
{
}

/// Where any source will do, the compositor is asked first, then the desktop, and the portal last. What
/// the compositor has told of the connector is kept.
pub proof fn sources_are_asked_in_order(answer: Answer, known: bool)
    requires
        answer !is Stream,
    ensures
        search_of(PipewireProtocol::Any) is Kwin,
        searched(PipewireProtocol::Any, Search::Kwin, Answer::NoStream { connector_known: known })
            == (Search::Mutter { connector_known: known }),
        searched(PipewireProtocol::Any, Search::Kwin, Answer::Failed) == (Search::Mutter {
            connector_known: false,
        }),
        searched(PipewireProtocol::Any, Search::Mutter { connector_known: known }, answer)
            is Portal,
        searched(PipewireProtocol::Any, Search::Portal, answer) is Failed,
{
}

} // verus!
