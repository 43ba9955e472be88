//! The configuration that the daemon runs with.

use crate::als::Scale;
use crate::maps::levels::Levels;
use crate::predictor::AlsDirection;
use crate::text::chars::same;
use vstd::prelude::*;

verus! {

/// A protocol by which a compositor hands out frames.
#[derive(Debug, Clone, Copy, PartialEq, Eq, Structural)]
pub enum WaylandProtocol {
    Any,
    ExtImageCopyCaptureV1,
    WlrScreencopyUnstableV1,
    WlrExportDmabufUnstableV1,
}

impl WaylandProtocol {
    /// The name of the protocol.
    pub open spec fn spec_name(self) -> Seq<char> {
        match self {
            WaylandProtocol::Any => "any"@,
            WaylandProtocol::ExtImageCopyCaptureV1 => "ext-image-copy-capture-v1"@,
            WaylandProtocol::WlrScreencopyUnstableV1 => "wlr-screencopy-unstable-v1"@,
            WaylandProtocol::WlrExportDmabufUnstableV1 => "wlr-export-dmabuf-unstable-v1"@,
        }
    }

    pub fn name(&self) -> (r: &'static str)
        ensures
            r@ == self.spec_name(),
            self is Any ==> r@ == "any"@,
            self is ExtImageCopyCaptureV1 ==> r@ == "ext-image-copy-capture-v1"@,
            self is WlrScreencopyUnstableV1 ==> r@ == "wlr-screencopy-unstable-v1"@,
            self is WlrExportDmabufUnstableV1 ==> r@ == "wlr-export-dmabuf-unstable-v1"@,
    {
        match self {
            WaylandProtocol::Any => "any",
            WaylandProtocol::ExtImageCopyCaptureV1 => "ext-image-copy-capture-v1",
            WaylandProtocol::WlrScreencopyUnstableV1 => "wlr-screencopy-unstable-v1",
            WaylandProtocol::WlrExportDmabufUnstableV1 => "wlr-export-dmabuf-unstable-v1",
        }
    }
}

/// Who provides a PipeWire stream.
#[derive(Debug, Clone, Copy, PartialEq, Eq, Structural)]
pub enum PipewireProtocol {
    Any,
    Portal,
    Kwin,
    Mutter,
}

/// Where screen contents come from.
#[derive(Debug, Clone, Copy, PartialEq, Eq, Structural)]
pub enum Capturer {
    Auto,
    Wayland(WaylandProtocol),
    Pipewire(PipewireProtocol),
    /// Screen contents are ignored.
    Off,
}

/// Where ambient light comes from.
#[allow(inconsistent_fields)]
#[derive(Debug)]
pub enum Als {
    Auto { thresholds: Levels<String> },
    External { path: String, scale: Scale, thresholds: Levels<String> },
    Iio { path: Option<String>, thresholds: Levels<String> },
    Time { levels: Levels<u64>, thresholds: Levels<String> },
    Webcam { video: usize, thresholds: Levels<String> },
    /// Ambient light is ignored.
    Off,
}

impl Als {
    /// The names of the light levels, by where each level begins.
    pub open spec fn thresholds(self) -> Map<u64, String> {
        match self {
            Als::Auto { thresholds } => thresholds@,
            Als::External { thresholds, .. } => thresholds@,
            Als::Iio { thresholds, .. } => thresholds@,
            Als::Time { thresholds, .. } => thresholds@,
            Als::Webcam { thresholds, .. } => thresholds@,
            Als::Off => Map::empty(),
        }
    }

    pub open spec fn wf(self) -> bool {
        match self {
            Als::Auto { thresholds } => thresholds.wf(),
            Als::External { thresholds, .. } => thresholds.wf(),
            Als::Iio { thresholds, .. } => thresholds.wf(),
            Als::Time { levels, thresholds } => levels.wf() && thresholds.wf(),
            Als::Webcam { thresholds, .. } => thresholds.wf(),
            Als::Off => true,
        }
    }
}

/// The name of the kind of a source of ambient light.
pub open spec fn als_name(als: Als) -> Seq<char> {
    match als {
        Als::Auto { .. } => "auto"@,
        Als::External { .. } => "external"@,
        Als::Iio { .. } => "iio"@,
        Als::Time { .. } => "time"@,
        Als::Webcam { .. } => "webcam"@,
        Als::Off => "none"@,
    }
}

/// How the numbers of a source of ambient light are to be read.
pub open spec fn als_scale(als: Als) -> Scale {
    match als {
        Als::Auto { .. } => Scale::Lux,
        Als::Iio { .. } => Scale::Lux,
        Als::External { scale, .. } => scale,
        Als::Time { .. } => Scale::Linear,
        Als::Webcam { .. } => Scale::Linear,
        Als::Off => Scale::Linear,
    }
}

impl Als {
    /// The name of the kind of the source.
    pub fn kind(&self) -> (r: &'static str)
        ensures
            r@ == als_name(*self),
            self is Auto ==> r@ == "auto"@,
            self is External ==> r@ == "external"@,
            self is Iio ==> r@ == "iio"@,
            self is Time ==> r@ == "time"@,
            self is Webcam ==> r@ == "webcam"@,
            self is Off ==> r@ == "none"@,
    {
        match self {
            Als::Auto { .. } => "auto",
            Als::External { .. } => "external",
            Als::Iio { .. } => "iio",
            Als::Time { .. } => "time",
            Als::Webcam { .. } => "webcam",
            Als::Off => "none",
        }
    }

    /// How the numbers of the source are to be read.
    pub fn scale(&self) -> (r: Scale)
        ensures
            r == als_scale(*self),
            self is Auto || self is Iio ==> r is Lux,
            self is Time || self is Webcam || self is Off ==> r is Linear,
            self matches Als::External { scale, .. } ==> r == scale,
    {
        match self {
            Als::Auto { .. } => Scale::Lux,
            Als::Iio { .. } => Scale::Lux,
            Als::External { scale, .. } => *scale,
            Als::Time { .. } => Scale::Linear,
            Als::Webcam { .. } => Scale::Linear,
            Als::Off => Scale::Linear,
        }
    }

    /// The names of the light levels, and the levels of the hours where the source has them.
    pub fn into_levels(self) -> (r: (Levels<String>, Option<Levels<u64>>))
        requires
            self.wf(),
        ensures
            r.0.wf(),
            r.0@ == self.thresholds(),
            match self {
                Als::Auto { thresholds } => r.0 == thresholds,
                Als::External { thresholds, .. } => r.0 == thresholds,
                Als::Iio { thresholds, .. } => r.0 == thresholds,
                Als::Time { thresholds, .. } => r.0 == thresholds,
                Als::Webcam { thresholds, .. } => r.0 == thresholds,
                Als::Off => r.0.entries@.len() == 0,
            },
            r.1 == match self {
                Als::Time { levels, .. } => Some(levels),
                _ => None,
            },
    {
        match self {
            Als::Auto { thresholds } => (thresholds, None),
            Als::External { thresholds, .. } => (thresholds, None),
            Als::Iio { thresholds, .. } => (thresholds, None),
            Als::Time { levels, thresholds } => (thresholds, Some(levels)),
            Als::Webcam { thresholds, .. } => (thresholds, None),
            Als::Off => (Levels::new(), None),
        }
    }
}

/// What to do when the user is idle, on one source of power.
#[derive(Debug, Clone, Copy, PartialEq, Eq, Structural)]
pub struct IdleProfile {
    pub enabled: bool,
    /// After how many seconds the user counts as idle.
    pub timeout: u64,
    /// To which percentage brightness is reduced then.
    pub brightness: u8,
}

/// What to do when the user is idle.
#[derive(Debug, Clone, Copy, PartialEq, Eq, Structural)]
pub struct Idle {
    pub ac: IdleProfile,
    pub battery: IdleProfile,
}

/// By how much brightness is to be reduced, in percent, at a level of ambient
/// light and a lightness of the screen.
#[derive(Debug, Clone, Copy, PartialEq, Eq, Structural)]
pub struct ManualPoint {
    pub als: u64,
    pub luma: u8,
    pub reduction: u64,
}

/// How brightness is predicted.
#[derive(Debug)]
pub enum Predictor {
    Adaptive,
    Manual { points: Vec<ManualPoint> },
}

impl View for Predictor {
    type V = Option<Seq<ManualPoint>>;

    open spec fn view(&self) -> Option<Seq<ManualPoint>> {
        match self {
            Predictor::Adaptive => None,
            Predictor::Manual { points } => Some(points@),
        }
    }
}

impl Clone for Predictor {
    fn clone(&self) -> (r: Predictor)
        ensures
            r@ == self@,
    {
        match self {
            Predictor::Adaptive => Predictor::Adaptive,
            Predictor::Manual { points } => {
                let mut copied: Vec<ManualPoint> = Vec::new();
                for i in 0..points.len()
                    invariant
                        copied@ == points@.take(i as int),
                {
                    copied.push(points[i]);
                    assert(points@.take(i + 1) =~= points@.take(i as int).push(points@[i as int]));
                }
                assert(points@.take(points@.len() as int) =~= points@);
                Predictor::Manual { points: copied }
            },
        }
    }
}

impl Predictor {
    /// Whether the two predict alike.
    pub fn same(&self, other: &Predictor) -> (r: bool)
        ensures
            r == (self@ == other@),
    {
        match (self, other) {
            (Predictor::Adaptive, Predictor::Adaptive) => true,
            (Predictor::Manual { points: left }, Predictor::Manual { points: right }) => {
                if left.len() != right.len() {
                    return false;
                }
                for i in 0..left.len()
                    invariant
                        left@.len() == right@.len(),
                        left@.take(i as int) =~= right@.take(i as int),
                        self@ == Some(left@),
                        other@ == Some(right@),
                {
                    if left[i] != right[i] {
                        return false;
                    }
                    assert(left@.take(i + 1) =~= left@.take(i as int).push(left@[i as int]));
                    assert(right@.take(i + 1) =~= right@.take(i as int).push(right@[i as int]));
                }
                assert(left@.take(left@.len() as int) =~= left@);
                assert(right@.take(right@.len() as int) =~= right@);
                true
            },
            _ => false,
        }
    }
}

/// What std writes of a string for debugging: the string in quotes, with what
/// is not plain text escaped.
pub uninterp spec fn quoted(s: Seq<char>) -> Seq<char>;

/// `<str as std::fmt::Debug>::fmt`, through `format!`. Which characters it
/// escapes, and how, is left to the name `quoted`.
#[verifier::external_body]
fn quote(s: &str) -> (r: String)
    ensures
        r@ == quoted(s@),
{
    format!("{:?}", s)
}

/// The device on which frames are processed.
#[derive(Debug)]
pub enum VulkanDevice {
    /// The device that the frames come from, or the best one.
    Auto,
    /// The device with this path.
    Path(String),
}

impl View for VulkanDevice {
    type V = Option<Seq<char>>;

    open spec fn view(&self) -> Option<Seq<char>> {
        match self {
            VulkanDevice::Auto => None,
            VulkanDevice::Path(path) => Some(path@),
        }
    }
}

impl Default for VulkanDevice {
    fn default() -> (r: VulkanDevice)
        ensures
            r == VulkanDevice::Auto,
    {
        VulkanDevice::Auto
    }
}

impl Clone for VulkanDevice {
    fn clone(&self) -> (r: VulkanDevice)
        ensures
            r@ == self@,
    {
        match self {
            VulkanDevice::Auto => VulkanDevice::Auto,
            VulkanDevice::Path(path) => VulkanDevice::Path(path.clone()),
        }
    }
}

impl From<Option<String>> for VulkanDevice {
    fn from(path: Option<String>) -> (r: VulkanDevice) {
        match path {
            Some(path) => VulkanDevice::Path(path),
            None => VulkanDevice::Auto,
        }
    }
}

impl vstd::std_specs::convert::FromSpecImpl<Option<String>> for VulkanDevice {
    open spec fn obeys_from_spec() -> bool {
        true
    }

    open spec fn from_spec(path: Option<String>) -> VulkanDevice {
        match path {
            Some(path) => VulkanDevice::Path(path),
            None => VulkanDevice::Auto,
        }
    }
}

/// What a dump of the configuration says of a device.
pub open spec fn device_text(device: Option<Seq<char>>) -> Seq<char> {
    match device {
        None => "Auto"@,
        Some(path) => quoted(path),
    }
}

impl VulkanDevice {
    /// The path of the device, where there is one.
    pub fn as_deref(&self) -> (r: Option<&str>)
        ensures
            r is Some <==> self@ is Some,
            r matches Some(path) ==> self@ == Some(path@),
    {
        match self {
            VulkanDevice::Auto => None,
            VulkanDevice::Path(path) => Some(path.as_str()),
        }
    }

    /// What a dump of the configuration says of the device: `Auto`, or its
    /// path in quotes.
    pub fn describe(&self) -> (r: String)
        ensures
            r@ == device_text(self@),
            self is Auto ==> r@ == "Auto"@,
            self matches VulkanDevice::Path(path) ==> r@ == quoted(path@),
    {
        match self.as_deref() {
            None => "Auto".to_string(),
            Some(path) => quote(path),
        }
    }

    /// Whether the two are the same device.
    pub fn same(&self, other: &VulkanDevice) -> (r: bool)
        ensures
            r == (self@ == other@),
    {
        match (self, other) {
            (VulkanDevice::Auto, VulkanDevice::Auto) => true,
            (VulkanDevice::Path(left), VulkanDevice::Path(right)) => same(
                left.as_str(),
                right.as_str(),
            ),
            _ => false,
        }
    }
}

/// What a backlight lights.
#[derive(Debug, Clone, Copy, PartialEq, Eq, Structural)]
pub enum BacklightKind {
    Display,
    Keyboard,
}

/// An output whose brightness is set through a backlight device.
#[derive(Debug)]
pub struct BacklightOutput {
    pub name: String,
    pub path: String,
    pub capturer: Capturer,
    pub vulkan_device: VulkanDevice,
    pub min_brightness: u64,
    pub predictor: Predictor,
    pub als_direction: AlsDirection,
    pub kind: BacklightKind,
}

/// An output whose brightness is set over DDC.
#[derive(Debug)]
pub struct DdcUtilOutput {
    pub name: String,
    pub identifier: String,
    pub identifier_overridden: bool,
    pub capturer: Capturer,
    pub vulkan_device: VulkanDevice,
    pub min_brightness: u64,
    pub predictor: Predictor,
}

/// An output whose brightness can be set.
#[derive(Debug)]
pub enum Output {
    Backlight(BacklightOutput),
    DdcUtil(DdcUtilOutput),
}

/// The whole configuration.
#[derive(Debug)]
pub struct Config {
    pub als: Als,
    pub output: Vec<Output>,
}

pub ghost struct BacklightView {
    pub name: Seq<char>,
    pub path: Seq<char>,
    pub capturer: Capturer,
    pub vulkan_device: Option<Seq<char>>,
    pub min_brightness: u64,
    pub predictor: Option<Seq<ManualPoint>>,
    pub als_direction: AlsDirection,
    pub kind: BacklightKind,
}

pub ghost struct DdcUtilView {
    pub name: Seq<char>,
    pub identifier: Seq<char>,
    pub identifier_overridden: bool,
    pub capturer: Capturer,
    pub vulkan_device: Option<Seq<char>>,
    pub min_brightness: u64,
    pub predictor: Option<Seq<ManualPoint>>,
}

pub ghost enum OutputView {
    Backlight(BacklightView),
    DdcUtil(DdcUtilView),
}

impl OutputView {
    pub open spec fn name(self) -> Seq<char> {
        match self {
            OutputView::Backlight(output) => output.name,
            OutputView::DdcUtil(output) => output.name,
        }
    }

    pub open spec fn capturer(self) -> Capturer {
        match self {
            OutputView::Backlight(output) => output.capturer,
            OutputView::DdcUtil(output) => output.capturer,
        }
    }

    pub open spec fn vulkan_device(self) -> Option<Seq<char>> {
        match self {
            OutputView::Backlight(output) => output.vulkan_device,
            OutputView::DdcUtil(output) => output.vulkan_device,
        }
    }

    pub open spec fn predictor(self) -> Option<Seq<ManualPoint>> {
        match self {
            OutputView::Backlight(output) => output.predictor,
            OutputView::DdcUtil(output) => output.predictor,
        }
    }
}

impl View for BacklightOutput {
    type V = BacklightView;

    open spec fn view(&self) -> BacklightView {
        BacklightView {
            name: self.name@,
            path: self.path@,
            capturer: self.capturer,
            vulkan_device: self.vulkan_device@,
            min_brightness: self.min_brightness,
            predictor: self.predictor@,
            als_direction: self.als_direction,
            kind: self.kind,
        }
    }
}

impl View for DdcUtilOutput {
    type V = DdcUtilView;

    open spec fn view(&self) -> DdcUtilView {
        DdcUtilView {
            name: self.name@,
            identifier: self.identifier@,
            identifier_overridden: self.identifier_overridden,
            capturer: self.capturer,
            vulkan_device: self.vulkan_device@,
            min_brightness: self.min_brightness,
            predictor: self.predictor@,
        }
    }
}

impl View for Output {
    type V = OutputView;

    open spec fn view(&self) -> OutputView {
        match self {
            Output::Backlight(output) => OutputView::Backlight(output@),
            Output::DdcUtil(output) => OutputView::DdcUtil(output@),
        }
    }
}

/// What each of several outputs is.
pub open spec fn output_views(outputs: Seq<Output>) -> Seq<OutputView> {
    Seq::new(outputs.len(), |i: int| outputs[i]@)
}

impl Clone for BacklightOutput {
    fn clone(&self) -> (r: BacklightOutput)
        ensures
            r@ == self@,
    {
        BacklightOutput {
            name: self.name.clone(),
            path: self.path.clone(),
            capturer: self.capturer,
            vulkan_device: self.vulkan_device.clone(),
            min_brightness: self.min_brightness,
            predictor: self.predictor.clone(),
            als_direction: self.als_direction,
            kind: self.kind,
        }
    }
}

impl Clone for DdcUtilOutput {
    fn clone(&self) -> (r: DdcUtilOutput)
        ensures
            r@ == self@,
    {
        DdcUtilOutput {
            name: self.name.clone(),
            identifier: self.identifier.clone(),
            identifier_overridden: self.identifier_overridden,
            capturer: self.capturer,
            vulkan_device: self.vulkan_device.clone(),
            min_brightness: self.min_brightness,
            predictor: self.predictor.clone(),
        }
    }
}

impl Clone for Output {
    fn clone(&self) -> (r: Output)
        ensures
            r@ == self@,
    {
        match self {
            Output::Backlight(output) => Output::Backlight(output.clone()),
            Output::DdcUtil(output) => Output::DdcUtil(output.clone()),
        }
    }
}

impl Output {
    /// The name of the output.
    pub fn name(&self) -> (r: &str)
        ensures
            r@ == self@.name(),
            self matches Output::Backlight(output) ==> r@ == output.name@,
            self matches Output::DdcUtil(output) ==> r@ == output.name@,
    {
        match self {
            Output::Backlight(output) => output.name.as_str(),
            Output::DdcUtil(output) => output.name.as_str(),
        }
    }

    /// Whether the two are configured alike in everything.
    pub fn same(&self, other: &Output) -> (r: bool)
        ensures
            r == (self@ == other@),
    {
        match (self, other) {
            (Output::Backlight(left), Output::Backlight(right)) => {
                same(left.name.as_str(), right.name.as_str()) && same(
                    left.path.as_str(),
                    right.path.as_str(),
                ) && left.capturer == right.capturer && left.vulkan_device.same(
                    &right.vulkan_device,
                ) && left.min_brightness == right.min_brightness && left.predictor.same(
                    &right.predictor,
                ) && left.als_direction == right.als_direction && left.kind == right.kind
            },
            (Output::DdcUtil(left), Output::DdcUtil(right)) => {
                same(left.name.as_str(), right.name.as_str()) && same(
                    left.identifier.as_str(),
                    right.identifier.as_str(),
                ) && left.identifier_overridden == right.identifier_overridden && left.capturer
                    == right.capturer && left.vulkan_device.same(&right.vulkan_device)
                    && left.min_brightness == right.min_brightness && left.predictor.same(
                    &right.predictor,
                )
            },
            _ => false,
        }
    }
}

/// An output is told by all that is configured of it: two outputs are alike exactly when all of it is.
pub proof fn outputs_are_told_by_all(o: Output)
    ensures
        match o {
            Output::Backlight(b) => o@ matches OutputView::Backlight(v) && {
                &&& v.name == b.name@
                &&& v.path == b.path@
                &&& v.capturer == b.capturer
                &&& v.vulkan_device is Some <==> b.vulkan_device is Path
                &&& b.vulkan_device matches VulkanDevice::Path(path) ==> v.vulkan_device == Some(
                    path@,
                )
                &&& v.min_brightness == b.min_brightness
                &&& v.predictor is Some <==> b.predictor is Manual
                &&& b.predictor matches Predictor::Manual { points } ==> v.predictor == Some(points@)
                &&& v.als_direction == b.als_direction
                &&& v.kind == b.kind
                &&& o@.name() == b.name@
                &&& o@.capturer() == b.capturer
                &&& o@.vulkan_device() == v.vulkan_device
                &&& o@.predictor() == v.predictor
            },
            Output::DdcUtil(d) => o@ matches OutputView::DdcUtil(v) && {
                &&& v.name == d.name@
                &&& v.identifier == d.identifier@
                &&& v.identifier_overridden == d.identifier_overridden
                &&& v.capturer == d.capturer
                &&& v.vulkan_device is Some <==> d.vulkan_device is Path
                &&& d.vulkan_device matches VulkanDevice::Path(path) ==> v.vulkan_device == Some(
                    path@,
                )
                &&& v.min_brightness == d.min_brightness
                &&& v.predictor is Some <==> d.predictor is Manual
                &&& d.predictor matches Predictor::Manual { points } ==> v.predictor == Some(points@)
                &&& o@.name() == d.name@
                &&& o@.capturer() == d.capturer
                &&& o@.vulkan_device() == v.vulkan_device
                &&& o@.predictor() == v.predictor
            },
        },
{
}

/// Outputs are told one by one, in their order.
pub proof fn outputs_are_told_in_order(outputs: Seq<Output>, i: int)
    requires
        0 <= i < outputs.len(),
    ensures
        output_views(outputs).len() == outputs.len(),
        output_views(outputs)[i] == outputs[i]@,
{
}

/// The names of light levels are those that the source has.
pub proof fn level_names_are_those_of_the_source(als: Als)
    ensures
        match als {
            Als::Auto { thresholds } => als.thresholds() == thresholds@,
            Als::External { thresholds, .. } => als.thresholds() == thresholds@,
            Als::Iio { thresholds, .. } => als.thresholds() == thresholds@,
            Als::Time { thresholds, .. } => als.thresholds() == thresholds@,
            Als::Webcam { thresholds, .. } => als.thresholds() == thresholds@,
            Als::Off => als.thresholds() == Map::<u64, String>::empty(),
        },
{
}

} // verus!
