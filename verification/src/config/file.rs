//! The configuration as its file has it. A table is the list of its pairs.

use vstd::prelude::*;

verus! {

#[derive(Debug, Clone, Copy, PartialEq, Eq, Structural)]
pub enum Capturer {
    Auto,
    Wlroots,
    Wayland,
    WlrExportDmabufUnstableV1,
    WlrScreencopyUnstableV1,
    ExtImageCopyCaptureV1,
    Pipewire,
    XdgDesktopPortalScreencast,
    ZkdeScreencastUnstableV1,
    GnomeMutterScreencast,
    Off,
}

impl Default for Capturer {
    fn default() -> (r: Capturer)
        ensures
            r == Capturer::Auto,
    {
        Capturer::Auto
    }
}

#[derive(Debug, Clone, Copy, PartialEq, Eq, Structural)]
pub enum AlsScale {
    Lux,
    Linear,
}

impl Default for AlsScale {
    fn default() -> (r: AlsScale)
        ensures
            r == AlsScale::Lux,
    {
        AlsScale::Lux
    }
}

#[derive(Debug)]
pub enum Als {
    External { path: Option<String>, scale: AlsScale },
    Iio { path: Option<String>, thresholds: Option<Vec<(String, String)>> },
    Time { levels: Option<Vec<(String, u64)>>, thresholds: Option<Vec<(String, String)>> },
    Webcam { video: usize, thresholds: Option<Vec<(String, String)>> },
    Off,
}

#[derive(Debug)]
pub struct OutputByType {
    pub backlight: Vec<BacklightOutput>,
    pub ddcutil: Vec<DdcUtilOutput>,
}

impl Default for OutputByType {
    fn default() -> (r: OutputByType)
        ensures
            r.backlight@.len() == 0,
            r.ddcutil@.len() == 0,
    {
        OutputByType { backlight: Vec::new(), ddcutil: Vec::new() }
    }
}

#[derive(Debug, Clone, Copy, PartialEq, Eq, Structural)]
pub struct ManualPoint {
    pub als: u64,
    pub luma: u8,
    pub reduction: u64,
}

/// The predictor of an output. The thresholds name a level of ambient light, and
/// for lightnesses of the screen by how much to reduce the brightness there.
#[derive(Debug)]
pub enum Predictor {
    Adaptive,
    Manual {
        points: Vec<ManualPoint>,
        thresholds: Option<Vec<(String, Vec<(String, u64)>)>>,
    },
}

impl Default for Predictor {
    fn default() -> (r: Predictor)
        ensures
            r is Adaptive,
    {
        Predictor::Adaptive
    }
}

#[derive(Debug)]
pub struct BacklightOutput {
    pub name: String,
    pub path: Option<String>,
    pub capturer: Option<Capturer>,
    pub vulkan_device: Option<String>,
    pub predictor: Option<Predictor>,
}

#[derive(Debug)]
pub struct DdcUtilOutput {
    pub name: String,
    pub identifier: Option<String>,
    pub capturer: Option<Capturer>,
    pub vulkan_device: Option<String>,
    pub predictor: Option<Predictor>,
}

#[derive(Debug)]
pub struct Keyboard {
    pub name: String,
    pub path: String,
}

#[derive(Debug)]
pub struct Config {
    pub als: Option<Als>,
    pub output: OutputByType,
    pub keyboard: Vec<Keyboard>,
}

impl Default for Config {
    fn default() -> (r: Config)
        ensures
            r.als is None,
            r.output.backlight@.len() == 0,
            r.output.ddcutil@.len() == 0,
            r.keyboard@.len() == 0,
    {
        Config { als: None, output: OutputByType::default(), keyboard: Vec::new() }
    }
}

} // verus!
