//! The configuration, and the outputs that it applies to.

pub mod app;
pub mod discovery;
pub mod file;
pub mod topology;

use crate::als::Scale;
use crate::maps::levels::Levels;
use crate::maps::names::Names;
use crate::predictor::AlsDirection;
use crate::text::chars::same;
use crate::text::decimal::{parse, read_number};
use app::{
    output_views, Als, BacklightKind, BacklightOutput, BacklightView, Capturer, Config,
    DdcUtilOutput, DdcUtilView, ManualPoint, Output, OutputView, PipewireProtocol, Predictor,
    VulkanDevice, WaylandProtocol,
};
use discovery::{all_outputs, merge, sorted_by_name};
use vstd::prelude::*;

verus! {

/// What a capturer of the file stands for.
pub open spec fn capturer_of(capturer: file::Capturer) -> Capturer {
    match capturer {
        file::Capturer::Auto => Capturer::Auto,
        file::Capturer::Off => Capturer::Off,
        file::Capturer::Wlroots => Capturer::Wayland(WaylandProtocol::Any),
        file::Capturer::Wayland => Capturer::Wayland(WaylandProtocol::Any),
        file::Capturer::WlrExportDmabufUnstableV1 => Capturer::Wayland(
            WaylandProtocol::WlrExportDmabufUnstableV1,
        ),
        file::Capturer::WlrScreencopyUnstableV1 => Capturer::Wayland(
            WaylandProtocol::WlrScreencopyUnstableV1,
        ),
        file::Capturer::ExtImageCopyCaptureV1 => Capturer::Wayland(
            WaylandProtocol::ExtImageCopyCaptureV1,
        ),
        file::Capturer::Pipewire => Capturer::Pipewire(PipewireProtocol::Any),
        file::Capturer::XdgDesktopPortalScreencast => Capturer::Pipewire(PipewireProtocol::Portal),
        file::Capturer::ZkdeScreencastUnstableV1 => Capturer::Pipewire(PipewireProtocol::Kwin),
        file::Capturer::GnomeMutterScreencast => Capturer::Pipewire(PipewireProtocol::Mutter),
    }
}

/// What a capturer of the file stands for.
pub fn match_capturer(capturer: file::Capturer) -> (r: Capturer)
    ensures
        r == capturer_of(capturer),
{
    match capturer {
        file::Capturer::Auto => Capturer::Auto,
        file::Capturer::Off => Capturer::Off,
        file::Capturer::Wlroots => Capturer::Wayland(WaylandProtocol::Any),
        file::Capturer::Wayland => Capturer::Wayland(WaylandProtocol::Any),
        file::Capturer::WlrExportDmabufUnstableV1 => Capturer::Wayland(
            WaylandProtocol::WlrExportDmabufUnstableV1,
        ),
        file::Capturer::WlrScreencopyUnstableV1 => Capturer::Wayland(
            WaylandProtocol::WlrScreencopyUnstableV1,
        ),
        file::Capturer::ExtImageCopyCaptureV1 => Capturer::Wayland(
            WaylandProtocol::ExtImageCopyCaptureV1,
        ),
        file::Capturer::Pipewire => Capturer::Pipewire(PipewireProtocol::Any),
        file::Capturer::XdgDesktopPortalScreencast => Capturer::Pipewire(PipewireProtocol::Portal),
        file::Capturer::ZkdeScreencastUnstableV1 => Capturer::Pipewire(PipewireProtocol::Kwin),
        file::Capturer::GnomeMutterScreencast => Capturer::Pipewire(PipewireProtocol::Mutter),
    }
}

/// The keys of a table are numbers that do not exceed `max`.
pub open spec fn keys_are_numbers<V>(pairs: Seq<(String, V)>, max: nat) -> bool {
    forall|i: int| 0 <= i < pairs.len() ==> read_number((#[trigger] pairs[i]).0@, max) is Some
}

/// The number that the key of a pair is.
pub open spec fn key_number<V>(pair: (String, V), max: nat) -> nat {
    read_number(pair.0@, max)->0
}

/// A table with numbers for keys. Of pairs with the same key the last counts.
pub open spec fn table<V>(pairs: Seq<(String, V)>) -> Map<u64, V>
    decreases pairs.len(),
{
    if pairs.len() == 0 {
        Map::empty()
    } else {
        table(pairs.drop_last()).insert(
            key_number(pairs.last(), u64::MAX as nat) as u64,
            pairs.last().1,
        )
    }
}

/// The pairs of an optional table.
pub open spec fn pairs_of<V>(pairs: Option<Vec<(String, V)>>) -> Seq<(String, V)> {
    match pairs {
        Some(pairs) => pairs@,
        None => Seq::empty(),
    }
}

/// The keys that have to be numbers are numbers.
pub open spec fn als_is_readable(als: Option<file::Als>) -> bool {
    match als {
        Some(file::Als::Iio { thresholds, .. }) => keys_are_numbers(
            pairs_of(thresholds),
            u64::MAX as nat,
        ),
        Some(file::Als::Time { levels, thresholds }) => keys_are_numbers(
            pairs_of(levels),
            u64::MAX as nat,
        ) && keys_are_numbers(pairs_of(thresholds), u64::MAX as nat),
        Some(file::Als::Webcam { thresholds, .. }) => keys_are_numbers(
            pairs_of(thresholds),
            u64::MAX as nat,
        ),
        _ => true,
    }
}

/// The lightnesses in the thresholds of a predictor are numbers.
pub open spec fn predictor_is_readable(predictor: Option<file::Predictor>) -> bool {
    match predictor {
        Some(file::Predictor::Manual { thresholds: Some(thresholds), .. }) => forall|i: int|
            0 <= i < thresholds@.len() ==> keys_are_numbers(
                (#[trigger] thresholds@[i]).1@,
                u8::MAX as nat,
            ),
        _ => true,
    }
}

/// Every key of the file that has to be a number is one.
pub open spec fn is_readable(config: file::Config) -> bool {
    &&& als_is_readable(config.als)
    &&& forall|i: int|
        0 <= i < config.output.backlight@.len() ==> predictor_is_readable(
            (#[trigger] config.output.backlight@[i]).predictor,
        )
    &&& forall|i: int|
        0 <= i < config.output.ddcutil@.len() ==> predictor_is_readable(
            (#[trigger] config.output.ddcutil@[i]).predictor,
        )
}

/// Whether the keys of a table are numbers that do not exceed `max`.
fn check_keys<V>(pairs: &Vec<(String, V)>, max: u64) -> (r: bool)
    ensures
        r == keys_are_numbers(pairs@, max as nat),
{
    for i in 0..pairs.len()
        invariant
            forall|j: int|
                0 <= j < i ==> read_number((#[trigger] pairs@[j]).0@, max as nat) is Some,
    {
        if parse(pairs[i].0.as_str(), max).is_none() {
            return false;
        }
    }
    true
}

/// Whether the keys of an optional table are numbers.
fn check_table<V>(pairs: &Option<Vec<(String, V)>>) -> (r: bool)
    ensures
        r == keys_are_numbers(pairs_of(*pairs), u64::MAX as nat),
{
    match pairs {
        Some(pairs) => check_keys(pairs, u64::MAX),
        None => true,
    }
}

/// Whether the lightnesses in the thresholds of a predictor are numbers.
fn check_predictor(predictor: &Option<file::Predictor>) -> (r: bool)
    ensures
        r == predictor_is_readable(*predictor),
{
    match predictor {
        Some(file::Predictor::Manual { thresholds: Some(thresholds), .. }) => {
            for i in 0..thresholds.len()
                invariant
                    forall|j: int|
                        0 <= j < i ==> keys_are_numbers(
                            (#[trigger] thresholds@[j]).1@,
                            u8::MAX as nat,
                        ),
                    predictor_is_readable(*predictor) == (forall|i: int|
                        0 <= i < thresholds@.len() ==> keys_are_numbers(
                            (#[trigger] thresholds@[i]).1@,
                            u8::MAX as nat,
                        )),
            {
                if !check_keys(&thresholds[i].1, 255) {
                    return false;
                }
            }
            true
        },
        _ => true,
    }
}

/// Whether every key of the file that has to be a number is one.
pub fn check_readable(config: &file::Config) -> (r: bool)
    ensures
        r == is_readable(*config),
{
    let als = match &config.als {
        Some(file::Als::Iio { thresholds, .. }) => check_table(thresholds),
        Some(file::Als::Time { levels, thresholds }) => check_table(levels) && check_table(
            thresholds,
        ),
        Some(file::Als::Webcam { thresholds, .. }) => check_table(thresholds),
        _ => true,
    };
    if !als {
        return false;
    }
    for i in 0..config.output.backlight.len()
        invariant
            forall|j: int|
                0 <= j < i ==> predictor_is_readable(
                    (#[trigger] config.output.backlight@[j]).predictor,
                ),
    {
        if !check_predictor(&config.output.backlight[i].predictor) {
            return false;
        }
    }
    for i in 0..config.output.ddcutil.len()
        invariant
            forall|j: int|
                0 <= j < i ==> predictor_is_readable(
                    (#[trigger] config.output.ddcutil@[j]).predictor,
                ),
    {
        if !check_predictor(&config.output.ddcutil[i].predictor) {
            return false;
        }
    }
    true
}

/// A table with numbers for keys.
fn read_table<V>(pairs: Option<Vec<(String, V)>>) -> (r: Levels<V>)
    requires
        keys_are_numbers(pairs_of(pairs), u64::MAX as nat),
    ensures
        r.wf(),
        r@ == table(pairs_of(pairs)),
{
    let ghost all = pairs_of(pairs);
    let mut r: Levels<V> = Levels::new();
    if let Some(pairs) = pairs {
        let mut rest = pairs;
        let ghost mut n: int = 0;
        assert(all.take(0) =~= Seq::empty());
        assert(all.skip(0) =~= all);
        while rest.len() > 0
            invariant
                r.wf(),
                0 <= n <= all.len(),
                keys_are_numbers(all, u64::MAX as nat),
                rest@ == all.skip(n),
                r@ == table(all.take(n)),
            decreases rest.len(),
        {
            let (key, value) = rest.remove(0);
            assert((key, value) == all[n]);
            assert(all.take(n + 1).drop_last() =~= all.take(n));
            match parse(key.as_str(), u64::MAX) {
                Some(number) => {
                    r.insert(number, value);
                },
                None => {},
            }
            assert(rest@ =~= all.skip(n + 1));
            proof {
                n = n + 1;
            }
        }
        assert(all.take(n) =~= all);
    }
    r
}

/// The source of ambient light that the file asks for; `socket` is where an
/// external source is found unless the file says so.
pub open spec fn is_als_of(als: Als, file: Option<file::Als>, socket: Option<Seq<char>>) -> bool {
    match file {
        None => als matches Als::Auto { thresholds } && thresholds@ == Map::<u64, String>::empty(),
        Some(file::Als::External { path, scale }) => als matches Als::External {
            path: to,
            scale: as_scale,
            thresholds,
        } && {
            &&& to@ == match path {
                Some(path) => path@,
                None => match socket {
                    Some(socket) => socket,
                    None => Seq::empty(),
                },
            }
            &&& as_scale == match scale {
                file::AlsScale::Lux => Scale::Lux,
                file::AlsScale::Linear => Scale::Linear,
            }
            &&& thresholds@ == Map::<u64, String>::empty()
        },
        Some(file::Als::Iio { path, thresholds }) => als matches Als::Iio {
            path: to,
            thresholds: names,
        } && to == path && names@ == table(pairs_of(thresholds)),
        Some(file::Als::Time { levels, thresholds }) => als matches Als::Time {
            levels: to,
            thresholds: names,
        } && to@ == table(pairs_of(levels)) && names@ == table(pairs_of(thresholds)),
        Some(file::Als::Webcam { video, thresholds }) => als matches Als::Webcam {
            video: to,
            thresholds: names,
        } && to == video && names@ == table(pairs_of(thresholds)),
        Some(file::Als::Off) => als is Off,
    }
}

/// The source of ambient light that the file asks for.
fn match_als(als: Option<file::Als>, socket: &Option<String>) -> (r: Als)
    requires
        als_is_readable(als),
    ensures
        r.wf(),
        is_als_of(
            r,
            als,
            match socket {
                Some(socket) => Some(socket@),
                None => None,
            },
        ),
{
    match als {
        None => Als::Auto { thresholds: Levels::new() },
        Some(file::Als::External { path, scale }) => {
            let path = match path {
                Some(path) => path,
                None => match socket {
                    Some(socket) => socket.clone(),
                    None => String::new(),
                },
            };
            let scale = match scale {
                file::AlsScale::Lux => Scale::Lux,
                file::AlsScale::Linear => Scale::Linear,
            };
            Als::External { path, scale, thresholds: Levels::new() }
        },
        Some(file::Als::Iio { path, thresholds }) => Als::Iio {
            path,
            thresholds: read_table(thresholds),
        },
        Some(file::Als::Time { levels, thresholds }) => Als::Time {
            levels: read_table(levels),
            thresholds: read_table(thresholds),
        },
        Some(file::Als::Webcam { video, thresholds }) => Als::Webcam {
            video,
            thresholds: read_table(thresholds),
        },
        Some(file::Als::Off) => Als::Off,
    }
}

/// Where the light levels begin, by name, in ascending order.
pub open spec fn level_names(als: Als) -> Seq<(u64, String)> {
    match als {
        Als::Auto { thresholds } => thresholds.entries@,
        Als::External { thresholds, .. } => thresholds.entries@,
        Als::Iio { thresholds, .. } => thresholds.entries@,
        Als::Time { thresholds, .. } => thresholds.entries@,
        Als::Webcam { thresholds, .. } => thresholds.entries@,
        Als::Off => Seq::empty(),
    }
}

/// The points that stand for a reduction at the levels with the given name,
/// among the first `n` levels.
pub open spec fn points_at(
    levels: Seq<(u64, String)>,
    name: Seq<char>,
    luma: u8,
    reduction: u64,
    n: nat,
) -> Seq<ManualPoint>
    decreases n,
{
    if n == 0 {
        Seq::empty()
    } else {
        let before = points_at(levels, name, luma, reduction, (n - 1) as nat);
        if levels[n - 1].1@ == name {
            before.push(ManualPoint { als: levels[n - 1].0, luma, reduction })
        } else {
            before
        }
    }
}

/// The points that stand for a reduction at a named level of ambient light.
/// Where ambient light is ignored, the one level is named `none`.
pub open spec fn level_points(
    als: Als,
    name: Seq<char>,
    luma: u8,
    reduction: u64,
) -> Seq<ManualPoint> {
    if als is Off {
        if name == "none"@ {
            seq![ManualPoint { als: 0, luma, reduction }]
        } else {
            Seq::empty()
        }
    } else {
        points_at(level_names(als), name, luma, reduction, level_names(als).len())
    }
}

/// The points of the first `n` lightnesses at a named level of ambient light.
pub open spec fn name_points(
    als: Als,
    name: Seq<char>,
    lumas: Seq<(String, u64)>,
    n: nat,
) -> Seq<ManualPoint>
    decreases n,
{
    if n == 0 {
        Seq::empty()
    } else {
        name_points(als, name, lumas, (n - 1) as nat) + level_points(
            als,
            name,
            key_number(lumas[n - 1], u8::MAX as nat) as u8,
            lumas[n - 1].1,
        )
    }
}

/// The points of the first `n` named levels of ambient light.
pub open spec fn threshold_points(
    als: Als,
    thresholds: Seq<(String, Vec<(String, u64)>)>,
    n: nat,
) -> Seq<ManualPoint>
    decreases n,
{
    if n == 0 {
        Seq::empty()
    } else {
        threshold_points(als, thresholds, (n - 1) as nat) + name_points(
            als,
            thresholds[n - 1].0@,
            thresholds[n - 1].1@,
            thresholds[n - 1].1@.len(),
        )
    }
}

/// A point of the file.
pub open spec fn point_of(p: file::ManualPoint) -> ManualPoint {
    ManualPoint { als: p.als, luma: p.luma, reduction: p.reduction }
}

/// The predictor that the file asks for: its points, and then those that its
/// thresholds stand for at the levels of `als`.
pub open spec fn predictor_of(predictor: Option<file::Predictor>, als: Als) -> Option<
    Seq<ManualPoint>,
> {
    match predictor {
        Some(file::Predictor::Manual { points, thresholds }) => {
            let given = points@.map_values(|p: file::ManualPoint| point_of(p));
            match thresholds {
                Some(thresholds) => Some(
                    given + threshold_points(als, thresholds@, thresholds@.len()),
                ),
                None => Some(given),
            }
        },
        _ => None,
    }
}

/// Appends the points that stand for a reduction at a named level.
fn add_level_points(
    to: &mut Vec<ManualPoint>,
    als: &Als,
    name: &str,
    luma: u8,
    reduction: u64,
)
    ensures
        final(to)@ == old(to)@ + level_points(*als, name@, luma, reduction),
{
    let levels = match als {
        Als::Auto { thresholds } => thresholds,
        Als::External { thresholds, .. } => thresholds,
        Als::Iio { thresholds, .. } => thresholds,
        Als::Time { thresholds, .. } => thresholds,
        Als::Webcam { thresholds, .. } => thresholds,
        Als::Off => {
            if same(name, "none") {
                to.push(ManualPoint { als: 0, luma, reduction });
            }
            assert(to@ =~= old(to)@ + level_points(*als, name@, luma, reduction));
            return ;
        },
    };
    let ghost names = level_names(*als);
    for i in 0..levels.entries.len()
        invariant
            names == levels.entries@,
            to@ =~= old(to)@ + points_at(names, name@, luma, reduction, i as nat),
    {
        let ghost before = to@;
        if same(levels.entries[i].1.as_str(), name) {
            to.push(ManualPoint { als: levels.entries[i].0, luma, reduction });
        }
        assert(points_at(names, name@, luma, reduction, (i + 1) as nat) == if names[i as int].1@
            == name@ {
            points_at(names, name@, luma, reduction, i as nat).push(
                ManualPoint { als: names[i as int].0, luma, reduction },
            )
        } else {
            points_at(names, name@, luma, reduction, i as nat)
        });
    }
}

/// The predictor that the file asks for.
fn match_predictor(predictor: Option<file::Predictor>, als: &Als) -> (r: Predictor)
    requires
        predictor_is_readable(predictor),
    ensures
        r@ == predictor_of(predictor, *als),
{
    let (points, thresholds) = match predictor {
        Some(file::Predictor::Manual { points, thresholds }) => (points, thresholds),
        _ => {
            return Predictor::Adaptive;
        },
    };
    let ghost given = points@.map_values(|p: file::ManualPoint| point_of(p));
    let mut r: Vec<ManualPoint> = Vec::new();
    for i in 0..points.len()
        invariant
            given == points@.map_values(|p: file::ManualPoint| point_of(p)),
            r@ =~= given.take(i as int),
    {
        r.push(
            ManualPoint { als: points[i].als, luma: points[i].luma, reduction: points[i].reduction },
        );
    }
    assert(r@ =~= given);
    if let Some(thresholds) = thresholds {
        let ghost all = thresholds@;
        for i in 0..thresholds.len()
            invariant
                all == thresholds@,
                forall|j: int|
                    0 <= j < all.len() ==> keys_are_numbers(
                        (#[trigger] all[j]).1@,
                        u8::MAX as nat,
                    ),
                r@ =~= given + threshold_points(*als, all, i as nat),
        {
            let name = thresholds[i].0.as_str();
            let lumas = &thresholds[i].1;
            let ghost before = r@;
            for k in 0..lumas.len()
                invariant
                    name@ == all[i as int].0@,
                    lumas@ == all[i as int].1@,
                    keys_are_numbers(lumas@, u8::MAX as nat),
                    r@ =~= before + name_points(*als, name@, lumas@, k as nat),
            {
                let ghost earlier = r@;
                match parse(lumas[k].0.as_str(), 255) {
                    Some(luma) => {
                        add_level_points(&mut r, als, name, luma as u8, lumas[k].1);
                    },
                    None => {},
                }
                assert(read_number(lumas@[k as int].0@, u8::MAX as nat) is Some);
                assert(name_points(*als, name@, lumas@, (k + 1) as nat) == name_points(
                    *als,
                    name@,
                    lumas@,
                    k as nat,
                ) + level_points(
                    *als,
                    name@,
                    key_number(lumas@[k as int], u8::MAX as nat) as u8,
                    lumas@[k as int].1,
                ));
            }
            assert(threshold_points(*als, all, (i + 1) as nat) == threshold_points(
                *als,
                all,
                i as nat,
            ) + name_points(*als, all[i as int].0@, all[i as int].1@, all[i as int].1@.len()));
        }
    }
    Predictor::Manual { points: r }
}

/// A text that may be given.
pub open spec fn text_of(text: Option<String>) -> Option<Seq<char>> {
    match text {
        Some(text) => Some(text@),
        None => None,
    }
}

/// The capturer that an output of the file asks for.
pub open spec fn asked_capturer(capturer: Option<file::Capturer>) -> Capturer {
    match capturer {
        Some(capturer) => capturer_of(capturer),
        None => Capturer::Auto,
    }
}

/// A backlight of the file.
pub open spec fn backlight_of(o: file::BacklightOutput, als: Als) -> OutputView {
    OutputView::Backlight(
        BacklightView {
            name: o.name@,
            path: match o.path {
                Some(path) => path@,
                None => Seq::empty(),
            },
            capturer: asked_capturer(o.capturer),
            vulkan_device: text_of(o.vulkan_device),
            min_brightness: 1,
            predictor: predictor_of(o.predictor, als),
            als_direction: AlsDirection::Increasing,
            kind: BacklightKind::Display,
        },
    )
}

/// A DDC output of the file. Its identifier is its name unless it gives one.
pub open spec fn ddcutil_of(o: file::DdcUtilOutput, als: Als) -> OutputView {
    OutputView::DdcUtil(
        DdcUtilView {
            name: o.name@,
            identifier: match o.identifier {
                Some(identifier) => identifier@,
                None => o.name@,
            },
            identifier_overridden: o.identifier is Some,
            capturer: asked_capturer(o.capturer),
            vulkan_device: text_of(o.vulkan_device),
            min_brightness: 1,
            predictor: predictor_of(o.predictor, als),
        },
    )
}

/// A keyboard of the file.
pub open spec fn keyboard_of(k: file::Keyboard) -> OutputView {
    discovery::keyboard(k.name@, k.path@)
}

/// The outputs of the file: backlights, DDC outputs, and keyboards.
pub open spec fn outputs_of(config: file::Config, als: Als) -> Seq<OutputView> {
    config.output.backlight@.map_values(|o: file::BacklightOutput| backlight_of(o, als))
        + config.output.ddcutil@.map_values(|o: file::DdcUtilOutput| ddcutil_of(o, als))
        + config.keyboard@.map_values(|k: file::Keyboard| keyboard_of(k))
}

/// The capturer that an output of the file asks for.
fn ask_capturer(capturer: Option<file::Capturer>) -> (r: Capturer)
    ensures
        r == asked_capturer(capturer),
{
    match capturer {
        Some(capturer) => match_capturer(capturer),
        None => Capturer::Auto,
    }
}

/// A backlight of the file.
fn match_backlight(o: file::BacklightOutput, als: &Als) -> (r: Output)
    requires
        predictor_is_readable(o.predictor),
    ensures
        r@ == backlight_of(o, *als),
{
    Output::Backlight(
        BacklightOutput {
            name: o.name,
            path: match o.path {
                Some(path) => path,
                None => String::new(),
            },
            capturer: ask_capturer(o.capturer),
            vulkan_device: VulkanDevice::from(o.vulkan_device),
            min_brightness: 1,
            predictor: match_predictor(o.predictor, als),
            als_direction: AlsDirection::Increasing,
            kind: BacklightKind::Display,
        },
    )
}

/// A DDC output of the file.
fn match_ddcutil(o: file::DdcUtilOutput, als: &Als) -> (r: Output)
    requires
        predictor_is_readable(o.predictor),
    ensures
        r@ == ddcutil_of(o, *als),
{
    let identifier_overridden = o.identifier.is_some();
    let identifier = match o.identifier {
        Some(identifier) => identifier,
        None => o.name.clone(),
    };
    Output::DdcUtil(
        DdcUtilOutput {
            name: o.name,
            identifier,
            identifier_overridden,
            capturer: ask_capturer(o.capturer),
            vulkan_device: VulkanDevice::from(o.vulkan_device),
            min_brightness: 1,
            predictor: match_predictor(o.predictor, als),
        },
    )
}

/// A keyboard of the file.
fn match_keyboard(k: file::Keyboard) -> (r: Output)
    ensures
        r@ == keyboard_of(k),
{
    Output::Backlight(
        BacklightOutput {
            name: k.name,
            path: k.path,
            capturer: Capturer::Off,
            vulkan_device: VulkanDevice::Auto,
            min_brightness: 0,
            predictor: Predictor::Adaptive,
            als_direction: AlsDirection::Decreasing,
            kind: BacklightKind::Keyboard,
        },
    )
}

/// The configuration that a file stands for; `socket` is where an external
/// source of ambient light is found unless the file says so.
pub fn convert(config: file::Config, socket: &Option<String>) -> (r: Config)
    requires
        is_readable(config),
    ensures
        r.als.wf(),
        is_als_of(r.als, config.als, text_of(*socket)),
        output_views(r.output@) == outputs_of(config, r.als),
{
    let als = match_als(config.als, socket);
    let mut output: Vec<Output> = Vec::new();
    let mut backlight = config.output.backlight;
    let mut ddcutil = config.output.ddcutil;
    let mut keyboard = config.keyboard;
    let ghost all = config.output.backlight@;
    let ghost first = all.map_values(|o: file::BacklightOutput| backlight_of(o, als));
    let ghost mut n: int = 0;
    while backlight.len() > 0
        invariant
            0 <= n <= all.len(),
            first == all.map_values(|o: file::BacklightOutput| backlight_of(o, als)),
            backlight@ =~= all.skip(n),
            forall|i: int|
                0 <= i < all.len() ==> predictor_is_readable((#[trigger] all[i]).predictor),
            output_views(output@) =~= first.take(n),
        decreases backlight.len(),
    {
        let ghost before = output@;
        let o = backlight.remove(0);
        assert(o == all[n]);
        let made = match_backlight(o, &als);
        output.push(made);
        assert(output_views(output@) =~= output_views(before).push(made@));
        proof {
            n = n + 1;
        }
    }
    assert(output_views(output@) =~= first);
    let ghost all = config.output.ddcutil@;
    let ghost second = all.map_values(|o: file::DdcUtilOutput| ddcutil_of(o, als));
    let ghost mut n: int = 0;
    while ddcutil.len() > 0
        invariant
            0 <= n <= all.len(),
            second == all.map_values(|o: file::DdcUtilOutput| ddcutil_of(o, als)),
            ddcutil@ =~= all.skip(n),
            forall|i: int|
                0 <= i < all.len() ==> predictor_is_readable((#[trigger] all[i]).predictor),
            output_views(output@) =~= first + second.take(n),
        decreases ddcutil.len(),
    {
        let ghost before = output@;
        let o = ddcutil.remove(0);
        assert(o == all[n]);
        let made = match_ddcutil(o, &als);
        output.push(made);
        assert(output_views(output@) =~= output_views(before).push(made@));
        proof {
            n = n + 1;
        }
    }
    assert(output_views(output@) =~= first + second);
    let ghost all = config.keyboard@;
    let ghost third = all.map_values(|k: file::Keyboard| keyboard_of(k));
    let ghost mut n: int = 0;
    while keyboard.len() > 0
        invariant
            0 <= n <= all.len(),
            third == all.map_values(|k: file::Keyboard| keyboard_of(k)),
            keyboard@ =~= all.skip(n),
            output_views(output@) =~= first + second + third.take(n),
        decreases keyboard.len(),
    {
        let ghost before = output@;
        let k = keyboard.remove(0);
        assert(k == all[n]);
        let made = match_keyboard(k);
        output.push(made);
        assert(output_views(output@) =~= output_views(before).push(made@));
        proof {
            n = n + 1;
        }
    }
    assert(output_views(output@) =~= first + second + third);
    Config { als, output }
}

/// Why a configuration cannot be used.
#[derive(Debug, Clone, Copy, PartialEq, Eq, Structural)]
pub enum ConfigError {
    /// There is neither an output nor a keyboard.
    NoOutput,
    /// Two outputs or keyboards have the same name.
    DuplicateNames,
}

impl ConfigError {
    /// What the error says.
    pub open spec fn spec_message(self) -> Seq<char> {
        match self {
            ConfigError::NoOutput => "No connected output or keyboard detected"@,
            ConfigError::DuplicateNames => "Names of all outputs and keyboards are not unique"@,
        }
    }

    pub fn message(&self) -> (r: &'static str)
        ensures
            r@ == self.spec_message(),
            self is NoOutput ==> r@ == "No connected output or keyboard detected"@,
            self is DuplicateNames ==> r@ == "Names of all outputs and keyboards are not unique"@,
    {
        match self {
            ConfigError::NoOutput => "No connected output or keyboard detected",
            ConfigError::DuplicateNames => "Names of all outputs and keyboards are not unique",
        }
    }
}

/// No two outputs have the same name.
pub open spec fn names_differ(outputs: Seq<Output>) -> bool {
    forall|i: int, j: int|
        0 <= i < j < outputs.len() ==> (#[trigger] outputs[i])@.name() != (#[trigger] outputs[j])@.name()
}

/// What a configuration with these outputs is refused for.
pub open spec fn refusal(outputs: Seq<Output>) -> Option<ConfigError> {
    if outputs.len() == 0 {
        Some(ConfigError::NoOutput)
    } else if !names_differ(outputs) {
        Some(ConfigError::DuplicateNames)
    } else {
        None
    }
}

/// The configuration itself, where it has an output and all names differ.
pub fn validate(config: Config) -> (r: Result<Config, ConfigError>)
    ensures
        r is Ok <==> refusal(config.output@) is None,
        r is Ok <==> config.output@.len() > 0 && forall|i: int, j: int|
            0 <= i < j < config.output@.len() ==> (#[trigger] config.output@[i])@.name() != (
            #[trigger] config.output@[j])@.name(),
        r matches Err(error) ==> (error is NoOutput <==> config.output@.len() == 0),
        r matches Ok(checked) ==> checked == config,
        r matches Err(error) ==> refusal(config.output@) == Some(error),
{
    if config.output.len() == 0 {
        return Err(ConfigError::NoOutput);
    }
    let ghost all = config.output@;
    for i in 0..config.output.len()
        invariant
            all == config.output@,
            all.len() > 0,
            forall|a: int, b: int|
                0 <= a < b < i ==> (#[trigger] all[a])@.name() != (#[trigger] all[b])@.name(),
    {
        for k in 0..i
            invariant
                all == config.output@,
                all.len() > 0,
                i < all.len(),
                forall|a: int| 0 <= a < k ==> (#[trigger] all[a])@.name() != all[i as int]@.name(),
        {
            if same(config.output[k].name(), config.output[i].name()) {
                assert(all[k as int]@.name() == all[i as int]@.name());
                assert(!names_differ(all));
                return Err(ConfigError::DuplicateNames);
            }
        }
    }
    Ok(config)
}

/// The configuration to run with: the outputs of the file and the detected
/// ones, brought together, where there is an output and all names differ.
/// `resolved` says of paths where they really lead.
pub fn load(config: Config, detected: Vec<Output>, resolved: &Names<String>) -> (r: Result<
    Config,
    ConfigError,
>)
    requires
        resolved.wf(),
    ensures
        exists|outputs: Seq<Output>|
            {
                &&& sorted_by_name(
                    output_views(outputs),
                    all_outputs(output_views(config.output@), output_views(detected@), resolved@),
                )
                &&& r is Ok <==> #[trigger] refusal(outputs) is None
                &&& r matches Ok(loaded) ==> loaded.als == config.als && loaded.output@ == outputs
                &&& r matches Err(error) ==> refusal(outputs) == Some(error)
            },
{
    let output = merge(config.output, detected, resolved);
    let ghost outputs = output@;
    let r = validate(Config { als: config.als, output });
    assert(r is Ok <==> refusal(outputs) is None);
    r
}

/// A capturer of the file stands for the protocol that it names; the general ones leave it open.
pub proof fn capturer_names_its_protocol(c: file::Capturer)
    ensures
        capturer_of(c) is Auto <==> c is Auto,
        capturer_of(c) is Off <==> c is Off,
        capturer_of(c) == Capturer::Wayland(WaylandProtocol::Any) <==> c is Wayland || c is Wlroots,
        capturer_of(c) == Capturer::Wayland(WaylandProtocol::WlrExportDmabufUnstableV1) <==> c
            is WlrExportDmabufUnstableV1,
        capturer_of(c) == Capturer::Wayland(WaylandProtocol::WlrScreencopyUnstableV1) <==> c
            is WlrScreencopyUnstableV1,
        capturer_of(c) == Capturer::Wayland(WaylandProtocol::ExtImageCopyCaptureV1) <==> c
            is ExtImageCopyCaptureV1,
        capturer_of(c) == Capturer::Pipewire(PipewireProtocol::Any) <==> c is Pipewire,
        capturer_of(c) == Capturer::Pipewire(PipewireProtocol::Portal) <==> c
            is XdgDesktopPortalScreencast,
        capturer_of(c) == Capturer::Pipewire(PipewireProtocol::Kwin) <==> c
            is ZkdeScreencastUnstableV1,
        capturer_of(c) == Capturer::Pipewire(PipewireProtocol::Mutter) <==> c
            is GnomeMutterScreencast,
{
}

/// A file without tables can always be read, and one with tables where every key of them is a number.
pub proof fn numbers_are_readable(config: file::Config)
    ensures
        (config.als matches Some(file::Als::Iio { thresholds: Some(t), .. }) ==> forall|i: int|
            0 <= i < t@.len() ==> read_number((#[trigger] t@[i]).0@, u64::MAX as nat) is Some)
            && (config.als matches Some(file::Als::Webcam { thresholds: Some(t), .. }) ==> forall|
            i: int,
        |
            0 <= i < t@.len() ==> read_number((#[trigger] t@[i]).0@, u64::MAX as nat) is Some)
            && (config.als matches Some(file::Als::Time { thresholds: Some(t), .. }) ==> forall|
            i: int,
        |
            0 <= i < t@.len() ==> read_number((#[trigger] t@[i]).0@, u64::MAX as nat) is Some)
            && (config.als matches Some(file::Als::Time { levels: Some(t), .. }) ==> forall|i: int|
            0 <= i < t@.len() ==> read_number((#[trigger] t@[i]).0@, u64::MAX as nat) is Some)
            <==> als_is_readable(config.als),
        is_readable(config) <==> als_is_readable(config.als) && (forall|i: int|
            0 <= i < config.output.backlight@.len() ==> predictor_is_readable(
                (#[trigger] config.output.backlight@[i]).predictor,
            )) && (forall|i: int|
            0 <= i < config.output.ddcutil@.len() ==> predictor_is_readable(
                (#[trigger] config.output.ddcutil@[i]).predictor,
            )),
{
}

/// The keys of a table are numbers exactly when each of them is.
pub proof fn each_key_is_a_number<V>(pairs: Seq<(String, V)>, max: nat)
    ensures
        keys_are_numbers(pairs, max) <==> forall|i: int|
            0 <= i < pairs.len() ==> read_number((#[trigger] pairs[i]).0@, max) is Some,
{
}

/// A predictor can be read exactly when the lightnesses in its thresholds are numbers up to 255.
pub proof fn lightnesses_are_readable(predictor: Option<file::Predictor>)
    ensures
        predictor matches Some(file::Predictor::Manual { thresholds: Some(t), .. }) ==> (
        predictor_is_readable(predictor) <==> forall|i: int|
            0 <= i < t@.len() ==> keys_are_numbers((#[trigger] t@[i]).1@, u8::MAX as nat)),
        !(predictor matches Some(file::Predictor::Manual { thresholds: Some(_), .. }))
            ==> predictor_is_readable(predictor),
{
}

/// A table holds each value under the number that its key is; of pairs with the same key the last
/// counts.
pub proof fn last_pair_counts<V>(pairs: Seq<(String, V)>, key: String, value: V, number: u64)
    requires
        read_number(key@, u64::MAX as nat) == Some(number as nat),
    ensures
        table(Seq::<(String, V)>::empty()) == Map::<u64, V>::empty(),
        table(pairs.push((key, value))) == table(pairs).insert(number, value),
{
    assert(pairs.push((key, value)).drop_last() =~= pairs);
}

/// The source of ambient light is the configured one, with the path, the scale and the levels that the
/// file gives. Without a source the automatic one is used; without a path, an external source is found
/// at the socket.
pub proof fn source_is_the_configured_one(
    als: Als,
    file: Option<file::Als>,
    socket: Option<Seq<char>>,
)
    requires
        is_als_of(als, file, socket),
    ensures
        als is Auto <==> file is None,
        als is Off <==> file matches Some(file::Als::Off),
        als is External <==> file matches Some(file::Als::External { .. }),
        als is Iio <==> file matches Some(file::Als::Iio { .. }),
        als is Time <==> file matches Some(file::Als::Time { .. }),
        als is Webcam <==> file matches Some(file::Als::Webcam { .. }),
        als matches Als::External { path, scale, thresholds } ==> {
            &&& file->0->External_path matches Some(given) ==> path@ == given@
            &&& file->0->External_path is None ==> (socket matches Some(given) ==> path@ == given)
            &&& file->0->External_path is None && socket is None ==> path@.len() == 0
            &&& scale is Lux <==> file->0->scale is Lux
            &&& thresholds@ == Map::<u64, String>::empty()
        },
        als matches Als::Auto { thresholds } ==> thresholds@ == Map::<u64, String>::empty(),
        als matches Als::Iio { path, thresholds } ==> path == file->0->Iio_path && match
            file->0->Iio_thresholds {
            Some(given) => thresholds@ == table(given@),
            None => thresholds@ == Map::<u64, String>::empty(),
        },
        als matches Als::Time { levels, thresholds } ==> (match file->0->levels {
            Some(given) => levels@ == table(given@),
            None => levels@ == Map::<u64, u64>::empty(),
        }) && (match file->0->Time_thresholds {
            Some(given) => thresholds@ == table(given@),
            None => thresholds@ == Map::<u64, String>::empty(),
        }),
        als matches Als::Webcam { video, thresholds } ==> video == file->0->video && match
            file->0->Webcam_thresholds {
            Some(given) => thresholds@ == table(given@),
            None => thresholds@ == Map::<u64, String>::empty(),
        },
{
}

/// A reduction stands at every level with the name, in ascending order, and at no other level.
pub proof fn reduction_stands_at_each_level_of_the_name(
    levels: Seq<(u64, String)>,
    name: Seq<char>,
    luma: u8,
    reduction: u64,
    n: nat,
    p: ManualPoint,
)
    requires
        n <= levels.len(),
    ensures
        points_at(levels, name, luma, reduction, n).contains(p) <==> p.luma == luma && p.reduction
            == reduction && exists|i: int|
            0 <= i < n && (#[trigger] levels[i]).1@ == name && levels[i].0 == p.als,
        n > 0 && levels[n - 1].1@ == name ==> points_at(levels, name, luma, reduction, n)
            == points_at(levels, name, luma, reduction, (n - 1) as nat).push(
            ManualPoint { als: levels[n - 1].0, luma, reduction },
        ),
        n > 0 && levels[n - 1].1@ != name ==> points_at(levels, name, luma, reduction, n)
            == points_at(levels, name, luma, reduction, (n - 1) as nat),
        points_at(levels, name, luma, reduction, 0).len() == 0,
    decreases n,
{
    if n > 0 {
        reduction_stands_at_each_level_of_the_name(
            levels,
            name,
            luma,
            reduction,
            (n - 1) as nat,
            p,
        );
        let before = points_at(levels, name, luma, reduction, (n - 1) as nat);
        if levels[n - 1].1@ == name {
            let last = ManualPoint { als: levels[n - 1].0, luma, reduction };
            let after = before.push(last);
            if before.contains(p) {
                let i = choose|i: int| 0 <= i < before.len() && before[i] == p;
                assert(after[i] == p);
            }
            if after.contains(p) && p != last {
                let i = choose|i: int| 0 <= i < after.len() && after[i] == p;
                assert(before[i] == p);
            }
            assert(after[before.len() as int] == last);
            if p.luma == luma && p.reduction == reduction && p.als == levels[n - 1].0 {
                assert(p == last);
            }
        }
    }
}

/// Where ambient light is ignored, only the level named `none` counts; otherwise the levels of the
/// source do.
pub proof fn levels_are_those_of_the_source(als: Als, name: Seq<char>, luma: u8, reduction: u64)
    ensures
        als is Off && name == "none"@ ==> level_points(als, name, luma, reduction) == seq![
            ManualPoint { als: 0, luma, reduction },
        ],
        als is Off && name != "none"@ ==> level_points(als, name, luma, reduction).len() == 0,
        als matches Als::Auto { thresholds } ==> level_names(als) == thresholds.entries@,
        als matches Als::External { thresholds, .. } ==> level_names(als) == thresholds.entries@,
        als matches Als::Iio { thresholds, .. } ==> level_names(als) == thresholds.entries@,
        als matches Als::Time { thresholds, .. } ==> level_names(als) == thresholds.entries@,
        als matches Als::Webcam { thresholds, .. } ==> level_names(als) == thresholds.entries@,
        als !is Off ==> level_points(als, name, luma, reduction) == points_at(
            level_names(als),
            name,
            luma,
            reduction,
            level_names(als).len(),
        ),
{
}

/// The points of lightnesses follow each other as these do in the file, and those of names as well.
pub proof fn points_follow_the_file(
    als: Als,
    name: Seq<char>,
    lumas: Seq<(String, u64)>,
    thresholds: Seq<(String, Vec<(String, u64)>)>,
    n: nat,
    luma: u8,
)
    ensures
        name_points(als, name, lumas, 0).len() == 0,
        n < lumas.len() && read_number(lumas[n as int].0@, 255) == Some(luma as nat) ==> name_points(
            als,
            name,
            lumas,
            (n + 1) as nat,
        ) == name_points(als, name, lumas, n) + level_points(als, name, luma, lumas[n as int].1),
        threshold_points(als, thresholds, 0).len() == 0,
        n < thresholds.len() ==> threshold_points(als, thresholds, (n + 1) as nat)
            == threshold_points(als, thresholds, n) + name_points(
            als,
            thresholds[n as int].0@,
            thresholds[n as int].1@,
            thresholds[n as int].1@.len(),
        ),
{
}

/// A manual predictor has the points of the file, as they are and in their order, and behind them those
/// of its thresholds.
pub proof fn predictor_has_the_points_of_the_file(
    points: Vec<file::ManualPoint>,
    thresholds: Vec<(String, Vec<(String, u64)>)>,
    als: Als,
    i: int,
)
    ensures
        predictor_of(None, als) is None,
        predictor_of(Some(file::Predictor::Adaptive), als) is None,
        ({
            let plain = predictor_of(
                Some(file::Predictor::Manual { points, thresholds: None }),
                als,
            );
            let full = predictor_of(
                Some(file::Predictor::Manual { points, thresholds: Some(thresholds) }),
                als,
            );
            let more = threshold_points(als, thresholds@, thresholds@.len());
            &&& plain is Some && plain->0.len() == points@.len()
            &&& full is Some && full->0.len() == points@.len() + more.len()
            &&& full->0.take(points@.len() as int) == plain->0
            &&& full->0.skip(points@.len() as int) == more
            &&& 0 <= i < points@.len() ==> plain->0[i].als == points@[i].als && plain->0[i].luma
                == points@[i].luma && plain->0[i].reduction == points@[i].reduction
        }),
{
    let plain = predictor_of(Some(file::Predictor::Manual { points, thresholds: None }), als)->0;
    let full = predictor_of(
        Some(file::Predictor::Manual { points, thresholds: Some(thresholds) }),
        als,
    )->0;
    let more = threshold_points(als, thresholds@, thresholds@.len());
    assert(full.take(points@.len() as int) =~= plain);
    assert(full.skip(points@.len() as int) =~= more);
}

/// A backlight of the file is a display with the settings of the file: without a capturer the automatic
/// one is used, without a device any will do, and its brightness never is zero.
pub proof fn backlight_has_the_settings_of_the_file(o: file::BacklightOutput, als: Als)
    ensures
        backlight_of(o, als) matches OutputView::Backlight(v) && {
            &&& v.name == o.name@
            &&& o.path matches Some(path) ==> v.path == path@
            &&& o.path is None ==> v.path.len() == 0
            &&& o.capturer is None ==> v.capturer is Auto
            &&& o.capturer matches Some(c) ==> v.capturer == capturer_of(c)
            &&& o.vulkan_device is None ==> v.vulkan_device is None
            &&& o.vulkan_device matches Some(d) ==> v.vulkan_device == Some(d@)
            &&& v.min_brightness == 1
            &&& v.predictor == predictor_of(o.predictor, als)
            &&& v.als_direction is Increasing
            &&& v.kind is Display
        },
{
}

/// A DDC output of the file has the settings of the file, and is found by its name unless the file
/// gives another identifier.
pub proof fn ddc_output_has_the_settings_of_the_file(o: file::DdcUtilOutput, als: Als)
    ensures
        ddcutil_of(o, als) matches OutputView::DdcUtil(v) && {
            &&& v.name == o.name@
            &&& o.identifier matches Some(identifier) ==> v.identifier == identifier@
            &&& o.identifier is None ==> v.identifier == o.name@
            &&& v.identifier_overridden <==> o.identifier is Some
            &&& o.capturer is None ==> v.capturer is Auto
            &&& o.capturer matches Some(c) ==> v.capturer == capturer_of(c)
            &&& o.vulkan_device is None ==> v.vulkan_device is None
            &&& o.vulkan_device matches Some(d) ==> v.vulkan_device == Some(d@)
            &&& v.min_brightness == 1
            &&& v.predictor == predictor_of(o.predictor, als)
        },
{
}

/// A keyboard of the file has no screen, may be dark, and is lit the less the brighter it is around it.
pub proof fn keyboard_is_lit_against_the_light(k: file::Keyboard)
    ensures
        keyboard_of(k) matches OutputView::Backlight(v) && {
            &&& v.name == k.name@
            &&& v.path == k.path@
            &&& v.capturer is Off
            &&& v.vulkan_device is None
            &&& v.min_brightness == 0
            &&& v.predictor is None
            &&& v.als_direction is Decreasing
            &&& v.kind is Keyboard
        },
{
}

/// The outputs of the file stand in their order, backlights before DDC outputs and keyboards last.
pub proof fn outputs_follow_the_file(config: file::Config, als: Als)
    ensures
        ({
            let b = config.output.backlight@.len();
            let d = config.output.ddcutil@.len();
            let k = config.keyboard@.len();
            let all = outputs_of(config, als);
            &&& all.len() == b + d + k
            &&& forall|i: int|
                0 <= i < b ==> #[trigger] all[i] == backlight_of(config.output.backlight@[i], als)
            &&& forall|i: int|
                0 <= i < d ==> all[b + i] == ddcutil_of(#[trigger] config.output.ddcutil@[i], als)
            &&& forall|i: int|
                0 <= i < k ==> all[b + d + i] == keyboard_of(#[trigger] config.keyboard@[i])
        }),
{
}

/// A configuration is refused exactly when it has no output or two outputs have the same name.
pub proof fn outputs_have_names_of_their_own(outputs: Seq<Output>)
    ensures
        refusal(outputs) == Some(ConfigError::NoOutput) <==> outputs.len() == 0,
        refusal(outputs) == Some(ConfigError::DuplicateNames) <==> exists|i: int, j: int|
            0 <= i < j < outputs.len() && (#[trigger] outputs[i])@.name() == (
            #[trigger] outputs[j])@.name(),
        refusal(outputs) is None <==> outputs.len() > 0 && forall|i: int, j: int|
            0 <= i < j < outputs.len() ==> (#[trigger] outputs[i])@.name() != (
            #[trigger] outputs[j])@.name(),
{
}

} // verus!
