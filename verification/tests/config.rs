use toml::{Table, Value};
use wluma::als::Scale;
use wluma::config::app::{
    self, BacklightKind, BacklightOutput, Config, DdcUtilOutput, ManualPoint, Output,
    PipewireProtocol, Predictor, VulkanDevice, WaylandProtocol,
};
use wluma::config::topology::{topology, Port};
use wluma::config::discovery::{
    self, display_identifier, merge, same_edid, Backlight, BacklightEntry, Connector,
    ConnectorEntry, Display, LedEntry,
};
use wluma::config::{check_readable, convert, load, match_capturer, validate, ConfigError};
use wluma::maps::names::Names;
use wluma::predictor::AlsDirection;

fn backlight(name: &str, path: &str, capturer: app::Capturer) -> Output {
    Output::Backlight(BacklightOutput {
        name: name.to_string(),
        path: path.to_string(),
        capturer,
        vulkan_device: VulkanDevice::Auto,
        min_brightness: 1,
        predictor: Predictor::Adaptive,
        als_direction: AlsDirection::Increasing,
        kind: BacklightKind::Display,
    })
}

fn monitor(name: &str, identifier: &str, overridden: bool, capturer: app::Capturer) -> Output {
    Output::DdcUtil(DdcUtilOutput {
        name: name.to_string(),
        identifier: identifier.to_string(),
        identifier_overridden: overridden,
        capturer,
        vulkan_device: VulkanDevice::Auto,
        min_brightness: 1,
        predictor: Predictor::Adaptive,
    })
}

fn names(outputs: &[Output]) -> Vec<&str> {
    outputs.iter().map(Output::name).collect()
}

fn text(table: &Table, key: &str) -> Option<String> {
    table.get(key).and_then(Value::as_str).map(str::to_string)
}

fn capturer(value: &str) -> wluma::config::file::Capturer {
    match value {
        "auto" => wluma::config::file::Capturer::Auto,
        "wlroots" => wluma::config::file::Capturer::Wlroots,
        "wayland" => wluma::config::file::Capturer::Wayland,
        "wlr-export-dmabuf-unstable-v1" => wluma::config::file::Capturer::WlrExportDmabufUnstableV1,
        "wlr-screencopy-unstable-v1" => wluma::config::file::Capturer::WlrScreencopyUnstableV1,
        "ext-image-copy-capture-v1" => wluma::config::file::Capturer::ExtImageCopyCaptureV1,
        "pipewire" => wluma::config::file::Capturer::Pipewire,
        "xdg-desktop-portal-screencast" => wluma::config::file::Capturer::XdgDesktopPortalScreencast,
        "zkde-screencast-unstable-v1" => wluma::config::file::Capturer::ZkdeScreencastUnstableV1,
        "gnome-mutter-screencast" => wluma::config::file::Capturer::GnomeMutterScreencast,
        "none" => wluma::config::file::Capturer::Off,
        other => panic!("unknown capturer {other}"),
    }
}

fn pairs(table: &Table, key: &str) -> Option<Vec<(String, String)>> {
    table.get(key).and_then(Value::as_table).map(|table| {
        table
            .iter()
            .map(|(key, value)| (key.clone(), value.as_str().unwrap().to_string()))
            .collect()
    })
}

fn tables<'a>(config: &'a Table, kind: &str) -> Vec<&'a Table> {
    config
        .get("output")
        .and_then(|output| output.get(kind))
        .and_then(Value::as_array)
        .map(|outputs| outputs.iter().filter_map(Value::as_table).collect())
        .unwrap_or_default()
}

fn parse_config_str(config: &str) -> Config {
    let config: Table = config.parse().unwrap();
    let als = config.get("als").and_then(Value::as_table).map(|als| {
        let (kind, options) = als.iter().next().unwrap();
        let options = options.as_table().unwrap();
        match kind.as_str() {
            "iio" => wluma::config::file::Als::Iio {
                path: text(options, "path"),
                thresholds: pairs(options, "thresholds"),
            },
            "none" => wluma::config::file::Als::Off,
            other => panic!("unexpected source {other}"),
        }
    });
    let backlight = tables(&config, "backlight")
        .into_iter()
        .map(|output| wluma::config::file::BacklightOutput {
            name: text(output, "name").unwrap(),
            path: text(output, "path"),
            capturer: text(output, "capturer").map(|value| capturer(&value)),
            vulkan_device: text(output, "vulkan_device"),
            predictor: None,
        })
        .collect();
    let ddcutil = tables(&config, "ddcutil")
        .into_iter()
        .map(|output| wluma::config::file::DdcUtilOutput {
            name: text(output, "name").unwrap(),
            identifier: text(output, "identifier"),
            capturer: text(output, "capturer").map(|value| capturer(&value)),
            vulkan_device: text(output, "vulkan_device"),
            predictor: None,
        })
        .collect();
    let config = wluma::config::file::Config {
        als,
        output: wluma::config::file::OutputByType { backlight, ddcutil },
        keyboard: vec![],
    };
    assert!(check_readable(&config));
    convert(config, &None)
}

#[test]
fn test_iio_path_is_optional() {
    let config = parse_config_str(
        r#"
[als.iio]
thresholds = { 0 = "night" }
"#,
    );

    match config.als {
        app::Als::Iio { path, thresholds } => {
            assert_eq!(path, None);
            assert_eq!(vec![(0, "night".to_string())], thresholds.entries);
        }
        _ => unreachable!(),
    }
}

#[test]
fn test_iio_path_can_configure_fallback() {
    let config = parse_config_str(
        r#"
[als.iio]
path = "/sys/bus/iio/devices"
thresholds = { 0 = "night" }
"#,
    );

    match config.als {
        app::Als::Iio { path, .. } => {
            assert_eq!(path.as_deref(), Some("/sys/bus/iio/devices"));
        }
        _ => unreachable!(),
    }
}

#[test]
fn test_backlight_override_needs_only_a_name() {
    let config = parse_config_str(
        r#"
[als.none]

[[output.backlight]]
name = "eDP-1"
capturer = "none"
vulkan_device = "/dev/dri/renderD128"
"#,
    );

    match &config.output[0] {
        Output::Backlight(output) => {
            assert_eq!(output.name, "eDP-1");
            assert!(output.path.is_empty());
            assert!(matches!(output.capturer, app::Capturer::Off));
            assert_eq!(output.vulkan_device.as_deref(), Some("/dev/dri/renderD128"));
        }
        _ => unreachable!(),
    }
}

#[test]
fn test_pipewire_capturers() {
    for (value, expected) in [
        ("pipewire", PipewireProtocol::Any),
        ("xdg-desktop-portal-screencast", PipewireProtocol::Portal),
        ("zkde-screencast-unstable-v1", PipewireProtocol::Kwin),
        ("gnome-mutter-screencast", PipewireProtocol::Mutter),
    ] {
        let config = parse_config_str(&format!(
            r#"
[als.none]

[[output.backlight]]
name = "panel"
path = "/sys/class/backlight/panel"
capturer = "{value}"
"#,
        ));

        match &config.output[0] {
            Output::Backlight(output) => match &output.capturer {
                app::Capturer::Pipewire(protocol) => assert_eq!(*protocol, expected),
                _ => unreachable!(),
            },
            _ => unreachable!(),
        }
    }
}

#[test]
fn wayland_capturers_name_their_protocol() {
    for (value, expected, name) in [
        ("wayland", WaylandProtocol::Any, "any"),
        ("wlroots", WaylandProtocol::Any, "any"),
        (
            "ext-image-copy-capture-v1",
            WaylandProtocol::ExtImageCopyCaptureV1,
            "ext-image-copy-capture-v1",
        ),
        (
            "wlr-screencopy-unstable-v1",
            WaylandProtocol::WlrScreencopyUnstableV1,
            "wlr-screencopy-unstable-v1",
        ),
        (
            "wlr-export-dmabuf-unstable-v1",
            WaylandProtocol::WlrExportDmabufUnstableV1,
            "wlr-export-dmabuf-unstable-v1",
        ),
    ] {
        assert_eq!(
            app::Capturer::Wayland(expected),
            match_capturer(capturer(value))
        );
        assert_eq!(name, expected.name());
    }
    assert_eq!(app::Capturer::Auto, match_capturer(wluma::config::file::Capturer::default()));
}

#[test]
fn test_ddc_identifier_defaults_to_output_name() {
    let config = parse_config_str(
        r#"
[als.none]

[[output.backlight]]
name = "panel"
path = "/sys/class/backlight/panel"
capturer = "none"

[[output.ddcutil]]
name = "HDMI-A-3"
capturer = "none"
"#,
    );

    match &config.output[0] {
        Output::Backlight(output) => {
            assert_eq!("panel", output.name);
        }
        _ => unreachable!(),
    }

    match &config.output[1] {
        Output::DdcUtil(output) => {
            assert_eq!("HDMI-A-3", output.name);
            assert_eq!("HDMI-A-3", output.identifier);
            assert!(!output.identifier_overridden);
        }
        _ => unreachable!(),
    }
}

#[test]
fn test_ddc_identifier_can_be_configured_separately() {
    let config = parse_config_str(
        r#"
[als.none]

[[output.backlight]]
name = "panel"
path = "/sys/class/backlight/panel"
capturer = "none"

[[output.ddcutil]]
name = "HDMI-A-3"
identifier = "serial-123"
capturer = "none"
"#,
    );

    match &config.output[0] {
        Output::Backlight(output) => {
            assert_eq!("panel", output.name);
        }
        _ => unreachable!(),
    }

    match &config.output[1] {
        Output::DdcUtil(output) => {
            assert_eq!("HDMI-A-3", output.name);
            assert_eq!("serial-123", output.identifier);
            assert!(output.identifier_overridden);
        }
        _ => unreachable!(),
    }
}

#[test]
fn formats_automatic_vulkan_device_for_config_dump() {
    assert_eq!(VulkanDevice::Auto.describe(), "Auto");
    assert_eq!(
        VulkanDevice::Path("/dev/dri/renderD128".to_string()).describe(),
        "\"/dev/dri/renderD128\""
    );
}

#[test]
fn device_paths_are_optional() {
    assert_eq!(None, VulkanDevice::default().as_deref());
    let device = VulkanDevice::from(Some("/dev/dri/card0".to_string()));
    assert_eq!(Some("/dev/dri/card0"), device.as_deref());
    assert_eq!(None, VulkanDevice::from(None).as_deref());
    assert!(device.same(&device.clone()));
    assert!(!device.same(&VulkanDevice::Auto));
    assert_eq!(
        "\"a\\\"b\\n\"",
        VulkanDevice::Path("a\"b\n".to_string()).describe()
    );
}

#[test]
fn adds_detected_outputs_and_applies_overrides() {
    let configured = vec![backlight("eDP-1", "", app::Capturer::Off)];
    let detected = vec![
        backlight("eDP-1", "/sys/backlight/panel", app::Capturer::Auto),
        backlight("DP-1", "/sys/backlight/external", app::Capturer::Auto),
    ];
    let merged = merge(configured, detected, &Names::new());

    assert_eq!(merged.len(), 2);
    match &merged[1] {
        Output::Backlight(output) => {
            assert_eq!(output.name, "eDP-1");
            assert_eq!(output.path, "/sys/backlight/panel");
            assert!(matches!(output.capturer, app::Capturer::Off));
        }
        _ => unreachable!(),
    }
}

#[test]
fn configured_keyboard_replaces_detected_keyboard_by_path() {
    let configured = backlight(
        "keyboard-dell",
        "/sys/class/leds/dell::kbd_backlight",
        app::Capturer::Off,
    );
    let detected = backlight(
        "dell::kbd_backlight",
        "/sys/class/leds/dell::kbd_backlight",
        app::Capturer::Off,
    );
    let merged = merge(vec![configured], vec![detected], &Names::new());

    assert_eq!(merged.len(), 1);
    match &merged[0] {
        Output::Backlight(output) => assert_eq!(output.name, "keyboard-dell"),
        _ => unreachable!(),
    }
}

#[test]
fn paths_are_compared_where_they_lead() {
    let configured = backlight("panel", "/dev/panel", app::Capturer::Off);
    let detected = backlight("eDP-1", "/sys/class/backlight/panel", app::Capturer::Auto);
    let mut resolved = Names::new();
    resolved.insert("/dev/panel".to_string(), "/sys/devices/panel".to_string());
    let apart = merge(vec![configured.clone()], vec![detected.clone()], &resolved);
    assert_eq!(vec!["eDP-1", "panel"], names(&apart));
    resolved.insert(
        "/sys/class/backlight/panel".to_string(),
        "/sys/devices//panel/".to_string(),
    );
    let one = merge(vec![configured], vec![detected], &resolved);
    assert_eq!(vec!["panel"], names(&one));
    match &one[0] {
        Output::Backlight(output) => assert_eq!("/dev/panel", output.path),
        _ => unreachable!(),
    }
}

#[test]
fn preserves_detected_ddc_identifier_when_it_is_not_overridden() {
    let configured = monitor("HDMI-A-1", "HDMI-A-1", false, app::Capturer::Off);
    let detected = monitor("HDMI-A-1", "serial-123", false, app::Capturer::Auto);

    match &merge(vec![configured], vec![detected], &Names::new())[0] {
        Output::DdcUtil(output) => {
            assert_eq!(output.identifier, "serial-123");
            assert!(matches!(output.capturer, app::Capturer::Off));
        }
        _ => unreachable!(),
    }
}

#[test]
fn a_configured_identifier_replaces_the_detected_one() {
    let configured = monitor("HDMI-A-1", "DELL", true, app::Capturer::Auto);
    let detected = monitor("HDMI-A-1", "serial-123", false, app::Capturer::Auto);
    match &merge(vec![configured], vec![detected], &Names::new())[0] {
        Output::DdcUtil(output) => {
            assert_eq!(output.identifier, "DELL");
            assert!(output.identifier_overridden);
        }
        _ => unreachable!(),
    }
}

#[test]
fn a_detected_kind_of_output_is_kept() {
    let configured = monitor("eDP-1", "DELL", true, app::Capturer::Off);
    let detected = backlight("eDP-1", "/sys/backlight/panel", app::Capturer::Auto);
    match &merge(vec![configured], vec![detected], &Names::new())[0] {
        Output::Backlight(output) => {
            assert_eq!("/sys/backlight/panel", output.path);
            assert_eq!(app::Capturer::Off, output.capturer);
        }
        _ => unreachable!(),
    }
}

#[test]
fn skips_unresolved_pathless_overrides() {
    assert!(merge(
        vec![backlight("disconnected", "", app::Capturer::Auto)],
        vec![],
        &Names::new()
    )
    .is_empty());
}

#[test]
fn outputs_with_one_name_keep_their_order() {
    let merged = merge(
        vec![],
        vec![
            backlight("b", "/1", app::Capturer::Auto),
            backlight("a", "/2", app::Capturer::Auto),
            backlight("b", "/3", app::Capturer::Auto),
        ],
        &Names::new(),
    );
    let paths: Vec<&str> = merged
        .iter()
        .map(|output| match output {
            Output::Backlight(output) => output.path.as_str(),
            _ => unreachable!(),
        })
        .collect();
    assert_eq!(vec!["/2", "/1", "/3"], paths);
}

#[test]
fn validates_names_of_outputs() {
    let config = |output| Config {
        als: app::Als::Off,
        output,
    };
    let panel = || backlight("eDP-1", "/a", app::Capturer::Auto);
    let error = validate(config(vec![])).unwrap_err();
    assert_eq!("No connected output or keyboard detected", error.message());
    let error = validate(config(vec![panel(), panel()])).unwrap_err();
    assert_eq!(
        "Names of all outputs and keyboards are not unique",
        error.message()
    );
    assert!(validate(config(vec![panel()])).is_ok());
    let loaded = load(config(vec![]), vec![panel()], &Names::new()).unwrap();
    assert_eq!(vec!["eDP-1"], names(&loaded.output));
    assert_eq!(
        Some(ConfigError::NoOutput),
        load(config(vec![]), vec![], &Names::new()).err()
    );
}

#[test]
fn keys_that_are_no_numbers_are_refused() {
    let iio = |key: &str| wluma::config::file::Config {
        als: Some(wluma::config::file::Als::Iio {
            path: None,
            thresholds: Some(vec![(key.to_string(), "night".to_string())]),
        }),
        ..Default::default()
    };
    assert!(check_readable(&iio("10")));
    assert!(!check_readable(&iio("ten")));
    let manual = |luma: &str| wluma::config::file::Config {
        output: wluma::config::file::OutputByType {
            backlight: vec![],
            ddcutil: vec![wluma::config::file::DdcUtilOutput {
                name: "DP-1".to_string(),
                identifier: None,
                capturer: None,
                vulkan_device: None,
                predictor: Some(wluma::config::file::Predictor::Manual {
                    points: vec![],
                    thresholds: Some(vec![("night".to_string(), vec![(luma.to_string(), 5)])]),
                }),
            }],
        },
        ..Default::default()
    };
    assert!(check_readable(&manual("255")));
    assert!(!check_readable(&manual("256")));
}

#[test]
fn named_thresholds_become_points() {
    let config = wluma::config::file::Config {
        als: Some(wluma::config::file::Als::Webcam {
            video: 2,
            thresholds: Some(vec![
                ("30".to_string(), "day".to_string()),
                ("0".to_string(), "night".to_string()),
            ]),
        }),
        output: wluma::config::file::OutputByType {
            backlight: vec![wluma::config::file::BacklightOutput {
                name: "eDP-1".to_string(),
                path: Some("/panel".to_string()),
                capturer: None,
                vulkan_device: None,
                predictor: Some(wluma::config::file::Predictor::Manual {
                    points: vec![wluma::config::file::ManualPoint {
                        als: 7,
                        luma: 8,
                        reduction: 9,
                    }],
                    thresholds: Some(vec![
                        ("day".to_string(), vec![("0".to_string(), 10), ("100".to_string(), 60)]),
                        ("dusk".to_string(), vec![("0".to_string(), 1)]),
                    ]),
                }),
            }],
            ddcutil: vec![],
        },
        keyboard: vec![wluma::config::file::Keyboard {
            name: "keys".to_string(),
            path: "/leds/keys".to_string(),
        }],
    };
    assert!(check_readable(&config));
    let config = convert(config, &None);
    assert_eq!(("webcam", Scale::Linear), (config.als.kind(), config.als.scale()));
    let point = |als, luma, reduction| ManualPoint {
        als,
        luma,
        reduction,
    };
    match &config.output[0] {
        Output::Backlight(BacklightOutput {
            predictor: Predictor::Manual { points },
            min_brightness: 1,
            kind: BacklightKind::Display,
            ..
        }) => assert_eq!(vec![point(7, 8, 9), point(30, 0, 10), point(30, 100, 60)], *points),
        _ => unreachable!(),
    }
    match &config.output[1] {
        Output::Backlight(keyboard) => {
            assert_eq!(("keys", "/leds/keys"), (keyboard.name.as_str(), keyboard.path.as_str()));
            assert_eq!(0, keyboard.min_brightness);
            assert_eq!(app::Capturer::Off, keyboard.capturer);
            assert_eq!(AlsDirection::Decreasing, keyboard.als_direction);
            assert_eq!(BacklightKind::Keyboard, keyboard.kind);
        }
        _ => unreachable!(),
    }
}

#[test]
fn sources_of_light_are_read_from_the_file() {
    let als = |als| {
        convert(
            wluma::config::file::Config {
                als,
                ..Default::default()
            },
            &Some("/run/als.sock".to_string()),
        )
        .als
    };
    assert_eq!(("auto", Scale::Lux), (als(None).kind(), als(None).scale()));
    match als(Some(wluma::config::file::Als::External {
        path: None,
        scale: wluma::config::file::AlsScale::Linear,
    })) {
        app::Als::External { path, scale, .. } => {
            assert_eq!(("/run/als.sock", Scale::Linear), (path.as_str(), scale))
        }
        _ => unreachable!(),
    }
    match als(Some(wluma::config::file::Als::External {
        path: Some("/tmp/s".to_string()),
        scale: wluma::config::file::AlsScale::default(),
    })) {
        app::Als::External { path, scale, .. } => {
            assert_eq!(("/tmp/s", Scale::Lux), (path.as_str(), scale))
        }
        _ => unreachable!(),
    }
    let time = als(Some(wluma::config::file::Als::Time {
        levels: Some(vec![("8".to_string(), 90), ("6".to_string(), 10)]),
        thresholds: None,
    }));
    assert_eq!(("time", Scale::Linear), (time.kind(), time.scale()));
    let (thresholds, levels) = time.into_levels();
    assert!(thresholds.entries.is_empty());
    assert_eq!(vec![(6, 10), (8, 90)], levels.unwrap().entries);
    assert_eq!("none", als(Some(wluma::config::file::Als::Off)).kind());
}

fn edid(fill: u8) -> Vec<u8> {
    vec![fill; 128]
}

fn display(serial: &str, data: Vec<u8>) -> Display {
    Display {
        serial_number: Some(serial.to_string()),
        serial: None,
        model_name: None,
        manufacturer_id: None,
        edid: Some(data),
    }
}

#[test]
fn edids_are_compared_by_their_first_block() {
    let mut long = edid(1);
    long.push(9);
    assert!(same_edid(&edid(1), &long));
    assert!(!same_edid(&edid(1), &edid(2)));
    assert!(!same_edid(&vec![1; 127], &vec![1; 127]));
}

#[test]
fn displays_are_told_apart_by_what_they_give() {
    let mut display = Display {
        serial_number: Some("S1".to_string()),
        serial: Some(0x1ab),
        model_name: Some("M1".to_string()),
        manufacturer_id: Some("DEL".to_string()),
        edid: None,
    };
    assert_eq!(Some("S1".to_string()), display_identifier(&display));
    display.serial_number = Some(String::new());
    assert_eq!(Some("0x000001ab".to_string()), display_identifier(&display));
    assert_eq!(format!("{:#010x}", 0x1ab), display_identifier(&display).unwrap());
    display.serial = None;
    assert_eq!(Some("M1".to_string()), display_identifier(&display));
    display.model_name = None;
    assert_eq!(Some("DEL".to_string()), display_identifier(&display));
    display.manufacturer_id = None;
    assert_eq!(None, display_identifier(&display));
}

#[test]
fn connectors_take_the_best_backlight() {
    let entry = |path: &str, status: &str, fill: u8| ConnectorEntry {
        path: path.to_string(),
        canonical: path.to_string(),
        status: Some(status.to_string()),
        edid: edid(fill),
    };
    let connectors = discovery::connectors(vec![
        entry("/sys/class/drm/card1-eDP-1", "connected\n", 1),
        entry("/sys/class/drm/card1-DP-1", "disconnected\n", 2),
        entry("/sys/class/drm/renderD128", "connected\n", 3),
        entry("/sys/class/drm/card1-DP-2", " connected", 4),
    ]);
    let found: Vec<&str> = connectors.iter().map(|c: &Connector| c.name.as_str()).collect();
    assert_eq!(vec!["eDP-1", "DP-2"], found);
    let entry = |path: &str, canonical: &str, kind: &str| BacklightEntry {
        path: path.to_string(),
        canonical: canonical.to_string(),
        edid: vec![],
        kind: Some(kind.to_string()),
    };
    let backlights = discovery::backlights(
        vec![
            entry("/b/raw", "/sys/class/drm/card1-eDP-1/raw", "raw\n"),
            entry("/b/firmware", "/sys/class/drm/card1-eDP-1/fw", "firmware\n"),
            entry("/b/other", "/sys/devices/other", "platform\n"),
        ],
        &connectors,
    );
    let ranks: Vec<(u8, Option<&str>)> = backlights
        .iter()
        .map(|b: &Backlight| (b.rank, b.connector.as_deref()))
        .collect();
    assert_eq!(vec![(3, Some("eDP-1")), (1, Some("eDP-1")), (2, None)], ranks);
    let keyboards = discovery::keyboards(vec![
        LedEntry {
            path: "/sys/class/leds/Dell::KBD_backlight".to_string(),
            has_brightness: true,
            has_max_brightness: true,
        },
        LedEntry {
            path: "/sys/class/leds/tpacpi::power".to_string(),
            has_brightness: true,
            has_max_brightness: true,
        },
        LedEntry {
            path: "/sys/class/leds/x::kbd_backlight".to_string(),
            has_brightness: true,
            has_max_brightness: false,
        },
    ]);
    assert_eq!(vec!["Dell::KBD_backlight"], names(&keyboards));
    let outputs = discovery::outputs(
        connectors,
        &backlights,
        vec![display("S4", edid(4)), display("S1", edid(1))],
        keyboards,
    );
    assert_eq!(vec!["eDP-1", "DP-2", "Dell::KBD_backlight"], names(&outputs));
    match &outputs[0] {
        Output::Backlight(output) => assert_eq!("/b/raw", output.path),
        _ => unreachable!(),
    }
    match &outputs[1] {
        Output::DdcUtil(output) => assert_eq!("S4", output.identifier),
        _ => unreachable!(),
    }
}

#[test]
fn displays_that_look_alike_are_skipped() {
    let connector = |name: &str, fill: u8| Connector {
        name: name.to_string(),
        path: String::new(),
        edid: edid(fill),
    };
    let outputs = discovery::outputs(
        vec![connector("DP-1", 1), connector("DP-2", 2), connector("DP-3", 3)],
        &vec![],
        vec![
            display("twin", edid(1)),
            display("twin", edid(2)),
            display("alone", edid(3)),
        ],
        vec![],
    );
    assert_eq!(vec!["DP-3"], names(&outputs));
}

#[test]
fn what_is_plugged_in_is_listed_in_order() {
    let port = |path: &str, status: &str| Port {
        path: path.to_string(),
        status: status.to_string(),
    };
    let devices = vec!["b".to_string(), "a".to_string(), "b".to_string()];
    let listed = topology(
        &vec![port("c", "connected\n"), port("B", " disconnected")],
        &devices,
    );
    assert_eq!(vec!["B=disconnected", "a", "b", "b", "c=connected"], listed);
    let again = topology(
        &vec![port("B", "disconnected"), port("c", "connected")],
        &vec!["b".to_string(), "b".to_string(), "a".to_string()],
    );
    assert_eq!(listed, again);
}
