use wluma::control::render::{json_option, json_string, optional};
use wluma::control::socket::{
    is_cleared, lock_outcome, lock_path, may_replace, runtime_dir, socket_is_healthy, socket_path,
    watch_step, Claim, Found, NoRuntimeDir, Removal, Server, ServerEvent, ServerStep, WatchStep,
};
use wluma::control::status::Hub;
use wluma::control::{
    answer, parse_action, parse_adjustment, parse_request, parse_target, read_reply, Action,
    Adjustment, Request, RequestError,
};
use wluma::text::decimal::NumberFault;

#[test]
fn parses_brightness_adjustments() {
    let absolute = parse_adjustment("60%").unwrap();
    assert_eq!(absolute.percent, 60);
    assert!(!absolute.relative);

    for value in ["+5%", "5%+"] {
        let adjustment = parse_adjustment(value).unwrap();
        assert_eq!(adjustment.percent, 5);
        assert!(adjustment.relative);
        assert!(adjustment.increase);
    }

    for value in ["-5%", "5%-"] {
        let adjustment = parse_adjustment(value).unwrap();
        assert_eq!(adjustment.percent, 5);
        assert!(adjustment.relative);
        assert!(!adjustment.increase);
    }

    assert!(parse_adjustment("60").is_err());
    assert!(parse_adjustment("+5").is_err());
    assert!(parse_adjustment("101%").is_err());
}

#[test]
fn refuses_odd_adjustments() {
    for value in ["", "%", "+%", "%+", "+5%+", "x%", "256%", "5 %", "--5%"] {
        assert_eq!(
            Err(RequestError::InvalidBrightness),
            parse_adjustment(value),
            "{value}"
        );
    }
    assert_eq!(
        Ok(Adjustment {
            percent: 5,
            relative: true,
            increase: true
        }),
        parse_adjustment("++5%")
    );
    assert_eq!(
        "brightness must be a percentage from 0% to 100%",
        RequestError::InvalidBrightness.message()
    );
}

#[test]
fn aligns_status_columns_for_long_output_names() {
    let mut hub = Hub::new("iio-sensor-proxy");
    hub.set_als("iio-sensor-proxy", 925);
    hub.add_output("DP-1", "ddc", Some("wayland"));
    hub.set_luma("DP-1", 16);
    hub.set_brightness("DP-1", 99);
    hub.add_output("dell::kbd_backlight", "backlight", None);
    hub.set_brightness("dell::kbd_backlight", 0);

    assert_eq!(
        hub.snapshot().tables(),
        "ALS TYPE          VALUE\n\
         iio-sensor-proxy  925\n\
         \n\
         OUTPUT               TYPE       CAPTURER  LUMA  BRIGHTNESS  STATE\n\
         DP-1                 ddc        wayland   16%   99%         active\n\
         dell::kbd_backlight  backlight  -         -     0%          active"
    );
}

#[test]
fn an_empty_status_has_headers_only() {
    let hub = Hub::new("none");
    assert_eq!(
        "ALS TYPE  VALUE\nnone      -\n\nOUTPUT  TYPE  CAPTURER  LUMA  BRIGHTNESS  STATE",
        hub.snapshot().tables()
    );
    assert_eq!("als=-", hub.snapshot().line());
    assert_eq!(
        "{\"als\":{\"type\":\"none\",\"value\":null},\"outputs\":[]}",
        hub.snapshot().json()
    );
}

#[test]
fn columns_are_measured_in_bytes() {
    let mut hub = Hub::new("time");
    hub.add_output("Äußeres", "ddc", Some("auto"));
    let tables = hub.snapshot().tables();
    let row = tables.lines().last().unwrap();
    assert_eq!("Äußeres    ddc   auto      -     -           active", row);
}

#[test]
fn status_on_one_line() {
    let mut hub = Hub::new("time");
    hub.set_als("time", 7);
    hub.add_output("b", "ddc", Some("auto"));
    hub.add_output("a", "backlight", None);
    hub.set_luma("b", 3);
    hub.set_brightness("a", 40);
    hub.set_paused("a", true);
    assert_eq!(
        "als=7 a:luma=-,brightness=40%,paused b:luma=3%,brightness=-,active",
        hub.snapshot().line()
    );
    assert_eq!(
        "{\"als\":{\"type\":\"time\",\"value\":7},\"outputs\":[\
         {\"name\":\"a\",\"type\":\"backlight\",\"capturer\":null,\"luma\":null,\"brightness\":40,\"paused\":true},\
         {\"name\":\"b\",\"type\":\"ddc\",\"capturer\":\"auto\",\"luma\":3,\"brightness\":null,\"paused\":false}]}",
        hub.snapshot().json()
    );
}

#[test]
fn json_strings_are_escaped() {
    assert_eq!(
        "\"a\\\"b\\\\c\\nd\\re\\tf\\u0001g\\u007fh\\u0085ü\"",
        json_string("a\"b\\c\nd\re\tf\u{1}g\u{7f}h\u{85}ü")
    );
    assert_eq!("null", json_option(None));
    assert_eq!("12", json_option(Some(12)));
    assert_eq!("-", optional(None, "%"));
    assert_eq!("12%", optional(Some(12), "%"));
}

#[test]
fn only_news_are_told() {
    let mut hub = Hub::new("auto");
    assert!(hub.set_als("auto", 1));
    assert!(!hub.set_als("auto", 1));
    assert!(hub.set_als("external", 1));
    assert!(hub.add_output("DP-1", "ddc", Some("auto")));
    assert!(!hub.add_output("DP-1", "ddc", Some("auto")));
    assert!(hub.set_capturer("DP-1", "wayland"));
    assert!(!hub.set_capturer("DP-1", "wayland"));
    assert!(!hub.set_capturer("DP-2", "wayland"));
    assert!(!hub.set_luma("DP-2", 5));
    assert!(hub.set_luma("DP-1", 5));
    assert!(hub.set_paused("DP-1", true));
    assert!(!hub.set_paused("DP-1", true));
    assert!(!hub.set_brightness("DP-2", 5));
    assert!(hub.set_brightness("DP-1", 5));
    assert!(hub.remove_output("DP-1"));
    assert!(!hub.remove_output("DP-1"));
    assert_eq!("als=1", hub.snapshot().line());
}

#[test]
fn removing_an_output_undoes_adding_it() {
    let mut hub = Hub::new("auto");
    hub.add_output("DP-2", "ddc", None);
    let before = hub.snapshot().json();
    hub.add_output("DP-1", "ddc", Some("auto"));
    hub.remove_output("DP-1");
    assert_eq!(before, hub.snapshot().json());
}

fn action(line: &str) -> Action {
    match parse_request(line) {
        Ok(Request::Run(action)) => action,
        other => panic!("{other:?}"),
    }
}

#[test]
fn understands_requests() {
    assert!(matches!(
        parse_request("status\n"),
        Ok(Request::Status { json: false })
    ));
    assert!(matches!(
        parse_request("status-json\r\n"),
        Ok(Request::Status { json: true })
    ));
    assert!(matches!(
        parse_request("watch"),
        Ok(Request::Watch { json: false })
    ));
    assert!(matches!(
        parse_request("watch-json"),
        Ok(Request::Watch { json: true })
    ));
    assert!(matches!(action("get\tDP-1\n"), Action::Get(name) if name == "DP-1"));
    assert!(matches!(
        action("set\tDP-1\t5%-\n"),
        Action::SetTo(name, Adjustment { percent: 5, relative: true, increase: false }) if name == "DP-1"
    ));
    assert!(matches!(action("pause\t*\t-\n"), Action::Pause(None, None)));
    assert!(matches!(
        action("pause\tDP-1\t30\n"),
        Action::Pause(Some(name), Some(30)) if name == "DP-1"
    ));
    assert!(matches!(action("resume\t*"), Action::Resume(None)));
    assert!(matches!(action("toggle\tDP-1"), Action::Toggle(Some(name)) if name == "DP-1"));
}

#[test]
fn refuses_other_requests() {
    let error = |line: &str| parse_request(line).unwrap_err();
    assert_eq!(RequestError::InvalidRequest, error(""));
    assert_eq!(RequestError::InvalidRequest, error("status now"));
    assert_eq!(RequestError::InvalidRequest, error("get"));
    assert_eq!(RequestError::InvalidRequest, error("get\ta\tb"));
    assert_eq!(RequestError::InvalidBrightness, error("set\ta\t5"));
    assert_eq!(
        RequestError::InvalidDuration(NumberFault::InvalidDigit),
        error("pause\ta\tsoon")
    );
    assert_eq!(
        RequestError::InvalidDuration(NumberFault::TooLarge),
        error("pause\ta\t18446744073709551616")
    );
    assert_eq!("invalid control request", RequestError::InvalidRequest.message());
    assert_eq!("invalid digit found in string", error("pause\ta\tsoon").message());
    assert!(parse_action(&vec!["get".to_string(), "".to_string()]).is_ok());
    assert_eq!(None, parse_target("*"));
    assert_eq!(Some("**".to_string()), parse_target("**"));
}

#[test]
fn answers_reach_clients() {
    let line = |outcome| answer(outcome) + "\n";
    assert_eq!(
        Ok("60%".to_string()),
        read_reply(&line(Ok("60%".to_string())))
    );
    assert_eq!(
        Err("unknown or disconnected output 'x'".to_string()),
        read_reply(&line(Err("unknown or disconnected output 'x'".to_string())))
    );
    assert_eq!("error\tno", answer(Err("no".to_string())));
}

#[test]
fn the_socket_lies_in_the_runtime_directory() {
    let runtime = Some("/run/user/1000".to_string());
    assert_eq!(Ok("/run/user/1000/wluma".to_string()), runtime_dir(&runtime));
    assert_eq!(
        Ok("/run/user/1000/wluma/control.sock".to_string()),
        socket_path(&runtime)
    );
    assert_eq!(
        Ok("/run/user/1000/wluma/daemon.lock".to_string()),
        lock_path(&runtime)
    );
    assert_eq!(Err(NoRuntimeDir), socket_path(&None));
    assert_eq!("XDG_RUNTIME_DIR is not set", NoRuntimeDir.message());
}

#[test]
fn only_one_daemon_runs() {
    assert_eq!(Claim::Granted, lock_outcome(0, true));
    assert_eq!(Claim::Taken, lock_outcome(-1, true));
    assert_eq!(Claim::Failed, lock_outcome(-1, false));
    assert!(!may_replace(true, true));
    assert!(may_replace(false, true));
    assert!(may_replace(true, false));
    assert!(is_cleared(Removal::Removed) && is_cleared(Removal::NotFound));
    assert!(!is_cleared(Removal::Failed));
}

#[test]
fn a_damaged_socket_is_noticed() {
    let good = Found {
        device: 1,
        inode: 2,
        is_socket: true,
        mode: 0o140600,
    };
    assert!(socket_is_healthy(Some(good), 1, 2));
    assert!(!socket_is_healthy(Some(good), 1, 3));
    assert!(!socket_is_healthy(Some(good), 2, 2));
    assert!(!socket_is_healthy(Some(Found { is_socket: false, ..good }), 1, 2));
    assert!(!socket_is_healthy(Some(Found { mode: 0o140644, ..good }), 1, 2));
    assert!(!socket_is_healthy(None, 1, 2));
}

#[test]
fn a_lost_socket_is_bound_again() {
    let mut server = Server::new();
    assert_eq!(ServerStep::Fail, server.step(ServerEvent::BindFailed));
    assert_eq!(ServerStep::Listen, server.step(ServerEvent::Bound));
    assert_eq!(ServerStep::Answer, server.step(ServerEvent::Connected));
    assert_eq!(
        ServerStep::Listen,
        server.step(ServerEvent::Checked { healthy: true })
    );
    assert_eq!(
        ServerStep::Bind,
        server.step(ServerEvent::Checked { healthy: false })
    );
    assert_eq!(ServerStep::BindLater, server.step(ServerEvent::BindFailed));
    assert_eq!(ServerStep::Fail, server.step(ServerEvent::AcceptFailed));
}

#[test]
fn watching_survives_a_restart_of_the_daemon() {
    assert_eq!(WatchStep::Fail, watch_step(false, false));
    assert_eq!(WatchStep::Show, watch_step(false, true));
    assert_eq!(WatchStep::Retry, watch_step(true, false));
}
