use wluma::cli::{parse, parse_duration, Mode, UsageError, HELP};
use wluma::control::{parse_request, Action, Request};
use wluma::text::decimal::NumberFault;

fn mode(args: &[&str]) -> Result<Mode, UsageError> {
    let args = args.iter().map(|arg| arg.to_string()).collect();
    parse(&args, "4.10.0")
}

fn request(args: &[&str]) -> (String, bool) {
    match mode(args) {
        Ok(Mode::Command { request, stream }) => (request, stream),
        _ => panic!("{args:?} is no command"),
    }
}

#[test]
fn parses_durations() {
    assert_eq!(parse_duration("30s").unwrap(), 30);
    assert_eq!(parse_duration("45m").unwrap(), 2700);
    assert_eq!(parse_duration("3h").unwrap(), 10800);
    assert!(parse_duration("3").is_err());
}

#[test]
fn refuses_odd_durations() {
    assert_eq!(Err(UsageError::NoUnit), parse_duration(""));
    assert_eq!(Err(UsageError::NoUnit), parse_duration("3d"));
    assert_eq!(Err(UsageError::NoNumber(NumberFault::Empty)), parse_duration("h"));
    for number in ["-3", "1.5", "+", "99999999999999999999", "1_000", "99999999999999999999x", "ü"] {
        let error = number.parse::<u64>().unwrap_err().to_string();
        assert_eq!(error, parse_duration(&format!("{number}h")).unwrap_err().message());
    }
    assert_eq!(
        Err(UsageError::TooLong),
        parse_duration("5124095576030432h")
    );
    assert_eq!(Ok(18446744073709551600), parse_duration("5124095576030431h"));
    assert_eq!("duration must end in s, m, or h", UsageError::NoUnit.message());
    assert_eq!("duration is too large", UsageError::TooLong.message());
    assert_eq!(
        "cannot parse integer from empty string",
        UsageError::NoNumber(NumberFault::Empty).message()
    );
}

#[test]
fn runs_as_a_daemon_without_arguments() {
    assert!(matches!(mode(&[]), Ok(Mode::Daemon)));
    assert!(matches!(mode(&["daemon"]), Ok(Mode::Daemon)));
}

#[test]
fn prints_help_and_version() {
    for flag in ["help", "--help", "-h"] {
        assert!(matches!(mode(&[flag]), Ok(Mode::Print(text)) if text == HELP));
    }
    for flag in ["version", "--version", "-V"] {
        assert!(matches!(mode(&[flag]), Ok(Mode::Print(text)) if text == "wluma 4.10.0"));
    }
    assert!(HELP.starts_with("wluma - automatic brightness adjustment\n\nUsage:\n"));
    assert!(HELP.ends_with("  wluma pause --all --for 3h"));
}

#[test]
fn commands_become_requests() {
    for (args, expected) in [
        (vec!["status"], ("status", false)),
        (vec!["status", "--json"], ("status-json", false)),
        (vec!["watch"], ("watch", true)),
        (vec!["watch", "--json"], ("watch-json", true)),
        (vec!["get", "eDP-1"], ("get\teDP-1", false)),
        (vec!["set", "eDP-1", "+5%"], ("set\teDP-1\t+5%", false)),
        (vec!["pause"], ("pause\t*\t-", false)),
        (vec!["pause", "--all"], ("pause\t*\t-", false)),
        (vec!["pause", "DP-1"], ("pause\tDP-1\t-", false)),
        (vec!["pause", "--for", "3h"], ("pause\t*\t10800", false)),
        (vec!["pause", "--all", "--for", "3h"], ("pause\t*\t10800", false)),
        (vec!["pause", "DP-1", "--for", "30s"], ("pause\tDP-1\t30", false)),
        (vec!["resume"], ("resume\t*", false)),
        (vec!["resume", "--all"], ("resume\t*", false)),
        (vec!["resume", "DP-1"], ("resume\tDP-1", false)),
        (vec!["toggle"], ("toggle\t*", false)),
        (vec!["toggle", "--all"], ("toggle\t*", false)),
        (vec!["toggle", "DP-1"], ("toggle\tDP-1", false)),
    ] {
        assert_eq!((expected.0.to_string(), expected.1), request(&args));
    }
}

#[test]
fn the_daemon_understands_requests_of_clients() {
    let (pause, _) = request(&["pause", "DP-1", "--for", "3h"]);
    assert!(matches!(
        parse_request(&(pause + "\n")),
        Ok(Request::Run(Action::Pause(Some(name), Some(10800)))) if name == "DP-1"
    ));
    let (toggle, _) = request(&["toggle", "--all"]);
    assert!(matches!(
        parse_request(&(toggle + "\n")),
        Ok(Request::Run(Action::Toggle(None)))
    ));
}

#[test]
fn refuses_other_command_lines() {
    assert!(matches!(mode(&["frob"]), Err(UsageError::InvalidArguments)));
    assert!(matches!(mode(&["get"]), Err(UsageError::InvalidArguments)));
    assert!(matches!(
        mode(&["status", "--yaml"]),
        Err(UsageError::InvalidArguments)
    ));
    assert!(matches!(
        mode(&["set", "DP-1", "5"]),
        Err(UsageError::InvalidBrightness)
    ));
    assert!(matches!(
        mode(&["pause", "--for", "3"]),
        Err(UsageError::NoUnit)
    ));
    assert_eq!(
        format!("invalid arguments\n\n{HELP}"),
        UsageError::InvalidArguments.message()
    );
    assert_eq!(
        "brightness must be a percentage from 0% to 100%",
        UsageError::InvalidBrightness.message()
    );
}

#[test]
fn commands_without_an_end_or_an_output_are_understood() {
    let understood = |args: &[&str]| {
        let (line, stream) = request(args);
        (parse_request(&format!("{line}\n")).unwrap(), stream)
    };
    assert!(matches!(
        understood(&["pause"]),
        (Request::Run(Action::Pause(None, None)), false)
    ));
    assert!(matches!(
        understood(&["pause", "--all"]),
        (Request::Run(Action::Pause(None, None)), false)
    ));
    assert!(matches!(
        understood(&["pause", "DP-1"]),
        (Request::Run(Action::Pause(Some(name), None)), false) if name == "DP-1"
    ));
    assert!(matches!(
        understood(&["pause", "--for", "2m"]),
        (Request::Run(Action::Pause(None, Some(120))), false)
    ));
    assert!(matches!(
        understood(&["resume"]),
        (Request::Run(Action::Resume(None)), false)
    ));
    assert!(matches!(
        understood(&["toggle"]),
        (Request::Run(Action::Toggle(None)), false)
    ));
    assert!(matches!(understood(&["status"]), (Request::Status { json: false }, false)));
    assert!(matches!(understood(&["status", "--json"]), (Request::Status { json: true }, false)));
    assert!(matches!(understood(&["watch"]), (Request::Watch { json: false }, true)));
    assert!(matches!(understood(&["watch", "--json"]), (Request::Watch { json: true }, true)));
}
