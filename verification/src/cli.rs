//! The command line.

use crate::control::{
    adjustment_of, ends_plainly, has_no_tab, lemma_change_is_plain, lemma_line_end,
    lemma_more_fields, lemma_one_field, line_fields, parse_adjustment, request_of, target_of,
    ActionView, RequestError, RequestView,
};
use crate::text::chars::{chars, same, string_of};
use crate::text::decimal::{
    append_number, digits_of, is_digit, lemma_digits, number_fault, parse_number,
    read_inverts_write, read_number, NumberFault,
};
use crate::text::space::{is_white, views};
use vstd::prelude::*;

verus! {

/// How the program is used.
pub const HELP: &'static str = "wluma - automatic brightness adjustment

Usage:
  wluma [COMMAND] [OPTIONS]

Commands:
  daemon
  status [--json]
  get OUTPUT
  set OUTPUT VALUE
  pause [OUTPUT | --all] [--for DURATION]
  resume [OUTPUT | --all]
  toggle [OUTPUT | --all]
  watch [--json]
  version
  help

Examples:
  wluma set eDP-1 +5%
  wluma set DP-1 90%
  wluma pause --all --for 3h";

/// What the program is to do.
#[derive(Debug)]
pub enum Mode {
    /// Adjust brightness.
    Daemon,
    /// Send a request to the daemon, and keep showing what it answers where
    /// that is a stream.
    Command { request: String, stream: bool },
    /// Show a text.
    Print(String),
}

pub ghost enum ModeView {
    Daemon,
    Command { request: Seq<char>, stream: bool },
    Print(Seq<char>),
}

impl View for Mode {
    type V = ModeView;

    open spec fn view(&self) -> ModeView {
        match self {
            Mode::Daemon => ModeView::Daemon,
            Mode::Command { request, stream } => ModeView::Command {
                request: request@,
                stream: *stream,
            },
            Mode::Print(text) => ModeView::Print(text@),
        }
    }
}

/// Why a command line is refused.
#[derive(Clone, Copy, Debug, PartialEq, Eq, Structural)]
pub enum UsageError {
    InvalidArguments,
    InvalidBrightness,
    /// A duration does not end in a unit.
    NoUnit,
    /// A duration is not a number.
    NoNumber(NumberFault),
    /// A duration is too large to count in seconds.
    TooLong,
}

impl UsageError {
    /// What the error says.
    pub open spec fn spec_message(self) -> Seq<char> {
        match self {
            UsageError::InvalidArguments => "invalid arguments\n\n"@ + HELP@,
            UsageError::InvalidBrightness => "brightness must be a percentage from 0% to 100%"@,
            UsageError::NoUnit => "duration must end in s, m, or h"@,
            UsageError::NoNumber(fault) => fault.spec_message(),
            UsageError::TooLong => "duration is too large"@,
        }
    }

    pub fn message(&self) -> (r: String)
        ensures
            r@ == self.spec_message(),
            self is InvalidArguments ==> r@ == "invalid arguments\n\n"@ + HELP@,
            self is InvalidBrightness ==> r@ == "brightness must be a percentage from 0% to 100%"@,
            self is NoUnit ==> r@ == "duration must end in s, m, or h"@,
            self matches UsageError::NoNumber(fault) ==> r@ == fault.spec_message(),
            self is TooLong ==> r@ == "duration is too large"@,
    {
        match self {
            UsageError::InvalidArguments => {
                let mut r = "invalid arguments\n\n".to_string();
                r.append(HELP);
                r
            },
            UsageError::InvalidBrightness => "brightness must be a percentage from 0% to 100%".to_string(),
            UsageError::NoUnit => "duration must end in s, m, or h".to_string(),
            UsageError::NoNumber(fault) => fault.message().to_string(),
            UsageError::TooLong => "duration is too large".to_string(),
        }
    }
}

/// How many seconds a unit has.
pub open spec fn unit_seconds(unit: char) -> Option<nat> {
    if unit == 's' {
        Some(1)
    } else if unit == 'm' {
        Some(60)
    } else if unit == 'h' {
        Some(3600)
    } else {
        None
    }
}

/// How many seconds a duration has: a number, and then a unit.
pub open spec fn duration_of(value: Seq<char>) -> Result<nat, UsageError> {
    if value.len() == 0 {
        Err(UsageError::NoUnit)
    } else {
        match unit_seconds(value.last()) {
            None => Err(UsageError::NoUnit),
            Some(unit) => match read_number(value.drop_last(), u64::MAX as nat) {
                None => Err(
                    UsageError::NoNumber(number_fault(value.drop_last(), u64::MAX as nat)->0),
                ),
                Some(number) => if number * unit <= u64::MAX {
                    Ok(number * unit)
                } else {
                    Err(UsageError::TooLong)
                },
            },
        }
    }
}

/// How many seconds a duration has.
pub fn parse_duration(value: &str) -> (r: Result<u64, UsageError>)
    ensures
        r is Ok <==> duration_of(value@) is Ok,
        r matches Ok(seconds) ==> duration_of(value@) == Ok::<nat, UsageError>(seconds as nat),
        r matches Err(error) ==> duration_of(value@) == Err::<nat, UsageError>(error),
{
    let v = chars(value);
    if v.len() == 0 {
        return Err(UsageError::NoUnit);
    }
    let unit: u64 = match v[v.len() - 1] {
        's' => 1,
        'm' => 60,
        'h' => 3600,
        _ => {
            return Err(UsageError::NoUnit);
        },
    };
    let number = string_of(&v, 0, v.len() - 1);
    assert(number@ =~= value@.drop_last());
    match parse_number(number.as_str(), u64::MAX) {
        Err(fault) => Err(UsageError::NoNumber(fault)),
        Ok(number) => match number.checked_mul(unit) {
            Some(seconds) => Ok(seconds),
            None => Err(UsageError::TooLong),
        },
    }
}

/// An answer that comes at once.
pub open spec fn ask(request: Seq<char>) -> Result<ModeView, UsageError> {
    Ok(ModeView::Command { request, stream: false })
}

/// The output that an argument names, for a request.
pub open spec fn requested_target(target: Seq<char>) -> Seq<char> {
    if target == "--all"@ {
        "*"@
    } else {
        target
    }
}

/// A pause of an output, with an end.
pub open spec fn timed_pause(target: Seq<char>, duration: Seq<char>) -> Result<
    ModeView,
    UsageError,
> {
    match duration_of(duration) {
        Ok(seconds) => ask("pause\t"@ + target + "\t"@ + digits_of(seconds)),
        Err(error) => Err(error),
    }
}

/// What one argument asks for.
pub open spec fn mode_of_one(command: Seq<char>, version: Seq<char>) -> Result<
    ModeView,
    UsageError,
> {
    if command == "daemon"@ {
        Ok(ModeView::Daemon)
    } else if command == "help"@ || command == "--help"@ || command == "-h"@ {
        Ok(ModeView::Print(HELP@))
    } else if command == "version"@ || command == "--version"@ || command == "-V"@ {
        Ok(ModeView::Print("wluma "@ + version))
    } else if command == "status"@ {
        ask("status"@)
    } else if command == "pause"@ {
        ask("pause\t*\t-"@)
    } else if command == "resume"@ {
        ask("resume\t*"@)
    } else if command == "toggle"@ {
        ask("toggle\t*"@)
    } else if command == "watch"@ {
        Ok(ModeView::Command { request: "watch"@, stream: true })
    } else {
        Err(UsageError::InvalidArguments)
    }
}

/// What two arguments ask for.
pub open spec fn mode_of_two(command: Seq<char>, second: Seq<char>) -> Result<
    ModeView,
    UsageError,
> {
    if command == "status"@ && second == "--json"@ {
        ask("status-json"@)
    } else if command == "get"@ {
        ask("get\t"@ + second)
    } else if command == "pause"@ {
        ask("pause\t"@ + requested_target(second) + "\t-"@)
    } else if command == "resume"@ {
        ask("resume\t"@ + requested_target(second))
    } else if command == "toggle"@ {
        ask("toggle\t"@ + requested_target(second))
    } else if command == "watch"@ && second == "--json"@ {
        Ok(ModeView::Command { request: "watch-json"@, stream: true })
    } else {
        Err(UsageError::InvalidArguments)
    }
}

/// What three arguments ask for.
pub open spec fn mode_of_three(command: Seq<char>, second: Seq<char>, third: Seq<char>) -> Result<
    ModeView,
    UsageError,
> {
    if command == "set"@ {
        match adjustment_of(third) {
            Some(_) => ask("set\t"@ + second + "\t"@ + third),
            None => Err(UsageError::InvalidBrightness),
        }
    } else if command == "pause"@ && second == "--for"@ {
        timed_pause("*"@, third)
    } else {
        Err(UsageError::InvalidArguments)
    }
}

/// What the arguments ask for.
pub open spec fn mode_of(args: Seq<Seq<char>>, version: Seq<char>) -> Result<
    ModeView,
    UsageError,
> {
    if args.len() == 0 {
        Ok(ModeView::Daemon)
    } else if args.len() == 1 {
        mode_of_one(args[0], version)
    } else if args.len() == 2 {
        mode_of_two(args[0], args[1])
    } else if args.len() == 3 {
        mode_of_three(args[0], args[1], args[2])
    } else if args.len() == 4 && args[0] == "pause"@ && args[2] == "--for"@ {
        timed_pause(requested_target(args[1]), args[3])
    } else {
        Err(UsageError::InvalidArguments)
    }
}

/// The outcome, as plain text.
pub open spec fn mode_view(r: Result<Mode, UsageError>) -> Result<ModeView, UsageError> {
    match r {
        Ok(mode) => Ok(mode@),
        Err(error) => Err(error),
    }
}

fn command_mode(request: &str, stream: bool) -> (r: Result<Mode, UsageError>)
    ensures
        mode_view(r) == Ok::<ModeView, UsageError>(ModeView::Command { request: request@, stream }),
{
    Ok(Mode::Command { request: request.to_string(), stream })
}

/// The output that an argument names, for a request.
fn request_target(target: &str) -> (r: &str)
    ensures
        r@ == requested_target(target@),
{
    if same(target, "--all") {
        "*"
    } else {
        target
    }
}

/// A pause of an output, with an end.
fn pause_for(target: &str, duration: &str) -> (r: Result<Mode, UsageError>)
    ensures
        mode_view(r) == timed_pause(target@, duration@),
{
    match parse_duration(duration) {
        Ok(seconds) => {
            let mut request = "pause\t".to_string();
            request.append(target);
            request.append("\t");
            append_number(&mut request, seconds);
            Ok(Mode::Command { request, stream: false })
        },
        Err(error) => Err(error),
    }
}

fn parse_one(command: &str, version: &str) -> (r: Result<Mode, UsageError>)
    ensures
        mode_view(r) == mode_of_one(command@, version@),
{
    if same(command, "daemon") {
        Ok(Mode::Daemon)
    } else if same(command, "help") || same(command, "--help") || same(command, "-h") {
        Ok(Mode::Print(HELP.to_string()))
    } else if same(command, "version") || same(command, "--version") || same(command, "-V") {
        let mut text = "wluma ".to_string();
        text.append(version);
        Ok(Mode::Print(text))
    } else if same(command, "status") {
        command_mode("status", false)
    } else if same(command, "pause") {
        command_mode("pause\t*\t-", false)
    } else if same(command, "resume") {
        command_mode("resume\t*", false)
    } else if same(command, "toggle") {
        command_mode("toggle\t*", false)
    } else if same(command, "watch") {
        command_mode("watch", true)
    } else {
        Err(UsageError::InvalidArguments)
    }
}

fn parse_two(command: &str, second: &str) -> (r: Result<Mode, UsageError>)
    ensures
        mode_view(r) == mode_of_two(command@, second@),
{
    if same(command, "status") && same(second, "--json") {
        command_mode("status-json", false)
    } else if same(command, "get") {
        let mut request = "get\t".to_string();
        request.append(second);
        Ok(Mode::Command { request, stream: false })
    } else if same(command, "pause") {
        let mut request = "pause\t".to_string();
        request.append(request_target(second));
        request.append("\t-");
        Ok(Mode::Command { request, stream: false })
    } else if same(command, "resume") {
        let mut request = "resume\t".to_string();
        request.append(request_target(second));
        Ok(Mode::Command { request, stream: false })
    } else if same(command, "toggle") {
        let mut request = "toggle\t".to_string();
        request.append(request_target(second));
        Ok(Mode::Command { request, stream: false })
    } else if same(command, "watch") && same(second, "--json") {
        command_mode("watch-json", true)
    } else {
        Err(UsageError::InvalidArguments)
    }
}

fn parse_three(command: &str, second: &str, third: &str) -> (r: Result<Mode, UsageError>)
    ensures
        mode_view(r) == mode_of_three(command@, second@, third@),
{
    if same(command, "set") {
        match parse_adjustment(third) {
            Ok(_) => {
                let mut request = "set\t".to_string();
                request.append(second);
                request.append("\t");
                request.append(third);
                Ok(Mode::Command { request, stream: false })
            },
            Err(_) => Err(UsageError::InvalidBrightness),
        }
    } else if same(command, "pause") && same(second, "--for") {
        pause_for("*", third)
    } else {
        Err(UsageError::InvalidArguments)
    }
}

/// What the arguments, without the name of the program, ask for.
pub fn parse(args: &Vec<String>, version: &str) -> (r: Result<Mode, UsageError>)
    ensures
        mode_view(r) == mode_of(views(args@), version@),
{
    let ghost all = views(args@);
    assert(all.len() == args@.len());
    assert(forall|i: int| 0 <= i < all.len() ==> #[trigger] all[i] == args@[i]@);
    if args.len() == 0 {
        Ok(Mode::Daemon)
    } else if args.len() == 1 {
        parse_one(args[0].as_str(), version)
    } else if args.len() == 2 {
        parse_two(args[0].as_str(), args[1].as_str())
    } else if args.len() == 3 {
        parse_three(args[0].as_str(), args[1].as_str(), args[2].as_str())
    } else if args.len() == 4 && same(args[0].as_str(), "pause") && same(
        args[2].as_str(),
        "--for",
    ) {
        pause_for(request_target(args[1].as_str()), args[3].as_str())
    } else {
        Err(UsageError::InvalidArguments)
    }
}

/// The daemon understands a line as the given request.
pub open spec fn is_understood(request: Seq<char>, as_request: RequestView) -> bool {
    request_of(line_fields(request + "\n"@)) == Ok::<RequestView, RequestError>(as_request)
}

/// The fields of a request of two fields.
proof fn lemma_two_fields(request: Seq<char>, first: Seq<char>, second: Seq<char>)
    requires
        request == first + "\t"@ + second,
        has_no_tab(first),
        has_no_tab(second),
        ends_plainly(second),
    ensures
        line_fields(request + "\n"@) == seq![first, second],
{
    assert(request.last() == second.last());
    lemma_line_end(request);
    lemma_more_fields(first, second);
    lemma_one_field(second);
    assert(seq![first] + seq![second] =~= seq![first, second]);
}

/// The fields of a request of three fields.
proof fn lemma_three_fields(
    request: Seq<char>,
    first: Seq<char>,
    second: Seq<char>,
    third: Seq<char>,
)
    requires
        request == first + "\t"@ + (second + "\t"@ + third),
        has_no_tab(first),
        has_no_tab(second),
        has_no_tab(third),
        ends_plainly(third),
    ensures
        line_fields(request + "\n"@) == seq![first, second, third],
{
    assert((second + "\t"@ + third).last() == third.last());
    assert(request.last() == third.last());
    lemma_line_end(request);
    lemma_more_fields(first, second + "\t"@ + third);
    lemma_more_fields(second, third);
    lemma_one_field(third);
    assert(seq![first] + (seq![second] + seq![third]) =~= seq![first, second, third]);
}

/// Asking for the brightness of an output on the command line makes the daemon
/// tell the brightness of that output.
pub proof fn get_is_understood(output: Seq<char>, version: Seq<char>)
    requires
        has_no_tab(output),
        ends_plainly(output),
    ensures
        mode_of(seq!["get"@, output], version) matches Ok(ModeView::Command { request, stream })
            && !stream && is_understood(request, RequestView::Run(ActionView::Get(output))),
{
    reveal_strlit("get");
    reveal_strlit("get\t");
    reveal_strlit("\t");
    reveal_strlit("status");
    lemma_literals_differ();
    let request = "get\t"@ + output;
    assert(request =~= "get"@ + "\t"@ + output);
    lemma_two_fields(request, "get"@, output);
    let fields = seq!["get"@, output];
    assert(fields.len() != 1);
    assert(fields[0] == "get"@ && fields[1] == output);
    lemma_not_one(fields);
}

/// Asking to set the brightness of an output on the command line makes the
/// daemon change that output in that way.
pub proof fn set_is_understood(output: Seq<char>, value: Seq<char>, version: Seq<char>)
    requires
        has_no_tab(output),
        adjustment_of(value) is Some,
    ensures
        mode_of(seq!["set"@, output, value], version) matches Ok(
            ModeView::Command { request, stream },
        ) && !stream && is_understood(
            request,
            RequestView::Run(ActionView::SetTo(output, adjustment_of(value)->0)),
        ),
{
    reveal_strlit("set");
    reveal_strlit("set\t");
    reveal_strlit("\t");
    lemma_literals_differ();
    lemma_change_is_plain(value);
    let request = "set\t"@ + output + "\t"@ + value;
    assert(request =~= "set"@ + "\t"@ + (output + "\t"@ + value));
    lemma_three_fields(request, "set"@, output, value);
    let fields = seq!["set"@, output, value];
    assert(fields[0] == "set"@ && fields[1] == output && fields[2] == value);
    lemma_not_one(fields);
}

/// Asking for a pause with an end on the command line makes the daemon pause the
/// named output, or all, for as many seconds as the duration has.
pub proof fn pause_is_understood(
    target: Seq<char>,
    duration: Seq<char>,
    version: Seq<char>,
)
    requires
        has_no_tab(target),
        duration_of(duration) is Ok,
    ensures
        mode_of(seq!["pause"@, target, "--for"@, duration], version) matches Ok(
            ModeView::Command { request, stream },
        ) && !stream && is_understood(
            request,
            RequestView::Run(
                ActionView::Pause(
                    target_of(requested_target(target)),
                    Some(duration_of(duration)->Ok_0 as u64),
                ),
            ),
        ),
{
    reveal_strlit("pause");
    reveal_strlit("pause\t");
    reveal_strlit("\t");
    reveal_strlit("*");
    reveal_strlit("-");
    lemma_literals_differ();
    let named = requested_target(target);
    let seconds = duration_of(duration)->Ok_0;
    let digits = digits_of(seconds);
    lemma_digits(seconds);
    read_inverts_write(seconds, u64::MAX as nat);
    assert(has_no_tab(digits)) by {
        assert forall|i: int| 0 <= i < digits.len() implies #[trigger] digits[i] != '\t' by {
            assert(is_digit(digits[i]));
        }
    }
    assert(is_digit(digits[digits.len() - 1]));
    assert(is_digit(digits[0]));
    assert(!is_white(digits.last()));
    let request = "pause\t"@ + named + "\t"@ + digits;
    assert(request =~= "pause"@ + "\t"@ + (named + "\t"@ + digits));
    lemma_three_fields(request, "pause"@, named, digits);
    let fields = seq!["pause"@, named, digits];
    assert(fields[0] == "pause"@ && fields[1] == named && fields[2] == digits);
    assert("-"@[0] == '-');
    assert(digits != "-"@);
    lemma_not_one(fields);
    let args = seq!["pause"@, target, "--for"@, duration];
    assert(args[0] == "pause"@ && args[1] == target && args[2] == "--for"@ && args[3] == duration);
}

/// Asking for a pause of all outputs with an end on the command line makes the daemon pause them for
/// as many seconds as the duration has.
pub proof fn pause_of_all_is_understood(duration: Seq<char>, version: Seq<char>)
    requires
        duration_of(duration) is Ok,
    ensures
        mode_of(seq!["pause"@, "--for"@, duration], version) matches Ok(
            ModeView::Command { request, stream },
        ) && !stream && is_understood(
            request,
            RequestView::Run(ActionView::Pause(None, Some(duration_of(duration)->Ok_0 as u64))),
        ),
{
    reveal_strlit("--all");
    reveal_strlit("*");
    lemma_literals_differ();
    assert("--all"@.len() == 5);
    pause_is_understood("--all"@, duration, version);
    let named = seq!["pause"@, "--all"@, "--for"@, duration];
    assert(named[0] == "pause"@ && named[1] == "--all"@ && named[2] == "--for"@ && named[3]
        == duration);
    let args = seq!["pause"@, "--for"@, duration];
    assert(args[0] == "pause"@ && args[1] == "--for"@ && args[2] == duration);
}

/// Asking for a pause without an end on the command line makes the daemon pause the named output,
/// or all, until it is told otherwise.
pub proof fn endless_pause_is_understood(target: Seq<char>, version: Seq<char>)
    requires
        has_no_tab(target),
    ensures
        mode_of(seq!["pause"@, target], version) matches Ok(ModeView::Command { request, stream })
            && !stream && is_understood(
            request,
            RequestView::Run(ActionView::Pause(target_of(requested_target(target)), None)),
        ),
{
    reveal_strlit("pause");
    reveal_strlit("pause\t");
    reveal_strlit("\t");
    reveal_strlit("\t-");
    reveal_strlit("*");
    reveal_strlit("-");
    lemma_literals_differ();
    let named = requested_target(target);
    let request = "pause\t"@ + named + "\t-"@;
    assert(request =~= "pause"@ + "\t"@ + (named + "\t"@ + "-"@));
    lemma_three_fields(request, "pause"@, named, "-"@);
    let fields = seq!["pause"@, named, "-"@];
    assert(fields[0] == "pause"@ && fields[1] == named && fields[2] == "-"@);
    lemma_not_one(fields);
    let args = seq!["pause"@, target];
    assert(args[0] == "pause"@ && args[1] == target);
}

/// Asking to pause, to resume or to toggle without more on the command line makes the daemon do that
/// with all outputs.
pub proof fn bare_commands_are_understood(version: Seq<char>)
    ensures
        mode_of(seq!["pause"@], version) matches Ok(ModeView::Command { request, stream }) && !stream
            && is_understood(request, RequestView::Run(ActionView::Pause(None, None))),
        mode_of(seq!["resume"@], version) matches Ok(ModeView::Command { request, stream })
            && !stream && is_understood(request, RequestView::Run(ActionView::Resume(None))),
        mode_of(seq!["toggle"@], version) matches Ok(ModeView::Command { request, stream })
            && !stream && is_understood(request, RequestView::Run(ActionView::Toggle(None))),
{
    reveal_strlit("--all");
    reveal_strlit("*");
    reveal_strlit("pause\t");
    reveal_strlit("resume\t");
    reveal_strlit("toggle\t");
    reveal_strlit("\t-");
    reveal_strlit("pause\t*\t-");
    reveal_strlit("resume\t*");
    reveal_strlit("toggle\t*");
    lemma_literals_differ();
    assert("--all"@.len() == 5);
    endless_pause_is_understood("--all"@, version);
    resume_and_toggle_are_understood("--all"@, version);
    assert("pause\t*\t-"@ =~= "pause\t"@ + "*"@ + "\t-"@);
    assert("resume\t*"@ =~= "resume\t"@ + "*"@);
    assert("toggle\t*"@ =~= "toggle\t"@ + "*"@);
    let pause = seq!["pause"@, "--all"@];
    let resume = seq!["resume"@, "--all"@];
    let toggle = seq!["toggle"@, "--all"@];
    assert(pause[0] == "pause"@ && pause[1] == "--all"@);
    assert(resume[0] == "resume"@ && resume[1] == "--all"@);
    assert(toggle[0] == "toggle"@ && toggle[1] == "--all"@);
    assert(seq!["pause"@][0] == "pause"@);
    assert(seq!["resume"@][0] == "resume"@);
    assert(seq!["toggle"@][0] == "toggle"@);
}

/// A request of one field.
proof fn lemma_single_field(request: Seq<char>)
    requires
        has_no_tab(request),
        ends_plainly(request),
    ensures
        line_fields(request + "\n"@) == seq![request],
{
    lemma_line_end(request);
    lemma_one_field(request);
}

/// Asking for the status on the command line makes the daemon tell it, once or again and again, and
/// in the form that was asked for.
pub proof fn status_is_understood(version: Seq<char>)
    ensures
        mode_of(seq!["status"@], version) matches Ok(ModeView::Command { request, stream })
            && !stream && is_understood(request, RequestView::Status { json: false }),
        mode_of(seq!["status"@, "--json"@], version) matches Ok(
            ModeView::Command { request, stream },
        ) && !stream && is_understood(request, RequestView::Status { json: true }),
        mode_of(seq!["watch"@], version) matches Ok(ModeView::Command { request, stream }) && stream
            && is_understood(request, RequestView::Watch { json: false }),
        mode_of(seq!["watch"@, "--json"@], version) matches Ok(
            ModeView::Command { request, stream },
        ) && stream && is_understood(request, RequestView::Watch { json: true }),
{
    reveal_strlit("status");
    reveal_strlit("status-json");
    reveal_strlit("watch");
    reveal_strlit("watch-json");
    lemma_literals_differ();
    lemma_single_field("status"@);
    lemma_single_field("status-json"@);
    lemma_single_field("watch"@);
    lemma_single_field("watch-json"@);
    assert(seq!["status"@][0] == "status"@);
    assert(seq!["status-json"@][0] == "status-json"@);
    assert(seq!["watch"@][0] == "watch"@);
    assert(seq!["watch-json"@][0] == "watch-json"@);
    assert("status"@.len() == 6 && "status-json"@.len() == 11);
    assert("watch"@.len() == 5 && "watch-json"@.len() == 10);
    assert("watch-json"@[0] == 'w' && "status-json"@[0] == 's');
    let status = seq!["status"@, "--json"@];
    let watch = seq!["watch"@, "--json"@];
    assert(status[0] == "status"@ && status[1] == "--json"@);
    assert(watch[0] == "watch"@ && watch[1] == "--json"@);
}

/// Asking to resume or to toggle on the command line makes the daemon do that
/// with the named output, or with all.
pub proof fn resume_and_toggle_are_understood(target: Seq<char>, version: Seq<char>)
    requires
        has_no_tab(target),
        ends_plainly(target),
    ensures
        mode_of(seq!["resume"@, target], version) matches Ok(
            ModeView::Command { request, stream },
        ) && !stream && is_understood(
            request,
            RequestView::Run(ActionView::Resume(target_of(requested_target(target)))),
        ),
        mode_of(seq!["toggle"@, target], version) matches Ok(
            ModeView::Command { request, stream },
        ) && !stream && is_understood(
            request,
            RequestView::Run(ActionView::Toggle(target_of(requested_target(target)))),
        ),
{
    reveal_strlit("resume");
    reveal_strlit("resume\t");
    reveal_strlit("toggle");
    reveal_strlit("toggle\t");
    reveal_strlit("\t");
    reveal_strlit("*");
    lemma_literals_differ();
    let named = requested_target(target);
    let request = "resume\t"@ + named;
    assert(request =~= "resume"@ + "\t"@ + named);
    lemma_two_fields(request, "resume"@, named);
    let fields = seq!["resume"@, named];
    assert(fields[0] == "resume"@ && fields[1] == named);
    lemma_not_one(fields);
    let request = "toggle\t"@ + named;
    assert(request =~= "toggle"@ + "\t"@ + named);
    lemma_two_fields(request, "toggle"@, named);
    let fields = seq!["toggle"@, named];
    assert(fields[0] == "toggle"@ && fields[1] == named);
    lemma_not_one(fields);
}

/// A request of more than one field does not ask for the status.
proof fn lemma_not_one(fields: Seq<Seq<char>>)
    requires
        fields.len() > 1,
    ensures
        fields != seq!["status"@],
        fields != seq!["status-json"@],
        fields != seq!["watch"@],
        fields != seq!["watch-json"@],
{
    assert(seq!["status"@].len() == 1);
    assert(seq!["status-json"@].len() == 1);
    assert(seq!["watch"@].len() == 1);
    assert(seq!["watch-json"@].len() == 1);
}

/// The names of the commands differ.
proof fn lemma_literals_differ()
    ensures
        "get"@ != "set"@,
        "get"@ != "pause"@,
        "get"@ != "resume"@,
        "get"@ != "toggle"@,
        "get"@ != "status"@,
        "get"@ != "watch"@,
        "set"@ != "pause"@,
        "set"@ != "resume"@,
        "set"@ != "toggle"@,
        "set"@ != "status"@,
        "set"@ != "watch"@,
        "pause"@ != "resume"@,
        "pause"@ != "toggle"@,
        "pause"@ != "status"@,
        "pause"@ != "watch"@,
        "resume"@ != "toggle"@,
        "resume"@ != "status"@,
        "resume"@ != "watch"@,
        "toggle"@ != "status"@,
        "toggle"@ != "watch"@,
        "status"@ != "watch"@,
        "pause"@ != "daemon"@,
        "pause"@ != "help"@,
        "pause"@ != "--help"@,
        "pause"@ != "-h"@,
        "pause"@ != "version"@,
        "pause"@ != "--version"@,
        "pause"@ != "-V"@,
        "resume"@ != "daemon"@,
        "resume"@ != "help"@,
        "resume"@ != "--help"@,
        "resume"@ != "-h"@,
        "resume"@ != "version"@,
        "resume"@ != "--version"@,
        "resume"@ != "-V"@,
        "toggle"@ != "daemon"@,
        "toggle"@ != "help"@,
        "toggle"@ != "--help"@,
        "toggle"@ != "-h"@,
        "toggle"@ != "version"@,
        "toggle"@ != "--version"@,
        "toggle"@ != "-V"@,
        "status"@ != "daemon"@,
        "status"@ != "help"@,
        "status"@ != "--help"@,
        "status"@ != "-h"@,
        "status"@ != "version"@,
        "status"@ != "--version"@,
        "status"@ != "-V"@,
        "watch"@ != "daemon"@,
        "watch"@ != "help"@,
        "watch"@ != "--help"@,
        "watch"@ != "-h"@,
        "watch"@ != "version"@,
        "watch"@ != "--version"@,
        "watch"@ != "-V"@,
{
    reveal_strlit("get");
    reveal_strlit("set");
    reveal_strlit("pause");
    reveal_strlit("resume");
    reveal_strlit("toggle");
    reveal_strlit("status");
    reveal_strlit("watch");
    reveal_strlit("daemon");
    reveal_strlit("help");
    reveal_strlit("--help");
    reveal_strlit("-h");
    reveal_strlit("version");
    reveal_strlit("--version");
    reveal_strlit("-V");
    assert("get"@[0] == 'g');
    assert("set"@[0] == 's');
    assert("pause"@[0] == 'p');
    assert("resume"@[0] == 'r');
    assert("toggle"@[0] == 't');
    assert("status"@[0] == 's');
    assert("watch"@[0] == 'w');
    assert("daemon"@[0] == 'd');
    assert("help"@[0] == 'h');
    assert("--help"@[0] == '-');
    assert("-h"@[0] == '-');
    assert("version"@[0] == 'v');
    assert("--version"@[0] == '-');
    assert("-V"@[0] == '-');
    assert("set"@.len() == 3);
    assert("status"@.len() == 6);
}

/// A duration has as many seconds as its number has of its unit, unless these are too many to count.
pub proof fn duration_counts_its_unit(number: nat, unit: char)
    requires
        number <= u64::MAX,
    ensures
        ({
            let text = digits_of(number).push(unit);
            &&& unit == 's' ==> duration_of(text) == Ok::<nat, UsageError>(number)
            &&& unit == 'm' && number * 60 <= u64::MAX ==> duration_of(text) == Ok::<nat, UsageError>(
                number * 60,
            )
            &&& unit == 'h' && number * 3600 <= u64::MAX ==> duration_of(text) == Ok::<
                nat,
                UsageError,
            >(number * 3600)
            &&& unit == 'm' && number * 60 > u64::MAX ==> duration_of(text) == Err::<
                nat,
                UsageError,
            >(UsageError::TooLong)
            &&& unit == 'h' && number * 3600 > u64::MAX ==> duration_of(text) == Err::<
                nat,
                UsageError,
            >(UsageError::TooLong)
        }),
{
    read_inverts_write(number, u64::MAX as nat);
    let text = digits_of(number).push(unit);
    assert(text.drop_last() =~= digits_of(number));
    assert(text.last() == unit);
    if unit == 's' {
        assert(unit_seconds(unit) == Some(1nat));
        assert(number * 1nat == number);
    } else if unit == 'm' {
        assert(unit_seconds(unit) == Some(60nat));
        assert(number * unit_seconds(unit)->0 == number * 60nat);
    } else if unit == 'h' {
        assert(unit_seconds(unit) == Some(3600nat));
        assert(number * unit_seconds(unit)->0 == number * 3600nat);
    }
}

/// A duration is a number and a unit: without a unit that is what is told, and without a number the
/// fault of the number.
pub proof fn duration_needs_number_and_unit(text: Seq<char>, unit: char)
    ensures
        duration_of(Seq::empty()) == Err::<nat, UsageError>(UsageError::NoUnit),
        unit != 's' && unit != 'm' && unit != 'h' <==> duration_of(text.push(unit)) == Err::<
            nat,
            UsageError,
        >(UsageError::NoUnit),
        unit == 's' || unit == 'm' || unit == 'h' ==> (number_fault(text, u64::MAX as nat) matches Some(
            fault,
        ) ==> duration_of(text.push(unit)) == Err::<nat, UsageError>(UsageError::NoNumber(fault))),
        duration_of(text.push(unit)) is Ok ==> read_number(text, u64::MAX as nat) is Some,
{
    assert(text.push(unit).drop_last() =~= text);
    crate::text::decimal::fault_or_number(text, u64::MAX as nat);
}

/// A pause, a resumption or a toggle is for all outputs exactly when all are asked for, and otherwise
/// for the one that is named.
pub proof fn all_outputs_have_to_be_asked_for(target: Seq<char>)
    ensures
        target_of(requested_target(target)) is None <==> target == "--all"@ || target == "*"@,
        target_of(requested_target(target)) matches Some(name) ==> name == target,
{
    reveal_strlit("--all");
    reveal_strlit("*");
}

/// Without arguments the program is the daemon. Help and the version are shown without it.
pub proof fn program_is_the_daemon_by_default(version: Seq<char>, command: Seq<char>)
    ensures
        mode_of(Seq::empty(), version) == Ok::<ModeView, UsageError>(ModeView::Daemon),
        mode_of(seq![command], version) == Ok::<ModeView, UsageError>(ModeView::Daemon) <==> command
            == "daemon"@,
        mode_of(seq!["help"@], version) == Ok::<ModeView, UsageError>(ModeView::Print(HELP@)),
        mode_of(seq!["--help"@], version) == Ok::<ModeView, UsageError>(ModeView::Print(HELP@)),
        mode_of(seq!["-h"@], version) == Ok::<ModeView, UsageError>(ModeView::Print(HELP@)),
        mode_of(seq!["version"@], version) == Ok::<ModeView, UsageError>(
            ModeView::Print("wluma "@ + version),
        ),
        mode_of(seq!["--version"@], version) == Ok::<ModeView, UsageError>(
            ModeView::Print("wluma "@ + version),
        ),
        mode_of(seq!["-V"@], version) == Ok::<ModeView, UsageError>(
            ModeView::Print("wluma "@ + version),
        ),
{
    reveal_strlit("daemon");
    reveal_strlit("help");
    reveal_strlit("--help");
    reveal_strlit("-h");
    reveal_strlit("version");
    reveal_strlit("--version");
    reveal_strlit("-V");
    assert("daemon"@[0] == 'd' && "help"@[0] == 'h' && "version"@[0] == 'v');
    assert("--help"@[0] == '-' && "-h"@[0] == '-' && "--version"@[0] == '-' && "-V"@[0] == '-');
    assert("--help"@.len() == 6 && "-h"@.len() == 2 && "--version"@.len() == 9 && "-V"@.len() == 2);
    assert("-h"@[1] == 'h' && "-V"@[1] == 'V');
    assert(seq![command][0] == command);
    assert(seq!["help"@][0] == "help"@ && seq!["--help"@][0] == "--help"@ && seq!["-h"@][0]
        == "-h"@);
    assert(seq!["version"@][0] == "version"@ && seq!["--version"@][0] == "--version"@ && seq![
        "-V"@,
    ][0] == "-V"@);
}

/// Commands are refused with more arguments than they take, with fewer, and where they are not known.
pub proof fn other_arguments_are_refused(args: Seq<Seq<char>>, version: Seq<char>)
    ensures
        mode_of(args, version) == Err::<ModeView, UsageError>(UsageError::InvalidArguments) <==> !({
            ||| args.len() == 0
            ||| args.len() == 1 && (args[0] == "daemon"@ || args[0] == "help"@ || args[0]
                == "--help"@ || args[0] == "-h"@ || args[0] == "version"@ || args[0] == "--version"@
                || args[0] == "-V"@ || args[0] == "status"@ || args[0] == "pause"@ || args[0]
                == "resume"@ || args[0] == "toggle"@ || args[0] == "watch"@)
            ||| args.len() == 2 && (args[0] == "get"@ || args[0] == "pause"@ || args[0]
                == "resume"@ || args[0] == "toggle"@)
            ||| args.len() == 2 && args[1] == "--json"@ && (args[0] == "status"@ || args[0]
                == "watch"@)
            ||| args.len() == 3 && args[0] == "set"@
            ||| args.len() == 3 && args[0] == "pause"@ && args[1] == "--for"@
            ||| args.len() == 4 && args[0] == "pause"@ && args[2] == "--for"@
        }),
        args.len() == 3 && args[0] == "set"@ && adjustment_of(args[2]) is None ==> mode_of(
            args,
            version,
        ) == Err::<ModeView, UsageError>(UsageError::InvalidBrightness),
        args.len() == 4 && args[0] == "pause"@ && args[2] == "--for"@ ==> (duration_of(
            args[3],
        ) matches Err(error) ==> mode_of(args, version) == Err::<ModeView, UsageError>(error)),
        args.len() == 3 && args[0] == "pause"@ && args[1] == "--for"@ ==> (duration_of(
            args[2],
        ) matches Err(error) ==> mode_of(args, version) == Err::<ModeView, UsageError>(error)),
{
    lemma_literals_differ();
}

/// What the program is to do is told by all that it holds.
pub proof fn mode_is_told(text: String, stream: bool, error: UsageError)
    ensures
        mode_view(Ok(Mode::Daemon)) == Ok::<ModeView, UsageError>(ModeView::Daemon),
        mode_view(Ok(Mode::Command { request: text, stream })) == Ok::<ModeView, UsageError>(
            ModeView::Command { request: text@, stream },
        ),
        mode_view(Ok(Mode::Print(text))) == Ok::<ModeView, UsageError>(ModeView::Print(text@)),
        mode_view(Err(error)) == Err::<ModeView, UsageError>(error),
{
}

} // verus!
