//! Monitors that are controlled over DDC, directly or with the `ddcutil` program.

use super::backlight::{clamp, clamped};
use crate::text::chars::{chars, same};
use crate::text::decimal::{
    append_number, digits_of, is_digit, lemma_digits, parse, read_inverts_write, read_number,
};
use crate::text::layout::{join, joined_by};
use crate::text::path::lemma_last_field;
use crate::text::search::{
    begins_with, contains, holds, starts_with, strip_prefix,
};
use crate::text::space::{
    fields_of, first_index, lemma_trimmed_push, lines, lines_of, split, split_whitespace, trim,
    trim_start, trimmed, trimmed_start, views, without_return, words_of,
};
use vstd::prelude::*;

verus! {

/// The feature of a monitor that is its brightness.
pub const DDC_BRIGHTNESS_FEATURE: u8 = 0x10;

pub const DDC_DIRECT_WAITING_SLEEP_MS: u64 = 500;

pub const DDC_DIRECT_TRANSITION_STEP_MS: u64 = 50;

pub const DDC_CLI_WAITING_SLEEP_MS: u64 = 800;

pub const DDC_CLI_TRANSITION_STEP_MS: u64 = 100;

pub const DDC_DIRECT_RETRY_SLEEP_MS: u64 = 40;

pub const DDC_CLI_RETRY_SLEEP_MS: u64 = 150;

/// How often something is tried.
pub const DDC_RETRIES: u8 = 3;

/// A monitor that the program has found.
#[derive(Debug)]
pub struct CliDisplay {
    pub bus: u32,
    pub monitor: String,
}

/// Why something that the program wrote is not understood.
#[derive(Clone, Copy, Debug, PartialEq, Eq, Structural)]
pub enum ParseError {
    InvalidBus,
    NoValue,
    TooFewValues,
    InvalidCurrent,
    InvalidMaximum,
}

impl ParseError {
    /// What the error says, where the program wrote `output`.
    pub open spec fn spec_message(self, output: Seq<char>) -> Seq<char> {
        match self {
            ParseError::InvalidBus => "Unable to parse ddcutil bus number"@,
            ParseError::NoValue => "ddcutil getvcp returned unexpected output: "@ + trimmed(output),
            ParseError::TooFewValues => "ddcutil getvcp returned unexpected terse output: "@
                + match value_line(lines_of(output), 0) {
                Some(line) => line,
                None => Seq::empty(),
            },
            ParseError::InvalidCurrent =>
                "Unable to parse current brightness from ddcutil getvcp output"@,
            ParseError::InvalidMaximum =>
                "Unable to parse max brightness from ddcutil getvcp output"@,
        }
    }

    /// What the error says, where the program wrote `output`.
    pub fn message(&self, output: &str) -> (r: String)
        ensures
            r@ == self.spec_message(output@),
            self is InvalidBus ==> r@ == "Unable to parse ddcutil bus number"@,
            self is NoValue ==> r@ == "ddcutil getvcp returned unexpected output: "@ + trimmed(
                output@,
            ),
            self is TooFewValues ==> (value_line(lines_of(output@), 0) matches Some(line) ==> r@
                == "ddcutil getvcp returned unexpected terse output: "@ + line),
            self is InvalidCurrent ==> r@
                == "Unable to parse current brightness from ddcutil getvcp output"@,
            self is InvalidMaximum ==> r@
                == "Unable to parse max brightness from ddcutil getvcp output"@,
    {
        match self {
            ParseError::InvalidBus => "Unable to parse ddcutil bus number".to_string(),
            ParseError::NoValue => {
                let mut r = "ddcutil getvcp returned unexpected output: ".to_string();
                r.append(trim(output).as_str());
                r
            },
            ParseError::TooFewValues => {
                let mut r = "ddcutil getvcp returned unexpected terse output: ".to_string();
                if let Some(line) = find_value_line(output) {
                    r.append(line.as_str());
                }
                assert(r@ =~= self.spec_message(output@));
                r
            },
            ParseError::InvalidCurrent =>
                "Unable to parse current brightness from ddcutil getvcp output".to_string(),
            ParseError::InvalidMaximum =>
                "Unable to parse max brightness from ddcutil getvcp output".to_string(),
        }
    }
}

/// What is known while the list of monitors is read.
pub ghost struct Reading {
    pub displays: Seq<(u32, Seq<char>)>,
    pub bus: Option<u32>,
    pub monitor: Option<Seq<char>>,
    pub valid: bool,
}

impl Reading {
    pub open spec fn initial() -> Reading {
        Reading { displays: Seq::empty(), bus: None, monitor: None, valid: true }
    }

    /// A monitor ends here. It counts where it is valid, and both its bus and its
    /// name are known.
    pub open spec fn ended(self, valid: bool) -> Reading {
        Reading {
            displays: if self.valid && self.bus is Some && self.monitor is Some {
                self.displays.push((self.bus->0, self.monitor->0))
            } else {
                self.displays
            },
            bus: None,
            monitor: None,
            valid,
        }
    }
}

/// The number of a bus: what follows the last dash in the path of its device.
pub open spec fn bus_number(bus: Seq<char>) -> Option<nat> {
    read_number(fields_of(bus, '-').last(), u32::MAX as nat)
}

/// What one more line tells.
pub open spec fn read_line(s: Reading, raw: Seq<char>) -> Result<Reading, ParseError> {
    let line = trimmed(raw);
    if line.len() == 0 || begins_with(line, "Display "@) {
        Ok(s.ended(true))
    } else if line == "Invalid display"@ {
        Ok(s.ended(false))
    } else if begins_with(line, "I2C bus:"@) {
        match bus_number(trimmed(line.skip(8))) {
            Some(bus) => Ok(Reading { bus: Some(bus as u32), ..s }),
            None => Err(ParseError::InvalidBus),
        }
    } else if begins_with(line, "Monitor:"@) {
        Ok(Reading { monitor: Some(trimmed(line.skip(8))), ..s })
    } else {
        Ok(s)
    }
}

/// What the first `n` lines tell.
pub open spec fn read_lines(all: Seq<Seq<char>>, n: nat) -> Result<Reading, ParseError>
    decreases n,
{
    if n == 0 {
        Ok(Reading::initial())
    } else {
        match read_lines(all, (n - 1) as nat) {
            Ok(s) => read_line(s, all[n - 1]),
            Err(error) => Err(error),
        }
    }
}

/// The monitors that a list tells of.
pub open spec fn detected(output: Seq<char>) -> Result<Seq<(u32, Seq<char>)>, ParseError> {
    let all = lines_of(output);
    match read_lines(all, all.len()) {
        Ok(s) => Ok(s.ended(true).displays),
        Err(error) => Err(error),
    }
}

/// What the monitors are.
pub open spec fn display_views(displays: Seq<CliDisplay>) -> Seq<(u32, Seq<char>)> {
    displays.map_values(|d: CliDisplay| (d.bus, d.monitor@))
}

/// The number of a bus.
pub fn parse_bus_number(bus: &str) -> (r: Option<u32>)
    ensures
        r is Some <==> bus_number(bus@) is Some,
        r matches Some(n) ==> bus_number(bus@) == Some(n as nat),
{
    let fields = split(bus, '-');
    let last = fields.len() - 1;
    assert(views(fields@).last() == fields@[last as int]@);
    match parse(fields[last].as_str(), u32::MAX as u64) {
        Some(n) => Some(n as u32),
        None => None,
    }
}

/// A text that may be known.
pub open spec fn known(text: Option<String>) -> Option<Seq<char>> {
    match text {
        Some(text) => Some(text@),
        None => None,
    }
}

/// What is known, as it is kept.
pub open spec fn is_kept(
    s: Reading,
    displays: Seq<CliDisplay>,
    bus: Option<u32>,
    monitor: Option<String>,
    valid: bool,
) -> bool {
    s.displays == display_views(displays) && s.bus == bus && s.monitor == known(monitor) && s.valid
        == valid
}

/// A monitor ends here.
fn push_cli_display(
    displays: &mut Vec<CliDisplay>,
    bus: Option<u32>,
    monitor: Option<String>,
    valid: bool,
)
    ensures
        display_views(final(displays)@) == (Reading {
            displays: display_views(old(displays)@),
            bus,
            monitor: known(monitor),
            valid,
        }).ended(true).displays,
{
    if let (Some(bus), Some(monitor)) = (bus, monitor) {
        if valid {
            displays.push(CliDisplay { bus, monitor });
            assert(display_views(displays@) =~= display_views(old(displays)@).push((bus, monitor@)));
        }
    }
}

/// The monitors that a list tells of.
pub fn parse_ddcutil_detect_output(output: &str) -> (r: Result<Vec<CliDisplay>, ParseError>)
    ensures
        r is Ok <==> detected(output@) is Ok,
        r matches Ok(displays) ==> detected(output@) == Ok::<Seq<(u32, Seq<char>)>, ParseError>(
            display_views(displays@),
        ),
        r matches Err(error) ==> detected(output@) == Err::<Seq<(u32, Seq<char>)>, ParseError>(
            error,
        ),
{
    proof {
        reveal_strlit("I2C bus:");
        reveal_strlit("Monitor:");
    }
    let rows = lines(output);
    let ghost all = lines_of(output@);
    let mut displays: Vec<CliDisplay> = Vec::new();
    let mut bus: Option<u32> = None;
    let mut monitor: Option<String> = None;
    let mut valid = true;
    assert(display_views(displays@) =~= Seq::empty());
    for i in 0..rows.len()
        invariant
            all == lines_of(output@),
            views(rows@) == all,
            "I2C bus:"@.len() == 8,
            "Monitor:"@.len() == 8,
            read_lines(all, i as nat) is Ok,
            is_kept(read_lines(all, i as nat)->Ok_0, displays@, bus, monitor, valid),
    {
        let ghost s = read_lines(all, i as nat)->Ok_0;
        let line = trim(rows[i].as_str());
        assert(all[i as int] == rows@[i as int]@);
        assert(read_lines(all, (i + 1) as nat) == read_line(s, all[i as int]));
        if chars(line.as_str()).len() == 0 || starts_with(line.as_str(), "Display ") {
            push_cli_display(&mut displays, bus, monitor, valid);
            bus = None;
            monitor = None;
            valid = true;
        } else if same(line.as_str(), "Invalid display") {
            push_cli_display(&mut displays, bus, monitor, valid);
            bus = None;
            monitor = None;
            valid = false;
        } else if let Some(rest) = strip_prefix(line.as_str(), "I2C bus:") {
            match parse_bus_number(trim(rest.as_str()).as_str()) {
                Some(number) => {
                    bus = Some(number);
                },
                None => {
                    proof {
                        lemma_error_stays(all, (i + 1) as nat, all.len());
                    }
                    return Err(ParseError::InvalidBus);
                },
            }
        } else if let Some(rest) = strip_prefix(line.as_str(), "Monitor:") {
            monitor = Some(trim(rest.as_str()));
        }
    }
    push_cli_display(&mut displays, bus, monitor, valid);
    Ok(displays)
}

/// An error among the first lines is an error of all.
proof fn lemma_error_stays(all: Seq<Seq<char>>, n: nat, m: nat)
    requires
        n <= m,
        read_lines(all, n) is Err,
    ensures
        read_lines(all, m) == read_lines(all, n),
    decreases m,
{
    if n < m {
        lemma_error_stays(all, n, (m - 1) as nat);
    }
}

/// What lines tell beyond what is known.
pub open spec fn read_from(s: Reading, all: Seq<Seq<char>>) -> Result<Reading, ParseError>
    decreases all.len(),
{
    if all.len() == 0 {
        Ok(s)
    } else {
        match read_line(s, all[0]) {
            Ok(next) => read_from(next, all.drop_first()),
            Err(error) => Err(error),
        }
    }
}

/// Reading all lines is reading some and then the others.
proof fn lemma_read_from(all: Seq<Seq<char>>, n: nat)
    requires
        n <= all.len(),
        read_lines(all, n) is Ok,
    ensures
        read_lines(all, all.len()) == read_from(read_lines(all, n)->Ok_0, all.skip(n as int)),
    decreases all.len() - n,
{
    let rest = all.skip(n as int);
    if n < all.len() {
        assert(rest[0] == all[n as int]);
        assert(rest.drop_first() =~= all.skip(n as int + 1));
        if read_lines(all, n + 1) is Ok {
            lemma_read_from(all, n + 1);
        } else {
            lemma_error_stays(all, n + 1, all.len());
        }
    }
}

/// The state with other monitors before those that it knows.
pub open spec fn behind(p: Seq<(u32, Seq<char>)>, s: Reading) -> Reading {
    Reading { displays: p + s.displays, ..s }
}

/// Monitors that are known already do not matter to what lines tell.
proof fn lemma_behind(p: Seq<(u32, Seq<char>)>, s: Reading, all: Seq<Seq<char>>)
    ensures
        read_from(behind(p, s), all) == match read_from(s, all) {
            Ok(after) => Ok::<Reading, ParseError>(behind(p, after)),
            Err(error) => Err(error),
        },
    decreases all.len(),
{
    if all.len() > 0 {
        lemma_ended_behind(p, s, true);
        lemma_ended_behind(p, s, false);
        assert(read_line(behind(p, s), all[0]) == match read_line(s, all[0]) {
            Ok(next) => Ok::<Reading, ParseError>(behind(p, next)),
            Err(error) => Err(error),
        });
        if let Ok(next) = read_line(s, all[0]) {
            lemma_behind(p, next, all.drop_first());
        }
    }
}

proof fn lemma_ended_behind(p: Seq<(u32, Seq<char>)>, s: Reading, valid: bool)
    ensures
        behind(p, s).ended(valid) == behind(p, s.ended(valid)),
{
    assert(behind(p, s).ended(valid).displays =~= behind(p, s.ended(valid)).displays);
}

/// A line feed is where the first one is found.
proof fn lemma_first_feed(a: Seq<char>, b: Seq<char>)
    ensures
        first_index(a, '\n') <= a.len(),
        first_index(a + b, '\n') == if first_index(a, '\n') < a.len() {
            first_index(a, '\n')
        } else {
            a.len() + first_index(b, '\n')
        },
    decreases a.len(),
{
    if a.len() == 0 {
        assert(a + b =~= b);
    } else {
        assert((a + b)[0] == a[0]);
        assert((a + b).drop_first() =~= a.drop_first() + b);
        lemma_first_feed(a.drop_first(), b);
    }
}

/// A line feed at the start of a text is a line without anything on it.
proof fn lemma_blank_line(s: Reading, text: Seq<char>, b: Seq<char>)
    requires
        text == seq!['\n'] + b,
    ensures
        read_from(s, lines_of(text)) == read_from(s.ended(true), lines_of(b)),
{
    assert(text[0] == '\n');
    assert(first_index(text, '\n') == 0);
    let none = text.take(0);
    assert(none =~= Seq::<char>::empty());
    assert(text.skip(1) =~= b);
    let all = lines_of(text);
    assert(all == seq![without_return(none)] + lines_of(b));
    assert(all[0] == none);
    assert(all.drop_first() =~= lines_of(b));
    assert(trimmed(none) =~= Seq::<char>::empty());
}

/// What is told before a line without anything on it ends there.
proof fn lemma_block(s: Reading, a: Seq<char>, b: Seq<char>, text: Seq<char>)
    requires
        text == a + seq!['\n', '\n'] + b,
    ensures
        read_from(s, lines_of(text)) == match read_from(s, lines_of(a)) {
            Ok(after) => read_from(after.ended(true), lines_of(b)),
            Err(error) => Err(error),
        },
    decreases a.len(),
{
    let tail = seq!['\n', '\n'] + b;
    let last = seq!['\n'] + b;
    assert(text =~= a + tail);
    assert(tail =~= seq!['\n'] + last);
    if a.len() == 0 {
        assert(text =~= tail);
        lemma_blank_line(s, tail, last);
        lemma_blank_line(s.ended(true), last, b);
        assert(s.ended(true).ended(true) == s.ended(true));
    } else {
        lemma_first_feed(a, tail);
        assert(first_index(tail, '\n') == 0);
        let n = first_index(a, '\n') as int;
        let all = lines_of(text);
        assert(text.take(n) =~= a.take(n));
        assert(all == seq![without_return(text.take(n))] + lines_of(text.skip(n + 1)));
        assert(all[0] == without_return(a.take(n)));
        assert(all.drop_first() =~= lines_of(text.skip(n + 1)));
        if n < a.len() {
            let rest = a.skip(n + 1);
            assert(text.skip(n + 1) =~= rest + seq!['\n', '\n'] + b);
            let own = lines_of(a);
            assert(own == seq![without_return(a.take(n))] + lines_of(rest));
            assert(own[0] == all[0]);
            assert(own.drop_first() =~= lines_of(rest));
            if let Ok(next) = read_line(s, all[0]) {
                lemma_block(next, rest, b, text.skip(n + 1));
            }
        } else {
            assert(a.take(n) =~= a);
            assert(text.skip(n + 1) =~= last);
            let own = lines_of(a);
            assert(own == seq![a]);
            assert(own[0] == a);
            assert(own.drop_first() =~= Seq::<Seq<char>>::empty());
            if a.last() == '\r' {
                lemma_trimmed_push(a.drop_last(), '\r');
                assert(a.drop_last().push('\r') =~= a);
            }
            assert(trimmed(all[0]) == trimmed(a));
            assert(read_line(s, all[0]) == read_line(s, a));
            if let Ok(next) = read_line(s, a) {
                lemma_blank_line(next, last, b);
                assert(read_from(next, own.drop_first()) == Ok::<Reading, ParseError>(next));
            }
        }
    }
}

/// The blocks of a list that a line without anything on it parts are independent: the list tells of
/// the monitors of the first block and then of those of the second one, and it is not understood
/// where one of the blocks is not.
pub proof fn blocks_are_independent(a: Seq<char>, b: Seq<char>)
    ensures
        detected(a + "\n\n"@ + b) == match (detected(a), detected(b)) {
            (Ok(first), Ok(second)) => Ok::<Seq<(u32, Seq<char>)>, ParseError>(first + second),
            (Err(error), _) => Err(error),
            (_, Err(error)) => Err(error),
        },
{
    reveal_strlit("\n\n");
    let text = a + "\n\n"@ + b;
    assert("\n\n"@ =~= seq!['\n', '\n']);
    let start = Reading::initial();
    lemma_read_from(lines_of(text), 0);
    lemma_read_from(lines_of(a), 0);
    lemma_read_from(lines_of(b), 0);
    assert(lines_of(text).skip(0) =~= lines_of(text));
    assert(lines_of(a).skip(0) =~= lines_of(a));
    assert(lines_of(b).skip(0) =~= lines_of(b));
    lemma_block(start, a, b, text);
    if let Ok(after) = read_from(start, lines_of(a)) {
        let first = after.ended(true).displays;
        assert(first + start.displays =~= first);
        assert(after.ended(true) == behind(first, start));
        lemma_behind(first, start, lines_of(b));
        if let Ok(end) = read_from(start, lines_of(b)) {
            lemma_ended_behind(first, end, true);
        }
    }
}

/// The bus of the first monitor, from the place `from` on, whose name holds the
/// identifier.
pub open spec fn bus_with(
    displays: Seq<(u32, Seq<char>)>,
    identifier: Seq<char>,
    from: int,
) -> Option<u32>
    decreases displays.len() - from,
{
    if from < 0 || from >= displays.len() {
        None
    } else if holds(displays[from].1, identifier) {
        Some(displays[from].0)
    } else {
        bus_with(displays, identifier, from + 1)
    }
}

/// The bus of the first monitor whose name holds the identifier.
pub fn find_bus(displays: &Vec<CliDisplay>, identifier: &str) -> (r: Option<u32>)
    ensures
        r == bus_with(display_views(displays@), identifier@, 0),
{
    let ghost all = display_views(displays@);
    let mut i: usize = 0;
    while i < displays.len()
        invariant
            i <= displays@.len(),
            all == display_views(displays@),
            bus_with(all, identifier@, 0) == bus_with(all, identifier@, i as int),
        decreases displays.len() - i,
    {
        if contains(displays[i].monitor.as_str(), identifier) {
            return Some(displays[i].bus);
        }
        i = i + 1;
    }
    None
}

/// The bus of the first monitor in a list of the program whose name holds the identifier.
pub fn find_ddcutil_bus_by_identifier(output: &str, identifier: &str) -> (r: Result<
    Option<u32>,
    ParseError,
>)
    ensures
        r == match detected(output@) {
            Ok(displays) => Ok::<Option<u32>, ParseError>(bus_with(displays, identifier@, 0)),
            Err(error) => Err(error),
        },
{
    match parse_ddcutil_detect_output(output) {
        Ok(displays) => Ok(find_bus(&displays, identifier)),
        Err(error) => Err(error),
    }
}

/// What is said where the program finds no monitor.
pub fn no_match_message(identifier: &str) -> (r: String)
    ensures
        r@ == "Unable to find a ddcutil display that matches '"@ + identifier@ + "'"@,
{
    let mut r = "Unable to find a ddcutil display that matches '".to_string();
    r.append(identifier);
    r.append("'");
    r
}

/// What is said of a monitor that cannot be spoken to in either way.
pub fn open_failure_message(identifier: &str, direct_error: &str, cli_error: &str) -> (r: String)
    ensures
        r@ == "Unable to initialize DDC display '"@ + identifier@ + "' directly ("@ + direct_error@
            + ") or via ddcutil CLI ("@ + cli_error@ + ")"@,
{
    let mut r = "Unable to initialize DDC display '".to_string();
    r.append(identifier);
    r.append("' directly (");
    r.append(direct_error);
    r.append(") or via ddcutil CLI (");
    r.append(cli_error);
    r.append(")");
    r
}

/// What is said where the brightness could not be set.
pub fn set_failure_message(bus: u32, value: u64) -> (r: String)
    ensures
        r@ == "ddcutil setvcp failed on bus "@ + digits_of(bus as nat)
            + " while setting brightness to "@ + digits_of(value as nat),
{
    let mut r = "ddcutil setvcp failed on bus ".to_string();
    append_number(&mut r, bus as u64);
    r.append(" while setting brightness to ");
    append_number(&mut r, value);
    r
}

/// The first line, from the place `from` on, that tells a value.
pub open spec fn value_line(all: Seq<Seq<char>>, from: int) -> Option<Seq<char>>
    decreases all.len() - from,
{
    if from < 0 || from >= all.len() {
        None
    } else if begins_with(trimmed_start(all[from]), "VCP "@) {
        Some(all[from])
    } else {
        value_line(all, from + 1)
    }
}

/// The brightness and the highest brightness that a line tells.
pub open spec fn line_values(line: Seq<char>) -> Result<(u64, u64), ParseError> {
    let words = words_of(line);
    if words.len() < 5 {
        Err(ParseError::TooFewValues)
    } else {
        match read_number(words[3], u64::MAX as nat) {
            None => Err(ParseError::InvalidCurrent),
            Some(current) => match read_number(words[4], u64::MAX as nat) {
                None => Err(ParseError::InvalidMaximum),
                Some(maximum) => Ok((current as u64, maximum as u64)),
            },
        }
    }
}

/// The brightness and the highest brightness that the program tells.
pub open spec fn told_values(output: Seq<char>) -> Result<(u64, u64), ParseError> {
    match value_line(lines_of(output), 0) {
        None => Err(ParseError::NoValue),
        Some(line) => line_values(line),
    }
}

/// The brightness and the highest brightness that a line tells.
fn parse_values(line: &str) -> (r: Result<(u64, u64), ParseError>)
    ensures
        r == line_values(line@),
{
    let words = split_whitespace(line);
    let ghost all = words_of(line@);
    assert(all.len() == words@.len());
    if words.len() < 5 {
        return Err(ParseError::TooFewValues);
    }
    assert(all[3] == words@[3]@ && all[4] == words@[4]@);
    match parse(words[3].as_str(), u64::MAX) {
        None => Err(ParseError::InvalidCurrent),
        Some(current) => match parse(words[4].as_str(), u64::MAX) {
            None => Err(ParseError::InvalidMaximum),
            Some(maximum) => Ok((current, maximum)),
        },
    }
}

/// The first line that tells a value.
fn find_value_line(output: &str) -> (r: Option<String>)
    ensures
        r is Some <==> value_line(lines_of(output@), 0) is Some,
        r matches Some(line) ==> value_line(lines_of(output@), 0) == Some(line@),
{
    let rows = lines(output);
    let ghost all = lines_of(output@);
    assert(all.len() == rows@.len());
    let mut i: usize = 0;
    while i < rows.len()
        invariant
            i <= rows@.len(),
            all == lines_of(output@),
            views(rows@) == all,
            all.len() == rows@.len(),
            value_line(all, 0) == value_line(all, i as int),
        decreases rows.len() - i,
    {
        assert(all[i as int] == rows@[i as int]@);
        if starts_with(trim_start(rows[i].as_str()).as_str(), "VCP ") {
            return Some(rows[i].clone());
        }
        i = i + 1;
    }
    None
}

/// The brightness and the highest brightness that the program tells.
pub fn parse_ddcutil_getvcp_output(output: &str) -> (r: Result<(u64, u64), ParseError>)
    ensures
        r == told_values(output@),
{
    match find_value_line(output) {
        Some(line) => parse_values(line.as_str()),
        None => Err(ParseError::NoValue),
    }
}

/// The arguments with which the program lists monitors.
pub fn detect_args() -> (r: Vec<String>)
    ensures
        views(r@) == seq!["detect"@, "--terse"@],
{
    let mut r: Vec<String> = Vec::new();
    r.push("detect".to_string());
    r.push("--terse".to_string());
    assert(views(r@) =~= seq!["detect"@, "--terse"@]);
    r
}

/// The arguments with which the program tells the brightness of the monitor on a
/// bus.
pub open spec fn get_arguments(bus: u32) -> Seq<Seq<char>> {
    seq!["--bus"@, digits_of(bus as nat), "getvcp"@, "10"@, "--terse"@]
}

pub fn get_args(bus: u32) -> (r: Vec<String>)
    ensures
        views(r@) == get_arguments(bus),
        views(r@) == seq!["--bus"@, digits_of(bus as nat), "getvcp"@, "10"@, "--terse"@],
{
    let mut r: Vec<String> = Vec::new();
    r.push("--bus".to_string());
    r.push(crate::text::decimal::digits(bus as u64));
    r.push("getvcp".to_string());
    r.push("10".to_string());
    r.push("--terse".to_string());
    assert(views(r@) =~= get_arguments(bus));
    r
}

/// The arguments with which the program sets the brightness of the monitor on a
/// bus.
pub open spec fn set_arguments(bus: u32, value: u64) -> Seq<Seq<char>> {
    seq![
        "--bus"@,
        digits_of(bus as nat),
        "setvcp"@,
        "10"@,
        digits_of(value as nat),
        "--noverify"@,
    ]
}

pub fn set_args(bus: u32, value: u64) -> (r: Vec<String>)
    ensures
        views(r@) == set_arguments(bus, value),
        views(r@) == seq![
            "--bus"@,
            digits_of(bus as nat),
            "setvcp"@,
            "10"@,
            digits_of(value as nat),
            "--noverify"@,
        ],
{
    let mut r: Vec<String> = Vec::new();
    r.push("--bus".to_string());
    r.push(crate::text::decimal::digits(bus as u64));
    r.push("setvcp".to_string());
    r.push("10".to_string());
    r.push(crate::text::decimal::digits(value));
    r.push("--noverify".to_string());
    assert(views(r@) =~= set_arguments(bus, value));
    r
}

/// What the program wrote before it failed.
pub open spec fn details_of(stdout: Seq<char>, stderr: Seq<char>) -> Seq<char> {
    if stdout.len() > 0 && stderr.len() > 0 {
        " stdout: "@ + stdout + " stderr: "@ + stderr
    } else if stdout.len() > 0 {
        " stdout: "@ + stdout
    } else if stderr.len() > 0 {
        " stderr: "@ + stderr
    } else {
        " no output"@
    }
}

/// What is said of a run of the program that failed.
pub open spec fn failure_of(
    args: Seq<Seq<char>>,
    code: Option<u8>,
    stdout: Seq<char>,
    stderr: Seq<char>,
) -> Seq<char> {
    "ddcutil "@ + joined_by(args, " "@) + " failed with status "@ + match code {
        Some(code) => digits_of(code as nat),
        None => "terminated by signal"@,
    } + "."@ + details_of(trimmed(stdout), trimmed(stderr))
}

/// What is said of a run of the program that failed; without a code it was
/// terminated by a signal.
pub fn failure_message(args: &Vec<String>, code: Option<u8>, stdout: &str, stderr: &str) -> (r: String)
    ensures
        r@ == failure_of(views(args@), code, stdout@, stderr@),
        ({
            let out = trimmed(stdout@);
            let err = trimmed(stderr@);
            let start = "ddcutil "@ + joined_by(views(args@), " "@) + " failed with status "@
                + (if code is Some {
                digits_of(code->0 as nat)
            } else {
                "terminated by signal"@
            }) + "."@;
            &&& out.len() > 0 && err.len() > 0 ==> r@ == start + (" stdout: "@ + out + " stderr: "@
                + err)
            &&& out.len() > 0 && err.len() == 0 ==> r@ == start + (" stdout: "@ + out)
            &&& out.len() == 0 && err.len() > 0 ==> r@ == start + (" stderr: "@ + err)
            &&& out.len() == 0 && err.len() == 0 ==> r@ == start + " no output"@
        }),
{
    let stdout = trim(stdout);
    let stderr = trim(stderr);
    let has_stdout = chars(stdout.as_str()).len() > 0;
    let has_stderr = chars(stderr.as_str()).len() > 0;
    let mut details = String::new();
    if has_stdout && has_stderr {
        details = " stdout: ".to_string();
        details.append(stdout.as_str());
        details.append(" stderr: ");
        details.append(stderr.as_str());
    } else if has_stdout {
        details = " stdout: ".to_string();
        details.append(stdout.as_str());
    } else if has_stderr {
        details = " stderr: ".to_string();
        details.append(stderr.as_str());
    } else {
        details = " no output".to_string();
    }
    let mut r = "ddcutil ".to_string();
    r.append(join(args, " ").as_str());
    r.append(" failed with status ");
    match code {
        Some(code) => append_number(&mut r, code as u64),
        None => r.append("terminated by signal"),
    }
    r.append(".");
    r.append(details.as_str());
    r
}

/// What came of an attempt.
#[derive(Clone, Copy, Debug, PartialEq, Eq, Structural)]
pub enum Attempt {
    Succeeded,
    TryAgain,
    Failed,
}

/// What comes of the attempt number `attempt`, counted from one: what failed is
/// tried again as long as the number of attempts allows.
pub fn after_attempt(attempt: u8, succeeded: bool) -> (r: Attempt)
    ensures
        r is Succeeded <==> succeeded,
        r is TryAgain <==> !succeeded && attempt < DDC_RETRIES,
        r is TryAgain <==> !succeeded && attempt < 3,
{
    if succeeded {
        Attempt::Succeeded
    } else if attempt < DDC_RETRIES {
        Attempt::TryAgain
    } else {
        Attempt::Failed
    }
}

/// Whether the brightness counts as set. Some monitors apply the value though
/// the program reports an error, so what the monitor then says decides.
pub fn counts_as_set(reported: bool, value: u64, read_back: Option<u64>) -> (r: bool)
    ensures
        r == (reported || read_back == Some(value)),
{
    if reported {
        return true;
    }
    match read_back {
        Some(current) => current == value,
        None => false,
    }
}

/// What a display tells of itself.
#[derive(Debug)]
pub struct Described {
    pub model_name: Option<String>,
    pub serial_number: Option<String>,
    pub manufacturer_id: Option<String>,
    /// The display has told its capabilities.
    pub capable: bool,
}

/// A text, or none.
pub open spec fn or_empty(text: Option<String>) -> Seq<char> {
    match text {
        Some(text) => text@,
        None => Seq::empty(),
    }
}

/// The description of a display: its model, serial number and maker.
pub open spec fn description_of(d: Described) -> Seq<char> {
    or_empty(d.model_name) + " "@ + or_empty(d.serial_number) + " "@ + or_empty(d.manufacturer_id)
}

/// The description of a display.
pub fn describe(d: &Described) -> (r: String)
    ensures
        r@ == description_of(*d),
        d.model_name is Some && d.serial_number is Some && d.manufacturer_id is Some ==> r@
            == d.model_name->0@ + " "@ + d.serial_number->0@ + " "@ + d.manufacturer_id->0@,
{
    let mut r = String::new();
    if let Some(text) = &d.model_name {
        r = text.clone();
    }
    r.append(" ");
    if let Some(text) = &d.serial_number {
        r.append(text.as_str());
    }
    assert(r@ =~= or_empty(d.model_name) + " "@ + or_empty(d.serial_number));
    r.append(" ");
    if let Some(text) = &d.manufacturer_id {
        r.append(text.as_str());
    }
    assert(r@ =~= description_of(*d));
    r
}

/// The first display, from the place `from` on, whose description holds the
/// identifier.
pub open spec fn display_named(
    displays: Seq<Described>,
    identifier: Seq<char>,
    check_capabilities: bool,
    from: int,
) -> Option<int>
    decreases displays.len() - from,
{
    if from < 0 || from >= displays.len() {
        None
    } else if (displays[from].capable || !check_capabilities) && holds(
        description_of(displays[from]),
        identifier,
    ) {
        Some(from)
    } else {
        display_named(displays, identifier, check_capabilities, from + 1)
    }
}

/// The first display whose description holds the identifier, of those that tell
/// their capabilities, or of all.
pub fn find_display_by_identifier(
    displays: &Vec<Described>,
    identifier: &str,
    check_capabilities: bool,
) -> (r: Option<usize>)
    ensures
        r is Some <==> display_named(displays@, identifier@, check_capabilities, 0) is Some,
        r matches Some(i) ==> i < displays@.len() && display_named(
            displays@,
            identifier@,
            check_capabilities,
            0,
        ) == Some(i as int),
{
    let mut i: usize = 0;
    while i < displays.len()
        invariant
            i <= displays@.len(),
            display_named(displays@, identifier@, check_capabilities, 0) == display_named(
                displays@,
                identifier@,
                check_capabilities,
                i as int,
            ),
        decreases displays.len() - i,
    {
        if (displays[i].capable || !check_capabilities) && contains(
            describe(&displays[i]).as_str(),
            identifier,
        ) {
            return Some(i);
        }
        i = i + 1;
    }
    None
}

/// How a monitor is spoken to.
#[derive(Clone, Copy, Debug, PartialEq, Eq, Structural)]
pub enum Backend {
    Direct,
    Cli { bus: u32 },
}

/// A monitor.
#[derive(Clone, Copy, Debug, PartialEq, Eq, Structural)]
pub struct DdcUtil {
    pub backend: Backend,
    pub min_brightness: u64,
    pub max_brightness: u64,
}

/// What is to be done with a monitor.
#[derive(Clone, Copy, Debug, PartialEq, Eq, Structural)]
pub enum Work {
    Get,
    SetTo(u64),
}

/// How far the work is.
#[derive(Clone, Copy, Debug, PartialEq, Eq, Structural)]
pub enum Phase {
    /// It is tried for the first time.
    First,
    /// The monitor is looked for on a bus.
    Finding,
    /// The monitor is asked on the bus where it was found.
    Probing { bus: u32 },
    /// It is tried once more, after a switch to the program.
    Second,
    Over,
}

/// What comes back.
#[derive(Clone, Copy, Debug, PartialEq, Eq, Structural)]
pub enum Event {
    /// A value that was read directly.
    Value(u64),
    /// The brightness and the highest brightness that the program told.
    Told(u64, u64),
    Written,
    /// The bus on which the monitor was looked for.
    Bus(Option<u32>),
    Failed,
}

/// What is to be done next.
#[derive(Clone, Copy, Debug, PartialEq, Eq, Structural)]
pub enum Step {
    ReadDirect,
    WriteDirect(u64),
    ReadCli { bus: u32 },
    WriteCli { bus: u32, value: u64 },
    FindBus,
    /// Done, with this brightness.
    Done(u64),
    /// Failed with what the first attempt failed with.
    FailedFirst,
    /// Failed with what failed last.
    FailedLast,
}

/// How the work is tried with a backend.
pub open spec fn tried(backend: Backend, work: Work) -> Step {
    match (backend, work) {
        (Backend::Direct, Work::Get) => Step::ReadDirect,
        (Backend::Direct, Work::SetTo(value)) => Step::WriteDirect(value),
        (Backend::Cli { bus }, Work::Get) => Step::ReadCli { bus },
        (Backend::Cli { bus }, Work::SetTo(value)) => Step::WriteCli { bus, value },
    }
}

/// What comes of an attempt that did not fail. The program tells the highest
/// brightness each time, and that is kept.
pub open spec fn finished(d: DdcUtil, work: Work, event: Event) -> (DdcUtil, Step) {
    match (work, event) {
        (Work::Get, Event::Value(value)) => (
            d,
            Step::Done(clamped(value, d.min_brightness, d.max_brightness)),
        ),
        (Work::Get, Event::Told(value, max)) => (
            DdcUtil { max_brightness: max, ..d },
            Step::Done(clamped(value, d.min_brightness, max)),
        ),
        (Work::SetTo(value), Event::Written) => (d, Step::Done(value)),
        _ => (d, Step::FailedLast),
    }
}

/// What is known and done after an event. Direct access that fails is replaced by
/// the program, where that finds the monitor, and the work is tried once more.
pub open spec fn stepped(d: DdcUtil, work: Work, phase: Phase, event: Event) -> (
    DdcUtil,
    Phase,
    Step,
) {
    match phase {
        Phase::First => if event is Failed {
            match d.backend {
                Backend::Direct => (d, Phase::Finding, Step::FindBus),
                Backend::Cli { bus } => (d, Phase::Over, Step::FailedFirst),
            }
        } else {
            let (after, step) = finished(d, work, event);
            (after, Phase::Over, step)
        },
        Phase::Finding => match event {
            Event::Bus(Some(bus)) => (d, Phase::Probing { bus }, Step::ReadCli { bus }),
            Event::Bus(None) => (d, Phase::Over, Step::FailedFirst),
            _ => (d, Phase::Over, Step::FailedLast),
        },
        Phase::Probing { bus } => match event {
            Event::Told(_, max) => {
                let after = DdcUtil {
                    backend: Backend::Cli { bus },
                    max_brightness: max,
                    ..d
                };
                (after, Phase::Second, tried(after.backend, work))
            },
            _ => (d, Phase::Over, Step::FailedLast),
        },
        Phase::Second => {
            let (after, step) = finished(d, work, event);
            (after, Phase::Over, step)
        },
        Phase::Over => (d, Phase::Over, Step::FailedLast),
    }
}

/// A brightness that was read can be brought into the range: there is one.
pub open spec fn can_finish(d: DdcUtil, work: Work, event: Event) -> bool {
    match (work, event) {
        (Work::Get, Event::Value(_)) => d.wf(),
        (Work::Get, Event::Told(_, max)) => d.min_brightness <= max,
        _ => true,
    }
}

/// A brightness that was read can be brought into the range, where that is done next.
pub open spec fn can_step(d: DdcUtil, work: Work, phase: Phase, event: Event) -> bool {
    phase is First || phase is Second ==> can_finish(d, work, event)
}

impl DdcUtil {
    pub open spec fn wf(self) -> bool {
        self.min_brightness <= self.max_brightness
    }

    /// A monitor that is spoken to directly.
    pub fn direct(min_brightness: u64, max_brightness: u64) -> (r: DdcUtil)
        ensures
            r == (DdcUtil { backend: Backend::Direct, min_brightness, max_brightness }),
    {
        DdcUtil { backend: Backend::Direct, min_brightness, max_brightness }
    }

    /// A monitor that the program speaks to. Its highest brightness is not below
    /// its lowest.
    pub fn cli(bus: u32, min_brightness: u64, max_brightness: u64) -> (r: DdcUtil)
        ensures
            r.wf(),
            r.backend == (Backend::Cli { bus }),
            r.min_brightness == min_brightness,
            r.max_brightness == if max_brightness < min_brightness {
                min_brightness
            } else {
                max_brightness
            },
    {
        let max_brightness = if max_brightness < min_brightness {
            min_brightness
        } else {
            max_brightness
        };
        DdcUtil { backend: Backend::Cli { bus }, min_brightness, max_brightness }
    }

    /// What is to be done to learn the brightness.
    pub fn get(&self) -> (r: (Work, Phase, Step))
        ensures
            r == (Work::Get, Phase::First, tried(self.backend, Work::Get)),
    {
        (Work::Get, Phase::First, self.try_work(Work::Get))
    }

    /// What is to be done to set the brightness, which is brought into the range
    /// first.
    pub fn set(&self, value: u64) -> (r: (Work, Phase, Step))
        requires
            self.wf(),
        ensures
            ({
                let work = Work::SetTo(clamped(value, self.min_brightness, self.max_brightness));
                r == (work, Phase::First, tried(self.backend, work))
            }),
    {
        let work = Work::SetTo(clamp(value, self.min_brightness, self.max_brightness));
        (work, Phase::First, self.try_work(work))
    }

    fn try_work(&self, work: Work) -> (r: Step)
        ensures
            r == tried(self.backend, work),
    {
        match (self.backend, work) {
            (Backend::Direct, Work::Get) => Step::ReadDirect,
            (Backend::Direct, Work::SetTo(value)) => Step::WriteDirect(value),
            (Backend::Cli { bus }, Work::Get) => Step::ReadCli { bus },
            (Backend::Cli { bus }, Work::SetTo(value)) => Step::WriteCli { bus, value },
        }
    }

    /// What comes of an attempt that did not fail.
    fn finish(&mut self, work: Work, event: Event) -> (r: Step)
        requires
            can_finish(*old(self), work, event),
        ensures
            (*final(self), r) == finished(*old(self), work, event),
    {
        match (work, event) {
            (Work::Get, Event::Value(value)) => Step::Done(
                clamp(value, self.min_brightness, self.max_brightness),
            ),
            (Work::Get, Event::Told(value, max)) => {
                self.max_brightness = max;
                Step::Done(clamp(value, self.min_brightness, max))
            },
            (Work::SetTo(value), Event::Written) => Step::Done(value),
            _ => Step::FailedLast,
        }
    }

    /// What is to be done after an event.
    pub fn step(&mut self, work: Work, phase: Phase, event: Event) -> (r: (Phase, Step))
        requires
            can_step(*old(self), work, phase, event),
        ensures
            (*final(self), r.0, r.1) == stepped(*old(self), work, phase, event),
    {
        match phase {
            Phase::First => {
                if let Event::Failed = event {
                    match self.backend {
                        Backend::Direct => (Phase::Finding, Step::FindBus),
                        Backend::Cli { .. } => (Phase::Over, Step::FailedFirst),
                    }
                } else {
                    let step = self.finish(work, event);
                    (Phase::Over, step)
                }
            },
            Phase::Finding => match event {
                Event::Bus(Some(bus)) => (Phase::Probing { bus }, Step::ReadCli { bus }),
                Event::Bus(None) => (Phase::Over, Step::FailedFirst),
                _ => (Phase::Over, Step::FailedLast),
            },
            Phase::Probing { bus } => match event {
                Event::Told(_, max) => {
                    self.backend = Backend::Cli { bus };
                    self.max_brightness = max;
                    (Phase::Second, self.try_work(work))
                },
                _ => (Phase::Over, Step::FailedLast),
            },
            Phase::Second => {
                let step = self.finish(work, event);
                (Phase::Over, step)
            },
            Phase::Over => (Phase::Over, Step::FailedLast),
        }
    }

    pub fn waiting_sleep_ms(&self) -> (r: u64)
        ensures
            r == match self.backend {
                Backend::Direct => DDC_DIRECT_WAITING_SLEEP_MS,
                Backend::Cli { bus } => DDC_CLI_WAITING_SLEEP_MS,
            },
            r == if self.backend is Direct {
                500u64
            } else {
                800u64
            },
    {
        match self.backend {
            Backend::Direct => DDC_DIRECT_WAITING_SLEEP_MS,
            Backend::Cli { .. } => DDC_CLI_WAITING_SLEEP_MS,
        }
    }

    pub fn transition_step_ms(&self) -> (r: u64)
        ensures
            r == match self.backend {
                Backend::Direct => DDC_DIRECT_TRANSITION_STEP_MS,
                Backend::Cli { bus } => DDC_CLI_TRANSITION_STEP_MS,
            },
            r == if self.backend is Direct {
                50u64
            } else {
                100u64
            },
    {
        match self.backend {
            Backend::Direct => DDC_DIRECT_TRANSITION_STEP_MS,
            Backend::Cli { .. } => DDC_CLI_TRANSITION_STEP_MS,
        }
    }
}

/// How much is left to do.
pub open spec fn phases_left(phase: Phase) -> nat {
    match phase {
        Phase::First => 4,
        Phase::Finding => 3,
        Phase::Probing { bus } => 2,
        Phase::Second => 1,
        Phase::Over => 0,
    }
}

/// Work on a monitor always comes to an end: each event brings it closer, and when
/// it is over, it has succeeded or failed.
pub proof fn work_comes_to_an_end(d: DdcUtil, work: Work, phase: Phase, event: Event)
    requires
        phase !is Over,
    ensures
        phases_left(stepped(d, work, phase, event).1) < phases_left(phase),
        stepped(d, work, phase, event).1 is Over <==> (stepped(d, work, phase, event).2 is Done
            || stepped(d, work, phase, event).2 is FailedFirst || stepped(
            d,
            work,
            phase,
            event,
        ).2 is FailedLast),
{
}

/// A monitor that the program speaks to is never spoken to directly again.
pub proof fn program_is_kept(d: DdcUtil, work: Work, phase: Phase, event: Event)
    requires
        d.backend is Cli,
    ensures
        stepped(d, work, phase, event).0.backend is Cli,
{
}

/// What is reported of a monitor lies in its range.
pub proof fn reported_brightness_is_in_range(d: DdcUtil, phase: Phase, event: Event)
    requires
        can_step(d, Work::Get, phase, event),
        stepped(d, Work::Get, phase, event).2 is Done,
    ensures
        ({
            let (after, _, step) = stepped(d, Work::Get, phase, event);
            after.min_brightness <= step->Done_0 <= after.max_brightness
        }),
{
}

/// What is done to get hold of a monitor.
#[derive(Clone, Copy, Debug, PartialEq, Eq, Structural)]
pub enum OpenStep {
    /// Look for a display that matches, of those that tell their capabilities.
    FindCapable,
    /// Look for a display that matches, of all.
    FindAny,
    /// Ask the display that was found for its highest brightness.
    ReadMaximum,
    /// Let the program look for the monitor.
    FindBus,
    /// Let the program ask the monitor on the bus where it was found.
    Probe { bus: u32 },
    Opened(DdcUtil),
    Failed,
}

/// What comes back.
#[derive(Clone, Copy, Debug, PartialEq, Eq, Structural)]
pub enum OpenEvent {
    /// A display was found.
    Found,
    /// The highest brightness that was read directly.
    Maximum(u64),
    /// The bus on which the program has found the monitor.
    Bus(u32),
    /// The brightness and the highest brightness that the program told.
    Told(u64, u64),
    Failed,
}

/// What is done next to get hold of a monitor. Displays that tell their capabilities are preferred,
/// and direct access is preferred to the program. The highest brightness that the program tells is
/// raised to the lowest one.
pub open spec fn opened(step: OpenStep, event: OpenEvent, min_brightness: u64) -> OpenStep {
    match step {
        OpenStep::FindCapable => match event {
            OpenEvent::Found => OpenStep::ReadMaximum,
            _ => OpenStep::FindAny,
        },
        OpenStep::FindAny => match event {
            OpenEvent::Found => OpenStep::ReadMaximum,
            _ => OpenStep::FindBus,
        },
        OpenStep::ReadMaximum => match event {
            OpenEvent::Maximum(max_brightness) => OpenStep::Opened(
                DdcUtil { backend: Backend::Direct, min_brightness, max_brightness },
            ),
            _ => OpenStep::FindBus,
        },
        OpenStep::FindBus => match event {
            OpenEvent::Bus(bus) => OpenStep::Probe { bus },
            _ => OpenStep::Failed,
        },
        OpenStep::Probe { bus } => match event {
            OpenEvent::Told(_, max_brightness) => OpenStep::Opened(
                DdcUtil {
                    backend: Backend::Cli { bus },
                    min_brightness,
                    max_brightness: if max_brightness < min_brightness {
                        min_brightness
                    } else {
                        max_brightness
                    },
                },
            ),
            _ => OpenStep::Failed,
        },
        OpenStep::Opened(monitor) => OpenStep::Opened(monitor),
        OpenStep::Failed => OpenStep::Failed,
    }
}

/// What is done next to get hold of a monitor; a display that tells its capabilities is looked for
/// first.
pub fn open_step(step: OpenStep, event: OpenEvent, min_brightness: u64) -> (r: OpenStep)
    ensures
        r == opened(step, event, min_brightness),
{
    match step {
        OpenStep::FindCapable => match event {
            OpenEvent::Found => OpenStep::ReadMaximum,
            _ => OpenStep::FindAny,
        },
        OpenStep::FindAny => match event {
            OpenEvent::Found => OpenStep::ReadMaximum,
            _ => OpenStep::FindBus,
        },
        OpenStep::ReadMaximum => match event {
            OpenEvent::Maximum(max_brightness) => OpenStep::Opened(
                DdcUtil::direct(min_brightness, max_brightness),
            ),
            _ => OpenStep::FindBus,
        },
        OpenStep::FindBus => match event {
            OpenEvent::Bus(bus) => OpenStep::Probe { bus },
            _ => OpenStep::Failed,
        },
        OpenStep::Probe { bus } => match event {
            OpenEvent::Told(_, max_brightness) => OpenStep::Opened(
                DdcUtil::cli(bus, min_brightness, max_brightness),
            ),
            _ => OpenStep::Failed,
        },
        OpenStep::Opened(monitor) => OpenStep::Opened(monitor),
        OpenStep::Failed => OpenStep::Failed,
    }
}

/// How much is left to do to get hold of a monitor.
pub open spec fn openings_left(step: OpenStep) -> nat {
    match step {
        OpenStep::FindCapable => 5,
        OpenStep::FindAny => 4,
        OpenStep::ReadMaximum => 3,
        OpenStep::FindBus => 2,
        OpenStep::Probe { bus } => 1,
        OpenStep::Opened(_) => 0,
        OpenStep::Failed => 0,
    }
}

/// Getting hold of a monitor comes to an end, and it does not fail before the program was tried. What
/// is got hold of has the lowest brightness that was asked for, and a range where the program speaks
/// to it.
pub proof fn opening_comes_to_an_end(step: OpenStep, event: OpenEvent, min_brightness: u64)
    requires
        step !is Opened,
        step !is Failed,
    ensures
        openings_left(opened(step, event, min_brightness)) < openings_left(step),
        opened(step, event, min_brightness) is Failed ==> step is FindBus || step is Probe,
        opened(step, event, min_brightness) matches OpenStep::Opened(monitor)
            ==> monitor.min_brightness == min_brightness && (monitor.backend is Cli
            ==> monitor.wf()),
{
}

/// The number of a bus stands behind the last dash.
pub proof fn bus_is_numbered_behind_the_last_dash(device: Seq<char>, bus: u32)
    ensures
        bus_number(device + seq!['-'] + digits_of(bus as nat)) == Some(bus as nat),
{
    lemma_digits(bus as nat);
    let digits = digits_of(bus as nat);
    assert(!digits.contains('-')) by {
        if digits.contains('-') {
            let i = choose|i: int| 0 <= i < digits.len() && digits[i] == '-';
            assert(is_digit(digits[i]));
        }
    }
    lemma_last_field(device, digits, '-');
    assert(fields_of(device, '-').push(digits).last() == digits);
    read_inverts_write(bus as nat, u32::MAX as nat);
}

/// A monitor that ends counts exactly when it is valid and both its bus and its name are known, and
/// nothing is known of the next one.
pub proof fn complete_monitors_count(s: Reading, valid: bool)
    ensures
        s.valid && s.bus is Some && s.monitor is Some ==> s.ended(valid).displays == s.displays.push(
            (s.bus->0, s.monitor->0),
        ),
        !s.valid || s.bus is None || s.monitor is None ==> s.ended(valid).displays == s.displays,
        s.ended(valid).bus is None,
        s.ended(valid).monitor is None,
        s.ended(valid).valid == valid,
        Reading::initial().displays.len() == 0,
        Reading::initial().bus is None,
        Reading::initial().monitor is None,
        Reading::initial().valid,
{
}

/// A text that begins with another one has its characters.
proof fn lemma_same_start(text: Seq<char>, start: Seq<char>, i: int)
    requires
        begins_with(text, start),
        0 <= i < start.len(),
    ensures
        text[i] == start[i],
{
    assert(text.take(start.len() as int)[i] == text[i]);
}

/// What is put behind a text stands behind it.
proof fn lemma_start_stays(start: Seq<char>, rest: Seq<char>)
    ensures
        begins_with(start + rest, start),
        (start + rest).skip(start.len() as int) == rest,
{
    assert((start + rest).take(start.len() as int) =~= start);
    assert((start + rest).skip(start.len() as int) =~= rest);
}

/// A line tells of a bus, of a name, or that a monitor begins or ends, by what it begins with; white
/// space around it does not count. Other lines tell nothing.
pub proof fn lines_tell_by_their_beginning(s: Reading, raw: Seq<char>, rest: Seq<char>)
    ensures
        trimmed(raw).len() == 0 ==> read_line(s, raw) == Ok::<Reading, ParseError>(s.ended(true)),
        trimmed(raw) == "Display "@ + rest ==> read_line(s, raw) == Ok::<Reading, ParseError>(
            s.ended(true),
        ),
        trimmed(raw) == "Invalid display"@ ==> read_line(s, raw) == Ok::<Reading, ParseError>(
            s.ended(false),
        ),
        trimmed(raw) == "Monitor:"@ + rest ==> read_line(s, raw) == Ok::<Reading, ParseError>(
            Reading { monitor: Some(trimmed(rest)), ..s },
        ),
        trimmed(raw) == "I2C bus:"@ + rest ==> match bus_number(trimmed(rest)) {
            Some(bus) => read_line(s, raw) == Ok::<Reading, ParseError>(
                Reading { bus: Some(bus as u32), ..s },
            ),
            None => read_line(s, raw) == Err::<Reading, ParseError>(ParseError::InvalidBus),
        },
        read_line(s, raw) is Err ==> begins_with(trimmed(raw), "I2C bus:"@),
        trimmed(raw).len() > 0 && !begins_with(trimmed(raw), "Display "@) && !begins_with(
            trimmed(raw),
            "I2C bus:"@,
        ) && !begins_with(trimmed(raw), "Monitor:"@) && trimmed(raw) != "Invalid display"@
            ==> read_line(s, raw) == Ok::<Reading, ParseError>(s),
{
    reveal_strlit("Display ");
    reveal_strlit("Invalid display");
    reveal_strlit("I2C bus:");
    reveal_strlit("Monitor:");
    let line = trimmed(raw);
    if line.len() > 0 {
        if begins_with(line, "Display "@) {
            lemma_same_start(line, "Display "@, 0);
        }
        if begins_with(line, "I2C bus:"@) {
            lemma_same_start(line, "I2C bus:"@, 0);
            lemma_same_start(line, "I2C bus:"@, 1);
        }
        if begins_with(line, "Monitor:"@) {
            lemma_same_start(line, "Monitor:"@, 0);
        }
        assert("Invalid display"@[0] == 'I' && "Invalid display"@[1] == 'n');
        lemma_start_stays("Display "@, rest);
        lemma_start_stays("Monitor:"@, rest);
        lemma_start_stays("I2C bus:"@, rest);
    }
}

/// Lines are read one after the other, from the first one on, until one is not understood; the end of
/// the list ends the last monitor.
pub proof fn lines_are_read_in_order(output: Seq<char>, n: nat)
    ensures
        read_lines(lines_of(output), 0) == Ok::<Reading, ParseError>(Reading::initial()),
        read_lines(lines_of(output), n) matches Ok(s) ==> read_lines(
            lines_of(output),
            (n + 1) as nat,
        ) == read_line(s, lines_of(output)[n as int]),
        read_lines(lines_of(output), n) matches Err(error) ==> read_lines(
            lines_of(output),
            (n + 1) as nat,
        ) == Err::<Reading, ParseError>(error),
        read_lines(lines_of(output), lines_of(output).len()) matches Ok(s) ==> detected(output) == Ok::<
            Seq<(u32, Seq<char>)>,
            ParseError,
        >(s.ended(true).displays),
        read_lines(lines_of(output), lines_of(output).len()) matches Err(error) ==> detected(output)
            == Err::<Seq<(u32, Seq<char>)>, ParseError>(error),
{
}

/// The bus that is found is that of the first monitor whose name holds the identifier; none is found
/// only where no name holds it.
pub proof fn first_matching_bus_is_found(
    displays: Seq<(u32, Seq<char>)>,
    identifier: Seq<char>,
    from: int,
)
    requires
        0 <= from <= displays.len(),
    ensures
        bus_with(displays, identifier, from) matches Some(bus) ==> exists|i: int|
            from <= i < displays.len() && (#[trigger] displays[i]).0 == bus && holds(
                displays[i].1,
                identifier,
            ) && forall|j: int| from <= j < i ==> !holds((#[trigger] displays[j]).1, identifier),
        bus_with(displays, identifier, from) is None ==> forall|j: int|
            from <= j < displays.len() ==> !holds((#[trigger] displays[j]).1, identifier),
    decreases displays.len() - from,
{
    if from < displays.len() {
        first_matching_bus_is_found(displays, identifier, from + 1);
        if holds(displays[from].1, identifier) {
            assert(displays[from].0 == bus_with(displays, identifier, from)->0);
        }
    }
}

/// Monitors are told one by one, with their bus and their name.
pub proof fn monitors_are_told_in_order(displays: Seq<CliDisplay>, i: int)
    requires
        0 <= i < displays.len(),
    ensures
        display_views(displays).len() == displays.len(),
        display_views(displays)[i] == (displays[i].bus, displays[i].monitor@),
{
}

/// The line that tells a value is the first one that begins with the word for it; there is none only
/// where no line does.
pub proof fn first_value_line_is_found(all: Seq<Seq<char>>, from: int)
    requires
        0 <= from <= all.len(),
    ensures
        value_line(all, from) matches Some(line) ==> exists|i: int|
            from <= i < all.len() && #[trigger] all[i] == line && begins_with(
                trimmed_start(line),
                "VCP "@,
            ) && forall|j: int|
                from <= j < i ==> !begins_with(trimmed_start(#[trigger] all[j]), "VCP "@),
        value_line(all, from) is None ==> forall|j: int|
            from <= j < all.len() ==> !begins_with(trimmed_start(#[trigger] all[j]), "VCP "@),
    decreases all.len() - from,
{
    if from < all.len() {
        first_value_line_is_found(all, from + 1);
        if begins_with(trimmed_start(all[from]), "VCP "@) {
            assert(all[from] == value_line(all, from)->0);
        }
    }
}

/// The fourth word of the line is the brightness and the fifth one the highest brightness. Of what is
/// wrong with them the first is told.
pub proof fn fourth_and_fifth_word_are_the_values(line: Seq<char>, current: u64, maximum: u64)
    ensures
        line_values(line) == Ok::<(u64, u64), ParseError>((current, maximum)) <==> words_of(line).len()
            >= 5 && read_number(words_of(line)[3], u64::MAX as nat) == Some(current as nat)
            && read_number(words_of(line)[4], u64::MAX as nat) == Some(maximum as nat),
        line_values(line) == Err::<(u64, u64), ParseError>(ParseError::TooFewValues) <==> words_of(
            line,
        ).len() < 5,
        line_values(line) == Err::<(u64, u64), ParseError>(ParseError::InvalidCurrent) <==> words_of(
            line,
        ).len() >= 5 && read_number(words_of(line)[3], u64::MAX as nat) is None,
        line_values(line) == Err::<(u64, u64), ParseError>(ParseError::InvalidMaximum) <==> words_of(
            line,
        ).len() >= 5 && read_number(words_of(line)[3], u64::MAX as nat) is Some && read_number(
            words_of(line)[4],
            u64::MAX as nat,
        ) is None,
{
}

/// The values are those of the line that tells them, and without one there are none.
pub proof fn values_are_told_on_their_line(output: Seq<char>)
    ensures
        value_line(lines_of(output), 0) is None <==> told_values(output) == Err::<
            (u64, u64),
            ParseError,
        >(ParseError::NoValue),
        value_line(lines_of(output), 0) matches Some(line) ==> told_values(output) == line_values(
            line,
        ),
{
}

/// The display that is found is the first one whose description holds the identifier and that tells its
/// capabilities, where that is asked for; none is found only where there is none.
pub proof fn first_matching_display_is_found(
    displays: Seq<Described>,
    identifier: Seq<char>,
    check: bool,
    from: int,
)
    requires
        0 <= from <= displays.len(),
    ensures
        display_named(displays, identifier, check, from) matches Some(i) ==> from <= i
            < displays.len() && holds(description_of(displays[i]), identifier) && (check
            ==> displays[i].capable) && forall|j: int|
            from <= j < i ==> !holds(description_of(#[trigger] displays[j]), identifier) || (check
                && !displays[j].capable),
        display_named(displays, identifier, check, from) is None ==> forall|j: int|
            from <= j < displays.len() ==> !holds(
                description_of(#[trigger] displays[j]),
                identifier,
            ) || (check && !displays[j].capable),
    decreases displays.len() - from,
{
    if from < displays.len() {
        first_matching_display_is_found(displays, identifier, check, from + 1);
    }
}

/// A display is described by its model, its serial number and its maker, with a space between each two,
/// whatever of it is known.
pub proof fn display_is_described(d: Described, model: Seq<char>, serial: Seq<char>, maker: Seq<char>)
    requires
        d.model_name matches Some(text) ==> model == text@,
        d.model_name is None ==> model.len() == 0,
        d.serial_number matches Some(text) ==> serial == text@,
        d.serial_number is None ==> serial.len() == 0,
        d.manufacturer_id matches Some(text) ==> maker == text@,
        d.manufacturer_id is None ==> maker.len() == 0,
    ensures
        description_of(d) == model + " "@ + serial + " "@ + maker,
{
    assert(or_empty(d.model_name) =~= model);
    assert(or_empty(d.serial_number) =~= serial);
    assert(or_empty(d.manufacturer_id) =~= maker);
}

/// Work is done through the backend that the monitor has, on its bus and with the value that is to be
/// set.
pub proof fn work_goes_through_the_backend(bus: u32, value: u64)
    ensures
        tried(Backend::Direct, Work::Get) is ReadDirect,
        tried(Backend::Direct, Work::SetTo(value)) == Step::WriteDirect(value),
        tried(Backend::Cli { bus }, Work::Get) == (Step::ReadCli { bus }),
        tried(Backend::Cli { bus }, Work::SetTo(value)) == (Step::WriteCli { bus, value }),
{
}

/// What was read is handed on, brought into the range, and what was set is handed on as it is. The
/// highest brightness that the program tells is kept, and all else stays.
pub proof fn work_ends_with_what_was_read_or_set(d: DdcUtil, value: u64, max: u64, phase: Phase)
    requires
        phase is First || phase is Second,
    ensures
        stepped(d, Work::Get, phase, Event::Value(value)) == (
            d,
            Phase::Over,
            Step::Done(clamped(value, d.min_brightness, d.max_brightness)),
        ),
        d.min_brightness <= value <= d.max_brightness ==> stepped(
            d,
            Work::Get,
            phase,
            Event::Value(value),
        ).2 == Step::Done(value),
        stepped(d, Work::Get, phase, Event::Told(value, max)).0 == (DdcUtil {
            backend: d.backend,
            min_brightness: d.min_brightness,
            max_brightness: max,
        }),
        d.min_brightness <= value <= max ==> stepped(
            d,
            Work::Get,
            phase,
            Event::Told(value, max),
        ).2 == Step::Done(value),
        stepped(d, Work::Get, phase, Event::Told(value, max)).2 == Step::Done(
            clamped(value, d.min_brightness, max),
        ),
        stepped(d, Work::SetTo(value), phase, Event::Written) == (
            d,
            Phase::Over,
            Step::Done(value),
        ),
{
}

/// Direct access that fails is replaced by the program, on the bus where that finds the monitor and with
/// the highest brightness that it tells there, and the work is tried once more. Where the program speaks
/// to the monitor already, or does not find it, the first failure counts.
pub proof fn failed_access_is_replaced(d: DdcUtil, work: Work, bus: u32, value: u64, max: u64)
    ensures
        d.backend is Direct ==> stepped(d, work, Phase::First, Event::Failed) == (
            d,
            Phase::Finding,
            Step::FindBus,
        ),
        d.backend is Cli ==> stepped(d, work, Phase::First, Event::Failed) == (
            d,
            Phase::Over,
            Step::FailedFirst,
        ),
        stepped(d, work, Phase::Finding, Event::Bus(Some(bus))) == (
            d,
            Phase::Probing { bus },
            Step::ReadCli { bus },
        ),
        stepped(d, work, Phase::Finding, Event::Bus(None)) == (d, Phase::Over, Step::FailedFirst),
        stepped(d, work, Phase::Finding, Event::Failed) == (d, Phase::Over, Step::FailedLast),
        stepped(d, work, Phase::Probing { bus }, Event::Failed) == (
            d,
            Phase::Over,
            Step::FailedLast,
        ),
        stepped(d, work, Phase::Second, Event::Failed) == (d, Phase::Over, Step::FailedLast),
        ({
            let (after, phase, step) = stepped(
                d,
                work,
                Phase::Probing { bus },
                Event::Told(value, max),
            );
            &&& after.backend == (Backend::Cli { bus })
            &&& after.max_brightness == max
            &&& after.min_brightness == d.min_brightness
            &&& phase is Second
            &&& work is Get ==> step == (Step::ReadCli { bus })
            &&& work matches Work::SetTo(v) ==> step == (Step::WriteCli { bus, value: v })
        }),
{
}

/// Displays that tell their capabilities are looked for first, then all, and then the program is asked.
/// A monitor that is got hold of directly has the highest brightness that it tells; one that the program
/// speaks to has it as well, but never less than the lowest.
pub proof fn direct_access_is_preferred(
    event: OpenEvent,
    min: u64,
    max: u64,
    bus: u32,
    value: u64,
)
    ensures
        opened(OpenStep::FindCapable, event, min) == if event is Found {
            OpenStep::ReadMaximum
        } else {
            OpenStep::FindAny
        },
        opened(OpenStep::FindAny, event, min) == if event is Found {
            OpenStep::ReadMaximum
        } else {
            OpenStep::FindBus
        },
        opened(OpenStep::ReadMaximum, OpenEvent::Maximum(max), min) == OpenStep::Opened(
            DdcUtil { backend: Backend::Direct, min_brightness: min, max_brightness: max },
        ),
        opened(OpenStep::ReadMaximum, OpenEvent::Failed, min) is FindBus,
        opened(OpenStep::FindBus, OpenEvent::Bus(bus), min) == (OpenStep::Probe { bus }),
        opened(OpenStep::FindBus, OpenEvent::Failed, min) is Failed,
        opened(OpenStep::Probe { bus }, OpenEvent::Failed, min) is Failed,
        opened(OpenStep::Probe { bus }, OpenEvent::Told(value, max), min) matches OpenStep::Opened(m)
            && m.backend == (Backend::Cli { bus }) && m.min_brightness == min && (max >= min
            ==> m.max_brightness == max) && (max < min ==> m.max_brightness == min),
{
}

/// Work can go on wherever the lowest brightness does not exceed the highest one, be it known or told.
pub proof fn work_can_go_on_within_a_range(d: DdcUtil, work: Work, phase: Phase, value: u64, max: u64)
    ensures
        d.min_brightness <= d.max_brightness ==> can_step(d, work, phase, Event::Value(value)),
        d.min_brightness <= max ==> can_step(d, work, phase, Event::Told(value, max)),
        can_step(d, work, phase, Event::Written),
        can_step(d, work, phase, Event::Failed),
        phase is Finding || phase is Probing ==> can_step(d, work, phase, Event::Told(value, max)),
{
}

} // verus!
