//! The control socket: requests, answers and the status that clients see.

pub mod render;
pub mod socket;
pub mod status;

pub use self::socket::socket_path;
pub use self::status::Hub;
use crate::text::chars::same;
use crate::text::decimal::{
    all_digits, digits_are_read, digits_of, is_digit, lemma_digits, number_fault, number_of, parse,
    parse_number, read_inverts_write, read_number, unsigned_part, NumberFault,
};
use crate::text::search::{begins_with, ends_with, strip_prefix, strip_suffix};
use crate::text::space::{
    fields_of, first_index, is_white, split, trim_end, trimmed_end, views,
};
use vstd::prelude::*;

verus! {

/// A brightness that a client asks for, in percent.
#[derive(Clone, Copy, Debug, PartialEq, Eq, Structural)]
pub struct Adjustment {
    pub percent: u8,
    pub relative: bool,
    pub increase: bool,
}

/// What a client asks the daemon to do. Where no output is named, all are meant.
/// A pause may have an end, in seconds.
#[derive(Debug)]
pub enum Action {
    Get(String),
    SetTo(String, Adjustment),
    Pause(Option<String>, Option<u64>),
    Resume(Option<String>),
    Toggle(Option<String>),
}

pub ghost enum ActionView {
    Get(Seq<char>),
    SetTo(Seq<char>, Adjustment),
    Pause(Option<Seq<char>>, Option<u64>),
    Resume(Option<Seq<char>>),
    Toggle(Option<Seq<char>>),
}

/// The name of an output, where one is named.
pub open spec fn target_view(target: Option<String>) -> Option<Seq<char>> {
    match target {
        Some(name) => Some(name@),
        None => None,
    }
}

impl View for Action {
    type V = ActionView;

    open spec fn view(&self) -> ActionView {
        match self {
            Action::Get(name) => ActionView::Get(name@),
            Action::SetTo(name, adjustment) => ActionView::SetTo(name@, *adjustment),
            Action::Pause(target, seconds) => ActionView::Pause(target_view(*target), *seconds),
            Action::Resume(target) => ActionView::Resume(target_view(*target)),
            Action::Toggle(target) => ActionView::Toggle(target_view(*target)),
        }
    }
}

/// Why a request is refused.
#[derive(Clone, Copy, Debug, PartialEq, Eq, Structural)]
pub enum RequestError {
    InvalidRequest,
    InvalidBrightness,
    /// A duration is not a number.
    InvalidDuration(NumberFault),
}

impl RequestError {
    /// What the error says.
    pub open spec fn spec_message(self) -> Seq<char> {
        match self {
            RequestError::InvalidRequest => "invalid control request"@,
            RequestError::InvalidBrightness => "brightness must be a percentage from 0% to 100%"@,
            RequestError::InvalidDuration(fault) => fault.spec_message(),
        }
    }

    pub fn message(&self) -> (r: &'static str)
        ensures
            r@ == self.spec_message(),
            self is InvalidRequest ==> r@ == "invalid control request"@,
            self is InvalidBrightness ==> r@ == "brightness must be a percentage from 0% to 100%"@,
            self matches RequestError::InvalidDuration(fault) ==> r@ == fault.spec_message(),
    {
        match self {
            RequestError::InvalidRequest => "invalid control request",
            RequestError::InvalidBrightness => "brightness must be a percentage from 0% to 100%",
            RequestError::InvalidDuration(fault) => fault.message(),
        }
    }
}

/// What stands before `p` at the end of `s`.
pub open spec fn before_suffix(s: Seq<char>, p: Seq<char>) -> Option<Seq<char>> {
    if ends_with(s, p) {
        Some(s.take(s.len() - p.len()))
    } else {
        None
    }
}

/// A change of brightness as it is written: what kind of change it is, and the
/// text that has to be its number. A sign may stand before the number or after
/// the percent sign.
pub open spec fn written_change(value: Seq<char>) -> Option<(bool, bool, Seq<char>)> {
    if begins_with(value, "+"@) {
        match before_suffix(value.skip(1), "%"@) {
            Some(number) => Some((true, true, number)),
            None => None,
        }
    } else if begins_with(value, "-"@) {
        match before_suffix(value.skip(1), "%"@) {
            Some(number) => Some((true, false, number)),
            None => None,
        }
    } else if ends_with(value, "%+"@) {
        Some((true, true, value.take(value.len() - 2)))
    } else if ends_with(value, "%-"@) {
        Some((true, false, value.take(value.len() - 2)))
    } else {
        match before_suffix(value, "%"@) {
            Some(number) => Some((false, true, number)),
            None => None,
        }
    }
}

/// The change of brightness that a text asks for; its number is a percentage.
pub open spec fn adjustment_of(value: Seq<char>) -> Option<Adjustment> {
    match written_change(value) {
        Some((relative, increase, number)) => match read_number(number, 100) {
            Some(percent) => Some(Adjustment { percent: percent as u8, relative, increase }),
            None => None,
        },
        None => None,
    }
}

/// A change of brightness as it is written.
fn split_change(value: &str) -> (r: Option<(bool, bool, String)>)
    ensures
        r is Some <==> written_change(value@) is Some,
        r matches Some((relative, increase, number)) ==> written_change(value@) == Some(
            (relative, increase, number@),
        ),
{
    proof {
        reveal_strlit("+");
        reveal_strlit("-");
        reveal_strlit("%");
        reveal_strlit("%+");
        reveal_strlit("%-");
    }
    if let Some(rest) = strip_prefix(value, "+") {
        return match strip_suffix(rest.as_str(), "%") {
            Some(number) => Some((true, true, number)),
            None => None,
        };
    }
    if let Some(rest) = strip_prefix(value, "-") {
        return match strip_suffix(rest.as_str(), "%") {
            Some(number) => Some((true, false, number)),
            None => None,
        };
    }
    if let Some(number) = strip_suffix(value, "%+") {
        return Some((true, true, number));
    }
    if let Some(number) = strip_suffix(value, "%-") {
        return Some((true, false, number));
    }
    match strip_suffix(value, "%") {
        Some(number) => Some((false, true, number)),
        None => None,
    }
}

/// The change of brightness that a text asks for.
pub fn parse_adjustment(value: &str) -> (r: Result<Adjustment, RequestError>)
    ensures
        r is Ok <==> adjustment_of(value@) is Some,
        r matches Ok(adjustment) ==> adjustment_of(value@) == Some(adjustment),
        r matches Err(error) ==> error == RequestError::InvalidBrightness,
{
    match split_change(value) {
        Some((relative, increase, number)) => match parse(number.as_str(), 100) {
            Some(percent) => Ok(Adjustment { percent: percent as u8, relative, increase }),
            None => Err(RequestError::InvalidBrightness),
        },
        None => Err(RequestError::InvalidBrightness),
    }
}

/// The output that a text names; an asterisk means all.
pub open spec fn target_of(value: Seq<char>) -> Option<Seq<char>> {
    if value == "*"@ {
        None
    } else {
        Some(value)
    }
}

/// The output that a text names.
pub fn parse_target(value: &str) -> (r: Option<String>)
    ensures
        target_view(r) == target_of(value@),
        r is None <==> value@ == "*"@,
        r matches Some(name) ==> name@ == value@,
{
    if same(value, "*") {
        None
    } else {
        Some(value.to_string())
    }
}

/// What a request with these fields asks for.
pub open spec fn action_of(fields: Seq<Seq<char>>) -> Result<ActionView, RequestError> {
    if fields.len() == 2 && fields[0] == "get"@ {
        Ok(ActionView::Get(fields[1]))
    } else if fields.len() == 3 && fields[0] == "set"@ {
        match adjustment_of(fields[2]) {
            Some(adjustment) => Ok(ActionView::SetTo(fields[1], adjustment)),
            None => Err(RequestError::InvalidBrightness),
        }
    } else if fields.len() == 3 && fields[0] == "pause"@ {
        if fields[2] == "-"@ {
            Ok(ActionView::Pause(target_of(fields[1]), None))
        } else {
            match read_number(fields[2], u64::MAX as nat) {
                Some(seconds) => Ok(ActionView::Pause(target_of(fields[1]), Some(seconds as u64))),
                None => Err(
                    RequestError::InvalidDuration(number_fault(fields[2], u64::MAX as nat)->0),
                ),
            }
        }
    } else if fields.len() == 2 && fields[0] == "resume"@ {
        Ok(ActionView::Resume(target_of(fields[1])))
    } else if fields.len() == 2 && fields[0] == "toggle"@ {
        Ok(ActionView::Toggle(target_of(fields[1])))
    } else {
        Err(RequestError::InvalidRequest)
    }
}

/// What a request with these fields asks for.
pub fn parse_action(fields: &Vec<String>) -> (r: Result<Action, RequestError>)
    ensures
        r is Ok <==> action_of(views(fields@)) is Ok,
        r matches Ok(action) ==> action_of(views(fields@)) == Ok::<ActionView, RequestError>(
            action@,
        ),
        r matches Err(error) ==> action_of(views(fields@)) == Err::<ActionView, RequestError>(error),
{
    let ghost all = views(fields@);
    let n = fields.len();
    assert(all.len() == n);
    if n == 2 {
        assert(all[0] == fields@[0]@ && all[1] == fields@[1]@);
        if same(fields[0].as_str(), "get") {
            return Ok(Action::Get(fields[1].clone()));
        }
        if same(fields[0].as_str(), "resume") {
            return Ok(Action::Resume(parse_target(fields[1].as_str())));
        }
        if same(fields[0].as_str(), "toggle") {
            return Ok(Action::Toggle(parse_target(fields[1].as_str())));
        }
    } else if n == 3 {
        assert(all[0] == fields@[0]@ && all[1] == fields@[1]@ && all[2] == fields@[2]@);
        if same(fields[0].as_str(), "set") {
            return match parse_adjustment(fields[2].as_str()) {
                Ok(adjustment) => Ok(Action::SetTo(fields[1].clone(), adjustment)),
                Err(error) => Err(error),
            };
        }
        if same(fields[0].as_str(), "pause") {
            if same(fields[2].as_str(), "-") {
                return Ok(Action::Pause(parse_target(fields[1].as_str()), None));
            }
            return match parse_number(fields[2].as_str(), u64::MAX) {
                Ok(seconds) => Ok(
                    Action::Pause(parse_target(fields[1].as_str()), Some(seconds)),
                ),
                Err(fault) => Err(RequestError::InvalidDuration(fault)),
            };
        }
    }
    Err(RequestError::InvalidRequest)
}

/// What a line from a client asks for.
#[derive(Debug)]
pub enum Request {
    Status { json: bool },
    Watch { json: bool },
    Run(Action),
}

pub ghost enum RequestView {
    Status { json: bool },
    Watch { json: bool },
    Run(ActionView),
}

impl View for Request {
    type V = RequestView;

    open spec fn view(&self) -> RequestView {
        match self {
            Request::Status { json } => RequestView::Status { json: *json },
            Request::Watch { json } => RequestView::Watch { json: *json },
            Request::Run(action) => RequestView::Run(action@),
        }
    }
}

/// What a request with these fields asks for, be it to see the status or to do
/// something.
pub open spec fn request_of(fields: Seq<Seq<char>>) -> Result<RequestView, RequestError> {
    if fields == seq!["status"@] {
        Ok(RequestView::Status { json: false })
    } else if fields == seq!["status-json"@] {
        Ok(RequestView::Status { json: true })
    } else if fields == seq!["watch"@] {
        Ok(RequestView::Watch { json: false })
    } else if fields == seq!["watch-json"@] {
        Ok(RequestView::Watch { json: true })
    } else {
        match action_of(fields) {
            Ok(action) => Ok(RequestView::Run(action)),
            Err(error) => Err(error),
        }
    }
}

/// The fields of a line, which stand between tabs; white space at the end does
/// not count.
pub open spec fn line_fields(line: Seq<char>) -> Seq<Seq<char>> {
    fields_of(trimmed_end(line), '\t')
}

/// What a line from a client asks for.
pub fn parse_request(line: &str) -> (r: Result<Request, RequestError>)
    ensures
        r is Ok <==> request_of(line_fields(line@)) is Ok,
        r matches Ok(request) ==> request_of(line_fields(line@)) == Ok::<RequestView, RequestError>(
            request@,
        ),
        r matches Err(error) ==> request_of(line_fields(line@)) == Err::<RequestView, RequestError>(
            error,
        ),
{
    let fields = split(trim_end(line).as_str(), '\t');
    let ghost all = views(fields@);
    assert(all.len() == fields@.len());
    if fields.len() == 1 {
        assert(all[0] == fields@[0]@);
        assert(all =~= seq![fields@[0]@]);
        let ghost only = fields@[0]@;
        assert(seq![only][0] == only);
        assert(seq!["status"@][0] == "status"@);
        assert(seq!["status-json"@][0] == "status-json"@);
        assert(seq!["watch"@][0] == "watch"@);
        assert(seq!["watch-json"@][0] == "watch-json"@);
        if same(fields[0].as_str(), "status") {
            return Ok(Request::Status { json: false });
        }
        if same(fields[0].as_str(), "status-json") {
            return Ok(Request::Status { json: true });
        }
        if same(fields[0].as_str(), "watch") {
            return Ok(Request::Watch { json: false });
        }
        if same(fields[0].as_str(), "watch-json") {
            return Ok(Request::Watch { json: true });
        }
    }
    match parse_action(&fields) {
        Ok(action) => Ok(Request::Run(action)),
        Err(error) => Err(error),
    }
}

/// What is written for the outcome of a request.
pub open spec fn answer_of(outcome: Result<Seq<char>, Seq<char>>) -> Seq<char> {
    match outcome {
        Ok(value) => value,
        Err(error) => "error\t"@ + error,
    }
}

/// The outcome as plain text.
pub open spec fn outcome_view(outcome: Result<String, String>) -> Result<Seq<char>, Seq<char>> {
    match outcome {
        Ok(value) => Ok(value@),
        Err(error) => Err(error@),
    }
}

/// What is written for the outcome of a request.
pub fn answer(outcome: Result<String, String>) -> (r: String)
    ensures
        r@ == answer_of(outcome_view(outcome)),
        outcome matches Ok(value) ==> r@ == value@,
        outcome matches Err(error) ==> r@ == "error\t"@ + error@,
{
    match outcome {
        Ok(value) => value,
        Err(error) => {
            let mut r = "error\t".to_string();
            r.append(error.as_str());
            r
        },
    }
}

/// What a client makes of a line of an answer.
pub open spec fn reply_of(line: Seq<char>) -> Result<Seq<char>, Seq<char>> {
    let value = trimmed_end(line);
    if begins_with(value, "error\t"@) {
        Err(value.skip(6))
    } else {
        Ok(value)
    }
}

/// What a client makes of a line of an answer.
pub fn read_reply(line: &str) -> (r: Result<String, String>)
    ensures
        outcome_view(r) == reply_of(line@),
{
    proof {
        reveal_strlit("error\t");
    }
    let value = trim_end(line);
    match strip_prefix(value.as_str(), "error\t") {
        Some(error) => Err(error),
        None => Ok(value),
    }
}

/// No character of `s` is a tab.
pub open spec fn has_no_tab(s: Seq<char>) -> bool {
    forall|i: int| 0 <= i < s.len() ==> #[trigger] s[i] != '\t'
}

/// `s` does not end in white space.
pub open spec fn ends_plainly(s: Seq<char>) -> bool {
    s.len() > 0 && !is_white(s.last())
}

/// The end of a line does not count.
pub proof fn lemma_line_end(s: Seq<char>)
    requires
        ends_plainly(s),
    ensures
        trimmed_end(s + "\n"@) == s,
{
    reveal_strlit("\n");
    let line = s + "\n"@;
    assert(line.last() == '\n');
    assert(is_white('\n'));
    assert(line.drop_last() =~= s);
    assert(trimmed_end(line) == trimmed_end(s));
}

/// Where the first tab is, in a text that is put together.
proof fn lemma_first_tab(a: Seq<char>, b: Seq<char>)
    requires
        has_no_tab(a),
    ensures
        first_index(a + "\t"@ + b, '\t') == a.len(),
    decreases a.len(),
{
    reveal_strlit("\t");
    let s = a + "\t"@ + b;
    if a.len() == 0 {
        assert(s[0] == '\t');
    } else {
        assert(s[0] == a[0]);
        assert(s.drop_first() =~= a.drop_first() + "\t"@ + b);
        assert forall|i: int| 0 <= i < a.drop_first().len() implies #[trigger] a.drop_first()[i]
            != '\t' by {
            assert(a.drop_first()[i] == a[i + 1]);
        }
        lemma_first_tab(a.drop_first(), b);
    }
}

/// A text without tabs is its only field.
pub proof fn lemma_one_field(a: Seq<char>)
    requires
        has_no_tab(a),
    ensures
        fields_of(a, '\t') == seq![a],
{
    lemma_no_tab(a);
}

proof fn lemma_no_tab(a: Seq<char>)
    requires
        has_no_tab(a),
    ensures
        first_index(a, '\t') == a.len(),
    decreases a.len(),
{
    if a.len() > 0 {
        assert(a[0] != '\t');
        assert forall|i: int| 0 <= i < a.drop_first().len() implies #[trigger] a.drop_first()[i]
            != '\t' by {
            assert(a.drop_first()[i] == a[i + 1]);
        }
        lemma_no_tab(a.drop_first());
    }
}

/// What stands before the first tab is the first field.
pub proof fn lemma_more_fields(a: Seq<char>, b: Seq<char>)
    requires
        has_no_tab(a),
    ensures
        fields_of(a + "\t"@ + b, '\t') == seq![a] + fields_of(b, '\t'),
{
    reveal_strlit("\t");
    let s = a + "\t"@ + b;
    lemma_first_tab(a, b);
    assert(s.take(a.len() as int) =~= a);
    assert(s.skip(a.len() as int + 1) =~= b);
}

/// A change of brightness that is understood is written without tabs and does
/// not end in white space.
pub proof fn lemma_change_is_plain(value: Seq<char>)
    requires
        adjustment_of(value) is Some,
    ensures
        has_no_tab(value),
        ends_plainly(value),
{
    reveal_strlit("+");
    reveal_strlit("-");
    reveal_strlit("%");
    reveal_strlit("%+");
    reveal_strlit("%-");
    let (_, _, number) = written_change(value)->0;
    assert(read_number(number, 100) is Some);
    let digits = unsigned_part(number);
    assert(all_digits(digits));
    assert(has_no_tab(number)) by {
        assert forall|i: int| 0 <= i < number.len() implies #[trigger] number[i] != '\t' by {
            if number[0] == '+' {
                if i > 0 {
                    assert(is_digit(digits[i - 1]));
                    assert(digits[i - 1] == number[i]);
                }
            } else {
                assert(is_digit(digits[i]));
            }
        }
    }
    if begins_with(value, "+"@) || begins_with(value, "-"@) {
        let rest = value.skip(1);
        assert(rest.skip(rest.len() - 1)[0] == '%');
        assert(rest.last() == '%');
        assert(value.last() == '%');
        assert(value.take(1)[0] == value[0]);
        assert forall|i: int| 0 <= i < value.len() implies #[trigger] value[i] != '\t' by {
            if 0 < i < value.len() - 1 {
                assert(number[i - 1] == value[i]);
            }
        }
    } else if ends_with(value, "%+"@) || ends_with(value, "%-"@) {
        let tail = value.skip(value.len() - 2);
        assert(tail[0] == value[value.len() - 2]);
        assert(tail[1] == value[value.len() - 1]);
        assert forall|i: int| 0 <= i < value.len() implies #[trigger] value[i] != '\t' by {
            if i < value.len() - 2 {
                assert(number[i] == value[i]);
            }
        }
    } else {
        let tail = value.skip(value.len() - 1);
        assert(tail[0] == value[value.len() - 1]);
        assert forall|i: int| 0 <= i < value.len() implies #[trigger] value[i] != '\t' by {
            if i < value.len() - 1 {
                assert(number[i] == value[i]);
            }
        }
    }
}

/// A client learns what its request was refused for: reading the line that is
/// written for an error gives the error back.
pub proof fn refusal_reaches_client(error: Seq<char>)
    requires
        ends_plainly(error),
    ensures
        reply_of(answer_of(Err(error)) + "\n"@) == Err::<Seq<char>, Seq<char>>(error),
{
    reveal_strlit("error\t");
    let value = "error\t"@ + error;
    assert(value.last() == error.last());
    lemma_line_end(value);
    assert(value.take(6) =~= "error\t"@);
    assert(value.skip(6) =~= error);
}

/// A client reads the value that its request was answered with, where that does
/// not look like an error.
pub proof fn value_reaches_client(value: Seq<char>)
    requires
        ends_plainly(value),
        !begins_with(value, "error\t"@),
    ensures
        reply_of(answer_of(Ok(value)) + "\n"@) == Ok::<Seq<char>, Seq<char>>(value),
{
    lemma_line_end(value);
}

/// A percentage is understood in each form in which it can be written: alone it is where the
/// brightness is to be, and with a sign in front or behind it is by how much it is to change.
pub proof fn percentage_is_understood(t: Seq<char>)
    requires
        t.len() > 0,
        forall|i: int| 0 <= i < t.len() ==> '0' <= #[trigger] t[i] <= '9',
        number_of(t) <= 100,
    ensures
        ({
            let percent = number_of(t) as u8;
            &&& adjustment_of(t + "%"@) == Some(
                Adjustment { percent, relative: false, increase: true },
            )
            &&& adjustment_of("+"@ + t + "%"@) == Some(
                Adjustment { percent, relative: true, increase: true },
            )
            &&& adjustment_of("-"@ + t + "%"@) == Some(
                Adjustment { percent, relative: true, increase: false },
            )
            &&& adjustment_of(t + "%+"@) == Some(
                Adjustment { percent, relative: true, increase: true },
            )
            &&& adjustment_of(t + "%-"@) == Some(
                Adjustment { percent, relative: true, increase: false },
            )
        }),
{
    reveal_strlit("+");
    reveal_strlit("-");
    reveal_strlit("%");
    reveal_strlit("%+");
    reveal_strlit("%-");
    digits_are_read(t, 100);
    assert('0' <= t[0] <= '9');
    let plain = t + "%"@;
    assert(plain[0] == t[0]);
    assert(plain.take(1)[0] == plain[0]);
    assert("+"@[0] == '+' && "-"@[0] == '-');
    assert(plain.last() == '%');
    if ends_with(plain, "%+"@) {
        assert(plain.skip(plain.len() - 2)[1] == '+');
    }
    if ends_with(plain, "%-"@) {
        assert(plain.skip(plain.len() - 2)[1] == '-');
    }
    assert(plain.skip(plain.len() - 1) =~= "%"@);
    assert(plain.take(plain.len() - 1) =~= t);
    let more = "+"@ + t + "%"@;
    assert(more.take(1) =~= "+"@);
    assert(more.skip(1) =~= plain);
    let less = "-"@ + t + "%"@;
    assert(less.take(1) =~= "-"@);
    assert(less.take(1)[0] == '-');
    assert(less.skip(1) =~= plain);
    let up = t + "%+"@;
    assert(up[0] == t[0] && up.take(1)[0] == up[0]);
    assert(up.skip(up.len() - 2) =~= "%+"@);
    assert(up.take(up.len() - 2) =~= t);
    let down = t + "%-"@;
    assert(down[0] == t[0] && down.take(1)[0] == down[0]);
    assert(down.skip(down.len() - 2) =~= "%-"@);
    assert(down.skip(down.len() - 2)[1] == '-');
    assert("%+"@[1] == '+');
    assert(down.take(down.len() - 2) =~= t);
}

/// What is understood is a percentage. It is a change exactly when a sign begins or ends it, and lowers
/// the brightness exactly when that sign, or the one that begins it where there are two, is a minus.
pub proof fn sign_makes_a_change(value: Seq<char>)
    requires
        adjustment_of(value) is Some,
    ensures
        ({
            let a = adjustment_of(value)->0;
            let front = value[0] == '+' || value[0] == '-';
            &&& value.len() > 1
            &&& a.percent <= 100
            &&& a.relative <==> front || value.last() != '%'
            &&& !a.increase <==> value[0] == '-' || (value[0] != '+' && value.last() == '-')
            &&& front ==> value.last() == '%'
            &&& value.last() == '%' || (value[value.len() - 2] == '%' && (value.last() == '+'
                || value.last() == '-'))
        }),
{
    reveal_strlit("+");
    reveal_strlit("-");
    reveal_strlit("%");
    reveal_strlit("%+");
    reveal_strlit("%-");
    lemma_change_is_plain(value);
    let (_, _, number) = written_change(value)->0;
    assert(read_number(number, 100) is Some);
    assert(unsigned_part(number).len() > 0);
    assert(number.len() > 0);
    assert(value.take(1)[0] == value[0]);
    if value[0] == '+' {
        assert(value.take(1) =~= "+"@);
    }
    if value[0] == '-' {
        assert(value.take(1) =~= "-"@);
    }
    assert("+"@[0] == '+' && "-"@[0] == '-' && "%"@[0] == '%');
    if begins_with(value, "+"@) || begins_with(value, "-"@) {
        let rest = value.skip(1);
        assert(rest.skip(rest.len() - 1)[0] == '%');
        assert(rest.last() == '%');
        assert(value.last() == '%');
    } else if ends_with(value, "%+"@) || ends_with(value, "%-"@) {
        let tail = value.skip(value.len() - 2);
        assert(tail[0] == value[value.len() - 2]);
        assert(tail[1] == value[value.len() - 1]);
        assert("%+"@[1] == '+' && "%-"@[1] == '-' && "%+"@[0] == '%' && "%-"@[0] == '%');
    } else {
        let tail = value.skip(value.len() - 1);
        assert(tail[0] == value[value.len() - 1]);
    }
}

/// Each request with as many fields as it takes is understood as what its first field says, of the
/// output that its second field names.
pub proof fn requests_are_understood(name: Seq<char>, change: Seq<char>, seconds: u64)
    ensures
        action_of(seq!["get"@, name]) == Ok::<ActionView, RequestError>(ActionView::Get(name)),
        adjustment_of(change) matches Some(a) ==> action_of(seq!["set"@, name, change]) == Ok::<
            ActionView,
            RequestError,
        >(ActionView::SetTo(name, a)),
        adjustment_of(change) is None ==> action_of(seq!["set"@, name, change]) == Err::<
            ActionView,
            RequestError,
        >(RequestError::InvalidBrightness),
        ({
            let target = if name == "*"@ {
                None
            } else {
                Some(name)
            };
            &&& action_of(seq!["pause"@, name, "-"@]) == Ok::<ActionView, RequestError>(
                ActionView::Pause(target, None),
            )
            &&& action_of(seq!["pause"@, name, digits_of(seconds as nat)]) == Ok::<
                ActionView,
                RequestError,
            >(ActionView::Pause(target, Some(seconds)))
            &&& action_of(seq!["resume"@, name]) == Ok::<ActionView, RequestError>(
                ActionView::Resume(target),
            )
            &&& action_of(seq!["toggle"@, name]) == Ok::<ActionView, RequestError>(
                ActionView::Toggle(target),
            )
        }),
        request_of(seq!["status"@]) == Ok::<RequestView, RequestError>(
            RequestView::Status { json: false },
        ),
        request_of(seq!["status-json"@]) == Ok::<RequestView, RequestError>(
            RequestView::Status { json: true },
        ),
        request_of(seq!["watch"@]) == Ok::<RequestView, RequestError>(
            RequestView::Watch { json: false },
        ),
        request_of(seq!["watch-json"@]) == Ok::<RequestView, RequestError>(
            RequestView::Watch { json: true },
        ),
{
    reveal_strlit("get");
    reveal_strlit("set");
    reveal_strlit("pause");
    reveal_strlit("resume");
    reveal_strlit("toggle");
    reveal_strlit("-");
    reveal_strlit("status");
    reveal_strlit("status-json");
    reveal_strlit("watch");
    reveal_strlit("watch-json");
    read_inverts_write(seconds as nat, u64::MAX as nat);
    lemma_digits(seconds as nat);
    assert(is_digit(digits_of(seconds as nat)[0]));
    assert("-"@[0] == '-');
    assert(digits_of(seconds as nat) != "-"@);
    assert("get"@[0] == 'g' && "resume"@[0] == 'r' && "toggle"@[0] == 't');
    assert("set"@[0] == 's' && "pause"@[0] == 'p');
    assert("status"@.len() == 6 && "status-json"@.len() == 11 && "watch"@.len() == 5
        && "watch-json"@.len() == 10);
    assert(seq!["status"@][0] == "status"@);
    assert(seq!["status-json"@][0] == "status-json"@);
    assert(seq!["watch"@][0] == "watch"@);
    assert(seq!["watch-json"@][0] == "watch-json"@);
}

/// What is understood begins with a known word and has as many fields as that takes. Anything else is
/// refused as a whole, and only a pause is refused for its number.
pub proof fn other_requests_are_refused(fields: Seq<Seq<char>>)
    ensures
        ({
            let shows = fields.len() == 1 && (fields[0] == "status"@ || fields[0] == "status-json"@
                || fields[0] == "watch"@ || fields[0] == "watch-json"@);
            let acts = (fields.len() == 2 && (fields[0] == "get"@ || fields[0] == "resume"@
                || fields[0] == "toggle"@)) || (fields.len() == 3 && (fields[0] == "set"@
                || fields[0] == "pause"@));
            &&& request_of(fields) == Err::<RequestView, RequestError>(RequestError::InvalidRequest)
                <==> !shows && !acts
            &&& request_of(fields) matches Ok(RequestView::Run(_)) ==> acts
            &&& request_of(fields) matches Err(RequestError::InvalidDuration(fault)) ==> fields[0]
                == "pause"@ && number_fault(fields[2], u64::MAX as nat) == Some(fault)
        }),
{
    reveal_strlit("set");
    reveal_strlit("pause");
    reveal_strlit("get");
    reveal_strlit("resume");
    reveal_strlit("toggle");
    assert("set"@[0] == 's' && "pause"@[0] == 'p');
    if fields.len() == 1 {
        assert(fields =~= seq![fields[0]]);
    }
    assert(seq!["status"@][0] == "status"@ && seq!["status"@].len() == 1);
    assert(seq!["status-json"@][0] == "status-json"@ && seq!["status-json"@].len() == 1);
    assert(seq!["watch"@][0] == "watch"@ && seq!["watch"@].len() == 1);
    assert(seq!["watch-json"@][0] == "watch-json"@ && seq!["watch-json"@].len() == 1);
    if fields.len() == 3 {
        crate::text::decimal::fault_or_number(fields[2], u64::MAX as nat);
    }
}

/// An action is told by what it is asked with.
pub proof fn action_is_told(
    name: String,
    target: Option<String>,
    a: Adjustment,
    s: Option<u64>,
    json: bool,
)
    ensures
        Action::Get(name)@ == ActionView::Get(name@),
        Action::SetTo(name, a)@ == ActionView::SetTo(name@, a),
        Action::Pause(target, s)@ matches ActionView::Pause(_, seconds) && seconds == s,
        Action::Pause(Some(name), s)@ == ActionView::Pause(Some(name@), s),
        Action::Resume(Some(name))@ == ActionView::Resume(Some(name@)),
        Action::Toggle(Some(name))@ == ActionView::Toggle(Some(name@)),
        Action::Resume(None)@ == ActionView::Resume(None),
        Action::Toggle(None)@ == ActionView::Toggle(None),
        (Request::Status { json })@ == (RequestView::Status { json }),
        (Request::Watch { json })@ == (RequestView::Watch { json }),
        Request::Run(Action::Get(name))@ == RequestView::Run(ActionView::Get(name@)),
{
}

/// The fields of a line stand between tabs; white space at the end of the line does not count, and that
/// at its beginning does.
pub proof fn fields_stand_between_tabs(field: Seq<char>, rest: Seq<char>, line: Seq<char>)
    requires
        !field.contains('\t'),
        trimmed_end(line) == field + seq!['\t'] + rest,
        trimmed_end(rest) == rest,
    ensures
        line_fields(line) == seq![field] + line_fields(rest),
{
    crate::text::space::field_stands_before_the_others(field, '\t', rest);
}

/// A line without tabs is one field.
pub proof fn line_without_tabs_is_one_field(line: Seq<char>)
    requires
        !trimmed_end(line).contains('\t'),
    ensures
        line_fields(line) == seq![trimmed_end(line)],
{
    crate::text::space::field_stands_before_the_others(trimmed_end(line), '\t', line);
}

/// Outcomes and targets are told as they are.
pub proof fn outcome_is_told(value: String)
    ensures
        outcome_view(Ok(value)) == Ok::<Seq<char>, Seq<char>>(value@),
        outcome_view(Err(value)) == Err::<Seq<char>, Seq<char>>(value@),
        target_view(Some(value)) == Some(value@),
        target_view(None) is None,
{
}

/// What a client makes of a line is the value without white space behind it, unless the line begins as
/// errors do: then it is what follows.
pub proof fn errors_are_told_from_values(line: Seq<char>)
    ensures
        !begins_with(trimmed_end(line), "error\t"@) ==> reply_of(line) == Ok::<Seq<char>, Seq<char>>(
            trimmed_end(line),
        ),
        begins_with(trimmed_end(line), "error\t"@) ==> (reply_of(line) matches Err(error)
            && trimmed_end(line) == "error\t"@ + error),
{
    reveal_strlit("error\t");
    let value = trimmed_end(line);
    if begins_with(value, "error\t"@) {
        assert(value =~= value.take(6) + value.skip(6));
    }
}

} // verus!
