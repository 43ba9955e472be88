//! The status as text: a table, a line, or JSON.

use super::status::{MonitorStatus, ScreenStatus, Snapshot};
use crate::text::chars::chars;
use crate::text::decimal::{digits, digits_of};
use crate::text::hex::{
    append_hex, hex_fits, hex_inverts_write, hex_number, hex_of, lemma_hex_length,
};
use crate::text::layout::{
    byte_length, join, joined_by, lemma_byte_length, measure, pad, padded,
};
use crate::text::space::{trim_end, trimmed_end, views};
use vstd::prelude::*;

verus! {

/// A number with a suffix, or a dash where there is none.
pub open spec fn optional_text(value: Option<u64>, suffix: Seq<char>) -> Seq<char> {
    match value {
        Some(value) => digits_of(value as nat) + suffix,
        None => "-"@,
    }
}

/// A number, or `null` where there is none.
pub open spec fn json_option_text(value: Option<u64>) -> Seq<char> {
    match value {
        Some(value) => digits_of(value as nat),
        None => "null"@,
    }
}

/// `c` is a control character.
pub open spec fn is_control(c: char) -> bool {
    (c as u32) <= 0x1f || 0x7f <= (c as u32) <= 0x9f
}

/// A character as it stands in a JSON string.
pub open spec fn json_char(c: char) -> Seq<char> {
    if c == '"' {
        "\\\""@
    } else if c == '\\' {
        "\\\\"@
    } else if c == '\n' {
        "\\n"@
    } else if c == '\r' {
        "\\r"@
    } else if c == '\t' {
        "\\t"@
    } else if is_control(c) {
        "\\u"@ + hex_of(c as u32 as nat, 4)
    } else {
        seq![c]
    }
}

/// Characters as they stand in a JSON string.
pub open spec fn json_chars(s: Seq<char>) -> Seq<char>
    decreases s.len(),
{
    if s.len() == 0 {
        Seq::empty()
    } else {
        json_chars(s.drop_last()) + json_char(s.last())
    }
}

/// A text as a JSON string.
pub open spec fn json_text(s: Seq<char>) -> Seq<char> {
    "\""@ + json_chars(s) + "\""@
}

/// An optional number in percent, as a wider one.
pub open spec fn wide(value: Option<u8>) -> Option<u64> {
    match value {
        Some(value) => Some(value as u64),
        None => None,
    }
}

fn widen(value: Option<u8>) -> (r: Option<u64>)
    ensures
        r == wide(value),
{
    match value {
        Some(value) => Some(value as u64),
        None => None,
    }
}

/// A number with a suffix, or a dash where there is none.
pub fn optional(value: Option<u64>, suffix: &str) -> (r: String)
    ensures
        r@ == optional_text(value, suffix@),
        value matches Some(n) ==> r@ == digits_of(n as nat) + suffix@,
        value is None ==> r@ == "-"@,
{
    match value {
        Some(value) => {
            let mut r = digits(value);
            r.append(suffix);
            r
        },
        None => "-".to_string(),
    }
}

/// A number, or `null` where there is none.
pub fn json_option(value: Option<u64>) -> (r: String)
    ensures
        r@ == json_option_text(value),
        value matches Some(n) ==> r@ == digits_of(n as nat),
        value is None ==> r@ == "null"@,
{
    match value {
        Some(value) => digits(value),
        None => "null".to_string(),
    }
}

/// A text as a JSON string.
pub fn json_string(value: &str) -> (r: String)
    ensures
        r@ == json_text(value@),
{
    let v = chars(value);
    let mut r = "\"".to_string();
    assert(r@ + json_chars(Seq::empty()) =~= r@);
    assert(v@.take(0) =~= Seq::empty());
    for i in 0..v.len()
        invariant
            r@ == "\""@ + json_chars(v@.take(i as int)),
    {
        let c = v[i];
        let ghost before = r@;
        let code = c as u32;
        if c == '"' {
            r.append("\\\"");
        } else if c == '\\' {
            r.append("\\\\");
        } else if c == '\n' {
            r.append("\\n");
        } else if c == '\r' {
            r.append("\\r");
        } else if c == '\t' {
            r.append("\\t");
        } else if code <= 0x1f || (0x7f <= code && code <= 0x9f) {
            r.append("\\u");
            append_hex(&mut r, code as u64, 4);
            assert(r@ =~= before + ("\\u"@ + hex_of(c as u32 as nat, 4)));
        } else {
            r.push(c);
            assert(r@ =~= before + seq![c]);
        }
        assert(r@ == before + json_char(c));
        assert(v@.take(i + 1).drop_last() =~= v@.take(i as int));
        assert(v@.take(i + 1).last() == c);
        assert(r@ =~= "\""@ + json_chars(v@.take(i + 1)));
    }
    assert(v@.take(v@.len() as int) =~= v@);
    r.append("\"");
    r
}

/// What a monitor does.
pub open spec fn state_text(paused: bool) -> Seq<char> {
    if paused {
        "paused"@
    } else {
        "active"@
    }
}

/// The screen of the monitor with this name.
pub open spec fn screen_of(s: Snapshot, name: Seq<char>) -> Option<ScreenStatus> {
    if s.screens@.contains_key(name) {
        Some(s.screens@[name])
    } else {
        None
    }
}

/// The lightness of the screen of a monitor.
pub open spec fn luma_of(s: Snapshot, name: Seq<char>) -> Option<u64> {
    match screen_of(s, name) {
        Some(screen) => wide(screen.luma),
        None => None,
    }
}

/// The columns of a monitor in the table.
pub open spec fn row_of(s: Snapshot, name: Seq<char>, monitor: MonitorStatus) -> Seq<Seq<char>> {
    seq![
        name,
        monitor.kind@,
        match screen_of(s, name) {
            Some(screen) => screen.capturer@,
            None => "-"@,
        },
        optional_text(luma_of(s, name), "%"@),
        optional_text(wide(monitor.brightness), "%"@),
        state_text(monitor.paused),
    ]
}

/// The heads of the columns.
pub open spec fn heads() -> Seq<Seq<char>> {
    seq!["OUTPUT"@, "TYPE"@, "CAPTURER"@, "LUMA"@, "BRIGHTNESS"@, "STATE"@]
}

/// The rows of the table, in the order of the names.
pub open spec fn rows_of(s: Snapshot) -> Seq<Seq<Seq<char>>> {
    Seq::new(
        s.monitors.entries@.len(),
        |i: int| row_of(s, s.monitors.entries@[i].0@, s.monitors.entries@[i].1),
    )
}

/// The larger of two widths.
pub open spec fn wider(a: nat, b: nat) -> nat {
    if a < b {
        b
    } else {
        a
    }
}

/// The width of a column: that of what takes most bytes in it.
pub open spec fn column_width(rows: Seq<Seq<Seq<char>>>, column: int) -> nat
    decreases rows.len(),
{
    if rows.len() == 0 {
        byte_length(heads()[column])
    } else {
        wider(column_width(rows.drop_last(), column), byte_length(rows.last()[column]))
    }
}

/// A row whose columns have the given widths, two spaces apart.
pub open spec fn row_text(row: Seq<Seq<char>>, widths: Seq<nat>) -> Seq<char> {
    trimmed_end(joined_by(Seq::new(row.len(), |i: int| padded(row[i], widths[i])), "  "@))
}

/// The widths of the columns.
pub open spec fn widths_of(rows: Seq<Seq<Seq<char>>>) -> Seq<nat> {
    Seq::new(6, |i: int| column_width(rows, i))
}

/// The width of the first column of the table on ambient light.
pub open spec fn als_width(s: Snapshot) -> nat {
    wider(byte_length("ALS TYPE"@), byte_length(s.als.kind@))
}

/// The lines of the tables.
pub open spec fn table_lines(s: Snapshot) -> Seq<Seq<char>> {
    let widths = widths_of(rows_of(s));
    seq![
        padded("ALS TYPE"@, als_width(s)) + "  VALUE"@,
        padded(s.als.kind@, als_width(s)) + "  "@ + optional_text(s.als.value, ""@),
        Seq::empty(),
        row_text(heads(), widths),
    ] + rows_of(s).map_values(|row: Seq<Seq<char>>| row_text(row, widths))
}

/// The status of a monitor on a line.
pub open spec fn part_of(s: Snapshot, name: Seq<char>, monitor: MonitorStatus) -> Seq<char> {
    name + ":luma="@ + optional_text(luma_of(s, name), "%"@) + ",brightness="@ + optional_text(
        wide(monitor.brightness),
        "%"@,
    ) + ","@ + state_text(monitor.paused)
}

/// The parts of the status on a line.
pub open spec fn line_parts(s: Snapshot) -> Seq<Seq<char>> {
    seq!["als="@ + optional_text(s.als.value, ""@)] + Seq::new(
        s.monitors.entries@.len(),
        |i: int| part_of(s, s.monitors.entries@[i].0@, s.monitors.entries@[i].1),
    )
}

/// A truth value in JSON.
pub open spec fn json_bool(value: bool) -> Seq<char> {
    if value {
        "true"@
    } else {
        "false"@
    }
}

/// The status of a monitor in JSON.
pub open spec fn object_of(s: Snapshot, name: Seq<char>, monitor: MonitorStatus) -> Seq<char> {
    "{\"name\":"@ + json_text(name) + ",\"type\":"@ + json_text(monitor.kind@) + ",\"capturer\":"@
        + match screen_of(s, name) {
        Some(screen) => json_text(screen.capturer@),
        None => "null"@,
    } + ",\"luma\":"@ + json_option_text(luma_of(s, name)) + ",\"brightness\":"@
        + json_option_text(wide(monitor.brightness)) + ",\"paused\":"@ + json_bool(monitor.paused)
        + "}"@
}

/// The statuses of the monitors in JSON.
pub open spec fn objects_of(s: Snapshot) -> Seq<Seq<char>> {
    Seq::new(
        s.monitors.entries@.len(),
        |i: int| object_of(s, s.monitors.entries@[i].0@, s.monitors.entries@[i].1),
    )
}

/// The status in JSON.
pub open spec fn json_of(s: Snapshot) -> Seq<char> {
    "{\"als\":{\"type\":"@ + json_text(s.als.kind@) + ",\"value\":"@ + json_option_text(
        s.als.value,
    ) + "},\"outputs\":["@ + joined_by(objects_of(s), ","@) + "]}"@
}

/// The columns of a row.
pub open spec fn rows_views(rows: Seq<Vec<String>>) -> Seq<Seq<Seq<char>>> {
    rows.map_values(|row: Vec<String>| views(row@))
}

/// A row whose columns have the given widths.
fn format_row(row: &Vec<String>, widths: &Vec<u128>) -> (r: String)
    requires
        row@.len() == widths@.len(),
    ensures
        r@ == row_text(views(row@), widths@.map_values(|w: u128| w as nat)),
{
    let ghost wide = widths@.map_values(|w: u128| w as nat);
    let ghost texts = views(row@);
    let ghost all = Seq::new(texts.len(), |i: int| padded(texts[i], wide[i]));
    let mut parts: Vec<String> = Vec::new();
    for i in 0..row.len()
        invariant
            row@.len() == widths@.len(),
            wide == widths@.map_values(|w: u128| w as nat),
            texts == views(row@),
            all == Seq::new(texts.len(), |i: int| padded(texts[i], wide[i])),
            views(parts@) =~= all.take(i as int),
    {
        let ghost before = parts@;
        let part = pad(row[i].as_str(), widths[i]);
        assert(texts[i as int] == row@[i as int]@);
        parts.push(part);
        assert(views(parts@) =~= views(before).push(part@));
    }
    assert(views(parts@) =~= all);
    trim_end(join(&parts, "  ").as_str())
}

/// The heads of the columns.
fn header() -> (r: Vec<String>)
    ensures
        views(r@) == heads(),
{
    let mut r: Vec<String> = Vec::new();
    r.push("OUTPUT".to_string());
    r.push("TYPE".to_string());
    r.push("CAPTURER".to_string());
    r.push("LUMA".to_string());
    r.push("BRIGHTNESS".to_string());
    r.push("STATE".to_string());
    assert(views(r@) =~= heads());
    r
}

/// The width of a column.
fn width_of(heads_row: &Vec<String>, rows: &Vec<Vec<String>>, column: usize) -> (r: u128)
    requires
        views(heads_row@) == heads(),
        column < 6,
        forall|i: int| 0 <= i < rows@.len() ==> (#[trigger] rows@[i])@.len() == 6,
    ensures
        r == column_width(rows_views(rows@), column as int),
{
    let ghost all = rows_views(rows@);
    assert(heads_row@.len() == views(heads_row@).len());
    assert(views(heads_row@)[column as int] == heads_row@[column as int]@);
    let mut width = measure(heads_row[column].as_str());
    assert(all.take(0) =~= Seq::empty());
    for i in 0..rows.len()
        invariant
            column < 6,
            all == rows_views(rows@),
            forall|i: int| 0 <= i < rows@.len() ==> (#[trigger] rows@[i])@.len() == 6,
            width == column_width(all.take(i as int), column as int),
    {
        assert(rows@[i as int]@.len() == 6);
        let n = measure(rows[i][column].as_str());
        assert(all.take(i + 1).drop_last() =~= all.take(i as int));
        assert(all.take(i + 1).last() == views(rows@[i as int]@));
        assert(views(rows@[i as int]@)[column as int] == rows@[i as int]@[column as int]@);
        if width < n {
            width = n;
        }
    }
    assert(all.take(all.len() as int) =~= all);
    width
}

impl Snapshot {
    /// The columns of a monitor in the table.
    fn row(&self, i: usize) -> (r: Vec<String>)
        requires
            self.wf(),
            i < self.monitors.entries@.len(),
        ensures
            views(r@) == rows_of(*self)[i as int],
            r@.len() == 6,
    {
        let name = &self.monitors.entries[i].0;
        let monitor = &self.monitors.entries[i].1;
        let screen = self.screens.get(name.as_str());
        let mut r: Vec<String> = Vec::new();
        r.push(name.clone());
        r.push(monitor.kind.clone());
        r.push(
            match screen {
                Some(screen) => screen.capturer.clone(),
                None => "-".to_string(),
            },
        );
        let luma = match screen {
            Some(screen) => widen(screen.luma),
            None => None,
        };
        r.push(optional(luma, "%"));
        r.push(optional(widen(monitor.brightness), "%"));
        r.push(
            if monitor.paused {
                "paused".to_string()
            } else {
                "active".to_string()
            },
        );
        assert(views(r@) =~= row_of(*self, name@, *monitor));
        r
    }

    /// The status as tables: ambient light, and then the outputs.
    pub fn tables(&self) -> (r: String)
        requires
            self.wf(),
        ensures
            r@ == joined_by(table_lines(*self), "\n"@),
    {
        let head = measure("ALS TYPE");
        let kind = measure(self.als.kind.as_str());
        let width = if head < kind {
            kind
        } else {
            head
        };
        let mut lines: Vec<String> = Vec::new();
        let mut first = pad("ALS TYPE", width);
        first.append("  VALUE");
        lines.push(first);
        let mut second = pad(self.als.kind.as_str(), width);
        second.append("  ");
        second.append(optional(self.als.value, "").as_str());
        lines.push(second);
        lines.push(String::new());
        let mut rows: Vec<Vec<String>> = Vec::new();
        for i in 0..self.monitors.entries.len()
            invariant
                self.wf(),
                rows@.len() == i,
                forall|j: int| 0 <= j < rows@.len() ==> (#[trigger] rows@[j])@.len() == 6,
                forall|j: int|
                    0 <= j < rows@.len() ==> views((#[trigger] rows@[j])@) == rows_of(*self)[j],
        {
            rows.push(self.row(i));
        }
        assert(rows_views(rows@) =~= rows_of(*self));
        let heads_row = header();
        let ghost widths_spec = widths_of(rows_of(*self));
        let mut widths: Vec<u128> = Vec::new();
        for column in 0..6usize
            invariant
                views(heads_row@) == heads(),
                rows_views(rows@) == rows_of(*self),
                widths_spec == widths_of(rows_of(*self)),
                forall|j: int| 0 <= j < rows@.len() ==> (#[trigger] rows@[j])@.len() == 6,
                widths@.map_values(|w: u128| w as nat) =~= widths_spec.take(column as int),
        {
            let ghost before = widths@;
            let width = width_of(&heads_row, &rows, column);
            widths.push(width);
            assert(widths_spec[column as int] == width as nat);
            assert(widths@.map_values(|w: u128| w as nat) =~= before.map_values(
                |w: u128| w as nat,
            ).push(width as nat));
        }
        assert(widths@.map_values(|w: u128| w as nat) =~= widths_spec);
        assert(heads_row@.len() == views(heads_row@).len());
        lines.push(format_row(&heads_row, &widths));
        let ghost fixed = views(lines@);
        let ghost texts = rows_of(*self).map_values(
            |row: Seq<Seq<char>>| row_text(row, widths_spec),
        );
        assert(fixed =~= table_lines(*self).take(4));
        for i in 0..rows.len()
            invariant
                rows_views(rows@) == rows_of(*self),
                widths@.map_values(|w: u128| w as nat) == widths_spec,
                widths@.len() == 6,
                texts == rows_of(*self).map_values(
                    |row: Seq<Seq<char>>| row_text(row, widths_spec),
                ),
                forall|j: int| 0 <= j < rows@.len() ==> (#[trigger] rows@[j])@.len() == 6,
                views(lines@) =~= fixed + texts.take(i as int),
        {
            let ghost before = lines@;
            assert(rows@[i as int]@.len() == 6);
            assert(rows_views(rows@)[i as int] == views(rows@[i as int]@));
            let line = format_row(&rows[i], &widths);
            lines.push(line);
            assert(views(lines@) =~= views(before).push(line@));
        }
        assert(views(lines@) =~= table_lines(*self));
        join(&lines, "\n")
    }

    /// The status on one line.
    pub fn line(&self) -> (r: String)
        requires
            self.wf(),
        ensures
            r@ == joined_by(line_parts(*self), " "@),
    {
        let ghost all = line_parts(*self);
        let mut parts: Vec<String> = Vec::new();
        let mut first = "als=".to_string();
        first.append(optional(self.als.value, "").as_str());
        parts.push(first);
        assert(views(parts@) =~= all.take(1));
        for i in 0..self.monitors.entries.len()
            invariant
                self.wf(),
                all == line_parts(*self),
                views(parts@) =~= all.take(i + 1),
        {
            let ghost before = parts@;
            let name = &self.monitors.entries[i].0;
            let monitor = &self.monitors.entries[i].1;
            let luma = match self.screens.get(name.as_str()) {
                Some(screen) => widen(screen.luma),
                None => None,
            };
            let mut part = name.clone();
            part.append(":luma=");
            part.append(optional(luma, "%").as_str());
            part.append(",brightness=");
            part.append(optional(widen(monitor.brightness), "%").as_str());
            part.append(",");
            part.append(
                if monitor.paused {
                    "paused"
                } else {
                    "active"
                },
            );
            assert(part@ == part_of(*self, name@, *monitor));
            assert(all[i + 1] == part@);
            parts.push(part);
            assert(views(parts@) =~= views(before).push(part@));
        }
        assert(views(parts@) =~= all);
        join(&parts, " ")
    }

    /// The status in JSON.
    pub fn json(&self) -> (r: String)
        requires
            self.wf(),
        ensures
            r@ == json_of(*self),
    {
        let ghost all = objects_of(*self);
        let mut objects: Vec<String> = Vec::new();
        for i in 0..self.monitors.entries.len()
            invariant
                self.wf(),
                all == objects_of(*self),
                views(objects@) =~= all.take(i as int),
        {
            let ghost before = objects@;
            let name = &self.monitors.entries[i].0;
            let monitor = &self.monitors.entries[i].1;
            let screen = self.screens.get(name.as_str());
            let mut object = "{\"name\":".to_string();
            object.append(json_string(name.as_str()).as_str());
            object.append(",\"type\":");
            object.append(json_string(monitor.kind.as_str()).as_str());
            object.append(",\"capturer\":");
            match screen {
                Some(screen) => object.append(json_string(screen.capturer.as_str()).as_str()),
                None => object.append("null"),
            }
            let luma = match screen {
                Some(screen) => widen(screen.luma),
                None => None,
            };
            object.append(",\"luma\":");
            object.append(json_option(luma).as_str());
            object.append(",\"brightness\":");
            object.append(json_option(widen(monitor.brightness)).as_str());
            object.append(",\"paused\":");
            object.append(
                if monitor.paused {
                    "true"
                } else {
                    "false"
                },
            );
            object.append("}");
            assert(object@ == object_of(*self, name@, *monitor));
            objects.push(object);
            assert(views(objects@) =~= views(before).push(object@));
        }
        assert(views(objects@) =~= all);
        let mut r = "{\"als\":{\"type\":".to_string();
        r.append(json_string(self.als.kind.as_str()).as_str());
        r.append(",\"value\":");
        r.append(json_option(self.als.value).as_str());
        r.append("},\"outputs\":[");
        r.append(join(&objects, ",").as_str());
        r.append("]}");
        r
    }
}

/// No character of `s` is a control character.
pub open spec fn is_plain(s: Seq<char>) -> bool {
    forall|i: int| 0 <= i < s.len() ==> !is_control(#[trigger] s[i])
}

proof fn lemma_plain_sum(a: Seq<char>, b: Seq<char>)
    requires
        is_plain(a),
        is_plain(b),
    ensures
        is_plain(a + b),
{
    assert forall|i: int| 0 <= i < (a + b).len() implies !is_control(#[trigger] (a + b)[i]) by {
        if i < a.len() {
            assert((a + b)[i] == a[i]);
        } else {
            assert((a + b)[i] == b[i - a.len()]);
        }
    }
}

proof fn lemma_plain_hex(n: nat, width: nat)
    ensures
        is_plain(hex_of(n, width)),
    decreases width,
{
    if width > 0 {
        lemma_plain_hex(n / 16, (width - 1) as nat);
    }
}

proof fn lemma_plain_digits(n: nat)
    ensures
        is_plain(digits_of(n)),
    decreases n,
{
    if n >= 10 {
        lemma_plain_digits(n / 10);
    }
}

proof fn lemma_plain_json_char(c: char)
    ensures
        is_plain(json_char(c)),
{
    reveal_strlit("\\\"");
    reveal_strlit("\\\\");
    reveal_strlit("\\n");
    reveal_strlit("\\r");
    reveal_strlit("\\t");
    reveal_strlit("\\u");
    lemma_plain_hex(c as u32 as nat, 4);
    lemma_plain_sum("\\u"@, hex_of(c as u32 as nat, 4));
}

/// A JSON string holds no control character, whatever the text holds.
pub proof fn json_text_is_plain(s: Seq<char>)
    ensures
        is_plain(json_text(s)),
{
    reveal_strlit("\"");
    lemma_plain_json_chars(s);
    lemma_plain_sum("\""@, json_chars(s));
    lemma_plain_sum("\""@ + json_chars(s), "\""@);
}

/// The character that an escape of two characters stands for in a JSON string, by the second one.
pub open spec fn short_escape(c: char) -> Option<char> {
    if c == '"' || c == '\\' || c == '/' {
        Some(c)
    } else if c == 'b' {
        Some(8u8 as char)
    } else if c == 'f' {
        Some(12u8 as char)
    } else if c == 'n' {
        Some('\n')
    } else if c == 'r' {
        Some('\r')
    } else if c == 't' {
        Some('\t')
    } else {
        None
    }
}

/// A text with one more character before it, where there is a text.
pub open spec fn after(c: char, rest: Option<Seq<char>>) -> Option<Seq<char>> {
    match rest {
        Some(rest) => Some(seq![c] + rest),
        None => None,
    }
}

/// What stands between the quotes of a JSON string, read. An escape of four hexadecimal digits has
/// to be a character on its own.
pub open spec fn decoded_chars(s: Seq<char>) -> Option<Seq<char>>
    decreases s.len(),
{
    if s.len() == 0 {
        Some(Seq::empty())
    } else if s[0] == '"' || (s[0] as u32) < 0x20 {
        None
    } else if s[0] != '\\' {
        after(s[0], decoded_chars(s.skip(1)))
    } else if s.len() < 2 {
        None
    } else if s[1] != 'u' {
        match short_escape(s[1]) {
            Some(c) => after(c, decoded_chars(s.skip(2))),
            None => None,
        }
    } else if s.len() < 6 {
        None
    } else {
        match hex_number(s.subrange(2, 6)) {
            Some(n) => if n < 0xd800 || 0xe000 <= n {
                after(n as char, decoded_chars(s.skip(6)))
            } else {
                None
            },
            None => None,
        }
    }
}

/// The text that a JSON string stands for.
pub open spec fn json_decoded(s: Seq<char>) -> Option<Seq<char>> {
    if s.len() >= 2 && s[0] == '"' && s.last() == '"' {
        decoded_chars(s.subrange(1, s.len() - 1))
    } else {
        None
    }
}

/// Characters in a JSON string begin with the first one.
proof fn lemma_first_json_char(s: Seq<char>)
    requires
        s.len() > 0,
    ensures
        json_chars(s) == json_char(s[0]) + json_chars(s.drop_first()),
    decreases s.len(),
{
    let shorter = s.drop_last();
    if s.len() == 1 {
        assert(json_chars(shorter) =~= Seq::empty());
        assert(json_chars(s.drop_first()) =~= Seq::empty());
        assert(json_chars(s) =~= json_char(s[0]) + json_chars(s.drop_first()));
    } else {
        lemma_first_json_char(shorter);
        let rest = s.drop_first();
        assert(shorter.drop_first() =~= rest.drop_last());
        assert(rest.last() == s.last());
        assert(json_chars(s) =~= json_char(s[0]) + json_chars(rest));
    }
}

/// A character that was written is read as such.
proof fn lemma_decoded_char(c: char, rest: Seq<char>)
    ensures
        decoded_chars(json_char(c) + rest) == after(c, decoded_chars(rest)),
{
    reveal_strlit("\\\"");
    reveal_strlit("\\\\");
    reveal_strlit("\\n");
    reveal_strlit("\\r");
    reveal_strlit("\\t");
    reveal_strlit("\\u");
    let s = json_char(c) + rest;
    if c == '"' || c == '\\' || c == '\n' || c == '\r' || c == '\t' {
        assert(s.skip(2) =~= rest);
    } else if is_control(c) {
        let n = c as u32 as nat;
        lemma_hex_length(n, 4);
        reveal_with_fuel(hex_fits, 5);
        assert(n / 16 / 16 == 0) by {
            assert(n <= 0x9f);
        }
        hex_inverts_write(n, 4);
        assert(s.subrange(2, 6) =~= hex_of(n, 4));
        assert(s.skip(6) =~= rest);
        assert(s[0] == '\\' && s[1] == 'u');
        assert(n as char == c);
    } else {
        assert(s[0] == c);
        assert(s.skip(1) =~= rest);
    }
}

proof fn lemma_decoded_chars(s: Seq<char>)
    ensures
        decoded_chars(json_chars(s)) == Some(s),
    decreases s.len(),
{
    if s.len() == 0 {
        assert(s =~= Seq::empty());
    } else {
        lemma_first_json_char(s);
        lemma_decoded_char(s[0], json_chars(s.drop_first()));
        lemma_decoded_chars(s.drop_first());
        assert(seq![s[0]] + s.drop_first() =~= s);
    }
}

/// Reading a text that was written as a JSON string gives it back, whatever it holds.
pub proof fn json_text_is_read_back(s: Seq<char>)
    ensures
        json_decoded(json_text(s)) == Some(s),
{
    reveal_strlit("\"");
    let text = json_text(s);
    assert(text[0] == '"' && text.last() == '"');
    assert(text.subrange(1, text.len() - 1) =~= json_chars(s));
    lemma_decoded_chars(s);
}

proof fn lemma_plain_json_chars(s: Seq<char>)
    ensures
        is_plain(json_chars(s)),
    decreases s.len(),
{
    if s.len() > 0 {
        lemma_plain_json_chars(s.drop_last());
        lemma_plain_json_char(s.last());
        lemma_plain_sum(json_chars(s.drop_last()), json_char(s.last()));
    }
}

proof fn lemma_plain_option(value: Option<u64>)
    ensures
        is_plain(json_option_text(value)),
{
    reveal_strlit("null");
    match value {
        Some(value) => lemma_plain_digits(value as nat),
        None => {},
    }
}

proof fn lemma_plain_joined(parts: Seq<Seq<char>>, separator: Seq<char>)
    requires
        is_plain(separator),
        forall|i: int| 0 <= i < parts.len() ==> is_plain(#[trigger] parts[i]),
    ensures
        is_plain(joined_by(parts, separator)),
    decreases parts.len(),
{
    if parts.len() > 1 {
        let shorter = parts.drop_last();
        assert forall|i: int| 0 <= i < shorter.len() implies is_plain(#[trigger] shorter[i]) by {
            assert(shorter[i] == parts[i]);
        }
        lemma_plain_joined(shorter, separator);
        lemma_plain_sum(joined_by(shorter, separator), separator);
        assert(is_plain(parts[parts.len() - 1]));
        lemma_plain_sum(joined_by(shorter, separator) + separator, parts.last());
    }
}

proof fn lemma_plain_object(s: Snapshot, name: Seq<char>, monitor: MonitorStatus)
    ensures
        is_plain(object_of(s, name, monitor)),
{
    reveal_strlit("{\"name\":");
    reveal_strlit(",\"type\":");
    reveal_strlit(",\"capturer\":");
    reveal_strlit(",\"luma\":");
    reveal_strlit(",\"brightness\":");
    reveal_strlit(",\"paused\":");
    reveal_strlit("null");
    reveal_strlit("true");
    reveal_strlit("false");
    reveal_strlit("}");
    json_text_is_plain(name);
    json_text_is_plain(monitor.kind@);
    let capturer = match screen_of(s, name) {
        Some(screen) => json_text(screen.capturer@),
        None => "null"@,
    };
    if let Some(screen) = screen_of(s, name) {
        json_text_is_plain(screen.capturer@);
    }
    lemma_plain_option(luma_of(s, name));
    lemma_plain_option(wide(monitor.brightness));
    let a = "{\"name\":"@ + json_text(name);
    lemma_plain_sum("{\"name\":"@, json_text(name));
    let b = a + ",\"type\":"@;
    lemma_plain_sum(a, ",\"type\":"@);
    let c = b + json_text(monitor.kind@);
    lemma_plain_sum(b, json_text(monitor.kind@));
    let d = c + ",\"capturer\":"@;
    lemma_plain_sum(c, ",\"capturer\":"@);
    let e = d + capturer;
    lemma_plain_sum(d, capturer);
    let f = e + ",\"luma\":"@;
    lemma_plain_sum(e, ",\"luma\":"@);
    let g = f + json_option_text(luma_of(s, name));
    lemma_plain_sum(f, json_option_text(luma_of(s, name)));
    let h = g + ",\"brightness\":"@;
    lemma_plain_sum(g, ",\"brightness\":"@);
    let i = h + json_option_text(wide(monitor.brightness));
    lemma_plain_sum(h, json_option_text(wide(monitor.brightness)));
    let j = i + ",\"paused\":"@;
    lemma_plain_sum(i, ",\"paused\":"@);
    let k = j + json_bool(monitor.paused);
    lemma_plain_sum(j, json_bool(monitor.paused));
    lemma_plain_sum(k, "}"@);
}

/// The status in JSON holds no control character, so it always fits on the one
/// line that a client reads, whatever the names of the outputs hold.
pub proof fn json_is_one_line(s: Snapshot)
    ensures
        is_plain(json_of(s)),
{
    reveal_strlit("{\"als\":{\"type\":");
    reveal_strlit(",\"value\":");
    reveal_strlit("},\"outputs\":[");
    reveal_strlit("]}");
    reveal_strlit(",");
    json_text_is_plain(s.als.kind@);
    lemma_plain_option(s.als.value);
    let parts = objects_of(s);
    assert forall|i: int| 0 <= i < parts.len() implies is_plain(#[trigger] parts[i]) by {
        lemma_plain_object(s, s.monitors.entries@[i].0@, s.monitors.entries@[i].1);
    }
    lemma_plain_joined(parts, ","@);
    let a = "{\"als\":{\"type\":"@ + json_text(s.als.kind@);
    lemma_plain_sum("{\"als\":{\"type\":"@, json_text(s.als.kind@));
    let b = a + ",\"value\":"@;
    lemma_plain_sum(a, ",\"value\":"@);
    let c = b + json_option_text(s.als.value);
    lemma_plain_sum(b, json_option_text(s.als.value));
    let d = c + "},\"outputs\":["@;
    lemma_plain_sum(c, "},\"outputs\":["@);
    let e = d + joined_by(parts, ","@);
    lemma_plain_sum(d, joined_by(parts, ","@));
    lemma_plain_sum(e, "]}"@);
}

proof fn lemma_column_width(rows: Seq<Seq<Seq<char>>>, column: int, i: int)
    requires
        0 <= i <= rows.len(),
    ensures
        byte_length(heads()[column]) <= column_width(rows, column),
        i < rows.len() ==> byte_length(rows[i][column]) <= column_width(rows, column),
    decreases rows.len(),
{
    if rows.len() > 0 {
        let k = if i < rows.len() - 1 {
            i
        } else {
            rows.len() - 1
        };
        lemma_column_width(rows.drop_last(), column, k);
        if i < rows.len() - 1 {
            assert(rows.drop_last()[i] == rows[i]);
        }
    }
}

/// In the table, each column is as wide in every row as it is in the heads, so
/// that the columns stand below each other, however long the names are.
pub proof fn columns_align(s: Snapshot, i: int, column: int)
    requires
        0 <= i < rows_of(s).len(),
        0 <= column < 6,
    ensures
        padded(rows_of(s)[i][column], widths_of(rows_of(s))[column]).len() == widths_of(
            rows_of(s),
        )[column],
        padded(heads()[column], widths_of(rows_of(s))[column]).len() == widths_of(
            rows_of(s),
        )[column],
{
    lemma_column_width(rows_of(s), column, i);
    lemma_byte_length(rows_of(s)[i][column]);
    lemma_byte_length(heads()[column]);
}

/// Quotes, backslashes, line ends and tabs are told by a backslash and a letter, other control
/// characters by their number, and all others by themselves.
pub proof fn characters_are_told_in_json(c: char)
    ensures
        c == '"' ==> json_char(c) == seq!['\\', '"'],
        c == '\\' ==> json_char(c) == seq!['\\', '\\'],
        c == '\n' ==> json_char(c) == seq!['\\', 'n'],
        c == '\r' ==> json_char(c) == seq!['\\', 'r'],
        c == '\t' ==> json_char(c) == seq!['\\', 't'],
        c as u32 >= 0x20 && !(0x7f <= c as u32 <= 0x9f) && c != '"' && c != '\\' ==> json_char(c)
            == seq![c],
        (c as u32) < 0x20 && c != '\n' && c != '\r' && c != '\t' || 0x7f <= c as u32 <= 0x9f
            ==> json_char(c) == seq!['\\', 'u'] + hex_of(c as u32 as nat, 4),
{
    reveal_strlit("\\\"");
    reveal_strlit("\\\\");
    reveal_strlit("\\n");
    reveal_strlit("\\r");
    reveal_strlit("\\t");
    reveal_strlit("\\u");
    assert("\\\""@ =~= seq!['\\', '"']);
    assert("\\\\"@ =~= seq!['\\', '\\']);
    assert("\\n"@ =~= seq!['\\', 'n']);
    assert("\\r"@ =~= seq!['\\', 'r']);
    assert("\\t"@ =~= seq!['\\', 't']);
    assert("\\u"@ =~= seq!['\\', 'u']);
}

/// The characters of a text follow each other in JSON as they do in the text.
pub proof fn characters_follow_each_other(s: Seq<char>, c: char)
    ensures
        json_chars(Seq::empty()) == Seq::<char>::empty(),
        json_chars(s.push(c)) == json_chars(s) + json_char(c),
        json_text(s) == "\""@ + json_chars(s) + "\""@,
{
    assert(s.push(c).drop_last() =~= s);
}

/// The lightness of a monitor is that of the screen with its name, where there is one and it is known.
pub proof fn lightness_is_that_of_its_screen(s: Snapshot, name: Seq<char>)
    ensures
        luma_of(s, name) is Some <==> s.screens@.contains_key(name) && s.screens@[name].luma is Some,
        luma_of(s, name) matches Some(n) ==> n == s.screens@[name].luma->0,
        screen_of(s, name) is Some <==> s.screens@.contains_key(name),
        screen_of(s, name) matches Some(screen) ==> screen == s.screens@[name],
{
}

/// Each monitor has a row of its own, in the order of the names, and the row tells what is known of it
/// and of its screen.
pub proof fn monitor_is_told_in_its_row(s: Snapshot, i: int)
    requires
        0 <= i < s.monitors.entries@.len(),
    ensures
        ({
            let (name, monitor) = s.monitors.entries@[i];
            let row = rows_of(s)[i];
            let shown = s.screens@.contains_key(name@);
            &&& rows_of(s).len() == s.monitors.entries@.len()
            &&& row.len() == 6
            &&& row[0] == name@
            &&& row[1] == monitor.kind@
            &&& shown ==> row[2] == s.screens@[name@].capturer@
            &&& !shown ==> row[2] == "-"@ && row[3] == "-"@
            &&& shown && s.screens@[name@].luma is Some ==> row[3] == digits_of(
                s.screens@[name@].luma->0 as nat,
            ) + "%"@
            &&& shown && s.screens@[name@].luma is None ==> row[3] == "-"@
            &&& monitor.brightness matches Some(b) ==> row[4] == digits_of(b as nat) + "%"@
            &&& monitor.brightness is None ==> row[4] == "-"@
            &&& monitor.paused ==> row[5] == "paused"@
            &&& !monitor.paused ==> row[5] == "active"@
        }),
{
}

/// The table has a head for each column, and a line for each monitor below those on ambient light.
pub proof fn table_has_a_line_for_each_monitor(s: Snapshot)
    ensures
        heads() == seq!["OUTPUT"@, "TYPE"@, "CAPTURER"@, "LUMA"@, "BRIGHTNESS"@, "STATE"@],
        table_lines(s).len() == 4 + s.monitors.entries@.len(),
        table_lines(s)[0] == padded("ALS TYPE"@, als_width(s)) + "  VALUE"@,
        s.als.value matches Some(n) ==> table_lines(s)[1] == padded(s.als.kind@, als_width(s)) + "  "@
            + digits_of(n as nat),
        s.als.value is None ==> table_lines(s)[1] == padded(s.als.kind@, als_width(s)) + "  "@ + "-"@,
        table_lines(s)[2].len() == 0,
        table_lines(s)[3] == row_text(heads(), widths_of(rows_of(s))),
        forall|i: int|
            0 <= i < s.monitors.entries@.len() ==> table_lines(s)[4 + i] == row_text(
                #[trigger] rows_of(s)[i],
                widths_of(rows_of(s)),
            ),
        byte_length("ALS TYPE"@) <= als_width(s) && byte_length(s.als.kind@) <= als_width(s),
        als_width(s) == byte_length("ALS TYPE"@) || als_width(s) == byte_length(s.als.kind@),
{
    reveal_strlit("");
    if let Some(n) = s.als.value {
        assert(digits_of(n as nat) + ""@ =~= digits_of(n as nat));
    }
}

/// In a row, the columns stand two spaces apart, each filled up to its width, and nothing follows the
/// last one.
pub proof fn columns_stand_apart(row: Seq<Seq<char>>, w: Seq<nat>)
    requires
        row.len() == 6,
        w.len() == 6,
    ensures
        row_text(row, w) == trimmed_end(
            padded(row[0], w[0]) + "  "@ + padded(row[1], w[1]) + "  "@ + padded(row[2], w[2]) + "  "@
                + padded(row[3], w[3]) + "  "@ + padded(row[4], w[4]) + "  "@ + padded(row[5], w[5]),
        ),
{
    let all = Seq::new(row.len(), |i: int| padded(row[i], w[i]));
    reveal_with_fuel(joined_by, 7);
    assert(all.drop_last().last() == all[4]);
    assert(all.drop_last().drop_last().last() == all[3]);
    assert(all.drop_last().drop_last().drop_last().last() == all[2]);
    assert(all.drop_last().drop_last().drop_last().drop_last().last() == all[1]);
    assert(all.drop_last().drop_last().drop_last().drop_last().drop_last()[0] == all[0]);
}

/// No column is wider than what it has to hold.
pub proof fn columns_are_as_wide_as_needed(rows: Seq<Seq<Seq<char>>>, column: int)
    ensures
        column_width(rows, column) == byte_length(heads()[column]) || exists|i: int|
            0 <= i < rows.len() && column_width(rows, column) == byte_length(
                (#[trigger] rows[i])[column],
            ),
        byte_length(heads()[column]) <= column_width(rows, column),
        forall|i: int|
            0 <= i < rows.len() ==> byte_length((#[trigger] rows[i])[column]) <= column_width(
                rows,
                column,
            ),
    decreases rows.len(),
{
    if rows.len() > 0 {
        let shorter = rows.drop_last();
        columns_are_as_wide_as_needed(shorter, column);
        assert(rows[rows.len() - 1] == rows.last());
        if column_width(rows, column) != byte_length(rows.last()[column]) && column_width(
            rows,
            column,
        ) != byte_length(heads()[column]) {
            let i = choose|i: int|
                0 <= i < shorter.len() && column_width(shorter, column) == byte_length(
                    (#[trigger] shorter[i])[column],
                );
            assert(rows[i] == shorter[i]);
        }
        assert forall|i: int| 0 <= i < rows.len() implies byte_length((#[trigger] rows[i])[column])
            <= column_width(rows, column) by {
            if i < rows.len() - 1 {
                assert(shorter[i] == rows[i]);
            }
        }
    }
}

/// A lightness or a brightness, as the line tells it.
proof fn lemma_percent_text(value: Option<u8>)
    ensures
        value matches Some(n) ==> optional_text(wide(value), "%"@) == digits_of(n as nat) + "%"@,
        value is None ==> optional_text(wide(value), "%"@) == "-"@,
{
}

/// On the line, the ambient light comes first, and then each monitor in the order of the names, with
/// its lightness, its brightness and whether it is paused.
pub proof fn monitor_is_told_on_the_line(s: Snapshot, i: int, luma: Seq<char>, brightness: Seq<char>)
    requires
        0 <= i < s.monitors.entries@.len(),
        ({
            let (name, monitor) = s.monitors.entries@[i];
            &&& luma == if s.screens@.contains_key(name@) && s.screens@[name@].luma is Some {
                digits_of(s.screens@[name@].luma->0 as nat) + "%"@
            } else {
                "-"@
            }
            &&& brightness == if monitor.brightness is Some {
                digits_of(monitor.brightness->0 as nat) + "%"@
            } else {
                "-"@
            }
        }),
    ensures
        line_parts(s).len() == s.monitors.entries@.len() + 1,
        s.als.value matches Some(n) ==> line_parts(s)[0] == "als="@ + digits_of(n as nat),
        s.als.value is None ==> line_parts(s)[0] == "als="@ + "-"@,
        line_parts(s)[i + 1] == s.monitors.entries@[i].0@ + ":luma="@ + luma + ",brightness="@
            + brightness + ","@ + if s.monitors.entries@[i].1.paused {
            "paused"@
        } else {
            "active"@
        },
{
    reveal_strlit("");
    if let Some(n) = s.als.value {
        assert(digits_of(n as nat) + ""@ =~= digits_of(n as nat));
    }
    lemma_percent_text(s.monitors.entries@[i].1.brightness);
    if s.screens@.contains_key(s.monitors.entries@[i].0@) {
        lemma_percent_text(s.screens@[s.monitors.entries@[i].0@].luma);
    }
}

/// In JSON, each monitor is an object of its own, in the order of the names, that tells what is known
/// of it and of its screen; what is not known is `null`.
pub proof fn monitor_is_told_in_json(
    s: Snapshot,
    i: int,
    capturer: Seq<char>,
    luma: Seq<char>,
    brightness: Seq<char>,
)
    requires
        0 <= i < s.monitors.entries@.len(),
        ({
            let (name, monitor) = s.monitors.entries@[i];
            let shown = s.screens@.contains_key(name@);
            &&& capturer == if shown {
                json_text(s.screens@[name@].capturer@)
            } else {
                "null"@
            }
            &&& luma == if shown && s.screens@[name@].luma is Some {
                digits_of(s.screens@[name@].luma->0 as nat)
            } else {
                "null"@
            }
            &&& brightness == if monitor.brightness is Some {
                digits_of(monitor.brightness->0 as nat)
            } else {
                "null"@
            }
        }),
    ensures
        objects_of(s).len() == s.monitors.entries@.len(),
        objects_of(s)[i] == "{\"name\":"@ + json_text(s.monitors.entries@[i].0@) + ",\"type\":"@
            + json_text(s.monitors.entries@[i].1.kind@) + ",\"capturer\":"@ + capturer
            + ",\"luma\":"@ + luma + ",\"brightness\":"@ + brightness + ",\"paused\":"@
            + (if s.monitors.entries@[i].1.paused {
            "true"@
        } else {
            "false"@
        }) + "}"@,
{
}

/// In JSON, the ambient light and the monitors are told together.
pub proof fn status_is_told_in_json(s: Snapshot, value: Seq<char>)
    requires
        value == if s.als.value is Some {
            digits_of(s.als.value->0 as nat)
        } else {
            "null"@
        },
    ensures
        json_of(s) == "{\"als\":{\"type\":"@ + json_text(s.als.kind@) + ",\"value\":"@ + value
            + "},\"outputs\":["@ + joined_by(objects_of(s), ","@) + "]}"@,
{
}

} // verus!
