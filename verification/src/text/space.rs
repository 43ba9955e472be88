//! White space: trimming, lines, words and fields.

use super::chars::{chars, string_of};
use vstd::prelude::*;

verus! {

/// The code points with the Unicode property `White_Space`.
pub open spec fn is_white(c: char) -> bool {
    let n = c as u32;
    ||| 0x09 <= n <= 0x0d
    ||| n == 0x20
    ||| n == 0x85
    ||| n == 0xa0
    ||| n == 0x1680
    ||| 0x2000 <= n <= 0x200a
    ||| n == 0x2028
    ||| n == 0x2029
    ||| n == 0x202f
    ||| n == 0x205f
    ||| n == 0x3000
}

/// What is left of `s` without its leading white space.
pub open spec fn trimmed_start(s: Seq<char>) -> Seq<char>
    decreases s.len(),
{
    if s.len() > 0 && is_white(s[0]) {
        trimmed_start(s.drop_first())
    } else {
        s
    }
}

/// What is left of `s` without its trailing white space.
pub open spec fn trimmed_end(s: Seq<char>) -> Seq<char>
    decreases s.len(),
{
    if s.len() > 0 && is_white(s.last()) {
        trimmed_end(s.drop_last())
    } else {
        s
    }
}

/// What is left of `s` without white space at either end.
pub open spec fn trimmed(s: Seq<char>) -> Seq<char> {
    trimmed_end(trimmed_start(s))
}

/// The place of the first `c` in `s`, or the length of `s` where there is none.
pub open spec fn first_index(s: Seq<char>, c: char) -> nat
    decreases s.len(),
{
    if s.len() == 0 || s[0] == c {
        0
    } else {
        1 + first_index(s.drop_first(), c)
    }
}

/// The length of the leading run of `s` that holds no white space.
pub open spec fn word_length(s: Seq<char>) -> nat
    decreases s.len(),
{
    if s.len() == 0 || is_white(s[0]) {
        0
    } else {
        1 + word_length(s.drop_first())
    }
}

pub proof fn lemma_word_length_bound(s: Seq<char>)
    ensures
        word_length(s) <= s.len(),
    decreases s.len(),
{
    if s.len() > 0 && !is_white(s[0]) {
        lemma_word_length_bound(s.drop_first());
    }
}

pub proof fn lemma_trimmed_start_length(s: Seq<char>)
    ensures
        trimmed_start(s).len() <= s.len(),
    decreases s.len(),
{
    if s.len() > 0 && is_white(s[0]) {
        lemma_trimmed_start_length(s.drop_first());
    }
}

/// White space behind a text does not count once the text is trimmed.
pub proof fn lemma_trimmed_push(s: Seq<char>, c: char)
    requires
        is_white(c),
    ensures
        trimmed(s.push(c)) == trimmed(s),
    decreases s.len(),
{
    let longer = s.push(c);
    if s.len() == 0 {
        assert(longer.drop_first() =~= s);
    } else if is_white(s[0]) {
        assert(longer.drop_first() =~= s.drop_first().push(c));
        lemma_trimmed_push(s.drop_first(), c);
    } else {
        assert(longer.drop_last() =~= s);
    }
}

/// `s` without one carriage return at its end.
pub open spec fn without_return(s: Seq<char>) -> Seq<char> {
    if s.len() > 0 && s.last() == '\r' {
        s.drop_last()
    } else {
        s
    }
}

/// The lines of `s`. A line ends at a line feed, or at a carriage return and a
/// line feed; the end of the text also ends a line that is not empty.
pub open spec fn lines_of(s: Seq<char>) -> Seq<Seq<char>>
    decreases s.len(),
{
    if s.len() == 0 {
        Seq::empty()
    } else {
        let n = first_index(s, '\n') as int;
        if n >= s.len() {
            seq![s]
        } else {
            seq![without_return(s.take(n))] + lines_of(s.skip(n + 1))
        }
    }
}

/// The fields of `s`, which `c` separates. There is always one field more than
/// there are separators.
pub open spec fn fields_of(s: Seq<char>, c: char) -> Seq<Seq<char>>
    decreases s.len(),
{
    let n = first_index(s, c) as int;
    if n >= s.len() {
        seq![s]
    } else {
        seq![s.take(n)] + fields_of(s.skip(n + 1), c)
    }
}

/// The words of `s`: its longest runs without white space.
pub open spec fn words_of(s: Seq<char>) -> Seq<Seq<char>>
    decreases s.len(),
    via words_decrease
{
    let t = trimmed_start(s);
    if t.len() == 0 {
        Seq::empty()
    } else {
        let n = word_length(t) as int;
        seq![t.take(n)] + words_of(t.skip(n))
    }
}

#[via_fn]
proof fn words_decrease(s: Seq<char>) {
    lemma_trimmed_start_length(s);
    let t = trimmed_start(s);
    if t.len() > 0 {
        lemma_trimmed_start_head(s);
        lemma_word_length_bound(t);
    }
}

proof fn lemma_trimmed_start_head(s: Seq<char>)
    ensures
        trimmed_start(s).len() > 0 ==> !is_white(trimmed_start(s)[0]),
    decreases s.len(),
{
    if s.len() > 0 && is_white(s[0]) {
        lemma_trimmed_start_head(s.drop_first());
    }
}

/// The character sequences of a vector of strings.
pub open spec fn views(v: Seq<String>) -> Seq<Seq<char>> {
    v.map_values(|s: String| s@)
}

/// Whether `c` is white space.
pub fn white(c: char) -> (r: bool)
    ensures
        r == is_white(c),
{
    let n = c as u32;
    (0x09 <= n && n <= 0x0d) || n == 0x20 || n == 0x85 || n == 0xa0 || n == 0x1680 || (0x2000 <= n
        && n <= 0x200a) || n == 0x2028 || n == 0x2029 || n == 0x202f || n == 0x205f || n == 0x3000
}

/// The first place at or after `from`, and not after `to`, that holds no white space.
pub fn skip_white(v: &Vec<char>, from: usize, to: usize) -> (r: usize)
    requires
        from <= to <= v@.len(),
    ensures
        from <= r <= to,
        v@.subrange(r as int, to as int) == trimmed_start(v@.subrange(from as int, to as int)),
{
    let mut i: usize = from;
    while i < to && white(v[i])
        invariant
            from <= i <= to <= v@.len(),
            trimmed_start(v@.subrange(i as int, to as int)) == trimmed_start(
                v@.subrange(from as int, to as int),
            ),
        decreases to - i,
    {
        assert(v@.subrange(i as int, to as int).drop_first() =~= v@.subrange(i + 1, to as int));
        i = i + 1;
    }
    i
}

/// The end of what is left of `from..to` without trailing white space.
pub fn cut_white(v: &Vec<char>, from: usize, to: usize) -> (r: usize)
    requires
        from <= to <= v@.len(),
    ensures
        from <= r <= to,
        v@.subrange(from as int, r as int) == trimmed_end(v@.subrange(from as int, to as int)),
{
    let mut i: usize = to;
    while i > from && white(v[i - 1])
        invariant
            from <= i <= to <= v@.len(),
            trimmed_end(v@.subrange(from as int, i as int)) == trimmed_end(
                v@.subrange(from as int, to as int),
            ),
        decreases i - from,
    {
        assert(v@.subrange(from as int, i as int).drop_last() =~= v@.subrange(from as int, i - 1));
        i = i - 1;
    }
    i
}

/// `s` without white space at either end.
pub fn trim(s: &str) -> (r: String)
    ensures
        r@ == trimmed(s@),
{
    let v = chars(s);
    assert(v@.subrange(0, v@.len() as int) =~= v@);
    let from = skip_white(&v, 0, v.len());
    let to = cut_white(&v, from, v.len());
    string_of(&v, from, to)
}

/// `s` without leading white space.
pub fn trim_start(s: &str) -> (r: String)
    ensures
        r@ == trimmed_start(s@),
{
    let v = chars(s);
    assert(v@.subrange(0, v@.len() as int) =~= v@);
    let from = skip_white(&v, 0, v.len());
    string_of(&v, from, v.len())
}

/// `s` without trailing white space.
pub fn trim_end(s: &str) -> (r: String)
    ensures
        r@ == trimmed_end(s@),
{
    let v = chars(s);
    assert(v@.subrange(0, v@.len() as int) =~= v@);
    let to = cut_white(&v, 0, v.len());
    string_of(&v, 0, to)
}

/// The first place of `c` in `v` at or after `from`, or the length of `v`.
pub fn find_char(v: &Vec<char>, from: usize, c: char) -> (r: usize)
    requires
        from <= v@.len(),
    ensures
        from <= r <= v@.len(),
        r - from == first_index(v@.skip(from as int), c),
{
    let mut i: usize = from;
    while i < v.len() && v[i] != c
        invariant
            from <= i <= v@.len(),
            i - from + first_index(v@.skip(i as int), c) == first_index(v@.skip(from as int), c),
        decreases v.len() - i,
    {
        assert(v@.skip(i as int).drop_first() =~= v@.skip(i + 1));
        i = i + 1;
    }
    i
}

/// The lines of `s`.
pub fn lines(s: &str) -> (r: Vec<String>)
    ensures
        views(r@) == lines_of(s@),
{
    let v = chars(s);
    let mut r: Vec<String> = Vec::new();
    let mut i: usize = 0;
    assert(v@.skip(0) =~= v@);
    assert(views(r@) + lines_of(v@) =~= lines_of(v@));
    while i < v.len()
        invariant
            i <= v@.len(),
            v@ == s@,
            views(r@) + lines_of(v@.skip(i as int)) == lines_of(v@),
        decreases v.len() - i,
    {
        let ghost rest = v@.skip(i as int);
        let ghost before = r@;
        let end = find_char(&v, i, '\n');
        if end >= v.len() {
            let line = string_of(&v, i, v.len());
            assert(line@ =~= rest);
            r.push(line);
            i = v.len();
            assert(views(r@) =~= views(before) + seq![line@]);
            assert(lines_of(v@.skip(i as int)) =~= Seq::<Seq<char>>::empty());
            assert(views(r@) + lines_of(v@.skip(i as int)) =~= views(before) + lines_of(rest));
        } else {
            let mut stop: usize = end;
            if stop > i && v[stop - 1] == '\r' {
                stop = stop - 1;
            }
            let line = string_of(&v, i, stop);
            assert(rest.take(end - i) =~= v@.subrange(i as int, end as int));
            assert(line@ =~= without_return(rest.take(end - i)));
            assert(rest.skip(end - i + 1) =~= v@.skip(end + 1));
            r.push(line);
            i = end + 1;
            assert(views(r@) =~= views(before) + seq![line@]);
            assert(views(r@) + lines_of(v@.skip(i as int)) =~= views(before) + lines_of(rest));
        }
    }
    assert(v@.skip(i as int).len() == 0);
    assert(views(r@) + lines_of(v@.skip(i as int)) =~= views(r@));
    r
}

/// The fields of `s` that `c` separates.
pub fn split(s: &str, c: char) -> (r: Vec<String>)
    ensures
        views(r@) == fields_of(s@, c),
        r@.len() > 0,
{
    let v = chars(s);
    let mut r: Vec<String> = Vec::new();
    let mut i: usize = 0;
    assert(v@.skip(0) =~= v@);
    let mut end = find_char(&v, i, c);
    assert(views(r@) + fields_of(v@, c) =~= fields_of(v@, c));
    while end < v.len()
        invariant
            i <= end <= v@.len(),
            v@ == s@,
            end - i == first_index(v@.skip(i as int), c),
            views(r@) + fields_of(v@.skip(i as int), c) == fields_of(v@, c),
        decreases v.len() - i,
    {
        let ghost rest = v@.skip(i as int);
        let ghost before = r@;
        let field = string_of(&v, i, end);
        assert(field@ =~= rest.take(end - i));
        assert(rest.skip(end - i + 1) =~= v@.skip(end + 1));
        r.push(field);
        i = end + 1;
        end = find_char(&v, i, c);
        assert(views(r@) =~= views(before) + seq![field@]);
        assert(views(r@) + fields_of(v@.skip(i as int), c) =~= views(before) + fields_of(rest, c));
    }
    let ghost rest = v@.skip(i as int);
    let ghost before = r@;
    let field = string_of(&v, i, v.len());
    assert(field@ =~= rest);
    r.push(field);
    assert(views(r@) =~= views(before) + seq![field@]);
    assert(views(r@) =~= views(before) + fields_of(rest, c));
    r
}

/// The words of `s`.
pub fn split_whitespace(s: &str) -> (r: Vec<String>)
    ensures
        views(r@) == words_of(s@),
{
    let v = chars(s);
    let mut r: Vec<String> = Vec::new();
    assert(v@.subrange(0, v@.len() as int) =~= v@);
    let mut i = skip_white(&v, 0, v.len());
    proof {
        lemma_trimmed_twice(v@);
        assert(v@.subrange(i as int, v@.len() as int) =~= v@.skip(i as int));
    }
    assert(views(r@) + words_of(v@) =~= words_of(v@));
    while i < v.len()
        invariant
            i <= v@.len(),
            v@ == s@,
            v@.skip(i as int) == trimmed_start(v@.skip(i as int)),
            views(r@) + words_of(v@.skip(i as int)) == words_of(v@),
        decreases v.len() - i,
    {
        let ghost rest = v@.skip(i as int);
        let ghost before = r@;
        let mut end: usize = i;
        while end < v.len() && !white(v[end])
            invariant
                i <= end <= v@.len(),
                rest == v@.skip(i as int),
                end - i + word_length(v@.skip(end as int)) == word_length(rest),
            decreases v.len() - end,
        {
            assert(v@.skip(end as int).drop_first() =~= v@.skip(end + 1));
            end = end + 1;
        }
        let word = string_of(&v, i, end);
        assert(word@ =~= rest.take(end - i));
        assert(rest.skip(end - i) =~= v@.skip(end as int));
        proof {
            lemma_trimmed_start_head(rest);
            assert(word_length(rest) > 0);
        }
        r.push(word);
        assert(views(r@) =~= views(before) + seq![word@]);
        let next = skip_white(&v, end, v.len());
        proof {
            assert(v@.subrange(end as int, v@.len() as int) =~= v@.skip(end as int));
            assert(v@.subrange(next as int, v@.len() as int) =~= v@.skip(next as int));
            lemma_trimmed_twice(v@.skip(end as int));
            assert(words_of(v@.skip(next as int)) == words_of(v@.skip(end as int)));
            assert(views(r@) + words_of(v@.skip(next as int)) =~= views(before) + words_of(rest));
        }
        i = next;
    }
    assert(v@.skip(i as int).len() == 0);
    assert(views(r@) + words_of(v@.skip(i as int)) =~= views(r@));
    r
}

/// Trimming twice is trimming once, and does not change the words.
pub proof fn lemma_trimmed_twice(s: Seq<char>)
    ensures
        trimmed_start(trimmed_start(s)) == trimmed_start(s),
        words_of(trimmed_start(s)) == words_of(s),
    decreases s.len(),
{
    if s.len() > 0 && is_white(s[0]) {
        lemma_trimmed_twice(s.drop_first());
    }
}

/// White space is what Unicode calls so: tabs, line ends, the space, and the spaces of scripts.
pub proof fn white_space_is_that_of_unicode(c: char)
    ensures
        is_white(c) <==> seq![
            '\t', '\n', '\u{b}', '\u{c}', '\r', ' ', '\u{85}', '\u{a0}', '\u{1680}', '\u{2000}',
            '\u{2001}', '\u{2002}', '\u{2003}', '\u{2004}', '\u{2005}', '\u{2006}', '\u{2007}',
            '\u{2008}', '\u{2009}', '\u{200a}', '\u{2028}', '\u{2029}', '\u{202f}', '\u{205f}',
            '\u{3000}',
        ].contains(c),
{
    let all = seq![
        '\t', '\n', '\u{b}', '\u{c}', '\r', ' ', '\u{85}', '\u{a0}', '\u{1680}', '\u{2000}',
        '\u{2001}', '\u{2002}', '\u{2003}', '\u{2004}', '\u{2005}', '\u{2006}', '\u{2007}',
        '\u{2008}', '\u{2009}', '\u{200a}', '\u{2028}', '\u{2029}', '\u{202f}', '\u{205f}',
        '\u{3000}',
    ];
    if is_white(c) {
        assert(all[0] == '\t' && all[1] == '\n' && all[2] == '\u{b}' && all[3] == '\u{c}' && all[4]
            == '\r' && all[5] == ' ' && all[6] == '\u{85}' && all[7] == '\u{a0}' && all[8]
            == '\u{1680}' && all[9] == '\u{2000}' && all[10] == '\u{2001}' && all[11] == '\u{2002}'
            && all[12] == '\u{2003}' && all[13] == '\u{2004}' && all[14] == '\u{2005}' && all[15]
            == '\u{2006}' && all[16] == '\u{2007}' && all[17] == '\u{2008}' && all[18]
            == '\u{2009}' && all[19] == '\u{200a}' && all[20] == '\u{2028}' && all[21]
            == '\u{2029}' && all[22] == '\u{202f}' && all[23] == '\u{205f}' && all[24]
            == '\u{3000}');
        assert(exists|i: int| 0 <= i < all.len() && all[i] == c);
    }
}

/// What is cut off at the beginning is white space, and all of it.
pub proof fn leading_space_is_cut(s: Seq<char>)
    ensures
        ({
            let t = trimmed_start(s);
            let n = s.len() - t.len();
            &&& 0 <= n <= s.len()
            &&& t == s.skip(n)
            &&& forall|i: int| 0 <= i < n ==> is_white(#[trigger] s[i])
            &&& t.len() > 0 ==> !is_white(t[0])
        }),
    decreases s.len(),
{
    if s.len() > 0 && is_white(s[0]) {
        let shorter = s.drop_first();
        leading_space_is_cut(shorter);
        let t = trimmed_start(s);
        let n = s.len() - t.len();
        assert(t =~= s.skip(n));
        assert forall|i: int| 0 <= i < n implies is_white(#[trigger] s[i]) by {
            if i > 0 {
                assert(s[i] == shorter[i - 1]);
            }
        }
    } else {
        assert(s.skip(0) =~= s);
    }
}

/// What is cut off at the end is white space, and all of it.
pub proof fn trailing_space_is_cut(s: Seq<char>)
    ensures
        ({
            let t = trimmed_end(s);
            &&& t.len() <= s.len()
            &&& t == s.take(t.len() as int)
            &&& forall|i: int| t.len() <= i < s.len() ==> is_white(#[trigger] s[i])
            &&& t.len() > 0 ==> !is_white(t.last())
        }),
    decreases s.len(),
{
    if s.len() > 0 && is_white(s.last()) {
        let shorter = s.drop_last();
        trailing_space_is_cut(shorter);
        let t = trimmed_end(s);
        assert(t =~= s.take(t.len() as int));
        assert forall|i: int| t.len() <= i < s.len() implies is_white(#[trigger] s[i]) by {
            if i < s.len() - 1 {
                assert(s[i] == shorter[i]);
            }
        }
    } else {
        assert(s.take(s.len() as int) =~= s);
    }
}

/// A text between white space is what is left of it.
pub proof fn text_is_left(before: Seq<char>, t: Seq<char>, after: Seq<char>)
    requires
        forall|i: int| 0 <= i < before.len() ==> is_white(#[trigger] before[i]),
        forall|i: int| 0 <= i < after.len() ==> is_white(#[trigger] after[i]),
        t.len() > 0 ==> !is_white(t[0]) && !is_white(t.last()),
    ensures
        trimmed(before + t + after) == t,
{
    let s = before + t + after;
    leading_space_is_cut(s);
    let a = trimmed_start(s);
    trailing_space_is_cut(a);
    let n = s.len() - a.len();
    if t.len() > 0 {
        assert(s[before.len() as int] == t[0]);
        if n < before.len() {
            assert(a[0] == before[n]);
        }
        assert(n == before.len());
        let b = trimmed_end(a);
        assert(a[t.len() - 1] == t.last());
        if b.len() > t.len() {
            assert(b.last() == after[b.len() - 1 - t.len()]);
        }
        if b.len() < t.len() {
            assert(is_white(a[t.len() - 1]));
        }
        assert(b =~= t);
    } else {
        if a.len() > 0 {
            assert(a[0] == s[n]);
            if n < before.len() {
                assert(s[n] == before[n]);
            } else {
                assert(s[n] == after[n - before.len()]);
            }
        }
        assert(trimmed(s) =~= t);
    }
}

/// The place that is found is the first one of the character, or the end where there is none.
pub proof fn first_place_is_found(s: Seq<char>, c: char)
    ensures
        first_index(s, c) <= s.len(),
        first_index(s, c) < s.len() ==> s[first_index(s, c) as int] == c,
        forall|i: int| 0 <= i < first_index(s, c) ==> #[trigger] s[i] != c,
    decreases s.len(),
{
    if s.len() > 0 && s[0] != c {
        let shorter = s.drop_first();
        first_place_is_found(shorter, c);
        assert forall|i: int| 0 <= i < first_index(s, c) implies #[trigger] s[i] != c by {
            if i > 0 {
                assert(s[i] == shorter[i - 1]);
            }
        }
    }
}

/// A text without line feeds is a line of its own, unless it is empty. One that a line feed follows
/// is a line in front of the others; a carriage return before the line feed belongs to its end.
pub proof fn line_stands_before_the_others(line: Seq<char>, rest: Seq<char>)
    requires
        !line.contains('\n'),
    ensures
        lines_of(Seq::empty()) == Seq::<Seq<char>>::empty(),
        line.len() > 0 ==> lines_of(line) == seq![line],
        line.len() == 0 || line.last() != '\r' ==> lines_of(line + seq!['\n'] + rest) == seq![line]
            + lines_of(rest),
        lines_of(line + seq!['\r', '\n'] + rest) == seq![line] + lines_of(rest),
{
    first_place_is_found(line, '\n');
    if line.len() > 0 {
        assert(first_index(line, '\n') == line.len());
    }
    let a = line + seq!['\n'] + rest;
    first_place_is_found(a, '\n');
    assert(a[line.len() as int] == '\n');
    let n = first_index(a, '\n') as int;
    if n < line.len() {
        assert(a[n] == line[n]);
    }
    assert(n == line.len());
    assert(a.take(n) =~= line);
    assert(a.skip(n + 1) =~= rest);
    let b = line + seq!['\r', '\n'] + rest;
    first_place_is_found(b, '\n');
    assert(b[line.len() as int + 1] == '\n');
    assert(b[line.len() as int] == '\r');
    let m = first_index(b, '\n') as int;
    if m < line.len() {
        assert(b[m] == line[m]);
    }
    assert(m == line.len() + 1);
    assert(b.take(m) =~= line.push('\r'));
    assert(without_return(b.take(m)) =~= line);
    assert(b.skip(m + 1) =~= rest);
}

/// A text without separators is a field of its own. One that a separator follows is a field in front
/// of the others.
pub proof fn field_stands_before_the_others(field: Seq<char>, c: char, rest: Seq<char>)
    requires
        !field.contains(c),
    ensures
        fields_of(field, c) == seq![field],
        fields_of(field + seq![c] + rest, c) == seq![field] + fields_of(rest, c),
{
    first_place_is_found(field, c);
    let a = field + seq![c] + rest;
    first_place_is_found(a, c);
    assert(a[field.len() as int] == c);
    let n = first_index(a, c) as int;
    if n < field.len() {
        assert(a[n] == field[n]);
    }
    assert(n == field.len());
    assert(a.take(n) =~= field);
    assert(a.skip(n + 1) =~= rest);
}

/// A word ends where white space begins.
pub proof fn word_ends_at_white_space(s: Seq<char>)
    ensures
        word_length(s) <= s.len(),
        word_length(s) < s.len() ==> is_white(s[word_length(s) as int]),
        forall|i: int| 0 <= i < word_length(s) ==> !is_white(#[trigger] s[i]),
    decreases s.len(),
{
    if s.len() > 0 && !is_white(s[0]) {
        let shorter = s.drop_first();
        word_ends_at_white_space(shorter);
        assert forall|i: int| 0 <= i < word_length(s) implies !is_white(#[trigger] s[i]) by {
            if i > 0 {
                assert(s[i] == shorter[i - 1]);
            }
        }
    }
}

/// White space in front of words does not count, and a run without it that ends at white space, or
/// with the text, is a word in front of the others.
pub proof fn word_stands_before_the_others(word: Seq<char>, rest: Seq<char>, c: char)
    requires
        word.len() > 0,
        forall|i: int| 0 <= i < word.len() ==> !is_white(#[trigger] word[i]),
        rest.len() == 0 || is_white(rest[0]),
        is_white(c),
    ensures
        words_of(Seq::empty()) == Seq::<Seq<char>>::empty(),
        words_of(seq![c] + rest) == words_of(rest),
        words_of(word + rest) == seq![word] + words_of(rest),
{
    let empty = Seq::<char>::empty();
    assert(words_of(empty) =~= Seq::<Seq<char>>::empty());
    let a = seq![c] + rest;
    assert(a.drop_first() =~= rest);
    assert(trimmed_start(a) == trimmed_start(rest));
    let b = word + rest;
    assert(b[0] == word[0]);
    assert(trimmed_start(b) == b);
    word_ends_at_white_space(b);
    let n = word_length(b) as int;
    if n < word.len() {
        assert(b[n] == word[n]);
    }
    if n > word.len() {
        assert(b[word.len() as int] == rest[0]);
    }
    assert(n == word.len());
    assert(b.take(n) =~= word);
    assert(b.skip(n) =~= rest);
}

/// Strings are told one by one, in their order.
pub proof fn strings_are_told_in_order(v: Seq<String>, i: int)
    requires
        0 <= i < v.len(),
    ensures
        views(v).len() == v.len(),
        views(v)[i] == v[i]@,
{
}

} // verus!
