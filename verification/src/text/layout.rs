//! Laying text out: padding, joining, and lengths in bytes.

use super::chars::chars;
use super::space::views;
use vstd::prelude::*;
use vstd::utf8::{char_is_scalar, encode_scalar, encode_utf8};

verus! {

/// How many bytes a character takes in UTF-8.
pub open spec fn char_bytes(c: char) -> nat {
    if (c as u32) < 0x80 {
        1
    } else if (c as u32) < 0x800 {
        2
    } else if (c as u32) < 0x10000 {
        3
    } else {
        4
    }
}

/// How many bytes a text takes in UTF-8.
pub open spec fn byte_length(s: Seq<char>) -> nat
    decreases s.len(),
{
    if s.len() == 0 {
        0
    } else {
        byte_length(s.drop_last()) + char_bytes(s.last())
    }
}

/// `n` spaces.
pub open spec fn spaces(n: nat) -> Seq<char> {
    Seq::new(n, |i: int| ' ')
}

/// `s`, filled up with spaces to `width` characters.
pub open spec fn padded(s: Seq<char>, width: nat) -> Seq<char> {
    if s.len() < width {
        s + spaces((width - s.len()) as nat)
    } else {
        s
    }
}

/// The parts, with `separator` between each two.
pub open spec fn joined_by(parts: Seq<Seq<char>>, separator: Seq<char>) -> Seq<char>
    decreases parts.len(),
{
    if parts.len() == 0 {
        Seq::empty()
    } else if parts.len() == 1 {
        parts[0]
    } else {
        joined_by(parts.drop_last(), separator) + separator + parts.last()
    }
}

/// A text of so many characters takes at most four times as many bytes.
pub proof fn lemma_byte_length(s: Seq<char>)
    ensures
        s.len() <= byte_length(s) <= 4 * s.len(),
    decreases s.len(),
{
    if s.len() > 0 {
        lemma_byte_length(s.drop_last());
    }
}

/// How many bytes `s` takes in UTF-8.
pub fn measure(s: &str) -> (r: u128)
    ensures
        r == byte_length(s@),
{
    let v = chars(s);
    let mut n: u128 = 0;
    for i in 0..v.len()
        invariant
            n == byte_length(v@.take(i as int)),
            n <= 4 * i,
    {
        assert(v@.take(i + 1).drop_last() =~= v@.take(i as int));
        assert(v@.take(i + 1).last() == v@[i as int]);
        let code = v[i] as u32;
        let bytes: u128 = if code < 0x80 {
            1
        } else if code < 0x800 {
            2
        } else if code < 0x10000 {
            3
        } else {
            4
        };
        n = n + bytes;
    }
    assert(v@.take(v@.len() as int) =~= v@);
    n
}

/// `s`, filled up with spaces to `width` characters.
pub fn pad(s: &str, width: u128) -> (r: String)
    ensures
        r@ == padded(s@, width as nat),
{
    let n = chars(s).len();
    let mut r = s.to_string();
    let mut i: u128 = n as u128;
    while i < width
        invariant
            s@.len() <= i,
            s@.len() <= width ==> i <= width,
            s@.len() >= width ==> i == s@.len(),
            r@ =~= s@ + spaces((i - s@.len()) as nat),
        decreases width - i,
    {
        r.push(' ');
        i = i + 1;
    }
    assert(s@ + spaces(0) =~= s@);
    r
}

/// The parts, with `separator` between each two.
pub fn join(parts: &Vec<String>, separator: &str) -> (r: String)
    ensures
        r@ == joined_by(views(parts@), separator@),
{
    let ghost all = views(parts@);
    let mut r = String::new();
    for i in 0..parts.len()
        invariant
            all == views(parts@),
            r@ == joined_by(all.take(i as int), separator@),
    {
        assert(all.take(i + 1).drop_last() =~= all.take(i as int));
        assert(all.take(i + 1).last() == parts@[i as int]@);
        if i > 0 {
            r.append(separator);
        }
        let ghost before = r@;
        r.append(parts[i].as_str());
        if i == 0 {
            assert(r@ =~= parts@[0]@);
        }
    }
    assert(all.take(all.len() as int) =~= all);
    r
}

/// The bytes of two texts are counted together.
proof fn lemma_byte_length_push(c: char, s: Seq<char>)
    ensures
        byte_length(seq![c] + s) == char_bytes(c) + byte_length(s),
    decreases s.len(),
{
    let t = seq![c] + s;
    if s.len() == 0 {
        assert(t.drop_last() =~= Seq::<char>::empty());
        assert(t.last() == c);
        assert(byte_length(t.drop_last()) == 0);
    } else {
        assert(t.last() == s.last());
        lemma_byte_length_push(c, s.drop_last());
        assert(t.drop_last() =~= seq![c] + s.drop_last());
    }
}

/// The length in bytes is that of the text in UTF-8.
pub proof fn bytes_are_those_of_utf8(s: Seq<char>)
    ensures
        byte_length(s) == encode_utf8(s).len(),
    decreases s.len(),
{
    if s.len() > 0 {
        let rest = s.drop_first();
        bytes_are_those_of_utf8(rest);
        lemma_byte_length_push(s[0], rest);
        assert(s =~= seq![s[0]] + rest);
        char_is_scalar(s[0]);
        assert(encode_scalar(s[0] as u32).len() == char_bytes(s[0]));
    }
}

/// A text that is filled up begins with the text, is as wide as asked for or as the text where that is
/// wider, and holds nothing but spaces behind it.
pub proof fn padding_keeps_the_text(s: Seq<char>, width: nat)
    ensures
        ({
            let t = padded(s, width);
            &&& s.len() <= width ==> t.len() == width
            &&& s.len() >= width ==> t == s
            &&& t.take(s.len() as int) == s
            &&& forall|i: int| s.len() <= i < t.len() ==> #[trigger] t[i] == ' '
        }),
{
    assert(padded(s, width).take(s.len() as int) =~= s);
    if s.len() == width {
        assert(padded(s, width) =~= s);
    }
}

/// Parts stand behind each other as they are, and the separator stands between each two of them and
/// nowhere else.
pub proof fn separator_stands_between(parts: Seq<Seq<char>>, separator: Seq<char>, last: Seq<char>)
    ensures
        joined_by(Seq::empty(), separator) == Seq::<char>::empty(),
        joined_by(seq![last], separator) == last,
        parts.len() > 0 ==> joined_by(parts.push(last), separator) == joined_by(parts, separator)
            + separator + last,
{
    assert(parts.push(last).drop_last() =~= parts);
}

} // verus!
