//! Asking the portal for a stream, and remembering what the user has selected.

use crate::text::chars::{chars, same};
use crate::text::decimal::{append_number, digits_of};
use crate::text::hex::{append_hex, hex_char, hex_of, lemma_hex_char_injective, lemma_hex_length};
use crate::text::space::{trim, trimmed};
use vstd::prelude::*;
use vstd::string::StringSliceAdditionalSpecFns;
use vstd::utf8::{encode_utf8, encode_utf8_decode_utf8};

verus! {

/// The version of the portal from which on it remembers selections.
pub const PERSIST_VERSION: u32 = 4;

/// Whether the portal remembers selections.
pub fn remembers(version: u32) -> (r: bool)
    ensures
        r == (version >= PERSIST_VERSION),
{
    version >= PERSIST_VERSION
}

/// A token that no other request has.
pub open spec fn token_of(prefix: Seq<char>, number: u64) -> Seq<char> {
    "wluma_"@ + prefix + "_"@ + digits_of(number as nat)
}

/// A token that no other request has, as long as the number is not used twice.
pub fn token(prefix: &str, number: u64) -> (r: String)
    ensures
        r@ == token_of(prefix@, number),
        r@ == "wluma_"@ + prefix@ + "_"@ + digits_of(number as nat),
{
    let mut r = "wluma_".to_string();
    r.append(prefix);
    r.append("_");
    append_number(&mut r, number);
    r
}

/// A text with underscores in place of dots.
pub open spec fn without_dots(s: Seq<char>) -> Seq<char> {
    s.map_values(
        |c: char|
            if c == '.' {
                '_'
            } else {
                c
            },
    )
}

/// The path of a request, by the name of who asks and by the token. The first character of the name is
/// a colon and does not count.
pub open spec fn request_path_of(unique_name: Seq<char>, request_token: Seq<char>) -> Seq<char> {
    "/org/freedesktop/portal/desktop/request/"@ + without_dots(unique_name.skip(1)) + "/"@
        + request_token
}

/// The path of a request.
pub fn request_path(unique_name: &str, request_token: &str) -> (r: String)
    requires
        unique_name@.len() > 0,
    ensures
        r@ == request_path_of(unique_name@, request_token@),
        r@.len() == "/org/freedesktop/portal/desktop/request/"@.len() + unique_name@.len()
            + request_token@.len(),
        forall|i: int|
            0 <= i < "/org/freedesktop/portal/desktop/request/"@.len() ==> #[trigger] r@[i]
                == "/org/freedesktop/portal/desktop/request/"@[i],
        forall|i: int|
            1 <= i < unique_name@.len() ==> #[trigger] r@[i - 1
                + "/org/freedesktop/portal/desktop/request/"@.len()] == if unique_name@[i] == '.' {
                '_'
            } else {
                unique_name@[i]
            },
        r@[unique_name@.len() - 1 + "/org/freedesktop/portal/desktop/request/"@.len()] == '/',
        r@.skip(r@.len() - request_token@.len()) == request_token@,
{
    let v = chars(unique_name);
    let ghost rest = unique_name@.skip(1);
    let mut r = "/org/freedesktop/portal/desktop/request/".to_string();
    let ghost start = r@;
    assert(without_dots(rest.take(0)) =~= Seq::empty());
    assert(start + Seq::<char>::empty() =~= start);
    let mut i: usize = 1;
    while i < v.len()
        invariant
            1 <= i <= v@.len(),
            v@ == unique_name@,
            rest == unique_name@.skip(1),
            r@ == start + without_dots(rest.take(i - 1)),
        decreases v.len() - i,
    {
        let c: char = if v[i] == '.' {
            '_'
        } else {
            v[i]
        };
        assert(rest[i - 1] == v@[i as int]);
        assert(without_dots(rest.take(i as int)) =~= without_dots(rest.take(i - 1)).push(c));
        r.push(c);
        assert(r@ =~= start + without_dots(rest.take(i as int)));
        i = i + 1;
    }
    assert(rest.take(v@.len() - 1) =~= rest);
    r.append("/");
    r.append(request_token);
    proof {
        reveal_strlit("/");
        assert(r@.skip(r@.len() - request_token@.len()) =~= request_token@);
        assert forall|i: int| 1 <= i < unique_name@.len() implies #[trigger] r@[i - 1 + start.len()]
            == if unique_name@[i] == '.' {
            '_'
        } else {
            unique_name@[i]
        } by {
            assert(r@[i - 1 + start.len()] == without_dots(rest)[i - 1]);
        }
    }
    r
}

/// Whether the portal calls a request what it has to be called.
pub fn is_expected(returned: &str, expected: &str) -> (r: bool)
    ensures
        r == (returned@ == expected@),
{
    same(returned, expected)
}

/// How a request has ended.
#[derive(Clone, Copy, Debug, PartialEq, Eq, Structural)]
pub enum Ended {
    Granted,
    Cancelled,
    Failed,
}

/// How a request has ended, by the number that the portal gives.
pub fn ended(status: u32) -> (r: Ended)
    ensures
        r is Granted <==> status == 0,
        r is Cancelled <==> status == 1,
{
    if status == 0 {
        Ended::Granted
    } else if status == 1 {
        Ended::Cancelled
    } else {
        Ended::Failed
    }
}

/// The node of a stream, where the number that the portal gives is one.
pub fn node_of(number: u64) -> (r: Option<u32>)
    ensures
        r is Some <==> number <= u32::MAX,
        r matches Some(node) ==> node == number,
{
    if number <= u32::MAX as u64 {
        Some(number as u32)
    } else {
        None
    }
}

/// What is found where a selection is remembered.
#[derive(Debug)]
pub enum Remembered {
    Text(String),
    Missing,
    Failed,
}

/// The selection to ask for, where one is remembered. What is blank does not count.
pub fn restore_token(found: Remembered) -> (r: Result<Option<String>, ()>)
    ensures
        match found {
            Remembered::Text(text) => if trimmed(text@).len() > 0 {
                r matches Ok(Some(token)) && token@ == text@
            } else {
                r == Ok::<Option<String>, ()>(None)
            },
            Remembered::Missing => r == Ok::<Option<String>, ()>(None),
            Remembered::Failed => r is Err,
        },
{
    match found {
        Remembered::Text(text) => {
            if chars(trim(text.as_str()).as_str()).len() > 0 {
                Ok(Some(text))
            } else {
                Ok(None)
            }
        },
        Remembered::Missing => Ok(None),
        Remembered::Failed => Err(()),
    }
}

/// Bytes in hexadecimal.
pub open spec fn hex_bytes(bytes: Seq<u8>) -> Seq<char>
    decreases bytes.len(),
{
    if bytes.len() == 0 {
        Seq::empty()
    } else {
        hex_bytes(bytes.drop_last()) + hex_of(bytes.last() as nat, 2)
    }
}

/// The name of the file that remembers what was selected for an output.
pub open spec fn token_file_of(output_name: Seq<char>) -> Seq<char> {
    "xdg-desktop-portal-screencast-"@ + hex_bytes(encode_utf8(output_name)) + ".token"@
}

/// The name of the file that remembers what was selected for an output.
pub fn restore_token_name(output_name: &str) -> (r: String)
    ensures
        r@ == token_file_of(output_name@),
{
    let bytes = output_name.as_bytes();
    let mut r = "xdg-desktop-portal-screencast-".to_string();
    let ghost start = r@;
    let ghost all = bytes@;
    assert(all.take(0) =~= Seq::empty());
    assert(start + Seq::<char>::empty() =~= start);
    for i in 0..bytes.len()
        invariant
            all == bytes@,
            r@ == start + hex_bytes(all.take(i as int)),
    {
        let ghost before = r@;
        append_hex(&mut r, bytes[i] as u64, 2);
        assert(all.take(i + 1).drop_last() =~= all.take(i as int));
        assert(all.take(i + 1).last() == all[i as int]);
        assert(r@ =~= start + hex_bytes(all.take(i + 1)));
    }
    assert(all.take(all.len() as int) =~= all);
    r.append(".token");
    r
}

/// Bytes take two digits each.
proof fn lemma_hex_bytes_length(bytes: Seq<u8>)
    ensures
        hex_bytes(bytes).len() == 2 * bytes.len(),
    decreases bytes.len(),
{
    if bytes.len() > 0 {
        lemma_hex_bytes_length(bytes.drop_last());
        lemma_hex_length(bytes.last() as nat, 2);
    }
}

/// Two digits tell a byte.
proof fn lemma_hex_byte(a: u8, b: u8)
    requires
        hex_of(a as nat, 2) == hex_of(b as nat, 2),
    ensures
        a == b,
{
    reveal_with_fuel(hex_of, 3);
    let x = a as nat;
    let y = b as nat;
    assert(hex_of(x, 2)[1] == hex_char(x % 16));
    assert(hex_of(y, 2)[1] == hex_char(y % 16));
    assert(hex_of(x, 2)[0] == hex_char((x / 16) % 16));
    assert(hex_of(y, 2)[0] == hex_char((y / 16) % 16));
    lemma_hex_char_injective(x % 16, y % 16);
    lemma_hex_char_injective((x / 16) % 16, (y / 16) % 16);
}

/// Digits tell bytes.
proof fn lemma_hex_bytes_injective(a: Seq<u8>, b: Seq<u8>)
    requires
        hex_bytes(a) == hex_bytes(b),
    ensures
        a == b,
    decreases a.len(),
{
    lemma_hex_bytes_length(a);
    lemma_hex_bytes_length(b);
    if a.len() == 0 {
        assert(a =~= b);
    } else {
        let x = hex_bytes(a.drop_last());
        let y = hex_bytes(b.drop_last());
        let p = hex_of(a.last() as nat, 2);
        let q = hex_of(b.last() as nat, 2);
        lemma_hex_length(a.last() as nat, 2);
        lemma_hex_length(b.last() as nat, 2);
        lemma_hex_bytes_length(a.drop_last());
        lemma_hex_bytes_length(b.drop_last());
        assert(x + p == y + q);
        assert(x =~= (x + p).take(x.len() as int));
        assert(y =~= (y + q).take(y.len() as int));
        assert(p =~= (x + p).skip(x.len() as int));
        assert(q =~= (y + q).skip(y.len() as int));
        lemma_hex_bytes_injective(a.drop_last(), b.drop_last());
        lemma_hex_byte(a.last(), b.last());
        assert(a =~= a.drop_last().push(a.last()));
        assert(b =~= b.drop_last().push(b.last()));
    }
}

/// Each output has its own file: outputs with different names never share what was selected.
pub proof fn token_files_differ(a: Seq<char>, b: Seq<char>)
    requires
        token_file_of(a) == token_file_of(b),
    ensures
        a == b,
{
    let start = "xdg-desktop-portal-screencast-"@;
    let end = ".token"@;
    let x = hex_bytes(encode_utf8(a));
    let y = hex_bytes(encode_utf8(b));
    assert((start + x + end).len() == start.len() + x.len() + end.len());
    assert(x.len() == y.len());
    assert(x =~= (start + x + end).subrange(start.len() as int, (start.len() + x.len()) as int));
    assert(y =~= (start + y + end).subrange(start.len() as int, (start.len() + y.len()) as int));
    lemma_hex_bytes_injective(encode_utf8(a), encode_utf8(b));
    encode_utf8_decode_utf8(a);
    encode_utf8_decode_utf8(b);
}

/// Each byte is told by two digits, the higher one first, and the bytes follow each other as they are.
pub proof fn bytes_are_told_in_order(bytes: Seq<u8>, i: int)
    requires
        0 <= i < bytes.len(),
    ensures
        hex_bytes(bytes).len() == 2 * bytes.len(),
        hex_bytes(bytes)[2 * i] == hex_char((bytes[i] / 16) as nat),
        hex_bytes(bytes)[2 * i + 1] == hex_char((bytes[i] % 16) as nat),
    decreases bytes.len(),
{
    lemma_hex_bytes_length(bytes);
    lemma_hex_bytes_length(bytes.drop_last());
    lemma_hex_length(bytes.last() as nat, 2);
    if i < bytes.len() - 1 {
        bytes_are_told_in_order(bytes.drop_last(), i);
        assert(bytes.drop_last()[i] == bytes[i]);
    } else {
        reveal_with_fuel(hex_of, 3);
        let x = bytes[i] as nat;
        assert(hex_of(x, 2)[0] == hex_char((x / 16) % 16));
        assert(hex_of(x, 2)[1] == hex_char(x % 16));
    }
}

/// The name of the file begins with what it is for and ends with what it holds.
pub proof fn token_file_is_told_apart(output_name: Seq<char>)
    ensures
        ({
            let start = "xdg-desktop-portal-screencast-"@;
            let name = token_file_of(output_name);
            &&& name.len() == start.len() + 2 * encode_utf8(output_name).len() + 6
            &&& name.take(start.len() as int) == start
            &&& name.skip(name.len() - 6) == ".token"@
        }),
{
    let start = "xdg-desktop-portal-screencast-"@;
    let name = token_file_of(output_name);
    lemma_hex_bytes_length(encode_utf8(output_name));
    reveal_strlit(".token");
    assert(name.take(start.len() as int) =~= start);
    assert(name.skip(name.len() - 6) =~= ".token"@);
}

} // verus!
