//! Searching in text: prefixes, suffixes and substrings.

use super::chars::{chars, string_of};
use vstd::prelude::*;

verus! {

/// `s` begins with `p`.
pub open spec fn begins_with(s: Seq<char>, p: Seq<char>) -> bool {
    p.len() <= s.len() && s.take(p.len() as int) == p
}

/// `s` ends with `p`.
pub open spec fn ends_with(s: Seq<char>, p: Seq<char>) -> bool {
    p.len() <= s.len() && s.skip(s.len() - p.len()) == p
}

/// `p` stands in `s` at the place `i`.
pub open spec fn occurs_at(s: Seq<char>, p: Seq<char>, i: int) -> bool {
    0 <= i && i + p.len() <= s.len() && s.subrange(i, i + p.len()) == p
}

/// `p` stands somewhere in `s`.
pub open spec fn holds(s: Seq<char>, p: Seq<char>) -> bool {
    exists|i: int| occurs_at(s, p, i)
}

/// The ASCII lower case of a character; others are their own.
pub open spec fn lower(c: char) -> char {
    if 'A' <= c <= 'Z' {
        (c as u32 + 32) as u8 as char
    } else {
        c
    }
}

/// Whether `p` stands in `s` at the place `i`.
pub fn matches_at(s: &Vec<char>, p: &Vec<char>, i: usize) -> (r: bool)
    requires
        i + p@.len() <= s@.len(),
    ensures
        r == occurs_at(s@, p@, i as int),
{
    let n = s.len();
    let mut j: usize = 0;
    while j < p.len()
        invariant
            j <= p@.len(),
            n == s@.len(),
            i + p@.len() <= n,
            i + p@.len() <= s@.len(),
            forall|k: int| 0 <= k < j ==> s@[i + k] == p@[k],
        decreases p.len() - j,
    {
        if s[i + j] != p[j] {
            assert(s@.subrange(i as int, i + p@.len())[j as int] != p@[j as int]);
            return false;
        }
        j = j + 1;
    }
    assert(s@.subrange(i as int, i + p@.len()) =~= p@);
    true
}

/// Whether `p` stands somewhere in `s`.
pub fn contains(s: &str, p: &str) -> (r: bool)
    ensures
        r == holds(s@, p@),
{
    let x = chars(s);
    let y = chars(p);
    if y.len() > x.len() {
        return false;
    }
    let mut i: usize = 0;
    while i <= x.len() - y.len()
        invariant
            x@ == s@,
            y@ == p@,
            y@.len() <= x@.len(),
            i <= x@.len() - y@.len() + 1,
            forall|k: int| 0 <= k < i ==> !occurs_at(x@, y@, k),
        decreases x.len() - y.len() + 1 - i,
    {
        if matches_at(&x, &y, i) {
            return true;
        }
        if i == x.len() - y.len() {
            return false;
        }
        i = i + 1;
    }
    false
}

/// Whether `s` begins with `p`.
pub fn starts_with(s: &str, p: &str) -> (r: bool)
    ensures
        r == begins_with(s@, p@),
{
    let x = chars(s);
    let y = chars(p);
    if y.len() > x.len() {
        return false;
    }
    assert(x@.subrange(0, y@.len() as int) =~= x@.take(y@.len() as int));
    matches_at(&x, &y, 0)
}

/// What follows `p` in `s`, where `s` begins with `p`.
pub fn strip_prefix(s: &str, p: &str) -> (r: Option<String>)
    ensures
        r is Some <==> begins_with(s@, p@),
        r matches Some(rest) ==> rest@ == s@.skip(p@.len() as int),
{
    if starts_with(s, p) {
        let x = chars(s);
        let y = chars(p);
        let rest = string_of(&x, y.len(), x.len());
        assert(rest@ =~= s@.skip(p@.len() as int));
        Some(rest)
    } else {
        None
    }
}

/// What stands before `p` in `s`, where `s` ends with `p`.
pub fn strip_suffix(s: &str, p: &str) -> (r: Option<String>)
    ensures
        r is Some <==> ends_with(s@, p@),
        r matches Some(rest) ==> rest@ == s@.take(s@.len() - p@.len()),
{
    let x = chars(s);
    let y = chars(p);
    if y.len() > x.len() {
        return None;
    }
    let from = x.len() - y.len();
    assert(x@.subrange(from as int, from + y@.len()) =~= x@.skip(x@.len() - y@.len()));
    if matches_at(&x, &y, from) {
        let rest = string_of(&x, 0, from);
        assert(rest@ =~= s@.take(s@.len() - p@.len()));
        Some(rest)
    } else {
        None
    }
}

/// `s` with its ASCII capitals in lower case.
pub fn to_lower(s: &str) -> (r: String)
    ensures
        r@ == s@.map_values(|c: char| lower(c)),
{
    let x = chars(s);
    let mut r = String::new();
    let mut i: usize = 0;
    while i < x.len()
        invariant
            i <= x@.len(),
            x@ == s@,
            r@ == x@.take(i as int).map_values(|c: char| lower(c)),
        decreases x.len() - i,
    {
        let c = x[i];
        let l: char = if 'A' <= c && c <= 'Z' {
            (c as u8 + 32) as char
        } else {
            c
        };
        r.push(l);
        assert(x@.take(i + 1).map_values(|c: char| lower(c)) =~= x@.take(i as int).map_values(
            |c: char| lower(c),
        ).push(lower(c)));
        i = i + 1;
    }
    assert(x@.take(i as int) =~= x@);
    r
}

/// A text begins with another exactly when it is that text and something behind it.
pub proof fn beginning_is_followed(s: Seq<char>, p: Seq<char>, rest: Seq<char>)
    ensures
        begins_with(p + rest, p),
        begins_with(s, p) ==> s == p + s.skip(p.len() as int),
{
    assert((p + rest).take(p.len() as int) =~= p);
    if begins_with(s, p) {
        assert(s =~= s.take(p.len() as int) + s.skip(p.len() as int));
    }
}

/// A text ends with another exactly when it is that text and something before it.
pub proof fn end_is_preceded(s: Seq<char>, p: Seq<char>, start: Seq<char>)
    ensures
        ends_with(start + p, p),
        ends_with(s, p) ==> s == s.take(s.len() - p.len()) + p,
{
    assert((start + p).skip(start.len() as int) =~= p);
    if ends_with(s, p) {
        assert(s =~= s.take(s.len() - p.len()) + s.skip(s.len() - p.len()));
    }
}

/// A text holds another exactly when it is that text with something before it and behind it.
pub proof fn held_text_is_surrounded(start: Seq<char>, p: Seq<char>, rest: Seq<char>, s: Seq<char>)
    ensures
        holds(start + p + rest, p),
        holds(s, p) ==> exists|i: int|
            0 <= i <= s.len() - p.len() && s == #[trigger] s.take(i) + p + s.skip(i + p.len()),
{
    let whole = start + p + rest;
    assert(whole.subrange(start.len() as int, (start.len() + p.len()) as int) =~= p);
    assert(occurs_at(whole, p, start.len() as int));
    if holds(s, p) {
        let i = choose|i: int| occurs_at(s, p, i);
        assert(s =~= s.take(i) + p + s.skip(i + p.len()));
    }
}

/// Only capital letters of ASCII have another lower case, which stands the same way among the small
/// letters.
pub proof fn capitals_become_small(c: char)
    ensures
        'A' <= c <= 'Z' ==> lower(c) as u32 == c as u32 - 65 + 97,
        !('A' <= c <= 'Z') ==> lower(c) == c,
        !('A' <= lower(c) <= 'Z'),
{
}

} // verus!
