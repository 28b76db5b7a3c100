//! Characters, digit strings and small string helpers.

use vstd::prelude::*;

verus! {

/// A decimal digit, `'0'` through `'9'`.
pub open spec fn is_digit(c: char) -> bool {
    48 <= c as u32 <= 57
}

/// The value of a single decimal digit.
pub open spec fn digit_val(c: char) -> nat {
    ((c as u32) - 48) as nat
}

pub open spec fn all_digits(s: Seq<char>) -> bool {
    forall|i: int| 0 <= i < s.len() ==> is_digit(#[trigger] s[i])
}

/// The number a digit string denotes in base ten.
pub open spec fn dec_value(s: Seq<char>) -> nat
    decreases s.len(),
{
    if s.len() == 0 {
        0
    } else {
        dec_value(s.drop_last()) * 10 + digit_val(s.last())
    }
}

/// What a port string denotes: an optional leading `'+'`, then at least one
/// digit, whose value fits in sixteen bits. Anything else denotes nothing.
pub open spec fn parse_u16(s: Seq<char>) -> Option<u16> {
    let body = if s.len() > 0 && s[0] == '+' {
        s.subrange(1, s.len() as int)
    } else {
        s
    };
    if body.len() == 0 || !all_digits(body) || dec_value(body) > 65535 {
        None
    } else {
        Some(dec_value(body) as u16)
    }
}

/// A digit string is worth at least as much as any of its prefixes.
proof fn lemma_dec_value_prefix_le(s: Seq<char>, i: int)
    requires
        0 <= i <= s.len(),
    ensures
        dec_value(s.subrange(0, i)) <= dec_value(s),
    decreases s.len(),
{
    if i < s.len() {
        let t = s.drop_last();
        assert(s.subrange(0, i) =~= t.subrange(0, i));
        lemma_dec_value_prefix_le(t, i);
    } else {
        assert(s.subrange(0, i) =~= s);
    }
}

/// Reads a port number as `u16::from_str` does: an optional `'+'`, then
/// decimal digits, rejected on overflow or on any other character.
pub fn parse_port(s: &Vec<char>) -> (r: Option<u16>)
    ensures
        r == parse_u16(s@),
{
    let start: usize = if s.len() > 0 && s[0] == '+' {
        1
    } else {
        0
    };
    let ghost body = if start == 1 {
        s@.subrange(1, s@.len() as int)
    } else {
        s@
    };
    if s.len() == start {
        return None;
    }
    let mut acc: u32 = 0;
    let mut i: usize = start;
    while i < s.len()
        invariant
            start <= i <= s@.len(),
            start <= 1,
            start == 1 <==> s@.len() > 0 && s@[0] == '+',
            body == if start == 1 {
                s@.subrange(1, s@.len() as int)
            } else {
                s@
            },
            body.len() == s@.len() - start,
            forall|j: int| 0 <= j < i - start ==> is_digit(#[trigger] body[j]),
            acc == dec_value(body.subrange(0, i - start)),
            acc <= 65535,
        decreases s@.len() - i,
    {
        let c = s[i];
        assert(body[i - start] == s@[i as int]);
        let v = c as u32;
        if v < 48 || v > 57 {
            assert(!is_digit(body[i - start]));
            return None;
        }
        assert(body.subrange(0, i + 1 - start).drop_last() =~= body.subrange(0, i - start));
        assert(body.subrange(0, i + 1 - start).last() == c);
        acc = acc * 10 + (v - 48);
        if acc > 65535 {
            proof {
                lemma_dec_value_prefix_le(body, i + 1 - start);
            }
            return None;
        }
        i += 1;
    }
    assert(body.subrange(0, s@.len() - start) =~= body);
    Some(acc as u16)
}

/// The characters of a string, one vector entry per character.
pub fn str_chars(s: &str) -> (r: Vec<char>)
    ensures
        r@ == s@,
{
    broadcast use vstd::string::axiom_spec_iter;

    let mut r: Vec<char> = Vec::new();
    for c in it: s.chars()
        invariant
            it.seq() == s@,
            r@ == it.seq().subrange(0, it.index() as int),
    {
        r.push(c);
        assert(it.seq().subrange(0, it.index() + 1) =~= it.seq().subrange(
            0,
            it.index() as int,
        ).push(it.seq()[it.index() as int]));
    }
    assert(s@.subrange(0, s@.len() as int) =~= s@);
    r
}

/// The position of the first occurrence of a character, if any.
pub open spec fn find_first(s: Seq<char>, sep: char) -> Option<int>
    decreases s.len(),
{
    if s.len() == 0 {
        None
    } else if s[0] == sep {
        Some(0)
    } else {
        match find_first(s.drop_first(), sep) {
            None => None,
            Some(i) => Some(i + 1),
        }
    }
}

/// The parts of a string between occurrences of a separator; one more part
/// than there are separators, and parts may be empty.
pub open spec fn split_on(s: Seq<char>, sep: char) -> Seq<Seq<char>>
    decreases s.len(),
    via split_on_decreases
{
    match find_first(s, sep) {
        None => seq![s],
        Some(i) => seq![s.subrange(0, i)] + split_on(s.subrange(i + 1, s.len() as int), sep),
    }
}

/// A found separator lies within the string.
proof fn lemma_find_first_bounds(s: Seq<char>, sep: char)
    ensures
        find_first(s, sep) matches Some(i) ==> 0 <= i < s.len() && s[i] == sep,
    decreases s.len(),
{
    if s.len() > 0 && s[0] != sep {
        lemma_find_first_bounds(s.drop_first(), sep);
    }
}

#[via_fn]
proof fn split_on_decreases(s: Seq<char>, sep: char) {
    lemma_find_first_bounds(s, sep);
}

/// Where the first separator is: absent when no position holds it, and
/// otherwise the least position that does.
proof fn lemma_find_first(s: Seq<char>, sep: char, i: int)
    requires
        0 <= i <= s.len(),
        forall|j: int| 0 <= j < i ==> s[j] != sep,
        i < s.len() ==> s[i] == sep,
    ensures
        i == s.len() ==> find_first(s, sep) is None,
        i < s.len() ==> find_first(s, sep) == Some(i),
    decreases s.len(),
{
    if s.len() > 0 && s[0] != sep {
        lemma_find_first(s.drop_first(), sep, i - 1);
    }
}

/// A string without the separator splits into itself alone.
proof fn lemma_split_whole(s: Seq<char>, sep: char)
    requires
        forall|j: int| 0 <= j < s.len() ==> s[j] != sep,
    ensures
        split_on(s, sep) == seq![s],
{
    lemma_find_first(s, sep, s.len() as int);
}

/// Splitting at the first separator peels off the first part.
proof fn lemma_split_step(s: Seq<char>, sep: char, i: int)
    requires
        0 <= i < s.len(),
        s[i] == sep,
        forall|j: int| 0 <= j < i ==> s[j] != sep,
    ensures
        split_on(s, sep) == seq![s.subrange(0, i)] + split_on(
            s.subrange(i + 1, s.len() as int),
            sep,
        ),
{
    lemma_find_first(s, sep, i);
}

/// The views of a vector of character vectors.
pub open spec fn views(parts: Seq<Vec<char>>) -> Seq<Seq<char>> {
    parts.map_values(|p: Vec<char>| p@)
}

/// Splits a character string on a separator. Parts may be empty; there is
/// always one part more than there are separators.
pub fn split_chars(v: &Vec<char>, sep: char) -> (r: Vec<Vec<char>>)
    ensures
        views(r@) == split_on(v@, sep),
{
    let mut parts: Vec<Vec<char>> = Vec::new();
    assert(v@.subrange(0, v@.len() as int) =~= v@);
    assert(views(parts@) =~= Seq::<Seq<char>>::empty());
    let mut start: usize = 0;
    let mut i: usize = 0;
    while i < v.len()
        invariant
            start <= i <= v@.len(),
            forall|j: int| start <= j < i ==> v@[j] != sep,
            split_on(v@, sep) == views(parts@) + split_on(
                v@.subrange(start as int, v@.len() as int),
                sep,
            ),
        decreases v@.len() - i,
    {
        if v[i] == sep {
            let part = subvec(v, start, i);
            proof {
                let rest = v@.subrange(start as int, v@.len() as int);
                lemma_split_step(rest, sep, i - start);
                assert(rest.subrange(0, i - start) =~= v@.subrange(start as int, i as int));
                assert(rest.subrange(i - start + 1, rest.len() as int) =~= v@.subrange(
                    i + 1,
                    v@.len() as int,
                ));
                assert(views(parts@.push(part)) =~= views(parts@) + seq![part@]);
            }
            parts.push(part);
            start = i + 1;
        }
        i += 1;
    }
    let last = subvec(v, start, v.len());
    proof {
        lemma_split_whole(v@.subrange(start as int, v@.len() as int), sep);
        assert(views(parts@.push(last)) =~= views(parts@) + seq![last@]);
    }
    parts.push(last);
    parts
}

/// A copy of the part of a vector between two positions.
pub fn subvec<T: Copy>(v: &Vec<T>, a: usize, b: usize) -> (r: Vec<T>)
    requires
        a <= b <= v@.len(),
    ensures
        r@ == v@.subrange(a as int, b as int),
{
    let mut r: Vec<T> = Vec::new();
    let mut i: usize = a;
    while i < b
        invariant
            a <= i <= b <= v@.len(),
            r@ == v@.subrange(a as int, i as int),
        decreases b - i,
    {
        r.push(v[i]);
        assert(v@.subrange(a as int, i + 1) =~= v@.subrange(a as int, i as int).push(
            v@[i as int],
        ));
        i += 1;
    }
    r
}

/// Relies on `String::push`: appends exactly the one character.
#[verifier::external_body]
fn push_char(s: &mut String, c: char)
    ensures
        final(s)@ == old(s)@.push(c),
{
    s.push(c);
}

/// A string holding exactly the given characters.
pub fn chars_string(v: &Vec<char>) -> (r: String)
    ensures
        r@ == v@,
{
    let mut r = String::new();
    let mut i: usize = 0;
    while i < v.len()
        invariant
            i <= v@.len(),
            r@ == v@.subrange(0, i as int),
        decreases v@.len() - i,
    {
        push_char(&mut r, v[i]);
        assert(v@.subrange(0, i + 1) =~= v@.subrange(0, i as int).push(v@[i as int]));
        i += 1;
    }
    assert(v@.subrange(0, v@.len() as int) =~= v@);
    r
}

/// Relies on `String::from_utf8`: succeeds exactly on valid UTF-8 input, and
/// the returned string holds the characters those bytes encode.
#[verifier::external_body]
pub(crate) fn string_from_utf8(b: Vec<u8>) -> (r: Option<String>)
    ensures
        r is Some <==> vstd::utf8::valid_utf8(b@),
        r matches Some(s) ==> s@ == vstd::utf8::decode_utf8(b@),
{
    String::from_utf8(b).ok()
}

} // verus!
