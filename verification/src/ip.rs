//! IP address literals as plain values.
//!
//! Address strings arrive from the Kubernetes API and leave towards the
//! sockets; in between the library holds them as four octets or eight
//! sixteen-bit groups, and parses the literals itself.

use vstd::prelude::*;
use crate::text::{self, all_digits, dec_value, digit_val, is_digit, split_on, views};

verus! {

/// An IP address: four octets, or eight sixteen-bit groups.
#[derive(Clone, Copy, Debug, PartialEq, Eq)]
pub enum IpAddress {
    V4([u8; 4]),
    V6([u16; 8]),
}

/// A decimal octet as dotted-quad literals allow it: one to three digits,
/// no leading zero unless the octet is exactly `0`, value at most 255.
pub open spec fn is_octet(s: Seq<char>) -> bool {
    &&& 1 <= s.len() <= 3
    &&& all_digits(s)
    &&& s.len() > 1 ==> s[0] != '0'
    &&& dec_value(s) <= 255
}

/// The octets a dotted-quad IPv4 literal denotes: exactly four octet
/// strings joined by dots.
pub open spec fn parse_ipv4(s: Seq<char>) -> Option<Seq<u8>> {
    let parts = split_on(s, '.');
    if parts.len() == 4 && (forall|k: int| 0 <= k < 4 ==> is_octet(#[trigger] parts[k])) {
        Some(Seq::new(4, |k: int| dec_value(parts[k]) as u8))
    } else {
        None
    }
}

/// A hexadecimal digit, either case.
pub open spec fn is_hex_char(c: char) -> bool {
    is_digit(c) || 97 <= c as u32 <= 102 || 65 <= c as u32 <= 70
}

/// The value of a hexadecimal digit.
pub open spec fn hex_val(c: char) -> nat {
    if is_digit(c) {
        digit_val(c)
    } else if 97 <= c as u32 <= 102 {
        ((c as u32) - 87) as nat
    } else {
        ((c as u32) - 55) as nat
    }
}

/// The value of a hexadecimal digit string.
pub open spec fn hex_value(s: Seq<char>) -> nat
    decreases s.len(),
{
    if s.len() == 0 {
        0
    } else {
        hex_value(s.drop_last()) * 16 + hex_val(s.last())
    }
}

/// One group of an IPv6 literal: one to four hexadecimal digits.
pub open spec fn is_group(s: Seq<char>) -> bool {
    &&& 1 <= s.len() <= 4
    &&& forall|i: int| 0 <= i < s.len() ==> is_hex_char(#[trigger] s[i])
}

pub open spec fn all_groups(parts: Seq<Seq<char>>) -> bool {
    forall|k: int| 0 <= k < parts.len() ==> is_group(#[trigger] parts[k])
}

pub open spec fn group_vals(parts: Seq<Seq<char>>) -> Seq<u16> {
    parts.map_values(|p: Seq<char>| hex_value(p) as u16)
}

/// The groups a colon-separated list denotes when it may end in an embedded
/// dotted quad: hexadecimal groups, the last of which may instead be an
/// IPv4 literal standing for two groups.
pub open spec fn tail_groups(parts: Seq<Seq<char>>) -> Option<Seq<u16>> {
    if all_groups(parts) {
        Some(group_vals(parts))
    } else if parts.len() >= 1 && all_groups(parts.drop_last()) {
        match parse_ipv4(parts.last()) {
            Some(oc) => Some(
                group_vals(parts.drop_last()) + seq![
                    (oc[0] * 256 + oc[1]) as u16,
                    (oc[2] * 256 + oc[3]) as u16,
                ],
            ),
            None => None,
        }
    } else {
        None
    }
}

/// The position of the first `::`, if any, at or after `from`.
pub open spec fn find_dc(s: Seq<char>, from: int) -> Option<int>
    decreases s.len() - from,
{
    if from + 1 >= s.len() {
        None
    } else if s[from] == ':' && s[from + 1] == ':' {
        Some(from)
    } else {
        find_dc(s, from + 1)
    }
}

/// The groups an IPv6 literal denotes: colon-separated hexadecimal groups,
/// at most one `::` standing for at least one zero group, and possibly an
/// embedded dotted quad as the last two groups.
pub open spec fn parse_ipv6(s: Seq<char>) -> Option<Seq<u16>> {
    match find_dc(s, 0) {
        None => match tail_groups(split_on(s, ':')) {
            Some(gs) => if gs.len() == 8 {
                Some(gs)
            } else {
                None
            },
            None => None,
        },
        Some(i) => if 0 <= i && i + 2 <= s.len() {
            let left = s.subrange(0, i);
            let right = s.subrange(i + 2, s.len() as int);
            let head = if left.len() == 0 {
                Some(Seq::<u16>::empty())
            } else {
                let hp = split_on(left, ':');
                if all_groups(hp) {
                    Some(group_vals(hp))
                } else {
                    None
                }
            };
            let tail = if right.len() == 0 {
                Some(Seq::<u16>::empty())
            } else {
                tail_groups(split_on(right, ':'))
            };
            match (head, tail) {
                (Some(h), Some(t)) => if h.len() + t.len() <= 7 {
                    Some(h + Seq::new((8 - h.len() - t.len()) as nat, |k: int| 0u16) + t)
                } else {
                    None
                },
                _ => None,
            }
        } else {
            None
        },
    }
}

/// Reads a decimal part of at most three digits; nothing on an empty part
/// or any non-digit.
fn dec_of(p: &Vec<char>) -> (r: Option<u32>)
    requires
        p@.len() <= 3,
    ensures
        r is Some <==> (p@.len() >= 1 && all_digits(p@)),
        r matches Some(x) ==> x == dec_value(p@),
{
    if p.len() == 0 {
        return None;
    }
    let mut acc: u32 = 0;
    let mut i: usize = 0;
    while i < p.len()
        invariant
            i <= p@.len() <= 3,
            forall|j: int| 0 <= j < i ==> is_digit(#[trigger] p@[j]),
            acc == dec_value(p@.subrange(0, i as int)),
            i <= 1 ==> acc <= 9,
            i <= 2 ==> acc <= 99,
            acc <= 999,
        decreases p@.len() - i,
    {
        let c = p[i];
        let v = c as u32;
        if v < 48 || v > 57 {
            return None;
        }
        assert(p@.subrange(0, i + 1).drop_last() =~= p@.subrange(0, i as int));
        assert(p@.subrange(0, i + 1).last() == c);
        acc = acc * 10 + (v - 48);
        i += 1;
    }
    assert(p@.subrange(0, p@.len() as int) =~= p@);
    Some(acc)
}

/// Reads one decimal octet of a dotted quad.
fn octet_of(p: &Vec<char>) -> (r: Option<u8>)
    ensures
        r is Some <==> is_octet(p@),
        r matches Some(x) ==> x == dec_value(p@),
{
    if p.len() == 0 || p.len() > 3 {
        return None;
    }
    match dec_of(p) {
        None => None,
        Some(v) => {
            if p.len() > 1 && p[0] == '0' {
                None
            } else if v <= 255 {
                Some(v as u8)
            } else {
                None
            }
        },
    }
}

/// Parses a dotted-quad IPv4 literal.
pub fn parse_ipv4_chars(v: &Vec<char>) -> (r: Option<[u8; 4]>)
    ensures
        r is None <==> parse_ipv4(v@) is None,
        r matches Some(oc) ==> parse_ipv4(v@) == Some(oc@),
{
    let parts = text::split_chars(v, '.');
    assert(split_on(v@, '.').len() == parts@.len());
    if parts.len() != 4 {
        return None;
    }
    assert(forall|k: int| 0 <= k < 4 ==> split_on(v@, '.')[k] == #[trigger] parts@[k]@);
    let o0 = octet_of(&parts[0]);
    let o1 = octet_of(&parts[1]);
    let o2 = octet_of(&parts[2]);
    let o3 = octet_of(&parts[3]);
    match (o0, o1, o2, o3) {
        (Some(a), Some(b), Some(c), Some(d)) => {
            let oc: [u8; 4] = [a, b, c, d];
            proof {
                let sp = split_on(v@, '.');
                assert(forall|k: int| 0 <= k < 4 ==> sp[k] == views(parts@)[k]);
                assert(oc@ =~= Seq::new(4, |k: int| dec_value(sp[k]) as u8));
            }
            Some(oc)
        },
        _ => {
            proof {
                let sp = split_on(v@, '.');
                assert(forall|k: int| 0 <= k < 4 ==> sp[k] == views(parts@)[k]);
            }
            None
        },
    }
}

/// Reads one hexadecimal group of an IPv6 literal.
fn hex_of(p: &Vec<char>) -> (r: Option<u16>)
    ensures
        r is Some <==> is_group(p@),
        r matches Some(x) ==> x == hex_value(p@),
{
    if p.len() == 0 || p.len() > 4 {
        return None;
    }
    let mut acc: u32 = 0;
    let mut i: usize = 0;
    while i < p.len()
        invariant
            i <= p@.len() <= 4,
            forall|j: int| 0 <= j < i ==> is_hex_char(#[trigger] p@[j]),
            acc == hex_value(p@.subrange(0, i as int)),
            i <= 1 ==> acc <= 15,
            i <= 2 ==> acc <= 255,
            i <= 3 ==> acc <= 4095,
            acc <= 65535,
        decreases p@.len() - i,
    {
        let c = p[i];
        let v = c as u32;
        let d: u32 = if v >= 48 && v <= 57 {
            v - 48
        } else if v >= 97 && v <= 102 {
            v - 87
        } else if v >= 65 && v <= 70 {
            v - 55
        } else {
            return None;
        };
        assert(p@.subrange(0, i + 1).drop_last() =~= p@.subrange(0, i as int));
        assert(p@.subrange(0, i + 1).last() == c);
        acc = acc * 16 + d;
        i += 1;
    }
    assert(p@.subrange(0, p@.len() as int) =~= p@);
    Some(acc as u16)
}

/// Reads the first `end` parts as hexadecimal groups.
fn hex_groups(parts: &Vec<Vec<char>>, end: usize) -> (r: Option<Vec<u16>>)
    requires
        end <= parts@.len(),
    ensures
        r is Some <==> all_groups(views(parts@).subrange(0, end as int)),
        r matches Some(gs) ==> gs@ == group_vals(views(parts@).subrange(0, end as int)),
{
    let mut gs: Vec<u16> = Vec::new();
    let mut k: usize = 0;
    while k < end
        invariant
            k <= end <= parts@.len(),
            forall|j: int| 0 <= j < k ==> is_group(#[trigger] views(parts@)[j]),
            gs@ == group_vals(views(parts@).subrange(0, k as int)),
        decreases end - k,
    {
        match hex_of(&parts[k]) {
            None => {
                assert(views(parts@).subrange(0, end as int)[k as int] == parts@[k as int]@);
                return None;
            },
            Some(x) => {
                proof {
                    assert(views(parts@)[k as int] == parts@[k as int]@);
                    assert(group_vals(views(parts@).subrange(0, k + 1)) =~= group_vals(
                        views(parts@).subrange(0, k as int),
                    ).push(hex_value(parts@[k as int]@) as u16));
                }
                gs.push(x);
            },
        }
        k += 1;
    }
    assert(forall|j: int| 0 <= j < end ==> views(parts@).subrange(0, end as int)[j] == views(
        parts@,
    )[j]);
    Some(gs)
}

/// Reads a colon-separated group list that may end in an embedded dotted
/// quad.
fn tail_groups_of(parts: &Vec<Vec<char>>) -> (r: Option<Vec<u16>>)
    requires
        parts@.len() >= 1,
    ensures
        r is Some <==> tail_groups(views(parts@)) is Some,
        r matches Some(gs) ==> tail_groups(views(parts@)) == Some(gs@),
{
    assert(views(parts@).subrange(0, views(parts@).len() as int) =~= views(parts@));
    match hex_groups(parts, parts.len()) {
        Some(gs) => Some(gs),
        None => {
            assert(views(parts@).subrange(0, views(parts@).len() - 1) =~= views(
                parts@,
            ).drop_last());
            match hex_groups(parts, parts.len() - 1) {
                None => None,
                Some(mut gs) => {
                    assert(views(parts@).last() == parts@[parts@.len() - 1]@);
                    match parse_ipv4_chars(&parts[parts.len() - 1]) {
                        None => None,
                        Some(oc) => {
                            let g6: u16 = (oc[0] as u16) * 256 + (oc[1] as u16);
                            let g7: u16 = (oc[2] as u16) * 256 + (oc[3] as u16);
                            let ghost before = gs@;
                            gs.push(g6);
                            gs.push(g7);
                            proof {
                                let spec_oc = parse_ipv4(views(parts@).last())->0;
                                assert(gs@ =~= group_vals(views(parts@).drop_last()) + seq![
                                    (spec_oc[0] * 256 + spec_oc[1]) as u16,
                                    (spec_oc[2] * 256 + spec_oc[3]) as u16,
                                ]);
                            }
                            Some(gs)
                        },
                    }
                },
            }
        },
    }
}

/// A found `::` lies within the string.
proof fn lemma_find_dc_bounds(s: Seq<char>, from: int)
    ensures
        find_dc(s, from) matches Some(i) ==> from <= i && i + 2 <= s.len(),
    decreases s.len() - from,
{
    if from + 1 < s.len() && !(s[from] == ':' && s[from + 1] == ':') {
        lemma_find_dc_bounds(s, from + 1);
    }
}

/// The position of the first `::`, if any.
fn find_dc_at(v: &Vec<char>) -> (r: Option<usize>)
    ensures
        r is None <==> find_dc(v@, 0) is None,
        r matches Some(i) ==> find_dc(v@, 0) == Some(i as int),
{
    let mut i: usize = 0;
    while i < v.len() && i + 1 < v.len()
        invariant
            i <= v@.len(),
            find_dc(v@, 0) == find_dc(v@, i as int),
        decreases v@.len() - i,
    {
        if v[i] == ':' && v[i + 1] == ':' {
            return Some(i);
        }
        i += 1;
    }
    None
}

/// Parses an IPv6 literal.
pub fn parse_ipv6_chars(v: &Vec<char>) -> (r: Option<[u16; 8]>)
    ensures
        r is None <==> parse_ipv6(v@) is None,
        r matches Some(gs) ==> parse_ipv6(v@) == Some(gs@),
{
    match find_dc_at(v) {
        None => {
            let parts = text::split_chars(v, ':');
            let gs = match tail_groups_of(&parts) {
                None => {
                    return None;
                },
                Some(gs) => gs,
            };
            if gs.len() != 8 {
                return None;
            }
            let arr: [u16; 8] = [gs[0], gs[1], gs[2], gs[3], gs[4], gs[5], gs[6], gs[7]];
            assert(arr@ =~= gs@);
            Some(arr)
        },
        Some(i) => {
            proof {
                lemma_find_dc_bounds(v@, 0);
                assert(find_dc(v@, 0) == Some(i as int));
                assert(i + 2 <= v@.len());
            }
            let n = v.len();
            let left = text::subvec(v, 0, i);
            let right = text::subvec(v, i + 2, n);
            let h: Vec<u16> = if left.len() == 0 {
                Vec::new()
            } else {
                let hp = text::split_chars(&left, ':');
                assert(views(hp@).subrange(0, views(hp@).len() as int) =~= views(hp@));
                match hex_groups(&hp, hp.len()) {
                    None => {
                        return None;
                    },
                    Some(h) => h,
                }
            };
            let t: Vec<u16> = if right.len() == 0 {
                Vec::new()
            } else {
                let tp = text::split_chars(&right, ':');
                match tail_groups_of(&tp) {
                    None => {
                        return None;
                    },
                    Some(t) => t,
                }
            };
            if h.len() > 7 || t.len() > 7 - h.len() {
                return None;
            }
            Some(fill_groups(h, &t))
        },
    }
}

/// Head groups, then zero groups for the `::`, then tail groups.
fn fill_groups(h: Vec<u16>, t: &Vec<u16>) -> (r: [u16; 8])
    requires
        h@.len() + t@.len() <= 7,
    ensures
        r@ == h@ + Seq::new((8 - h@.len() - t@.len()) as nat, |k: int| 0u16) + t@,
{
    let mut gs: Vec<u16> = h;
    let fill: usize = 8 - gs.len() - t.len();
    let ghost head_view = gs@;
    let mut z: usize = 0;
    while z < fill
        invariant
            z <= fill,
            gs@ == head_view + Seq::new(z as nat, |k: int| 0u16),
        decreases fill - z,
    {
        gs.push(0);
        assert(head_view + Seq::new((z + 1) as nat, |k: int| 0u16) =~= (head_view + Seq::new(
            z as nat,
            |k: int| 0u16,
        )).push(0u16));
        z += 1;
    }
    let mut w: usize = 0;
    let ghost mid_view = gs@;
    while w < t.len()
        invariant
            w <= t@.len(),
            gs@ == mid_view + t@.subrange(0, w as int),
        decreases t@.len() - w,
    {
        gs.push(t[w]);
        assert(mid_view + t@.subrange(0, w + 1) =~= (mid_view + t@.subrange(0, w as int)).push(
            t@[w as int],
        ));
        w += 1;
    }
    assert(t@.subrange(0, t@.len() as int) =~= t@);
    let arr: [u16; 8] = [gs[0], gs[1], gs[2], gs[3], gs[4], gs[5], gs[6], gs[7]];
    assert(arr@ =~= gs@);
    arr
}

/// Parses an IP literal: a dotted quad, or else an IPv6 literal.
pub fn parse_ip(s: &String) -> (r: Option<IpAddress>)
    ensures
        r is None <==> (parse_ipv4(s@) is None && parse_ipv6(s@) is None),
        r matches Some(a) ==> match a {
            IpAddress::V4(oc) => parse_ipv4(s@) == Some(oc@),
            IpAddress::V6(gs) => parse_ipv4(s@) is None && parse_ipv6(s@) == Some(gs@),
        },
{
    let cs = text::str_chars(s.as_str());
    match parse_ipv4_chars(&cs) {
        Some(oc) => Some(IpAddress::V4(oc)),
        None => match parse_ipv6_chars(&cs) {
            Some(gs) => Some(IpAddress::V6(gs)),
            None => None,
        },
    }
}

} // verus!
