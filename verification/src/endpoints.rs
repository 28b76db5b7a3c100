//! The `Endpoints` view and the resolution policies built on it.
//!
//! The Kubernetes API hands back, per subset of a named service, a list of
//! port numbers and a list of address literals; the library reads that as
//! plain values and decides which addresses and which port to dial.

use vstd::prelude::*;
use crate::ip::{self, IpAddress};

verus! {

/// One subset of an `Endpoints` object, as plain values: the ports it
/// lists and the address IP literals it lists, in order.
pub struct EndpointSubset {
    pub ports: Vec<i32>,
    pub addresses: Vec<String>,
}

/// One dial target.
#[derive(Clone, Copy, Debug, PartialEq, Eq)]
pub struct Target {
    pub ip: IpAddress,
    pub port: u16,
}

/// Why a resolution failed.
#[derive(Debug)]
pub enum ResolveError {
    /// An address literal of the `Endpoints` object is not an IP address.
    BadAddress { literal: String },
    /// The single distinct endpoint port does not fit an unsigned
    /// sixteen-bit port number.
    BadPort { port: i32 },
    /// The hostname named a reserved virtual kind.
    NotImplemented,
}

/// Whether a port list holds the given port.
pub open spec fn spec_has_port(ports: Seq<i32>, p: i32) -> bool {
    exists|j: int| 0 <= j < ports.len() && ports[j] == p
}

/// Whether any port of a subset is the given one.
pub fn has_port(port: i32, ports: &Vec<i32>) -> (r: bool)
    ensures
        r == spec_has_port(ports@, port),
{
    let mut j: usize = 0;
    while j < ports.len()
        invariant
            j <= ports@.len(),
            forall|k: int| 0 <= k < j ==> ports@[k] != port,
        decreases ports@.len() - j,
    {
        if ports[j] == port {
            return true;
        }
        j += 1;
    }
    false
}

/// The address literals of one subset.
pub open spec fn addr_views(s: EndpointSubset) -> Seq<Seq<char>> {
    s.addresses@.map_values(|a: String| a@)
}

/// The address literals of the subsets that list port 53, in
/// subset-then-address order.
pub open spec fn dns_candidates(subsets: Seq<EndpointSubset>) -> Seq<Seq<char>>
    decreases subsets.len(),
{
    if subsets.len() == 0 {
        Seq::empty()
    } else {
        dns_candidates(subsets.drop_last()) + (if spec_has_port(subsets.last().ports@, 53) {
            addr_views(subsets.last())
        } else {
            Seq::empty()
        })
    }
}

/// The address literals of all subsets, in subset-then-address order.
pub open spec fn all_addrs(subsets: Seq<EndpointSubset>) -> Seq<Seq<char>>
    decreases subsets.len(),
{
    if subsets.len() == 0 {
        Seq::empty()
    } else {
        all_addrs(subsets.drop_last()) + addr_views(subsets.last())
    }
}

/// The ports of all subsets, in order, repetitions kept.
pub open spec fn ports_list(subsets: Seq<EndpointSubset>) -> Seq<i32>
    decreases subsets.len(),
{
    if subsets.len() == 0 {
        Seq::empty()
    } else {
        ports_list(subsets.drop_last()) + subsets.last().ports@
    }
}

/// A sequence with its first occurrences only, in arrival order.
pub open spec fn dedup<T>(s: Seq<T>) -> Seq<T>
    decreases s.len(),
{
    if s.len() == 0 {
        Seq::empty()
    } else if s.drop_last().contains(s.last()) {
        dedup(s.drop_last())
    } else {
        dedup(s.drop_last()).push(s.last())
    }
}

/// Whether a string denotes an IP address.
pub open spec fn valid_ip(s: Seq<char>) -> bool {
    ip::parse_ipv4(s) is Some || ip::parse_ipv6(s) is Some
}

/// Whether an address value is what a literal denotes: the dotted quad it
/// spells, or else the IPv6 groups it spells.
pub open spec fn denotes(s: Seq<char>, a: IpAddress) -> bool {
    match a {
        IpAddress::V4(oc) => ip::parse_ipv4(s) == Some(oc@),
        IpAddress::V6(gs) => ip::parse_ipv4(s) is None && ip::parse_ipv6(s) == Some(gs@),
    }
}

/// Deduplication keeps exactly the members.
proof fn lemma_dedup_contains<T>(s: Seq<T>, x: T)
    ensures
        dedup(s).contains(x) <==> s.contains(x),
    decreases s.len(),
{
    if s.len() > 0 {
        lemma_dedup_contains(s.drop_last(), x);
        assert(s.contains(x) <==> (s.drop_last().contains(x) || x == s.last())) by {
            if s.contains(x) {
                let i = choose|i: int| 0 <= i < s.len() && s[i] == x;
                if i < s.len() - 1 {
                    assert(s.drop_last()[i] == x);
                }
            }
            if s.drop_last().contains(x) {
                let i = choose|i: int| 0 <= i < s.drop_last().len() && s.drop_last()[i] == x;
                assert(s[i] == x);
            }
            if x == s.last() {
                assert(s[s.len() - 1] == x);
            }
        }
        if !s.drop_last().contains(s.last()) && dedup(s).contains(x) && x != s.last() {
            let d = dedup(s.drop_last());
            let i = choose|i: int| 0 <= i < dedup(s).len() && dedup(s)[i] == x;
            assert(d[i] == x);
        }
        if !s.drop_last().contains(s.last()) && s.drop_last().contains(x) {
            let d = dedup(s.drop_last());
            let i = choose|i: int| 0 <= i < d.len() && d[i] == x;
            assert(dedup(s)[i] == x);
        }
        if !s.drop_last().contains(s.last()) && x == s.last() {
            assert(dedup(s)[dedup(s).len() - 1] == x);
        }
    }
}

/// Whether one of the strings spells the same characters.
fn contains_string(v: &Vec<String>, x: &String) -> (r: bool)
    ensures
        r == v@.map_values(|a: String| a@).contains(x@),
{
    let ghost vs = v@.map_values(|a: String| a@);
    let mut j: usize = 0;
    while j < v.len()
        invariant
            j <= v@.len(),
            vs == v@.map_values(|a: String| a@),
            forall|k: int| 0 <= k < j ==> vs[k] != x@,
        decreases v@.len() - j,
    {
        assert(vs[j as int] == v@[j as int]@);
        if v[j].eq(x) {
            assert(vs[j as int] == x@);
            return true;
        }
        j += 1;
    }
    false
}

/// Drops every repeated literal, keeping first occurrences in order.
fn dedup_strings(cands: Vec<String>) -> (r: Vec<String>)
    ensures
        r@.map_values(|a: String| a@) == dedup(cands@.map_values(|a: String| a@)),
{
    let ghost full = cands@.map_values(|a: String| a@);
    let mut r: Vec<String> = Vec::new();
    let mut i: usize = 0;
    assert(full.subrange(0, 0) =~= Seq::<Seq<char>>::empty());
    assert(r@.map_values(|a: String| a@) =~= Seq::<Seq<char>>::empty());
    while i < cands.len()
        invariant
            i <= cands@.len(),
            full == cands@.map_values(|a: String| a@),
            r@.map_values(|a: String| a@) == dedup(full.subrange(0, i as int)),
        decreases cands@.len() - i,
    {
        let ghost pre = full.subrange(0, i as int);
        let ghost pre1 = full.subrange(0, i + 1);
        assert(pre1.drop_last() =~= pre);
        assert(pre1.last() == cands@[i as int]@);
        proof {
            lemma_dedup_contains(pre, cands@[i as int]@);
        }
        let dup = contains_string(&r, &cands[i]);
        proof {
            if pre.contains(cands@[i as int]@) {
                assert(dedup(pre).contains(cands@[i as int]@));
            }
            if !pre.contains(cands@[i as int]@) {
                assert(!dedup(pre).contains(cands@[i as int]@));
            }
        }
        if !dup {
            let item = cands[i].clone();
            let ghost before = r@.map_values(|a: String| a@);
            r.push(item);
            assert(r@.map_values(|a: String| a@) =~= before.push(cands@[i as int]@));
        }
        i += 1;
    }
    assert(full.subrange(0, full.len() as int) =~= full);
    r
}

/// The address literals of the subsets taken: all of them, or only those
/// listing port 53.
fn collect_addrs(subsets: &Vec<EndpointSubset>, only_dns: bool) -> (r: Vec<String>)
    ensures
        r@.map_values(|a: String| a@) == if only_dns {
            dns_candidates(subsets@)
        } else {
            all_addrs(subsets@)
        },
{
    let ghost goal = |p: Seq<EndpointSubset>|
        if only_dns {
            dns_candidates(p)
        } else {
            all_addrs(p)
        };
    let mut r: Vec<String> = Vec::new();
    assert(r@.map_values(|a: String| a@) =~= Seq::<Seq<char>>::empty());
    assert(goal(subsets@.subrange(0, 0)) =~= Seq::<Seq<char>>::empty());
    let mut i: usize = 0;
    while i < subsets.len()
        invariant
            i <= subsets@.len(),
            goal == (|p: Seq<EndpointSubset>|
                if only_dns {
                    dns_candidates(p)
                } else {
                    all_addrs(p)
                }),
            r@.map_values(|a: String| a@) == goal(subsets@.subrange(0, i as int)),
        decreases subsets@.len() - i,
    {
        let ghost pre = subsets@.subrange(0, i as int);
        let ghost pre1 = subsets@.subrange(0, i + 1);
        assert(pre1.drop_last() =~= pre);
        assert(pre1.last() == subsets@[i as int]);
        let sub = &subsets[i];
        let included = if only_dns {
            has_port(53, &sub.ports)
        } else {
            true
        };
        if included {
            let mut j: usize = 0;
            let ghost before = r@.map_values(|a: String| a@);
            while j < sub.addresses.len()
                invariant
                    j <= sub.addresses@.len(),
                    sub == &subsets@[i as int],
                    i < subsets@.len(),
                    r@.map_values(|a: String| a@) == before + addr_views(
                        subsets@[i as int],
                    ).subrange(0, j as int),
                decreases sub.addresses@.len() - j,
            {
                let ghost rv = r@.map_values(|a: String| a@);
                r.push(sub.addresses[j].clone());
                assert(r@.map_values(|a: String| a@) =~= rv.push(sub.addresses@[j as int]@));
                assert(addr_views(subsets@[i as int]).subrange(0, j + 1) =~= addr_views(
                    subsets@[i as int],
                ).subrange(0, j as int).push(sub.addresses@[j as int]@));
                j += 1;
            }
            assert(addr_views(subsets@[i as int]).subrange(
                0,
                addr_views(subsets@[i as int]).len() as int,
            ) =~= addr_views(subsets@[i as int]));
            assert(r@.map_values(|a: String| a@) =~= goal(pre1));
        } else {
            assert(r@.map_values(|a: String| a@) + Seq::<Seq<char>>::empty() =~= r@.map_values(
                |a: String| a@,
            ));
        }
        i += 1;
    }
    assert(subsets@.subrange(0, subsets@.len() as int) =~= subsets@);
    r
}

/// Parses every literal in order; the first malformed one fails the whole
/// list.
fn parse_all(cands: &Vec<String>) -> (r: Result<Vec<IpAddress>, ResolveError>)
    ensures
        ({
            let cs = cands@.map_values(|a: String| a@);
            match r {
                Ok(ips) => ips@.len() == cs.len() && forall|k: int|
                    0 <= k < cs.len() ==> denotes(#[trigger] cs[k], ips@[k]),
                Err(e) => e matches ResolveError::BadAddress { literal } && (exists|k: int|
                    0 <= k < cs.len() && !valid_ip(#[trigger] cs[k]) && literal@ == cs[k] && (
                    forall|j: int| 0 <= j < k ==> valid_ip(cs[j]))),
            }
        }),
{
    let ghost cs = cands@.map_values(|a: String| a@);
    let mut ips: Vec<IpAddress> = Vec::new();
    let mut k: usize = 0;
    while k < cands.len()
        invariant
            k <= cands@.len(),
            cs == cands@.map_values(|a: String| a@),
            ips@.len() == k,
            forall|m: int| 0 <= m < k ==> denotes(#[trigger] cs[m], ips@[m]),
            forall|m: int| 0 <= m < k ==> valid_ip(#[trigger] cs[m]),
        decreases cands@.len() - k,
    {
        assert(cs[k as int] == cands@[k as int]@);
        match ip::parse_ip(&cands[k]) {
            Some(a) => {
                ips.push(a);
            },
            None => {
                return Err(ResolveError::BadAddress { literal: cands[k].clone() });
            },
        }
        k += 1;
    }
    Ok(ips)
}

fn contains_i32(v: &Vec<i32>, x: i32) -> (r: bool)
    ensures
        r == v@.contains(x),
{
    let mut j: usize = 0;
    while j < v.len()
        invariant
            j <= v@.len(),
            forall|k: int| 0 <= k < j ==> v@[k] != x,
        decreases v@.len() - j,
    {
        if v[j] == x {
            assert(v@[j as int] == x);
            return true;
        }
        j += 1;
    }
    false
}

/// The distinct ports the subsets list, first occurrences in order.
fn distinct_ports(subsets: &Vec<EndpointSubset>) -> (r: Vec<i32>)
    ensures
        r@ == dedup(ports_list(subsets@)),
{
    let mut r: Vec<i32> = Vec::new();
    assert(ports_list(subsets@.subrange(0, 0)) =~= Seq::<i32>::empty());
    assert(r@ =~= dedup(Seq::<i32>::empty()));
    let mut i: usize = 0;
    while i < subsets.len()
        invariant
            i <= subsets@.len(),
            r@ == dedup(ports_list(subsets@.subrange(0, i as int))),
        decreases subsets@.len() - i,
    {
        let ghost pre = subsets@.subrange(0, i as int);
        let ghost pre1 = subsets@.subrange(0, i + 1);
        assert(pre1.drop_last() =~= pre);
        assert(pre1.last() == subsets@[i as int]);
        let sub = &subsets[i];
        let mut j: usize = 0;
        while j < sub.ports.len()
            invariant
                j <= sub.ports@.len(),
                sub == &subsets@[i as int],
                i < subsets@.len(),
                pre == subsets@.subrange(0, i as int),
                r@ == dedup(ports_list(pre) + subsets@[i as int].ports@.subrange(0, j as int)),
            decreases sub.ports@.len() - j,
        {
            let ghost sofar = ports_list(pre) + subsets@[i as int].ports@.subrange(0, j as int);
            let ghost sofar1 = ports_list(pre) + subsets@[i as int].ports@.subrange(0, j + 1);
            assert(sofar1.drop_last() =~= sofar);
            assert(sofar1.last() == sub.ports@[j as int]);
            proof {
                lemma_dedup_contains(sofar, sub.ports@[j as int]);
            }
            let p = sub.ports[j];
            if !contains_i32(&r, p) {
                r.push(p);
            }
            j += 1;
        }
        assert(subsets@[i as int].ports@.subrange(0, subsets@[i as int].ports@.len() as int)
            =~= subsets@[i as int].ports@);
        assert(ports_list(pre) + subsets@[i as int].ports@ =~= ports_list(pre1));
        i += 1;
    }
    assert(subsets@.subrange(0, subsets@.len() as int) =~= subsets@);
    r
}

/// The cluster DNS servers an `Endpoints` object announces: across the
/// subsets that list port 53, every address, deduplicated in arrival
/// order; the first malformed literal fails the whole lookup.
pub fn find_dns(subsets: &Vec<EndpointSubset>) -> (r: Result<Vec<IpAddress>, ResolveError>)
    ensures
        ({
            let cands = dedup(dns_candidates(subsets@));
            match r {
                Ok(ips) => ips@.len() == cands.len() && forall|k: int|
                    0 <= k < cands.len() ==> denotes(#[trigger] cands[k], ips@[k]),
                Err(e) => e matches ResolveError::BadAddress { literal } && (exists|k: int|
                    0 <= k < cands.len() && !valid_ip(#[trigger] cands[k]) && literal@ == cands[k]
                    && (forall|j: int| 0 <= j < k ==> valid_ip(cands[j]))),
            }
        }),
{
    let cands = collect_addrs(subsets, true);
    let unique = dedup_strings(cands);
    parse_all(&unique)
}

/// The endpoints resolver's policy, applied to a fetched `Endpoints`
/// object: one target per subset address, in order; their shared port is
/// the single distinct endpoint port when exactly one exists, and the
/// caller's port otherwise; no ports or no addresses at all is an empty
/// result.
pub fn resolve_endpoints(subsets: &Vec<EndpointSubset>, specified_port: u16) -> (r: Result<
    Vec<Target>,
    ResolveError,
>)
    ensures
        ({
            let cands = all_addrs(subsets@);
            let dports = dedup(ports_list(subsets@));
            match r {
                Ok(ts) => {
                    &&& forall|k: int| 0 <= k < cands.len() ==> valid_ip(#[trigger] cands[k])
                    &&& if cands.len() == 0 || dports.len() == 0 {
                        ts@.len() == 0
                    } else {
                        let chosen = if dports.len() == 1 {
                            dports[0] as u16
                        } else {
                            specified_port
                        };
                        &&& ts@.len() == cands.len()
                        &&& forall|k: int|
                            0 <= k < cands.len() ==> denotes(#[trigger] cands[k], ts@[k].ip)
                        &&& forall|k: int|
                            0 <= k < ts@.len() ==> (#[trigger] ts@[k]).port == chosen
                        &&& dports.len() == 1 ==> 0 <= dports[0] <= 65535
                    }
                },
                Err(e) => match e {
                    ResolveError::BadAddress { literal } => exists|k: int|
                        0 <= k < cands.len() && !valid_ip(#[trigger] cands[k]) && literal@
                            == cands[k] && (forall|j: int| 0 <= j < k ==> valid_ip(cands[j])),
                    ResolveError::BadPort { port } => {
                        &&& forall|k: int| 0 <= k < cands.len() ==> valid_ip(#[trigger] cands[k])
                        &&& cands.len() > 0
                        &&& dports.len() == 1
                        &&& port == dports[0]
                        &&& !(0 <= port <= 65535)
                    },
                    _ => false,
                },
            }
        }),
{
    let cands = collect_addrs(subsets, false);
    let ips = match parse_all(&cands) {
        Ok(ips) => ips,
        Err(e) => {
            return Err(e);
        },
    };
    let dports = distinct_ports(subsets);
    if dports.len() == 0 || ips.len() == 0 {
        return Ok(Vec::new());
    }
    let port: u16 = if dports.len() == 1 {
        let p = dports[0];
        if p < 0 || p > 65535 {
            return Err(ResolveError::BadPort { port: p });
        }
        p as u16
    } else {
        specified_port
    };
    let mut ts: Vec<Target> = Vec::new();
    let mut k: usize = 0;
    while k < ips.len()
        invariant
            k <= ips@.len(),
            ts@.len() == k,
            forall|m: int| 0 <= m < k ==> (#[trigger] ts@[m]).ip == ips@[m],
            forall|m: int| 0 <= m < k ==> (#[trigger] ts@[m]).port == port,
        decreases ips@.len() - k,
    {
        ts.push(Target { ip: ips[k], port });
        k += 1;
    }
    Ok(ts)
}

/// Every resolved address paired with the client's port, in order.
pub fn pair_with_port(ips: Vec<IpAddress>, port: u16) -> (r: Vec<Target>)
    ensures
        r@.len() == ips@.len(),
        forall|k: int| 0 <= k < ips@.len() ==> (#[trigger] r@[k]).ip == ips@[k] && r@[k].port
            == port,
{
    let mut r: Vec<Target> = Vec::new();
    let mut k: usize = 0;
    while k < ips.len()
        invariant
            k <= ips@.len(),
            r@.len() == k,
            forall|m: int| 0 <= m < k ==> (#[trigger] r@[m]).ip == ips@[m] && r@[m].port == port,
        decreases ips@.len() - k,
    {
        r.push(Target { ip: ips[k], port });
        k += 1;
    }
    r
}

} // verus!
