//! Hostname routing: the virtual TLD grammar and the cluster search list.

use vstd::prelude::*;
use vstd::string::StringExecFns;
use crate::ip::IpAddress;
use crate::text::{self, split_on, views};

verus! {

/// The configuration snapshot each worker gets: the cluster DNS suffix,
/// the namespace assumed when a hostname names none, and the cluster DNS
/// servers found at startup. The Kubernetes API handle stays outside the
/// library, beside the transport that uses it.
pub struct ResolveCtx {
    pub cluster_local: String,
    pub default_namespace: String,
    pub dns_servers: Vec<IpAddress>,
}

/// A character allowed in a hostname label: a letter, a digit or a hyphen.
pub open spec fn is_label_char(c: char) -> bool {
    (97 <= c as u32 <= 122) || (65 <= c as u32 <= 90) || (48 <= c as u32 <= 57) || c as u32 == 45
}

/// A label of the virtual grammar: one to sixty-three such characters.
pub open spec fn is_label(s: Seq<char>) -> bool {
    &&& 1 <= s.len() <= 63
    &&& forall|i: int| 0 <= i < s.len() ==> is_label_char(#[trigger] s[i])
}

/// The kinds the virtual TLD reserves.
#[derive(Clone, Copy, Debug, PartialEq, Eq, Structural)]
pub enum VirtualKind {
    Endpoints,
    Pod,
    PodByName,
}

/// The virtual kind a label names, if any.
pub open spec fn kind_of(s: Seq<char>) -> Option<VirtualKind> {
    if s == "endpoints"@ {
        Some(VirtualKind::Endpoints)
    } else if s == "pod"@ {
        Some(VirtualKind::Pod)
    } else if s == "pod-by-name"@ {
        Some(VirtualKind::PodByName)
    } else {
        None
    }
}

/// What a hostname means under the virtual grammar
/// `name[.namespace].kind.local[.]`: the service name, the namespace where
/// one is given, and the kind.
pub open spec fn virtual_parse(s: Seq<char>) -> Option<
    (Seq<char>, Option<Seq<char>>, VirtualKind),
> {
    let t = if s.len() > 0 && s.last() == '.' {
        s.drop_last()
    } else {
        s
    };
    let parts = split_on(t, '.');
    if parts.len() == 3 {
        if is_label(parts[0]) && parts[2] == "local"@ {
            match kind_of(parts[1]) {
                Some(k) => Some((parts[0], None, k)),
                None => None,
            }
        } else {
            None
        }
    } else if parts.len() == 4 {
        if is_label(parts[0]) && is_label(parts[1]) && parts[3] == "local"@ {
            match kind_of(parts[2]) {
                Some(k) => Some((parts[0], Some(parts[1]), k)),
                None => None,
            }
        } else {
            None
        }
    } else {
        None
    }
}

/// Whether the characters spell the given string.
fn chars_eq_str(p: &Vec<char>, s: &str) -> (r: bool)
    ensures
        r == (p@ == s@),
{
    let ps = text::chars_string(p);
    ps == String::from_str(s)
}

/// Whether the characters form one label of the virtual grammar.
fn is_label_vec(p: &Vec<char>) -> (r: bool)
    ensures
        r == is_label(p@),
{
    if p.len() == 0 || p.len() > 63 {
        return false;
    }
    let mut i: usize = 0;
    while i < p.len()
        invariant
            i <= p@.len(),
            forall|j: int| 0 <= j < i ==> is_label_char(#[trigger] p@[j]),
        decreases p@.len() - i,
    {
        let c = p[i];
        let v = c as u32;
        if !((v >= 97 && v <= 122) || (v >= 65 && v <= 90) || (v >= 48 && v <= 57) || v == 45) {
            assert(!is_label_char(p@[i as int]));
            return false;
        }
        i += 1;
    }
    true
}

fn kind_of_vec(p: &Vec<char>) -> (r: Option<VirtualKind>)
    ensures
        r == kind_of(p@),
{
    if chars_eq_str(p, "endpoints") {
        Some(VirtualKind::Endpoints)
    } else if chars_eq_str(p, "pod") {
        Some(VirtualKind::Pod)
    } else if chars_eq_str(p, "pod-by-name") {
        Some(VirtualKind::PodByName)
    } else {
        None
    }
}

/// A hostname matched against the virtual grammar.
pub struct VirtualHost {
    pub name: String,
    pub namespace: Option<String>,
    pub kind: VirtualKind,
}

/// Matches a hostname against the virtual grammar.
pub fn match_virtual(hostname: &str) -> (r: Option<VirtualHost>)
    ensures
        match virtual_parse(hostname@) {
            None => r is None,
            Some(v) => r matches Some(vh) && vh.name@ == v.0 && vh.kind == v.2 && (match v.1 {
                None => vh.namespace is None,
                Some(ns) => vh.namespace matches Some(x) && x@ == ns,
            }),
        },
{
    let full = text::str_chars(hostname);
    let cs = if full.len() > 0 && full[full.len() - 1] == '.' {
        let trimmed = text::subvec(&full, 0, full.len() - 1);
        assert(trimmed@ =~= hostname@.drop_last());
        trimmed
    } else {
        full
    };
    let parts = text::split_chars(&cs, '.');
    let ghost sp = split_on(cs@, '.');
    if parts.len() == 3 {
        assert(forall|k: int| 0 <= k < 3 ==> sp[k] == #[trigger] parts@[k]@);
        if !is_label_vec(&parts[0]) || !chars_eq_str(&parts[2], "local") {
            return None;
        }
        match kind_of_vec(&parts[1]) {
            None => None,
            Some(kind) => Some(
                VirtualHost { name: text::chars_string(&parts[0]), namespace: None, kind },
            ),
        }
    } else if parts.len() == 4 {
        assert(forall|k: int| 0 <= k < 4 ==> sp[k] == #[trigger] parts@[k]@);
        if !is_label_vec(&parts[0]) || !is_label_vec(&parts[1]) || !chars_eq_str(
            &parts[3],
            "local",
        ) {
            return None;
        }
        match kind_of_vec(&parts[2]) {
            None => None,
            Some(kind) => Some(
                VirtualHost {
                    name: text::chars_string(&parts[0]),
                    namespace: Some(text::chars_string(&parts[1])),
                    kind,
                },
            ),
        }
    } else {
        None
    }
}

/// Where a hostname resolves.
pub enum Route {
    /// Ask the Kubernetes API for the endpoints of `name` in `namespace`;
    /// no DNS query is made for such a hostname.
    Endpoints { namespace: String, name: String },
    /// A reserved virtual kind: fail as not implemented.
    Reserved,
    /// Ask cluster DNS for the hostname itself; no Kubernetes API call is
    /// made for such a hostname.
    Dns,
}

/// Picks the resolution path for a hostname. A hostname matching the
/// virtual grammar goes to the Kubernetes API, with the default namespace
/// when it names none, and never to DNS; its reserved kinds fail; every
/// other hostname goes to cluster DNS and never to the API.
pub fn route(hostname: &str, default_namespace: &String) -> (r: Route)
    ensures
        match virtual_parse(hostname@) {
            None => r is Dns,
            Some(v) => if v.2 == VirtualKind::Endpoints {
                r matches Route::Endpoints { namespace, name } && name@ == v.0 && namespace@ == (
                match v.1 {
                    Some(ns) => ns,
                    None => default_namespace@,
                })
            } else {
                r is Reserved
            },
        },
{
    match match_virtual(hostname) {
        None => Route::Dns,
        Some(vh) => match vh.kind {
            VirtualKind::Endpoints => {
                let namespace = match vh.namespace {
                    Some(ns) => ns,
                    None => default_namespace.clone(),
                };
                Route::Endpoints { namespace, name: vh.name }
            },
            _ => Route::Reserved,
        },
    }
}

/// The DNS search list, added once in all: the default namespace's service
/// domain, the cluster's service domain, and the cluster suffix itself.
pub fn search_list(ctx: &ResolveCtx) -> (r: Vec<String>)
    ensures
        r@.len() == 3,
        r@[0]@ == ctx.default_namespace@ + ".svc."@ + ctx.cluster_local@,
        r@[1]@ == "svc."@ + ctx.cluster_local@,
        r@[2]@ == ctx.cluster_local@,
{
    let mut r: Vec<String> = Vec::new();
    let first = ctx.default_namespace.clone().concat(".svc.").concat(ctx.cluster_local.as_str());
    r.push(first);
    let second = String::from_str("svc.").concat(ctx.cluster_local.as_str());
    r.push(second);
    r.push(ctx.cluster_local.clone());
    r
}

} // verus!
