//! Virtual hosts: which addresses to listen on, and which host answers a request.
use vstd::prelude::*;

use crate::response::utf8;
use crate::wire::{decimal, decimal_bytes, push_all};

verus! {

/// A virtual host: its name (a glob matched against requests), the address
/// it listens on, its certificate and key when it serves TLS, the directory
/// it serves, and whether it answers requests no other host matches.
#[derive(Debug)]
pub struct Vhost {
    pub name: String,
    pub ip: String,
    pub port: u16,
    pub is_ipv6: bool,
    pub cert_key: Option<String>,
    pub private_key: Option<String>,
    pub root_dir: String,
    pub is_default: Option<bool>,
}

/// Whether a host serves TLS: it has both a certificate and a private key.
pub open spec fn vhost_is_tls(v: Vhost) -> bool {
    v.cert_key is Some && v.private_key is Some
}

impl Vhost {
    /// Whether the host serves TLS (see `vhost_is_tls`).
    pub fn is_tls(&self) -> (r: bool)
        ensures
            r == vhost_is_tls(*self),
    {
        self.cert_key.is_some() && self.private_key.is_some()
    }
}

/// The address a host listens on: `ip:port`, or `[ip]:port` for IPv6.
pub open spec fn listen_address(v: Vhost) -> Seq<u8> {
    let port = seq![58u8] + decimal(v.port as nat);
    if v.is_ipv6 {
        seq![91u8] + utf8(v.ip@) + seq![93u8] + port
    } else {
        utf8(v.ip@) + port
    }
}

/// Whether an earlier host than the `i`-th listens on the same address.
pub open spec fn address_seen(vs: Seq<Vhost>, i: int) -> bool {
    exists|j: int| 0 <= j < i && listen_address(#[trigger] vs[j]) == listen_address(vs[i])
}

/// The listeners to start, in order: for each address, the first host that
/// listens on it (the listener serves TLS when that host does), with the
/// host's index.
pub open spec fn listener_plan(vs: Seq<Vhost>) -> Seq<(Seq<u8>, bool, int)>
    decreases vs.len(),
{
    if vs.len() == 0 {
        seq![]
    } else {
        let i = vs.len() - 1;
        let rest = listener_plan(vs.drop_last());
        if address_seen(vs, i) {
            rest
        } else {
            rest.push((listen_address(vs[i]), vhost_is_tls(vs[i]), i))
        }
    }
}

/// A listener to start: its address, whether it serves TLS, and the host it was started for.
#[derive(Debug)]
pub struct Listener {
    pub address: Vec<u8>,
    pub tls: bool,
    pub vhost: usize,
}

/// The virtual hosts of the server.
#[derive(Debug)]
pub struct VhostManager {
    vhosts: Vec<Vhost>,
}

/// What `fnmatch_regex::glob_to_regex(pattern)` then `is_match(text)` says:
/// `None` when the pattern is not a valid glob.
pub uninterp spec fn glob_match(pattern: Seq<char>, text: Seq<char>) -> Option<bool>;

/// `fnmatch_regex::glob_to_regex` of a pattern, then `Regex::is_match` of a
/// text: `None` when the pattern is not a valid glob. The outcome depends on
/// the two texts alone and is named `glob_match`.
#[verifier::external_body]
fn glob_matches(pattern: &str, text: &str) -> (r: Option<bool>)
    ensures
        r == glob_match(pattern@, text@),
{
    match fnmatch_regex::glob_to_regex(pattern) {
        Ok(re) => Some(re.is_match(text)),
        Err(_) => None,
    }
}

/// Whether a host name pattern matches a text (see `glob_match`).
pub(crate) fn glob_matches_of(pattern: &str, text: &str) -> (r: Option<bool>)
    ensures
        r == glob_match(pattern@, text@),
{
    glob_matches(pattern, text)
}

/// The bytes of the address a host listens on (see `listen_address`).
fn address_bytes(v: &Vhost) -> (r: Vec<u8>)
    ensures
        r@ == listen_address(*v),
{
    let mut out: Vec<u8> = Vec::new();
    if v.is_ipv6 {
        out.push(91);
    }
    push_all(&mut out, v.ip.as_str().as_bytes());
    if v.is_ipv6 {
        out.push(93);
    }
    out.push(58);
    let port = decimal_bytes(v.port as u64);
    push_all(&mut out, port.as_slice());
    assert(out@ =~= listen_address(*v));
    out
}

/// A list of listeners, by value.
pub open spec fn listeners_view(ls: Seq<Listener>) -> Seq<(Seq<u8>, bool, int)> {
    ls.map_values(|l: Listener| (l.address@, l.tls, l.vhost as int))
}

/// Whether some listener of the plan is on address `a`.
pub open spec fn has_listener(p: Seq<(Seq<u8>, bool, int)>, a: Seq<u8>) -> bool {
    exists|k: int| 0 <= k < p.len() && (#[trigger] p[k]).0 == a
}

/// Each listener of the plan is for a host of the list, on its address.
pub proof fn lemma_listener_plan_hosts(vs: Seq<Vhost>)
    ensures
        forall|k: int|
            0 <= k < listener_plan(vs).len() ==> 0 <= (#[trigger] listener_plan(vs)[k]).2 < vs.len()
                && listener_plan(vs)[k].0 == listen_address(vs[listener_plan(vs)[k].2]),
    decreases vs.len(),
{
    if vs.len() > 0 {
        let pre = vs.drop_last();
        lemma_listener_plan_hosts(pre);
        let rest = listener_plan(pre);
        let p = listener_plan(vs);
        assert forall|k: int| 0 <= k < p.len() implies 0 <= (#[trigger] p[k]).2 < vs.len() && p[k].0
            == listen_address(vs[p[k].2]) by {
            if k < rest.len() {
                assert(p[k] == rest[k]);
                assert(pre[rest[k].2] == vs[rest[k].2]);
            }
        }
    }
}

/// The address of each host of the list has a listener in the plan.
pub proof fn lemma_listener_plan_covers(vs: Seq<Vhost>)
    ensures
        forall|j: int| 0 <= j < vs.len() ==> has_listener(listener_plan(vs), listen_address(#[trigger] vs[j])),
    decreases vs.len(),
{
    if vs.len() > 0 {
        let i = vs.len() - 1;
        let pre = vs.drop_last();
        lemma_listener_plan_covers(pre);
        let rest = listener_plan(pre);
        let p = listener_plan(vs);
        assert forall|k: int| 0 <= k < rest.len() implies #[trigger] p[k] == rest[k] by {}
        assert forall|j: int| 0 <= j < vs.len() implies has_listener(p, listen_address(#[trigger] vs[j])) by {
            if j < i {
                assert(pre[j] == vs[j]);
                assert(has_listener(rest, listen_address(pre[j])));
                let k = choose|k: int| 0 <= k < rest.len() && (#[trigger] rest[k]).0 == listen_address(pre[j]);
                assert(p[k] == rest[k]);
            } else if address_seen(vs, i) {
                let j2 = choose|j2: int| 0 <= j2 < i && listen_address(#[trigger] vs[j2]) == listen_address(vs[i]);
                assert(pre[j2] == vs[j2]);
                assert(has_listener(rest, listen_address(pre[j2])));
                let k = choose|k: int| 0 <= k < rest.len() && (#[trigger] rest[k]).0 == listen_address(pre[j2]);
                assert(p[k] == rest[k]);
            } else {
                assert(p[p.len() - 1].0 == listen_address(vs[j]));
            }
        }
    }
}

/// No two listeners of the plan are on the same address, and they come in
/// the order of their hosts.
pub proof fn lemma_listener_plan_distinct(vs: Seq<Vhost>)
    ensures
        forall|a: int, b: int|
            0 <= a < b < listener_plan(vs).len() ==> (#[trigger] listener_plan(vs)[a]).0 != (
            #[trigger] listener_plan(vs)[b]).0 && listener_plan(vs)[a].2 < listener_plan(vs)[b].2,
    decreases vs.len(),
{
    if vs.len() > 0 {
        let i = vs.len() - 1;
        let pre = vs.drop_last();
        lemma_listener_plan_distinct(pre);
        lemma_listener_plan_hosts(pre);
        let rest = listener_plan(pre);
        let p = listener_plan(vs);
        if !address_seen(vs, i) {
            assert forall|a: int, b: int| 0 <= a < b < p.len() implies (#[trigger] p[a]).0 != (#[trigger] p[b]).0
                && p[a].2 < p[b].2 by {
                if b == p.len() - 1 {
                    let j = rest[a].2;
                    assert(p[a] == rest[a]);
                    assert(pre[j] == vs[j]);
                    assert(0 <= j < i);
                    if p[a].0 == p[b].0 {
                        assert(listen_address(vs[j]) == listen_address(vs[i]));
                        assert(address_seen(vs, i));
                    }
                } else {
                    assert(p[a] == rest[a]);
                    assert(p[b] == rest[b]);
                }
            }
        }
    }
}

impl VhostManager {
    /// The hosts of a configuration.
    pub fn from_vhosts(vhosts: Vec<Vhost>) -> (r: Self)
        ensures
            r.spec_vhosts() == vhosts@,
    {
        Self { vhosts }
    }

    /// The hosts, in order.
    pub closed spec fn spec_vhosts(&self) -> Seq<Vhost> {
        self.vhosts@
    }

    /// The listeners to start (see `listener_plan`): one per address, for the
    /// first host on it.
    pub fn init_listeners(&self) -> (r: Vec<Listener>)
        ensures
            listeners_view(r@) == listener_plan(self.spec_vhosts()),
    {
        let mut out: Vec<Listener> = Vec::new();
        let mut i: usize = 0;
        assert(listeners_view(out@) =~= listener_plan(self.vhosts@.subrange(0, 0)));
        while i < self.vhosts.len()
            invariant
                i <= self.vhosts@.len(),
                listeners_view(out@) == listener_plan(self.vhosts@.subrange(0, i as int)),
            decreases self.vhosts@.len() - i,
        {
            let addr = address_bytes(&self.vhosts[i]);
            let ghost pre = self.vhosts@.subrange(0, i as int);
            let ghost vs = self.vhosts@.subrange(0, i + 1);
            let ghost plan = listener_plan(pre);
            assert(vs.drop_last() =~= pre);
            assert(vs[i as int] == self.vhosts@[i as int]);
            proof {
                lemma_listener_plan_hosts(pre);
                lemma_listener_plan_covers(pre);
            }
            let mut seen = false;
            let mut k: usize = 0;
            while k < out.len()
                invariant
                    k <= out@.len(),
                    listeners_view(out@) == plan,
                    !seen ==> forall|m: int| 0 <= m < k ==> (#[trigger] plan[m]).0 != addr@,
                    seen ==> exists|m: int| 0 <= m < plan.len() && (#[trigger] plan[m]).0 == addr@,
                decreases out@.len() - k,
            {
                assert(plan[k as int].0 == out@[k as int].address@);
                if crate::wire::bytes_eq(out[k].address.as_slice(), addr.as_slice()) {
                    seen = true;
                }
                k = k + 1;
            }
            proof {
                if seen {
                    let m = choose|m: int| 0 <= m < plan.len() && (#[trigger] plan[m]).0 == addr@;
                    let j = plan[m].2;
                    assert(pre[j] == vs[j]);
                    assert(address_seen(vs, i as int));
                } else {
                    if address_seen(vs, i as int) {
                        let j = choose|j: int| 0 <= j < i && listen_address(#[trigger] vs[j]) == listen_address(vs[i as int]);
                        assert(pre[j] == vs[j]);
                        assert(has_listener(plan, listen_address(pre[j])));
                        let m = choose|m: int| 0 <= m < plan.len() && (#[trigger] plan[m]).0 == listen_address(pre[j]);
                        assert(false);
                    }
                }
            }
            if !seen {
                let tls = self.vhosts[i].is_tls();
                out.push(Listener { address: addr, tls, vhost: i });
                assert(listeners_view(out@) =~= listener_plan(vs));
            }
            i = i + 1;
        }
        assert(self.vhosts@.subrange(0, self.vhosts@.len() as int) =~= self.vhosts@);
        out
    }
}

} // verus!
