//! Startup reconciliation: the plan that forces the kernel's peer set, host
//! routes and the IP cursor to match the stored configs.

use vstd::prelude::*;

use crate::configs::Config;
use crate::wireguard::{
    adds_host_peer, apply_peer, apply_peers, apply_update, host_cidr, IpCidr, PeerSet, PeerUpdate,
    WireguardUpdate,
};

verus! {

/// The configs that are not deleted, in stored order.
pub open spec fn live(cs: Seq<Config>) -> Seq<Config>
    decreases cs.len(),
{
    if cs.len() == 0 {
        seq![]
    } else if cs.last().deleted {
        live(cs.drop_last())
    } else {
        live(cs.drop_last()).push(cs.last())
    }
}

/// The addresses of the configs that are not deleted, in stored order.
pub open spec fn live_ips(cs: Seq<Config>) -> Seq<u32>
    decreases cs.len(),
{
    if cs.len() == 0 {
        seq![]
    } else if cs.last().deleted {
        live_ips(cs.drop_last())
    } else {
        live_ips(cs.drop_last()).push(cs.last().ip)
    }
}

/// The addresses of the configs that are not deleted and whose double-VPN
/// setting is on (their address is listed in `on`), in stored order.
pub open spec fn live_rule_ips(cs: Seq<Config>, on: Seq<u32>) -> Seq<u32>
    decreases cs.len(),
{
    if cs.len() == 0 {
        seq![]
    } else if cs.last().deleted || !on.contains(cs.last().ip) {
        live_rule_ips(cs.drop_last(), on)
    } else {
        live_rule_ips(cs.drop_last(), on).push(cs.last().ip)
    }
}

/// The peer set that the stored configs ask for: each config that is not
/// deleted, by its public key, with the single allowed network `ip/32`.
pub open spec fn desired_peers(cs: Seq<Config>) -> PeerSet
    decreases cs.len(),
{
    if cs.len() == 0 {
        Map::empty()
    } else if cs.last().deleted {
        desired_peers(cs.drop_last())
    } else {
        desired_peers(cs.drop_last()).insert(cs.last().pub_key@, set![host_cidr(cs.last().ip)])
    }
}

/// Whether the configs that are not deleted have pairwise distinct public keys.
pub open spec fn live_keys_unique(cs: Seq<Config>) -> bool {
    forall|i: int, j: int|
        0 <= i < live(cs).len() && 0 <= j < live(cs).len() && i != j ==> (#[trigger] live(
            cs,
        )[i]).pub_key@ != (#[trigger] live(cs)[j]).pub_key@
}

/// Whether `ps` adds, in order, one peer for each config that is not deleted.
pub open spec fn restores_live(ps: Seq<PeerUpdate>, cs: Seq<Config>) -> bool {
    &&& ps.len() == live(cs).len()
    &&& forall|i: int|
        0 <= i < ps.len() ==> adds_host_peer(#[trigger] ps[i], live(cs)[i].pub_key@, live(cs)[i].ip)
}

/// The work of a startup reconciliation.
#[derive(Debug)]
pub struct InitPlan {
    /// Addresses whose host route is restored, best effort.
    pub routes: Vec<u32>,
    /// Addresses whose double-VPN rule is restored, best effort.
    pub rules: Vec<u32>,
    /// The single update that replaces the kernel's peer set.
    pub update: WireguardUpdate,
    /// How far the IP cursor advances: the number of all stored configs.
    pub advance: usize,
}

/// Whether `v` lists `x`.
fn lists(v: &Vec<u32>, x: u32) -> (r: bool)
    ensures
        r == v@.contains(x),
{
    let mut i: usize = 0;
    while i < v.len()
        invariant
            i <= v@.len(),
            forall|j: int| 0 <= j < i ==> v@[j] != x,
        decreases v@.len() - i,
    {
        if v[i] == x {
            return true;
        }
        i = i + 1;
    }
    false
}

/// Plans the startup reconciliation for the stored configs; `double_vpn`
/// lists the addresses whose double-VPN setting is on.
pub fn init_plan(configs: &Vec<Config>, double_vpn: &Vec<u32>) -> (r: InitPlan)
    ensures
        r.update.replace_peers,
        restores_live(r.update.peers@, configs@),
        r.routes@ == live_ips(configs@),
        r.rules@ == live_rule_ips(configs@, double_vpn@),
        r.advance == configs@.len(),
{
    let mut peers: Vec<PeerUpdate> = Vec::new();
    let mut routes: Vec<u32> = Vec::new();
    let mut rules: Vec<u32> = Vec::new();
    let mut i: usize = 0;
    while i < configs.len()
        invariant
            i <= configs@.len(),
            restores_live(peers@, configs@.take(i as int)),
            routes@ == live_ips(configs@.take(i as int)),
            rules@ == live_rule_ips(configs@.take(i as int), double_vpn@),
        decreases configs@.len() - i,
    {
        let c = &configs[i];
        let ghost cs = configs@.take(i + 1);
        proof {
            assert(cs.drop_last() =~= configs@.take(i as int));
            assert(cs.last() == configs@[i as int]);
        }
        if !c.deleted {
            let mut ips: Vec<IpCidr> = Vec::new();
            ips.push(IpCidr::new_host(c.ip));
            proof {
                assert(ips@ =~= seq![host_cidr(c.ip)]);
            }
            peers.push(PeerUpdate { public_key: Some(c.pub_key), allowed_ips: Some(ips), remove: false });
            routes.push(c.ip);
            if lists(double_vpn, c.ip) {
                rules.push(c.ip);
            }
            proof {
                assert forall|j: int| 0 <= j < peers@.len() implies adds_host_peer(
                    #[trigger] peers@[j],
                    live(cs)[j].pub_key@,
                    live(cs)[j].ip,
                ) by {
                    if j < peers@.len() - 1 {
                        assert(live(cs)[j] == live(configs@.take(i as int))[j]);
                    }
                }
            }
        }
        i = i + 1;
    }
    proof {
        assert(configs@.take(configs@.len() as int) =~= configs@);
    }
    InitPlan { routes, rules, update: WireguardUpdate { replace_peers: true, peers }, advance: configs.len() }
}

/// Every key of the desired peer set belongs to a config that is not deleted.
proof fn lemma_desired_keys(cs: Seq<Config>, k: Seq<u8>)
    requires
        desired_peers(cs).contains_key(k),
    ensures
        exists|i: int| 0 <= i < live(cs).len() && (#[trigger] live(cs)[i]).pub_key@ == k,
    decreases cs.len(),
{
    let rest = cs.drop_last();
    if cs.last().deleted {
        lemma_desired_keys(rest, k);
    } else if k == cs.last().pub_key@ {
        assert(live(cs)[live(cs).len() - 1].pub_key@ == k);
    } else {
        lemma_desired_keys(rest, k);
        let i = choose|i: int| 0 <= i < live(rest).len() && (#[trigger] live(rest)[i]).pub_key@ == k;
        assert(live(cs)[i] == live(rest)[i]);
    }
}

/// Adding the restoring peers to an empty peer set yields the desired set.
proof fn lemma_restore_from_empty(ps: Seq<PeerUpdate>, cs: Seq<Config>)
    requires
        restores_live(ps, cs),
        live_keys_unique(cs),
    ensures
        apply_peers(Map::empty(), ps) == desired_peers(cs),
    decreases cs.len(),
{
    if cs.len() == 0 {
        assert(ps.len() == 0);
    } else {
        let rest = cs.drop_last();
        if cs.last().deleted {
            assert(live(cs) == live(rest));
            lemma_restore_from_empty(ps, rest);
        } else {
            let c = cs.last();
            assert(live(cs) == live(rest).push(c));
            let n = live(rest).len() as int;
            assert(ps.drop_last().len() == n);
            assert forall|i: int| 0 <= i < ps.drop_last().len() implies adds_host_peer(
                #[trigger] ps.drop_last()[i],
                live(rest)[i].pub_key@,
                live(rest)[i].ip,
            ) by {
                assert(ps.drop_last()[i] == ps[i]);
                assert(live(cs)[i] == live(rest)[i]);
            }
            assert forall|i: int, j: int|
                0 <= i < live(rest).len() && 0 <= j < live(rest).len() && i != j implies (
                #[trigger] live(rest)[i]).pub_key@ != (#[trigger] live(rest)[j]).pub_key@ by {
                assert(live(cs)[i] == live(rest)[i]);
                assert(live(cs)[j] == live(rest)[j]);
            }
            lemma_restore_from_empty(ps.drop_last(), rest);
            let before = desired_peers(rest);
            if before.contains_key(c.pub_key@) {
                lemma_desired_keys(rest, c.pub_key@);
                let i = choose|i: int| 0 <= i < live(rest).len() && (#[trigger] live(rest)[i]).pub_key@ == c.pub_key@;
                assert(live(cs)[i] == live(rest)[i]);
                assert(live(cs)[n] == c);
                assert(false);
            }
            let p = ps.last();
            assert(p == ps[n]);
            assert(live(cs)[n] == c);
            assert(adds_host_peer(ps[n], live(cs)[n].pub_key@, live(cs)[n].ip));
            lemma_listed_host(p, c.pub_key@, c.ip);
            assert(Set::<IpCidr>::empty().union(set![host_cidr(c.ip)]) =~= set![host_cidr(c.ip)]);
            assert(ps.drop_last().push(p) =~= ps);
            assert(apply_peer(before, p) =~= before.insert(c.pub_key@, set![host_cidr(c.ip)]));
        }
    }
}

/// The allowed IPs listed by a host peer update are exactly its `ip/32`.
proof fn lemma_listed_host(p: PeerUpdate, key: Seq<u8>, ip: u32)
    requires
        adds_host_peer(p, key, ip),
    ensures
        crate::wireguard::listed_ips(p) == set![host_cidr(ip)],
{
    let v = p.allowed_ips.unwrap()@;
    assert(v[0] == host_cidr(ip));
    assert(v.to_set() =~= set![host_cidr(ip)]);
}

/// Peer-set convergence: whatever peers the kernel had before, the update of a
/// startup reconciliation leaves exactly one peer per config that is not
/// deleted, keyed by its public key, with the single allowed network `ip/32`.
/// Stored configs that are not deleted have distinct public keys.
pub proof fn lemma_init_converges(kernel: PeerSet, configs: Seq<Config>, update: WireguardUpdate)
    requires
        update.replace_peers,
        restores_live(update.peers@, configs),
        live_keys_unique(configs),
    ensures
        apply_update(kernel, update) == desired_peers(configs),
{
    lemma_restore_from_empty(update.peers@, configs);
}

} // verus!
