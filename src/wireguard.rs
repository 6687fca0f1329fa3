//! WireGuard device and peer records as the kernel reports them, and the
//! updates that are sent to it.

use vstd::prelude::*;

verus! {

/// Length of a WireGuard key in bytes.
pub const WG_KEY_LEN: usize = 32;

/// An IP network: its first address as an integer (most significant octet
/// first) and its prefix length.
#[derive(Debug, Clone, Copy, PartialEq, Eq, Structural)]
pub enum IpCidr {
    V4(u32, u8),
    V6(u128, u8),
}

/// The single-host IPv4 network `addr/32`.
pub open spec fn host_cidr(addr: u32) -> IpCidr {
    IpCidr::V4(addr, 32)
}

impl IpCidr {
    /// The single-host IPv4 network `addr/32`.
    pub fn new_host(addr: u32) -> (r: IpCidr)
        ensures
            r == host_cidr(addr),
    {
        IpCidr::V4(addr, 32)
    }
}

/// A socket address of a peer's endpoint; addresses as integers, most
/// significant octet first.
#[derive(Debug, Clone, Copy, PartialEq, Eq, Structural)]
pub enum Endpoint {
    V4(u32, u16),
    V6(u128, u16),
}

/// Selects the managed interface by name or by kernel index.
#[derive(Debug)]
pub enum WireguardInterfaceId {
    Name(String),
    Index(u32),
}

/// A peer as the kernel reports it. Attributes absent from the report keep
/// their zero, empty or absent value.
#[derive(Debug)]
pub struct Peer {
    pub preshared_key: Option<[u8; 32]>,
    pub public_key: [u8; 32],
    pub listen_port: u16,
    pub tx: u64,
    pub rx: u64,
    pub allowed_ips: Vec<IpCidr>,
    pub persistent_keepalive: u16,
    /// Time of the last handshake, in nanoseconds since the Unix epoch.
    pub last_handshake: Option<u128>,
    pub endpoint: Option<Endpoint>,
}

/// What a peer record holds, as mathematical values.
pub struct PeerView {
    pub preshared_key: Option<[u8; 32]>,
    pub public_key: [u8; 32],
    pub listen_port: u16,
    pub tx: u64,
    pub rx: u64,
    pub allowed_ips: Seq<IpCidr>,
    pub persistent_keepalive: u16,
    pub last_handshake: Option<u128>,
    pub endpoint: Option<Endpoint>,
}

impl View for Peer {
    type V = PeerView;

    open spec fn view(&self) -> PeerView {
        PeerView {
            preshared_key: self.preshared_key,
            public_key: self.public_key,
            listen_port: self.listen_port,
            tx: self.tx,
            rx: self.rx,
            allowed_ips: self.allowed_ips@,
            persistent_keepalive: self.persistent_keepalive,
            last_handshake: self.last_handshake,
            endpoint: self.endpoint,
        }
    }
}

/// The managed interface as the kernel reports it.
#[derive(Debug)]
pub struct Interface {
    pub index: u32,
    pub name: String,
    pub private_key: [u8; 32],
    pub public_key: [u8; 32],
    pub listen_port: u16,
    pub fwmark: u32,
    pub peers: Vec<Peer>,
}

/// What an interface record holds, as mathematical values.
pub struct InterfaceView {
    pub index: u32,
    pub name: Seq<char>,
    pub private_key: [u8; 32],
    pub public_key: [u8; 32],
    pub listen_port: u16,
    pub fwmark: u32,
    pub peers: Seq<PeerView>,
}

impl View for Interface {
    type V = InterfaceView;

    open spec fn view(&self) -> InterfaceView {
        InterfaceView {
            index: self.index,
            name: self.name@,
            private_key: self.private_key,
            public_key: self.public_key,
            listen_port: self.listen_port,
            fwmark: self.fwmark,
            peers: self.peers@.map_values(|p: Peer| p@),
        }
    }
}

/// Whether two keys are equal, byte for byte.
pub fn keys_equal(a: &[u8; 32], b: &[u8; 32]) -> (r: bool)
    ensures
        r == (a@ == b@),
{
    let mut i: usize = 0;
    while i < WG_KEY_LEN
        invariant
            a@.len() == 32,
            b@.len() == 32,
            i <= 32,
            forall|j: int| 0 <= j < i ==> a@[j] == b@[j],
        decreases 32 - i,
    {
        if a[i] != b[i] {
            return false;
        }
        i = i + 1;
    }
    proof {
        assert(a@ =~= b@);
    }
    true
}

/// One peer's part of a device update: the key that names the peer, the
/// allowed IPs to add to it, and whether to remove it instead.
#[derive(Debug)]
pub struct PeerUpdate {
    pub public_key: Option<[u8; 32]>,
    pub allowed_ips: Option<Vec<IpCidr>>,
    pub remove: bool,
}

/// A device update: when `replace_peers` is set the listed peers replace the
/// whole peer set, otherwise they are applied to it.
#[derive(Debug)]
pub struct WireguardUpdate {
    pub replace_peers: bool,
    pub peers: Vec<PeerUpdate>,
}

/// The kernel's peer set: allowed IPs by public key.
pub type PeerSet = Map<Seq<u8>, Set<IpCidr>>;

/// The allowed IPs that a peer update lists.
pub open spec fn listed_ips(p: PeerUpdate) -> Set<IpCidr> {
    match p.allowed_ips {
        Some(v) => v@.to_set(),
        None => Set::empty(),
    }
}

/// What the kernel does with one peer update: a removal drops the peer; any
/// other update creates the peer if needed and adds the listed allowed IPs.
/// An update without a key names no peer and changes nothing.
pub open spec fn apply_peer(k: PeerSet, p: PeerUpdate) -> PeerSet {
    match p.public_key {
        None => k,
        Some(pk) => if p.remove {
            k.remove(pk@)
        } else {
            let current = if k.contains_key(pk@) {
                k[pk@]
            } else {
                Set::empty()
            };
            k.insert(pk@, current.union(listed_ips(p)))
        },
    }
}

/// What the kernel does with a sequence of peer updates, in order.
pub open spec fn apply_peers(k: PeerSet, ps: Seq<PeerUpdate>) -> PeerSet
    decreases ps.len(),
{
    if ps.len() == 0 {
        k
    } else {
        apply_peer(apply_peers(k, ps.drop_last()), ps.last())
    }
}

/// The peer set after a device update.
pub open spec fn apply_update(k: PeerSet, u: WireguardUpdate) -> PeerSet {
    apply_peers(
        if u.replace_peers {
            Map::empty()
        } else {
            k
        },
        u.peers@,
    )
}

/// Whether `p` adds the peer `key` with the single allowed network `ip/32`.
pub open spec fn adds_host_peer(p: PeerUpdate, key: Seq<u8>, ip: u32) -> bool {
    &&& p.public_key.is_some()
    &&& p.public_key.unwrap()@ == key
    &&& p.allowed_ips.is_some()
    &&& p.allowed_ips.unwrap()@ == seq![host_cidr(ip)]
    &&& !p.remove
}

/// The update that adds one peer with the allowed network `ip/32`.
fn host_peer(key: [u8; 32], ip: u32) -> (r: PeerUpdate)
    ensures
        adds_host_peer(r, key@, ip),
{
    let mut ips: Vec<IpCidr> = Vec::new();
    ips.push(IpCidr::new_host(ip));
    proof {
        assert(ips@ =~= seq![host_cidr(ip)]);
    }
    PeerUpdate { public_key: Some(key), allowed_ips: Some(ips), remove: false }
}

/// A single peer update acts on its own.
proof fn lemma_apply_one(k: PeerSet, ps: Seq<PeerUpdate>)
    requires
        ps.len() == 1,
    ensures
        apply_peers(k, ps) == apply_peer(k, ps[0]),
{
    assert(ps.drop_last() =~= Seq::<PeerUpdate>::empty());
    assert(apply_peers(k, ps.drop_last()) == k);
}

/// The incremental update that adds the peer `key` with the allowed network
/// `ip/32`, leaving the other peers alone.
pub fn add_peer_update(key: [u8; 32], ip: u32) -> (r: WireguardUpdate)
    ensures
        !r.replace_peers,
        r.peers@.len() == 1,
        adds_host_peer(r.peers@[0], key@, ip),
        forall|k: PeerSet|
            #[trigger] apply_update(k, r) == k.insert(
                key@,
                (if k.contains_key(key@) {
                    k[key@]
                } else {
                    Set::empty()
                }).insert(host_cidr(ip)),
            ),
{
    let r = WireguardUpdate { replace_peers: false, peers: vec![host_peer(key, ip)] };
    proof {
        assert forall|k: PeerSet| #[trigger] apply_update(k, r) == k.insert(
            key@,
            (if k.contains_key(key@) {
                k[key@]
            } else {
                Set::empty()
            }).insert(host_cidr(ip)),
        ) by {
            lemma_apply_one(k, r.peers@);
            let p = r.peers@[0];
            assert(p.allowed_ips.unwrap()@.to_set() =~= set![host_cidr(ip)]) by {
                assert(p.allowed_ips.unwrap()@[0] == host_cidr(ip));
            }
            let current = if k.contains_key(key@) {
                k[key@]
            } else {
                Set::empty()
            };
            assert(current.union(set![host_cidr(ip)]) =~= current.insert(host_cidr(ip)));
            assert(apply_update(k, r) =~= k.insert(key@, current.insert(host_cidr(ip))));
        }
    }
    r
}

/// The incremental update that removes the peer `key`.
pub fn remove_peer_update(key: [u8; 32]) -> (r: WireguardUpdate)
    ensures
        !r.replace_peers,
        r.peers@.len() == 1,
        r.peers@[0].public_key == Some(key),
        r.peers@[0].allowed_ips.is_none(),
        r.peers@[0].remove,
        forall|k: PeerSet| #[trigger] apply_update(k, r) == k.remove(key@),
{
    let r = WireguardUpdate {
        replace_peers: false,
        peers: vec![PeerUpdate { public_key: Some(key), allowed_ips: None, remove: true }],
    };
    proof {
        assert forall|k: PeerSet| #[trigger] apply_update(k, r) == k.remove(key@) by {
            lemma_apply_one(k, r.peers@);
        }
    }
    r
}

} // verus!
