//! The attributes of WireGuard generic-netlink messages, and the conversion
//! between them and the records of this crate. A record is built by folding
//! its attributes in order: a later attribute of the same kind wins, and an
//! attribute that is absent leaves the field at its zero, empty or absent
//! value.

use vstd::prelude::*;

use crate::wireguard::{
    Endpoint, Interface, InterfaceView, IpCidr, Peer, PeerUpdate, PeerView, WireguardInterfaceId,
    WireguardUpdate,
};

verus! {

/// Address family of IPv4 in an allowed-IP attribute.
pub const AF_INET: u16 = 2;

/// Address family of IPv6 in an allowed-IP attribute.
pub const AF_INET6: u16 = 10;

/// Device flag that asks the kernel to replace the whole peer set.
pub const WGDEVICE_F_REPLACE_PEERS: u32 = 1;

/// Peer flag that asks the kernel to remove the peer.
pub const WGPEER_F_REMOVE_ME: u32 = 1;

/// An IP address, as an integer, most significant octet first.
#[derive(Debug, Clone, Copy, PartialEq, Eq, Structural)]
pub enum IpAddress {
    V4(u32),
    V6(u128),
}

/// One attribute of an allowed-IP entry.
#[derive(Debug, Clone, Copy, PartialEq, Eq, Structural)]
pub enum AllowedIpAttr {
    Family(u16),
    IpAddr(IpAddress),
    Cidr(u8),
    Other,
}

/// One attribute of a peer.
#[derive(Debug)]
pub enum PeerAttr {
    PresharedKey([u8; 32]),
    PublicKey([u8; 32]),
    Endpoint(Endpoint),
    PersistentKeepalive(u16),
    /// Time of the last handshake in nanoseconds relative to the Unix epoch.
    LastHandshake(i128),
    RxBytes(u64),
    TxBytes(u64),
    AllowedIps(Vec<Vec<AllowedIpAttr>>),
    Flags(u32),
    Other,
}

/// One attribute of a device.
#[derive(Debug)]
pub enum DeviceAttr {
    IfIndex(u32),
    IfName(String),
    PrivateKey([u8; 32]),
    PublicKey([u8; 32]),
    ListenPort(u16),
    Fwmark(u32),
    Peers(Vec<Vec<PeerAttr>>),
    Flags(u32),
    Other,
}

/// Whether the bits of `addr` after the first `len` are all zero.
pub open spec fn zero_host_part_v4(addr: u32, len: u8) -> bool {
    len >= 32 || addr << len == 0
}

/// Whether the bits of `addr` after the first `len` are all zero.
pub open spec fn zero_host_part_v6(addr: u128, len: u8) -> bool {
    len >= 128 || addr << len == 0
}

/// The network with first address `a` and prefix length `len`, if that is a
/// network: the length fits the family and the host part is zero.
pub open spec fn network_of(a: IpAddress, len: u8) -> Option<IpCidr> {
    match a {
        IpAddress::V4(x) => if len <= 32 && zero_host_part_v4(x, len) {
            Some(IpCidr::V4(x, len))
        } else {
            None
        },
        IpAddress::V6(x) => if len <= 128 && zero_host_part_v6(x, len) {
            Some(IpCidr::V6(x, len))
        } else {
            None
        },
    }
}

/// The first address attribute of an allowed-IP entry.
pub open spec fn first_address(e: Seq<AllowedIpAttr>) -> Option<IpAddress>
    decreases e.len(),
{
    if e.len() == 0 {
        None
    } else {
        match e[0] {
            AllowedIpAttr::IpAddr(a) => Some(a),
            _ => first_address(e.drop_first()),
        }
    }
}

/// The first prefix-length attribute of an allowed-IP entry.
pub open spec fn first_length(e: Seq<AllowedIpAttr>) -> Option<u8>
    decreases e.len(),
{
    if e.len() == 0 {
        None
    } else {
        match e[0] {
            AllowedIpAttr::Cidr(l) => Some(l),
            _ => first_length(e.drop_first()),
        }
    }
}

/// The network an allowed-IP entry stands for, if it names one.
pub open spec fn entry_network(e: Seq<AllowedIpAttr>) -> Option<IpCidr> {
    match (first_address(e), first_length(e)) {
        (Some(a), Some(l)) => network_of(a, l),
        _ => None,
    }
}

/// The networks of a list of allowed-IP entries; entries that name no network
/// are skipped.
pub open spec fn entries_networks(es: Seq<Vec<AllowedIpAttr>>) -> Seq<IpCidr>
    decreases es.len(),
{
    if es.len() == 0 {
        seq![]
    } else {
        let rest = entries_networks(es.drop_last());
        match entry_network(es.last()@) {
            Some(c) => rest.push(c),
            None => rest,
        }
    }
}

/// The time of a handshake reported relative to the epoch: none before it.
pub open spec fn handshake_time(n: i128) -> Option<u128> {
    if n >= 0 {
        Some(n as u128)
    } else {
        None
    }
}

/// A peer record with every field at its zero, empty or absent value.
pub open spec fn empty_peer() -> PeerView {
    PeerView {
        preshared_key: None,
        public_key: vstd::array::spec_array_fill_for_copy_type::<u8, 32>(0),
        listen_port: 0,
        tx: 0,
        rx: 0,
        allowed_ips: seq![],
        persistent_keepalive: 0,
        last_handshake: None,
        endpoint: None,
    }
}

/// The effect of one attribute on a peer record.
pub open spec fn peer_step(v: PeerView, a: PeerAttr) -> PeerView {
    match a {
        PeerAttr::PresharedKey(k) => PeerView { preshared_key: Some(k), ..v },
        PeerAttr::PublicKey(k) => PeerView { public_key: k, ..v },
        PeerAttr::Endpoint(e) => PeerView { endpoint: Some(e), ..v },
        PeerAttr::PersistentKeepalive(x) => PeerView { persistent_keepalive: x, ..v },
        PeerAttr::LastHandshake(n) => PeerView { last_handshake: handshake_time(n), ..v },
        PeerAttr::RxBytes(x) => PeerView { rx: x, ..v },
        PeerAttr::TxBytes(x) => PeerView { tx: x, ..v },
        PeerAttr::AllowedIps(es) => PeerView { allowed_ips: entries_networks(es@), ..v },
        _ => v,
    }
}

/// The peer record that a list of attributes describes.
pub open spec fn peer_of(attrs: Seq<PeerAttr>) -> PeerView
    decreases attrs.len(),
{
    if attrs.len() == 0 {
        empty_peer()
    } else {
        peer_step(peer_of(attrs.drop_last()), attrs.last())
    }
}

/// The network an allowed-IP entry stands for, if it names one.
fn entry_to_network(e: &Vec<AllowedIpAttr>) -> (r: Option<IpCidr>)
    ensures
        r == entry_network(e@),
{
    let mut addr: Option<IpAddress> = None;
    let mut len: Option<u8> = None;
    let mut i: usize = e.len();
    while i > 0
        invariant
            i <= e@.len(),
            addr == first_address(e@.subrange(i as int, e@.len() as int)),
            len == first_length(e@.subrange(i as int, e@.len() as int)),
        decreases i,
    {
        i = i - 1;
        let ghost tail = e@.subrange(i as int, e@.len() as int);
        proof {
            assert(tail.drop_first() =~= e@.subrange(i + 1, e@.len() as int));
            assert(tail[0] == e@[i as int]);
        }
        match e[i] {
            AllowedIpAttr::IpAddr(a) => {
                addr = Some(a);
            },
            AllowedIpAttr::Cidr(l) => {
                len = Some(l);
            },
            _ => {},
        }
    }
    proof {
        assert(e@.subrange(0, e@.len() as int) =~= e@);
    }
    match (addr, len) {
        (Some(IpAddress::V4(x)), Some(l)) => {
            if l <= 32 && (l >= 32 || x << l == 0) {
                Some(IpCidr::V4(x, l))
            } else {
                None
            }
        },
        (Some(IpAddress::V6(x)), Some(l)) => {
            if l <= 128 && (l >= 128 || x << l == 0) {
                Some(IpCidr::V6(x, l))
            } else {
                None
            }
        },
        _ => None,
    }
}

/// The networks of a list of allowed-IP entries.
fn entries_to_networks(es: &Vec<Vec<AllowedIpAttr>>) -> (r: Vec<IpCidr>)
    ensures
        r@ == entries_networks(es@),
{
    let mut r: Vec<IpCidr> = Vec::new();
    let mut i: usize = 0;
    while i < es.len()
        invariant
            i <= es@.len(),
            r@ == entries_networks(es@.take(i as int)),
        decreases es@.len() - i,
    {
        proof {
            assert(es@.take(i + 1).drop_last() =~= es@.take(i as int));
            assert(es@.take(i + 1).last() == es@[i as int]);
        }
        match entry_to_network(&es[i]) {
            Some(c) => {
                r.push(c);
            },
            None => {},
        }
        i = i + 1;
    }
    proof {
        assert(es@.take(es@.len() as int) =~= es@);
    }
    r
}

impl Peer {
    /// The peer record that the kernel's attributes describe.
    pub fn from_attrs(attrs: &Vec<PeerAttr>) -> (r: Peer)
        ensures
            r@ == peer_of(attrs@),
    {
        let mut res = Peer {
            preshared_key: None,
            public_key: [0u8; 32],
            listen_port: 0,
            tx: 0,
            rx: 0,
            allowed_ips: Vec::new(),
            persistent_keepalive: 0,
            last_handshake: None,
            endpoint: None,
        };
        proof {
            assert(res@.allowed_ips =~= empty_peer().allowed_ips);
            assert(res@ == peer_of(attrs@.take(0)));
        }
        let mut i: usize = 0;
        while i < attrs.len()
            invariant
                i <= attrs@.len(),
                res@ == peer_of(attrs@.take(i as int)),
            decreases attrs@.len() - i,
        {
            proof {
                assert(attrs@.take(i + 1).drop_last() =~= attrs@.take(i as int));
                assert(attrs@.take(i + 1).last() == attrs@[i as int]);
            }
            match &attrs[i] {
                PeerAttr::PresharedKey(k) => {
                    res.preshared_key = Some(*k);
                },
                PeerAttr::PublicKey(k) => {
                    res.public_key = *k;
                },
                PeerAttr::Endpoint(e) => {
                    res.endpoint = Some(*e);
                },
                PeerAttr::PersistentKeepalive(x) => {
                    res.persistent_keepalive = *x;
                },
                PeerAttr::LastHandshake(n) => {
                    res.last_handshake = if *n >= 0 {
                        Some(*n as u128)
                    } else {
                        None
                    };
                },
                PeerAttr::RxBytes(x) => {
                    res.rx = *x;
                },
                PeerAttr::TxBytes(x) => {
                    res.tx = *x;
                },
                PeerAttr::AllowedIps(es) => {
                    res.allowed_ips = entries_to_networks(es);
                },
                _ => {},
            }
            i = i + 1;
        }
        proof {
            assert(attrs@.take(attrs@.len() as int) =~= attrs@);
        }
        res
    }
}

/// An interface record with every field at its zero or empty value.
pub open spec fn empty_interface() -> InterfaceView {
    InterfaceView {
        index: 0,
        name: seq![],
        private_key: vstd::array::spec_array_fill_for_copy_type::<u8, 32>(0),
        public_key: vstd::array::spec_array_fill_for_copy_type::<u8, 32>(0),
        listen_port: 0,
        fwmark: 0,
        peers: seq![],
    }
}

/// The peer records that a list of peer entries describes.
pub open spec fn peers_of(es: Seq<Vec<PeerAttr>>) -> Seq<PeerView> {
    es.map_values(|e: Vec<PeerAttr>| peer_of(e@))
}

/// The effect of one attribute on an interface record.
pub open spec fn device_step(v: InterfaceView, a: DeviceAttr) -> InterfaceView {
    match a {
        DeviceAttr::IfIndex(x) => InterfaceView { index: x, ..v },
        DeviceAttr::IfName(n) => InterfaceView { name: n@, ..v },
        DeviceAttr::PrivateKey(k) => InterfaceView { private_key: k, ..v },
        DeviceAttr::PublicKey(k) => InterfaceView { public_key: k, ..v },
        DeviceAttr::ListenPort(x) => InterfaceView { listen_port: x, ..v },
        DeviceAttr::Fwmark(x) => InterfaceView { fwmark: x, ..v },
        DeviceAttr::Peers(es) => InterfaceView { peers: peers_of(es@), ..v },
        _ => v,
    }
}

/// The interface record that a list of attributes describes.
pub open spec fn interface_of(attrs: Seq<DeviceAttr>) -> InterfaceView
    decreases attrs.len(),
{
    if attrs.len() == 0 {
        empty_interface()
    } else {
        device_step(interface_of(attrs.drop_last()), attrs.last())
    }
}

/// The peer records of a list of peer entries.
fn peers_from_entries(es: &Vec<Vec<PeerAttr>>) -> (r: Vec<Peer>)
    ensures
        r@.map_values(|p: Peer| p@) == peers_of(es@),
{
    let mut r: Vec<Peer> = Vec::new();
    let mut i: usize = 0;
    while i < es.len()
        invariant
            i <= es@.len(),
            r@.len() == i,
            forall|j: int| 0 <= j < i ==> (#[trigger] r@[j])@ == peer_of(es@[j]@),
        decreases es@.len() - i,
    {
        r.push(Peer::from_attrs(&es[i]));
        i = i + 1;
    }
    proof {
        assert(r@.map_values(|p: Peer| p@) =~= peers_of(es@));
    }
    r
}

impl Interface {
    /// The interface record that the kernel's attributes describe.
    pub fn from_attrs(attrs: &Vec<DeviceAttr>) -> (r: Interface)
        ensures
            r@ == interface_of(attrs@),
    {
        let mut res = Interface {
            index: 0,
            name: String::new(),
            private_key: [0u8; 32],
            public_key: [0u8; 32],
            listen_port: 0,
            fwmark: 0,
            peers: Vec::new(),
        };
        proof {
            assert(res@.name =~= empty_interface().name);
            assert(res@.peers =~= empty_interface().peers);
            assert(res@ == interface_of(attrs@.take(0)));
        }
        let mut i: usize = 0;
        while i < attrs.len()
            invariant
                i <= attrs@.len(),
                res@ == interface_of(attrs@.take(i as int)),
            decreases attrs@.len() - i,
        {
            proof {
                assert(attrs@.take(i + 1).drop_last() =~= attrs@.take(i as int));
                assert(attrs@.take(i + 1).last() == attrs@[i as int]);
            }
            match &attrs[i] {
                DeviceAttr::IfIndex(x) => {
                    res.index = *x;
                },
                DeviceAttr::IfName(n) => {
                    res.name = n.clone();
                },
                DeviceAttr::PrivateKey(k) => {
                    res.private_key = *k;
                },
                DeviceAttr::PublicKey(k) => {
                    res.public_key = *k;
                },
                DeviceAttr::ListenPort(x) => {
                    res.listen_port = *x;
                },
                DeviceAttr::Fwmark(x) => {
                    res.fwmark = *x;
                },
                DeviceAttr::Peers(es) => {
                    res.peers = peers_from_entries(es);
                },
                _ => {},
            }
            i = i + 1;
        }
        proof {
            assert(attrs@.take(attrs@.len() as int) =~= attrs@);
        }
        res
    }
}

/// The attributes of an allowed-IP entry for a network: family, first address
/// and prefix length.
pub open spec fn network_entry(c: IpCidr) -> Seq<AllowedIpAttr> {
    match c {
        IpCidr::V4(a, l) => seq![
            AllowedIpAttr::Family(AF_INET),
            AllowedIpAttr::IpAddr(IpAddress::V4(a)),
            AllowedIpAttr::Cidr(l),
        ],
        IpCidr::V6(a, l) => seq![
            AllowedIpAttr::Family(AF_INET6),
            AllowedIpAttr::IpAddr(IpAddress::V6(a)),
            AllowedIpAttr::Cidr(l),
        ],
    }
}

/// Whether `a` is the allowed-IPs attribute that lists the networks `v`, one
/// entry each.
pub open spec fn lists_networks(a: PeerAttr, v: Seq<IpCidr>) -> bool {
    match a {
        PeerAttr::AllowedIps(es) => {
            &&& es@.len() == v.len()
            &&& forall|i: int| 0 <= i < v.len() ==> (#[trigger] es@[i])@ == network_entry(v[i])
        },
        _ => false,
    }
}

/// Whether `r` is the attribute list of the peer update `p`: its public key if
/// any, then its allowed IPs if any, then the removal flag if it removes.
pub open spec fn encodes_update(p: PeerUpdate, r: Seq<PeerAttr>) -> bool {
    let nk: int = if p.public_key.is_some() { 1 } else { 0 };
    let ni: int = if p.allowed_ips.is_some() { 1 } else { 0 };
    let nr: int = if p.remove { 1 } else { 0 };
    &&& r.len() == nk + ni + nr
    &&& p.public_key.is_some() ==> r[0] == PeerAttr::PublicKey(p.public_key.unwrap())
    &&& p.allowed_ips.is_some() ==> lists_networks(r[nk], p.allowed_ips.unwrap()@)
    &&& p.remove ==> r[nk + ni] == PeerAttr::Flags(WGPEER_F_REMOVE_ME)
}

/// The attributes of one allowed network.
fn network_to_entry(c: IpCidr) -> (r: Vec<AllowedIpAttr>)
    ensures
        r@ == network_entry(c),
{
    let mut r: Vec<AllowedIpAttr> = Vec::new();
    match c {
        IpCidr::V4(a, l) => {
            r.push(AllowedIpAttr::Family(AF_INET));
            r.push(AllowedIpAttr::IpAddr(IpAddress::V4(a)));
            r.push(AllowedIpAttr::Cidr(l));
        },
        IpCidr::V6(a, l) => {
            r.push(AllowedIpAttr::Family(AF_INET6));
            r.push(AllowedIpAttr::IpAddr(IpAddress::V6(a)));
            r.push(AllowedIpAttr::Cidr(l));
        },
    }
    proof {
        assert(r@ =~= network_entry(c));
    }
    r
}

impl PeerUpdate {
    /// The attributes that carry this update to the kernel.
    pub fn to_attrs(self) -> (r: Vec<PeerAttr>)
        ensures
            encodes_update(self, r@),
    {
        let mut res: Vec<PeerAttr> = Vec::new();
        if let Some(k) = self.public_key {
            res.push(PeerAttr::PublicKey(k));
        }
        let ghost nk = res@.len();
        if let Some(v) = &self.allowed_ips {
            let mut es: Vec<Vec<AllowedIpAttr>> = Vec::new();
            let mut i: usize = 0;
            while i < v.len()
                invariant
                    i <= v@.len(),
                    es@.len() == i,
                    forall|j: int| 0 <= j < i ==> (#[trigger] es@[j])@ == network_entry(v@[j]),
                decreases v@.len() - i,
            {
                es.push(network_to_entry(v[i]));
                i = i + 1;
            }
            res.push(PeerAttr::AllowedIps(es));
        }
        let ghost ni = res@.len();
        if self.remove {
            res.push(PeerAttr::Flags(WGPEER_F_REMOVE_ME));
        }
        proof {
            if self.public_key.is_some() {
                assert(res@[0] == PeerAttr::PublicKey(self.public_key.unwrap()));
            }
        }
        res
    }
}

/// Whether `a` is the attribute that selects the interface `id`.
pub open spec fn selects_interface(id: WireguardInterfaceId, a: DeviceAttr) -> bool {
    match id {
        WireguardInterfaceId::Name(n) => match a {
            DeviceAttr::IfName(m) => m@ == n@,
            _ => false,
        },
        WireguardInterfaceId::Index(x) => a == DeviceAttr::IfIndex(x),
    }
}

impl WireguardInterfaceId {
    /// The attribute that selects this interface.
    pub fn to_attr(self) -> (r: DeviceAttr)
        ensures
            selects_interface(self, r),
    {
        match self {
            WireguardInterfaceId::Name(n) => DeviceAttr::IfName(n),
            WireguardInterfaceId::Index(x) => DeviceAttr::IfIndex(x),
        }
    }
}

/// Whether `a` carries the peers of `ps`, each encoded as its update says.
pub open spec fn carries_peers(a: DeviceAttr, ps: Seq<PeerUpdate>) -> bool {
    match a {
        DeviceAttr::Peers(es) => {
            &&& es@.len() == ps.len()
            &&& forall|i: int| 0 <= i < ps.len() ==> encodes_update(ps[i], (#[trigger] es@[i])@)
        },
        _ => false,
    }
}

/// The attributes of a SetDevice command: the interface, the device flags
/// (replace the peer set, or not) and the peers.
pub fn set_device_attrs(id: WireguardInterfaceId, update: WireguardUpdate) -> (r: Vec<DeviceAttr>)
    ensures
        r@.len() == 3,
        selects_interface(id, r@[0]),
        r@[1] == DeviceAttr::Flags(
            if update.replace_peers {
                WGDEVICE_F_REPLACE_PEERS
            } else {
                0
            },
        ),
        carries_peers(r@[2], update.peers@),
{
    let flags = if update.replace_peers {
        WGDEVICE_F_REPLACE_PEERS
    } else {
        0
    };
    let ghost all = update.peers@;
    let mut rest = update.peers;
    let mut es: Vec<Vec<PeerAttr>> = Vec::new();
    while rest.len() > 0
        invariant
            es@.len() + rest@.len() == all.len(),
            rest@ == all.subrange(es@.len() as int, all.len() as int),
            forall|i: int| 0 <= i < es@.len() ==> encodes_update(all[i], (#[trigger] es@[i])@),
        decreases rest@.len(),
    {
        let ghost n = es@.len();
        let p = rest.remove(0);
        proof {
            assert(p == all[n as int]);
            assert(rest@ =~= all.subrange(n + 1 as int, all.len() as int));
        }
        es.push(p.to_attrs());
    }
    let mut r: Vec<DeviceAttr> = Vec::new();
    r.push(id.to_attr());
    r.push(DeviceAttr::Flags(flags));
    r.push(DeviceAttr::Peers(es));
    r
}

} // verus!
