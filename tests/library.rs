use base64::engine::general_purpose::STANDARD;
use base64::Engine;

use wgcfg::attrs::{AllowedIpAttr, DeviceAttr, IpAddress, PeerAttr, WGPEER_F_REMOVE_ME};
use wgcfg::configs::{format_config, ipv4_to_text, Config, ConfigInfo, ServerInfo};
use wgcfg::error::{classify_dump, classify_send, classify_send_recv, DatabaseError, NetlinkError, Reply, ServiceError};
use wgcfg::frontend::VpnMode;
use wgcfg::keys::{decode_public_key, key_to_base64};
use wgcfg::pool::IpPool;
use wgcfg::requests::{Request, RequestStatus};
use wgcfg::rows::{config_from_row, full_config_from_row, key_from_row, read_uuid, ConfigRow};
use wgcfg::service::{check_access, User, Wgcfg, ADMIN};
use wgcfg::configs::{FullConfig, Stats as KeyStats};
use wgcfg::wireguard::{remove_peer_update, Endpoint, Interface, IpCidr, Peer, PeerUpdate};

fn ip(a: u8, b: u8, c: u8, d: u8) -> u32 {
    u32::from_be_bytes([a, b, c, d])
}

fn config_of(user_id: u128) -> Config {
    Config {
        id: 77,
        user_id,
        ip: ip(10, 2, 0, 9),
        pub_key: [4u8; 32],
        priv_key: None,
        name: "laptop".to_string(),
        deleted: false,
    }
}

#[test]
fn kernel_codes_map_to_errors() {
    assert_eq!(NetlinkError::from(-2), NetlinkError::NotFound);
    assert_eq!(NetlinkError::from(-17), NetlinkError::AlreadyExists);
    assert_eq!(NetlinkError::from(-1), NetlinkError::Unknown(-1));
}

#[test]
fn replies_are_classified() {
    assert_eq!(classify_send::<()>(Reply::Ack(0)), Ok(()));
    assert_eq!(classify_send::<()>(Reply::Error(0)), Ok(()));
    assert_eq!(classify_send::<()>(Reply::Error(-17)), Err(NetlinkError::AlreadyExists));
    assert_eq!(classify_send::<()>(Reply::Ack(-2)), Err(NetlinkError::NotFound));
    assert_eq!(classify_send::<u8>(Reply::Inner(3)), Err(NetlinkError::UnexpectedResponse));
    assert_eq!(classify_send_recv(Reply::Inner(3u8)), Ok(3));
    assert_eq!(classify_send_recv::<u8>(Reply::Error(-95)), Err(NetlinkError::Unknown(-95)));
    assert_eq!(classify_send_recv::<u8>(Reply::Other), Err(NetlinkError::UnexpectedResponse));
    assert_eq!(classify_dump(vec![Reply::Other, Reply::Error(0), Reply::Inner(5u8), Reply::Inner(6)]), Ok(5));
    assert_eq!(classify_dump(vec![Reply::Other, Reply::Error(-2), Reply::Inner(5u8)]), Err(NetlinkError::NotFound));
    assert_eq!(classify_dump::<u8>(vec![]), Err(NetlinkError::UnexpectedResponse));
}

#[test]
fn peer_attributes_fold_in_order() {
    let attrs = vec![
        PeerAttr::PublicKey([1u8; 32]),
        PeerAttr::TxBytes(10),
        PeerAttr::RxBytes(20),
        PeerAttr::TxBytes(11),
        PeerAttr::PresharedKey([2u8; 32]),
        PeerAttr::Endpoint(Endpoint::V4(ip(192, 0, 2, 1), 51820)),
        PeerAttr::PersistentKeepalive(25),
        PeerAttr::LastHandshake(1_000),
        PeerAttr::AllowedIps(vec![
            vec![
                AllowedIpAttr::Family(2),
                AllowedIpAttr::IpAddr(IpAddress::V4(ip(10, 2, 0, 1))),
                AllowedIpAttr::Cidr(32),
            ],
            vec![AllowedIpAttr::IpAddr(IpAddress::V4(ip(10, 2, 0, 1))), AllowedIpAttr::Cidr(24)],
            vec![AllowedIpAttr::Cidr(8)],
            vec![AllowedIpAttr::Cidr(0), AllowedIpAttr::IpAddr(IpAddress::V6(0))],
        ]),
        PeerAttr::Other,
    ];
    let p = Peer::from_attrs(&attrs);
    assert_eq!(p.public_key, [1u8; 32]);
    assert_eq!(p.tx, 11);
    assert_eq!(p.rx, 20);
    assert_eq!(p.preshared_key, Some([2u8; 32]));
    assert_eq!(p.endpoint, Some(Endpoint::V4(ip(192, 0, 2, 1), 51820)));
    assert_eq!(p.persistent_keepalive, 25);
    assert_eq!(p.last_handshake, Some(1_000));
    assert_eq!(p.allowed_ips, vec![IpCidr::V4(ip(10, 2, 0, 1), 32), IpCidr::V6(0, 0)]);
    assert_eq!(p.listen_port, 0);
}

#[test]
fn handshake_before_epoch_is_absent() {
    let p = Peer::from_attrs(&vec![PeerAttr::LastHandshake(-5)]);
    assert_eq!(p.last_handshake, None);
    assert_eq!(p.public_key, [0u8; 32]);
    assert!(p.allowed_ips.is_empty());
}

#[test]
fn interface_attributes_fold_in_order() {
    let attrs = vec![
        DeviceAttr::IfIndex(3),
        DeviceAttr::IfName("wg0".to_string()),
        DeviceAttr::PublicKey([8u8; 32]),
        DeviceAttr::ListenPort(51820),
        DeviceAttr::Fwmark(9),
        DeviceAttr::Peers(vec![vec![PeerAttr::PublicKey([1u8; 32])], vec![PeerAttr::RxBytes(4)]]),
        DeviceAttr::IfIndex(4),
    ];
    let i = Interface::from_attrs(&attrs);
    assert_eq!(i.index, 4);
    assert_eq!(i.name, "wg0");
    assert_eq!(i.public_key, [8u8; 32]);
    assert_eq!(i.private_key, [0u8; 32]);
    assert_eq!(i.listen_port, 51820);
    assert_eq!(i.fwmark, 9);
    assert_eq!(i.peers.len(), 2);
    assert_eq!(i.peers[0].public_key, [1u8; 32]);
    assert_eq!(i.peers[1].rx, 4);
}

#[test]
fn peer_update_attributes() {
    let p = PeerUpdate {
        public_key: Some([6u8; 32]),
        allowed_ips: Some(vec![IpCidr::V4(ip(10, 2, 0, 1), 32)]),
        remove: false,
    };
    let a = p.to_attrs();
    assert_eq!(a.len(), 2);
    assert!(matches!(a[0], PeerAttr::PublicKey(k) if k == [6u8; 32]));
    match &a[1] {
        PeerAttr::AllowedIps(es) => assert_eq!(
            es,
            &vec![vec![
                AllowedIpAttr::Family(2),
                AllowedIpAttr::IpAddr(IpAddress::V4(ip(10, 2, 0, 1))),
                AllowedIpAttr::Cidr(32)
            ]]
        ),
        _ => panic!("allowed IPs expected"),
    }
    let r = remove_peer_update([6u8; 32]);
    let a = r.peers.into_iter().next().unwrap().to_attrs();
    assert_eq!(a.len(), 2);
    assert!(matches!(a[1], PeerAttr::Flags(f) if f == WGPEER_F_REMOVE_ME));
}

#[test]
fn pool_hands_out_hosts_then_runs_dry() {
    let mut p = IpPool::new(ip(10, 0, 0, 0), 30);
    assert_eq!(p.allocate(), Ok(ip(10, 0, 0, 1)));
    assert_eq!(p.allocate(), Ok(ip(10, 0, 0, 2)));
    assert_eq!(p.allocate(), Err(ServiceError::IpPoolExhausted));
    let mut single = IpPool::new(ip(10, 0, 0, 7), 32);
    assert_eq!(single.allocate(), Ok(ip(10, 0, 0, 7)));
    assert_eq!(single.allocate(), Err(ServiceError::IpPoolExhausted));
    let mut all = IpPool::new(0, 0);
    assert_eq!(all.allocate(), Ok(ip(0, 0, 0, 1)));
    all.advance(usize::MAX);
    assert_eq!(all.allocate(), Err(ServiceError::IpPoolExhausted));
    let mut pair = IpPool::new(ip(10, 0, 0, 6), 31);
    assert_eq!(pair.allocate(), Ok(ip(10, 0, 0, 6)));
    assert_eq!(pair.allocate(), Ok(ip(10, 0, 0, 7)));
    assert_eq!(pair.allocate(), Err(ServiceError::IpPoolExhausted));
}

#[test]
fn pool_advance_skips_used_addresses() {
    let mut p = IpPool::new(ip(10, 2, 0, 0), 24);
    p.advance(5);
    assert_eq!(p.allocate(), Ok(ip(10, 2, 0, 6)));
    p.advance(1000);
    assert_eq!(p.allocate(), Err(ServiceError::IpPoolExhausted));
    let mut top = IpPool::new(ip(255, 255, 255, 0), 24);
    top.advance(253);
    assert_eq!(top.allocate(), Ok(ip(255, 255, 255, 254)));
    assert_eq!(top.allocate(), Err(ServiceError::IpPoolExhausted));
}

#[test]
fn addresses_are_never_handed_out_twice() {
    let mut p = IpPool::new(ip(10, 2, 0, 0), 28);
    let mut seen = Vec::new();
    while let Ok(a) = p.allocate() {
        assert!(!seen.contains(&a));
        seen.push(a);
    }
    assert_eq!(seen.len(), 14);
}

fn svc() -> Wgcfg {
    Wgcfg::new(ip(10, 2, 0, 0), 24, 1, 200, "e:1".to_string(), &[0u8; 32], vec![])
}

#[test]
fn authorization_of_config_operations() {
    let svc = svc();
    let owner = User { id: 1, roles: vec![] };
    let stranger = User { id: 2, roles: vec![5] };
    let admin = User { id: 3, roles: vec![5, ADMIN] };
    assert!(!stranger.is_admin());
    assert!(admin.is_admin());
    assert_eq!(check_access(&owner, Some(1)), Ok(()));
    assert_eq!(check_access(&stranger, Some(1)), Err(ServiceError::AccessDenied));
    assert_eq!(check_access(&admin, Some(1)), Ok(()));
    assert_eq!(check_access(&owner, None), Err(ServiceError::NotFound));

    let full = FullConfig { config: config_of(1), stats: KeyStats { pub_key: [4u8; 32], tx: 1, rx: 2 } };
    let same = FullConfig { config: config_of(1), stats: KeyStats { pub_key: [4u8; 32], tx: 1, rx: 2 } };
    let seen = svc.config(&owner, Some(same)).unwrap();
    assert_eq!((seen.config.id, seen.stats.tx, seen.stats.rx), (77, 1, 2));
    assert_eq!(svc.config(&stranger, Some(full)).unwrap_err(), ServiceError::AccessDenied);
    assert_eq!(svc.config(&stranger, None).unwrap_err(), ServiceError::NotFound);

    assert_eq!(svc.rm_config(&stranger, Some(config_of(1))).unwrap_err(), ServiceError::AccessDenied);
    let plan = svc.rm_config(&admin, Some(config_of(1))).unwrap();
    assert_eq!(plan.config_id, 77);
    assert!(plan.update.peers[0].remove);
    assert_eq!(plan.update.peers[0].public_key, Some([4u8; 32]));

    assert_eq!(svc.rename_config(&stranger, Some(config_of(1)), "x").unwrap_err(), ServiceError::AccessDenied);
    let renamed = svc.rename_config(&owner, Some(config_of(1)), "desk").unwrap();
    assert_eq!(renamed.name, "desk");
    assert_eq!(renamed.id, 77);
    assert_eq!(renamed.ip, ip(10, 2, 0, 9));
}

#[test]
fn only_admins_change_roles() {
    let admin = User { id: 3, roles: vec![ADMIN] };
    let plain = User { id: 4, roles: vec![] };
    let svc = svc();
    let change = svc.add_admin(&admin, 9).unwrap();
    assert_eq!((change.user_id, change.role_id, change.grant), (9, ADMIN, true));
    let change = svc.rm_admin(&admin, 9).unwrap();
    assert_eq!((change.user_id, change.role_id, change.grant), (9, ADMIN, false));
    assert_eq!(svc.rm_admin(&plain, 9).unwrap_err(), ServiceError::AccessDenied);
    assert_eq!(svc.add_admin(&plain, 9).unwrap_err(), ServiceError::AccessDenied);
    assert_eq!(ADMIN, 0x22129c89_7069_49ce_9f4a_f85004a7f230);
}

#[test]
fn invalid_public_keys_are_refused() {
    assert_eq!(decode_public_key("not base64!"), Err(ServiceError::InvalidKey));
    assert_eq!(decode_public_key(&STANDARD.encode([1u8; 31])), Err(ServiceError::InvalidKey));
    assert_eq!(decode_public_key(&STANDARD.encode([1u8; 33])), Err(ServiceError::InvalidKey));
    assert_eq!(decode_public_key(&STANDARD.encode([7u8; 32])), Ok([7u8; 32]));
    assert_eq!(key_to_base64(&[0u8; 32]), "AAAAAAAAAAAAAAAAAAAAAAAAAAAAAAAAAAAAAAAAAAA=");
}

#[test]
fn config_file_text_is_exact() {
    let c = Config {
        id: 1,
        user_id: 1,
        ip: ip(10, 2, 0, 1),
        pub_key: [1u8; 32],
        priv_key: Some([0u8; 32]),
        name: "home".to_string(),
        deleted: false,
    };
    let server = ServerInfo { addr: "vpn.example:51820".to_string(), pub_key: "SERVER_PUB".to_string() };
    let text = String::from_utf8(c.config_file(&server)).unwrap();
    assert_eq!(
        text,
        "[Interface]\nAddress = 10.2.0.1\nPrivateKey = AAAAAAAAAAAAAAAAAAAAAAAAAAAAAAAAAAAAAAAAAAA=\nListenPort = 51820\n\n[Peer]\nPublicKey = SERVER_PUB\nEndpoint = vpn.example:51820\nAllowedIPs = 0.0.0.0/0, ::/0"
    );
    let lines: Vec<&str> = text.split('\n').collect();
    assert_eq!(lines.len(), 9);
    assert_eq!(lines[1].strip_prefix("Address = "), Some("10.2.0.1"));
    assert_eq!(lines[6].strip_prefix("PublicKey = "), Some("SERVER_PUB"));
    assert_eq!(lines[7].strip_prefix("Endpoint = "), Some("vpn.example:51820"));
}

#[test]
fn format_config_with_text_key() {
    let info = ConfigInfo { ip: ip(192, 168, 100, 255), priv_key: None };
    let server = ServerInfo { addr: "h:1".to_string(), pub_key: "P".to_string() };
    let text = String::from_utf8(format_config(&info, &server)).unwrap();
    assert_eq!(
        text,
        "[Interface]\nAddress = 192.168.100.255\nPrivateKey = <INSERT PRIVATE KEY>\nListenPort = 51820\n\n[Peer]\nPublicKey = P\nEndpoint = h:1\nAllowedIPs = 0.0.0.0/0, ::/0"
    );
    let with_key = ConfigInfo { ip: ip(0, 0, 0, 0), priv_key: Some("KEY".to_string()) };
    let text = String::from_utf8(format_config(&with_key, &server)).unwrap();
    assert!(text.starts_with("[Interface]\nAddress = 0.0.0.0\nPrivateKey = KEY\n"));
}

#[test]
fn dotted_decimal_text() {
    assert_eq!(ipv4_to_text(ip(10, 2, 0, 1)), b"10.2.0.1".to_vec());
    assert_eq!(ipv4_to_text(u32::MAX), b"255.255.255.255".to_vec());
    assert_eq!(ipv4_to_text(ip(1, 20, 100, 9)), b"1.20.100.9".to_vec());
}

#[test]
fn pair_token_round_trip() {
    let svc = Wgcfg::new(ip(10, 2, 0, 0), 24, 1, 200, "e:1".to_string(), &[0u8; 32], b"s3cret".to_vec());
    let token = svc.pair_code(ip(10, 2, 0, 5)).unwrap();
    assert_eq!(svc.pair_code(ip(10, 2, 0, 5)).unwrap(), token);
    assert_ne!(svc.pair_code(ip(10, 2, 0, 6)).unwrap(), token);
    assert_eq!(svc.paired_ip(&token), Ok(ip(10, 2, 0, 5)));
    let bytes = token.as_bytes();
    for i in 0..bytes.len() {
        for bit in 0..8 {
            let mut changed = bytes.to_vec();
            changed[i] ^= 1 << bit;
            if let Ok(t) = String::from_utf8(changed) {
                assert_ne!(svc.paired_ip(&t), Ok(ip(10, 2, 0, 5)), "byte {i} bit {bit}");
            }
        }
    }
    let other = Wgcfg::new(ip(10, 2, 0, 0), 24, 1, 200, "e:1".to_string(), &[0u8; 32], b"other".to_vec());
    assert_eq!(other.paired_ip(&token), Err(ServiceError::InvalidJwt));
    assert_eq!(svc.paired_ip("garbage"), Err(ServiceError::InvalidJwt));
}

#[test]
fn server_info_shows_endpoint_and_key() {
    let svc = Wgcfg::new(ip(10, 2, 0, 0), 24, 1, 200, "vpn.example:51820".to_string(), &[0u8; 32], vec![]);
    let info = svc.server_info();
    assert_eq!(info.addr, "vpn.example:51820");
    assert_eq!(info.pub_key, "AAAAAAAAAAAAAAAAAAAAAAAAAAAAAAAAAAAAAAAAAAA=");
}

#[test]
fn store_rows_are_read() {
    let row = ConfigRow {
        id: (1u128).to_be_bytes().to_vec(),
        user_id: (2u128).to_be_bytes().to_vec(),
        key: vec![3u8; 32],
        name: "n".to_string(),
        deleted: true,
        addr: ip(10, 2, 0, 4) as i64,
        priv_key: Some(vec![4u8; 32]),
    };
    let c = config_from_row(row).unwrap();
    assert_eq!((c.id, c.user_id, c.ip, c.deleted), (1, 2, ip(10, 2, 0, 4), true));
    assert_eq!(c.pub_key, [3u8; 32]);
    assert_eq!(c.priv_key, Some([4u8; 32]));

    let bad_id = ConfigRow { id: vec![1, 2], user_id: vec![0; 16], key: vec![0; 32], name: String::new(), deleted: false, addr: 0, priv_key: None };
    assert_eq!(config_from_row(bad_id).unwrap_err(), DatabaseError::InvalidUuidData);
    let bad_key = ConfigRow { id: vec![0; 16], user_id: vec![0; 16], key: vec![0; 31], name: String::new(), deleted: false, addr: 0, priv_key: None };
    assert_eq!(config_from_row(bad_key).unwrap_err(), DatabaseError::InvalidPubkeyData);

    let ok = ConfigRow { id: vec![0; 16], user_id: vec![0; 16], key: vec![9; 32], name: String::new(), deleted: false, addr: 0, priv_key: None };
    let full = full_config_from_row(ok, Some(100), None).unwrap();
    assert_eq!((full.stats.tx, full.stats.rx), (100, 0));
    assert_eq!(full.stats.pub_key, [9u8; 32]);
    assert_eq!(full.config.name, "");
    assert!(!full.config.deleted);
    let bad = ConfigRow { id: vec![0; 15], user_id: vec![0; 16], key: vec![9; 32], name: String::new(), deleted: false, addr: 0, priv_key: None };
    assert_eq!(full_config_from_row(bad, None, None).unwrap_err(), DatabaseError::InvalidUuidData);

    assert_eq!(read_uuid(&0x0102u128.to_be_bytes()), Ok(0x0102));
    let key = key_from_row(&[1u8; 32], "k".to_string(), &[0u8; 16]).unwrap();
    assert_eq!(key.key, [1u8; 32]);
    assert_eq!(key_from_row(&[1u8; 3], String::new(), &[0u8; 16]).unwrap_err(), DatabaseError::InvalidPubkeyData);
}

#[test]
fn request_status_codes() {
    assert_eq!(RequestStatus::from(0), RequestStatus::Pending);
    assert_eq!(RequestStatus::from(1), RequestStatus::Approved);
    assert_eq!(RequestStatus::from(2), RequestStatus::Declined);
    assert_eq!(RequestStatus::from(7), RequestStatus::Unknown);
    assert_eq!(RequestStatus::Declined.as_str(), "declined");
    assert_eq!(RequestStatus::Unknown.as_str(), "unknown");
    let r = Request::from_row(5, Some(-9), 1);
    assert_eq!(r.status, RequestStatus::Approved);
    assert_eq!(r.telegram_id, Some(-9));
}

#[test]
fn vpn_mode_words() {
    assert_eq!("double".parse::<VpnMode>(), Ok(VpnMode::Double));
    assert_eq!("single".parse::<VpnMode>(), Ok(VpnMode::Single));
    assert_eq!("triple".parse::<VpnMode>(), Err("unsupported".to_string()));
    assert_eq!(VpnMode::parse("Double"), None);
}
