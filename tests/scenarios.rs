use base64::engine::general_purpose::STANDARD;
use base64::Engine;

use wgcfg::attrs::{DeviceAttr, PeerAttr};
use wgcfg::configs::{Config, ServerInfo};
use wgcfg::error::{DatabaseError, NetlinkError, ServiceError};
use wgcfg::reconcile::init_plan;
use wgcfg::rules::{rule_request, settle_rule_change, RuleCommand, RULE_PRIORITY};
use wgcfg::service::{add_config_outcome, add_key_outcome, new_config_keys, User, Wgcfg};
use wgcfg::wireguard::{IpCidr, Peer};
use wgcfg::workers::Stats;

const NET: u32 = 0x0A02_0000;

fn ip(a: u8, b: u8, c: u8, d: u8) -> u32 {
    u32::from_be_bytes([a, b, c, d])
}

fn service() -> Wgcfg {
    Wgcfg::new(
        NET,
        24,
        7,
        200,
        "vpn.example:51820".to_string(),
        &[9u8; 32],
        b"server secret".to_vec(),
    )
}

fn config(n: u8, addr: u32, deleted: bool) -> Config {
    Config {
        id: n as u128,
        user_id: 1,
        ip: addr,
        pub_key: [n; 32],
        priv_key: None,
        name: format!("c{n}"),
        deleted,
    }
}

fn sample(key: [u8; 32], tx: u64, rx: u64) -> Peer {
    Peer::from_attrs(&vec![PeerAttr::PublicKey(key), PeerAttr::TxBytes(tx), PeerAttr::RxBytes(rx)])
}

#[test]
fn generate_config_in_empty_store() {
    let mut svc = service();
    let user = User { id: 42, roles: vec![] };
    let plan = svc.new_config(&user, "home".to_string(), None).unwrap();
    let record = &plan.config;
    let public = record.pub_key;
    let secret = record.priv_key.expect("a generated config knows its secret key");
    let expected = x25519_dalek::PublicKey::from(&x25519_dalek::StaticSecret::from(secret));
    assert_eq!(public, expected.to_bytes());
    assert_eq!(record.user_id, 42);
    assert_eq!(record.name, "home");
    assert_eq!(record.ip, ip(10, 2, 0, 1));
    assert!(!record.deleted);
    let addr = record.ip;

    let update = plan.update;
    assert!(!update.replace_peers);
    assert_eq!(update.peers.len(), 1);
    assert_eq!(update.peers[0].public_key, Some(public));
    assert_eq!(update.peers[0].allowed_ips, Some(vec![IpCidr::V4(ip(10, 2, 0, 1), 32)]));

    assert_eq!(plan.route, svc.route_for(addr));
    let route = plan.route;
    assert_eq!(route.destination, ip(10, 2, 0, 1));
    assert_eq!(route.destination_prefix_length, 32);
    assert_eq!(route.oif, 7);
}

#[test]
fn import_existing_public_key() {
    let k = [5u8; 32];
    let text = STANDARD.encode(k);
    let (public, secret) = new_config_keys(Some(&text)).unwrap();
    assert_eq!(public, k);
    assert_eq!(secret, None);
    let mut svc = service();
    let user = User { id: 42, roles: vec![] };
    let plan = svc.new_config(&user, "phone".to_string(), Some(&text)).unwrap();
    assert_eq!(plan.config.pub_key, k);
    assert_eq!(plan.config.priv_key, None);
    assert_eq!(plan.config.ip, ip(10, 2, 0, 1));

    let mut c = config(5, ip(10, 2, 0, 2), false);
    c.name = "phone".to_string();
    let server = ServerInfo { addr: "vpn.example:51820".to_string(), pub_key: "SERVER_PUB".to_string() };
    let file = String::from_utf8(c.config_file(&server)).unwrap();
    assert!(file.contains("\nPrivateKey = <INSERT PRIVATE KEY>\n"));
}

#[test]
fn invalid_key_hands_out_no_address() {
    let mut svc = service();
    let user = User { id: 42, roles: vec![] };
    assert_eq!(svc.new_config(&user, "x".to_string(), Some("%%%")).unwrap_err(), ServiceError::InvalidKey);
    let plan = svc.new_config(&user, "y".to_string(), None).unwrap();
    assert_eq!(plan.config.ip, ip(10, 2, 0, 1));
}

#[test]
fn pool_exhaustion_fails_new_config() {
    let mut svc = Wgcfg::new(ip(10, 9, 0, 0), 31, 1, 200, "e:1".to_string(), &[0u8; 32], vec![]);
    let user = User { id: 1, roles: vec![] };
    assert!(svc.new_config(&user, "a".to_string(), None).is_ok());
    assert!(svc.new_config(&user, "b".to_string(), None).is_ok());
    assert_eq!(svc.new_config(&user, "c".to_string(), None).unwrap_err(), ServiceError::IpPoolExhausted);
}

#[test]
fn duplicate_imported_key_is_refused_at_the_key_row() {
    let k = [5u8; 32];
    let text = STANDARD.encode(k);
    let mut svc = service();
    let user = User { id: 42, roles: vec![] };
    let first = svc.new_config(&user, "phone".to_string(), Some(&text)).unwrap();
    let again = svc.new_config(&user, "phone".to_string(), Some(&text)).unwrap();
    assert_eq!(again.config.pub_key, first.config.pub_key);
    assert_eq!(add_key_outcome(Ok(())), Ok(()));
    assert_eq!(add_key_outcome(Err(DatabaseError::Sqlx(Some(1555)))), Err(ServiceError::ClientAlreadyExists));
    assert_eq!(add_key_outcome(Err(DatabaseError::Sqlx(Some(2067)))), Err(ServiceError::ClientAlreadyExists));
    assert_eq!(
        add_key_outcome(Err(DatabaseError::Sqlx(Some(5)))),
        Err(ServiceError::Database(DatabaseError::Sqlx(Some(5))))
    );
    assert_eq!(add_key_outcome(Err(DatabaseError::Migration)), Err(ServiceError::Database(DatabaseError::Migration)));
}

#[test]
fn duplicate_public_key_is_refused() {
    let r = add_config_outcome(Err(DatabaseError::Sqlx(Some(2067))));
    assert_eq!(r, Err(ServiceError::ClientAlreadyExists));
    let other = add_config_outcome(Err(DatabaseError::Sqlx(Some(19))));
    assert_eq!(other, Err(ServiceError::Database(DatabaseError::Sqlx(Some(19)))));
    assert_eq!(add_config_outcome(Ok(())), Ok(()));
}

#[test]
fn reconciler_repairs_drift() {
    let configs = vec![config(1, ip(10, 2, 0, 1), false), config(2, ip(10, 2, 0, 2), false)];
    let mut svc = service();
    let plan = svc.init(&configs, &vec![ip(10, 2, 0, 2)]);
    assert!(plan.update.replace_peers);
    let keys: Vec<_> = plan.update.peers.iter().map(|p| p.public_key).collect();
    assert_eq!(keys, vec![Some([1u8; 32]), Some([2u8; 32])]);
    assert_eq!(plan.update.peers[1].allowed_ips, Some(vec![IpCidr::V4(ip(10, 2, 0, 2), 32)]));
    assert!(plan.update.peers.iter().all(|p| !p.remove));
    assert_eq!(plan.routes, vec![ip(10, 2, 0, 1), ip(10, 2, 0, 2)]);
    assert_eq!(plan.rules, vec![ip(10, 2, 0, 2)]);
    assert_eq!(plan.advance, 2);
    let user = User { id: 1, roles: vec![] };
    let next = svc.new_config(&user, "c3".to_string(), None).unwrap();
    assert_eq!(next.config.ip, ip(10, 2, 0, 3));

    let attrs = wgcfg::attrs::set_device_attrs(
        wgcfg::wireguard::WireguardInterfaceId::Index(7),
        plan.update,
    );
    assert!(matches!(attrs[0], DeviceAttr::IfIndex(7)));
    assert!(matches!(attrs[1], DeviceAttr::Flags(1)));
    match &attrs[2] {
        DeviceAttr::Peers(ps) => assert_eq!(ps.len(), 2),
        _ => panic!("peers expected"),
    }
}

#[test]
fn init_skips_deleted_configs() {
    let configs = vec![
        config(1, ip(10, 2, 0, 1), false),
        config(2, ip(10, 2, 0, 2), true),
        config(3, ip(10, 2, 0, 3), false),
    ];
    let plan = init_plan(&configs, &vec![ip(10, 2, 0, 2), ip(10, 2, 0, 3)]);
    let keys: Vec<_> = plan.update.peers.iter().map(|p| p.public_key).collect();
    assert_eq!(keys, vec![Some([1u8; 32]), Some([3u8; 32])]);
    assert_eq!(plan.routes, vec![ip(10, 2, 0, 1), ip(10, 2, 0, 3)]);
    assert_eq!(plan.rules, vec![ip(10, 2, 0, 3)]);
    assert_eq!(plan.advance, 3);
}

#[test]
fn stats_with_counter_reset() {
    let k = [3u8; 32];
    let mut stats = Stats::new("wg0".to_string());
    let first = stats.cycle(&vec![sample(k, 1000, 2000)]);
    assert_eq!(first, vec![(k, 1000, 2000)]);
    let reset = stats.cycle(&vec![sample(k, 500, 1500)]);
    assert!(reset.is_empty());
    let next = stats.cycle(&vec![sample(k, 800, 1800)]);
    assert_eq!(next, vec![(k, 300, 300)]);
    assert_eq!(stats.id(), "wg0");
}

#[test]
fn double_vpn_toggle() {
    let svc = service();
    let on = svc.change_settings(ip(10, 2, 0, 1), true);
    assert_eq!(on.command, RuleCommand::NewRule);
    assert_eq!(on.priority, RULE_PRIORITY);
    assert_eq!(on.priority, 1000);
    assert_eq!(on.table, 200);
    assert_eq!(on.source, ip(10, 2, 0, 1));
    assert_eq!(on.src_len, 32);
    assert_eq!(settle_rule_change(true, Ok(())), Ok(()));
    assert_eq!(settle_rule_change(true, Err(NetlinkError::AlreadyExists)), Ok(()));

    let off = rule_request(ip(10, 2, 0, 1), 200, false);
    assert_eq!(off.command, RuleCommand::DelRule);
    assert_eq!(off.flags, 0x1 | 0x4);
    assert_eq!(settle_rule_change(false, Ok(())), Ok(()));
    assert_eq!(settle_rule_change(false, Err(NetlinkError::NotFound)), Ok(()));
}
