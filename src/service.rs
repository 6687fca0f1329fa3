//! Users, roles and the decisions of the service operations: who may act on
//! a config, what a new config's keys are, how store answers map to service
//! errors, and what each operation asks of the kernel.

use vstd::prelude::*;

use crate::attrs::zero_host_part_v4;
use crate::configs::{Config, FullConfig, ServerInfo};
use crate::pair::{sign_token, signed_token, token_claim, verify_token};
use crate::pool::{first_host, last_host, IpPool};
use crate::reconcile::{init_plan, live_ips, live_rule_ips, restores_live, InitPlan};
use crate::rules::{
    double_vpn_rule, host_route, route_request, rule_request, RouteRequest, RuleRequest,
};
use crate::error::{DatabaseError, ServiceError, SQLITE_CONSTRAINT_UNIQUE};
use crate::keys::{
    base64_bytes, base64_text, decode_public_key, generate_key_pair, is_key_text, key_to_base64,
    x25519_public, Key,
};
use crate::wireguard::{
    add_peer_update, adds_host_peer, apply_update, host_cidr, remove_peer_update, PeerSet, WireguardUpdate,
};

verus! {

/// Identifier of the administrator role,
/// `22129c89-7069-49ce-9f4a-f85004a7f230`.
pub const ADMIN: u128 = 0x22129c89_7069_49ce_9f4a_f85004a7f230;

/// An external identity: a chat id of the chat platform.
#[derive(Debug, Clone, Copy, PartialEq, Eq, Structural)]
pub enum Association {
    Telegram(i64),
}

/// A tunnel address a chat user is paired with, and its name if it has one.
#[derive(Debug, Clone)]
pub struct ClientInfo {
    pub ip: u32,
    pub name: Option<String>,
}

/// A user and the roles it holds.
#[derive(Debug, Clone)]
pub struct User {
    pub id: u128,
    pub roles: Vec<u128>,
}

/// Whether a user holds the administrator role.
pub open spec fn admin(user: User) -> bool {
    user.roles@.contains(ADMIN)
}

impl User {
    /// Whether this user holds the administrator role.
    pub fn is_admin(&self) -> (r: bool)
        ensures
            r == admin(*self),
    {
        let mut i: usize = 0;
        while i < self.roles.len()
            invariant
                i <= self.roles@.len(),
                forall|j: int| 0 <= j < i ==> self.roles@[j] != ADMIN,
            decreases self.roles@.len() - i,
        {
            if self.roles[i] == ADMIN {
                return true;
            }
            i = i + 1;
        }
        false
    }
}

/// Whether `user` may act on something owned by `owner`: it is the owner or an
/// administrator.
pub open spec fn may_access(user: User, owner: u128) -> bool {
    owner == user.id || admin(user)
}

/// The outcome of the access check on a row owned by `owner`, if the row
/// exists: a missing row is `NotFound`, a foreign one `AccessDenied`.
pub open spec fn access(user: User, owner: Option<u128>) -> Result<(), ServiceError> {
    match owner {
        None => Err(ServiceError::NotFound),
        Some(o) => if may_access(user, o) {
            Ok(())
        } else {
            Err(ServiceError::AccessDenied)
        },
    }
}

/// Checks that `user` may act on a row owned by `owner`, if the row exists.
pub fn check_access(user: &User, owner: Option<u128>) -> (r: Result<(), ServiceError>)
    ensures
        r == access(*user, owner),
{
    match owner {
        None => Err(ServiceError::NotFound),
        Some(o) => {
            if o == user.id || user.is_admin() {
                Ok(())
            } else {
                Err(ServiceError::AccessDenied)
            }
        },
    }
}

/// Authorization: a user that is not an administrator is refused every
/// config-scoped operation on a config that it does not own, with
/// `AccessDenied`; reading, removing and renaming all go through this check
/// before they change anything.
pub proof fn lemma_foreign_config_denied(user: User, owner: u128)
    requires
        !admin(user),
        owner != user.id,
    ensures
        access(user, Some(owner)) == Err::<(), ServiceError>(ServiceError::AccessDenied),
{
}

/// What removing a config asks for: mark the config deleted in the store,
/// then remove its peer from the kernel.
#[derive(Debug)]
pub struct RemovalPlan {
    pub config_id: u128,
    pub update: WireguardUpdate,
}

/// A change of one user's role.
#[derive(Debug, Clone, Copy, PartialEq, Eq, Structural)]
pub struct RoleChange {
    pub user_id: u128,
    pub role_id: u128,
    /// Grant the role (or revoke it).
    pub grant: bool,
}

/// Whether a supplied key, if any, is the base64 text of 32 bytes.
pub open spec fn key_acceptable(key: Option<&str>) -> bool {
    match key {
        Some(s) => is_key_text(s@),
        None => true,
    }
}

/// What creating a config asks for: the config row to store (with its key
/// row), the peer update for the kernel and the host route.
#[derive(Debug)]
pub struct NewConfigPlan {
    pub config: Config,
    pub update: WireguardUpdate,
    pub route: RouteRequest,
}

/// The keys of a new config: a supplied public key must be the base64 text of
/// 32 bytes, and the server never learns its secret; without one a fresh key
/// pair is generated.
pub fn new_config_keys(key: Option<&str>) -> (r: Result<([u8; 32], Option<[u8; 32]>), ServiceError>)
    ensures
        match key {
            Some(s) => if is_key_text(s@) {
                &&& r.is_ok()
                &&& Some(r.unwrap().0@) == base64_bytes(s@)
                &&& r.unwrap().1.is_none()
            } else {
                r == Err::<([u8; 32], Option<[u8; 32]>), ServiceError>(ServiceError::InvalidKey)
            },
            None => {
                &&& r.is_ok()
                &&& r.unwrap().1.is_some()
                &&& r.unwrap().0@ == x25519_public(r.unwrap().1.unwrap()@)
            },
        },
{
    match key {
        Some(s) => {
            match decode_public_key(s) {
                Ok(k) => Ok((k, None)),
                Err(e) => Err(e),
            }
        },
        None => {
            let (public, secret) = generate_key_pair();
            Ok((public, Some(secret)))
        },
    }
}

/// The database's error code for a violated primary key.
pub const SQLITE_CONSTRAINT_PRIMARYKEY: u32 = 1555;

/// The service's answer to the store's answer when a new config's key row is
/// inserted: a key that is already stored (its primary key or a unique
/// constraint is violated) is `ClientAlreadyExists`, any other store error
/// passes through.
pub fn add_key_outcome(r: Result<(), DatabaseError>) -> (s: Result<(), ServiceError>)
    ensures
        match r {
            Ok(()) => s == Ok::<(), ServiceError>(()),
            Err(DatabaseError::Sqlx(Some(code))) => if code == SQLITE_CONSTRAINT_UNIQUE || code
                == SQLITE_CONSTRAINT_PRIMARYKEY {
                s == Err::<(), ServiceError>(ServiceError::ClientAlreadyExists)
            } else {
                s == Err::<(), ServiceError>(ServiceError::Database(DatabaseError::Sqlx(Some(code))))
            },
            Err(e) => s == Err::<(), ServiceError>(ServiceError::Database(e)),
        },
{
    match r {
        Ok(()) => Ok(()),
        Err(DatabaseError::Sqlx(Some(code))) => {
            if code == SQLITE_CONSTRAINT_UNIQUE || code == SQLITE_CONSTRAINT_PRIMARYKEY {
                Err(ServiceError::ClientAlreadyExists)
            } else {
                Err(ServiceError::Database(DatabaseError::Sqlx(Some(code))))
            }
        },
        Err(e) => Err(ServiceError::Database(e)),
    }
}

/// The service's answer to the store's answer when a config is inserted: a
/// violated unique constraint (the public key is already used) is
/// `ClientAlreadyExists`, any other store error passes through.
pub fn add_config_outcome(r: Result<(), DatabaseError>) -> (s: Result<(), ServiceError>)
    ensures
        match r {
            Ok(()) => s == Ok::<(), ServiceError>(()),
            Err(DatabaseError::Sqlx(Some(code))) => if code == SQLITE_CONSTRAINT_UNIQUE {
                s == Err::<(), ServiceError>(ServiceError::ClientAlreadyExists)
            } else {
                s == Err::<(), ServiceError>(ServiceError::Database(DatabaseError::Sqlx(Some(code))))
            },
            Err(e) => s == Err::<(), ServiceError>(ServiceError::Database(e)),
        },
{
    match r {
        Ok(()) => Ok(()),
        Err(DatabaseError::Sqlx(Some(code))) => {
            if code == SQLITE_CONSTRAINT_UNIQUE {
                Err(ServiceError::ClientAlreadyExists)
            } else {
                Err(ServiceError::Database(DatabaseError::Sqlx(Some(code))))
            }
        },
        Err(e) => Err(ServiceError::Database(e)),
    }
}

/// Relies on uuid's `Uuid::new_v4`: a random identifier.
#[verifier::external_body]
fn random_id() -> (r: u128) {
    uuid::Uuid::new_v4().as_u128()
}

/// Statistics of one peer.
#[derive(Debug, Clone, Copy, PartialEq, Eq, Structural)]
pub struct PeerInfo {
    pub tx: u64,
    pub rx: u64,
}

/// The service's own state: the IP cursor, the managed interface, the
/// double-VPN table, what clients are told about the server, and the secret
/// that signs pair tokens.
#[derive(Debug)]
pub struct Wgcfg {
    pub pool: IpPool,
    pub iface: u32,
    pub dvpn_table: u32,
    pub endpoint: String,
    pub pub_key: String,
    pub secret: Vec<u8>,
}

impl Wgcfg {
    pub open spec fn wf(&self) -> bool {
        self.pool.wf()
    }

    /// Reading a config with its statistics: the row as found, if `user` may see it.
    pub fn config(&self, user: &User, found: Option<FullConfig>) -> (r: Result<FullConfig, ServiceError>)
        ensures
            match found {
                None => r == Err::<FullConfig, ServiceError>(ServiceError::NotFound),
                Some(c) => if may_access(*user, c.config.user_id) {
                    r == Ok::<FullConfig, ServiceError>(c)
                } else {
                    r == Err::<FullConfig, ServiceError>(ServiceError::AccessDenied)
                },
            },
    {
        match found {
            None => Err(ServiceError::NotFound),
            Some(c) => {
                match check_access(user, Some(c.config.user_id)) {
                    Ok(()) => Ok(c),
                    Err(e) => Err(e),
                }
            },
        }
    }

    /// Reading a stored key: the row as found, if `user` may see it.
    pub fn key(&self, user: &User, found: Option<Key>) -> (r: Result<Key, ServiceError>)
        ensures
            match found {
                None => r == Err::<Key, ServiceError>(ServiceError::NotFound),
                Some(k) => if may_access(*user, k.user_id) {
                    r == Ok::<Key, ServiceError>(k)
                } else {
                    r == Err::<Key, ServiceError>(ServiceError::AccessDenied)
                },
            },
    {
        match found {
            None => Err(ServiceError::NotFound),
            Some(k) => {
                match check_access(user, Some(k.user_id)) {
                    Ok(()) => Ok(k),
                    Err(e) => Err(e),
                }
            },
        }
    }

    /// Plans the removal of a config found in the store, if `user` may remove it.
    pub fn rm_config(&self, user: &User, found: Option<Config>) -> (r: Result<RemovalPlan, ServiceError>)
        ensures
            match found {
                None => r == Err::<RemovalPlan, ServiceError>(ServiceError::NotFound),
                Some(c) => if may_access(*user, c.user_id) {
                    &&& r.is_ok()
                    &&& r.unwrap().config_id == c.id
                    &&& !r.unwrap().update.replace_peers
                    &&& r.unwrap().update.peers@.len() == 1
                    &&& r.unwrap().update.peers@[0].public_key == Some(c.pub_key)
                    &&& r.unwrap().update.peers@[0].allowed_ips.is_none()
                    &&& r.unwrap().update.peers@[0].remove
                    &&& forall|k: PeerSet| #[trigger] apply_update(k, r.unwrap().update) == k.remove(c.pub_key@)
                } else {
                    r == Err::<RemovalPlan, ServiceError>(ServiceError::AccessDenied)
                },
            },
    {
        match found {
            None => Err(ServiceError::NotFound),
            Some(c) => {
                match check_access(user, Some(c.user_id)) {
                    Ok(()) => Ok(RemovalPlan { config_id: c.id, update: remove_peer_update(c.pub_key) }),
                    Err(e) => Err(e),
                }
            },
        }
    }

    /// The config to store when `user` renames a config found in the store: the
    /// same config under the new name.
    pub fn rename_config(&self, user: &User, found: Option<Config>, name: &str) -> (r: Result<Config, ServiceError>)
        ensures
            match found {
                None => r == Err::<Config, ServiceError>(ServiceError::NotFound),
                Some(c) => if may_access(*user, c.user_id) {
                    &&& r.is_ok()
                    &&& r.unwrap().name@ == name@
                    &&& r.unwrap().id == c.id
                    &&& r.unwrap().user_id == c.user_id
                    &&& r.unwrap().ip == c.ip
                    &&& r.unwrap().pub_key == c.pub_key
                    &&& r.unwrap().priv_key == c.priv_key
                    &&& r.unwrap().deleted == c.deleted
                } else {
                    r == Err::<Config, ServiceError>(ServiceError::AccessDenied)
                },
            },
    {
        match found {
            None => Err(ServiceError::NotFound),
            Some(c) => {
                match check_access(user, Some(c.user_id)) {
                    Ok(()) => Ok(Config { name: name.to_owned(), ..c }),
                    Err(e) => Err(e),
                }
            },
        }
    }

    /// Granting the administrator role to `target`: only an administrator may
    /// do it.
    pub fn add_admin(&self, user: &User, target: u128) -> (r: Result<RoleChange, ServiceError>)
        ensures
            admin(*user) ==> r == Ok::<RoleChange, ServiceError>(
                RoleChange { user_id: target, role_id: ADMIN, grant: true },
            ),
            !admin(*user) ==> r == Err::<RoleChange, ServiceError>(ServiceError::AccessDenied),
    {
        if !user.is_admin() {
            return Err(ServiceError::AccessDenied);
        }
        Ok(RoleChange { user_id: target, role_id: ADMIN, grant: true })
    }

    /// Revoking the administrator role of `target`: only an administrator may
    /// do it.
    pub fn rm_admin(&self, user: &User, target: u128) -> (r: Result<RoleChange, ServiceError>)
        ensures
            admin(*user) ==> r == Ok::<RoleChange, ServiceError>(
                RoleChange { user_id: target, role_id: ADMIN, grant: false },
            ),
            !admin(*user) ==> r == Err::<RoleChange, ServiceError>(ServiceError::AccessDenied),
    {
        if !user.is_admin() {
            return Err(ServiceError::AccessDenied);
        }
        Ok(RoleChange { user_id: target, role_id: ADMIN, grant: false })
    }

    /// The service for the client network `network/prefix` on the interface
    /// with index `iface` and public key `server_key`.
    pub fn new(
        network: u32,
        prefix: u8,
        iface: u32,
        dvpn_table: u32,
        endpoint: String,
        server_key: &[u8; 32],
        secret: Vec<u8>,
    ) -> (r: Wgcfg)
        requires
            prefix <= 32,
            zero_host_part_v4(network, prefix),
        ensures
            r.wf(),
            r.pool.first() == first_host(network, prefix),
            r.pool.last() == last_host(network, prefix),
            r.pool.cursor() == r.pool.first(),
            r.iface == iface,
            r.dvpn_table == dvpn_table,
            r.endpoint@ == endpoint@,
            r.pub_key@ == base64_text(server_key@),
            r.secret@ == secret@,
    {
        Wgcfg {
            pool: IpPool::new(network, prefix),
            iface,
            dvpn_table,
            endpoint,
            pub_key: key_to_base64(server_key),
            secret,
        }
    }

    /// What clients are told about the server.
    pub fn server_info(&self) -> (r: ServerInfo)
        ensures
            r.addr@ == self.endpoint@,
            r.pub_key@ == self.pub_key@,
    {
        ServerInfo { addr: self.endpoint.clone(), pub_key: self.pub_key.clone() }
    }

    /// A new config for `user`: its keys (the supplied base64 public key, or a
    /// fresh key pair), the next free address, a fresh identifier, and what
    /// the kernel is asked for: an incremental update adding the peer with
    /// `ip/32`, and the host route to `ip`. An invalid key hands out no
    /// address.
    pub fn new_config(&mut self, user: &User, name: String, key: Option<&str>) -> (r: Result<
        NewConfigPlan,
        ServiceError,
    >)
        requires
            old(self).wf(),
        ensures
            final(self).wf(),
            final(self).iface == old(self).iface,
            final(self).dvpn_table == old(self).dvpn_table,
            final(self).endpoint == old(self).endpoint,
            final(self).pub_key == old(self).pub_key,
            final(self).secret == old(self).secret,
            final(self).pool.first() == old(self).pool.first(),
            final(self).pool.last() == old(self).pool.last(),
            !key_acceptable(key) ==> {
                &&& r == Err::<NewConfigPlan, ServiceError>(ServiceError::InvalidKey)
                &&& final(self).pool == old(self).pool
            },
            key_acceptable(key) && old(self).pool.cursor() > old(self).pool.last() ==> {
                &&& r == Err::<NewConfigPlan, ServiceError>(ServiceError::IpPoolExhausted)
                &&& final(self).pool == old(self).pool
            },
            key_acceptable(key) && old(self).pool.cursor() <= old(self).pool.last() ==> {
                let ip = old(self).pool.cursor() as u32;
                &&& r.is_ok()
                &&& r.unwrap().config.ip as int == old(self).pool.cursor()
                &&& !old(self).pool.issued().contains(old(self).pool.cursor())
                &&& final(self).pool.issued() == old(self).pool.issued().insert(old(self).pool.cursor())
                &&& r.unwrap().config.ip == ip
                &&& r.unwrap().config.user_id == user.id
                &&& r.unwrap().config.name@ == name@
                &&& !r.unwrap().config.deleted
                &&& match key {
                    Some(s) => {
                        &&& Some(r.unwrap().config.pub_key@) == base64_bytes(s@)
                        &&& r.unwrap().config.priv_key.is_none()
                    },
                    None => {
                        &&& r.unwrap().config.priv_key.is_some()
                        &&& r.unwrap().config.pub_key@ == x25519_public(
                            r.unwrap().config.priv_key.unwrap()@,
                        )
                    },
                }
                &&& !r.unwrap().update.replace_peers
                &&& r.unwrap().update.peers@.len() == 1
                &&& adds_host_peer(r.unwrap().update.peers@[0], r.unwrap().config.pub_key@, ip)
                &&& forall|k: PeerSet|
                    #[trigger] apply_update(k, r.unwrap().update) == k.insert(
                        r.unwrap().config.pub_key@,
                        (if k.contains_key(r.unwrap().config.pub_key@) {
                            k[r.unwrap().config.pub_key@]
                        } else {
                            Set::empty()
                        }).insert(host_cidr(ip)),
                    )
                &&& r.unwrap().route == host_route(ip, old(self).iface)
            },
    {
        let keys = match new_config_keys(key) {
            Ok(k) => k,
            Err(e) => return Err(e),
        };
        let ip = match self.pool.allocate() {
            Ok(ip) => ip,
            Err(e) => return Err(e),
        };
        let config = Config {
            id: random_id(),
            user_id: user.id,
            ip,
            pub_key: keys.0,
            priv_key: keys.1,
            name,
            deleted: false,
        };
        let update = add_peer_update(config.pub_key, ip);
        let route = route_request(ip, self.iface);
        Ok(NewConfigPlan { config, update, route })
    }

    /// The host route a new or restored config needs.
    pub fn route_for(&self, ip: u32) -> (r: RouteRequest)
        ensures
            r.destination == ip,
            r.oif == self.iface,
            r == host_route(ip, self.iface),
    {
        route_request(ip, self.iface)
    }

    /// The rule change that a double-VPN setting asks for.
    pub fn change_settings(&self, ip: u32, double_vpn: bool) -> (r: RuleRequest)
        ensures
            r == double_vpn_rule(ip, self.dvpn_table, double_vpn),
    {
        rule_request(ip, self.dvpn_table, double_vpn)
    }

    /// Startup reconciliation: plans the restore of the kernel state for the
    /// stored configs and their double-VPN settings, and moves the IP cursor past every stored config,
    /// deleted ones included.
    pub fn init(&mut self, configs: &Vec<Config>, double_vpn: &Vec<u32>) -> (r: InitPlan)
        requires
            old(self).wf(),
        ensures
            final(self).wf(),
            r.update.replace_peers,
            restores_live(r.update.peers@, configs@),
            r.routes@ == live_ips(configs@),
            r.rules@ == live_rule_ips(configs@, double_vpn@),
            r.advance == configs@.len(),
            final(self).pool.first() == old(self).pool.first(),
            final(self).pool.last() == old(self).pool.last(),
            final(self).pool.cursor() == if old(self).pool.cursor() + configs@.len() > old(self).pool.last()
                + 1 {
                old(self).pool.last() + 1
            } else {
                old(self).pool.cursor() + configs@.len()
            },
            final(self).iface == old(self).iface,
            final(self).dvpn_table == old(self).dvpn_table,
    {
        let plan = init_plan(configs, double_vpn);
        self.pool.advance(plan.advance);
        plan
    }

    /// A pair token for `ip`, signed with the service's secret.
    pub fn pair_code(&self, ip: u32) -> (r: Result<String, ServiceError>)
        ensures
            r.is_ok(),
            r.unwrap()@ == signed_token(self.secret@, ip),
    {
        Ok(sign_token(self.secret.as_slice(), ip).unwrap())
    }

    /// The address a pair token carries, if its signature is the service's;
    /// `InvalidJwt` otherwise.
    pub fn paired_ip(&self, token: &str) -> (r: Result<u32, ServiceError>)
        ensures
            match token_claim(self.secret@, token@) {
                Some(ip) => r == Ok::<u32, ServiceError>(ip),
                None => r == Err::<u32, ServiceError>(ServiceError::InvalidJwt),
            },
            forall|ip: u32| #[trigger] signed_token(self.secret@, ip) == token@ ==> r == Ok::<u32, ServiceError>(ip),
    {
        match verify_token(self.secret.as_slice(), token) {
            Some(ip) => Ok(ip),
            None => Err(ServiceError::InvalidJwt),
        }
    }
}

/// Whether the configs that are not deleted have pairwise distinct addresses.
pub open spec fn live_ips_distinct(cs: Seq<Config>) -> bool {
    forall|i: int, j: int|
        0 <= i < cs.len() && 0 <= j < cs.len() && i != j && !cs[i].deleted && !cs[j].deleted ==> (
        #[trigger] cs[i]).ip != (#[trigger] cs[j]).ip
}

/// Whether every stored config's address was handed out by the allocator.
pub open spec fn ips_issued(cs: Seq<Config>, issued: Set<int>) -> bool {
    forall|i: int| 0 <= i < cs.len() ==> issued.contains((#[trigger] cs[i]).ip as int)
}

/// IP uniqueness, creation step: when every stored address was handed out by
/// the allocator and the live ones are distinct, storing a new config at an
/// address the allocator had not handed out before keeps the live addresses
/// distinct, and every stored address handed out.
pub proof fn lemma_new_config_keeps_ips_unique(cs: Seq<Config>, issued: Set<int>, c: Config)
    requires
        live_ips_distinct(cs),
        ips_issued(cs, issued),
        !issued.contains(c.ip as int),
    ensures
        live_ips_distinct(cs.push(c)),
        ips_issued(cs.push(c), issued.insert(c.ip as int)),
{
    let n = cs.len() as int;
    assert forall|i: int, j: int|
        0 <= i < n + 1 && 0 <= j < n + 1 && i != j && !cs.push(c)[i].deleted && !cs.push(
            c,
        )[j].deleted implies (#[trigger] cs.push(c)[i]).ip != (#[trigger] cs.push(c)[j]).ip by {
        if i < n && j < n {
            assert(cs.push(c)[i] == cs[i] && cs.push(c)[j] == cs[j]);
        } else if i < n {
            assert(issued.contains(cs[i].ip as int));
        } else {
            assert(issued.contains(cs[j].ip as int));
        }
    }
    assert forall|i: int| 0 <= i < n + 1 implies issued.insert(c.ip as int).contains(
        (#[trigger] cs.push(c)[i]).ip as int,
    ) by {
        if i < n {
            assert(cs.push(c)[i] == cs[i]);
        }
    }
}

/// IP uniqueness, removal step: marking a stored config deleted keeps the
/// live addresses distinct and every stored address handed out.
pub proof fn lemma_rm_config_keeps_ips_unique(cs: Seq<Config>, issued: Set<int>, k: int)
    requires
        live_ips_distinct(cs),
        ips_issued(cs, issued),
        0 <= k < cs.len(),
    ensures
        live_ips_distinct(cs.update(k, Config { deleted: true, ..cs[k] })),
        ips_issued(cs.update(k, Config { deleted: true, ..cs[k] }), issued),
{
    let after = cs.update(k, Config { deleted: true, ..cs[k] });
    assert forall|i: int, j: int|
        0 <= i < after.len() && 0 <= j < after.len() && i != j && !after[i].deleted
            && !after[j].deleted implies (#[trigger] after[i]).ip != (#[trigger] after[j]).ip by {
        assert(after[i] == cs[i] && after[j] == cs[j]);
    }
    assert forall|i: int| 0 <= i < after.len() implies issued.contains((#[trigger] after[i]).ip as int) by {
        assert(after[i].ip == cs[i].ip);
    }
}

} // verus!
