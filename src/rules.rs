//! Host routes and source-based policy rules: the requests that install them,
//! and how the kernel's answers are settled.

use vstd::prelude::*;

use crate::error::{NetlinkError, ServiceError};

verus! {

/// Netlink header flag: this is a request.
pub const NLM_F_REQUEST: u16 = 0x1;

/// Netlink header flag: acknowledge the request.
pub const NLM_F_ACK: u16 = 0x4;

/// Netlink header flag: fail if the entry exists.
pub const NLM_F_EXCL: u16 = 0x200;

/// Netlink header flag: create the entry if it does not exist.
pub const NLM_F_CREATE: u16 = 0x400;

/// Address family of IPv4.
pub const AF_INET: u8 = 2;

/// Route protocol: installed during boot.
pub const RTPROT_BOOT: u8 = 3;

/// Route scope: destination on the link.
pub const RT_SCOPE_LINK: u8 = 253;

/// Route kind: a gateway or direct route.
pub const RTN_UNICAST: u8 = 1;

/// The main routing table.
pub const RT_TABLE_MAIN: u8 = 254;

/// The local routing table.
pub const RT_TABLE_LOCAL: u8 = 255;

/// Rule action: look up another table.
pub const FR_ACT_TO_TBL: u8 = 1;

/// Priority of the per-client double-VPN rule.
pub const RULE_PRIORITY: u32 = 1000;

/// A request for a host route to `destination/32` out of an interface.
#[derive(Debug, Clone, Copy, PartialEq, Eq, Structural)]
pub struct RouteRequest {
    pub flags: u16,
    pub family: u8,
    pub protocol: u8,
    pub scope: u8,
    pub kind: u8,
    pub table: u8,
    pub destination_prefix_length: u8,
    /// Destination address, most significant octet first.
    pub destination: u32,
    /// Output interface index.
    pub oif: u32,
}

/// The kind of a rule request.
#[derive(Debug, Clone, Copy, PartialEq, Eq, Structural)]
pub enum RuleCommand {
    NewRule,
    DelRule,
}

/// A request that adds or deletes the rule `from source lookup table
/// priority 1000`.
#[derive(Debug, Clone, Copy, PartialEq, Eq, Structural)]
pub struct RuleRequest {
    pub command: RuleCommand,
    pub flags: u16,
    pub family: u8,
    pub base_table: u8,
    pub action: u8,
    pub src_len: u8,
    pub priority: u32,
    pub table: u32,
    /// Source address, most significant octet first.
    pub source: u32,
}

/// The host route `addr/32` out of `iface`.
pub open spec fn host_route(addr: u32, iface: u32) -> RouteRequest {
    RouteRequest {
        flags: NLM_F_REQUEST | NLM_F_CREATE | NLM_F_ACK,
        family: AF_INET,
        protocol: RTPROT_BOOT,
        scope: RT_SCOPE_LINK,
        kind: RTN_UNICAST,
        table: RT_TABLE_MAIN,
        destination_prefix_length: 32,
        destination: addr,
        oif: iface,
    }
}

/// The request that adds (`enable`) or deletes the double-VPN rule for `addr`.
pub open spec fn double_vpn_rule(addr: u32, table: u32, enable: bool) -> RuleRequest {
    RuleRequest {
        command: if enable {
            RuleCommand::NewRule
        } else {
            RuleCommand::DelRule
        },
        flags: if enable {
            NLM_F_REQUEST | NLM_F_CREATE | NLM_F_EXCL | NLM_F_ACK
        } else {
            NLM_F_REQUEST | NLM_F_ACK
        },
        family: AF_INET,
        base_table: RT_TABLE_LOCAL,
        action: FR_ACT_TO_TBL,
        src_len: 32,
        priority: RULE_PRIORITY,
        table,
        source: addr,
    }
}

/// The request that installs the host route `addr/32` out of `iface`.
pub fn route_request(addr: u32, iface: u32) -> (r: RouteRequest)
    ensures
        r == host_route(addr, iface),
{
    RouteRequest {
        flags: NLM_F_REQUEST | NLM_F_CREATE | NLM_F_ACK,
        family: AF_INET,
        protocol: RTPROT_BOOT,
        scope: RT_SCOPE_LINK,
        kind: RTN_UNICAST,
        table: RT_TABLE_MAIN,
        destination_prefix_length: 32,
        destination: addr,
        oif: iface,
    }
}

/// The request that adds (`enable`) or deletes the double-VPN rule for `addr`.
pub fn rule_request(addr: u32, table: u32, enable: bool) -> (r: RuleRequest)
    ensures
        r == double_vpn_rule(addr, table, enable),
{
    RuleRequest {
        command: if enable {
            RuleCommand::NewRule
        } else {
            RuleCommand::DelRule
        },
        flags: if enable {
            NLM_F_REQUEST | NLM_F_CREATE | NLM_F_EXCL | NLM_F_ACK
        } else {
            NLM_F_REQUEST | NLM_F_ACK
        },
        family: AF_INET,
        base_table: RT_TABLE_LOCAL,
        action: FR_ACT_TO_TBL,
        src_len: 32,
        priority: RULE_PRIORITY,
        table,
        source: addr,
    }
}

/// Whether a kernel answer to a rule change is benign: the rule was already
/// there when enabling, or already gone when disabling.
pub open spec fn is_benign(enable: bool, e: NetlinkError) -> bool {
    if enable {
        e == NetlinkError::AlreadyExists
    } else {
        e == NetlinkError::NotFound
    }
}

/// The settled outcome of a rule change: benign answers count as success,
/// other errors surface.
pub open spec fn settled(enable: bool, r: Result<(), NetlinkError>) -> Result<(), ServiceError> {
    match r {
        Ok(()) => Ok(()),
        Err(e) => if is_benign(enable, e) {
            Ok(())
        } else {
            Err(ServiceError::RulesError(e))
        },
    }
}

/// Settles the kernel's answer to a rule change.
pub fn settle_rule_change(enable: bool, r: Result<(), NetlinkError>) -> (s: Result<(), ServiceError>)
    ensures
        s == settled(enable, r),
{
    match r {
        Ok(()) => Ok(()),
        Err(e) => {
            if (enable && e == NetlinkError::AlreadyExists) || (!enable && e == NetlinkError::NotFound) {
                Ok(())
            } else {
                Err(ServiceError::RulesError(e))
            }
        },
    }
}

/// The kernel's policy rules of this kind: `(source, table)` pairs.
pub type RuleSet = Set<(u32, u32)>;

/// The kernel's answer to a rule change, and the rules after it: an exclusive
/// add of a present rule fails with `AlreadyExists`, a delete of an absent
/// rule with `NotFound`; otherwise the rule is added or removed.
pub open spec fn rule_change(rules: RuleSet, addr: u32, table: u32, enable: bool) -> (RuleSet, Result<(), NetlinkError>) {
    if enable {
        if rules.contains((addr, table)) {
            (rules, Err(NetlinkError::AlreadyExists))
        } else {
            (rules.insert((addr, table)), Ok(()))
        }
    } else {
        if rules.contains((addr, table)) {
            (rules.remove((addr, table)), Ok(()))
        } else {
            (rules, Err(NetlinkError::NotFound))
        }
    }
}

/// The rules and the settled outcome of one double-VPN setting change.
pub open spec fn setting_change(rules: RuleSet, addr: u32, table: u32, enable: bool) -> (RuleSet, Result<(), ServiceError>) {
    let (after, answer) = rule_change(rules, addr, table, enable);
    (after, settled(enable, answer))
}

/// Rule idempotence: changing a client's double-VPN setting twice to the same
/// value leaves the same rules and the same outcome as changing it once; the
/// outcome is success, whatever rules were there before.
pub proof fn lemma_setting_idempotent(rules: RuleSet, addr: u32, table: u32, enable: bool)
    ensures
        setting_change(rules, addr, table, enable).1 == Ok::<(), ServiceError>(()),
        setting_change(setting_change(rules, addr, table, enable).0, addr, table, enable)
            == setting_change(rules, addr, table, enable),
        enable ==> setting_change(rules, addr, table, enable).0.contains((addr, table)),
        !enable ==> !setting_change(rules, addr, table, enable).0.contains((addr, table)),
{
}

} // verus!
