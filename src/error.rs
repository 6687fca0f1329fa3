//! Error kinds and the classification of kernel replies.

use vstd::prelude::*;

verus! {

/// Kernel error code for "no such entry" (`-ENOENT`).
pub const ENOENT_CODE: i32 = -2;

/// Kernel error code for "entry exists" (`-EEXIST`).
pub const EEXIST_CODE: i32 = -17;

/// Errors of the netlink transport.
#[derive(Debug, Clone, Copy, PartialEq, Eq, Structural)]
pub enum NetlinkError {
    AlreadyExists,
    NotFound,
    Unknown(i32),
    NetlinkIo,
    NetlinkDecode,
    UnexpectedResponse,
}

/// The error that a (non-zero) kernel error code stands for.
pub open spec fn error_of_code(code: i32) -> NetlinkError {
    if code == ENOENT_CODE {
        NetlinkError::NotFound
    } else if code == EEXIST_CODE {
        NetlinkError::AlreadyExists
    } else {
        NetlinkError::Unknown(code)
    }
}

impl From<i32> for NetlinkError {
    fn from(code: i32) -> (r: NetlinkError)
        ensures
            r == error_of_code(code),
    {
        if code == ENOENT_CODE {
            NetlinkError::NotFound
        } else if code == EEXIST_CODE {
            NetlinkError::AlreadyExists
        } else {
            NetlinkError::Unknown(code)
        }
    }
}

impl vstd::std_specs::convert::FromSpecImpl<i32> for NetlinkError {
    open spec fn obeys_from_spec() -> bool {
        true
    }

    open spec fn from_spec(code: i32) -> NetlinkError {
        error_of_code(code)
    }
}

/// The payload of a single kernel reply, as far as the transport reads it.
#[derive(Debug)]
pub enum Reply<T> {
    /// An error message carrying a kernel code (zero means acknowledgement).
    Error(i32),
    /// An acknowledgement carrying a kernel code.
    Ack(i32),
    /// The message that was asked for.
    Inner(T),
    /// Anything else (a done marker, an overrun, noise).
    Other,
}

/// Outcome of a send-only exchange: a zero code acknowledges, a non-zero one
/// is an error, any other payload is unexpected.
pub open spec fn send_outcome<T>(reply: Reply<T>) -> Result<(), NetlinkError> {
    match reply {
        Reply::Error(c) => if c == 0 { Ok(()) } else { Err(error_of_code(c)) },
        Reply::Ack(c) => if c == 0 { Ok(()) } else { Err(error_of_code(c)) },
        _ => Err(NetlinkError::UnexpectedResponse),
    }
}

/// Outcome of an exchange that expects a message back.
pub open spec fn send_recv_outcome<T>(reply: Reply<T>) -> Result<T, NetlinkError> {
    match reply {
        Reply::Error(c) => if c == 0 {
            Err(NetlinkError::UnexpectedResponse)
        } else {
            Err(error_of_code(c))
        },
        Reply::Ack(c) => if c == 0 {
            Err(NetlinkError::UnexpectedResponse)
        } else {
            Err(error_of_code(c))
        },
        Reply::Inner(t) => Ok(t),
        Reply::Other => Err(NetlinkError::UnexpectedResponse),
    }
}

/// Classifies the reply to a send-only request (add route, add or delete rule,
/// set device).
pub fn classify_send<T>(reply: Reply<T>) -> (r: Result<(), NetlinkError>)
    ensures
        r == send_outcome(reply),
{
    match reply {
        Reply::Error(c) | Reply::Ack(c) => {
            if c == 0 {
                Ok(())
            } else {
                Err(NetlinkError::from(c))
            }
        },
        _ => Err(NetlinkError::UnexpectedResponse),
    }
}

/// Classifies the reply to a request that expects a message back.
pub fn classify_send_recv<T>(reply: Reply<T>) -> (r: Result<T, NetlinkError>)
    ensures
        r == send_recv_outcome(reply),
{
    match reply {
        Reply::Error(c) | Reply::Ack(c) => {
            if c == 0 {
                Err(NetlinkError::UnexpectedResponse)
            } else {
                Err(NetlinkError::from(c))
            }
        },
        Reply::Inner(t) => Ok(t),
        Reply::Other => Err(NetlinkError::UnexpectedResponse),
    }
}

/// Outcome of a dump: the first deciding reply settles it; with none the
/// response is unexpected.
pub open spec fn dump_outcome<T>(replies: Seq<Reply<T>>) -> Result<T, NetlinkError>
    decreases replies.len(),
{
    if replies.len() == 0 {
        Err(NetlinkError::UnexpectedResponse)
    } else {
        match replies[0] {
            Reply::Inner(t) => Ok(t),
            Reply::Error(c) => if c != 0 {
                Err(error_of_code(c))
            } else {
                dump_outcome(replies.drop_first())
            },
            _ => dump_outcome(replies.drop_first()),
        }
    }
}

/// Consumes the replies of a multi-part dump until one decides it.
pub fn classify_dump<T>(replies: Vec<Reply<T>>) -> (r: Result<T, NetlinkError>)
    ensures
        r == dump_outcome(replies@),
{
    let mut rest = replies;
    let ghost all = rest@;
    while rest.len() > 0
        invariant
            all == replies@,
            dump_outcome(all) == dump_outcome(rest@),
        decreases rest.len(),
    {
        let ghost before = rest@;
        let reply = rest.remove(0);
        proof {
            assert(before.drop_first() =~= rest@);
            assert(before[0] == reply);
            assert(dump_outcome(all) == dump_outcome(before));
        }
        match reply {
            Reply::Inner(t) => {
                return Ok(t);
            },
            Reply::Error(c) => {
                if c != 0 {
                    return Err(NetlinkError::from(c));
                }
            },
            _ => {},
        }
    }
    Err(NetlinkError::UnexpectedResponse)
}

/// Errors of the persistent store.
#[derive(Debug, Clone, Copy, PartialEq, Eq, Structural)]
pub enum DatabaseError {
    Migration,
    /// An error of the database driver, with the database's own numeric
    /// error code when it reported one.
    Sqlx(Option<u32>),
    InvalidPubkeyData,
    InvalidUuidData,
}

/// The database's error code for a violated unique constraint.
pub const SQLITE_CONSTRAINT_UNIQUE: u32 = 2067;

/// Errors of the service operations.
#[derive(Debug, PartialEq, Eq)]
pub enum ServiceError {
    RulesError(NetlinkError),
    InvalidKey,
    Database(DatabaseError),
    Unexpected(String),
    IpPoolExhausted,
    ClientAlreadyExists,
    InvalidJwtSecret,
    InvalidJwt,
    NotFound,
    AccessDenied,
}

} // verus!
