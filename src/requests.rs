//! Config requests and their status codes.

use vstd::prelude::*;

verus! {

/// Status of a config request.
#[derive(Debug, Clone, Copy, PartialEq, Eq, Structural)]
pub enum RequestStatus {
    Pending,
    Approved,
    Declined,
    Unknown,
}

/// The status a stored code stands for.
pub open spec fn status_of_code(code: i32) -> RequestStatus {
    if code == 0 {
        RequestStatus::Pending
    } else if code == 1 {
        RequestStatus::Approved
    } else if code == 2 {
        RequestStatus::Declined
    } else {
        RequestStatus::Unknown
    }
}

impl From<i32> for RequestStatus {
    fn from(code: i32) -> (r: RequestStatus)
        ensures
            r == status_of_code(code),
    {
        match code {
            0 => RequestStatus::Pending,
            1 => RequestStatus::Approved,
            2 => RequestStatus::Declined,
            _ => RequestStatus::Unknown,
        }
    }
}

impl vstd::std_specs::convert::FromSpecImpl<i32> for RequestStatus {
    open spec fn obeys_from_spec() -> bool {
        true
    }

    open spec fn from_spec(code: i32) -> RequestStatus {
        status_of_code(code)
    }
}

impl RequestStatus {
    /// The word for this status.
    pub fn as_str(&self) -> (r: &'static str)
        ensures
            r@ == match *self {
                RequestStatus::Pending => "pending"@,
                RequestStatus::Approved => "approved"@,
                RequestStatus::Declined => "declined"@,
                RequestStatus::Unknown => "unknown"@,
            },
    {
        match self {
            RequestStatus::Pending => "pending",
            RequestStatus::Approved => "approved",
            RequestStatus::Declined => "declined",
            RequestStatus::Unknown => "unknown",
        }
    }
}

/// A config request as stored.
#[derive(Debug, Clone, Copy, PartialEq, Eq, Structural)]
pub struct Request {
    pub id: u128,
    pub telegram_id: Option<i64>,
    pub status: RequestStatus,
}

impl Request {
    /// A request read from its stored columns.
    pub fn from_row(id: u128, telegram_id: Option<i64>, status: i32) -> (r: Request)
        ensures
            r == (Request { id, telegram_id, status: status_of_code(status) }),
    {
        Request { id, telegram_id, status: RequestStatus::from(status) }
    }
}

} // verus!
