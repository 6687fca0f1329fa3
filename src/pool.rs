//! The IP allocator: a single cursor over the host addresses of an IPv4
//! network. Deleted configs do not give their address back.

use vstd::prelude::*;

use crate::attrs::zero_host_part_v4;
use crate::error::ServiceError;

verus! {

/// Number of addresses in a network with prefix length `prefix` (at most 32).
pub open spec fn block_size(prefix: u8) -> int {
    (1u64 << (32 - prefix) as u64) as int
}

/// First host address of a network: the network address itself for /31 and
/// /32, the one after it otherwise.
pub open spec fn first_host(network: u32, prefix: u8) -> int {
    if prefix >= 31 {
        network as int
    } else {
        network + 1
    }
}

/// Last host address of a network: its last address for /31 and /32, the one
/// before the broadcast address otherwise.
pub open spec fn last_host(network: u32, prefix: u8) -> int {
    let last = network + block_size(prefix) - 1;
    let host = if prefix >= 31 {
        last
    } else {
        last - 1
    };
    if host > u32::MAX {
        u32::MAX as int
    } else {
        host
    }
}

/// The allocator's cursor over the host addresses `first..=last`.
#[derive(Debug, PartialEq, Eq, Structural)]
pub struct IpPool {
    first: u32,
    last: u32,
    next: u64,
}

impl IpPool {
    /// First host address of the pool.
    pub closed spec fn first(&self) -> int {
        self.first as int
    }

    /// Last host address of the pool.
    pub closed spec fn last(&self) -> int {
        self.last as int
    }

    /// The address the next allocation hands out, if not past `last`.
    pub closed spec fn cursor(&self) -> int {
        self.next as int
    }

    pub closed spec fn wf(&self) -> bool {
        &&& self.first <= self.next
        &&& self.next <= self.last as int + 1
    }

    /// The addresses handed out or skipped so far.
    pub open spec fn issued(&self) -> Set<int> {
        Set::new(|a: int| self.first() <= a < self.cursor())
    }

    /// A cursor at the first host address of `network/prefix`.
    pub fn new(network: u32, prefix: u8) -> (r: IpPool)
        requires
            prefix <= 32,
            zero_host_part_v4(network, prefix),
        ensures
            r.wf(),
            r.first() == first_host(network, prefix),
            r.last() == last_host(network, prefix),
            r.cursor() == r.first(),
            r.issued() == Set::<int>::empty(),
    {
        let shift: u64 = (32 - prefix) as u64;
        let size: u64 = 1u64 << shift;
        proof {
            assert(shift <= 32);
            assert(shift <= 32 ==> 1u64 << shift >= 1 && 1u64 << shift <= 0x1_0000_0000) by (bit_vector);
            assert(shift >= 2 && shift <= 32 ==> 1u64 << shift >= 4) by (bit_vector);
        }
        let top: u64 = network as u64 + size - 1;
        let first: u64 = if prefix >= 31 {
            network as u64
        } else {
            network as u64 + 1
        };
        let host: u64 = if prefix >= 31 {
            top
        } else {
            top - 1
        };
        let last: u32 = if host > 0xFFFF_FFFFu64 {
            0xFFFF_FFFFu32
        } else {
            host as u32
        };
        proof {
            let p: u32 = prefix as u32;
            assert(p <= 30 ==> p <= 30);
            if prefix < 32 {
                assert((network << p) == 0u32 && p <= 30 ==> network < 0xFFFF_FFFFu32) by (bit_vector);
            }
        }
        let first: u32 = first as u32;
        let r = IpPool { first, last, next: first as u64 };
        proof {
            assert(r.issued() =~= Set::<int>::empty());
        }
        r
    }

    /// Hands out the next host address, or fails with `IpPoolExhausted` when
    /// none is left. An address handed out was never handed out before.
    pub fn allocate(&mut self) -> (r: Result<u32, ServiceError>)
        requires
            old(self).wf(),
        ensures
            final(self).wf(),
            final(self).first() == old(self).first(),
            final(self).last() == old(self).last(),
            old(self).cursor() <= old(self).last() ==> {
                &&& r == Ok::<u32, ServiceError>(old(self).cursor() as u32)
                &&& r.unwrap() as int == old(self).cursor()
                &&& final(self).cursor() == old(self).cursor() + 1
                &&& !old(self).issued().contains(old(self).cursor())
                &&& final(self).issued() == old(self).issued().insert(old(self).cursor())
            },
            old(self).cursor() > old(self).last() ==> {
                &&& r == Err::<u32, ServiceError>(ServiceError::IpPoolExhausted)
                &&& *final(self) == *old(self)
            },
    {
        if self.next > self.last as u64 {
            return Err(ServiceError::IpPoolExhausted);
        }
        let addr = self.next as u32;
        self.next = self.next + 1;
        proof {
            assert(self.issued() =~= old(self).issued().insert(old(self).cursor()));
        }
        Ok(addr)
    }

    /// Moves the cursor past `n` addresses (those of configs already stored),
    /// stopping after the last host address.
    pub fn advance(&mut self, n: usize)
        requires
            old(self).wf(),
        ensures
            final(self).wf(),
            final(self).first() == old(self).first(),
            final(self).last() == old(self).last(),
            final(self).cursor() == if old(self).cursor() + n > old(self).last() + 1 {
                old(self).last() + 1
            } else {
                old(self).cursor() + n
            },
            old(self).issued().subset_of(final(self).issued()),
    {
        let room: u64 = self.last as u64 + 1 - self.next;
        if n as u64 >= room {
            self.next = self.last as u64 + 1;
        } else {
            self.next = self.next + n as u64;
        }
    }
}

} // verus!
