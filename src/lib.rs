//! Control plane of a multi-tenant WireGuard service: the domain model, the
//! reconciliation plans that project stored configs onto the kernel, the IP
//! allocator, authorization, the traffic-statistics accumulator and the
//! client configuration file.

pub mod error;
pub mod wireguard;
pub mod workers;
pub mod configs;
pub mod reconcile;
pub mod attrs;
pub mod rules;
pub mod pool;
pub mod keys;
pub mod pair;
pub mod frontend;
pub mod requests;
pub mod rows;
pub mod service;
