//! Verified core of a checking DNS forwarder: per-domain statistics, the
//! in-memory packet exchange, the response time window, port selection and
//! resolver configuration.

pub mod addr;
pub mod stats;
pub mod memory;
pub mod window;
pub mod udp;
pub mod config;
pub mod exchange;
pub mod authority;
