//! Verified core of an incident-to-notification bridge: ranking, deduplication,
//! rate limiting, retry decisions and scheduling for a polling agent.

pub mod text;
pub mod types;
pub mod rate_limit;
pub mod model;
pub mod dedup;
pub mod rank;
pub mod cycle;
pub mod rpc;
pub mod hosts;
pub mod schedule;
pub mod config;
pub mod notify;
pub mod decode;
pub mod error;
