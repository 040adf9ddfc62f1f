//! The agent's error type.

use crate::config::ConfigError;
use crate::model::ZbxError;
use vstd::prelude::*;

verus! {

/// Notification delivery failures.
#[derive(Debug)]
pub enum NotifyError {
    Backend,
    InvalidPayload { message: String },
}

/// Any failure of the agent.
#[derive(Debug)]
pub enum Error {
    Config(ConfigError),
    Zabbix(ZbxError),
    Notify(NotifyError),
    Telemetry(String),
}

impl Error {
    /// Whether the failure is of a transient kind: a transport failure, an
    /// HTTP status failure or an undecodable body of the remote API.
    pub fn is_retriable(&self) -> (r: bool)
        ensures
            r == (self matches Error::Zabbix(z) && (z is Request || z is HttpStatus || z is Json)),
    {
        match self {
            Error::Zabbix(ZbxError::Request { .. }) => true,
            Error::Zabbix(ZbxError::HttpStatus { .. }) => true,
            Error::Zabbix(ZbxError::Json { .. }) => true,
            _ => false,
        }
    }
}

} // verus!
