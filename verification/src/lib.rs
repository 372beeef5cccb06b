//! A TLS-terminating MQTT proxy: certificate provisioning against a CFSSL
//! service, revocation-list bookkeeping, client-certificate authentication and
//! the rewriting of MQTT CONNECT packets on their way upstream.

pub mod cfssl;
pub mod config;
pub mod forward;
pub mod packets;
pub mod provision;
pub mod proxy;
pub mod signals;
pub mod text;
pub mod time;
