//! The SNMP configuration capability: `kind: SnmpConfig` documents,
//! reconciled against `/api/v2/snmp-config` and `/api/v2/trapd/config`.

pub mod convert;
pub mod diff;
pub mod handler;
pub mod model;
pub mod secret;
pub mod select;
pub mod server;
pub mod validate;
pub mod verbs;
