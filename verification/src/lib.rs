//! Verified core of the `onmsctl` OpenNMS configuration tooling: the
//! provisioning (`kind: Requisition`) and SNMP (`kind: SnmpConfig`)
//! capabilities' models, conversions, diff engines and decision logic.
#![allow(unused_imports)]

pub mod text;
pub mod sort;
pub mod path;
pub mod snmp;
pub mod json;
pub mod provisioning;
pub mod ip;
pub mod fmt;
pub mod outcome;
pub mod classify;
