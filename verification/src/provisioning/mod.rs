//! The provisioning capability: `kind: Requisition` documents, reconciled
//! against the requisition and foreign-source REST endpoints.

pub mod apply;
pub mod cmd;
pub mod convert;
pub mod diff;
pub mod finding;
pub mod model;
pub mod multi;
pub mod server;
pub mod time;
pub mod xml;
pub mod pipeline;
pub mod render;
pub mod rest;
pub mod handler;
pub mod wait;
pub mod verbs;
pub mod export;
