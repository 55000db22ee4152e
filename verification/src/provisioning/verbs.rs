//! The verbs of the `requisition` command line and whether each only reads
//! from the server.
//!
//! `apply` counts as a write even with `--dry-run`, so that a read-only
//! context refuses it whatever the flags; `convert` touches no server and
//! counts as a read. The sub-resource verbs read for `list` and `get` and
//! write for everything else.

use vstd::prelude::*;
use crate::classify::CmdKind;
use crate::provisioning::cmd::RescanFlag;
use crate::provisioning::wait::AsyncFlags;

verus! {

/// The node verbs.
#[derive(Clone, Debug)]
pub enum NodeCmd {
    List { fs: String },
    Get { fs: String, foreign_id: String },
}

/// The interface verbs.
#[derive(Clone, Debug)]
pub enum InterfaceCmd {
    List { fs: String, foreign_id: String },
    Get { fs: String, foreign_id: String, ip: String },
}

/// The monitored-service verbs.
#[derive(Clone, Debug)]
pub enum ServiceCmd {
    List { fs: String, foreign_id: String, ip: String },
}

/// The category verbs.
#[derive(Clone, Debug)]
pub enum CategoryCmd {
    List { fs: String, foreign_id: String },
}

/// The asset-record verbs, on imported nodes by database id.
#[derive(Clone, Debug)]
pub enum AssetCmd {
    List { db_id: i64 },
    Get { db_id: i64, field: String },
    SetField { db_id: i64, field: String, value: String },
}

/// The `requisition` verbs; paths are held as text.
#[derive(Clone, Debug)]
pub enum RequisitionCmd {
    Apply {
        file: String,
        dry_run: bool,
        diff: bool,
        rescan_existing: RescanFlag,
        explain_rescan: bool,
        stop_on_error: bool,
        wait_flags: AsyncFlags,
    },
    Import { fs: String, rescan_existing: bool, wait_flags: AsyncFlags },
    Status { fs: String },
    List,
    Delete { fs: String, yes: bool },
    Export { fs: Option<String>, out: Option<String>, include_defaults: bool },
    Convert {
        from: Option<String>,
        foreign_sources_dir: Option<String>,
        out: Option<String>,
        explain: Option<String>,
    },
    Node(NodeCmd),
    Interface(InterfaceCmd),
    Service(ServiceCmd),
    Category(CategoryCmd),
    Asset(AssetCmd),
}

impl NodeCmd {
    /// Every node verb reads.
    pub fn kind(&self) -> (k: CmdKind)
        ensures
            k == CmdKind::Read,
    {
        match self {
            NodeCmd::List { .. } | NodeCmd::Get { .. } => CmdKind::Read,
        }
    }
}

impl InterfaceCmd {
    /// Every interface verb reads.
    pub fn kind(&self) -> (k: CmdKind)
        ensures
            k == CmdKind::Read,
    {
        match self {
            InterfaceCmd::List { .. } | InterfaceCmd::Get { .. } => CmdKind::Read,
        }
    }
}

impl ServiceCmd {
    /// Every service verb reads.
    pub fn kind(&self) -> (k: CmdKind)
        ensures
            k == CmdKind::Read,
    {
        match self {
            ServiceCmd::List { .. } => CmdKind::Read,
        }
    }
}

impl CategoryCmd {
    /// Every category verb reads.
    pub fn kind(&self) -> (k: CmdKind)
        ensures
            k == CmdKind::Read,
    {
        match self {
            CategoryCmd::List { .. } => CmdKind::Read,
        }
    }
}

/// The class of an asset verb: `set` writes.
pub open spec fn asset_kind(c: AssetCmd) -> CmdKind {
    match c {
        AssetCmd::SetField { .. } => CmdKind::Write,
        _ => CmdKind::Read,
    }
}

impl AssetCmd {
    /// `list` and `get` read, `set` writes.
    pub fn kind(&self) -> (k: CmdKind)
        ensures
            k == asset_kind(*self),
    {
        match self {
            AssetCmd::List { .. } | AssetCmd::Get { .. } => CmdKind::Read,
            AssetCmd::SetField { .. } => CmdKind::Write,
        }
    }
}

/// The class of a `requisition` verb.
pub open spec fn requisition_kind(c: RequisitionCmd) -> CmdKind {
    match c {
        RequisitionCmd::Apply { .. } => CmdKind::Write,
        RequisitionCmd::Import { .. } => CmdKind::Write,
        RequisitionCmd::Status { .. } => CmdKind::Read,
        RequisitionCmd::List => CmdKind::Read,
        RequisitionCmd::Delete { .. } => CmdKind::Write,
        RequisitionCmd::Export { .. } => CmdKind::Read,
        RequisitionCmd::Convert { .. } => CmdKind::Read,
        RequisitionCmd::Node(_) => CmdKind::Read,
        RequisitionCmd::Interface(_) => CmdKind::Read,
        RequisitionCmd::Service(_) => CmdKind::Read,
        RequisitionCmd::Category(_) => CmdKind::Read,
        RequisitionCmd::Asset(a) => asset_kind(a),
    }
}

impl RequisitionCmd {
    /// The class of the verb; a sub-resource verb has the class of its
    /// nested verb.
    pub fn kind(&self) -> (k: CmdKind)
        ensures
            k == requisition_kind(*self),
    {
        match self {
            RequisitionCmd::Apply { .. } => CmdKind::Write,
            RequisitionCmd::Import { .. } => CmdKind::Write,
            RequisitionCmd::Status { .. } => CmdKind::Read,
            RequisitionCmd::List => CmdKind::Read,
            RequisitionCmd::Delete { .. } => CmdKind::Write,
            RequisitionCmd::Export { .. } => CmdKind::Read,
            RequisitionCmd::Convert { .. } => CmdKind::Read,
            RequisitionCmd::Node(cmd) => cmd.kind(),
            RequisitionCmd::Interface(cmd) => cmd.kind(),
            RequisitionCmd::Service(cmd) => cmd.kind(),
            RequisitionCmd::Category(cmd) => cmd.kind(),
            RequisitionCmd::Asset(cmd) => cmd.kind(),
        }
    }
}

} // verus!
