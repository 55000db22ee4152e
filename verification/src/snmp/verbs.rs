//! The verbs of the `snmp` command line and whether each only reads from
//! the server.

use vstd::prelude::*;
use crate::classify::CmdKind;

verus! {

/// The `snmp` verbs; a path is held as text.
#[derive(Clone, Debug)]
pub enum SnmpCmd {
    /// Snapshot the deployed configuration as a `kind: SnmpConfig`
    /// document, to a file or to standard output.
    Export { output_file: Option<String> },
}

impl SnmpCmd {
    /// Every `snmp` verb reads.
    pub fn kind(&self) -> (k: CmdKind)
        ensures
            k == CmdKind::Read,
    {
        match self {
            SnmpCmd::Export { .. } => CmdKind::Read,
        }
    }
}

} // verus!
