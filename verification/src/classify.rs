//! Whether a command only reads from the server or may change it; a
//! read-only context refuses the latter.

use vstd::prelude::*;

verus! {

/// The class of a command.
#[derive(Clone, Copy, Debug, PartialEq, Eq, Structural)]
pub enum CmdKind {
    Read,
    Write,
}

} // verus!
