//! What the host tells the pool about the call being processed.

use vstd::prelude::*;

verus! {

/// The block and the caller of the operation in progress.
#[derive(Clone, Debug, PartialEq, Eq)]
pub struct Env {
    /// Height of the block that carries the call.
    pub height: u64,
    /// Time of that block.
    pub time: u64,
    /// Address of the caller.
    pub sender: String,
}

} // verus!
