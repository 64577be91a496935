//! What a peer may answer.

use vstd::prelude::*;

verus! {

/// A response. `Ping` echoes the correlation id of the request it answers.
#[derive(Clone, Copy, Debug, PartialEq, Eq, Structural)]
pub enum Response {
    Ping { id: u32 },
    GetBlock(),
    GetTransaction(),
    GetBlockTransactions(),
    LatestBlock(),
}

} // verus!
