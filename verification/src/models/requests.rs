//! What a peer may ask.

use vstd::prelude::*;

verus! {

/// A request. `Ping` carries the correlation id that its response echoes; the
/// other kinds are declared and not yet served.
#[derive(Clone, Copy, Debug, PartialEq, Eq, Structural)]
pub enum Request {
    Ping { id: u32 },
    GetBlock(),
    GetTransaction(),
    GetBlockTransactions(),
    LatestBlock(),
}

} // verus!
