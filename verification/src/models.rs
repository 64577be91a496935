//! The typed messages that one frame carries.

use vstd::prelude::*;

pub mod requests;
pub mod responses;

use crate::models::requests::Request;
use crate::models::responses::Response;

verus! {

/// The envelope of every message on the wire: a request, or the response to one.
#[derive(Clone, Copy, Debug, PartialEq, Eq, Structural)]
pub enum Packet {
    Request(Request),
    Response(Response),
}

} // verus!
