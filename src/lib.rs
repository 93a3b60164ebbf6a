//! Round-trip latency over a UDP echo exchange: the timestamp-in-payload wire
//! format, the steps of the echo server and of the client's sender and
//! receiver, and the choice of role and scheduling that a run makes.
use vstd::prelude::*;

pub mod client;
pub mod codec;
pub mod config;
pub mod server;

verus! {

} // verus!
