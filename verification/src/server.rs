//! The server: it holds the named sets and decides what to do with each frame
//! that arrives.

use vstd::prelude::*;

pub mod errors;
pub mod messenger;
pub mod set;

verus! {

/// What the server is started with.
pub struct Opts {
    /// The host to listen on.
    pub host: String,
    /// The port to listen on.
    pub port: u16,
}

} // verus!
