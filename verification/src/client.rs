//! The client: it cuts an input stream into chunks and sends each chunk to the
//! server as an insert into one named set.

use vstd::prelude::*;
use vstd::string::*;

pub mod errors;
pub mod messenger;
pub mod stdin;

verus! {

/// What the client is started with.
pub struct Opts {
    /// The host the server listens on.
    pub host: String,
    /// The port the server listens on.
    pub port: u16,
    /// The set that every chunk is inserted into.
    pub name: String,
    /// The separator between chunks; empty for no splitting.
    pub sep: String,
}

impl Opts {
    /// The separator as the bytes that are looked for in the input.
    pub fn separator(&self) -> (sep: Vec<u8>)
        ensures
            sep@ == vstd::utf8::encode_utf8(self.sep@),
    {
        self.sep.as_str().as_bytes_vec()
    }
}

} // verus!
