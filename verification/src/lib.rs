//! A small set store and the pieces of its wire protocol: the set store itself,
//! the framing of messages, the chunking of an input stream and the decisions
//! the transports take on each socket outcome.

pub mod client;
pub mod encoding;
pub mod messages;
pub mod server;
pub mod set;
pub mod socket;
pub mod text;
