//! The failures that the client reports, and the line that is logged for
//! each.

use vstd::prelude::*;
use vstd::string::*;
use crate::text::socket_failure_line;
use crate::text::socket_line;

verus! {

/// No socket could be opened. Holds the reason, as the socket library words
/// it.
#[derive(Debug)]
pub struct SocketOpenError(pub String);

/// The socket could not be connected to `host` and `port`; `error` is the
/// reason, as the socket library words it.
#[derive(Debug)]
pub struct SocketConnectionError {
    pub error: String,
    pub host: String,
    pub port: u16,
}

/// A frame could not be sent to `host` and `port`, for a reason other than
/// that the socket was busy; `error` is the reason, as the socket library
/// words it.
#[derive(Debug)]
pub struct SocketSendError {
    pub error: String,
    pub host: String,
    pub port: u16,
}

/// The input could not be read. Holds the reason, as the system words it.
#[derive(Debug)]
pub struct StdinReadError(pub String);

/// The line for a socket that could not be opened.
pub open spec fn socket_open_line(error: Seq<char>) -> Seq<char> {
    "Could not open a ZeroMQ socket: "@ + error
}

/// The line for a socket that could not be connected.
pub open spec fn socket_connection_line(error: Seq<char>, host: Seq<char>, port: u16) -> Seq<
    char,
> {
    socket_line(
        "Could not connect the ZeroMQ socket over "@,
        host,
        port,
        "; got error: "@,
        error,
    )
}

/// The line for a frame that could not be sent.
pub open spec fn socket_send_line(error: Seq<char>, host: Seq<char>, port: u16) -> Seq<char> {
    socket_line(
        "Could not send a message over the ZeroMQ socket at "@,
        host,
        port,
        "; got error: "@,
        error,
    )
}

/// The line for input that could not be read.
pub open spec fn stdin_read_line(error: Seq<char>) -> Seq<char> {
    "Could not read from stdin; got error: "@ + error
}

impl SocketOpenError {
    /// The line to log.
    pub fn message(&self) -> (line: String)
        ensures
            line@ == socket_open_line(self.0@),
    {
        let mut line = String::from_str("Could not open a ZeroMQ socket: ");
        line.append(self.0.as_str());
        line
    }
}

impl SocketConnectionError {
    /// The line to log.
    pub fn message(&self) -> (line: String)
        ensures
            line@ == socket_connection_line(self.error@, self.host@, self.port),
    {
        socket_failure_line(
            "Could not connect the ZeroMQ socket over ",
            self.host.as_str(),
            self.port,
            "; got error: ",
            self.error.as_str(),
        )
    }
}

impl SocketSendError {
    /// The line to log.
    pub fn message(&self) -> (line: String)
        ensures
            line@ == socket_send_line(self.error@, self.host@, self.port),
    {
        socket_failure_line(
            "Could not send a message over the ZeroMQ socket at ",
            self.host.as_str(),
            self.port,
            "; got error: ",
            self.error.as_str(),
        )
    }
}

impl StdinReadError {
    /// The line to log.
    pub fn message(&self) -> (line: String)
        ensures
            line@ == stdin_read_line(self.0@),
    {
        let mut line = String::from_str("Could not read from stdin; got error: ");
        line.append(self.0.as_str());
        line
    }
}

} // verus!
