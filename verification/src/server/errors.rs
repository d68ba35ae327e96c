//! The failures that the server reports, and the line that is logged for
//! each.

use vstd::prelude::*;
use vstd::string::*;
use crate::encoding::DecodeFailure;
use crate::text::base64_len;
use crate::text::base64_encode;
use crate::text::base64_text;
use crate::text::decimal;
use crate::text::decimal_string;
use crate::text::socket_failure_line;
use crate::text::socket_line;

verus! {

/// A frame from a client was not a message that the server knows. Holds why
/// the frame could not be read, if it could not, and the frame.
#[derive(Debug)]
pub struct MessageDecodeError(pub Option<DecodeFailure>, pub Vec<u8>);

/// No socket could be opened. Holds the reason, as the socket library words
/// it.
#[derive(Debug)]
pub struct SocketOpenError(pub String);

/// The socket could not be connected to `host` and `port`; `error` is the
/// reason, as the socket library words it.
#[derive(Debug)]
pub struct SocketConnectionError {
    pub error: String,
    pub host: String,
    pub port: u16,
}

/// Nothing more can be received on the socket on `host` and `port`; `error` is
/// the reason, as the socket library words it.
#[derive(Debug)]
pub struct SocketRecvError {
    pub error: String,
    pub host: String,
    pub port: u16,
}

/// An answer could not be sent to the client `client_id`, who will probably
/// run into a timeout.
#[derive(Debug)]
pub struct UnsentResponseError {
    pub client_id: u32,
    pub host: String,
    pub port: u16,
}

/// The line for a frame that was not a known message, given the frame as
/// text.
pub open spec fn decode_line(error: Option<DecodeFailure>, frame_text: Seq<char>) -> Seq<char> {
    match error {
        Some(error) =>
            "Could not decode a message sent by a client; got this error with this message (base64-encoded): "@
                + error.text() + ", "@ + frame_text,
        None => "Could not decode a message sent by a client; got message (base64-encoded): "@
            + frame_text,
    }
}

/// The line for a frame that was not a known message, with the frame in
/// base64.
pub open spec fn message_decode_line(error: Option<DecodeFailure>, frame: Seq<u8>) -> Seq<char> {
    decode_line(error, base64_text(frame))
}

/// The line for a socket that could not be opened.
pub open spec fn socket_open_line(error: Seq<char>) -> Seq<char> {
    "Could not open a ZeroMQ socket: "@ + error
}

/// The line for a socket that could not be connected.
pub open spec fn socket_connection_line(error: Seq<char>, host: Seq<char>, port: u16) -> Seq<
    char,
> {
    socket_line(
        "Could not connect the ZeroMQ socket over "@,
        host,
        port,
        "; got error: "@,
        error,
    )
}

/// The line for a socket that nothing more can be received on.
pub open spec fn socket_recv_line(error: Seq<char>, host: Seq<char>, port: u16) -> Seq<char> {
    socket_line(
        "Could not retreive data from the ZeroMQ socket on "@,
        host,
        port,
        "; got error: "@,
        error,
    )
}

/// The line for an answer that could not be sent.
pub open spec fn unsent_response_line(client_id: u32, host: Seq<char>, port: u16) -> Seq<char> {
    socket_line(
        "Could not send data on the ZeroMQ socket on "@,
        host,
        port,
        " for client "@,
        decimal(client_id as nat),
    )
}

/// The line for a frame that was not a known message, given the frame as
/// text.
pub fn decode_line_of(error: Option<DecodeFailure>, frame_text: &str) -> (line: String)
    ensures
        line@ == decode_line(error, frame_text@),
{
    match error {
        Some(error) => {
            let mut line = String::from_str(
                "Could not decode a message sent by a client; got this error with this message (base64-encoded): ",
            );
            line.append(error.description());
            line.append(", ");
            line.append(frame_text);
            line
        },
        None => {
            let mut line = String::from_str(
                "Could not decode a message sent by a client; got message (base64-encoded): ",
            );
            line.append(frame_text);
            line
        },
    }
}

impl MessageDecodeError {
    /// Whether the frame is short enough for its base64 text to fit in
    /// memory.
    pub fn fits(&self) -> (fits: bool)
        ensures
            fits == (base64_len(self.1@.len()) <= usize::MAX),
    {
        (self.1.len() / 3 < usize::MAX / 4) || (self.1.len() / 3 == usize::MAX / 4 && self.1.len()
            % 3 == 0)
    }

    /// The line to log, which shows the frame in base64.
    pub fn message(&self) -> (line: String)
        requires
            base64_len(self.1@.len()) <= usize::MAX,
        ensures
            line@ == message_decode_line(self.0, self.1@),
    {
        let frame = base64_encode(self.1.as_slice());
        decode_line_of(self.0, frame.as_str())
    }
}

impl SocketOpenError {
    /// The line to log.
    pub fn message(&self) -> (line: String)
        ensures
            line@ == socket_open_line(self.0@),
    {
        let mut line = String::from_str("Could not open a ZeroMQ socket: ");
        line.append(self.0.as_str());
        line
    }
}

impl SocketConnectionError {
    /// The line to log.
    pub fn message(&self) -> (line: String)
        ensures
            line@ == socket_connection_line(self.error@, self.host@, self.port),
    {
        socket_failure_line(
            "Could not connect the ZeroMQ socket over ",
            self.host.as_str(),
            self.port,
            "; got error: ",
            self.error.as_str(),
        )
    }
}

impl SocketRecvError {
    /// The line to log.
    pub fn message(&self) -> (line: String)
        ensures
            line@ == socket_recv_line(self.error@, self.host@, self.port),
    {
        socket_failure_line(
            "Could not retreive data from the ZeroMQ socket on ",
            self.host.as_str(),
            self.port,
            "; got error: ",
            self.error.as_str(),
        )
    }
}

impl UnsentResponseError {
    /// The line to log.
    pub fn message(&self) -> (line: String)
        ensures
            line@ == unsent_response_line(self.client_id, self.host@, self.port),
    {
        socket_failure_line(
            "Could not send data on the ZeroMQ socket on ",
            self.host.as_str(),
            self.port,
            " for client ",
            decimal_string(self.client_id as u64).as_str(),
        )
    }
}

} // verus!
