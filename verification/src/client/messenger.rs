//! The client's side of the wire: what is sent for an insert, and what each
//! outcome of a send means.

use vstd::prelude::*;
use crate::messages::Inner;
use crate::messages::InnerView;
use crate::messages::NamedBytes;
use crate::messages::WireMessage;
use crate::messages::WireMessageView;
use crate::messages::encode_message;
use crate::client::errors::SocketConnectionError;
use crate::client::errors::SocketOpenError;
use crate::client::errors::SocketSendError;
use crate::socket::Startup;
use crate::socket::StartupView;
use crate::text::endpoint;
use crate::text::endpoint_text;

verus! {

/// Why an insert was not sent.
#[derive(Clone, Copy, Debug, PartialEq, Eq, Structural)]
pub enum SetInsertError {
    /// The socket could not take the frame now: send the same insert again
    /// later.
    Retry,
    /// The send failed for good: the insert is lost.
    Unexpected,
}

/// A request to insert `value` into the set called `name`.
#[derive(Debug)]
pub struct SetInsert {
    pub name: String,
    pub value: Vec<u8>,
}

impl View for SetInsert {
    type V = NamedBytes;

    open spec fn view(&self) -> NamedBytes {
        NamedBytes { name: self.name@, bytes: self.value@ }
    }
}

/// The envelope that carries `insert` under the identifier `id`.
pub open spec fn insert_message(id: u32, insert: NamedBytes) -> WireMessageView {
    WireMessageView { id, inner: Some(InnerView::SetInsert(insert)) }
}

impl SetInsert {
    /// The frame that asks the server for this insert, under the correlation
    /// identifier `id`.
    pub fn encode(self, id: u32) -> (frame: Vec<u8>)
        ensures
            frame@ == encode_message(insert_message(id, self@)),
    {
        let message = WireMessage {
            id,
            inner: Some(
                Inner::SetInsert(crate::messages::SetInsert { name: self.name, value: self.value }),
            ),
        };
        message.encode()
    }
}

/// What a send that did not wait came back with.
#[derive(Debug)]
pub enum Sent {
    /// The frame is on its way.
    Done,
    /// The socket could not take the frame now.
    WouldBlock,
    /// The send failed, for the reason given.
    Failed(String),
}

/// What is reported when the socket could not be set up.
#[derive(Debug)]
pub enum StartupError {
    Open(SocketOpenError),
    Connection(SocketConnectionError),
}

/// The client's transport: where it sends to, whether it can send, and the
/// correlation identifier that its requests carry.
pub struct MessengerServer {
    host: String,
    port: u16,
    id: u32,
    connected: bool,
}

impl MessengerServer {
    /// The host to send to.
    pub closed spec fn host(&self) -> Seq<char> {
        self.host@
    }

    /// The port to send to.
    pub closed spec fn port(&self) -> u16 {
        self.port
    }

    /// The correlation identifier that requests carry.
    pub closed spec fn id(&self) -> u32 {
        self.id
    }

    /// Whether the socket is set up.
    pub closed spec fn connected(&self) -> bool {
        self.connected
    }

    /// A transport for `host` and `port` that has no socket yet. Its requests
    /// carry the identifier zero.
    pub fn new(host: &str, port: u16) -> (server: MessengerServer)
        ensures
            server.host() == host@,
            server.port() == port,
            server.id() == 0,
            !server.connected(),
    {
        MessengerServer { host: host.to_owned(), port, id: 0, connected: false }
    }

    /// Whether the socket is set up.
    pub fn is_connected(&self) -> (connected: bool)
        ensures
            connected == self.connected(),
    {
        self.connected
    }

    /// The address of the socket.
    pub fn address(&self) -> (address: String)
        ensures
            address@ == endpoint_text(self.host(), self.port()),
    {
        endpoint(self.host.as_str(), self.port)
    }

    /// Takes note of how setting up the socket went. The transport can send
    /// from then on if it went well; if not, the failure is to be reported.
    pub fn started(&mut self, startup: Startup) -> (report: Option<StartupError>)
        ensures
            final(self).host() == old(self).host(),
            final(self).port() == old(self).port(),
            final(self).id() == old(self).id(),
            final(self).connected() == (startup@ is Ready),
            match startup@ {
                StartupView::Ready => report is None,
                StartupView::OpenFailed(error) => report matches Some(StartupError::Open(e))
                    && e.0@ == error,
                StartupView::ConnectionFailed(error) => report matches Some(
                    StartupError::Connection(e),
                ) && e.error@ == error && e.host@ == old(self).host() && e.port == old(
                    self,
                ).port(),
            },
    {
        match startup {
            Startup::Ready => {
                self.connected = true;
                None
            },
            Startup::OpenFailed(error) => {
                self.connected = false;
                Some(StartupError::Open(SocketOpenError(error)))
            },
            Startup::ConnectionFailed(error) => {
                self.connected = false;
                Some(
                    StartupError::Connection(
                        SocketConnectionError { error, host: self.host.clone(), port: self.port },
                    ),
                )
            },
        }
    }

    /// The frame to send for `insert`.
    pub fn request(&self, insert: SetInsert) -> (frame: Vec<u8>)
        requires
            self.connected(),
        ensures
            frame@ == encode_message(insert_message(self.id(), insert@)),
    {
        insert.encode(self.id)
    }

    /// Decides what a send came to: done; to be tried again, where the socket
    /// was busy; or failed for good, which is also to be reported.
    pub fn handle(&self, sent: Sent) -> (r: (Result<(), SetInsertError>, Option<SocketSendError>))
        ensures
            match sent {
                Sent::Done => r.0 is Ok && r.1 is None,
                Sent::WouldBlock => r.0 == Err::<(), SetInsertError>(SetInsertError::Retry)
                    && r.1 is None,
                Sent::Failed(error) => r.0 == Err::<(), SetInsertError>(
                    SetInsertError::Unexpected,
                ) && (r.1 matches Some(report) && report.error@ == error@ && report.host@
                    == self.host() && report.port == self.port()),
            },
    {
        match sent {
            Sent::Done => (Ok(()), None),
            Sent::WouldBlock => (Err(SetInsertError::Retry), None),
            Sent::Failed(error) => (
                Err(SetInsertError::Unexpected),
                Some(SocketSendError { error, host: self.host.clone(), port: self.port }),
            ),
        }
    }
}

} // verus!
