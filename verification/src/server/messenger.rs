//! The server's side of the wire: what becomes of each outcome of a receive,
//! of each hand-off to the set store, and of each frame that needs an answer.
//!
//! The transport itself is run elsewhere; here is what it decides. A failed
//! receive is the one thing that stops it. A frame that is no known message
//! is reported and passed over.

use vstd::prelude::*;
use crate::encoding::DecodeFailure;
use crate::messages::Inner;
use crate::messages::InnerView;
use crate::messages::UnrecognizedMessageError;
use crate::messages::WireMessage;
use crate::messages::WireMessageView;
use crate::messages::decode_message;
use crate::messages::encode_message;
use crate::server::errors::MessageDecodeError;
use crate::server::errors::SocketConnectionError;
use crate::server::errors::SocketOpenError;
use crate::server::errors::SocketRecvError;
use crate::server::errors::UnsentResponseError;
use crate::server::set::Insert;
use crate::socket::Startup;
use crate::socket::StartupView;
use crate::text::endpoint;
use crate::text::endpoint_text;

verus! {

/// What a receive that did not wait came back with.
#[derive(Debug)]
pub enum Received {
    /// A frame.
    Data(Vec<u8>),
    /// Nothing: no frame was waiting.
    NoData,
    /// Nothing: the receive was interrupted.
    Interrupted,
    /// A failure of the socket itself, for the reason given.
    Failed(String),
}

/// A `Received`, as plain values.
pub enum ReceivedView {
    Data(Seq<u8>),
    NoData,
    Interrupted,
    Failed(Seq<char>),
}

impl View for Received {
    type V = ReceivedView;

    open spec fn view(&self) -> ReceivedView {
        match self {
            Received::Data(frame) => ReceivedView::Data(frame@),
            Received::NoData => ReceivedView::NoData,
            Received::Interrupted => ReceivedView::Interrupted,
            Received::Failed(error) => ReceivedView::Failed(error@),
        }
    }
}

/// What the transport does after a receive.
#[derive(Debug)]
pub enum Reaction {
    /// Nothing.
    Idle,
    /// Hand the insert to the set store.
    Dispatch(Insert),
    /// Report the frame as unreadable or unknown, and go on.
    Report(MessageDecodeError),
    /// Report the failure of the socket, and receive no more.
    Stop(SocketRecvError),
}

/// A `Reaction`, as plain values.
pub enum ReactionView {
    Idle,
    Dispatch { id: u32, name: Seq<char>, value: Seq<u8> },
    Report { error: Option<DecodeFailure>, frame: Seq<u8> },
    Stop { error: Seq<char>, host: Seq<char>, port: u16 },
}

impl View for Reaction {
    type V = ReactionView;

    open spec fn view(&self) -> ReactionView {
        match self {
            Reaction::Idle => ReactionView::Idle,
            Reaction::Dispatch(insert) => ReactionView::Dispatch {
                id: insert.id,
                name: insert.name@,
                value: insert.value@,
            },
            Reaction::Report(report) => ReactionView::Report { error: report.0, frame: report.1@ },
            Reaction::Stop(report) => ReactionView::Stop {
                error: report.error@,
                host: report.host@,
                port: report.port,
            },
        }
    }
}

/// What the set store's inbox said of an insert that was handed to it.
#[derive(Debug)]
pub enum Handoff {
    /// It took the insert.
    Accepted,
    /// It was full, and handed the insert back.
    Full(Insert),
    /// It was closed, and handed the insert back.
    Closed(Insert),
}

/// What the transport does about a frame that needs an answer.
#[derive(Debug)]
pub enum Reply {
    /// Send this frame to the client.
    Send(Vec<u8>),
    /// There is no socket to answer on: report that.
    Report(UnsentResponseError),
}

/// What is reported when the socket could not be set up.
#[derive(Debug)]
pub enum StartupError {
    Open(SocketOpenError),
    Connection(SocketConnectionError),
}

/// The reaction to a frame: an insert where the frame is a message with an
/// insert body, of either form; a report with the failure where the frame
/// cannot be read; a report without one where it holds no body or one that a
/// client has no business sending.
pub open spec fn frame_reaction(frame: Seq<u8>) -> ReactionView {
    match decode_message(frame) {
        Ok(message) => match message.inner {
            Some(InnerView::SetInsert(body)) => ReactionView::Dispatch {
                id: message.id,
                name: body.name,
                value: body.bytes,
            },
            Some(InnerView::SetAdd(body)) => ReactionView::Dispatch {
                id: message.id,
                name: body.name,
                value: body.bytes,
            },
            _ => ReactionView::Report { error: None, frame },
        },
        Err(error) => ReactionView::Report { error: Some(error), frame },
    }
}

/// The reaction to what a receive on the socket on `host` and `port` came
/// back with.
pub open spec fn receive_reaction(received: ReceivedView, host: Seq<char>, port: u16)
    -> ReactionView {
    match received {
        ReceivedView::Data(frame) => frame_reaction(frame),
        ReceivedView::NoData => ReactionView::Idle,
        ReceivedView::Interrupted => ReactionView::Idle,
        ReceivedView::Failed(error) => ReactionView::Stop { error, host, port },
    }
}

/// The frame that tells the client `id` that its frame was not understood.
pub open spec fn unrecognized_reply(id: u32) -> Seq<u8> {
    encode_message(WireMessageView { id, inner: Some(InnerView::UnrecognizedMessageError) })
}

/// The server's transport: where it listens, and whether it receives.
pub struct MessengerServer {
    host: String,
    port: u16,
    receiving: bool,
}

impl MessengerServer {
    /// The host to listen on.
    pub closed spec fn host(&self) -> Seq<char> {
        self.host@
    }

    /// The port to listen on.
    pub closed spec fn port(&self) -> u16 {
        self.port
    }

    /// Whether the socket is set up and no receive has failed.
    pub closed spec fn receiving(&self) -> bool {
        self.receiving
    }

    /// A transport for `host` and `port` that has no socket yet.
    pub fn new(host: &str, port: u16) -> (server: MessengerServer)
        ensures
            server.host() == host@,
            server.port() == port,
            !server.receiving(),
    {
        MessengerServer { host: host.to_owned(), port, receiving: false }
    }

    /// Whether the transport receives.
    pub fn is_receiving(&self) -> (receiving: bool)
        ensures
            receiving == self.receiving(),
    {
        self.receiving
    }

    /// The address of the socket.
    pub fn address(&self) -> (address: String)
        ensures
            address@ == endpoint_text(self.host(), self.port()),
    {
        endpoint(self.host.as_str(), self.port)
    }

    /// Takes note of how setting up the socket went. The transport receives
    /// from then on if it went well; if not, it stays as it is and the
    /// failure is to be reported.
    pub fn started(&mut self, startup: Startup) -> (report: Option<StartupError>)
        ensures
            final(self).host() == old(self).host(),
            final(self).port() == old(self).port(),
            final(self).receiving() == (startup@ is Ready),
            match startup@ {
                StartupView::Ready => report is None,
                StartupView::OpenFailed(error) => report matches Some(StartupError::Open(e))
                    && e.0@ == error,
                StartupView::ConnectionFailed(error) => report matches Some(
                    StartupError::Connection(e),
                ) && e.error@ == error && e.host@ == old(self).host() && e.port == old(
                    self,
                ).port(),
            },
    {
        match startup {
            Startup::Ready => {
                self.receiving = true;
                None
            },
            Startup::OpenFailed(error) => {
                self.receiving = false;
                Some(StartupError::Open(SocketOpenError(error)))
            },
            Startup::ConnectionFailed(error) => {
                self.receiving = false;
                Some(
                    StartupError::Connection(
                        SocketConnectionError { error, host: self.host.clone(), port: self.port },
                    ),
                )
            },
        }
    }

    /// Decides what to do with what one receive came back with. The
    /// transport goes on receiving unless the socket itself failed.
    pub fn receive_once(&mut self, received: Received) -> (reaction: Reaction)
        requires
            old(self).receiving(),
        ensures
            final(self).host() == old(self).host(),
            final(self).port() == old(self).port(),
            reaction@ == receive_reaction(received@, old(self).host(), old(self).port()),
            final(self).receiving() == !(received@ is Failed),
    {
        match received {
            Received::NoData => Reaction::Idle,
            Received::Interrupted => Reaction::Idle,
            Received::Failed(error) => {
                self.receiving = false;
                Reaction::Stop(
                    SocketRecvError { error, host: self.host.clone(), port: self.port },
                )
            },
            Received::Data(frame) => match WireMessage::decode(frame.as_slice()) {
                Ok(WireMessage { id, inner: Some(Inner::SetInsert(body)) }) => Reaction::Dispatch(
                    Insert { id, name: body.name, value: body.value },
                ),
                Ok(WireMessage { id, inner: Some(Inner::SetAdd(body)) }) => Reaction::Dispatch(
                    Insert { id, name: body.name, value: body.data },
                ),
                Ok(_) => Reaction::Report(MessageDecodeError(None, frame)),
                Err(error) => Reaction::Report(MessageDecodeError(Some(error), frame)),
            },
        }
    }

    /// Decides what to do after an insert was handed to the set store:
    /// whether the store took it, and the insert to hand over once more if it
    /// did not.
    pub fn handle(&self, handoff: Handoff) -> (r: (bool, Option<Insert>))
        ensures
            match handoff {
                Handoff::Accepted => r.0 && r.1 is None,
                Handoff::Full(insert) => !r.0 && r.1 == Some(insert),
                Handoff::Closed(insert) => !r.0 && r.1 == Some(insert),
            },
    {
        match handoff {
            Handoff::Accepted => (true, None),
            Handoff::Full(insert) => (false, Some(insert)),
            Handoff::Closed(insert) => (false, Some(insert)),
        }
    }

    /// Decides how to tell the client `id` that its frame was not understood:
    /// with a frame, where there is a socket to send it on, and else with a
    /// report that nothing was sent.
    pub fn invalid_message(&self, id: u32) -> (reply: Reply)
        ensures
            match reply {
                Reply::Send(frame) => self.receiving() && frame@ == unrecognized_reply(id),
                Reply::Report(report) => !self.receiving() && report.client_id == id
                    && report.host@ == self.host() && report.port == self.port(),
            },
    {
        if self.receiving {
            let message = WireMessage {
                id,
                inner: Some(Inner::UnrecognizedMessageError(UnrecognizedMessageError {  })),
            };
            Reply::Send(message.encode())
        } else {
            Reply::Report(
                UnsentResponseError { client_id: id, host: self.host.clone(), port: self.port },
            )
        }
    }
}

/// Whatever bytes arrive, the transport goes on: the reaction to a frame is
/// never to stop. A frame that is not a message with an insert body is
/// reported, together with the frame itself; every other frame is handed on.
pub proof fn lemma_frames_never_stop(frame: Seq<u8>, host: Seq<char>, port: u16)
    ensures
        !(receive_reaction(ReceivedView::Data(frame), host, port) is Stop),
        !(receive_reaction(ReceivedView::Data(frame), host, port) is Idle),
        decode_message(frame) is Err ==> receive_reaction(ReceivedView::Data(frame), host, port)
            == (ReactionView::Report { error: Some(decode_message(frame)->Err_0), frame }),
        (decode_message(frame) matches Ok(message) && !(message.inner matches Some(
            InnerView::SetInsert(_),
        )) && !(message.inner matches Some(InnerView::SetAdd(_)))) ==> receive_reaction(
            ReceivedView::Data(frame),
            host,
            port,
        ) == (ReactionView::Report { error: None, frame }),
{
}

} // verus!
