//! What a transport is told about its socket.

use vstd::prelude::*;

verus! {

/// How opening the socket and connecting it went.
#[derive(Debug)]
pub enum Startup {
    /// The socket is open and connected.
    Ready,
    /// No socket could be opened, for the reason given.
    OpenFailed(String),
    /// The socket was opened but could not be connected, for the reason
    /// given.
    ConnectionFailed(String),
}

/// A `Startup`, as plain values.
pub enum StartupView {
    Ready,
    OpenFailed(Seq<char>),
    ConnectionFailed(Seq<char>),
}

impl View for Startup {
    type V = StartupView;

    open spec fn view(&self) -> StartupView {
        match self {
            Startup::Ready => StartupView::Ready,
            Startup::OpenFailed(error) => StartupView::OpenFailed(error@),
            Startup::ConnectionFailed(error) => StartupView::ConnectionFailed(error@),
        }
    }
}

} // verus!
