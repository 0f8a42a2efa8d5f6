//! The decisions of a request/response exchange over one connection. The
//! caller performs each action (connect, write, read under a deadline) and
//! reports what happened as the next event.
use crate::error::Error;
use crate::frame::ProtocolDataUnit;
use vstd::prelude::*;

verus! {

/// Where a connection stands.
#[derive(Clone, Copy, PartialEq, Eq, Debug, Structural)]
pub enum LinkState {
    /// No connection; the initial state.
    Closed,
    /// Connected, no exchange under way.
    Open,
    /// A request is being written.
    Writing,
    /// The request was written; the response is awaited.
    Reading,
}

/// What the caller reports.
#[derive(Debug)]
pub enum LinkEvent {
    /// The connection was established.
    Opened,
    /// The connection was released.
    Closed,
    /// The caller wants to send a request.
    SendRequested,
    /// The request was written within its deadline.
    Written,
    /// The medium failed while writing.
    WriteFailed(Error),
    /// The write deadline elapsed.
    WriteTimedOut,
    /// A frame was decoded from the inbound bytes.
    Received(ProtocolDataUnit),
    /// The inbound stream ended before a frame was decoded.
    Ended,
    /// Reading or decoding failed.
    ReadFailed(Error),
    /// The read deadline elapsed.
    ReadTimedOut,
    /// An exchange under way was given up before it ended (its task was
    /// cancelled); the connection itself is kept.
    Abandoned,
}

/// What the caller is to do next.
#[derive(Debug)]
pub enum LinkAction {
    /// Nothing: the event does not belong to the current state.
    Nothing,
    /// Write the request under its own deadline.
    Write,
    /// Wait, under its own deadline, for the next decoded frame.
    Read,
    /// The exchange is over: hand this result to the sender.
    Reply(Result<Option<ProtocolDataUnit>, Error>),
}

/// The next state and action after `e` in state `s`. Opening and closing are
/// accepted in any state (closing twice is no error); a send on a closed
/// connection fails at once; a send writes, then reads, each phase ending
/// the exchange on its own failure or timeout and leaving the connection
/// open. An abandoned exchange returns the connection to `Open`.
pub open spec fn link_next(s: LinkState, e: LinkEvent) -> (LinkState, LinkAction) {
    match (s, e) {
        (_, LinkEvent::Opened) => (LinkState::Open, LinkAction::Nothing),
        (_, LinkEvent::Closed) => (LinkState::Closed, LinkAction::Nothing),
        (LinkState::Closed, LinkEvent::SendRequested) => (
            LinkState::Closed,
            LinkAction::Reply(Err(Error::NotOpen)),
        ),
        (LinkState::Open, LinkEvent::SendRequested) => (LinkState::Writing, LinkAction::Write),
        (LinkState::Writing, LinkEvent::Written) => (LinkState::Reading, LinkAction::Read),
        (LinkState::Writing, LinkEvent::WriteFailed(err)) => (
            LinkState::Open,
            LinkAction::Reply(Err(err)),
        ),
        (LinkState::Writing, LinkEvent::WriteTimedOut) => (
            LinkState::Open,
            LinkAction::Reply(Err(Error::Timeout)),
        ),
        (LinkState::Reading, LinkEvent::Received(p)) => (
            LinkState::Open,
            LinkAction::Reply(Ok(Some(p))),
        ),
        (LinkState::Reading, LinkEvent::Ended) => (LinkState::Open, LinkAction::Reply(Ok(None))),
        (LinkState::Reading, LinkEvent::ReadFailed(err)) => (
            LinkState::Open,
            LinkAction::Reply(Err(err)),
        ),
        (LinkState::Reading, LinkEvent::ReadTimedOut) => (
            LinkState::Open,
            LinkAction::Reply(Err(Error::Timeout)),
        ),
        (LinkState::Writing, LinkEvent::Abandoned) => (LinkState::Open, LinkAction::Nothing),
        (LinkState::Reading, LinkEvent::Abandoned) => (LinkState::Open, LinkAction::Nothing),
        _ => (s, LinkAction::Nothing),
    }
}

/// Takes one step of the exchange.
pub fn step(state: LinkState, event: LinkEvent) -> (r: (LinkState, LinkAction))
    ensures
        r == link_next(state, event),
{
    match event {
        LinkEvent::Opened => (LinkState::Open, LinkAction::Nothing),
        LinkEvent::Closed => (LinkState::Closed, LinkAction::Nothing),
        LinkEvent::SendRequested => match state {
            LinkState::Closed => (LinkState::Closed, LinkAction::Reply(Err(Error::NotOpen))),
            LinkState::Open => (LinkState::Writing, LinkAction::Write),
            _ => (state, LinkAction::Nothing),
        },
        LinkEvent::Written => match state {
            LinkState::Writing => (LinkState::Reading, LinkAction::Read),
            _ => (state, LinkAction::Nothing),
        },
        LinkEvent::WriteFailed(err) => match state {
            LinkState::Writing => (LinkState::Open, LinkAction::Reply(Err(err))),
            _ => (state, LinkAction::Nothing),
        },
        LinkEvent::WriteTimedOut => match state {
            LinkState::Writing => (LinkState::Open, LinkAction::Reply(Err(Error::Timeout))),
            _ => (state, LinkAction::Nothing),
        },
        LinkEvent::Received(p) => match state {
            LinkState::Reading => (LinkState::Open, LinkAction::Reply(Ok(Some(p)))),
            _ => (state, LinkAction::Nothing),
        },
        LinkEvent::Ended => match state {
            LinkState::Reading => (LinkState::Open, LinkAction::Reply(Ok(None))),
            _ => (state, LinkAction::Nothing),
        },
        LinkEvent::ReadFailed(err) => match state {
            LinkState::Reading => (LinkState::Open, LinkAction::Reply(Err(err))),
            _ => (state, LinkAction::Nothing),
        },
        LinkEvent::ReadTimedOut => match state {
            LinkState::Reading => (LinkState::Open, LinkAction::Reply(Err(Error::Timeout))),
            _ => (state, LinkAction::Nothing),
        },
        LinkEvent::Abandoned => match state {
            LinkState::Writing | LinkState::Reading => (LinkState::Open, LinkAction::Nothing),
            _ => (state, LinkAction::Nothing),
        },
    }
}

} // verus!
