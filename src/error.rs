use vstd::prelude::*;

verus! {

/// Everything that can go wrong while building, scanning or exchanging frames.
#[derive(Debug)]
pub enum Error {
    /// The scanner needs more bytes before it can decide.
    Incomplete,
    /// A marker byte of the frame grammar held this unexpected value.
    Protocol(u8),
    /// A byte sequence or text lacked the parts of a frame.
    InvalidFrame,
    /// Command parameters were not valid hexadecimal, or gave no control code,
    /// or the payload would not fit its one-byte length.
    InvalidInput,
    /// An outgoing buffer cannot grow by that many bytes.
    Capacity,
    /// A connect, write or read deadline elapsed.
    Timeout,
    /// The medium reported a failure.
    Connection(String),
    /// `send` was called while no connection was open.
    NotOpen,
}

} // verus!
