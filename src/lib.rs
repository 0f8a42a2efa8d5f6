//! Framing, parsing and exchange logic for a DL/T 645 style metering protocol:
//! a wake-up preamble, two start markers around a six-byte address, a control
//! code, a length-prefixed byte-stuffed payload, a modulo-256 checksum and an
//! end marker.

pub mod codec;
pub mod error;
pub mod frame;
pub mod laws;
pub mod link;
pub mod packager;
pub mod text;

pub use codec::{RS485Codec, TcpCodec};
pub use error::Error;
pub use frame::{Frame, FrameError, ProtocolDataUnit, TryFromError};
pub use link::{step, LinkAction, LinkEvent, LinkState};
pub use packager::Packager;
