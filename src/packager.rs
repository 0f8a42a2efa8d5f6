use crate::error::Error;
use crate::frame::ProtocolDataUnit;
use vstd::prelude::*;

verus! {

/// An outer envelope around units: how one is wrapped for a transport and
/// unwrapped again. The library itself has no envelope.
pub trait Packager {
    fn encode(pdu: &ProtocolDataUnit) -> Result<Vec<u8>, Error>;

    fn decode(adu: &Vec<u8>) -> Result<Vec<u8>, Error>;
}

} // verus!
