//! Captured link-layer data.
use crate::protocols::ethernet;
use crate::utils::bytes::zeros;
use vstd::prelude::*;

verus! {

/// A link-layer frame.
#[derive(Debug)]
pub enum Data {
    Ethernet(ethernet::Frame),
}

/// Why link-layer data could not be decoded.
#[derive(Debug, Clone, Copy, PartialEq, Eq, Structural)]
pub enum Error {
    Ethernet(ethernet::Error),
}

impl From<ethernet::Error> for Error {
    fn from(thing: ethernet::Error) -> (r: Error)
        ensures
            r == Error::Ethernet(thing),
    {
        Error::Ethernet(thing)
    }
}

impl vstd::std_specs::convert::FromSpecImpl<ethernet::Error> for Error {
    open spec fn obeys_from_spec() -> bool {
        true
    }

    open spec fn from_spec(thing: ethernet::Error) -> Error {
        Error::Ethernet(thing)
    }
}

/// The length of `d` on the wire.
pub open spec fn wire_len(d: Data) -> nat {
    match d {
        Data::Ethernet(f) => ethernet::wire_len(f),
    }
}

/// Whether `d` can be encoded.
pub open spec fn encodable(d: Data) -> bool {
    match d {
        Data::Ethernet(f) => ethernet::encodable(f),
    }
}

/// The wire form of `d`.
pub open spec fn encoding(d: Data) -> Seq<u8> {
    match d {
        Data::Ethernet(f) => ethernet::encoding(f),
    }
}

impl Data {
    /// Whether the frame can be encoded.
    pub fn is_encodable(&self) -> (r: bool)
        ensures
            r == encodable(*self),
    {
        match self {
            Data::Ethernet(f) => f.is_encodable(),
        }
    }

    /// The wire form, with room reserved in front and behind.
    pub fn into_buffer(&self, offset_needed: (usize, usize)) -> (r: Vec<u8>)
        requires
            encodable(*self),
            offset_needed.0 + wire_len(*self) + offset_needed.1 <= usize::MAX,
        ensures
            r@ == zeros(offset_needed.0 as nat) + encoding(*self) + zeros(offset_needed.1 as nat),
    {
        match self {
            Data::Ethernet(f) => f.into_buffer(offset_needed),
        }
    }
}

} // verus!
