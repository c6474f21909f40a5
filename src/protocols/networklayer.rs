//! The payload of a link-layer frame: one of the network-layer protocols.
use crate::protocols::{arp, ip};
use crate::utils::bytes::zeros;
use vstd::prelude::*;

verus! {

/// A link-layer payload.
#[derive(Debug)]
pub enum Data {
    Ip(ip::Packet),
    Arp(arp::Packet),
}

/// Why a link-layer payload could not be decoded.
#[derive(Debug, Clone, Copy, PartialEq, Eq, Structural)]
pub enum Error {
    Ip(ip::Error),
    Arp(arp::Error),
}

/// The length of `d` on the wire.
pub open spec fn wire_len(d: Data) -> nat {
    match d {
        Data::Ip(p) => ip::wire_len(p),
        Data::Arp(p) => arp::wire_len(p),
    }
}

/// Whether `d` can be encoded.
pub open spec fn encodable(d: Data) -> bool {
    match d {
        Data::Ip(p) => ip::encodable(p),
        Data::Arp(_) => true,
    }
}

/// The wire form of `d`.
pub open spec fn encoding(d: Data) -> Seq<u8> {
    match d {
        Data::Ip(p) => ip::encoding(p),
        Data::Arp(p) => arp::encoding(p),
    }
}

impl Data {
    /// Whether the payload can be encoded.
    pub fn is_encodable(&self) -> (r: bool)
        ensures
            r == encodable(*self),
    {
        match self {
            Data::Ip(p) => p.is_encodable(),
            Data::Arp(_) => true,
        }
    }

    /// The wire form, with room reserved in front and behind.
    pub fn into_buffer(&self, offset_needed: (usize, usize)) -> (r: Vec<u8>)
        requires
            encodable(*self),
            offset_needed.0 + wire_len(*self) + offset_needed.1 <= usize::MAX,
        ensures
            r@ == zeros(offset_needed.0 as nat) + encoding(*self) + zeros(offset_needed.1 as nat),
    {
        match self {
            Data::Ip(p) => p.into_buffer(offset_needed),
            Data::Arp(p) => p.into_buffer(offset_needed),
        }
    }
}

} // verus!
