//! The payload of an IP packet: one of the session-layer protocols.
use crate::protocols::{icmp, tcp, udp};
use crate::utils::bytes::{copy_range, overwrite, zero_vec, zeros};
use crate::utils::ip_checksum::pseudo_sum_fits;
use vstd::prelude::*;

verus! {

/// An IP payload.
#[derive(Debug)]
pub enum Data {
    Tcp(tcp::Segment),
    Icmp(icmp::Packet),
    Udp(udp::Datagram),
    /// A protocol this library does not decode: its number and its bytes, kept
    /// so that the packet can still be built again.
    UnknownIpProtocol(u8, Vec<u8>),
}

/// Why an IP payload could not be decoded.
#[derive(Debug, Clone, Copy, PartialEq, Eq, Structural)]
pub enum Error {
    Tcp(tcp::Error),
    Icmp(icmp::Error),
    Udp(udp::Error),
}

/// The IP protocol number of a payload.
pub open spec fn protocol_number(d: Data) -> u8 {
    match d {
        Data::Icmp(_) => 0x01,
        Data::Tcp(_) => 0x06,
        Data::Udp(_) => 0x11,
        Data::UnknownIpProtocol(c, _) => c,
    }
}

/// The error that decoding `b` as protocol `proto` gives, if any.
pub open spec fn decode_error(proto: u8, b: Seq<u8>) -> Option<Error> {
    if proto == 0x01 {
        match icmp::decode_error(b) {
            Some(e) => Some(Error::Icmp(e)),
            None => None,
        }
    } else if proto == 0x06 {
        match tcp::decode_error(b) {
            Some(e) => Some(Error::Tcp(e)),
            None => None,
        }
    } else if proto == 0x11 {
        match udp::decode_error(b) {
            Some(e) => Some(Error::Udp(e)),
            None => None,
        }
    } else {
        None
    }
}

/// `d` is what decoding the well-formed payload `b` of protocol `proto`
/// gives.
pub open spec fn decodes_to(proto: u8, b: Seq<u8>, d: Data) -> bool {
    match d {
        Data::Icmp(p) => proto == 0x01 && icmp::decodes_to(b, p),
        Data::Tcp(s) => proto == 0x06 && tcp::decodes_to(b, s),
        Data::Udp(u) => proto == 0x11 && udp::decodes_to(b, u),
        Data::UnknownIpProtocol(c, v) => c == proto && proto != 0x01 && proto != 0x06 && proto
            != 0x11 && v@ == b,
    }
}

/// The length of `d` on the wire.
pub open spec fn wire_len(d: Data) -> nat {
    match d {
        Data::Icmp(p) => 8 + p.data@.len(),
        Data::Tcp(s) => tcp::wire_len(s),
        Data::Udp(u) => udp::wire_len(u),
        Data::UnknownIpProtocol(_, v) => v@.len(),
    }
}

/// Whether `d` can be encoded: each protocol's own conditions, and a length
/// that fits in an IP packet.
pub open spec fn encodable(d: Data) -> bool {
    match d {
        Data::Icmp(p) => icmp::encodable(p),
        Data::Tcp(s) => tcp::encodable(s),
        Data::Udp(u) => udp::encodable(u),
        Data::UnknownIpProtocol(_, v) => v@.len() <= 0xFFFF,
    }
}

/// The wire form of `d` over the pseudo-header sum `pseudo`.
pub open spec fn encoding(d: Data, pseudo: u32) -> Seq<u8> {
    match d {
        Data::Icmp(p) => icmp::encoding(p),
        Data::Tcp(s) => tcp::encoding(s, pseudo),
        Data::Udp(u) => udp::encoding(u, pseudo),
        Data::UnknownIpProtocol(_, v) => v@,
    }
}

impl Data {
    /// Decodes the payload `slc` of an IP packet whose protocol number is
    /// `proto`; unknown protocols keep their bytes.
    pub fn from_buffer(proto: u8, slc: &[u8]) -> (r: Result<Data, Error>)
        ensures
            match r {
                Ok(d) => decode_error(proto, slc@) == None::<Error> && decodes_to(proto, slc@, d),
                Err(e) => decode_error(proto, slc@) == Some(e),
            },
    {
        if proto == 0x01 {
            match icmp::Packet::from_buffer(slc) {
                Ok(p) => Ok(Data::Icmp(p)),
                Err(e) => Err(Error::Icmp(e)),
            }
        } else if proto == 0x06 {
            match tcp::Segment::from_buffer(slc) {
                Ok(s) => Ok(Data::Tcp(s)),
                Err(e) => Err(Error::Tcp(e)),
            }
        } else if proto == 0x11 {
            match udp::Datagram::from_buffer(slc) {
                Ok(d) => Ok(Data::Udp(d)),
                Err(e) => Err(Error::Udp(e)),
            }
        } else {
            let bytes = copy_range(slc, 0, slc.len());
            assert(bytes@ =~= slc@);
            Ok(Data::UnknownIpProtocol(proto, bytes))
        }
    }

    /// The IP protocol number of the payload.
    pub fn protocol(&self) -> (r: u8)
        ensures
            r == protocol_number(*self),
    {
        match self {
            Data::Icmp(_) => 0x01,
            Data::Tcp(_) => 0x06,
            Data::Udp(_) => 0x11,
            Data::UnknownIpProtocol(c, _) => *c,
        }
    }

    /// The length of the payload on the wire.
    pub fn wire_len(&self) -> (r: usize)
        requires
            encodable(*self),
        ensures
            r == wire_len(*self),
    {
        match self {
            Data::Icmp(p) => 8 + p.data.len(),
            Data::Tcp(s) => 20 + s.options.len() + s.payload.len(),
            Data::Udp(u) => 8 + u.payload.len(),
            Data::UnknownIpProtocol(_, v) => v.len(),
        }
    }

    /// Whether the payload can be encoded.
    pub fn is_encodable(&self) -> (r: bool)
        ensures
            r == encodable(*self),
    {
        match self {
            Data::Icmp(p) => p.is_encodable(),
            Data::Tcp(s) => s.is_encodable(),
            Data::Udp(u) => u.is_encodable(),
            Data::UnknownIpProtocol(_, v) => v.len() <= 0xFFFF,
        }
    }

    /// The wire form, with room reserved in front and behind;
    /// `checksum_offset` is the enclosing IP pseudo-header sum.
    pub fn into_buffer(&self, offset_needed: (usize, usize), checksum_offset: u32) -> (r: Vec<u8>)
        requires
            encodable(*self),
            pseudo_sum_fits(checksum_offset),
            offset_needed.0 + wire_len(*self) + offset_needed.1 <= usize::MAX,
        ensures
            r@ == zeros(offset_needed.0 as nat) + encoding(*self, checksum_offset) + zeros(
                offset_needed.1 as nat,
            ),
    {
        match self {
            Data::Tcp(s) => s.into_buffer(offset_needed, checksum_offset),
            Data::Udp(d) => d.into_buffer(offset_needed, checksum_offset),
            Data::Icmp(i) => i.into_buffer(offset_needed),
            Data::UnknownIpProtocol(_, v) => {
                let (front, back) = offset_needed;
                let mut out = zero_vec(front + v.len() + back);
                overwrite(&mut out, front, v.as_slice());
                assert(out@ =~= zeros(front as nat) + v@ + zeros(back as nat));
                out
            },
        }
    }
}

/// A payload that re-encodes to its own bytes (a TCP segment but for its
/// checksum): a UDP datagram that fills its buffer, a TCP segment with its
/// reserved bits clear.
pub open spec fn canonical(proto: u8, b: Seq<u8>) -> bool {
    if proto == 0x06 {
        tcp::canonical(b)
    } else if proto == 0x11 {
        udp::canonical(b)
    } else {
        true
    }
}

/// Where the checksum that encoding computes anew sits in `d`'s bytes.
pub open spec fn checksum_hole(d: Data) -> Option<int> {
    match d {
        Data::Tcp(_) => Some(16),
        _ => None,
    }
}

/// Encoding a decoded payload gives back the bytes it was decoded from, but
/// for a TCP checksum.
pub proof fn lemma_encode_decoded(proto: u8, b: Seq<u8>, d: Data, pseudo: u32)
    requires
        decode_error(proto, b) == None::<Error>,
        decodes_to(proto, b, d),
        canonical(proto, b),
    ensures
        crate::utils::bytes::agrees_except(encoding(d, pseudo), b, checksum_hole(d)),
        wire_len(d) == b.len(),
        protocol_number(d) == proto,
{
    match d {
        Data::Icmp(p) => {
            icmp::lemma_encode_decoded(b, p);
        },
        Data::Tcp(s) => {
            tcp::lemma_encode_decoded(b, s, pseudo);
        },
        Data::Udp(u) => {
            udp::lemma_encode_decoded(b, u, pseudo);
        },
        Data::UnknownIpProtocol(_, v) => {},
    }
}

} // verus!
