//! IP packets of either version, and the ECN field that both versions share.
use crate::protocols::{ipv4, ipv6};
use crate::utils::bytes::zeros;
use vstd::prelude::*;

verus! {

/// The two-bit Explicit Congestion Notification field.
#[derive(Debug, Clone, Copy, PartialEq, Eq, Structural)]
pub enum Ecn {
    NonEcnCapable,
    /// ECT(1) when `true`, ECT(0) when `false`.
    EcnCapable(bool),
    CongestionEncountered,
}

/// The ECN value of the two bits `raw`.
pub open spec fn ecn_of(raw: u8) -> Ecn {
    if raw == 0 {
        Ecn::NonEcnCapable
    } else if raw == 1 {
        Ecn::EcnCapable(true)
    } else if raw == 2 {
        Ecn::EcnCapable(false)
    } else {
        Ecn::CongestionEncountered
    }
}

/// The two bits of an ECN value.
pub open spec fn ecn_bits(e: Ecn) -> u8 {
    match e {
        Ecn::NonEcnCapable => 0,
        Ecn::EcnCapable(true) => 1,
        Ecn::EcnCapable(false) => 2,
        Ecn::CongestionEncountered => 3,
    }
}

impl Ecn {
    /// The ECN value of a two-bit field; `Err` above 3.
    pub fn from_u8(raw: u8) -> (r: Result<Ecn, ()>)
        ensures
            raw <= 3 ==> r == Ok::<Ecn, ()>(ecn_of(raw)),
            raw > 3 ==> r is Err,
    {
        match raw {
            0 => Ok(Ecn::NonEcnCapable),
            1 => Ok(Ecn::EcnCapable(true)),
            2 => Ok(Ecn::EcnCapable(false)),
            3 => Ok(Ecn::CongestionEncountered),
            _ => Err(()),
        }
    }

    /// The two-bit field of this value.
    pub fn to_u8(&self) -> (r: u8)
        ensures
            r == ecn_bits(*self),
    {
        match self {
            Ecn::NonEcnCapable => 0,
            Ecn::EcnCapable(true) => 1,
            Ecn::EcnCapable(false) => 2,
            Ecn::CongestionEncountered => 3,
        }
    }
}

/// Reading the ECN field and writing it back are inverse: every two-bit
/// field reads as a value that writes back as the same bits, and every value
/// writes as bits that read back as the same value.
pub proof fn lemma_ecn_bijection(raw: u8, e: Ecn)
    ensures
        raw <= 3 ==> ecn_bits(ecn_of(raw)) == raw,
        ecn_bits(e) <= 3,
        ecn_of(ecn_bits(e)) == e,
{
}

/// An IP packet.
#[derive(Debug)]
pub enum Packet {
    V4(ipv4::Packet),
    V6(ipv6::Packet),
}

/// Why a buffer is not an IP packet.
#[derive(Debug, Clone, Copy, PartialEq, Eq, Structural)]
pub enum Error {
    /// Empty.
    InvalidLength,
    /// A version other than 4 or 6.
    UnknownProtocolVersion,
    V4Err(ipv4::Error),
    V6Err(ipv6::Error),
}

/// The error that decoding `b` gives, if any.
pub open spec fn decode_error(b: Seq<u8>) -> Option<Error> {
    if b.len() < 1 {
        Some(Error::InvalidLength)
    } else if b[0] / 16 == 4 {
        match ipv4::decode_error(b) {
            Some(e) => Some(Error::V4Err(e)),
            None => None,
        }
    } else if b[0] / 16 == 6 {
        match ipv6::decode_error(b) {
            Some(e) => Some(Error::V6Err(e)),
            None => None,
        }
    } else {
        Some(Error::UnknownProtocolVersion)
    }
}

/// `p` is what decoding the well-formed buffer `b` gives.
pub open spec fn decodes_to(b: Seq<u8>, p: Packet) -> bool {
    match p {
        Packet::V4(q) => b.len() >= 1 && b[0] / 16 == 4 && ipv4::decodes_to(b, q),
        Packet::V6(q) => b.len() >= 1 && b[0] / 16 == 6 && ipv6::decodes_to(b, q),
    }
}

/// The length of `p` on the wire.
pub open spec fn wire_len(p: Packet) -> nat {
    match p {
        Packet::V4(q) => ipv4::wire_len(q),
        Packet::V6(q) => ipv6::wire_len(q),
    }
}

/// Whether `p` can be encoded.
pub open spec fn encodable(p: Packet) -> bool {
    match p {
        Packet::V4(q) => ipv4::encodable(q),
        Packet::V6(q) => ipv6::encodable(q),
    }
}

/// `b` with the version nibble `v` written into its first byte.
pub open spec fn with_version(b: Seq<u8>, v: u8) -> Seq<u8> {
    b.update(0, (b[0] % 16 + v * 16) as u8)
}

/// The wire form of `p`, with its version nibble.
pub open spec fn encoding(p: Packet) -> Seq<u8> {
    match p {
        Packet::V4(q) => with_version(ipv4::encoding(q), 4),
        Packet::V6(q) => with_version(ipv6::encoding(q), 6),
    }
}

impl Packet {
    /// Decodes an IP packet, by the version in its first nibble.
    pub fn from_buffer(slc: &[u8]) -> (r: Result<Packet, Error>)
        ensures
            match r {
                Ok(p) => decode_error(slc@) == None::<Error> && decodes_to(slc@, p),
                Err(e) => decode_error(slc@) == Some(e),
            },
    {
        if slc.len() < 1 {
            return Err(Error::InvalidLength);
        }
        let version = slc[0] / 16;
        if version == 4 {
            match ipv4::Packet::from_buffer(slc) {
                Err(e) => Err(Error::V4Err(e)),
                Ok(r) => Ok(Packet::V4(r)),
            }
        } else if version == 6 {
            match ipv6::Packet::from_buffer(slc) {
                Err(e) => Err(Error::V6Err(e)),
                Ok(r) => Ok(Packet::V6(r)),
            }
        } else {
            Err(Error::UnknownProtocolVersion)
        }
    }

    /// Whether the packet can be encoded.
    pub fn is_encodable(&self) -> (r: bool)
        ensures
            r == encodable(*self),
    {
        match self {
            Packet::V4(p) => p.is_encodable(),
            Packet::V6(p) => p.is_encodable(),
        }
    }

    /// The wire form, with room reserved in front and behind, and the
    /// protocol version written into the first nibble.
    pub fn into_buffer(&self, offset_needed: (usize, usize)) -> (r: Vec<u8>)
        requires
            encodable(*self),
            offset_needed.0 + wire_len(*self) + offset_needed.1 <= usize::MAX,
        ensures
            r@ == zeros(offset_needed.0 as nat) + encoding(*self) + zeros(offset_needed.1 as nat),
    {
        let (front, back) = offset_needed;
        match self {
            Packet::V4(p) => {
                let mut v = p.into_buffer(offset_needed);
                proof {
                    lemma_version_nibble(front as nat, ipv4::encoding(*p), back as nat);
                }
                let b = v[front] % 16 + 0x40;
                v.set(front, b);
                assert(v@ =~= zeros(front as nat) + encoding(*self) + zeros(back as nat));
                v
            },
            Packet::V6(p) => {
                let mut v = p.into_buffer(offset_needed);
                proof {
                    lemma_version_nibble(front as nat, ipv6::encoding(*p), back as nat);
                }
                let b = v[front] % 16 + 0x60;
                v.set(front, b);
                assert(v@ =~= zeros(front as nat) + encoding(*self) + zeros(back as nat));
                v
            },
        }
    }
}

/// The first byte of an encoding framed by zeros sits right after the
/// leading zeros.
proof fn lemma_version_nibble(a: nat, e: Seq<u8>, b: nat)
    requires
        e.len() >= 1,
    ensures
        (zeros(a) + e + zeros(b))[a as int] == e[0],
{
}

/// A packet that re-encodes to its own bytes.
pub open spec fn canonical(b: Seq<u8>) -> bool {
    b.len() >= 1 && if b[0] / 16 == 4 {
        ipv4::canonical(b)
    } else {
        ipv6::canonical(b)
    }
}

/// Where the checksum that encoding computes anew sits in `p`'s bytes.
pub open spec fn checksum_hole(p: Packet) -> Option<int> {
    match p {
        Packet::V4(q) => crate::utils::bytes::shift_hole(
            crate::protocols::sessionlayer::checksum_hole(q.next),
            20,
        ),
        Packet::V6(q) => crate::utils::bytes::shift_hole(
            crate::protocols::sessionlayer::checksum_hole(q.next),
            40,
        ),
    }
}

/// Encoding a decoded packet gives back the bytes it was decoded from, but
/// for a TCP checksum in its payload.
pub proof fn lemma_encode_decoded(b: Seq<u8>, p: Packet)
    requires
        decode_error(b) == None::<Error>,
        decodes_to(b, p),
        canonical(b),
    ensures
        crate::utils::bytes::agrees_except(encoding(p), b, checksum_hole(p)),
        wire_len(p) == b.len(),
{
    match p {
        Packet::V4(q) => {
            ipv4::lemma_encode_decoded(b, q);
            assert(encoding(p) =~= ipv4::encoding(q));
        },
        Packet::V6(q) => {
            ipv6::lemma_encode_decoded(b, q);
            assert(encoding(p) =~= ipv6::encoding(q).update(0, b[0]));
        },
    }
}

} // verus!
