//! Ethernet II frames.
use crate::protocols::{arp, ip, networklayer};
use crate::utils::bytes::{be16, overwrite, read_u16, zeros};
use vstd::prelude::*;

verus! {

/// The length of a MAC address.
pub const HW_ADDR_LEN: usize = 6;

/// An Ethernet II frame.
#[derive(Debug)]
pub struct Frame {
    pub dst: [u8; 6],
    pub src: [u8; 6],
    pub next: networklayer::Data,
}

/// Why a buffer is not an Ethernet frame.
#[derive(Debug, Clone, Copy, PartialEq, Eq, Structural)]
pub enum Error {
    /// Shorter than 15 bytes: the header and at least one payload byte.
    InvalidLength,
    /// An EtherType other than IPv4 or ARP.
    UnknownNetworkProtocol,
    NetworkError(networklayer::Error),
}

/// The EtherType field of `b`.
pub open spec fn ether_type(b: Seq<u8>) -> nat {
    be16(b[12], b[13])
}

/// The error that decoding `b` gives, if any.
pub open spec fn decode_error(b: Seq<u8>) -> Option<Error> {
    if b.len() < 15 {
        Some(Error::InvalidLength)
    } else if ether_type(b) == 0x0800 {
        match ip::decode_error(b.skip(14)) {
            Some(e) => Some(Error::NetworkError(networklayer::Error::Ip(e))),
            None => None,
        }
    } else if ether_type(b) == 0x0806 {
        match arp::decode_error(b.skip(14)) {
            Some(e) => Some(Error::NetworkError(networklayer::Error::Arp(e))),
            None => None,
        }
    } else {
        Some(Error::UnknownNetworkProtocol)
    }
}

/// `f` is what decoding the well-formed buffer `b` gives.
pub open spec fn decodes_to(b: Seq<u8>, f: Frame) -> bool {
    &&& b.len() >= 15
    &&& f.dst@ == b.subrange(0, 6)
    &&& f.src@ == b.subrange(6, 12)
    &&& match f.next {
        networklayer::Data::Ip(p) => ether_type(b) == 0x0800 && ip::decodes_to(b.skip(14), p),
        networklayer::Data::Arp(p) => ether_type(b) == 0x0806 && arp::decodes_to(b.skip(14), p),
    }
}

/// The EtherType that stands for a payload.
pub open spec fn ether_type_of(d: networklayer::Data) -> Seq<u8> {
    match d {
        networklayer::Data::Ip(_) => seq![0x08u8, 0x00u8],
        networklayer::Data::Arp(_) => seq![0x08u8, 0x06u8],
    }
}

/// The wire form of `f`: destination, source, EtherType, payload.
pub open spec fn encoding(f: Frame) -> Seq<u8> {
    f.dst@ + f.src@ + ether_type_of(f.next) + networklayer::encoding(f.next)
}

/// The length of `f` on the wire.
pub open spec fn wire_len(f: Frame) -> nat {
    14 + networklayer::wire_len(f.next)
}

/// Whether `f` can be encoded.
pub open spec fn encodable(f: Frame) -> bool {
    networklayer::encodable(f.next)
}

impl Frame {
    /// Decodes an Ethernet frame carrying IPv4 or ARP.
    pub fn from_raw_slice(slc: &[u8]) -> (r: Result<Frame, Error>)
        ensures
            match r {
                Ok(f) => decode_error(slc@) == None::<Error> && decodes_to(slc@, f),
                Err(e) => decode_error(slc@) == Some(e),
            },
    {
        if slc.len() < 2 * HW_ADDR_LEN + 3 {
            return Err(Error::InvalidLength);
        }
        let dst = [slc[0], slc[1], slc[2], slc[3], slc[4], slc[5]];
        let src = [slc[6], slc[7], slc[8], slc[9], slc[10], slc[11]];
        assert(dst@ =~= slc@.subrange(0, 6));
        assert(src@ =~= slc@.subrange(6, 12));
        let rest = vstd::slice::slice_subrange(slc, 2 * HW_ADDR_LEN + 2, slc.len());
        assert(rest@ =~= slc@.skip(14));
        let ether_type = read_u16(slc, 2 * HW_ADDR_LEN);
        if ether_type == 0x0800 {
            match ip::Packet::from_buffer(rest) {
                Ok(x) => Ok(Frame { dst, src, next: networklayer::Data::Ip(x) }),
                Err(e) => Err(Error::NetworkError(networklayer::Error::Ip(e))),
            }
        } else if ether_type == 0x0806 {
            match arp::Packet::from_buffer(rest) {
                Ok(x) => Ok(Frame { dst, src, next: networklayer::Data::Arp(x) }),
                Err(e) => Err(Error::NetworkError(networklayer::Error::Arp(e))),
            }
        } else {
            Err(Error::UnknownNetworkProtocol)
        }
    }

    /// Whether the frame can be encoded.
    pub fn is_encodable(&self) -> (r: bool)
        ensures
            r == encodable(*self),
    {
        self.next.is_encodable()
    }

    /// The wire form, with room reserved in front and behind.
    pub fn into_buffer(&self, offset_needed: (usize, usize)) -> (r: Vec<u8>)
        requires
            encodable(*self),
            offset_needed.0 + wire_len(*self) + offset_needed.1 <= usize::MAX,
        ensures
            r@ == zeros(offset_needed.0 as nat) + encoding(*self) + zeros(offset_needed.1 as nat),
    {
        let (front, back) = offset_needed;
        let mut vec = self.next.into_buffer((front + 2 * HW_ADDR_LEN + 2, back));
        let mut head: Vec<u8> = Vec::with_capacity(14);
        head.extend_from_slice(self.dst.as_slice());
        head.extend_from_slice(self.src.as_slice());
        match self.next {
            networklayer::Data::Ip(_) => {
                head.push(0x08);
                head.push(0x00);
            },
            networklayer::Data::Arp(_) => {
                head.push(0x08);
                head.push(0x06);
            },
        }
        assert(head@ =~= self.dst@ + self.src@ + ether_type_of(self.next));
        proof {
            crate::utils::bytes::lemma_fill_reserved(
                front as nat,
                head@,
                networklayer::encoding(self.next) + zeros(back as nat),
            );
        }
        overwrite(&mut vec, front, head.as_slice());
        assert(vec@ =~= zeros(front as nat) + encoding(*self) + zeros(back as nat));
        vec
    }
}

/// A frame shorter than 15 bytes is refused for its length.
pub proof fn lemma_short_frame_rejected(b: Seq<u8>)
    requires
        b.len() < 15,
    ensures
        decode_error(b) == Some(Error::InvalidLength),
{
}

/// A frame that re-encodes to its own bytes: each layer fills its buffer
/// exactly and holds no bits that decoding drops (see `ip::canonical` and
/// `arp::canonical`).
pub open spec fn canonical(b: Seq<u8>) -> bool {
    &&& b.len() >= 15
    &&& ether_type(b) == 0x0800 ==> ip::canonical(b.skip(14))
    &&& ether_type(b) == 0x0806 ==> arp::canonical(b.skip(14))
}

/// Where the checksum that encoding computes anew sits in `f`'s bytes: the
/// TCP checksum field, when the frame carries TCP.
pub open spec fn checksum_hole(f: Frame) -> Option<int> {
    match f.next {
        networklayer::Data::Ip(p) => crate::utils::bytes::shift_hole(ip::checksum_hole(p), 14),
        networklayer::Data::Arp(_) => None,
    }
}

/// Decoding a frame and encoding the result gives back the frame's bytes,
/// all but the TCP checksum field (which encoding computes anew), when
/// every layer fills its buffer exactly and holds no bits that decoding
/// drops.
pub proof fn lemma_round_trip(b: Seq<u8>, f: Frame)
    requires
        decode_error(b) == None::<Error>,
        decodes_to(b, f),
        canonical(b),
    ensures
        crate::utils::bytes::agrees_except(encoding(f), b, checksum_hole(f)),
{
    crate::utils::bytes::lemma_be16_join(b[12], b[13]);
    let h = f.dst@ + f.src@ + ether_type_of(f.next);
    assert(h =~= b.subrange(0, 14));
    match f.next {
        networklayer::Data::Ip(p) => {
            ip::lemma_encode_decoded(b.skip(14), p);
            crate::utils::bytes::lemma_agrees_after_header(
                h,
                networklayer::encoding(f.next),
                b.skip(14),
                ip::checksum_hole(p),
            );
        },
        networklayer::Data::Arp(p) => {
            arp::lemma_encode_decoded(b.skip(14), p);
            crate::utils::bytes::lemma_agrees_after_header(
                h,
                networklayer::encoding(f.next),
                b.skip(14),
                None,
            );
        },
    }
    assert(b =~= h + b.skip(14));
}

} // verus!
