//! The Address Resolution Protocol.
use crate::utils::bytes::{be16, overwrite, read_u16, zeros};
use vstd::prelude::*;

verus! {

/// A (sender, receiver) pair of link-layer addresses.
#[derive(Debug, Clone, Copy)]
pub enum LLAddressPair {
    Ethernet([u8; 6], [u8; 6]),
}

/// A (sender, receiver) pair of network-layer addresses.
#[derive(Debug, Clone, Copy)]
pub enum NLAddressPair {
    Ipv4([u8; 4], [u8; 4]),
    Ipv6([u8; 8], [u8; 8]),
}

/// The ARP operation.
#[derive(Debug, Clone, Copy, PartialEq, Eq, Structural)]
pub enum Action {
    Request,
    Response,
}

/// Why a buffer is not an ARP packet.
#[derive(Debug, Clone, Copy, PartialEq, Eq, Structural)]
pub enum Error {
    /// Too short to hold the address lengths.
    InvalidLength,
    /// Too short to hold the addresses that the length fields announce.
    InvalidLengthFields,
    UnknownNetworkProtocol,
    UnknownLinkProtocol,
    CantParseNetworkAddress,
    CantParseLinkAddress,
    InvalidOperation,
}

/// An ARP packet.
#[derive(Debug)]
pub struct Packet {
    pub hw_addr: LLAddressPair,
    pub sw_addr: NLAddressPair,
    pub action: Action,
}

/// The link-layer address length field of `b`.
pub open spec fn hw_len(b: Seq<u8>) -> nat {
    b[4] as nat
}

/// The network-layer address length field of `b`.
pub open spec fn sw_len(b: Seq<u8>) -> nat {
    b[5] as nat
}

/// The error that decoding `b` gives, if any.
pub open spec fn decode_error(b: Seq<u8>) -> Option<Error> {
    if b.len() < 6 {
        Some(Error::InvalidLength)
    } else if b.len() < 8 + 2 * hw_len(b) + 2 * sw_len(b) {
        Some(Error::InvalidLengthFields)
    } else if be16(b[0], b[1]) != 1 {
        Some(Error::UnknownLinkProtocol)
    } else if hw_len(b) != 6 {
        Some(Error::CantParseLinkAddress)
    } else if be16(b[2], b[3]) != 0x0800 && be16(b[2], b[3]) != 0x86DD {
        Some(Error::UnknownNetworkProtocol)
    } else if be16(b[2], b[3]) == 0x0800 && sw_len(b) != 4 {
        Some(Error::CantParseNetworkAddress)
    } else if be16(b[2], b[3]) == 0x86DD && sw_len(b) != 8 {
        Some(Error::CantParseNetworkAddress)
    } else if be16(b[6], b[7]) != 1 && be16(b[6], b[7]) != 2 {
        Some(Error::InvalidOperation)
    } else {
        None
    }
}

/// `p` is what decoding the well-formed buffer `b` gives.
pub open spec fn decodes_to(b: Seq<u8>, p: Packet) -> bool {
    let h = hw_len(b) as int;
    let s = sw_len(b) as int;
    &&& b.len() >= 8 + 2 * h + 2 * s
    &&& p.hw_addr matches LLAddressPair::Ethernet(sender, receiver)
    &&& sender@ == b.subrange(8, 8 + h)
    &&& receiver@ == b.subrange(8 + h + s, 8 + 2 * h + s)
    &&& match p.sw_addr {
        NLAddressPair::Ipv4(sender, receiver) => be16(b[2], b[3]) == 0x0800 && sender@
            == b.subrange(8 + h, 8 + h + s) && receiver@ == b.subrange(
            8 + 2 * h + s,
            8 + 2 * h + 2 * s,
        ),
        NLAddressPair::Ipv6(sender, receiver) => be16(b[2], b[3]) == 0x86DD && sender@
            == b.subrange(8 + h, 8 + h + s) && receiver@ == b.subrange(
            8 + 2 * h + s,
            8 + 2 * h + 2 * s,
        ),
    }
    &&& p.action == (if be16(b[6], b[7]) == 1 {
        Action::Request
    } else {
        Action::Response
    })
}

/// The sender and receiver link-layer addresses of `p`.
pub open spec fn hw_addrs(p: Packet) -> (Seq<u8>, Seq<u8>) {
    match p.hw_addr {
        LLAddressPair::Ethernet(s, r) => (s@, r@),
    }
}

/// The protocol type, address length, and sender and receiver addresses of
/// the network layer of `p`.
pub open spec fn sw_fields(p: Packet) -> (u8, u8, u8, Seq<u8>, Seq<u8>) {
    match p.sw_addr {
        NLAddressPair::Ipv4(s, r) => (0x08u8, 0x00u8, 4u8, s@, r@),
        NLAddressPair::Ipv6(s, r) => (0x86u8, 0xDDu8, 8u8, s@, r@),
    }
}

/// The wire form of `p`: the fixed part, then sender link and network
/// addresses, then receiver link and network addresses.
pub open spec fn encoding(p: Packet) -> Seq<u8> {
    let (t0, t1, sl, ss, sr) = sw_fields(p);
    let op: u8 = match p.action {
        Action::Request => 1,
        Action::Response => 2,
    };
    seq![0x00u8, 0x01, t0, t1, 6, sl, 0, op] + hw_addrs(p).0 + ss + hw_addrs(p).1 + sr
}

/// The length of `p` on the wire.
pub open spec fn wire_len(p: Packet) -> nat {
    (8 + 2 * 6 + 2 * sw_fields(p).2) as nat
}

impl Packet {
    /// Decodes an ARP packet; link addresses must be Ethernet, network
    /// addresses IPv4 or (8-byte) IPv6.
    pub fn from_buffer(raw: &[u8]) -> (r: Result<Packet, Error>)
        ensures
            match r {
                Ok(p) => decode_error(raw@) == None::<Error> && decodes_to(raw@, p),
                Err(e) => decode_error(raw@) == Some(e),
            },
    {
        if raw.len() < 6 {
            return Err(Error::InvalidLength);
        }
        let hw_len = raw[4] as usize;
        let sw_len = raw[5] as usize;
        if raw.len() < 8 + 2 * hw_len + 2 * sw_len {
            return Err(Error::InvalidLengthFields);
        }
        if read_u16(raw, 0) != 1 {
            return Err(Error::UnknownLinkProtocol);
        }
        if hw_len != 6 {
            return Err(Error::CantParseLinkAddress);
        }
        let hw_addr = LLAddressPair::Ethernet(
            mac_at(raw, 8),
            mac_at(raw, 8 + hw_len + sw_len),
        );
        let ptype = read_u16(raw, 2);
        let sw_addr = if ptype == 0x0800 {
            if sw_len != 4 {
                return Err(Error::CantParseNetworkAddress);
            }
            NLAddressPair::Ipv4(
                ipv4_at(raw, 8 + hw_len),
                ipv4_at(raw, 8 + 2 * hw_len + sw_len),
            )
        } else if ptype == 0x86DD {
            if sw_len != 8 {
                return Err(Error::CantParseNetworkAddress);
            }
            NLAddressPair::Ipv6(
                ipv6_at(raw, 8 + hw_len),
                ipv6_at(raw, 8 + 2 * hw_len + sw_len),
            )
        } else {
            return Err(Error::UnknownNetworkProtocol);
        };
        let op = read_u16(raw, 6);
        let action = if op == 1 {
            Action::Request
        } else if op == 2 {
            Action::Response
        } else {
            return Err(Error::InvalidOperation);
        };
        Ok(Packet { hw_addr, sw_addr, action })
    }

    /// The wire form, with room reserved in front and behind.
    pub fn into_buffer(&self, offset_needed: (usize, usize)) -> (r: Vec<u8>)
        requires
            offset_needed.0 + wire_len(*self) + offset_needed.1 <= usize::MAX,
        ensures
            r@ == zeros(offset_needed.0 as nat) + encoding(*self) + zeros(offset_needed.1 as nat),
    {
        let (front, back) = offset_needed;
        let op: u8 = match self.action {
            Action::Request => 1,
            Action::Response => 2,
        };
        let (t0, t1, sl): (u8, u8, u8) = match self.sw_addr {
            NLAddressPair::Ipv4(_, _) => (0x08, 0x00, 4),
            NLAddressPair::Ipv6(_, _) => (0x86, 0xDD, 8),
        };
        let mut body: Vec<u8> = vec![0x00, 0x01, t0, t1, 6, sl, 0, op];
        match self.hw_addr {
            LLAddressPair::Ethernet(ref s, _) => body.extend_from_slice(s.as_slice()),
        }
        match self.sw_addr {
            NLAddressPair::Ipv4(ref s, _) => body.extend_from_slice(s.as_slice()),
            NLAddressPair::Ipv6(ref s, _) => body.extend_from_slice(s.as_slice()),
        }
        match self.hw_addr {
            LLAddressPair::Ethernet(_, ref r) => body.extend_from_slice(r.as_slice()),
        }
        match self.sw_addr {
            NLAddressPair::Ipv4(_, ref r) => body.extend_from_slice(r.as_slice()),
            NLAddressPair::Ipv6(_, ref r) => body.extend_from_slice(r.as_slice()),
        }
        assert(body@ =~= encoding(*self));
        let mut out = crate::utils::bytes::zero_vec(front + body.len() + back);
        overwrite(&mut out, front, body.as_slice());
        assert(out@ =~= zeros(front as nat) + encoding(*self) + zeros(back as nat));
        out
    }
}

/// The six bytes at `at`.
fn mac_at(b: &[u8], at: usize) -> (r: [u8; 6])
    requires
        at + 6 <= b@.len(),
    ensures
        r@ == b@.subrange(at as int, at + 6),
{
    let r = [b[at], b[at + 1], b[at + 2], b[at + 3], b[at + 4], b[at + 5]];
    assert(r@ =~= b@.subrange(at as int, at + 6));
    r
}

/// The four bytes at `at`.
fn ipv4_at(b: &[u8], at: usize) -> (r: [u8; 4])
    requires
        at + 4 <= b@.len(),
    ensures
        r@ == b@.subrange(at as int, at + 4),
{
    let r = [b[at], b[at + 1], b[at + 2], b[at + 3]];
    assert(r@ =~= b@.subrange(at as int, at + 4));
    r
}

/// The eight bytes at `at`.
fn ipv6_at(b: &[u8], at: usize) -> (r: [u8; 8])
    requires
        at + 8 <= b@.len(),
    ensures
        r@ == b@.subrange(at as int, at + 8),
{
    let r = [b[at], b[at + 1], b[at + 2], b[at + 3], b[at + 4], b[at + 5], b[at + 6], b[at + 7]];
    assert(r@ =~= b@.subrange(at as int, at + 8));
    r
}

/// A packet too short for the addresses its length fields announce is
/// refused as such.
pub proof fn lemma_short_addresses_rejected(b: Seq<u8>)
    requires
        b.len() >= 6,
        8 + 2 * hw_len(b) + 2 * sw_len(b) > b.len(),
    ensures
        decode_error(b) == Some(Error::InvalidLengthFields),
{
}

/// A packet that re-encodes to its own bytes: Ethernet addresses, the
/// buffer exactly as long as the addresses need, and a zero high byte of
/// the operation.
pub open spec fn canonical(b: Seq<u8>) -> bool {
    &&& b.len() >= 8
    &&& b.len() == 8 + 2 * hw_len(b) + 2 * sw_len(b)
    &&& b[6] == 0
}

/// Encoding a decoded packet gives back the bytes it was decoded from.
pub proof fn lemma_encode_decoded(b: Seq<u8>, p: Packet)
    requires
        decode_error(b) == None::<Error>,
        decodes_to(b, p),
        canonical(b),
    ensures
        encoding(p) == b,
{
    crate::utils::bytes::lemma_be16_join(b[0], b[1]);
    crate::utils::bytes::lemma_be16_join(b[2], b[3]);
    crate::utils::bytes::lemma_be16_join(b[6], b[7]);
    assert(encoding(p) =~= b);
}

} // verus!
