//! IPv6 packets (fixed header only).
use crate::protocols::sessionlayer;
use crate::utils::bytes::{be16, hi8, lo8, overwrite, read_u16, zeros};
use crate::utils::ip_checksum::{lemma_word_sum_bound, sum_words, word_sum};
use vstd::prelude::*;

verus! {

/// An IPv6 packet.
#[derive(Debug)]
pub struct Packet {
    pub dst: [u8; 16],
    pub src: [u8; 16],
    /// The 20-bit flow label.
    pub flow: u32,
    pub traffic: u8,
    pub ttl: u8,
    pub next: sessionlayer::Data,
}

/// Why a buffer is not an IPv6 packet.
#[derive(Debug, Clone, Copy, PartialEq, Eq, Structural)]
pub enum Error {
    /// Shorter than the 40-byte header.
    UnknownHeaderLength,
    /// A payload length past the end of the buffer.
    InvalidPayloadLength,
    SessionErr(sessionlayer::Error),
}

/// The error that decoding `b` gives, if any.
pub open spec fn decode_error(b: Seq<u8>) -> Option<Error> {
    if b.len() < 40 {
        Some(Error::UnknownHeaderLength)
    } else if b.len() < 40 + be16(b[4], b[5]) {
        Some(Error::InvalidPayloadLength)
    } else {
        match sessionlayer::decode_error(b[6], b.subrange(40, b.len() as int)) {
            Some(e) => Some(Error::SessionErr(e)),
            None => None,
        }
    }
}

/// `p` is what decoding the well-formed buffer `b` gives; the payload is
/// everything after the header.
pub open spec fn decodes_to(b: Seq<u8>, p: Packet) -> bool {
    &&& b.len() >= 40 + be16(b[4], b[5])
    &&& p.traffic == (b[0] % 16) * 16 + b[1] / 16
    &&& p.flow == (b[1] % 16) as nat * 0x1_0000 + be16(b[2], b[3])
    &&& p.ttl == b[7]
    &&& p.src@ == b.subrange(8, 24)
    &&& p.dst@ == b.subrange(24, 40)
    &&& sessionlayer::decodes_to(b[6], b.subrange(40, b.len() as int), p.next)
}

/// The length of `p` on the wire.
pub open spec fn wire_len(p: Packet) -> nat {
    40 + sessionlayer::wire_len(p.next)
}

/// Whether `p` can be encoded: its payload can, and its length fits the
/// 16-bit payload-length field.
pub open spec fn encodable(p: Packet) -> bool {
    sessionlayer::encodable(p.next) && sessionlayer::wire_len(p.next) <= 0xFFFF
}

/// The 40-byte header of `p`, without the version nibble.
pub open spec fn header(p: Packet) -> Seq<u8> {
    seq![
        p.traffic / 16,
        ((p.traffic % 16) * 16 + (p.flow / 0x1_0000) % 16) as u8,
        ((p.flow / 256) % 256) as u8,
        (p.flow % 256) as u8,
        hi8(sessionlayer::wire_len(p.next) as u16),
        lo8(sessionlayer::wire_len(p.next) as u16),
        sessionlayer::protocol_number(p.next),
        p.ttl,
    ] + p.src@ + p.dst@
}

/// The sum of `p`'s pseudo-header: source, destination, three zero bytes
/// and the protocol number.
pub open spec fn pseudo_sum(p: Packet) -> nat {
    word_sum(p.src@ + p.dst@ + seq![0u8, 0u8, 0u8, sessionlayer::protocol_number(p.next)])
}

/// The wire form of `p`, without the version nibble.
pub open spec fn encoding(p: Packet) -> Seq<u8> {
    header(p) + sessionlayer::encoding(p.next, pseudo_sum(p) as u32)
}

impl Packet {
    /// Decodes an IPv6 packet and its payload.
    pub fn from_buffer(buf: &[u8]) -> (r: Result<Packet, Error>)
        ensures
            match r {
                Ok(p) => decode_error(buf@) == None::<Error> && decodes_to(buf@, p),
                Err(e) => decode_error(buf@) == Some(e),
            },
    {
        if buf.len() < 40 {
            return Err(Error::UnknownHeaderLength);
        }
        let l = read_u16(buf, 4);
        if buf.len() < 40 + l as usize {
            return Err(Error::InvalidPayloadLength);
        }
        let next = match sessionlayer::Data::from_buffer(
            buf[6],
            vstd::slice::slice_subrange(buf, 40, buf.len()),
        ) {
            Ok(x) => x,
            Err(e) => {
                return Err(Error::SessionErr(e));
            },
        };
        let mut src = [0u8; 16];
        let mut dst = [0u8; 16];
        let mut i: usize = 0;
        while i < 16
            invariant
                buf@.len() >= 40,
                0 <= i <= 16,
                forall|k: int| 0 <= k < i ==> src@[k] == buf@[8 + k] && dst@[k] == buf@[24 + k],
            decreases 16 - i,
        {
            src[i] = buf[8 + i];
            dst[i] = buf[24 + i];
            i = i + 1;
        }
        let p = Packet {
            traffic: (buf[0] % 16) * 16 + buf[1] / 16,
            flow: (buf[1] % 16) as u32 * 0x1_0000 + read_u16(buf, 2) as u32,
            ttl: buf[7],
            src,
            dst,
            next,
        };
        assert(p.src@ =~= buf@.subrange(8, 24));
        assert(p.dst@ =~= buf@.subrange(24, 40));
        Ok(p)
    }

    /// Whether the packet can be encoded.
    pub fn is_encodable(&self) -> (r: bool)
        ensures
            r == encodable(*self),
    {
        self.next.is_encodable() && self.next.wire_len() <= 0xFFFF
    }

    /// The wire form, with room reserved in front and behind. The version
    /// nibble is left for the caller.
    pub fn into_buffer(&self, offset_needed: (usize, usize)) -> (r: Vec<u8>)
        requires
            encodable(*self),
            offset_needed.0 + wire_len(*self) + offset_needed.1 <= usize::MAX,
        ensures
            r@ == zeros(offset_needed.0 as nat) + encoding(*self) + zeros(offset_needed.1 as nat),
    {
        let (front, back) = offset_needed;
        let next = self.next.protocol();
        let mut pseudo_header: Vec<u8> = Vec::with_capacity(36);
        pseudo_header.extend_from_slice(self.src.as_slice());
        pseudo_header.extend_from_slice(self.dst.as_slice());
        pseudo_header.push(0);
        pseudo_header.push(0);
        pseudo_header.push(0);
        pseudo_header.push(next);
        assert(pseudo_header@ =~= self.src@ + self.dst@ + seq![0u8, 0u8, 0u8, next]);
        let pseudo = sum_words(pseudo_header.as_slice());
        proof {
            lemma_word_sum_bound(pseudo_header@);
        }
        let mut out = self.next.into_buffer((front + 40, back), pseudo);
        let payload_len: u16 = self.next.wire_len() as u16;
        let mut head: Vec<u8> = vec![
            self.traffic / 16,
            (self.traffic % 16) * 16 + ((self.flow / 0x1_0000) % 16) as u8,
            ((self.flow / 256) % 256) as u8,
            (self.flow % 256) as u8,
            (payload_len / 256) as u8,
            (payload_len % 256) as u8,
            next,
            self.ttl,
        ];
        head.extend_from_slice(self.src.as_slice());
        head.extend_from_slice(self.dst.as_slice());
        assert(head@ =~= header(*self));
        proof {
            crate::utils::bytes::lemma_fill_reserved(
                front as nat,
                head@,
                sessionlayer::encoding(self.next, pseudo) + zeros(back as nat),
            );
        }
        overwrite(&mut out, front, head.as_slice());
        assert(out@ =~= zeros(front as nat) + encoding(*self) + zeros(back as nat));
        out
    }
}

/// A packet that re-encodes to its own bytes: a payload length that fills
/// the buffer and a payload that re-encodes.
pub open spec fn canonical(b: Seq<u8>) -> bool {
    &&& b.len() >= 40
    &&& b.len() == 40 + be16(b[4], b[5])
    &&& sessionlayer::canonical(b[6], b.subrange(40, b.len() as int))
}

/// Encoding a decoded packet gives back the bytes it was decoded from, but
/// for the version nibble and a TCP checksum in its payload.
pub proof fn lemma_encode_decoded(b: Seq<u8>, p: Packet)
    requires
        decode_error(b) == None::<Error>,
        decodes_to(b, p),
        canonical(b),
    ensures
        crate::utils::bytes::agrees_except(
            encoding(p).update(0, b[0]),
            b,
            crate::utils::bytes::shift_hole(sessionlayer::checksum_hole(p.next), 40),
        ),
        encoding(p)[0] == b[0] % 16,
        wire_len(p) == b.len(),
{
    let pay = b.subrange(40, b.len() as int);
    sessionlayer::lemma_encode_decoded(b[6], pay, p.next, pseudo_sum(p) as u32);
    crate::utils::bytes::lemma_be16_join(b[2], b[3]);
    crate::utils::bytes::lemma_be16_join(b[4], b[5]);
    let f = p.flow as nat;
    crate::utils::bytes::lemma_div_mod_unique(
        f as int,
        0x1_0000,
        (b[1] % 16) as int,
        be16(b[2], b[3]) as int,
    );
    crate::utils::bytes::lemma_div_mod_unique(
        f as int,
        256,
        ((b[1] % 16) as nat * 256 + b[2] as nat) as int,
        b[3] as int,
    );
    crate::utils::bytes::lemma_div_mod_unique(
        (f / 256) as int,
        256,
        (b[1] % 16) as int,
        b[2] as int,
    );
    let t = p.traffic as nat;
    crate::utils::bytes::lemma_div_mod_unique(t as int, 16, (b[0] % 16) as int, (b[1] / 16) as int);
    let h = header(p);
    assert(h.update(0, b[0]) =~= b.subrange(0, 40));
    crate::utils::bytes::lemma_agrees_after_header(
        b.subrange(0, 40),
        sessionlayer::encoding(p.next, pseudo_sum(p) as u32),
        pay,
        sessionlayer::checksum_hole(p.next),
    );
    assert(encoding(p).update(0, b[0]) =~= b.subrange(0, 40) + sessionlayer::encoding(
        p.next,
        pseudo_sum(p) as u32,
    ));
    assert(b =~= b.subrange(0, 40) + pay);
}

} // verus!
