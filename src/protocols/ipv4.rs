//! IPv4 packets.
use crate::protocols::ip::{ecn_bits, ecn_of, Ecn};
use crate::protocols::sessionlayer;
use crate::utils::bytes::{be16, has_bit, hi8, lo8, overwrite, read_u16, zeros};
use crate::utils::ip_checksum::{calc_checksum, checksum_of, lemma_word_sum_bound, sum_words, word_sum};
use vstd::prelude::*;

verus! {

/// The fragment-offset field together with the don't-fragment flag: the
/// offset is `Meaningfull` when the flag is clear and `Arbitrary` when it
/// is set. The 13 bits are kept either way so that the packet re-encodes
/// byte for byte.
#[derive(Debug, Clone, Copy, PartialEq, Eq, Structural)]
pub enum FragmentOffset {
    Meaningfull(u16),
    Arbitrary(u16),
}

/// An IPv4 packet. A checksum of `None` is computed when the packet is
/// encoded; `Some(x)` is written as it is.
#[derive(Debug)]
pub struct Packet {
    pub src: [u8; 4],
    pub dst: [u8; 4],
    pub id: u16,
    pub ttl: u8,
    /// Not an enum: its meaning varies between networks.
    pub dscp: u8,
    pub ecn: Ecn,
    pub mf: bool,
    pub fragment_offset: FragmentOffset,
    pub checksum: Option<u16>,
    pub next: sessionlayer::Data,
}

/// Why a buffer is not an IPv4 packet.
#[derive(Debug, Clone, Copy, PartialEq, Eq, Structural)]
pub enum Error {
    /// Shorter than the 20-byte header.
    InvalidLength,
    /// A total length past the end of the buffer, or a header length below
    /// 20 bytes or past the total length.
    InvalidLengthField,
    CantParseIP,
    SessionErr(sessionlayer::Error),
    InternalEcnErr,
}

/// The total length field of `b`.
pub open spec fn total_len(b: Seq<u8>) -> nat {
    be16(b[2], b[3])
}

/// The header length that the IHL field of `b` gives.
pub open spec fn header_len(b: Seq<u8>) -> nat {
    4 * (b[0] as nat % 16)
}

/// Whether the length fields of `b` are consistent.
pub open spec fn lengths_valid(b: Seq<u8>) -> bool {
    b.len() >= 20 && total_len(b) <= b.len() && 20 <= header_len(b) <= total_len(b)
}

/// The payload of `b`: from the end of the header to the total length.
pub open spec fn payload(b: Seq<u8>) -> Seq<u8> {
    b.subrange(header_len(b) as int, total_len(b) as int)
}

/// The error that decoding `b` gives, if any.
pub open spec fn decode_error(b: Seq<u8>) -> Option<Error> {
    if b.len() < 20 {
        Some(Error::InvalidLength)
    } else if !lengths_valid(b) {
        Some(Error::InvalidLengthField)
    } else {
        match sessionlayer::decode_error(b[9], payload(b)) {
            Some(e) => Some(Error::SessionErr(e)),
            None => None,
        }
    }
}

/// The 13-bit value of a fragment-offset field.
pub open spec fn offset_value(f: FragmentOffset) -> u16 {
    match f {
        FragmentOffset::Meaningfull(n) => n,
        FragmentOffset::Arbitrary(n) => n,
    }
}

/// `p` is what decoding the well-formed buffer `b` gives.
pub open spec fn decodes_to(b: Seq<u8>, p: Packet) -> bool {
    &&& lengths_valid(b)
    &&& p.src@ == b.subrange(12, 16)
    &&& p.dst@ == b.subrange(16, 20)
    &&& p.ttl == b[8]
    &&& p.dscp == b[1] / 4
    &&& p.ecn == ecn_of(b[1] % 4)
    &&& p.id == be16(b[4], b[5])
    &&& p.mf == has_bit(b[6], 32)
    &&& (p.fragment_offset is Arbitrary <==> has_bit(b[6], 64))
    &&& offset_value(p.fragment_offset) == (b[6] % 32) as nat * 256 + b[7] as nat
    &&& p.checksum == Some(be16(b[10], b[11]) as u16)
    &&& sessionlayer::decodes_to(b[9], payload(b), p.next)
}

/// The byte holding the flags and the top of the fragment offset.
pub open spec fn flags_byte(p: Packet) -> u8 {
    ((if p.mf {
        0x20int
    } else {
        0
    }) + (if p.fragment_offset is Arbitrary {
        0x40int
    } else {
        0
    }) + (offset_value(p.fragment_offset) / 256) % 32) as u8
}

/// The total length of `p` on the wire.
pub open spec fn wire_len(p: Packet) -> nat {
    20 + sessionlayer::wire_len(p.next)
}

/// The 20-byte header of `p` with checksum field `cs`.
pub open spec fn header(p: Packet, cs: u16) -> Seq<u8> {
    seq![
        0x45u8,
        ((p.dscp % 64) * 4 + ecn_bits(p.ecn)) as u8,
        hi8(wire_len(p) as u16),
        lo8(wire_len(p) as u16),
        hi8(p.id),
        lo8(p.id),
        flags_byte(p),
        (offset_value(p.fragment_offset) % 256) as u8,
        p.ttl,
        sessionlayer::protocol_number(p.next),
        hi8(cs),
        lo8(cs),
    ] + p.src@ + p.dst@
}

/// The checksum that `p`'s header carries: the one it holds, or the one
/// computed over the header with a zero checksum field.
pub open spec fn wire_checksum(p: Packet) -> u16 {
    match p.checksum {
        Some(c) => c,
        None => checksum_of(header(p, 0), 0),
    }
}

/// The sum of `p`'s pseudo-header: source, destination, a zero byte and
/// the protocol number.
pub open spec fn pseudo_sum(p: Packet) -> nat {
    word_sum(p.src@ + p.dst@ + seq![0u8, sessionlayer::protocol_number(p.next)])
}

/// The wire form of `p`.
pub open spec fn encoding(p: Packet) -> Seq<u8> {
    header(p, wire_checksum(p)) + sessionlayer::encoding(p.next, pseudo_sum(p) as u32)
}

/// Whether `p` can be encoded: its payload can, and the total fits the
/// 16-bit length field.
pub open spec fn encodable(p: Packet) -> bool {
    sessionlayer::encodable(p.next) && wire_len(p) <= 0xFFFF
}

impl Packet {
    /// Decodes an IPv4 packet and its payload.
    pub fn from_buffer(slc: &[u8]) -> (r: Result<Packet, Error>)
        ensures
            match r {
                Ok(p) => decode_error(slc@) == None::<Error> && decodes_to(slc@, p),
                Err(e) => decode_error(slc@) == Some(e),
            },
    {
        if slc.len() < 20 {
            return Err(Error::InvalidLength);
        }
        let tot_size = read_u16(slc, 2) as usize;
        let head_size = 4 * ((slc[0] % 16) as usize);
        if tot_size > slc.len() || head_size > tot_size || head_size < 20 {
            return Err(Error::InvalidLengthField);
        }
        let next = match sessionlayer::Data::from_buffer(
            slc[9],
            vstd::slice::slice_subrange(slc, head_size, tot_size),
        ) {
            Ok(x) => x,
            Err(e) => {
                return Err(Error::SessionErr(e));
            },
        };
        let ecn = match Ecn::from_u8(slc[1] % 4) {
            Ok(x) => x,
            Err(_) => {
                return Err(Error::InternalEcnErr);
            },
        };
        let frag: u16 = (slc[6] % 32) as u16 * 256 + slc[7] as u16;
        let p = Packet {
            src: [slc[12], slc[13], slc[14], slc[15]],
            dst: [slc[16], slc[17], slc[18], slc[19]],
            ttl: slc[8],
            dscp: slc[1] / 4,
            ecn,
            id: read_u16(slc, 4),
            mf: (slc[6] / 32) % 2 == 1,
            fragment_offset: if (slc[6] / 64) % 2 == 1 {
                FragmentOffset::Arbitrary(frag)
            } else {
                FragmentOffset::Meaningfull(frag)
            },
            checksum: Some(read_u16(slc, 10)),
            next,
        };
        assert(p.src@ =~= slc@.subrange(12, 16));
        assert(p.dst@ =~= slc@.subrange(16, 20));
        Ok(p)
    }

    /// Whether the packet can be encoded.
    pub fn is_encodable(&self) -> (r: bool)
        ensures
            r == encodable(*self),
    {
        self.next.is_encodable() && self.next.wire_len() <= 0xFFFF - 20
    }

    /// The 20-byte header with checksum field `cs`.
    fn header_bytes(&self, cs: u16) -> (r: Vec<u8>)
        requires
            encodable(*self),
        ensures
            r@ == header(*self, cs),
    {
        let len: u16 = (20 + self.next.wire_len()) as u16;
        let off = match self.fragment_offset {
            FragmentOffset::Meaningfull(n) => n,
            FragmentOffset::Arbitrary(n) => n,
        };
        let df: u8 = match self.fragment_offset {
            FragmentOffset::Meaningfull(_) => 0,
            FragmentOffset::Arbitrary(_) => 0x40,
        };
        let mf: u8 = if self.mf {
            0x20
        } else {
            0
        };
        let r: Vec<u8> = vec![
            0x45,
            (self.dscp % 64) * 4 + self.ecn.to_u8(),
            (len / 256) as u8,
            (len % 256) as u8,
            (self.id / 256) as u8,
            (self.id % 256) as u8,
            mf + df + ((off / 256) % 32) as u8,
            (off % 256) as u8,
            self.ttl,
            self.next.protocol(),
            (cs / 256) as u8,
            (cs % 256) as u8,
            self.src[0],
            self.src[1],
            self.src[2],
            self.src[3],
            self.dst[0],
            self.dst[1],
            self.dst[2],
            self.dst[3],
        ];
        assert(r@ =~= header(*self, cs));
        r
    }

    /// The wire form, with room reserved in front and behind. The payload's
    /// checksum is taken over the pseudo-header of this packet.
    pub fn into_buffer(&self, offset_needed: (usize, usize)) -> (r: Vec<u8>)
        requires
            encodable(*self),
            offset_needed.0 + wire_len(*self) + offset_needed.1 <= usize::MAX,
        ensures
            r@ == zeros(offset_needed.0 as nat) + encoding(*self) + zeros(offset_needed.1 as nat),
    {
        let (front, back) = offset_needed;
        let pseudo_header: [u8; 10] = [
            self.src[0],
            self.src[1],
            self.src[2],
            self.src[3],
            self.dst[0],
            self.dst[1],
            self.dst[2],
            self.dst[3],
            0,
            self.next.protocol(),
        ];
        assert(pseudo_header@ =~= self.src@ + self.dst@ + seq![
            0u8,
            sessionlayer::protocol_number(self.next),
        ]);
        let pseudo = sum_words(pseudo_header.as_slice());
        proof {
            lemma_word_sum_bound(pseudo_header@);
        }
        let mut v = self.next.into_buffer((front + 20, back), pseudo);
        let cs = match self.checksum {
            Some(c) => c,
            None => {
                let plain = self.header_bytes(0);
                proof {
                    lemma_word_sum_bound(plain@);
                }
                calc_checksum(plain.as_slice(), 0)
            },
        };
        let head = self.header_bytes(cs);
        proof {
            crate::utils::bytes::lemma_fill_reserved(
                front as nat,
                head@,
                sessionlayer::encoding(self.next, pseudo) + zeros(back as nat),
            );
        }
        overwrite(&mut v, front, head.as_slice());
        assert(v@ =~= zeros(front as nat) + encoding(*self) + zeros(back as nat));
        v
    }

    /// A packet built from the header fields of another, around `next`, with
    /// its checksum left to be computed on encoding.
    pub fn from_metadata(
        src: [u8; 4],
        dst: [u8; 4],
        id: u16,
        dscp: u8,
        ecn: Ecn,
        mf: bool,
        fragment_offset: FragmentOffset,
        ttl: u8,
        next: sessionlayer::Data,
    ) -> (r: Packet)
        ensures
            r == (Packet { src, dst, id, ttl, dscp, ecn, mf, fragment_offset, checksum: None, next }),
    {
        Packet { src, dst, id, ttl, dscp, ecn, mf, fragment_offset, checksum: None, next }
    }
}

/// A packet whose checksum is left to be computed is encoded with a header
/// whose Internet checksum is zero, as a receiver checks it.
pub proof fn lemma_computed_checksum_verifies(p: Packet)
    requires
        p.checksum == None::<u16>,
    ensures
        checksum_of(encoding(p).take(20), 0) == 0,
{
    let cs = checksum_of(header(p, 0), 0);
    let h = header(p, cs);
    crate::utils::bytes::lemma_be16_split(cs);
    assert(h.update(10, 0).update(11, 0) =~= header(p, 0));
    assert(encoding(p).take(20) =~= h);
    crate::utils::ip_checksum::lemma_ipv4_header_checksum_is_zero(h);
}

/// A header whose length fields are inconsistent is refused as such: a
/// header length below 20 bytes, or a total length past the buffer.
pub proof fn lemma_bad_length_fields_rejected(b: Seq<u8>)
    requires
        b.len() >= 20,
        header_len(b) < 20 || total_len(b) > b.len(),
    ensures
        decode_error(b) == Some(Error::InvalidLengthField),
{
}

/// A packet that re-encodes to its own bytes: a 20-byte header of version
/// 4, a total length that fills the buffer, the reserved flag clear, and a
/// payload that re-encodes.
pub open spec fn canonical(b: Seq<u8>) -> bool {
    &&& lengths_valid(b)
    &&& b[0] == 0x45
    &&& b.len() == total_len(b)
    &&& b[6] < 128
    &&& sessionlayer::canonical(b[9], payload(b))
}

/// Encoding a decoded packet gives back the bytes it was decoded from, but
/// for a TCP checksum in its payload.
pub proof fn lemma_encode_decoded(b: Seq<u8>, p: Packet)
    requires
        decode_error(b) == None::<Error>,
        decodes_to(b, p),
        canonical(b),
    ensures
        crate::utils::bytes::agrees_except(
            encoding(p),
            b,
            crate::utils::bytes::shift_hole(sessionlayer::checksum_hole(p.next), 20),
        ),
        wire_len(p) == b.len(),
{
    let pay = payload(b);
    sessionlayer::lemma_encode_decoded(b[9], pay, p.next, pseudo_sum(p) as u32);
    crate::protocols::ip::lemma_ecn_bijection(b[1] % 4, p.ecn);
    crate::utils::bytes::lemma_be16_join(b[2], b[3]);
    crate::utils::bytes::lemma_be16_join(b[4], b[5]);
    crate::utils::bytes::lemma_be16_join(b[10], b[11]);
    crate::utils::bytes::lemma_split_flags(b[6] as nat);
    let v = (b[6] % 32) as nat * 256 + b[7] as nat;
    crate::utils::bytes::lemma_div_mod_unique(v as int, 256, (b[6] % 32) as int, b[7] as int);
    assert(flags_byte(p) == b[6]);
    let h = header(p, wire_checksum(p));
    assert(h =~= b.subrange(0, 20));
    crate::utils::bytes::lemma_agrees_after_header(
        h,
        sessionlayer::encoding(p.next, pseudo_sum(p) as u32),
        pay,
        sessionlayer::checksum_hole(p.next),
    );
    assert(b =~= b.subrange(0, 20) + pay);
}

} // verus!
