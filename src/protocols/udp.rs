//! UDP datagrams.
use crate::utils::bytes::{be16, copy_range, hi8, lo8, overwrite, read_u16, zero_vec, zeros};
use crate::utils::ip_checksum::{calc_checksum, checksum_of, lemma_segment_sum_fits, pseudo_sum_fits};
use vstd::prelude::*;

verus! {

/// Why a buffer is not a UDP datagram.
#[derive(Debug, Clone, Copy, PartialEq, Eq, Structural)]
pub enum Error {
    /// Shorter than the 8-byte header.
    InvalidLength,
    /// A length field below the header size or past the end of the buffer.
    InvalidLengthField,
}

/// A UDP datagram. A checksum of `None` is computed when the datagram is
/// encoded.
#[derive(Debug)]
pub struct Datagram {
    pub src_port: u16,
    pub dst_port: u16,
    pub checksum: Option<u16>,
    pub payload: Vec<u8>,
}

/// The error that decoding `b` gives, if any.
pub open spec fn decode_error(b: Seq<u8>) -> Option<Error> {
    if b.len() < 8 {
        Some(Error::InvalidLength)
    } else if b.len() < be16(b[4], b[5]) || be16(b[4], b[5]) < 8 {
        Some(Error::InvalidLengthField)
    } else {
        None
    }
}

/// `d` is what decoding the well-formed buffer `b` gives: the payload ends
/// where the length field says.
pub open spec fn decodes_to(b: Seq<u8>, d: Datagram) -> bool {
    &&& b.len() >= 8
    &&& d.src_port == be16(b[0], b[1])
    &&& d.dst_port == be16(b[2], b[3])
    &&& d.checksum == Some(be16(b[6], b[7]) as u16)
    &&& d.payload@ == b.subrange(8, be16(b[4], b[5]) as int)
}

/// The length of `d` on the wire.
pub open spec fn wire_len(d: Datagram) -> nat {
    8 + d.payload@.len()
}

/// Whether `d`'s length fits its 16-bit length field.
pub open spec fn encodable(d: Datagram) -> bool {
    wire_len(d) <= 0xFFFF
}

/// The header of `d` with checksum field `cs`.
pub open spec fn header(d: Datagram, cs: u16) -> Seq<u8> {
    seq![
        hi8(d.src_port),
        lo8(d.src_port),
        hi8(d.dst_port),
        lo8(d.dst_port),
        hi8(wire_len(d) as u16),
        lo8(wire_len(d) as u16),
        hi8(cs),
        lo8(cs),
    ]
}

/// The checksum that `d` carries on the wire over the pseudo-header sum
/// `pseudo`: the one it holds, or the one computed over the datagram with
/// a zero checksum field and its length added to the pseudo-header sum.
pub open spec fn wire_checksum(d: Datagram, pseudo: u32) -> u16 {
    match d.checksum {
        Some(c) => c,
        None => checksum_of(header(d, 0) + d.payload@, (pseudo + wire_len(d)) as nat),
    }
}

/// The wire form of `d` over the pseudo-header sum `pseudo`.
pub open spec fn encoding(d: Datagram, pseudo: u32) -> Seq<u8> {
    header(d, wire_checksum(d, pseudo)) + d.payload@
}

impl Datagram {
    /// Decodes a UDP datagram.
    pub fn from_buffer(slc: &[u8]) -> (r: Result<Datagram, Error>)
        ensures
            match r {
                Ok(d) => decode_error(slc@) == None::<Error> && decodes_to(slc@, d),
                Err(e) => decode_error(slc@) == Some(e),
            },
    {
        if slc.len() < 8 {
            return Err(Error::InvalidLength);
        }
        let l = read_u16(slc, 4) as usize;
        if slc.len() < l || l < 8 {
            return Err(Error::InvalidLengthField);
        }
        Ok(Datagram {
            src_port: read_u16(slc, 0),
            dst_port: read_u16(slc, 2),
            checksum: Some(read_u16(slc, 6)),
            payload: copy_range(slc, 8, l),
        })
    }

    /// Whether the datagram's length fits its length field.
    pub fn is_encodable(&self) -> (r: bool)
        ensures
            r == encodable(*self),
    {
        self.payload.len() <= 0xFFFF - 8
    }

    /// The wire form, with `offset_needed.0` zero bytes reserved in front and
    /// `offset_needed.1` behind; `pseudoheader_sum` is the sum of the
    /// enclosing IP pseudo-header, used when the checksum is computed.
    pub fn into_buffer(&self, offset_needed: (usize, usize), pseudoheader_sum: u32) -> (r: Vec<
        u8,
    >)
        requires
            encodable(*self),
            pseudo_sum_fits(pseudoheader_sum),
            offset_needed.0 + wire_len(*self) + offset_needed.1 <= usize::MAX,
        ensures
            r@ == zeros(offset_needed.0 as nat) + encoding(*self, pseudoheader_sum) + zeros(
                offset_needed.1 as nat,
            ),
    {
        let (front, back) = offset_needed;
        let l: u16 = (8 + self.payload.len()) as u16;
        let mut out = zero_vec(front + 8 + self.payload.len() + back);
        let cs: u16 = match self.checksum {
            Some(c) => c,
            None => {
                let mut plain: Vec<u8> = vec![
                    (self.src_port / 256) as u8,
                    (self.src_port % 256) as u8,
                    (self.dst_port / 256) as u8,
                    (self.dst_port % 256) as u8,
                    (l / 256) as u8,
                    (l % 256) as u8,
                    0,
                    0,
                ];
                let ghost h = plain@;
                assert(h =~= header(*self, 0));
                plain.extend_from_slice(self.payload.as_slice());
                assert(plain@ =~= header(*self, 0) + self.payload@);
                proof {
                    lemma_segment_sum_fits(plain@, pseudoheader_sum);
                }
                calc_checksum(plain.as_slice(), pseudoheader_sum + l as u32)
            },
        };
        let head: Vec<u8> = vec![
            (self.src_port / 256) as u8,
            (self.src_port % 256) as u8,
            (self.dst_port / 256) as u8,
            (self.dst_port % 256) as u8,
            (l / 256) as u8,
            (l % 256) as u8,
            (cs / 256) as u8,
            (cs % 256) as u8,
        ];
        assert(head@ =~= header(*self, wire_checksum(*self, pseudoheader_sum)));
        overwrite(&mut out, front, head.as_slice());
        overwrite(&mut out, front + 8, self.payload.as_slice());
        assert(out@ =~= zeros(front as nat) + encoding(*self, pseudoheader_sum) + zeros(
            back as nat,
        ));
        out
    }
}

/// A datagram that fills its buffer exactly, as its length field says.
pub open spec fn canonical(b: Seq<u8>) -> bool {
    b.len() >= 8 && b.len() == be16(b[4], b[5])
}

/// Encoding a decoded datagram gives back the bytes it was decoded from.
pub proof fn lemma_encode_decoded(b: Seq<u8>, d: Datagram, pseudo: u32)
    requires
        decode_error(b) == None::<Error>,
        decodes_to(b, d),
        canonical(b),
    ensures
        encoding(d, pseudo) == b,
        wire_len(d) == b.len(),
{
    crate::utils::bytes::lemma_be16_join(b[0], b[1]);
    crate::utils::bytes::lemma_be16_join(b[2], b[3]);
    crate::utils::bytes::lemma_be16_join(b[4], b[5]);
    crate::utils::bytes::lemma_be16_join(b[6], b[7]);
    assert(encoding(d, pseudo) =~= b);
}

} // verus!
