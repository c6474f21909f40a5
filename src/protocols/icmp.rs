//! ICMPv4 Echo messages.
use crate::utils::bytes::{be16, copy_range, hi8, lo8, overwrite, read_u16, zero_vec, zeros};
use crate::utils::ip_checksum::{calc_checksum, checksum_of, lemma_word_sum_bound, word_sum};
use vstd::prelude::*;

verus! {

/// Why a buffer is not an ICMP Echo message.
#[derive(Debug, Clone, Copy, PartialEq, Eq, Structural)]
pub enum Error {
    /// Shorter than the 8-byte header.
    InvalidLength,
    /// A type and code other than Echo Request or Echo Reply.
    UnknownAction,
}

/// The two ICMP messages that the tunnel carries.
#[derive(Debug, Clone, Copy, PartialEq, Eq, Structural)]
pub enum Action {
    EchoRequest,
    EchoResponse,
}

/// The type and code bytes of an action.
pub open spec fn type_code(a: Action) -> (u8, u8) {
    match a {
        Action::EchoRequest => (8, 0),
        Action::EchoResponse => (0, 0),
    }
}

impl Action {
    /// The type and code bytes that stand for this action on the wire.
    pub fn header_fields(self) -> (r: (u8, u8))
        ensures
            r == type_code(self),
    {
        match self {
            Action::EchoRequest => (8, 0),
            Action::EchoResponse => (0, 0),
        }
    }
}

/// An ICMP Echo message. `rest` is the 4-byte rest-of-header field.
#[derive(Debug)]
pub struct Packet {
    pub action: Action,
    pub checksum: u16,
    pub rest: [u8; 4],
    pub data: Vec<u8>,
}

/// The error that decoding `b` gives, if any.
pub open spec fn decode_error(b: Seq<u8>) -> Option<Error> {
    if b.len() < 8 {
        Some(Error::InvalidLength)
    } else if !(b[1] == 0 && (b[0] == 0 || b[0] == 8)) {
        Some(Error::UnknownAction)
    } else {
        None
    }
}

/// `p` is what decoding the well-formed buffer `b` gives.
pub open spec fn decodes_to(b: Seq<u8>, p: Packet) -> bool {
    &&& b.len() >= 8
    &&& p.action == (if b[0] == 8 {
        Action::EchoRequest
    } else {
        Action::EchoResponse
    })
    &&& p.checksum == be16(b[2], b[3])
    &&& p.rest@ == b.subrange(4, 8)
    &&& p.data@ == b.subrange(8, b.len() as int)
}

/// The 8-byte header of `p`.
pub open spec fn header(p: Packet) -> Seq<u8> {
    seq![
        type_code(p.action).0,
        type_code(p.action).1,
        hi8(p.checksum),
        lo8(p.checksum),
        p.rest[0],
        p.rest[1],
        p.rest[2],
        p.rest[3],
    ]
}

/// The wire form of `p`: its header, then its data.
pub open spec fn encoding(p: Packet) -> Seq<u8> {
    header(p) + p.data@
}

/// Whether `p` fits in an IPv4 packet's 16-bit length.
pub open spec fn encodable(p: Packet) -> bool {
    8 + p.data@.len() <= 0xFFFF
}

impl Packet {
    /// Decodes an ICMP Echo message.
    pub fn from_buffer(buf: &[u8]) -> (r: Result<Packet, Error>)
        ensures
            match r {
                Ok(p) => decode_error(buf@) == None::<Error> && decodes_to(buf@, p),
                Err(e) => decode_error(buf@) == Some(e),
            },
    {
        if buf.len() < 8 {
            return Err(Error::InvalidLength);
        }
        let action = if buf[0] == 0 && buf[1] == 0 {
            Action::EchoResponse
        } else if buf[0] == 8 && buf[1] == 0 {
            Action::EchoRequest
        } else {
            return Err(Error::UnknownAction);
        };
        let rest = [buf[4], buf[5], buf[6], buf[7]];
        let p = Packet {
            checksum: read_u16(buf, 2),
            rest,
            action,
            data: copy_range(buf, 8, buf.len()),
        };
        assert(p.rest@ =~= buf@.subrange(4, 8));
        Ok(p)
    }

    /// Whether the message fits in an IPv4 packet.
    pub fn is_encodable(&self) -> (r: bool)
        ensures
            r == encodable(*self),
    {
        self.data.len() <= 0xFFFF - 8
    }

    /// The wire form, with `offset_needed.0` zero bytes reserved in front and
    /// `offset_needed.1` behind.
    pub fn into_buffer(&self, offset_needed: (usize, usize)) -> (r: Vec<u8>)
        requires
            offset_needed.0 + 8 + self.data@.len() + offset_needed.1 <= usize::MAX,
        ensures
            r@ == zeros(offset_needed.0 as nat) + encoding(*self) + zeros(
                offset_needed.1 as nat,
            ),
    {
        let (front, back) = offset_needed;
        let mut out = zero_vec(front + 8 + self.data.len() + back);
        let (t, c) = self.action.header_fields();
        let head: Vec<u8> = vec![
            t,
            c,
            (self.checksum / 256) as u8,
            (self.checksum % 256) as u8,
            self.rest[0],
            self.rest[1],
            self.rest[2],
            self.rest[3],
        ];
        assert(head@ =~= header(*self));
        overwrite(&mut out, front, head.as_slice());
        overwrite(&mut out, front + 8, self.data.as_slice());
        assert(out@ =~= zeros(front as nat) + encoding(*self) + zeros(back as nat));
        out
    }

    /// Sets the checksum to the Internet checksum of the message as it
    /// stands (a message about to be sent holds zero there first).
    pub fn calc_checksum(&mut self)
        requires
            encodable(*old(self)),
        ensures
            final(self).checksum == checksum_of(encoding(*old(self)), 0),
            final(self).action == old(self).action,
            final(self).rest == old(self).rest,
            final(self).data == old(self).data,
    {
        let bytes = self.into_buffer((0, 0));
        proof {
            assert(bytes@ =~= encoding(*self));
            lemma_word_sum_bound(bytes@);
            assert(word_sum(bytes@) <= 0xFFFF * 0x8000) by (nonlinear_arith)
                requires
                    word_sum(bytes@) <= 0xFFFF * ((bytes@.len() + 1) / 2),
                    bytes@.len() <= 0xFFFF,
            ;
        }
        self.checksum = calc_checksum(bytes.as_slice(), 0);
    }
}

/// Encoding a decoded message gives back the bytes it was decoded from.
pub proof fn lemma_encode_decoded(b: Seq<u8>, p: Packet)
    requires
        decode_error(b) == None::<Error>,
        decodes_to(b, p),
    ensures
        encoding(p) == b,
{
    crate::utils::bytes::lemma_be16_join(b[2], b[3]);
    assert(encoding(p) =~= b);
}

} // verus!
