//! TCP segments.
use crate::utils::bytes::{
    be16, be32, be32_bytes, copy_range, has_bit, hi8, lemma_be16_split, lemma_be32_split,
    lemma_bit_at, lemma_div_mod_unique, lo8, overwrite, read_u16, read_u32,
    zero_vec, zeros,
};
use crate::utils::ip_checksum::{calc_checksum, checksum_of, lemma_segment_sum_fits, pseudo_sum_fits};
use vstd::prelude::*;

verus! {

/// The acknowledgment number, kept even when the ACK flag is clear so that
/// the segment re-encodes byte for byte.
#[derive(Debug, Clone, Copy, PartialEq, Eq, Structural)]
pub enum Ack {
    Used(u32),
    NotPresent(u32),
}

/// The urgent pointer, kept even when the URG flag is clear.
#[derive(Debug, Clone, Copy, PartialEq, Eq, Structural)]
pub enum Urgent {
    MeaningfullIndex(u16),
    Arbitrary(u16),
}

/// A TCP segment with its options and payload.
#[derive(Debug)]
pub struct Segment {
    pub src_port: u16,
    pub dst_port: u16,
    pub seq_no: u32,
    pub ack_no: Ack,
    pub window_size: u16,
    pub checksum: u16,
    pub urgent_data: Urgent,
    pub payload: Vec<u8>,
    pub syn: bool,
    pub ns: bool,
    pub cwr: bool,
    pub ece: bool,
    pub psh: bool,
    pub rst: bool,
    pub fin: bool,
    pub options: Vec<u8>,
}

/// Why a buffer is not a TCP segment.
#[derive(Debug, Clone, Copy, PartialEq, Eq, Structural)]
pub enum Error {
    /// Shorter than the 20-byte fixed header.
    InvalidLength,
    /// A data offset below the fixed header or past the end of the buffer.
    InvalidLengthField,
}

/// The header length that the data-offset field of `b` gives.
pub open spec fn header_len(b: Seq<u8>) -> nat {
    4 * (b[12] as nat / 16)
}

/// The error that decoding `b` gives, if any.
pub open spec fn decode_error(b: Seq<u8>) -> Option<Error> {
    if b.len() < 20 {
        Some(Error::InvalidLength)
    } else if header_len(b) > b.len() || header_len(b) < 20 {
        Some(Error::InvalidLengthField)
    } else {
        None
    }
}

/// The acknowledgment number of a segment, whether or not it is used.
pub open spec fn ack_value(a: Ack) -> u32 {
    match a {
        Ack::Used(n) => n,
        Ack::NotPresent(n) => n,
    }
}

/// The urgent pointer of a segment, whether or not it is meaningful.
pub open spec fn urgent_value(u: Urgent) -> u16 {
    match u {
        Urgent::MeaningfullIndex(n) => n,
        Urgent::Arbitrary(n) => n,
    }
}

/// `s` is what decoding the well-formed buffer `b` gives.
pub open spec fn decodes_to(b: Seq<u8>, s: Segment) -> bool {
    &&& b.len() >= 20
    &&& 20 <= header_len(b) <= b.len()
    &&& s.src_port == be16(b[0], b[1])
    &&& s.dst_port == be16(b[2], b[3])
    &&& s.seq_no == be32(b[4], b[5], b[6], b[7])
    &&& ack_value(s.ack_no) == be32(b[8], b[9], b[10], b[11])
    &&& (s.ack_no is Used <==> has_bit(b[13], 16))
    &&& s.ns == has_bit(b[12], 1)
    &&& s.cwr == has_bit(b[13], 128)
    &&& s.ece == has_bit(b[13], 64)
    &&& (s.urgent_data is MeaningfullIndex <==> has_bit(b[13], 32))
    &&& s.psh == has_bit(b[13], 8)
    &&& s.rst == has_bit(b[13], 4)
    &&& s.syn == has_bit(b[13], 2)
    &&& s.fin == has_bit(b[13], 1)
    &&& s.window_size == be16(b[14], b[15])
    &&& s.checksum == be16(b[16], b[17])
    &&& urgent_value(s.urgent_data) == be16(b[18], b[19])
    &&& s.options@ == b.subrange(20, header_len(b) as int)
    &&& s.payload@ == b.subrange(header_len(b) as int, b.len() as int)
}

/// 1 for a set flag, 0 for a clear one.
pub open spec fn bit(on: bool) -> nat {
    if on {
        1
    } else {
        0
    }
}

/// The byte holding the data offset and the NS flag.
pub open spec fn offset_byte(s: Segment) -> u8 {
    ((5 + s.options@.len() / 4) * 16 + bit(s.ns)) as u8
}

/// The byte holding the other eight flags.
pub open spec fn flags_byte(s: Segment) -> u8 {
    (128 * bit(s.cwr) + 64 * bit(s.ece) + 32 * bit(s.urgent_data is MeaningfullIndex) + 16 * bit(
        s.ack_no is Used,
    ) + 8 * bit(s.psh) + 4 * bit(s.rst) + 2 * bit(s.syn) + bit(s.fin)) as u8
}

/// The 20-byte fixed header of `s` with checksum field `cs`.
pub open spec fn header(s: Segment, cs: u16) -> Seq<u8> {
    seq![hi8(s.src_port), lo8(s.src_port), hi8(s.dst_port), lo8(s.dst_port)] + be32_bytes(
        s.seq_no,
    ) + be32_bytes(ack_value(s.ack_no)) + seq![
        offset_byte(s),
        flags_byte(s),
        hi8(s.window_size),
        lo8(s.window_size),
        hi8(cs),
        lo8(cs),
        hi8(urgent_value(s.urgent_data)),
        lo8(urgent_value(s.urgent_data)),
    ]
}

/// The bytes of `s` with checksum field `cs`.
pub open spec fn body(s: Segment, cs: u16) -> Seq<u8> {
    header(s, cs) + s.options@ + s.payload@
}

/// The length of `s` on the wire.
pub open spec fn wire_len(s: Segment) -> nat {
    20 + s.options@.len() + s.payload@.len()
}

/// The checksum that `s` carries on the wire over the pseudo-header sum
/// `pseudo`: computed over the segment with a zero checksum field, with its
/// length added to the pseudo-header sum.
pub open spec fn wire_checksum(s: Segment, pseudo: u32) -> u16 {
    checksum_of(body(s, 0), (pseudo + wire_len(s)) as nat)
}

/// The wire form of `s` over the pseudo-header sum `pseudo`.
pub open spec fn encoding(s: Segment, pseudo: u32) -> Seq<u8> {
    body(s, wire_checksum(s, pseudo))
}

/// Whether `s` has whole 32-bit option words that its data offset can
/// count, and fits in an IP packet.
pub open spec fn encodable(s: Segment) -> bool {
    &&& s.options@.len() % 4 == 0
    &&& s.options@.len() <= 40
    &&& wire_len(s) <= 0xFFFF
}

impl Segment {
    /// Decodes a TCP segment; the options and payload are copied out.
    pub fn from_buffer(slc: &[u8]) -> (r: Result<Segment, Error>)
        ensures
            match r {
                Ok(s) => decode_error(slc@) == None::<Error> && decodes_to(slc@, s),
                Err(e) => decode_error(slc@) == Some(e),
            },
    {
        if slc.len() < 20 {
            return Err(Error::InvalidLength);
        }
        let head_size = 4 * ((slc[12] / 16) as usize);
        if head_size > slc.len() || head_size < 20 {
            return Err(Error::InvalidLengthField);
        }
        let ack = read_u32(slc, 8);
        let urg = read_u16(slc, 18);
        let flags = slc[13];
        Ok(Segment {
            src_port: read_u16(slc, 0),
            dst_port: read_u16(slc, 2),
            seq_no: read_u32(slc, 4),
            ack_no: if (flags / 16) % 2 == 1 {
                Ack::Used(ack)
            } else {
                Ack::NotPresent(ack)
            },
            window_size: read_u16(slc, 14),
            ns: slc[12] % 2 == 1,
            cwr: (flags / 128) % 2 == 1,
            ece: (flags / 64) % 2 == 1,
            psh: (flags / 8) % 2 == 1,
            rst: (flags / 4) % 2 == 1,
            syn: (flags / 2) % 2 == 1,
            fin: flags % 2 == 1,
            urgent_data: if (flags / 32) % 2 == 1 {
                Urgent::MeaningfullIndex(urg)
            } else {
                Urgent::Arbitrary(urg)
            },
            checksum: read_u16(slc, 16),
            options: copy_range(slc, 20, head_size),
            payload: copy_range(slc, head_size, slc.len()),
        })
    }

    /// Whether the segment can be encoded.
    pub fn is_encodable(&self) -> (r: bool)
        ensures
            r == encodable(*self),
    {
        self.options.len() % 4 == 0 && self.options.len() <= 40 && self.payload.len() <= 0xFFFF
            - 20 - self.options.len()
    }

    /// The byte holding the data offset and the NS flag.
    fn offset_octet(&self) -> (r: u8)
        requires
            encodable(*self),
        ensures
            r == offset_byte(*self),
    {
        ((5 + self.options.len() / 4) * 16) as u8 + if self.ns {
            1u8
        } else {
            0u8
        }
    }

    /// The byte holding the other eight flags.
    fn flags_octet(&self) -> (r: u8)
        ensures
            r == flags_byte(*self),
    {
        let urg: u8 = match self.urgent_data {
            Urgent::MeaningfullIndex(_) => 32,
            _ => 0,
        };
        let ack: u8 = match self.ack_no {
            Ack::Used(_) => 16,
            _ => 0,
        };
        let mut b: u8 = urg + ack;
        if self.cwr {
            b = b + 128;
        }
        if self.ece {
            b = b + 64;
        }
        if self.psh {
            b = b + 8;
        }
        if self.rst {
            b = b + 4;
        }
        if self.syn {
            b = b + 2;
        }
        if self.fin {
            b = b + 1;
        }
        b
    }

    /// The bytes of the segment with checksum field `cs`.
    fn body_bytes(&self, cs: u16) -> (r: Vec<u8>)
        requires
            encodable(*self),
        ensures
            r@ == body(*self, cs),
    {
        let ack = match self.ack_no {
            Ack::Used(n) => n,
            Ack::NotPresent(n) => n,
        };
        let urg = match self.urgent_data {
            Urgent::Arbitrary(n) => n,
            Urgent::MeaningfullIndex(n) => n,
        };
        let mut out: Vec<u8> = vec![
            (self.src_port / 256) as u8,
            (self.src_port % 256) as u8,
            (self.dst_port / 256) as u8,
            (self.dst_port % 256) as u8,
            (self.seq_no / 0x100_0000) as u8,
            ((self.seq_no / 0x1_0000) % 256) as u8,
            ((self.seq_no / 256) % 256) as u8,
            (self.seq_no % 256) as u8,
            (ack / 0x100_0000) as u8,
            ((ack / 0x1_0000) % 256) as u8,
            ((ack / 256) % 256) as u8,
            (ack % 256) as u8,
            self.offset_octet(),
            self.flags_octet(),
            (self.window_size / 256) as u8,
            (self.window_size % 256) as u8,
            (cs / 256) as u8,
            (cs % 256) as u8,
            (urg / 256) as u8,
            (urg % 256) as u8,
        ];
        assert(out@ =~= header(*self, cs));
        out.extend_from_slice(self.options.as_slice());
        out.extend_from_slice(self.payload.as_slice());
        assert(out@ =~= body(*self, cs));
        out
    }

    /// The wire form, with `offset_needed.0` zero bytes reserved in front and
    /// `offset_needed.1` behind; `pseudo_header_sum` is the sum of the
    /// enclosing IP pseudo-header. The checksum is always computed.
    pub fn into_buffer(&self, offset_needed: (usize, usize), pseudo_header_sum: u32) -> (r: Vec<
        u8,
    >)
        requires
            encodable(*self),
            pseudo_sum_fits(pseudo_header_sum),
            offset_needed.0 + wire_len(*self) + offset_needed.1 <= usize::MAX,
        ensures
            r@ == zeros(offset_needed.0 as nat) + encoding(*self, pseudo_header_sum) + zeros(
                offset_needed.1 as nat,
            ),
    {
        let (front, back) = offset_needed;
        let len = 20 + self.options.len() + self.payload.len();
        let plain = self.body_bytes(0);
        proof {
            lemma_segment_sum_fits(plain@, pseudo_header_sum);
        }
        let cs = calc_checksum(plain.as_slice(), pseudo_header_sum + len as u32);
        let full = self.body_bytes(cs);
        let mut out = zero_vec(front + len + back);
        overwrite(&mut out, front, full.as_slice());
        assert(out@ =~= zeros(front as nat) + encoding(*self, pseudo_header_sum) + zeros(
            back as nat,
        ));
        out
    }
}

/// A data offset past the end of the buffer or below the fixed header is
/// refused as such.
pub proof fn lemma_bad_data_offset_rejected(b: Seq<u8>)
    requires
        b.len() >= 20,
        header_len(b) > b.len() || header_len(b) < 20,
    ensures
        decode_error(b) == Some(Error::InvalidLengthField),
{
}

/// All fields of `a` and `b` but the checksum are equal.
pub open spec fn same_but_checksum(a: Segment, b: Segment) -> bool {
    &&& a.src_port == b.src_port
    &&& a.dst_port == b.dst_port
    &&& a.seq_no == b.seq_no
    &&& a.ack_no == b.ack_no
    &&& a.window_size == b.window_size
    &&& a.urgent_data == b.urgent_data
    &&& a.payload@ == b.payload@
    &&& a.syn == b.syn
    &&& a.ns == b.ns
    &&& a.cwr == b.cwr
    &&& a.ece == b.ece
    &&& a.psh == b.psh
    &&& a.rst == b.rst
    &&& a.fin == b.fin
    &&& a.options@ == b.options@
}

/// Each bit of a byte written as a sum of weighted bits reads back.
proof fn lemma_byte_of_bits(
    x: nat,
    a: nat,
    b: nat,
    c: nat,
    d: nat,
    e: nat,
    f: nat,
    g: nat,
    h: nat,
)
    requires
        a <= 1 && b <= 1 && c <= 1 && d <= 1 && e <= 1 && f <= 1 && g <= 1 && h <= 1,
        x == 128 * a + 64 * b + 32 * c + 16 * d + 8 * e + 4 * f + 2 * g + h,
    ensures
        x < 256,
        (x / 128) % 2 == a,
        (x / 64) % 2 == b,
        (x / 32) % 2 == c,
        (x / 16) % 2 == d,
        (x / 8) % 2 == e,
        (x / 4) % 2 == f,
        (x / 2) % 2 == g,
        (x / 1) % 2 == h,
{
    assert(x == (0) * (2 * 128) + a * 128 + (64 * b + 32 * c + 16 * d + 8 * e + 4 * f + 2 * g + h)) by (nonlinear_arith)
        requires
            x == 128 * a + 64 * b + 32 * c + 16 * d + 8 * e + 4 * f + 2 * g + h,
    ;
    lemma_bit_at(x, 128, 0, a, 64 * b + 32 * c + 16 * d + 8 * e + 4 * f + 2 * g + h);
    assert(x == (a) * (2 * 64) + b * 64 + (32 * c + 16 * d + 8 * e + 4 * f + 2 * g + h)) by (nonlinear_arith)
        requires
            x == 128 * a + 64 * b + 32 * c + 16 * d + 8 * e + 4 * f + 2 * g + h,
    ;
    lemma_bit_at(x, 64, a, b, 32 * c + 16 * d + 8 * e + 4 * f + 2 * g + h);
    assert(x == (2 * a + b) * (2 * 32) + c * 32 + (16 * d + 8 * e + 4 * f + 2 * g + h)) by (nonlinear_arith)
        requires
            x == 128 * a + 64 * b + 32 * c + 16 * d + 8 * e + 4 * f + 2 * g + h,
    ;
    lemma_bit_at(x, 32, 2 * a + b, c, 16 * d + 8 * e + 4 * f + 2 * g + h);
    assert(x == (4 * a + 2 * b + c) * (2 * 16) + d * 16 + (8 * e + 4 * f + 2 * g + h)) by (nonlinear_arith)
        requires
            x == 128 * a + 64 * b + 32 * c + 16 * d + 8 * e + 4 * f + 2 * g + h,
    ;
    lemma_bit_at(x, 16, 4 * a + 2 * b + c, d, 8 * e + 4 * f + 2 * g + h);
    assert(x == (8 * a + 4 * b + 2 * c + d) * (2 * 8) + e * 8 + (4 * f + 2 * g + h)) by (nonlinear_arith)
        requires
            x == 128 * a + 64 * b + 32 * c + 16 * d + 8 * e + 4 * f + 2 * g + h,
    ;
    lemma_bit_at(x, 8, 8 * a + 4 * b + 2 * c + d, e, 4 * f + 2 * g + h);
    assert(x == (16 * a + 8 * b + 4 * c + 2 * d + e) * (2 * 4) + f * 4 + (2 * g + h)) by (nonlinear_arith)
        requires
            x == 128 * a + 64 * b + 32 * c + 16 * d + 8 * e + 4 * f + 2 * g + h,
    ;
    lemma_bit_at(x, 4, 16 * a + 8 * b + 4 * c + 2 * d + e, f, 2 * g + h);
    assert(x == (32 * a + 16 * b + 8 * c + 4 * d + 2 * e + f) * (2 * 2) + g * 2 + (h)) by (nonlinear_arith)
        requires
            x == 128 * a + 64 * b + 32 * c + 16 * d + 8 * e + 4 * f + 2 * g + h,
    ;
    lemma_bit_at(x, 2, 32 * a + 16 * b + 8 * c + 4 * d + 2 * e + f, g, h);
    assert(x == (64 * a + 32 * b + 16 * c + 8 * d + 4 * e + 2 * f + g) * (2 * 1) + h * 1 + (0)) by (nonlinear_arith)
        requires
            x == 128 * a + 64 * b + 32 * c + 16 * d + 8 * e + 4 * f + 2 * g + h,
    ;
    lemma_bit_at(x, 1, 64 * a + 32 * b + 16 * c + 8 * d + 4 * e + 2 * f + g, h, 0);
}

/// Each flag of a flags byte reads back as the flag that was written.
proof fn lemma_flags_byte_bits(s: Segment)
    ensures
        has_bit(flags_byte(s), 128) == s.cwr,
        has_bit(flags_byte(s), 64) == s.ece,
        has_bit(flags_byte(s), 32) == (s.urgent_data is MeaningfullIndex),
        has_bit(flags_byte(s), 16) == (s.ack_no is Used),
        has_bit(flags_byte(s), 8) == s.psh,
        has_bit(flags_byte(s), 4) == s.rst,
        has_bit(flags_byte(s), 2) == s.syn,
        has_bit(flags_byte(s), 1) == s.fin,
{
    let a = bit(s.cwr);
    let b = bit(s.ece);
    let c = bit(s.urgent_data is MeaningfullIndex);
    let d = bit(s.ack_no is Used);
    let e = bit(s.psh);
    let f = bit(s.rst);
    let g = bit(s.syn);
    let h = bit(s.fin);
    let x = 128 * a + 64 * b + 32 * c + 16 * d + 8 * e + 4 * f + 2 * g + h;
    lemma_byte_of_bits(x, a, b, c, d, e, f, g, h);
    let y = flags_byte(s);
    assert(y as nat == x);
    assert(has_bit(y, 128) == (a == 1));
    assert(has_bit(y, 64) == (b == 1));
    assert(has_bit(y, 32) == (c == 1));
    assert(has_bit(y, 16) == (d == 1));
    assert(has_bit(y, 8) == (e == 1));
    assert(has_bit(y, 4) == (f == 1));
    assert(has_bit(y, 2) == (g == 1));
    assert(has_bit(y, 1) == (h == 1));
}

/// Decoding the wire form of an encodable segment succeeds and gives the
/// segment back, with the checksum that was computed for it.
pub proof fn lemma_decode_encoding(s: Segment, pseudo: u32)
    requires
        encodable(s),
    ensures
        decode_error(encoding(s, pseudo)) == None::<Error>,
        forall|t: Segment|
            #[trigger] decodes_to(encoding(s, pseudo), t) ==> same_but_checksum(t, s) && t.checksum
                == wire_checksum(s, pseudo),
{
    let cs = wire_checksum(s, pseudo);
    let b = encoding(s, pseudo);
    let k = s.options@.len() / 4;
    let ob = offset_byte(s) as nat;
    assert(ob == (5 + k) * 16 + bit(s.ns));
    lemma_div_mod_unique(ob as int, 2, ((5 + k) * 8) as int, bit(s.ns) as int);
    lemma_div_mod_unique(ob as int, 16, (5 + k) as int, bit(s.ns) as int);
    assert(header_len(b) == 20 + s.options@.len());
    lemma_flags_byte_bits(s);
    lemma_be16_split(s.src_port);
    lemma_be16_split(s.dst_port);
    lemma_be16_split(s.window_size);
    lemma_be16_split(cs);
    lemma_be16_split(urgent_value(s.urgent_data));
    lemma_be32_split(s.seq_no);
    lemma_be32_split(ack_value(s.ack_no));
    assert forall|t: Segment| #[trigger] decodes_to(b, t) implies same_but_checksum(t, s)
        && t.checksum == cs by {
        assert(t.options@ =~= s.options@);
        assert(t.payload@ =~= s.payload@);
    }
}

/// A segment whose reserved header bits are clear.
pub open spec fn canonical(b: Seq<u8>) -> bool {
    b.len() >= 20 && b[12] % 16 < 2
}

/// Encoding a decoded segment gives back the bytes it was decoded from,
/// but for the checksum field, which is computed anew.
pub proof fn lemma_encode_decoded(b: Seq<u8>, s: Segment, pseudo: u32)
    requires
        decode_error(b) == None::<Error>,
        decodes_to(b, s),
        canonical(b),
    ensures
        crate::utils::bytes::agrees_except(encoding(s, pseudo), b, Some(16)),
        wire_len(s) == b.len(),
        encodable(s) <== b.len() <= 0xFFFF,
{
    let e = encoding(s, pseudo);
    crate::utils::bytes::lemma_be16_join(b[0], b[1]);
    crate::utils::bytes::lemma_be16_join(b[2], b[3]);
    crate::utils::bytes::lemma_be16_join(b[14], b[15]);
    crate::utils::bytes::lemma_be16_join(b[18], b[19]);
    crate::utils::bytes::lemma_be32_join(b[4], b[5], b[6], b[7]);
    crate::utils::bytes::lemma_be32_join(b[8], b[9], b[10], b[11]);
    crate::utils::bytes::lemma_byte_is_its_bits(b[13]);
    let q = b[12] as nat / 16;
    lemma_div_mod_unique(b[12] as int, 16, q as int, (b[12] % 16) as int);
    assert(s.options@.len() == 4 * q - 20);
    assert(s.options@.len() / 4 == q - 5);
    assert(b[12] as nat % 2 == b[12] as nat % 16) by {
        lemma_div_mod_unique(b[12] as int, 2, (q * 8) as int, (b[12] % 16) as int);
    }
    assert(offset_byte(s) == b[12]);
    assert(flags_byte(s) == b[13]);
    assert(e.subrange(0, 4) =~= b.subrange(0, 4));
    assert forall|i: int| 0 <= i < e.len() && !crate::utils::bytes::in_hole(Some(16), i) implies #[trigger] e[i]
        == b[i] by {
        if i < 20 {
            assert(header(s, wire_checksum(s, pseudo))[i] == b[i]);
        }
    }
}

} // verus!
