//! Big-endian reading and writing of header fields.
use vstd::prelude::*;

verus! {

/// `n` zero bytes.
pub open spec fn zeros(n: nat) -> Seq<u8> {
    Seq::new(n, |i: int| 0u8)
}

/// The value of two bytes read in network order.
pub open spec fn be16(hi: u8, lo: u8) -> nat {
    hi as nat * 256 + lo as nat
}

/// The value of four bytes read in network order.
pub open spec fn be32(b0: u8, b1: u8, b2: u8, b3: u8) -> nat {
    ((b0 as nat * 256 + b1 as nat) * 256 + b2 as nat) * 256 + b3 as nat
}

/// The high byte of a 16-bit field.
pub open spec fn hi8(x: u16) -> u8 {
    (x / 256) as u8
}

/// The low byte of a 16-bit field.
pub open spec fn lo8(x: u16) -> u8 {
    (x % 256) as u8
}

/// The four bytes of a 32-bit field, in network order.
pub open spec fn be32_bytes(x: u32) -> Seq<u8> {
    seq![
        (x / 0x100_0000) as u8,
        ((x / 0x1_0000) % 256) as u8,
        ((x / 256) % 256) as u8,
        (x % 256) as u8,
    ]
}

/// Whether the bit of weight `m` (a power of two) is set in `b`.
pub open spec fn has_bit(b: u8, m: nat) -> bool {
    (b as nat / m) % 2 == 1
}

/// Reads the 16-bit field at `i`.
pub fn read_u16(s: &[u8], i: usize) -> (r: u16)
    requires
        i + 1 < s@.len(),
    ensures
        r == be16(s@[i as int], s@[i + 1]),
{
    let hi = s[i] as u16;
    let lo = s[i + 1] as u16;
    hi * 256 + lo
}

/// Reads the 32-bit field at `i`.
pub fn read_u32(s: &[u8], i: usize) -> (r: u32)
    requires
        i + 3 < s@.len(),
    ensures
        r == be32(s@[i as int], s@[i + 1], s@[i + 2], s@[i + 3]),
{
    let b0 = s[i] as u32;
    let b1 = s[i + 1] as u32;
    let b2 = s[i + 2] as u32;
    let b3 = s[i + 3] as u32;
    ((b0 * 256 + b1) * 256 + b2) * 256 + b3
}

/// Splitting a 16-bit value into bytes and reading them back gives the value.
pub proof fn lemma_be16_split(x: u16)
    ensures
        be16(hi8(x), lo8(x)) == x,
{
}

/// Reading two bytes and splitting the value gives the bytes back.
pub proof fn lemma_be16_join(hi: u8, lo: u8)
    ensures
        be16(hi, lo) < 0x1_0000,
        hi8(be16(hi, lo) as u16) == hi,
        lo8(be16(hi, lo) as u16) == lo,
{
}

/// Division by a positive `d` of `q * d + r`, with `0 <= r < d`, gives `q`
/// and leaves `r`.
pub proof fn lemma_div_mod_unique(x: int, d: int, q: int, r: int)
    requires
        d > 0,
        0 <= r < d,
        x == q * d + r,
    ensures
        x / d == q,
        x % d == r,
{
    vstd::arithmetic::div_mod::lemma_fundamental_div_mod_converse(x, d, q, r);
}

/// Splitting a 32-bit value into bytes and reading them back gives the value.
pub proof fn lemma_be32_split(x: u32)
    ensures
        be32(be32_bytes(x)[0], be32_bytes(x)[1], be32_bytes(x)[2], be32_bytes(x)[3]) == x,
{
    let x = x as int;
    let a = x / 0x100;
    let b = a / 0x100;
    let c = b / 0x100;
    vstd::arithmetic::div_mod::lemma_fundamental_div_mod(x, 0x100);
    vstd::arithmetic::div_mod::lemma_fundamental_div_mod(a, 0x100);
    vstd::arithmetic::div_mod::lemma_fundamental_div_mod(b, 0x100);
    vstd::arithmetic::div_mod::lemma_div_denominator(x, 0x100, 0x100);
    vstd::arithmetic::div_mod::lemma_div_denominator(a, 0x100, 0x100);
    vstd::arithmetic::div_mod::lemma_div_denominator(x, 0x1_0000, 0x100);
    assert(c < 0x100);
}

/// Reading four bytes and splitting the value gives the bytes back.
pub proof fn lemma_be32_join(b0: u8, b1: u8, b2: u8, b3: u8)
    ensures
        be32(b0, b1, b2, b3) < 0x1_0000_0000,
        be32_bytes(be32(b0, b1, b2, b3) as u32) == seq![b0, b1, b2, b3],
{
    let x = be32(b0, b1, b2, b3) as int;
    let h2 = b0 as int * 256 + b1 as int;
    let h3 = h2 * 256 + b2 as int;
    assert(h2 < 0x1_0000);
    assert(h3 < 0x100_0000);
    lemma_div_mod_unique(x, 0x100, h3, b3 as int);
    lemma_div_mod_unique(h3, 0x100, h2, b2 as int);
    lemma_div_mod_unique(h2, 0x100, b0 as int, b1 as int);
    vstd::arithmetic::div_mod::lemma_div_denominator(x, 0x100, 0x100);
    vstd::arithmetic::div_mod::lemma_div_denominator(x, 0x1_0000, 0x100);
    assert(be32_bytes(x as u32) =~= seq![b0, b1, b2, b3]);
}

/// A buffer of `n` zero bytes.
pub fn zero_vec(n: usize) -> (r: Vec<u8>)
    ensures
        r@ == zeros(n as nat),
{
    let mut r: Vec<u8> = Vec::with_capacity(n);
    let mut i: usize = 0;
    while i < n
        invariant
            i <= n,
            r@ == zeros(i as nat),
        decreases n - i,
    {
        r.push(0u8);
        i = i + 1;
        assert(r@ =~= zeros(i as nat));
    }
    r
}

/// A copy of `s[from..to]`.
pub fn copy_range(s: &[u8], from: usize, to: usize) -> (r: Vec<u8>)
    requires
        from <= to <= s@.len(),
    ensures
        r@ == s@.subrange(from as int, to as int),
{
    vstd::slice::slice_to_vec(vstd::slice::slice_subrange(s, from, to))
}

/// Writes `src` over `out[at..at + src.len()]`.
pub fn overwrite(out: &mut Vec<u8>, at: usize, src: &[u8])
    requires
        at + src@.len() <= old(out)@.len(),
    ensures
        final(out)@ == old(out)@.take(at as int) + src@ + old(out)@.skip(at + src@.len()),
{
    let ghost start = out@;
    let len = out.len();
    let mut i: usize = 0;
    while i < src.len()
        invariant
            i <= src@.len(),
            at + src@.len() <= start.len(),
            start.len() == len,
            out@ == start.take(at as int) + src@.take(i as int) + start.skip(at + i),
        decreases src@.len() - i,
    {
        out.set(at + i, src[i]);
        i = i + 1;
        assert(out@ =~= start.take(at as int) + src@.take(i as int) + start.skip(at + i));
    }
    assert(src@.take(i as int) =~= src@);
}

/// Writing a header over the room reserved for it in front of an inner
/// encoding leaves the prefix zeros, the header, and the rest.
pub proof fn lemma_fill_reserved(a: nat, h: Seq<u8>, rest: Seq<u8>)
    ensures
        (zeros(a + h.len()) + rest).take(a as int) + h + (zeros(a + h.len()) + rest).skip(
            (a + h.len()) as int,
        ) == zeros(a) + h + rest,
{
    let z = zeros(a + h.len()) + rest;
    assert(z.take(a as int) =~= zeros(a));
    assert(z.skip((a + h.len()) as int) =~= rest);
}

/// The bit of weight `m` of a value written as `hi * 2m + bit * m + lo`,
/// with `lo < m`, is `bit`.
pub proof fn lemma_bit_at(x: nat, m: nat, hi: nat, bit: nat, lo: nat)
    requires
        m > 0,
        bit <= 1,
        lo < m,
        x == hi * (2 * m) + bit * m + lo,
    ensures
        (x / m) % 2 == bit,
        x / m == 2 * hi + bit,
{
    assert(x == (2 * hi + bit) * m + lo) by (nonlinear_arith)
        requires
            x == hi * (2 * m) + bit * m + lo,
    ;
    lemma_div_mod_unique(x as int, m as int, (2 * hi + bit) as int, lo as int);
    lemma_div_mod_unique((2 * hi + bit) as int, 2, hi as int, bit as int);
}

/// Whether position `i` falls in the 16-bit field at `hole`.
pub open spec fn in_hole(hole: Option<int>, i: int) -> bool {
    match hole {
        Some(k) => k <= i <= k + 1,
        None => false,
    }
}

/// A field position moved `n` bytes further.
pub open spec fn shift_hole(hole: Option<int>, n: int) -> Option<int> {
    match hole {
        Some(k) => Some(k + n),
        None => None,
    }
}

/// `a` and `b` have the same length and the same bytes, except perhaps in
/// the 16-bit field at `hole`.
pub open spec fn agrees_except(a: Seq<u8>, b: Seq<u8>, hole: Option<int>) -> bool {
    &&& a.len() == b.len()
    &&& forall|i: int| 0 <= i < a.len() && !in_hole(hole, i) ==> #[trigger] a[i] == b[i]
}

/// Equal headers in front of agreeing payloads agree, with the field moved
/// past the header.
pub proof fn lemma_agrees_after_header(h: Seq<u8>, a: Seq<u8>, b: Seq<u8>, hole: Option<int>)
    requires
        agrees_except(a, b, hole),
    ensures
        agrees_except(h + a, h + b, shift_hole(hole, h.len() as int)),
{
    assert forall|i: int|
        0 <= i < (h + a).len() && !in_hole(shift_hole(hole, h.len() as int), i) implies #[trigger] (
        h + a)[i] == (h + b)[i] by {
        if i >= h.len() {
            assert(!in_hole(hole, i - h.len()));
        }
    }
}

/// The bits of a byte below 128 at weights 64 and 32, and its low five
/// bits, make up the byte.
pub proof fn lemma_split_flags(y: nat)
    requires
        y < 128,
    ensures
        y == 64 * ((y / 64) % 2) + 32 * ((y / 32) % 2) + y % 32,
{
    let q = y / 32;
    lemma_div_mod_unique(y as int, 32, q as int, (y % 32) as int);
    vstd::arithmetic::div_mod::lemma_div_denominator(y as int, 32, 2);
    assert(q < 4);
}

/// The eight bits of a byte make up the byte.
pub proof fn lemma_byte_is_its_bits(y: u8)
    ensures
        y == 128 * ((y / 128) % 2) + 64 * ((y / 64) % 2) + 32 * ((y / 32) % 2) + 16 * ((y / 16)
            % 2) + 8 * ((y / 8) % 2) + 4 * ((y / 4) % 2) + 2 * ((y / 2) % 2) + y % 2,
{
    assert(y == 128 * ((y / 128) % 2) + 64 * ((y / 64) % 2) + 32 * ((y / 32) % 2) + 16 * ((y / 16)
        % 2) + 8 * ((y / 8) % 2) + 4 * ((y / 4) % 2) + 2 * ((y / 2) % 2) + y % 2) by (bit_vector);
}

} // verus!
