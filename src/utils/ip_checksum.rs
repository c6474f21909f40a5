//! The 16-bit one's-complement Internet checksum.
use crate::utils::bytes::be16;
use vstd::prelude::*;

verus! {

/// The weight of the byte at `i` in its 16-bit word: bytes at even offsets
/// are the high half of a word, bytes at odd offsets the low half.
pub open spec fn byte_weight(i: int) -> nat {
    if i % 2 == 0 {
        256
    } else {
        1
    }
}

/// The sum of `s` read as big-endian 16-bit words; an odd last byte is the
/// high half of a word padded with zero.
pub open spec fn word_sum(s: Seq<u8>) -> nat
    decreases s.len(),
{
    if s.len() == 0 {
        0
    } else {
        word_sum(s.drop_last()) + s.last() as nat * byte_weight(s.len() - 1)
    }
}

/// One pass of adding the carry above 16 bits back into the low 16 bits.
pub open spec fn fold_carry(x: nat) -> nat {
    x / 0x1_0000 + x % 0x1_0000
}

/// The checksum of `s` on top of the partial sum `initial`: the sum folded
/// twice into 16 bits, then complemented.
pub open spec fn checksum_of(s: Seq<u8>, initial: nat) -> u16 {
    (0xFFFF - fold_carry(fold_carry(word_sum(s) + initial))) as u16
}

/// Computes the Internet checksum of `slc` on top of the partial sum
/// `offset` (a pseudo-header sum, or zero).
pub fn calc_checksum(slc: &[u8], offset: u32) -> (r: u16)
    requires
        word_sum(slc@) + offset <= u32::MAX,
    ensures
        r == checksum_of(slc@, offset as nat),
{
    let mut sum: u32 = offset;
    let mut i: usize = 0;
    while i < slc.len()
        invariant
            0 <= i <= slc@.len(),
            sum == word_sum(slc@.take(i as int)) + offset,
            word_sum(slc@) + offset <= u32::MAX,
        decreases slc@.len() - i,
    {
        proof {
            lemma_word_sum_prefix_le(slc@, i as int + 1);
            assert(slc@.take(i as int + 1).drop_last() =~= slc@.take(i as int));
        }
        let b = slc[i] as u32;
        if i % 2 == 0 {
            sum = sum + b * 256;
        } else {
            sum = sum + b;
        }
        i = i + 1;
    }
    assert(slc@.take(slc@.len() as int) =~= slc@);
    let once: u32 = sum / 0x1_0000 + sum % 0x1_0000;
    let twice: u32 = once / 0x1_0000 + once % 0x1_0000;
    proof {
        lemma_fold_twice_bounded(sum as nat);
    }
    0xFFFFu16 - twice as u16
}

/// A prefix never sums to more than the whole sequence.
pub proof fn lemma_word_sum_prefix_le(s: Seq<u8>, n: int)
    requires
        0 <= n <= s.len(),
    ensures
        word_sum(s.take(n)) <= word_sum(s),
    decreases s.len(),
{
    if n < s.len() {
        assert(s.drop_last().take(n) =~= s.take(n));
        lemma_word_sum_prefix_le(s.drop_last(), n);
    } else {
        assert(s.take(n) =~= s);
    }
}

/// Each word contributes at most 0xFFFF, so the sum stays below
/// 0xFFFF times the number of words.
pub proof fn lemma_word_sum_bound(s: Seq<u8>)
    ensures
        word_sum(s) <= 0xFFFF * ((s.len() + 1) / 2),
    decreases s.len(),
{
    if s.len() > 0 {
        let n = s.len() as int;
        let t = s.drop_last();
        lemma_word_sum_bound(t);
        assert(word_sum(s) == word_sum(t) + s.last() as nat * byte_weight(n - 1));
        if (n - 1) % 2 == 0 {
            let k = (n - 1) / 2;
            assert(word_sum(t) <= 0xFFFF * k);
            assert((n + 1) / 2 == k + 1);
            assert(0xFFFF * (k + 1) == 0xFFFF * k + 0xFFFF);
        } else {
            // the last byte is the low half of a word whose high half is the
            // byte before it
            let k = (n - 2 + 1) / 2;
            lemma_word_sum_bound(t.drop_last());
            assert(word_sum(t) == word_sum(t.drop_last()) + t.last() as nat * 256);
            assert(word_sum(t.drop_last()) <= 0xFFFF * k);
            assert((n + 1) / 2 == k + 1);
            assert(0xFFFF * (k + 1) == 0xFFFF * k + 0xFFFF);
        }
    }
}

/// Changing one byte changes the sum by the difference times its weight.
pub proof fn lemma_word_sum_update(s: Seq<u8>, k: int, v: u8)
    requires
        0 <= k < s.len(),
    ensures
        word_sum(s.update(k, v)) + s[k] as nat * byte_weight(k) == word_sum(s) + v as nat
            * byte_weight(k),
    decreases s.len(),
{
    let u = s.update(k, v);
    if k == s.len() - 1 {
        assert(u.drop_last() =~= s.drop_last());
    } else {
        assert(u.drop_last() =~= s.drop_last().update(k, v));
        lemma_word_sum_update(s.drop_last(), k, v);
    }
}

/// Two folds bring any 32-bit sum into 16 bits.
pub proof fn lemma_fold_twice_bounded(x: nat)
    requires
        x <= u32::MAX,
    ensures
        fold_carry(fold_carry(x)) <= 0xFFFF,
{
    let y = fold_carry(x);
    assert(y <= 0xFFFF + 0xFFFF);
}

/// A fold keeps the value modulo 0xFFFF, never grows it, and keeps it
/// positive.
proof fn lemma_fold_congruent(x: nat)
    ensures
        fold_carry(x) % 0xFFFF == x % 0xFFFF,
        fold_carry(x) <= x,
        x > 0 ==> fold_carry(x) > 0,
{
    let q = x / 0x1_0000;
    let r = x % 0x1_0000;
    assert(x == 0x1_0000 * q + r);
    assert(x == 0xFFFF * q + (q + r));
    assert((0xFFFF * q + (q + r)) % 0xFFFF == (q + r) % 0xFFFF) by (nonlinear_arith);
}

/// The folded sum of a positive value that is a multiple of 0xFFFF is 0xFFFF.
proof fn lemma_fold_twice_of_multiple(x: nat)
    requires
        0 < x <= u32::MAX,
        x % 0xFFFF == 0,
    ensures
        fold_carry(fold_carry(x)) == 0xFFFF,
{
    lemma_fold_congruent(x);
    lemma_fold_congruent(fold_carry(x));
    lemma_fold_twice_bounded(x);
    let z = fold_carry(fold_carry(x));
    assert(z % 0xFFFF == 0);
    assert(0 < z <= 0xFFFF);
}

/// A checksum field filled with the checksum of the data (taken with the
/// field zeroed) makes the checksum of the whole data zero, when the field
/// is a whole word.
pub proof fn lemma_checksum_field_verifies(s: Seq<u8>, k: int)
    requires
        0 <= k,
        k + 1 < s.len(),
        k % 2 == 0,
        word_sum(s) <= 0xFFFF * 0x1_0000,
        be16(s[k], s[k + 1]) == checksum_of(s.update(k, 0).update(k + 1, 0), 0),
    ensures
        checksum_of(s, 0) == 0,
{
    let z = s.update(k, 0).update(k + 1, 0);
    lemma_word_sum_update(s, k, 0);
    lemma_word_sum_update(s.update(k, 0), k + 1, 0);
    assert(s.update(k, 0)[k + 1] == s[k + 1]);
    let zs = word_sum(z);
    assert(word_sum(s) == zs + be16(s[k], s[k + 1]));
    lemma_fold_congruent(zs);
    lemma_fold_congruent(fold_carry(zs));
    lemma_fold_twice_bounded(zs);
    let f = fold_carry(fold_carry(zs));
    assert(be16(s[k], s[k + 1]) == 0xFFFF - f);
    let t = word_sum(s);
    assert(t == zs - f + 0xFFFF);
    assert(f % 0xFFFF == zs % 0xFFFF);
    assert((zs - f) % 0xFFFF == 0) by (nonlinear_arith)
        requires
            f % 0xFFFF == zs % 0xFFFF,
            f <= zs,
    {
        vstd::arithmetic::div_mod::lemma_sub_mod_noop(zs as int, f as int, 0xFFFF);
    }
    assert(t % 0xFFFF == 0) by {
        vstd::arithmetic::div_mod::lemma_mod_adds((zs - f) as int, 0xFFFF, 0xFFFF);
    }
    lemma_fold_twice_of_multiple(t);
}

/// A 20-byte IPv4 header whose checksum field holds the checksum of the
/// header (taken with that field zeroed) has checksum zero.
pub proof fn lemma_ipv4_header_checksum_is_zero(h: Seq<u8>)
    requires
        h.len() == 20,
        be16(h[10], h[11]) == checksum_of(h.update(10, 0).update(11, 0), 0),
    ensures
        checksum_of(h, 0) == 0,
{
    lemma_word_sum_bound(h);
    lemma_checksum_field_verifies(h, 10);
}

/// Whether a pseudo-header sum leaves room for a segment of up to 0xFFFF
/// bytes and its length on top of it in a 32-bit accumulator.
pub open spec fn pseudo_sum_fits(x: u32) -> bool {
    x <= 0x7FFF_0000
}

/// The checksum of a segment of at most 0xFFFF bytes over a pseudo-header
/// sum that fits, with the segment's length added, does not overflow.
pub proof fn lemma_segment_sum_fits(s: Seq<u8>, pseudo: u32)
    requires
        s.len() <= 0xFFFF,
        pseudo_sum_fits(pseudo),
    ensures
        word_sum(s) + pseudo + s.len() <= u32::MAX,
{
    lemma_word_sum_bound(s);
    assert(word_sum(s) <= 0xFFFF * 0x8000) by (nonlinear_arith)
        requires
            word_sum(s) <= 0xFFFF * ((s.len() + 1) / 2),
            s.len() <= 0xFFFF,
    ;
}

/// The sum of a short buffer (a pseudo-header) read as 16-bit words.
pub fn sum_words(s: &[u8]) -> (r: u32)
    requires
        s@.len() <= 64,
    ensures
        r == word_sum(s@),
{
    let mut sum: u32 = 0;
    let mut i: usize = 0;
    while i < s.len()
        invariant
            0 <= i <= s@.len() <= 64,
            sum == word_sum(s@.take(i as int)),
            sum <= 0xFFFF * ((i + 1) / 2),
        decreases s@.len() - i,
    {
        proof {
            assert(s@.take(i as int + 1).drop_last() =~= s@.take(i as int));
            lemma_word_sum_bound(s@.take(i as int + 1));
        }
        let b = s[i] as u32;
        if i % 2 == 0 {
            sum = sum + b * 256;
        } else {
            sum = sum + b;
        }
        i = i + 1;
    }
    assert(s@.take(s@.len() as int) =~= s@);
    sum
}

} // verus!
