//! The Internet checksum: one's-complement folding, the incremental update
//! used when a header field is rewritten, and the sums of 16-bit words that
//! both are stated over.

use vstd::prelude::*;

verus! {

/// The 16-bit one's-complement sum that a non-negative total folds to: zero
/// for zero, otherwise the value in `1..=0xFFFF` congruent to it modulo `0xFFFF`.
pub open spec fn ones_fold(x: int) -> int {
    if x <= 0 {
        0
    } else {
        (x - 1) % 65535 + 1
    }
}

/// A total of 16-bit words, checksum field included, verifies when it folds
/// to `0xFFFF`: it is positive and a multiple of `0xFFFF`.
pub open spec fn verifies(total: int) -> bool {
    ones_fold(total) == 0xFFFF
}

/// One folding step: the low 16 bits plus what stands above them.
pub open spec fn fold_step(x: int) -> int {
    x % 65536 + x / 65536
}

proof fn lemma_fold_step(x: u64)
    ensures
        ones_fold(fold_step(x as int)) == ones_fold(x as int),
        fold_step(x as int) == (x & 0xFFFF) + (x >> 16),
        (x >> 16 == 0) ==> fold_step(x as int) == x,
        0 <= fold_step(x as int) <= 0xFFFF + x / 65536,
{
    assert(x & 0xFFFF == x % 65536 && x >> 16 == x / 65536) by (bit_vector);
    let q = x as int / 65536;
    let r = x as int % 65536;
    assert(x as int == 65536 * q + r);
    if x > 0 {
        assert((x as int - 1) == 65535 * q + (q + r - 1));
        assert((x as int - 1) % 65535 == (q + r - 1) % 65535) by {
            vstd::arithmetic::div_mod::lemma_mod_multiples_vanish(q, q + r - 1, 65535);
        }
    }
}

/// Folds a 64-bit sum of 16-bit words to 16 bits and complements it.
///
/// Five folding steps bring any 64-bit value below `0x1_0000`.
pub fn csum_fold_helper(csum: u64) -> (r: u16)
    ensures
        r == 0xFFFF - ones_fold(csum as int),
{
    let ghost start = csum;
    let mut csum = csum;
    proof {
        lemma_fold_step(csum);
    }
    if csum >> 16 != 0 {
        csum = (csum & 0xFFFF) + (csum >> 16);
    }
    assert(csum <= 0xFFFF + 0xFFFF_FFFF_FFFF && ones_fold(csum as int) == ones_fold(start as int));
    proof {
        lemma_fold_step(csum);
    }
    if csum >> 16 != 0 {
        csum = (csum & 0xFFFF) + (csum >> 16);
    }
    assert(csum <= 0xFFFF + 0x1_0000_0000 && ones_fold(csum as int) == ones_fold(start as int));
    proof {
        lemma_fold_step(csum);
    }
    if csum >> 16 != 0 {
        csum = (csum & 0xFFFF) + (csum >> 16);
    }
    assert(csum <= 0xFFFF + 0x1_0000 && ones_fold(csum as int) == ones_fold(start as int));
    proof {
        lemma_fold_step(csum);
    }
    if csum >> 16 != 0 {
        csum = (csum & 0xFFFF) + (csum >> 16);
    }
    assert(csum <= 0x1_0000 && ones_fold(csum as int) == ones_fold(start as int));
    proof {
        lemma_fold_step(csum);
    }
    if csum >> 16 != 0 {
        csum = (csum & 0xFFFF) + (csum >> 16);
    }
    assert(csum <= 0xFFFF && ones_fold(csum as int) == ones_fold(start as int));
    assert(csum <= 0xFFFF ==> (!csum) as u16 == 0xFFFF - csum) by (bit_vector);
    !csum as u16
}

/// The one's-complement difference of two 32-bit words on top of a seed:
/// the complement of the old word, plus the new word, plus the seed.
pub open spec fn spec_csum_diff(from: u32, to: u32, seed: u32) -> u64 {
    ((0xFFFF_FFFF - from) + to + seed) as u64
}

#[verifier::when_used_as_spec(spec_csum_diff)]
pub fn csum_diff(from: u32, to: u32, seed: u32) -> (r: u64)
    ensures
        r == spec_csum_diff(from, to, seed),
{
    assert(!from == 0xFFFF_FFFF - from) by (bit_vector);
    (!from) as u64 + to as u64 + seed as u64
}

/// The checksum that replaces `check` when a 32-bit word covered by it
/// changes from `from` to `to`.
#[verifier::opaque]
pub open spec fn spec_csum_update(check: u16, from: u32, to: u32) -> u16 {
    (0xFFFF - ones_fold(spec_csum_diff(from, to, (0xFFFF - check) as u32) as int)) as u16
}

#[verifier::when_used_as_spec(spec_csum_update)]
pub fn csum_update(check: u16, from: u32, to: u32) -> (r: u16)
    ensures
        r == spec_csum_update(check, from, to),
{
    assert(!check == 0xFFFF - check) by (bit_vector);
    reveal(spec_csum_update);
    csum_fold_helper(csum_diff(from, to, (!check) as u32))
}

/// The updated checksum differs from the old one by what the word lost,
/// modulo `0xFFFF`.
pub proof fn lemma_csum_update(check: u16, from: u32, to: u32)
    ensures
        (spec_csum_update(check, from, to) - check - from + to) % 65535 == 0,
{
    reveal(spec_csum_update);
    let x = spec_csum_diff(from, to, (0xFFFF - check) as u32) as int;
    assert(x == (0xFFFF_FFFF - from) + to + (0xFFFF - check));
    let f = ones_fold(x);
    if x > 0 {
        assert((f - x) % 65535 == 0) by {
            vstd::arithmetic::div_mod::lemma_fundamental_div_mod(x - 1, 65535);
            let k = (x - 1) / 65535;
            assert(f - x == -(65535 * k));
            vstd::arithmetic::div_mod::lemma_mod_multiples_vanish(-k, 0, 65535);
        }
    }
    let r = spec_csum_update(check, from, to) as int;
    assert(r == 0xFFFF - f);
    assert(r - check - from + to == -(f - x) - 65535 * 65538 + 65535);
    assert((-(f - x)) % 65535 == 0) by {
        let d = f - x;
        vstd::arithmetic::div_mod::lemma_fundamental_div_mod(d, 65535);
        let k = d / 65535;
        assert(d == 65535 * k);
        vstd::arithmetic::div_mod::lemma_mod_multiples_vanish(-k, 0, 65535);
    }
    vstd::arithmetic::div_mod::lemma_mod_multiples_vanish(-65537, -(f - x), 65535);
}

/// What the byte at position `i` of a range counts for in its sum of 16-bit
/// words. Read big-endian, as the wire defines a word, the first byte of a
/// word counts 256 times; read little-endian, the second does.
pub open spec fn byte_weight(i: int, big_endian: bool) -> int {
    if (i % 2 == 0) == big_endian {
        256
    } else {
        1
    }
}

/// The sum of the 16-bit words of `s[lo..hi)`, the first word starting at
/// `lo`. A last odd byte is completed by a zero byte.
pub open spec fn word_sum(s: Seq<u8>, lo: int, hi: int, big_endian: bool) -> int
    decreases hi - lo,
{
    if hi <= lo {
        0
    } else {
        word_sum(s, lo, hi - 1, big_endian) + byte_weight(hi - 1 - lo, big_endian) * s[hi - 1]
    }
}

/// Changing one byte changes the sum by the weighted difference.
pub proof fn lemma_word_sum_update(s: Seq<u8>, lo: int, hi: int, big_endian: bool, i: int, v: u8)
    requires
        0 <= lo <= hi <= s.len(),
        0 <= i < s.len(),
    ensures
        word_sum(s.update(i, v), lo, hi, big_endian) == word_sum(s, lo, hi, big_endian) + if lo
            <= i < hi {
            byte_weight(i - lo, big_endian) * (v - s[i])
        } else {
            0
        },
    decreases hi - lo,
{
    if hi > lo {
        lemma_word_sum_update(s, lo, hi - 1, big_endian, i, v);
        let w = byte_weight(hi - 1 - lo, big_endian);
        if i == hi - 1 {
            assert(w * v - w * s[i] == w * (v - s[i])) by (nonlinear_arith);
        }
    }
}

/// Two sequences that agree on a range have the same sum over it.
pub proof fn lemma_word_sum_agree(s: Seq<u8>, t: Seq<u8>, lo: int, hi: int, big_endian: bool)
    requires
        0 <= lo <= hi <= s.len(),
        hi <= t.len(),
        forall|i: int| lo <= i < hi ==> s[i] == t[i],
    ensures
        word_sum(s, lo, hi, big_endian) == word_sum(t, lo, hi, big_endian),
    decreases hi - lo,
{
    if hi > lo {
        lemma_word_sum_agree(s, t, lo, hi - 1, big_endian);
    }
}

/// The sum is at least any of its bytes.
pub proof fn lemma_word_sum_lower(s: Seq<u8>, lo: int, hi: int, big_endian: bool, i: int)
    requires
        0 <= lo <= hi <= s.len(),
        lo <= i < hi,
    ensures
        word_sum(s, lo, hi, big_endian) >= s[i],
        word_sum(s, lo, i, big_endian) >= 0,
    decreases hi - lo,
{
    let w = byte_weight(hi - 1 - lo, big_endian);
    assert(w * s[hi - 1] >= s[hi - 1]) by (nonlinear_arith)
        requires
            w >= 1,
            s[hi - 1] >= 0,
    ;
    if i < hi - 1 {
        lemma_word_sum_lower(s, lo, hi - 1, big_endian, i);
    } else {
        lemma_word_sum_nonneg(s, lo, hi - 1, big_endian);
    }
    lemma_word_sum_nonneg(s, lo, i, big_endian);
}

/// The sum is never negative.
pub proof fn lemma_word_sum_nonneg(s: Seq<u8>, lo: int, hi: int, big_endian: bool)
    requires
        0 <= lo,
        hi <= s.len(),
    ensures
        word_sum(s, lo, hi, big_endian) >= 0,
    decreases hi - lo,
{
    if hi > lo {
        lemma_word_sum_nonneg(s, lo, hi - 1, big_endian);
        let w = byte_weight(hi - 1 - lo, big_endian);
        assert(w * s[hi - 1] >= 0) by (nonlinear_arith)
            requires
                w >= 1,
                s[hi - 1] >= 0,
        ;
    }
}

/// Reading the words of a range little-endian gives 256 times the big-endian
/// sum, modulo `0xFFFF`: the order of the bytes in a word does not matter to
/// whether a checksum verifies.
pub proof fn lemma_word_sum_endian(s: Seq<u8>, lo: int, hi: int)
    requires
        0 <= lo,
        hi <= s.len(),
    ensures
        (word_sum(s, lo, hi, false) - 256 * word_sum(s, lo, hi, true)) % 65535 == 0,
        (word_sum(s, lo, hi, true) - 256 * word_sum(s, lo, hi, false)) % 65535 == 0,
    decreases hi - lo,
{
    if hi > lo {
        lemma_word_sum_endian(s, lo, hi - 1);
        let b = s[hi - 1] as int;
        let l0 = word_sum(s, lo, hi - 1, false);
        let b0 = word_sum(s, lo, hi - 1, true);
        let wl = byte_weight(hi - 1 - lo, false);
        let wb = byte_weight(hi - 1 - lo, true);
        let dl = l0 - 256 * b0;
        let db = b0 - 256 * l0;
        vstd::arithmetic::div_mod::lemma_fundamental_div_mod(dl, 65535);
        vstd::arithmetic::div_mod::lemma_fundamental_div_mod(db, 65535);
        let kl = dl / 65535;
        let kb = db / 65535;
        if wl == 1 {
            assert(wb == 256);
            assert(wl * b == b && wb * b == 256 * b);
            assert(word_sum(s, lo, hi, false) - 256 * word_sum(s, lo, hi, true) == 65535 * (kl - b));
            assert(word_sum(s, lo, hi, true) - 256 * word_sum(s, lo, hi, false) == 65535 * kb);
            vstd::arithmetic::div_mod::lemma_mod_multiples_vanish(kl - b, 0, 65535);
            vstd::arithmetic::div_mod::lemma_mod_multiples_vanish(kb, 0, 65535);
        } else {
            assert(wl == 256 && wb == 1);
            assert(wl * b == 256 * b && wb * b == b);
            assert(word_sum(s, lo, hi, false) - 256 * word_sum(s, lo, hi, true) == 65535 * kl);
            assert(word_sum(s, lo, hi, true) - 256 * word_sum(s, lo, hi, false) == 65535 * (kb - b));
            vstd::arithmetic::div_mod::lemma_mod_multiples_vanish(kl, 0, 65535);
            vstd::arithmetic::div_mod::lemma_mod_multiples_vanish(kb - b, 0, 65535);
        }
    }
}

} // verus!
