//! The one's-complement 16-bit checksum used by the IPv4 and TCP headers.
//!
//! `word_sum` is the mathematical model: the plain sum of the big-endian
//! 16-bit words of a byte sequence.  `oc_fold` folds such a sum back into
//! a 16-bit value the way end-around-carry addition does, and
//! `checksum_of` complements the folded sum.  `lemma_checksum_patch` is
//! the theorem the packet layer rests on: writing `checksum_of` of a
//! header whose checksum field is zero into that field yields a header
//! that validates.

use vstd::prelude::*;
use vstd::arithmetic::div_mod::{
    lemma_fundamental_div_mod, lemma_mod_bound, lemma_mod_multiples_vanish, lemma_small_mod,
};

verus! {

/// Sum of the big-endian 16-bit words of `s`; a trailing lone byte
/// counts as the high byte of a final word.
pub open spec fn word_sum(s: Seq<u8>) -> int
    decreases s.len(),
{
    if s.len() == 0 {
        0
    } else if s.len() == 1 {
        256 * (s[0] as int)
    } else {
        256 * (s[0] as int) + (s[1] as int) + word_sum(s.skip(2))
    }
}

/// Folds a non-negative sum into the range `[0, 0xffff]` exactly as
/// repeated end-around-carry addition does: the result is congruent to
/// `total` modulo 0xffff and is zero only when `total` is zero.
pub open spec fn oc_fold(total: int) -> int {
    if total <= 0 {
        0
    } else {
        (total - 1) % 0xffff + 1
    }
}

/// The checksum value to store for data whose checksum field is zero:
/// the one's complement of the folded word sum.
pub open spec fn checksum_of(s: Seq<u8>) -> u16 {
    (0xffff - oc_fold(word_sum(s))) as u16
}

/// A receiver accepts `s` when the folded sum of all its words is
/// 0xffff, that is, when the one's complement of the sum is zero.
pub open spec fn checksum_valid(s: Seq<u8>) -> bool {
    oc_fold(word_sum(s)) == 0xffff
}

/// High byte of a 16-bit value.
pub open spec fn hi8(x: u16) -> u8 {
    (x / 256) as u8
}

/// Low byte of a 16-bit value.
pub open spec fn lo8(x: u16) -> u8 {
    (x % 256) as u8
}

pub proof fn lemma_word_sum_nonneg(s: Seq<u8>)
    ensures
        word_sum(s) >= 0,
    decreases s.len(),
{
    if s.len() >= 2 {
        lemma_word_sum_nonneg(s.skip(2));
    }
}

/// The word sum splits across concatenation when the first part holds
/// whole words.
pub proof fn lemma_word_sum_append(a: Seq<u8>, b: Seq<u8>)
    requires
        a.len() % 2 == 0,
    ensures
        word_sum(a + b) == word_sum(a) + word_sum(b),
    decreases a.len(),
{
    if a.len() == 0 {
        assert(a + b =~= b);
    } else {
        assert((a + b).skip(2) =~= a.skip(2) + b);
        lemma_word_sum_append(a.skip(2), b);
        assert((a + b)[0] == a[0] && (a + b)[1] == a[1]);
    }
}

/// Subtracting a multiple of 0xffff from a positive total does not
/// change its fold, as long as the total stays positive.
proof fn lemma_oc_fold_vanish(total: int, k: int)
    requires
        total > 0,
        total - 0xffff * k > 0,
    ensures
        oc_fold(total - 0xffff * k) == oc_fold(total),
{
    lemma_mod_multiples_vanish(-k, total - 1, 0xffff);
}

/// On `[0, 0xffff]` the fold is the identity.
proof fn lemma_oc_fold_small(total: int)
    requires
        0 <= total <= 0xffff,
    ensures
        oc_fold(total) == total,
{
    if total > 0 {
        lemma_small_mod((total - 1) as nat, 0xffff);
    }
}

/// Adding the one's-complement checksum of a sum to that sum folds to
/// 0xffff: the inserted checksum makes the data validate.
proof fn lemma_oc_fold_complement(total: int)
    requires
        total >= 0,
    ensures
        oc_fold(total + 0xffff - oc_fold(total)) == 0xffff,
{
    if total == 0 {
        lemma_small_mod(0xfffe, 0xffff);
    } else {
        lemma_fundamental_div_mod(total - 1, 0xffff);
        lemma_mod_bound(total - 1, 0xffff);
        let q = (total - 1) / 0xffff;
        let r = (total - 1) % 0xffff;
        assert(oc_fold(total) == r + 1);
        let t = total + 0xffff - (r + 1);
        assert(t == 0xffff * (q + 1));
        assert(t - 1 == 0xffff * q + 0xfffe);
        lemma_mod_multiples_vanish(q, 0xfffe, 0xffff);
        lemma_small_mod(0xfffe, 0xffff);
    }
}

/// The central checksum theorem: take data `z` whose 16-bit checksum
/// field, at the word-aligned offset `j`, is zero; writing
/// `checksum_of(z)` into that field, high byte first, yields data whose
/// checksum validates.
pub proof fn lemma_checksum_patch(z: Seq<u8>, j: int)
    requires
        z.len() % 2 == 0,
        0 <= j,
        j + 2 <= z.len(),
        j % 2 == 0,
        z[j] == 0,
        z[j + 1] == 0,
    ensures
        checksum_valid(z.update(j, hi8(checksum_of(z))).update(j + 1, lo8(checksum_of(z)))),
{
    let a = z.take(j);
    let m = z.subrange(j, j + 2);
    let b = z.skip(j + 2);
    assert(z =~= a + (m + b));
    lemma_word_sum_append(a, m + b);
    lemma_word_sum_append(m, b);
    assert(word_sum(m) == 0) by {
        assert(m[0] == 0 && m[1] == 0);
        assert(m.skip(2) =~= Seq::<u8>::empty());
        assert(word_sum(Seq::<u8>::empty()) == 0);
    }
    assert(word_sum(z) == word_sum(a) + word_sum(b));

    lemma_word_sum_nonneg(z);
    let s = word_sum(z);
    if s > 0 {
        lemma_mod_bound(s - 1, 0xffff);
    }
    let c = checksum_of(z);
    assert(c as int == 0xffff - oc_fold(s));

    lemma_fundamental_div_mod(c as int, 256);
    lemma_mod_bound(c as int, 256);
    let m2 = seq![hi8(c), lo8(c)];
    assert(word_sum(m2) == c as int) by {
        assert(m2.skip(2) =~= Seq::<u8>::empty());
        assert(word_sum(Seq::<u8>::empty()) == 0);
    }

    let p = z.update(j, hi8(c)).update(j + 1, lo8(c));
    assert(p =~= a + (m2 + b));
    lemma_word_sum_append(a, m2 + b);
    lemma_word_sum_append(m2, b);
    assert(word_sum(p) == s + c as int);

    lemma_oc_fold_complement(s);
}

/// Computes the one's-complement checksum of `data`, exactly
/// `checksum_of(data@)`.  `data` must hold whole 16-bit words.
pub fn internet_checksum(data: &Vec<u8>) -> (r: u16)
    requires
        data@.len() % 2 == 0,
        data@.len() <= 65534,
    ensures
        r == checksum_of(data@),
        r as int == 0xffff - oc_fold(word_sum(data@)),
{
    let mut acc: u64 = 0;
    let mut i: usize = 0;
    while i < data.len()
        invariant
            i % 2 == 0,
            i <= data@.len(),
            data@.len() % 2 == 0,
            data@.len() <= 65534,
            acc == word_sum(data@.take(i as int)),
            acc <= 32768 * i,
        decreases data@.len() - i,
    {
        let w: u64 = 256 * (data[i] as u64) + (data[i + 1] as u64);
        proof {
            let pre = data@.take(i as int);
            let two = seq![data@[i as int], data@[i as int + 1]];
            assert(data@.take(i as int + 2) =~= pre + two);
            lemma_word_sum_append(pre, two);
            assert(word_sum(two) == w) by {
                assert(two.skip(2) =~= Seq::<u8>::empty());
                assert(word_sum(Seq::<u8>::empty()) == 0);
            }
        }
        acc = acc + w;
        i = i + 2;
    }
    assert(data@.take(i as int) =~= data@);
    let ghost total = word_sum(data@);
    proof {
        lemma_word_sum_nonneg(data@);
    }
    while acc > 0xffff
        invariant
            oc_fold(acc as int) == oc_fold(total),
            total >= 0,
        decreases acc,
    {
        let h: u64 = acc >> 16;
        let l: u64 = acc & 0xffff;
        proof {
            assert(acc == (acc >> 16) * 0x10000 + (acc & 0xffff) && (acc & 0xffff) <= 0xffff)
                by (bit_vector);
            assert(acc > 0xffff ==> (acc >> 16) >= 1) by (bit_vector);
            assert(h + l == acc - 0xffff * (h as int));
            lemma_oc_fold_vanish(acc as int, h as int);
        }
        acc = h + l;
    }
    proof {
        lemma_oc_fold_small(acc as int);
    }
    (0xffff - acc) as u16
}

} // verus!
