//! Corruption detection for the packet checksum.
//!
//! The checksum register update is linear over xor: processing the bitwise
//! difference of two inputs from a zero register yields exactly the xor of
//! their checksums. For a single flipped bit that difference is a one-bit
//! word among zeros, and the register provably never returns to zero once
//! the flipped bit has entered it, because the polynomial constant is odd.
//! Together this shows that flipping any single bit of a covered region
//! changes the checksum.

use vstd::prelude::*;

use crate::common::spec_crc_round;
use crate::common::spec_crc_word;
use crate::common::spec_crc_word_partial;
use crate::common::spec_crc_words;
use crate::common::spec_gen_crc;
use crate::common::spec_plain_crc_bytes;
use crate::common::spec_u32_from_le_bytes;
use crate::common::spec_words_of_bytes;
use crate::common::CrcStatus;
use crate::common::spec_crc_status;

verus! {

/// The register update is linear over xor, one round at a time.
proof fn lemma_round_linear()
    by (bit_vector)
    ensures
        forall|c1: u32, c2: u32, b1: u32, b2: u32|
            b1 < 2 && b2 < 2 ==> #[trigger] spec_crc_round(c1 ^ c2, b1 ^ b2) == spec_crc_round(
                c1,
                b1,
            ) ^ spec_crc_round(c2, b2),
{
}

/// A zero-bit round maps only the zero register to zero: the polynomial
/// constant is odd, so the xor branch always sets the low bit.
proof fn lemma_round_zero_kernel()
    by (bit_vector)
    ensures
        forall|c: u32| c != 0 ==> #[trigger] spec_crc_round(c, 0) != 0,
        spec_crc_round(0, 0) == 0,
        spec_crc_round(0, 1) != 0,
{
}

/// Selecting a bit distributes over xor, and a bit is always 0 or 1.
proof fn lemma_bit_facts()
    by (bit_vector)
    ensures
        forall|w1: u32, w2: u32, j: u32|
            j < 32 ==> #[trigger] (((w1 ^ w2) >> j) & 1) == ((w1 >> j) & 1) ^ ((w2 >> j) & 1),
        forall|w: u32, j: u32| j < 32 ==> #[trigger] ((w >> j) & 1) < 2,
        forall|k: u32, j: u32|
            k < 32 && j < 32 ==> #[trigger] (((1u32 << k) >> j) & 1) == (if j == k {
                1u32
            } else {
                0u32
            }),
        forall|k: u32| k < 32 ==> #[trigger] (1u32 << k) != 0,
        forall|x: u32, y: u32| y != 0 ==> #[trigger] (x ^ y) != x,
{
}

/// Word processing is linear over xor.
proof fn lemma_word_partial_linear(c1: u32, c2: u32, w1: u32, w2: u32, k: int)
    requires
        0 <= k <= 32,
    ensures
        spec_crc_word_partial(c1 ^ c2, w1 ^ w2, k) == spec_crc_word_partial(c1, w1, k)
            ^ spec_crc_word_partial(c2, w2, k),
    decreases k,
{
    if k <= 0 {
    } else {
        lemma_word_partial_linear(c1, c2, w1, w2, k - 1);
        lemma_bit_facts();
        lemma_round_linear();
        let j = (32 - k) as u32;
        assert(((w1 ^ w2) >> j) & 1 == ((w1 >> j) & 1) ^ ((w2 >> j) & 1));
        assert((w1 >> j) & 1 < 2 && (w2 >> j) & 1 < 2);
    }
}

/// Processing a zero word from a zero register stays at zero.
proof fn lemma_word_partial_zero(k: int)
    requires
        0 <= k <= 32,
    ensures
        spec_crc_word_partial(0, 0, k) == 0,
    decreases k,
{
    if k <= 0 {
    } else {
        lemma_word_partial_zero(k - 1);
        lemma_bit_facts();
        lemma_round_zero_kernel();
        let j = (32 - k) as u32;
        assert((0u32 >> j) & 1 == 0) by (bit_vector);
    }
}

/// Processing a zero word never drives a nonzero register to zero.
proof fn lemma_word_partial_zero_word_nonzero(c: u32, k: int)
    requires
        0 <= k <= 32,
        c != 0,
    ensures
        spec_crc_word_partial(c, 0, k) != 0,
    decreases k,
{
    if k <= 0 {
    } else {
        lemma_word_partial_zero_word_nonzero(c, k - 1);
        lemma_round_zero_kernel();
        let j = (32 - k) as u32;
        assert((0u32 >> j) & 1 == 0) by (bit_vector);
    }
}

/// Processing a one-bit word from a zero register ends nonzero: the
/// register stays zero until the flipped bit enters it, becomes the
/// polynomial constant there, and the remaining zero bits preserve it.
proof fn lemma_word_partial_single_bit(p: u32, k: int)
    requires
        p < 32,
        0 <= k <= 32,
    ensures
        k < 32 - p ==> spec_crc_word_partial(0, 1u32 << p, k) == 0,
        k >= 32 - p ==> spec_crc_word_partial(0, 1u32 << p, k) != 0,
    decreases k,
{
    if k <= 0 {
    } else {
        lemma_word_partial_single_bit(p, k - 1);
        lemma_bit_facts();
        lemma_round_zero_kernel();
        let j = (32 - k) as u32;
        assert(j < 32);
        assert((((1u32 << p) >> j) & 1) == (if j == p {
            1u32
        } else {
            0u32
        }));
        if k < 32 - p {
            // The flipped bit has not entered yet: this round consumes a
            // zero bit on a zero register.
            assert(j != p);
        } else if k == 32 - p {
            // This round consumes the flipped bit itself.
            assert(j == p);
        } else {
            // The flipped bit is in the register; later bits are zero.
            assert(j != p);
        }
    }
}

/// The sequence of words that is zero except for one one-bit word.
spec fn spec_single_bit_words(n: int, t: int, p: u32) -> Seq<u32> {
    Seq::new(n as nat, |j: int| if j == t {
        1u32 << p
    } else {
        0u32
    })
}

/// The pointwise xor of two word sequences.
spec fn spec_xor_words(s1: Seq<u32>, s2: Seq<u32>) -> Seq<u32>
    recommends
        s1.len() == s2.len(),
{
    Seq::new(s1.len(), |j: int| s1[j] ^ s2[j])
}

/// Folding the whole register over word sequences is linear over xor.
proof fn lemma_words_linear(s1: Seq<u32>, s2: Seq<u32>, c1: u32, c2: u32)
    requires
        s1.len() == s2.len(),
    ensures
        spec_crc_words(spec_xor_words(s1, s2), c1 ^ c2) == spec_crc_words(s1, c1)
            ^ spec_crc_words(s2, c2),
    decreases s1.len(),
{
    if s1.len() == 0 {
    } else {
        lemma_word_partial_linear(c1, c2, s1[0], s2[0], 32);
        assert(spec_xor_words(s1, s2)[0] == s1[0] ^ s2[0]);
        assert(spec_xor_words(s1, s2).drop_first() =~= spec_xor_words(
            s1.drop_first(),
            s2.drop_first(),
        ));
        lemma_words_linear(
            s1.drop_first(),
            s2.drop_first(),
            spec_crc_word(c1, s1[0]),
            spec_crc_word(c2, s2[0]),
        );
    }
}

/// A run of zero words never drives a nonzero register to zero.
proof fn lemma_words_all_zero_nonzero(s: Seq<u32>, c: u32)
    requires
        c != 0,
        forall|j: int| 0 <= j < s.len() ==> s[j] == 0,
    ensures
        spec_crc_words(s, c) != 0,
    decreases s.len(),
{
    if s.len() == 0 {
    } else {
        lemma_word_partial_zero_word_nonzero(c, 32);
        lemma_words_all_zero_nonzero(s.drop_first(), spec_crc_word(c, 0));
    }
}

/// Folding the one-bit-difference sequence from a zero register ends
/// nonzero.
proof fn lemma_single_bit_words_nonzero(n: int, t: int, p: u32)
    requires
        0 <= t < n,
        p < 32,
    ensures
        spec_crc_words(spec_single_bit_words(n, t, p), 0) != 0,
    decreases n,
{
    let e = spec_single_bit_words(n, t, p);
    if t == 0 {
        lemma_word_partial_single_bit(p, 32);
        assert(e[0] == 1u32 << p);
        assert(spec_crc_word(0, 1u32 << p) != 0);
        assert(forall|j: int| 0 <= j < e.drop_first().len() ==> e.drop_first()[j] == 0);
        lemma_words_all_zero_nonzero(e.drop_first(), spec_crc_word(0, 1u32 << p));
    } else {
        lemma_word_partial_zero(32);
        assert(e[0] == 0);
        assert(spec_crc_word(0, 0) == 0);
        assert(e.drop_first() =~= spec_single_bit_words(n - 1, t - 1, p));
        lemma_single_bit_words_nonzero(n - 1, t - 1, p);
    }
}

/// Little-endian word reading moves a one-bit byte difference to the
/// matching bit of the word.
proof fn lemma_le_word_flip()
    by (bit_vector)
    ensures
        forall|b0: u8, b1: u8, b2: u8, b3: u8, k: u32|
            k < 8 ==> #[trigger] ((((b0 ^ (1u8 << k)) as u32) | ((b1 as u32) << 8) | ((b2 as u32)
                << 16) | ((b3 as u32) << 24))) == ((b0 as u32) | ((b1 as u32) << 8) | ((b2 as u32)
                << 16) | ((b3 as u32) << 24)) ^ (1u32 << k),
        forall|b0: u8, b1: u8, b2: u8, b3: u8, k: u32|
            k < 8 ==> #[trigger] (((b0 as u32) | (((b1 ^ (1u8 << k)) as u32) << 8) | ((b2 as u32)
                << 16) | ((b3 as u32) << 24))) == ((b0 as u32) | ((b1 as u32) << 8) | ((b2 as u32)
                << 16) | ((b3 as u32) << 24)) ^ (1u32 << (k + 8)),
        forall|b0: u8, b1: u8, b2: u8, b3: u8, k: u32|
            k < 8 ==> #[trigger] (((b0 as u32) | ((b1 as u32) << 8) | (((b2 ^ (1u8 << k)) as u32)
                << 16) | ((b3 as u32) << 24))) == ((b0 as u32) | ((b1 as u32) << 8) | ((b2 as u32)
                << 16) | ((b3 as u32) << 24)) ^ (1u32 << (k + 16)),
        forall|b0: u8, b1: u8, b2: u8, b3: u8, k: u32|
            k < 8 ==> #[trigger] (((b0 as u32) | ((b1 as u32) << 8) | ((b2 as u32) << 16) | (((b3
                ^ (1u8 << k)) as u32) << 24))) == ((b0 as u32) | ((b1 as u32) << 8) | ((b2 as u32)
                << 16) | ((b3 as u32) << 24)) ^ (1u32 << (k + 24)),
{
}

/// Flipping one bit of one byte of a covered region changes its checksum.
///
/// `s2` equals `s1` except that byte `i` has bit `k` flipped.
pub proof fn lemma_gen_crc_single_bit_flip(s1: Seq<u8>, s2: Seq<u8>, i: int, k: u32)
    requires
        s1.len() % 4 == 0,
        s2.len() == s1.len(),
        0 <= i < s1.len(),
        k < 8,
        s2[i] == s1[i] ^ (1u8 << k),
        forall|j: int| 0 <= j < s1.len() && j != i ==> s1[j] == s2[j],
    ensures
        spec_gen_crc(s2) != spec_gen_crc(s1),
{
    let n = s1.len() as int / 4;
    let t = i / 4;
    let m = i % 4;
    let p: u32 = (8 * m + k) as u32;
    assert(0 <= t < n && 0 <= m < 4 && 4 * t + m == i && 4 * n == s1.len()) by (nonlinear_arith)
        requires
            s1.len() % 4 == 0,
            0 <= i < s1.len(),
            n == s1.len() as int / 4,
            t == i / 4,
            m == i % 4,
    ;
    assert(p < 32);
    let w1 = spec_words_of_bytes(s1);
    let w2 = spec_words_of_bytes(s2);
    let e = spec_single_bit_words(n, t, p);
    lemma_le_word_flip();
    lemma_bit_facts();
    assert forall|j: int| 0 <= j < n implies w2[j] == w1[j] ^ e[j] by {
        assert(4 * j + 3 < s1.len() && (j != t ==> (4 * j != i && 4 * j + 1 != i && 4 * j + 2
            != i && 4 * j + 3 != i))) by (nonlinear_arith)
            requires
                0 <= j < n,
                4 * n == s1.len(),
                t == i / 4,
                m == i % 4,
                0 <= m < 4,
                4 * t + m == i,
        ;
        let c1 = s1.subrange(4 * j, 4 * j + 4);
        let c2 = s2.subrange(4 * j, 4 * j + 4);
        assert(c1[0] == s1[4 * j] && c1[1] == s1[4 * j + 1] && c1[2] == s1[4 * j + 2] && c1[3]
            == s1[4 * j + 3]);
        assert(c2[0] == s2[4 * j] && c2[1] == s2[4 * j + 1] && c2[2] == s2[4 * j + 2] && c2[3]
            == s2[4 * j + 3]);
        if j != t {
            assert(c1 =~= c2);
            let x = w1[j];
            assert((x ^ 0) == x) by (bit_vector);
        } else {
            assert(4 * j + m == i);
            if m == 0 {
                assert(c2[0] == c1[0] ^ (1u8 << k) && c2[1] == c1[1] && c2[2] == c1[2] && c2[3]
                    == c1[3]);
                assert(spec_u32_from_le_bytes(c2) == spec_u32_from_le_bytes(c1) ^ (1u32 << k));
            } else if m == 1 {
                assert(c2[1] == c1[1] ^ (1u8 << k) && c2[0] == c1[0] && c2[2] == c1[2] && c2[3]
                    == c1[3]);
                assert(spec_u32_from_le_bytes(c2) == spec_u32_from_le_bytes(c1) ^ (1u32 << (k
                    + 8)));
            } else if m == 2 {
                assert(c2[2] == c1[2] ^ (1u8 << k) && c2[0] == c1[0] && c2[1] == c1[1] && c2[3]
                    == c1[3]);
                assert(spec_u32_from_le_bytes(c2) == spec_u32_from_le_bytes(c1) ^ (1u32 << (k
                    + 16)));
            } else {
                assert(c2[3] == c1[3] ^ (1u8 << k) && c2[0] == c1[0] && c2[1] == c1[1] && c2[2]
                    == c1[2]);
                assert(spec_u32_from_le_bytes(c2) == spec_u32_from_le_bytes(c1) ^ (1u32 << (k
                    + 24)));
            }
        }
    }
    assert(w2 =~= spec_xor_words(w1, e));
    assert((0xFFFFFFFFu32 ^ 0u32) == 0xFFFFFFFFu32) by (bit_vector);
    lemma_words_linear(w1, e, 0xFFFFFFFFu32, 0u32);
    lemma_single_bit_words_nonzero(n, t, p);
    assert(spec_gen_crc(s2) == spec_gen_crc(s1) ^ spec_crc_words(e, 0));
}

/// Corruption detection for a packet carrying its checksum in plain form:
/// after any single-bit flip inside the covered region, the stored trailing
/// bytes no longer read as the plain checksum of the region.
pub proof fn lemma_flip_not_plain_valid(s1: Seq<u8>, s2: Seq<u8>, i: int, k: u32, t: Seq<u8>)
    requires
        s1.len() % 4 == 0,
        s2.len() == s1.len(),
        0 <= i < s1.len(),
        k < 8,
        s2[i] == s1[i] ^ (1u8 << k),
        forall|j: int| 0 <= j < s1.len() && j != i ==> s1[j] == s2[j],
        t == spec_plain_crc_bytes(spec_gen_crc(s1)),
    ensures
        spec_crc_status(spec_gen_crc(s2), t) != CrcStatus::Plain,
{
    lemma_gen_crc_single_bit_flip(s1, s2, i, k);
    let c1 = spec_gen_crc(s1);
    let c2 = spec_gen_crc(s2);
    if t == spec_plain_crc_bytes(c2) {
        crate::common::lemma_u32_le_round_trip(c1);
        crate::common::lemma_u32_le_round_trip(c2);
        assert(spec_u32_from_le_bytes(spec_plain_crc_bytes(c1)) == c1);
        assert(spec_u32_from_le_bytes(spec_plain_crc_bytes(c2)) == c2);
        assert(false);
    }
}

} // verus!
