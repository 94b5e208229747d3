//! Carry-less (GF(2) polynomial) multiplication of 128-bit words.
use vstd::prelude::*;

use crate::vector::{lane64, lemma_from_lanes64, u128_bytes, Vector};
use crate::x86::X86Ops;

verus! {

/// Bit `i` of `x` is set.
pub open spec fn bit(x: u128, i: u128) -> bool {
    (x >> i) & 1u128 == 1u128
}

/// The carry-less product of `a` with the lowest `n` bits of `b`, kept to
/// 128 bits: the exclusive or of `a << i` over every set bit `i < n` of `b`.
pub open spec fn clmul_upto(a: u128, b: u128, n: nat) -> u128
    decreases n,
{
    if n == 0 {
        0
    } else {
        let i = (n - 1) as u128;
        let prev = clmul_upto(a, b, (n - 1) as nat);
        if bit(b, i) {
            prev ^ (a << i)
        } else {
            prev
        }
    }
}

/// The carry-less product of `a` and `b` in GF(2)[x], kept to 128 bits.
pub open spec fn clmul(a: u128, b: u128) -> u128 {
    clmul_upto(a, b, 128)
}

pub proof fn lemma_shl_zero(a: u128)
    by (bit_vector)
    ensures
        a << 0u128 == a,
{
}

pub proof fn lemma_shr_zero(b: u128)
    by (bit_vector)
    ensures
        b >> 0u128 == b,
{
}

/// Shifting left by `i` and then by one is shifting left by `i + 1`.
pub proof fn lemma_shl_step(a: u128, i: u128)
    by (bit_vector)
    requires
        i < 128,
    ensures
        (a << i) << 1u128 == a << ((i + 1) as u128),
{
}

/// Shifting right by `i` and then by one is shifting right by `i + 1`.
pub proof fn lemma_shr_step(b: u128, i: u128)
    by (bit_vector)
    requires
        i < 128,
    ensures
        (b >> i) >> 1u128 == b >> ((i + 1) as u128),
{
}

/// The low bit of a word is set exactly when it is not clear.
pub proof fn lemma_low_bit(y: u128)
    by (bit_vector)
    ensures
        (y & 1u128 != 0u128) == (y & 1u128 == 1u128),
{
}

/// A word shifted right by its width is zero.
pub proof fn lemma_shr_width(b: u128)
    by (bit_vector)
    ensures
        b >> 128u128 == 0u128,
{
}

/// Once `b >> i` is zero, no bit at or above `i` is set.
pub proof fn lemma_no_bits_above(b: u128, i: u128, j: u128)
    by (bit_vector)
    requires
        b >> i == 0u128,
        i <= j,
    ensures
        (b >> j) & 1u128 == 0u128,
{
}

/// Bits of `b` at or above `i` add nothing to the product when `b >> i` is zero.
pub proof fn lemma_clmul_upto_rest(a: u128, b: u128, i: nat, n: nat)
    requires
        i <= n <= 128,
        b >> (i as u128) == 0u128,
    ensures
        clmul_upto(a, b, n) == clmul_upto(a, b, i),
    decreases n,
{
    if n > i {
        lemma_clmul_upto_rest(a, b, i, (n - 1) as nat);
        lemma_no_bits_above(b, i as u128, (n - 1) as u128);
    }
}

// ---------------------------------------------------------------------------
// Bit k of a product: the parity of the pairs of set bits whose positions
// add up to k
// ---------------------------------------------------------------------------

/// Term `i` of the sum that gives bit `k` of the product of `a` and `b`:
/// bit `i` of `b` and bit `k - i` of `a` are both set.
pub open spec fn conv_term(a: u128, b: u128, k: int, i: int) -> bool {
    0 <= i <= k && bit(b, i as u128) && bit(a, (k - i) as u128)
}

/// The parity of the terms `lo <= i < hi` for bit `k`.
pub open spec fn conv_parity(a: u128, b: u128, k: int, lo: int, hi: int) -> bool
    decreases hi - lo,
{
    if hi <= lo {
        false
    } else {
        conv_parity(a, b, k, lo, hi - 1) != conv_term(a, b, k, hi - 1)
    }
}

proof fn lemma_bit_zero(k: u128)
    by (bit_vector)
    ensures
        (0u128 >> k) & 1u128 != 1u128,
{
}

proof fn lemma_bit_xor(x: u128, y: u128, k: u128)
    by (bit_vector)
    ensures
        (((x ^ y) >> k) & 1u128 == 1u128) == (((x >> k) & 1u128 == 1u128) != ((y >> k) & 1u128
            == 1u128)),
{
}

proof fn lemma_bit_shl_below(a: u128, i: u128, k: u128)
    by (bit_vector)
    requires
        k < i,
        i < 128,
    ensures
        ((a << i) >> k) & 1u128 == 0u128,
{
}

proof fn lemma_bit_shl_above(a: u128, i: u128, k: u128, d: u128)
    by (bit_vector)
    requires
        i <= k,
        k < 128,
        d == k - i,
    ensures
        ((a << i) >> k) & 1u128 == (a >> d) & 1u128,
{
}

/// Bit `k` of `a << i` is bit `k - i` of `a`, and clear below `i`.
proof fn lemma_bit_shl(a: u128, i: u128, k: u128)
    requires
        i < 128,
        k < 128,
    ensures
        bit(a << i, k) == (i <= k && bit(a, (k - i) as u128)),
{
    if k < i {
        lemma_bit_shl_below(a, i, k);
    } else {
        lemma_bit_shl_above(a, i, k, (k - i) as u128);
    }
}

/// Bit `k` of the partial product over the lowest `n` bits of `b` is the
/// parity of the terms `0 <= i < n`.
proof fn lemma_bit_clmul_upto(a: u128, b: u128, k: int, n: nat)
    requires
        0 <= k < 128,
        n <= 128,
    ensures
        bit(clmul_upto(a, b, n), k as u128) == conv_parity(a, b, k, 0, n as int),
    decreases n,
{
    if n == 0 {
        lemma_bit_zero(k as u128);
    } else {
        let i = (n - 1) as u128;
        lemma_bit_clmul_upto(a, b, k, (n - 1) as nat);
        lemma_bit_shl(a, i, k as u128);
        let prev = clmul_upto(a, b, (n - 1) as nat);
        lemma_bit_xor(prev, a << i, k as u128);
    }
}

/// Splitting off the lowest term of a parity.
proof fn lemma_parity_low(a: u128, b: u128, k: int, lo: int, hi: int)
    requires
        lo < hi,
    ensures
        conv_parity(a, b, k, lo, hi) == (conv_term(a, b, k, lo) != conv_parity(
            a,
            b,
            k,
            lo + 1,
            hi,
        )),
    decreases hi - lo,
{
    if hi > lo + 1 {
        lemma_parity_low(a, b, k, lo, hi - 1);
        assert(conv_parity(a, b, k, lo + 1, hi) == (conv_parity(a, b, k, lo + 1, hi - 1)
            != conv_term(a, b, k, hi - 1)));
    } else {
        assert(conv_parity(a, b, k, lo, lo) == false);
        assert(conv_parity(a, b, k, lo + 1, hi) == false);
    }
}

/// Terms past `k` are all clear, so they do not change the parity.
proof fn lemma_parity_past_k(a: u128, b: u128, k: int, n: int)
    requires
        0 <= k,
        k + 1 <= n,
    ensures
        conv_parity(a, b, k, 0, n) == conv_parity(a, b, k, 0, k + 1),
    decreases n,
{
    if n > k + 1 {
        lemma_parity_past_k(a, b, k, n - 1);
    }
}

/// Reading the terms from the other end, with the roles of `a` and `b`
/// exchanged, gives the same parity.
proof fn lemma_parity_reflect(a: u128, b: u128, k: int, lo: int, hi: int)
    requires
        0 <= lo <= hi <= k + 1,
    ensures
        conv_parity(a, b, k, lo, hi) == conv_parity(b, a, k, k + 1 - hi, k + 1 - lo),
    decreases hi - lo,
{
    if lo < hi {
        lemma_parity_reflect(a, b, k, lo, hi - 1);
        lemma_parity_low(b, a, k, k + 1 - hi, k + 1 - lo);
        assert(conv_term(a, b, k, hi - 1) == conv_term(b, a, k, k + 1 - hi));
    }
}

proof fn lemma_shr_eq_step(x: u128, y: u128, k: u128)
    by (bit_vector)
    requires
        k < 128,
        x >> ((k + 1) as u128) == y >> ((k + 1) as u128),
        ((x >> k) & 1u128 == 1u128) == ((y >> k) & 1u128 == 1u128),
    ensures
        x >> k == y >> k,
{
}

/// Words that agree on every bit at or above `k` agree after a shift by `k`.
proof fn lemma_shr_eq(x: u128, y: u128, k: int)
    requires
        0 <= k <= 128,
        forall|j: int| k <= j < 128 ==> #[trigger] bit(x, j as u128) == bit(y, j as u128),
    ensures
        x >> (k as u128) == y >> (k as u128),
    decreases 128 - k,
{
    if k == 128 {
        lemma_shr_width(x);
        lemma_shr_width(y);
    } else {
        lemma_shr_eq(x, y, k + 1);
        assert(bit(x, k as u128) == bit(y, k as u128));
        lemma_shr_eq_step(x, y, k as u128);
    }
}

/// Words that agree on every bit are equal.
pub proof fn lemma_bits_eq(x: u128, y: u128)
    requires
        forall|j: int| 0 <= j < 128 ==> #[trigger] bit(x, j as u128) == bit(y, j as u128),
    ensures
        x == y,
{
    lemma_shr_eq(x, y, 0);
    lemma_shr_zero(x);
    lemma_shr_zero(y);
}

/// Carry-less multiplication is commutative: `a * b == b * a` in GF(2)[x],
/// kept to 128 bits.
pub proof fn lemma_clmul_commutative(a: u128, b: u128)
    ensures
        clmul(a, b) == clmul(b, a),
{
    assert forall|k: int| 0 <= k < 128 implies #[trigger] bit(clmul(a, b), k as u128) == bit(
        clmul(b, a),
        k as u128,
    ) by {
        lemma_bit_clmul_upto(a, b, k, 128);
        lemma_bit_clmul_upto(b, a, k, 128);
        lemma_parity_past_k(a, b, k, 128);
        lemma_parity_past_k(b, a, k, 128);
        lemma_parity_reflect(a, b, k, 0, k + 1);
    }
    lemma_bits_eq(clmul(a, b), clmul(b, a));
}

/// The terms for `b1 ^ b2` are the exclusive or of those for `b1` and `b2`.
proof fn lemma_parity_xor(a: u128, b1: u128, b2: u128, k: int, lo: int, hi: int)
    requires
        0 <= k < 128,
    ensures
        conv_parity(a, b1 ^ b2, k, lo, hi) == (conv_parity(a, b1, k, lo, hi) != conv_parity(
            a,
            b2,
            k,
            lo,
            hi,
        )),
    decreases hi - lo,
{
    if lo < hi {
        lemma_parity_xor(a, b1, b2, k, lo, hi - 1);
        let i = hi - 1;
        if 0 <= i <= k {
            lemma_bit_xor(b1, b2, i as u128);
        }
    }
}

/// Carry-less multiplication distributes over exclusive or, which is addition
/// in GF(2)[x]: `a * (b1 + b2) == a * b1 + a * b2`.
pub proof fn lemma_clmul_distributes(a: u128, b1: u128, b2: u128)
    ensures
        clmul(a, b1 ^ b2) == clmul(a, b1) ^ clmul(a, b2),
{
    assert forall|k: int| 0 <= k < 128 implies #[trigger] bit(clmul(a, b1 ^ b2), k as u128) == bit(
        clmul(a, b1) ^ clmul(a, b2),
        k as u128,
    ) by {
        lemma_bit_clmul_upto(a, b1 ^ b2, k, 128);
        lemma_bit_clmul_upto(a, b1, k, 128);
        lemma_bit_clmul_upto(a, b2, k, 128);
        lemma_parity_xor(a, b1, b2, k, 0, 128);
        lemma_bit_xor(clmul(a, b1), clmul(a, b2), k as u128);
    }
    lemma_bits_eq(clmul(a, b1 ^ b2), clmul(a, b1) ^ clmul(a, b2));
}

proof fn lemma_bit_of_power(i: u128, j: u128)
    by (bit_vector)
    requires
        i < 128,
        j < 128,
    ensures
        ((((1u128 << i) >> j) & 1u128) == 1u128) == (i == j),
{
}

/// With a single set bit at `i` in `b`, the parity is term `i` alone.
proof fn lemma_parity_single(a: u128, i: int, k: int, n: int)
    requires
        0 <= i < 128,
        0 <= k < 128,
        0 <= n <= 128,
    ensures
        conv_parity(a, 1u128 << (i as u128), k, 0, n) == (i < n && conv_term(
            a,
            1u128 << (i as u128),
            k,
            i,
        )),
    decreases n,
{
    if n > 0 {
        lemma_parity_single(a, i, k, n - 1);
        if 0 <= n - 1 <= k {
            lemma_bit_of_power(i as u128, (n - 1) as u128);
        }
    }
}

/// Multiplying by `x^i` (the word with only bit `i` set) is shifting left by
/// `i`; in particular multiplying by one changes nothing.
pub proof fn lemma_clmul_power_of_two(a: u128, i: u128)
    requires
        i < 128,
    ensures
        clmul(a, 1u128 << i) == a << i,
{
    assert forall|k: int| 0 <= k < 128 implies #[trigger] bit(clmul(a, 1u128 << i), k as u128)
        == bit(a << i, k as u128) by {
        lemma_bit_clmul_upto(a, 1u128 << i, k, 128);
        lemma_parity_single(a, i as int, k, 128);
        lemma_bit_shl(a, i, k as u128);
        if i as int <= k {
            lemma_bit_of_power(i, i);
        }
    }
    lemma_bits_eq(clmul(a, 1u128 << i), a << i);
}

/// A parity of terms that are all clear is clear.
proof fn lemma_parity_clear(a: u128, b: u128, k: int, lo: int, hi: int)
    requires
        forall|i: int| lo <= i < hi ==> !conv_term(a, b, k, i),
    ensures
        !conv_parity(a, b, k, lo, hi),
    decreases hi - lo,
{
    if lo < hi {
        lemma_parity_clear(a, b, k, lo, hi - 1);
    }
}

proof fn lemma_high_bits_clear(a: u128, j: u128)
    by (bit_vector)
    requires
        a >> 64u128 == 0u128,
        64 <= j,
    ensures
        (a >> j) & 1u128 != 1u128,
{
}

proof fn lemma_top_bit_clear(x: u128)
    by (bit_vector)
    requires
        (x >> 127u128) & 1u128 != 1u128,
    ensures
        x >> 127u128 == 0u128,
{
}

/// The carry-less product of two 64-bit polynomials has degree at most 126:
/// it fits in 127 bits, so nothing was cut off at 128 bits.
pub proof fn lemma_clmul_64_degree(a: u128, b: u128)
    requires
        a >> 64u128 == 0u128,
        b >> 64u128 == 0u128,
    ensures
        clmul(a, b) >> 127u128 == 0u128,
{
    assert forall|i: int| 0 <= i < 128 implies !#[trigger] conv_term(a, b, 127, i) by {
        if i >= 64 {
            lemma_high_bits_clear(b, i as u128);
        } else {
            lemma_high_bits_clear(a, (127 - i) as u128);
        }
    }
    lemma_parity_clear(a, b, 127, 0, 128);
    lemma_bit_clmul_upto(a, b, 127, 128);
    lemma_top_bit_clear(clmul(a, b));
}

/// The vector holding the carry-less product of 64-bit lane `imm & 0x01` of
/// `a` and 64-bit lane `imm & 0x10` of `b` (lane 1 where the bit is set, else
/// lane 0).
pub open spec fn clmul_lanes_spec(a: Seq<u8>, b: Seq<u8>, imm: u8) -> Seq<u8> {
    let x = lane64(a, if imm & 0x01u8 != 0 { 1 } else { 0 });
    let y = lane64(b, if imm & 0x10u8 != 0 { 1 } else { 0 });
    u128_bytes(clmul(x as u128, y as u128))
}

proof fn lemma_u64_widened(x: u64)
    by (bit_vector)
    ensures
        (x as u128) >> 64u128 == 0u128,
{
}

proof fn lemma_high_half_top_bit(x: u128)
    by (bit_vector)
    requires
        x >> 127u128 == 0u128,
    ensures
        ((x >> 64u128) as u64) >> 63u64 == 0u64,
{
}

/// The operands of a carry-less lane product may be exchanged:
/// `carryless_mul_01(a, b)` equals `carryless_mul_10(b, a)`, and
/// `carryless_mul_00` and `carryless_mul_11` give the same result either way
/// round.
pub proof fn lemma_clmul_lanes_swap(a: Seq<u8>, b: Seq<u8>)
    ensures
        clmul_lanes_spec(a, b, 0x01) == clmul_lanes_spec(b, a, 0x10),
        clmul_lanes_spec(a, b, 0x00) == clmul_lanes_spec(b, a, 0x00),
        clmul_lanes_spec(a, b, 0x11) == clmul_lanes_spec(b, a, 0x11),
{
    assert(0x01u8 & 0x01u8 != 0 && 0x01u8 & 0x10u8 == 0 && 0x10u8 & 0x01u8 == 0 && 0x10u8 & 0x10u8
        != 0 && 0x00u8 & 0x01u8 == 0 && 0x00u8 & 0x10u8 == 0 && 0x11u8 & 0x01u8 != 0 && 0x11u8
        & 0x10u8 != 0) by (bit_vector);
    lemma_clmul_commutative(lane64(a, 1) as u128, lane64(b, 0) as u128);
    lemma_clmul_commutative(lane64(a, 0) as u128, lane64(b, 0) as u128);
    lemma_clmul_commutative(lane64(a, 1) as u128, lane64(b, 1) as u128);
}

/// The product of two 64-bit lanes never sets the top bit of the result:
/// a carry-less product of two 64-bit polynomials has degree at most 126.
pub proof fn lemma_clmul_lanes_top_bit(a: Seq<u8>, b: Seq<u8>, imm: u8)
    ensures
        lane64(clmul_lanes_spec(a, b, imm), 1) >> 63u64 == 0u64,
{
    let x = lane64(a, if imm & 0x01u8 != 0 { 1 } else { 0 });
    let y = lane64(b, if imm & 0x10u8 != 0 { 1 } else { 0 });
    let p = clmul(x as u128, y as u128);
    lemma_u64_widened(x);
    lemma_u64_widened(y);
    lemma_clmul_64_degree(x as u128, y as u128);
    lemma_from_lanes64(p as u64, (p >> 64u128) as u64);
    lemma_high_half_top_bit(p);
}

/// The bits of the four lane selectors.
pub proof fn lemma_selector_bits()
    ensures
        0x00u8 & 0x01u8 == 0,
        0x00u8 & 0x10u8 == 0,
        0x01u8 & 0x01u8 != 0,
        0x01u8 & 0x10u8 == 0,
        0x10u8 & 0x01u8 == 0,
        0x10u8 & 0x10u8 != 0,
        0x11u8 & 0x01u8 != 0,
        0x11u8 & 0x10u8 != 0,
{
    assert(0x00u8 & 0x01u8 == 0 && 0x00u8 & 0x10u8 == 0 && 0x01u8 & 0x01u8 != 0 && 0x01u8 & 0x10u8
        == 0 && 0x10u8 & 0x01u8 == 0 && 0x10u8 & 0x10u8 != 0 && 0x11u8 & 0x01u8 != 0 && 0x11u8
        & 0x10u8 != 0) by (bit_vector);
}

/// The lanes of a lane product: the low 64 bits of the carry-less product of
/// the chosen lanes, then the high 64 bits.
pub proof fn lemma_clmul_lanes_value(a: Seq<u8>, b: Seq<u8>, imm: u8)
    ensures
        clmul_lanes_spec(a, b, imm).len() == 16,
        lane64(clmul_lanes_spec(a, b, imm), 0) == clmul(
            lane64(a, if imm & 0x01u8 != 0 { 1 } else { 0 }) as u128,
            lane64(b, if imm & 0x10u8 != 0 { 1 } else { 0 }) as u128,
        ) as u64,
        lane64(clmul_lanes_spec(a, b, imm), 1) == (clmul(
            lane64(a, if imm & 0x01u8 != 0 { 1 } else { 0 }) as u128,
            lane64(b, if imm & 0x10u8 != 0 { 1 } else { 0 }) as u128,
        ) >> 64u128) as u64,
{
    let x = lane64(a, if imm & 0x01u8 != 0 { 1 } else { 0 });
    let y = lane64(b, if imm & 0x10u8 != 0 { 1 } else { 0 });
    let p = clmul(x as u128, y as u128);
    lemma_from_lanes64(p as u64, (p >> 64u128) as u64);
}

impl Vector {
    /// `_mm_clmulepi64_si128`: carry-less product of one 64-bit lane of
    /// `self` and one of `other`, chosen by bits 0 and 4 of `imm`.
    pub fn clmul_lanes(self, other: Vector, imm: u8) -> (r: Vector)
        ensures
            r@ == clmul_lanes_spec(self@, other@, imm),
            lane64(r@, 0) == clmul(
                lane64(self@, if imm & 0x01u8 != 0 { 1 } else { 0 }) as u128,
                lane64(other@, if imm & 0x10u8 != 0 { 1 } else { 0 }) as u128,
            ) as u64,
            lane64(r@, 1) == (clmul(
                lane64(self@, if imm & 0x01u8 != 0 { 1 } else { 0 }) as u128,
                lane64(other@, if imm & 0x10u8 != 0 { 1 } else { 0 }) as u128,
            ) >> 64u128) as u64,
    {
        proof {
            lemma_clmul_lanes_value(self@, other@, imm);
        }
        let a = self.to_u64_lanes();
        let b = other.to_u64_lanes();
        let x = if imm & 0x01 != 0 {
            a[1]
        } else {
            a[0]
        };
        let y = if imm & 0x10 != 0 {
            b[1]
        } else {
            b[0]
        };
        Vector::from_u128(X86Ops::carryless_multiply_64(x as u128, y as u128))
    }
}

} // verus!
