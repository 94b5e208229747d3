//! The x86 (SSE2 / SSSE3 / SSE4.1 / PCLMULQDQ) vector operations.
use vstd::prelude::*;

use crate::clmul::{
    clmul,
    lemma_clmul_lanes_value,
    lemma_selector_bits,
    clmul_lanes_spec,
    clmul_upto,
    lemma_clmul_upto_rest,
    lemma_low_bit,
    lemma_shl_step,
    lemma_shl_zero,
    lemma_shr_step,
    lemma_shr_width,
    lemma_shr_zero,
};
use crate::vector::{
    and_spec,
    blend_spec,
    from_lanes32,
    from_lanes64,
    lane32,
    lane64,
    lemma_from_lanes32,
    lemma_from_lanes64,
    lemma_u64_le_value,
    shift_left_spec,
    shift_right_spec,
    shuffle_spec,
    splat_spec,
    u128_bytes,
    u32_bytes,
    u32_le,
    u64_bytes,
    u64_le,
    xor_spec,
    lemma_blend_selects,
    lemma_shift_8_lanes,
    lemma_shuffle_selects,
    Vector,
};

verus! {

/// The instruction set extensions found on the running processor.
#[derive(Debug, Copy, Clone)]
pub struct CpuFeatures {
    pub sse2: bool,
    pub ssse3: bool,
    pub sse41: bool,
    pub pclmulqdq: bool,
}

/// The vector operations on x86 and x86_64, dispatching on the processor's
/// instruction set extensions.
#[derive(Debug, Copy, Clone)]
pub struct X86Ops {
    pub features: CpuFeatures,
}

/// Lane 0 of a vector shifted right by eight bytes is lane 1 of the vector.
proof fn lemma_high_lane_shifted(s: Seq<u8>)
    requires
        s.len() == 16,
    ensures
        lane64(shift_right_spec(s, 8), 0) == lane64(s, 1),
{
    assert(shift_right_spec(s, 8).subrange(0, 8) =~= s.subrange(8, 16));
}

/// The bytes of a zero 32-bit lane.
proof fn lemma_u32_bytes_zero()
    ensures
        u32_bytes(0) == seq![0u8, 0u8, 0u8, 0u8],
{
    assert(0u32 & 0xff == 0 && (0u32 >> 8u32) & 0xff == 0 && (0u32 >> 16u32) & 0xff == 0 && (0u32
        >> 24u32) & 0xff == 0) by (bit_vector);
    assert(u32_bytes(0) =~= seq![0u8, 0u8, 0u8, 0u8]);
}

/// The bytes of a `u64` are those of its low 32-bit half, then of its high half.
proof fn lemma_u64_split_bytes(x: u64)
    ensures
        u64_bytes(x) == u32_bytes((x & 0xFFFFFFFF) as u32) + u32_bytes((x >> 32u64) as u32),
{
    let lo = (x & 0xFFFFFFFF) as u32;
    let hi = (x >> 32u64) as u32;
    assert((x & 0xff) as u8 == (lo & 0xff) as u8 && ((x >> 8u64) & 0xff) as u8 == ((lo >> 8u32)
        & 0xff) as u8 && ((x >> 16u64) & 0xff) as u8 == ((lo >> 16u32) & 0xff) as u8 && ((x
        >> 24u64) & 0xff) as u8 == ((lo >> 24u32) & 0xff) as u8 && ((x >> 32u64) & 0xff) as u8 == (
    hi & 0xff) as u8 && ((x >> 40u64) & 0xff) as u8 == ((hi >> 8u32) & 0xff) as u8 && ((x
        >> 48u64) & 0xff) as u8 == ((hi >> 16u32) & 0xff) as u8 && ((x >> 56u64) & 0xff) as u8 == ((
    hi >> 24u32) & 0xff) as u8) by (bit_vector)
        requires
            lo == (x & 0xFFFFFFFF) as u32,
            hi == (x >> 32u64) as u32,
    ;
    assert(u64_bytes(x) =~= u32_bytes(lo) + u32_bytes(hi));
}

/// Eight little-endian bytes read as a `u64` are their high four bytes, read
/// as a `u32`, above their low four.
proof fn lemma_u64_join_halves(s: Seq<u8>)
    requires
        s.len() == 8,
    ensures
        u64_le(s) == ((u32_le(s.subrange(4, 8)) as u64) << 32u64) | (u32_le(s.subrange(0, 4)) as u64),
{
    let (b0, b1, b2, b3, b4, b5, b6, b7) = (s[0], s[1], s[2], s[3], s[4], s[5], s[6], s[7]);
    assert(u32_le(s.subrange(0, 4)) == (b0 as u32) | ((b1 as u32) << 8u32) | ((b2 as u32) << 16u32)
        | ((b3 as u32) << 24u32));
    assert(u32_le(s.subrange(4, 8)) == (b4 as u32) | ((b5 as u32) << 8u32) | ((b6 as u32) << 16u32)
        | ((b7 as u32) << 24u32));
    assert((b0 as u64) | ((b1 as u64) << 8u64) | ((b2 as u64) << 16u64) | ((b3 as u64) << 24u64) | ((
    b4 as u64) << 32u64) | ((b5 as u64) << 40u64) | ((b6 as u64) << 48u64) | ((b7 as u64) << 56u64)
        == ((((b4 as u32) | ((b5 as u32) << 8u32) | ((b6 as u32) << 16u32) | ((b7 as u32) << 24u32))
        as u64) << 32u64) | (((b0 as u32) | ((b1 as u32) << 8u32) | ((b2 as u32) << 16u32) | ((
    b3 as u32) << 24u32)) as u64)) by (bit_vector);
}

impl X86Ops {
    // -----------------------------------------------------------------------
    // The vector operations
    // -----------------------------------------------------------------------
    /// The vector with lanes `high` and `low`: `low` in the low 64-bit lane
    /// unless `reflected`, in which case the two are swapped.
    pub fn create_vector_from_u64_pair(&self, high: u64, low: u64, reflected: bool) -> (r: Vector)
        ensures
            r@ == if reflected {
                from_lanes64(high, low)
            } else {
                from_lanes64(low, high)
            },
            lane64(r@, 0) == if reflected { high } else { low },
            lane64(r@, 1) == if reflected { low } else { high },
    {
        proof {
            lemma_from_lanes64(low, high);
            lemma_from_lanes64(high, low);
        }
        // Note order is different from AArch64
        if reflected {
            Self::set_epi64x(low, high)
        } else {
            Self::set_epi64x(high, low)
        }
    }

    /// The vector with `low` in the low 64-bit lane and `high` in the high one.
    pub fn create_vector_from_u64_pair_non_reflected(&self, high: u64, low: u64) -> (r: Vector)
        ensures
            r@ == from_lanes64(low, high),
            lane64(r@, 0) == low,
            lane64(r@, 1) == high,
    {
        proof {
            lemma_from_lanes64(low, high);
        }
        // Note order is different from AArch64
        Self::set_epi64x(high, low)
    }

    /// `value` in the high 64-bit lane if `high`, else in the low one.
    pub fn create_vector_from_u64(&self, value: u64, high: bool) -> (r: Vector)
        ensures
            r@ == if high {
                from_lanes64(0, value)
            } else {
                from_lanes64(value, 0)
            },
            lane64(r@, 0) == if high { 0 } else { value },
            lane64(r@, 1) == if high { value } else { 0 },
    {
        proof {
            lemma_from_lanes64(0, value);
            lemma_from_lanes64(value, 0);
        }
        // x86 uses custom helper
        Self::create_u64_vector(value, high)
    }

    /// The two 64-bit lanes, low first.
    pub fn extract_u64s(&self, vector: Vector) -> (r: [u64; 2])
        ensures
            r[0] == lane64(vector@, 0),
            r[1] == lane64(vector@, 1),
            r[0] == vector@[0] + 0x100 * vector@[1] + 0x1_0000 * vector@[2] + 0x100_0000 * vector@[3] + 0x1_0000_0000 * vector@[4] + 0x100_0000_0000 * vector@[5] + 0x1_0000_0000_0000 * vector@[6] + 0x100_0000_0000_0000 * vector@[7],
            r[1] == vector@[8] + 0x100 * vector@[9] + 0x1_0000 * vector@[10] + 0x100_0000 * vector@[11] + 0x1_0000_0000 * vector@[12] + 0x100_0000_0000 * vector@[13] + 0x1_0000_0000_0000 * vector@[14] + 0x100_0000_0000_0000 * vector@[15],
    {
        proof {
            lemma_u64_le_value(vector@.subrange(0, 8));
            lemma_u64_le_value(vector@.subrange(8, 16));
        }
        [Self::extract_u64_low(vector), Self::extract_u64_high(vector)]
    }

    /// The two 64-bit polynomial lanes, low first; on x86 the same as
    /// `extract_u64s`.
    pub fn extract_poly64s(&self, vector: Vector) -> (r: [u64; 2])
        ensures
            r[0] == lane64(vector@, 0),
            r[1] == lane64(vector@, 1),
            r[0] == vector@[0] + 0x100 * vector@[1] + 0x1_0000 * vector@[2] + 0x100_0000 * vector@[3] + 0x1_0000_0000 * vector@[4] + 0x100_0000_0000 * vector@[5] + 0x1_0000_0000_0000 * vector@[6] + 0x100_0000_0000_0000 * vector@[7],
            r[1] == vector@[8] + 0x100 * vector@[9] + 0x1_0000 * vector@[10] + 0x100_0000 * vector@[11] + 0x1_0000_0000 * vector@[12] + 0x100_0000_0000 * vector@[13] + 0x1_0000_0000_0000 * vector@[14] + 0x100_0000_0000_0000 * vector@[15],
    {
        proof {
            lemma_u64_le_value(vector@.subrange(0, 8));
            lemma_u64_le_value(vector@.subrange(8, 16));
        }
        // On x86, poly64s and u64s extraction is the same
        self.extract_u64s(vector)
    }

    /// Bytewise exclusive or.
    pub fn xor_vectors(&self, a: Vector, b: Vector) -> (r: Vector)
        ensures
            r@ == xor_spec(a@, b@),
            r@.len() == 16,
            forall|i: int| 0 <= i < 16 ==> r@[i] == a@[i] ^ b@[i],
    {
        a.xor(b)
    }

    /// The first sixteen bytes of `bytes`, as an unaligned load reads them.
    pub fn load_bytes(&self, bytes: &[u8]) -> (r: Vector)
        requires
            bytes@.len() >= 16,
        ensures
            r@ == bytes@.subrange(0, 16),
    {
        let mut out = [0u8; 16];
        for i in 0..16
            invariant
                bytes@.len() >= 16,
                out@.len() == 16,
                forall|j: int| 0 <= j < i ==> out@[j] == bytes@[j],
        {
            out[i] = bytes[i];
        }
        assert(out@ =~= bytes@.subrange(0, 16));
        Vector { bytes: out }
    }

    /// The vector that holds the pair `lanes` as it lies in memory.
    pub fn load_aligned(&self, lanes: &[u64; 2]) -> (r: Vector)
        ensures
            r@ == from_lanes64(lanes[0], lanes[1]),
            lane64(r@, 0) == lanes[0],
            lane64(r@, 1) == lanes[1],
    {
        proof {
            lemma_from_lanes64(lanes[0], lanes[1]);
        }
        Vector::from_u64_lanes(*lanes)
    }

    /// Byte shuffle (`pshufb`), with the SSSE3 instruction where there is one.
    pub fn shuffle_bytes(&self, data: Vector, mask: Vector) -> (r: Vector)
        ensures
            r@ == shuffle_spec(data@, mask@),
            r@.len() == 16,
            forall|i: int| 0 <= i < 16 && mask@[i] & 0x80u8 != 0 ==> r@[i] == 0,
            forall|i: int|
                0 <= i < 16 && mask@[i] & 0x80u8 == 0 ==> r@[i] == data@[(mask@[i] & 0x0fu8) as int],
    {
        proof {
            lemma_shuffle_selects(data@, mask@);
        }
        // x86 uses specific SSSE3 instruction
        if self.features.ssse3 {
            Self::shuffle_bytes_ssse3(data, mask)
        } else {
            Self::shuffle_bytes_fallback(data, mask)
        }
    }

    /// Bytewise select by bit 7 of each mask byte: `b` where set, `a` elsewhere.
    pub fn blend_vectors(&self, a: Vector, b: Vector, mask: Vector) -> (r: Vector)
        ensures
            r@ == blend_spec(a@, b@, mask@),
            r@.len() == 16,
            forall|i: int| 0 <= i < 16 && mask@[i] & 0x80u8 != 0 ==> r@[i] == b@[i],
            forall|i: int| 0 <= i < 16 && mask@[i] & 0x80u8 == 0 ==> r@[i] == a@[i],
    {
        proof {
            lemma_blend_selects(a@, b@, mask@);
        }
        // x86 has native blend that uses MSB automatically
        if self.features.sse41 {
            Self::blend_vectors_sse41(a, b, mask)
        } else if self.features.sse2 {
            Self::blend_vectors_sse2(a, b, mask)
        } else {
            Self::blend_vectors_fallback(a, b, mask)
        }
    }

    /// Shift the vector left by 4 bytes.
    pub fn shift_left_4(&self, v: Vector) -> (r: Vector)
        ensures
            r@ == shift_left_spec(v@, 4),
            r@.len() == 16,
            forall|i: int| 0 <= i < 16 && 4 <= i ==> r@[i] == v@[i - 4],
            forall|i: int| 0 <= i < 4 ==> r@[i] == 0,
    {
        v.shift_bytes_left(4)
    }

    /// Shift the vector left by 8 bytes.
    pub fn shift_left_8(&self, v: Vector) -> (r: Vector)
        ensures
            r@ == shift_left_spec(v@, 8),
            r@.len() == 16,
            forall|i: int| 0 <= i < 16 && 8 <= i ==> r@[i] == v@[i - 8],
            forall|i: int| 0 <= i < 8 ==> r@[i] == 0,
            lane64(r@, 1) == lane64(v@, 0),
            lane64(r@, 0) == 0,
    {
        proof {
            lemma_shift_8_lanes(v@);
        }
        v.shift_bytes_left(8)
    }

    /// Shift the vector left by 12 bytes.
    pub fn shift_left_12(&self, v: Vector) -> (r: Vector)
        ensures
            r@ == shift_left_spec(v@, 12),
            r@.len() == 16,
            forall|i: int| 0 <= i < 16 && 12 <= i ==> r@[i] == v@[i - 12],
            forall|i: int| 0 <= i < 12 ==> r@[i] == 0,
    {
        v.shift_bytes_left(12)
    }

    /// Shift the vector left by 32 bits (4 bytes).
    pub fn shift_left_32(&self, v: Vector) -> (r: Vector)
        ensures
            r@ == shift_left_spec(v@, 4),
            r@.len() == 16,
            forall|i: int| 0 <= i < 16 && 4 <= i ==> r@[i] == v@[i - 4],
            forall|i: int| 0 <= i < 4 ==> r@[i] == 0,
    {
        v.shift_bytes_left(4)  // 4-byte == 32-bit
    }

    /// Shift the vector right by 4 bytes.
    pub fn shift_right_4(&self, v: Vector) -> (r: Vector)
        ensures
            r@ == shift_right_spec(v@, 4),
            r@.len() == 16,
            forall|i: int| 0 <= i < 12 ==> r@[i] == v@[i + 4],
            forall|i: int| 12 <= i < 16 ==> r@[i] == 0,
    {
        v.shift_bytes_right(4)
    }

    /// Shift the vector right by 5 bytes.
    pub fn shift_right_5(&self, v: Vector) -> (r: Vector)
        ensures
            r@ == shift_right_spec(v@, 5),
            r@.len() == 16,
            forall|i: int| 0 <= i < 11 ==> r@[i] == v@[i + 5],
            forall|i: int| 11 <= i < 16 ==> r@[i] == 0,
    {
        v.shift_bytes_right(5)
    }

    /// Shift the vector right by 6 bytes.
    pub fn shift_right_6(&self, v: Vector) -> (r: Vector)
        ensures
            r@ == shift_right_spec(v@, 6),
            r@.len() == 16,
            forall|i: int| 0 <= i < 10 ==> r@[i] == v@[i + 6],
            forall|i: int| 10 <= i < 16 ==> r@[i] == 0,
    {
        v.shift_bytes_right(6)
    }

    /// Shift the vector right by 7 bytes.
    pub fn shift_right_7(&self, v: Vector) -> (r: Vector)
        ensures
            r@ == shift_right_spec(v@, 7),
            r@.len() == 16,
            forall|i: int| 0 <= i < 9 ==> r@[i] == v@[i + 7],
            forall|i: int| 9 <= i < 16 ==> r@[i] == 0,
    {
        v.shift_bytes_right(7)
    }

    /// Shift the vector right by 8 bytes.
    pub fn shift_right_8(&self, v: Vector) -> (r: Vector)
        ensures
            r@ == shift_right_spec(v@, 8),
            r@.len() == 16,
            forall|i: int| 0 <= i < 8 ==> r@[i] == v@[i + 8],
            forall|i: int| 8 <= i < 16 ==> r@[i] == 0,
            lane64(r@, 0) == lane64(v@, 1),
            lane64(r@, 1) == 0,
    {
        proof {
            lemma_shift_8_lanes(v@);
        }
        v.shift_bytes_right(8)
    }

    /// Shift the vector right by 12 bytes.
    pub fn shift_right_12(&self, v: Vector) -> (r: Vector)
        ensures
            r@ == shift_right_spec(v@, 12),
            r@.len() == 16,
            forall|i: int| 0 <= i < 4 ==> r@[i] == v@[i + 12],
            forall|i: int| 4 <= i < 16 ==> r@[i] == 0,
    {
        v.shift_bytes_right(12)
    }

    /// Shift the vector right by 32 bits (4 bytes).
    pub fn shift_right_32(&self, v: Vector) -> (r: Vector)
        ensures
            r@ == shift_right_spec(v@, 4),
            r@.len() == 16,
            forall|i: int| 0 <= i < 12 ==> r@[i] == v@[i + 4],
            forall|i: int| 12 <= i < 16 ==> r@[i] == 0,
    {
        v.shift_bytes_right(4)  // 4-byte == 32-bit
    }

    /// `value` in the highest 32-bit lane if `high`, else in the lowest; the
    /// other lanes zero.
    pub fn create_vector_from_u32(&self, value: u32, high: bool) -> (r: Vector)
        ensures
            r@ == if high {
                from_lanes32(0, 0, 0, value)
            } else {
                from_lanes32(value, 0, 0, 0)
            },
            lane32(r@, 0) == if high { 0 } else { value },
            lane32(r@, 1) == 0,
            lane32(r@, 2) == 0,
            lane32(r@, 3) == if high { value } else { 0 },
    {
        proof {
            lemma_from_lanes32(0, 0, 0, value);
            lemma_from_lanes32(value, 0, 0, 0);
        }
        if self.features.sse41 {
            Self::create_vector_from_u32_sse41(value, high)
        } else if self.features.sse2 {
            Self::create_vector_from_u32_sse2(value, high)
        } else {
            Self::create_vector_from_u32_fallback(value, high)
        }
    }

    /// Every byte equal to `value`.
    pub fn set_all_bytes(&self, value: u8) -> (r: Vector)
        ensures
            r@ == splat_spec(value),
            r@.len() == 16,
            forall|i: int| 0 <= i < 16 ==> r@[i] == value,
    {
        Vector::splat(value)
    }

    /// The mask that `blend_vectors` reads: on x86 the blend already looks at
    /// bit 7 of each byte, so the vector itself.
    pub fn create_compare_mask(&self, vector: Vector) -> (r: Vector)
        ensures
            r == vector,
    {
        // On x86, MSB is already used for blending, so we just return the vector
        vector
    }

    /// Bytewise and.
    pub fn and_vectors(&self, a: Vector, b: Vector) -> (r: Vector)
        ensures
            r@ == and_spec(a@, b@),
            r@.len() == 16,
            forall|i: int| 0 <= i < 16 ==> r@[i] == a@[i] & b@[i],
    {
        a.and(b)
    }

    /// Carry-less product of the low 64-bit lanes of `a` and `b`.
    pub fn carryless_mul_00(&self, a: Vector, b: Vector) -> (r: Vector)
        ensures
            r@ == clmul_lanes_spec(a@, b@, 0x00),
            lane64(r@, 0) == clmul(lane64(a@, 0) as u128, lane64(b@, 0) as u128) as u64,
            lane64(r@, 1) == (clmul(lane64(a@, 0) as u128, lane64(b@, 0) as u128) >> 64u128) as u64,
    {
        proof {
            lemma_clmul_lanes_value(a@, b@, 0x00);
            lemma_selector_bits();
        }
        if self.features.pclmulqdq {
            Self::carryless_mul_00_hw(a, b)
        } else if self.features.sse2 {
            Self::carryless_mul_sse2(a, b, 0x00)
        } else {
            Self::carryless_mul_fallback(a, b, 0x00)
        }
    }

    /// Carry-less product of the high lane of `a` and the low lane of `b`.
    pub fn carryless_mul_01(&self, a: Vector, b: Vector) -> (r: Vector)
        ensures
            r@ == clmul_lanes_spec(a@, b@, 0x01),
            lane64(r@, 0) == clmul(lane64(a@, 1) as u128, lane64(b@, 0) as u128) as u64,
            lane64(r@, 1) == (clmul(lane64(a@, 1) as u128, lane64(b@, 0) as u128) >> 64u128) as u64,
    {
        proof {
            lemma_clmul_lanes_value(a@, b@, 0x01);
            lemma_selector_bits();
        }
        if self.features.pclmulqdq {
            Self::carryless_mul_01_hw(a, b)
        } else if self.features.sse2 {
            Self::carryless_mul_sse2(a, b, 0x01)
        } else {
            Self::carryless_mul_fallback(a, b, 0x01)
        }
    }

    /// Carry-less product of the low lane of `a` and the high lane of `b`.
    pub fn carryless_mul_10(&self, a: Vector, b: Vector) -> (r: Vector)
        ensures
            r@ == clmul_lanes_spec(a@, b@, 0x10),
            lane64(r@, 0) == clmul(lane64(a@, 0) as u128, lane64(b@, 1) as u128) as u64,
            lane64(r@, 1) == (clmul(lane64(a@, 0) as u128, lane64(b@, 1) as u128) >> 64u128) as u64,
    {
        proof {
            lemma_clmul_lanes_value(a@, b@, 0x10);
            lemma_selector_bits();
        }
        if self.features.pclmulqdq {
            Self::carryless_mul_10_hw(a, b)
        } else if self.features.sse2 {
            Self::carryless_mul_sse2(a, b, 0x10)
        } else {
            Self::carryless_mul_fallback(a, b, 0x10)
        }
    }

    /// Carry-less product of the high 64-bit lanes of `a` and `b`.
    pub fn carryless_mul_11(&self, a: Vector, b: Vector) -> (r: Vector)
        ensures
            r@ == clmul_lanes_spec(a@, b@, 0x11),
            lane64(r@, 0) == clmul(lane64(a@, 1) as u128, lane64(b@, 1) as u128) as u64,
            lane64(r@, 1) == (clmul(lane64(a@, 1) as u128, lane64(b@, 1) as u128) >> 64u128) as u64,
    {
        proof {
            lemma_clmul_lanes_value(a@, b@, 0x11);
            lemma_selector_bits();
        }
        if self.features.pclmulqdq {
            Self::carryless_mul_11_hw(a, b)
        } else if self.features.sse2 {
            Self::carryless_mul_sse2(a, b, 0x11)
        } else {
            Self::carryless_mul_fallback(a, b, 0x11)
        }
    }
}

impl X86Ops {
    // -----------------------------------------------------------------------
    // Helper methods specific to x86/x86_64
    // -----------------------------------------------------------------------
    /// `_mm_set_epi64x(high, low)`: `low` in the low 64-bit lane, `high` above.
    pub fn set_epi64x(high: u64, low: u64) -> (r: Vector)
        ensures
            r@ == from_lanes64(low, high),
            lane64(r@, 0) == low,
            lane64(r@, 1) == high,
    {
        proof {
            lemma_from_lanes64(low, high);
        }
        Vector::from_u64_lanes([low, high])
    }

    /// `set_epi64x` on 32-bit x86, where there is no 64-bit move: each value
    /// is split into 32-bit halves, set in the low lanes of a vector, and the
    /// two low 64-bit lanes are interleaved.
    pub fn set_epi64x_x86_32(high: u64, low: u64) -> (r: Vector)
        ensures
            r@ == from_lanes64(low, high),
            lane64(r@, 0) == low,
            lane64(r@, 1) == high,
    {
        proof {
            lemma_from_lanes64(low, high);
        }
        // `set_epi32` takes (highest, higher, lower, lowest); `low` must end up in
        // the lower 64 bits and `high` in the higher.
        let low_vec_part = Vector::from_u32_lanes([(low & 0xFFFFFFFF) as u32, (low >> 32) as u32, 0, 0]);
        let high_vec_part = Vector::from_u32_lanes(
            [(high & 0xFFFFFFFF) as u32, (high >> 32) as u32, 0, 0],
        );
        let r = low_vec_part.unpack_low64(high_vec_part);
        proof {
            lemma_u64_split_bytes(low);
            lemma_u64_split_bytes(high);
            assert(r@ =~= from_lanes64(low, high));
        }
        r
    }

    /// The low 64-bit lane, read as two 32-bit halves (32-bit x86).
    pub fn extract_u64_low_x86_32(v: Vector) -> (r: u64)
        ensures
            r == lane64(v@, 0),
    {
        let lo32 = v.low_u32() as u64;
        let hi32 = v.shift_bytes_right(4).low_u32() as u64;
        proof {
            lemma_u64_join_halves(v@.subrange(0, 8));
            assert(shift_right_spec(v@, 4).subrange(0, 4) =~= v@.subrange(0, 8).subrange(4, 8));
            assert(v@.subrange(0, 4) =~= v@.subrange(0, 8).subrange(0, 4));
        }
        (hi32 << 32) | lo32
    }

    /// The high 64-bit lane, read as two 32-bit halves (32-bit x86).
    pub fn extract_u64_high_x86_32(v: Vector) -> (r: u64)
        ensures
            r == lane64(v@, 1),
    {
        let lo32 = v.shift_bytes_right(8).low_u32() as u64;
        let hi32 = v.shift_bytes_right(12).low_u32() as u64;
        proof {
            lemma_u64_join_halves(v@.subrange(8, 16));
            assert(shift_right_spec(v@, 12).subrange(0, 4) =~= v@.subrange(8, 16).subrange(4, 8));
            assert(shift_right_spec(v@, 8).subrange(0, 4) =~= v@.subrange(8, 16).subrange(0, 4));
        }
        (hi32 << 32) | lo32
    }

    /// `value` in the high 64-bit lane if `high`, else in the low one; the
    /// other lane zero.
    pub fn create_u64_vector(value: u64, high: bool) -> (r: Vector)
        ensures
            r@ == if high {
                from_lanes64(0, value)
            } else {
                from_lanes64(value, 0)
            },
            lane64(r@, 0) == if high { 0 } else { value },
            lane64(r@, 1) == if high { value } else { 0 },
    {
        proof {
            lemma_from_lanes64(0, value);
            lemma_from_lanes64(value, 0);
        }
        if high {
            Self::set_epi64x(value, 0)
        } else {
            Self::set_epi64x(0, value)
        }
    }

    /// The low 64-bit lane.
    pub fn extract_u64_low(v: Vector) -> (r: u64)
        ensures
            r == lane64(v@, 0),
    {
        v.low_u64()
    }

    /// The high 64-bit lane.
    pub fn extract_u64_high(v: Vector) -> (r: u64)
        ensures
            r == lane64(v@, 1),
    {
        let shifted = v.shift_bytes_right(8);
        proof {
            lemma_high_lane_shifted(v@);
        }
        shifted.low_u64()
    }

    /// `value` in the highest 32-bit lane if `high`, else in the lowest; the
    /// other lanes zero (SSE4.1 instructions).
    pub fn create_vector_from_u32_sse41(value: u32, high: bool) -> (r: Vector)
        ensures
            r@ == if high {
                from_lanes32(0, 0, 0, value)
            } else {
                from_lanes32(value, 0, 0, 0)
            },
            lane32(r@, 0) == if high { 0 } else { value },
            lane32(r@, 1) == 0,
            lane32(r@, 2) == 0,
            lane32(r@, 3) == if high { value } else { 0 },
    {
        proof {
            lemma_from_lanes32(0, 0, 0, value);
            lemma_from_lanes32(value, 0, 0, 0);
        }
        if high {
            let r = Vector::zero().insert_lane32(value, 3);
            proof {
                lemma_u32_bytes_zero();
                assert(r@ =~= from_lanes32(0, 0, 0, value));
            }
            r
        } else {
            Vector::from_u32_lanes([value, 0, 0, 0])
        }
    }

    /// As `create_vector_from_u32_sse41`, with SSE2 instructions: the value is
    /// placed in the lowest lane and moved to the highest by a lane shuffle.
    pub fn create_vector_from_u32_sse2(value: u32, high: bool) -> (r: Vector)
        ensures
            r@ == if high {
                from_lanes32(0, 0, 0, value)
            } else {
                from_lanes32(value, 0, 0, 0)
            },
            lane32(r@, 0) == if high { 0 } else { value },
            lane32(r@, 1) == 0,
            lane32(r@, 2) == 0,
            lane32(r@, 3) == if high { value } else { 0 },
    {
        proof {
            lemma_from_lanes32(0, 0, 0, value);
            lemma_from_lanes32(value, 0, 0, 0);
        }
        let v = Vector::from_low_u32(value);
        if high {
            let r = v.shuffle_lanes32(0x15);
            proof {
                assert((0x15u8 >> 0u8) & 3u8 == 1u8 && (0x15u8 >> 2u8) & 3u8 == 1u8 && (0x15u8
                    >> 4u8) & 3u8 == 1u8 && (0x15u8 >> 6u8) & 3u8 == 0u8) by (bit_vector);
                lemma_u32_bytes_zero();
                assert(r@ =~= from_lanes32(0, 0, 0, value));
            }
            r
        } else {
            v
        }
    }

    /// As `create_vector_from_u32_sse41`, without vector instructions.
    pub fn create_vector_from_u32_fallback(value: u32, high: bool) -> (r: Vector)
        ensures
            r@ == if high {
                from_lanes32(0, 0, 0, value)
            } else {
                from_lanes32(value, 0, 0, 0)
            },
            lane32(r@, 0) == if high { 0 } else { value },
            lane32(r@, 1) == 0,
            lane32(r@, 2) == 0,
            lane32(r@, 3) == if high { value } else { 0 },
    {
        proof {
            lemma_from_lanes32(0, 0, 0, value);
            lemma_from_lanes32(value, 0, 0, 0);
        }
        let mut lanes = [0u32; 4];
        if high {
            lanes[3] = value;
        } else {
            lanes[0] = value;
        }
        Vector::from_u32_lanes(lanes)
    }

    /// `_mm_shuffle_epi8` (SSSE3).
    pub fn shuffle_bytes_ssse3(data: Vector, mask: Vector) -> (r: Vector)
        ensures
            r@ == shuffle_spec(data@, mask@),
            r@.len() == 16,
            forall|i: int| 0 <= i < 16 && mask@[i] & 0x80u8 != 0 ==> r@[i] == 0,
            forall|i: int|
                0 <= i < 16 && mask@[i] & 0x80u8 == 0 ==> r@[i] == data@[(mask@[i] & 0x0fu8) as int],
    {
        proof {
            lemma_shuffle_selects(data@, mask@);
        }
        data.shuffle_bytes(mask)
    }

    /// Fallback for `_mm_shuffle_epi8(a, mask)`.
    pub fn shuffle_bytes_fallback(data: Vector, mask: Vector) -> (r: Vector)
        ensures
            r@ == shuffle_spec(data@, mask@),
            r@.len() == 16,
            forall|i: int| 0 <= i < 16 && mask@[i] & 0x80u8 != 0 ==> r@[i] == 0,
            forall|i: int|
                0 <= i < 16 && mask@[i] & 0x80u8 == 0 ==> r@[i] == data@[(mask@[i] & 0x0fu8) as int],
    {
        proof {
            lemma_shuffle_selects(data@, mask@);
        }
        let bytes_a: [u8; 16] = data.bytes;
        let bytes_m: [u8; 16] = mask.bytes;

        let mut out = [0u8; 16];
        for i in 0..16
            invariant
                bytes_a@ == data@,
                bytes_m@ == mask@,
                out@.len() == 16,
                forall|j: int| 0 <= j < i ==> out@[j] == shuffle_spec(data@, mask@)[j],
                forall|j: int| i <= j < 16 ==> out@[j] == 0,
        {
            let ctl = bytes_m[i];
            if (ctl & 0x80) == 0 {
                assert(ctl & 0x0f < 16) by (bit_vector);
                out[i] = bytes_a[(ctl & 0x0F) as usize];
            }
        }
        assert(out@ =~= shuffle_spec(data@, mask@));
        Vector { bytes: out }
    }

    /// `_mm_clmulepi64_si128(a, b, 0x00)` (PCLMULQDQ).
    pub fn carryless_mul_00_hw(a: Vector, b: Vector) -> (r: Vector)
        ensures
            r@ == clmul_lanes_spec(a@, b@, 0x00),
            lane64(r@, 0) == clmul(lane64(a@, 0) as u128, lane64(b@, 0) as u128) as u64,
            lane64(r@, 1) == (clmul(lane64(a@, 0) as u128, lane64(b@, 0) as u128) >> 64u128) as u64,
    {
        proof {
            lemma_clmul_lanes_value(a@, b@, 0x00);
            lemma_selector_bits();
        }
        a.clmul_lanes(b, 0x00)
    }

    /// `_mm_clmulepi64_si128(a, b, 0x01)` (PCLMULQDQ).
    pub fn carryless_mul_01_hw(a: Vector, b: Vector) -> (r: Vector)
        ensures
            r@ == clmul_lanes_spec(a@, b@, 0x01),
            lane64(r@, 0) == clmul(lane64(a@, 1) as u128, lane64(b@, 0) as u128) as u64,
            lane64(r@, 1) == (clmul(lane64(a@, 1) as u128, lane64(b@, 0) as u128) >> 64u128) as u64,
    {
        proof {
            lemma_clmul_lanes_value(a@, b@, 0x01);
            lemma_selector_bits();
        }
        a.clmul_lanes(b, 0x01)
    }

    /// `_mm_clmulepi64_si128(a, b, 0x10)` (PCLMULQDQ).
    pub fn carryless_mul_10_hw(a: Vector, b: Vector) -> (r: Vector)
        ensures
            r@ == clmul_lanes_spec(a@, b@, 0x10),
            lane64(r@, 0) == clmul(lane64(a@, 0) as u128, lane64(b@, 1) as u128) as u64,
            lane64(r@, 1) == (clmul(lane64(a@, 0) as u128, lane64(b@, 1) as u128) >> 64u128) as u64,
    {
        proof {
            lemma_clmul_lanes_value(a@, b@, 0x10);
            lemma_selector_bits();
        }
        a.clmul_lanes(b, 0x10)
    }

    /// `_mm_clmulepi64_si128(a, b, 0x11)` (PCLMULQDQ).
    pub fn carryless_mul_11_hw(a: Vector, b: Vector) -> (r: Vector)
        ensures
            r@ == clmul_lanes_spec(a@, b@, 0x11),
            lane64(r@, 0) == clmul(lane64(a@, 1) as u128, lane64(b@, 1) as u128) as u64,
            lane64(r@, 1) == (clmul(lane64(a@, 1) as u128, lane64(b@, 1) as u128) >> 64u128) as u64,
    {
        proof {
            lemma_clmul_lanes_value(a@, b@, 0x11);
            lemma_selector_bits();
        }
        a.clmul_lanes(b, 0x11)
    }

    /// Implementation of `_mm_clmulepi64_si128` without intrinsics.
    pub fn carryless_mul_fallback(a: Vector, b: Vector, imm: u8) -> (r: Vector)
        ensures
            r@ == clmul_lanes_spec(a@, b@, imm),
            lane64(r@, 0) == clmul(
                lane64(a@, if imm & 0x01u8 != 0 { 1 } else { 0 }) as u128,
                lane64(b@, if imm & 0x10u8 != 0 { 1 } else { 0 }) as u128,
            ) as u64,
            lane64(r@, 1) == (clmul(
                lane64(a@, if imm & 0x01u8 != 0 { 1 } else { 0 }) as u128,
                lane64(b@, if imm & 0x10u8 != 0 { 1 } else { 0 }) as u128,
            ) >> 64u128) as u64,
    {
        proof {
            lemma_clmul_lanes_value(a@, b@, imm);
        }
        // Extract the vectors as arrays of u64
        let a_parts: [u64; 2] = a.to_u64_lanes();
        let b_parts: [u64; 2] = b.to_u64_lanes();

        // Select which 64-bit parts to multiply based on immediate value
        let sel = imm & 0b0001_0001;
        proof {
            assert(sel == 0 || sel == 0x01 || sel == 0x10 || sel == 0x11) by (bit_vector)
                requires
                    sel == imm & 0x11u8,
            ;
            assert((imm & 0x01u8 != 0) == (sel == 0x01 || sel == 0x11) && (imm & 0x10u8 != 0) == (
            sel == 0x10 || sel == 0x11)) by (bit_vector)
                requires
                    sel == imm & 0x11u8,
            ;
        }
        let (a_val, b_val) = match sel {
            0b0000_0000 => (a_parts[0], b_parts[0]),  // low64(a) * low64(b)
            0b0000_0001 => (a_parts[1], b_parts[0]),  // high64(a) * low64(b)
            0b0001_0000 => (a_parts[0], b_parts[1]),  // low64(a) * high64(b)
            _ => (a_parts[1], b_parts[1]),  // high64(a) * high64(b)
        };

        // Perform carryless multiplication
        let result = Self::carryless_multiply_64(a_val as u128, b_val as u128);

        // Convert back to a vector
        Vector::from_u128(result)
    }

    /// Performs carryless multiplication of two 128-bit values.
    pub fn carryless_multiply_64(a: u128, b: u128) -> (r: u128)
        ensures
            r == clmul(a, b),
    {
        let mut x = a;
        let mut y = b;
        let mut res: u128 = 0;
        let ghost mut i: u128 = 0;
        proof {
            lemma_shl_zero(a);
            lemma_shr_zero(b);
        }
        while y != 0
            invariant
                i <= 128,
                x == a << i,
                y == b >> i,
                res == clmul_upto(a, b, i as nat),
            decreases 128 - i,
        {
            proof {
                if i == 128 {
                    lemma_shr_width(b);
                }
                lemma_low_bit(y);
            }
            if y & 1 != 0 {
                res ^= x;  // XOR, not addition
            }
            x <<= 1;  // multiply by x in GF(2)[x]
            y >>= 1;
            proof {
                lemma_shl_step(a, i);
                lemma_shr_step(b, i);
                i = (i + 1) as u128;
            }
        }
        proof {
            lemma_clmul_upto_rest(a, b, i as nat, 128);
        }
        res
    }

    /// `_mm_clmulepi64_si128` with SSE2 instructions: the chosen lanes are
    /// moved to the bottom, read out, and multiplied bit by bit.
    pub fn carryless_mul_sse2(a: Vector, b: Vector, imm: u8) -> (r: Vector)
        ensures
            r@ == clmul_lanes_spec(a@, b@, imm),
            lane64(r@, 0) == clmul(
                lane64(a@, if imm & 0x01u8 != 0 { 1 } else { 0 }) as u128,
                lane64(b@, if imm & 0x10u8 != 0 { 1 } else { 0 }) as u128,
            ) as u64,
            lane64(r@, 1) == (clmul(
                lane64(a@, if imm & 0x01u8 != 0 { 1 } else { 0 }) as u128,
                lane64(b@, if imm & 0x10u8 != 0 { 1 } else { 0 }) as u128,
            ) >> 64u128) as u64,
    {
        proof {
            lemma_clmul_lanes_value(a@, b@, imm);
        }
        let a_sel = if (imm & 0x01) != 0 {
            a.shift_bytes_right(8)
        } else {
            a
        };
        let b_sel = if (imm & 0x10) != 0 {
            b.shift_bytes_right(8)
        } else {
            b
        };
        proof {
            lemma_high_lane_shifted(a@);
            lemma_high_lane_shifted(b@);
        }

        let a_val: u64 = a_sel.low_u64();
        let b_val: u64 = b_sel.low_u64();

        let ghost xa = a_val as u128;
        let ghost yb = b_val as u128;
        let mut x = a_val as u128;
        let mut y = b_val as u128;
        let mut prod: u128 = 0;
        let ghost mut i: u128 = 0;
        proof {
            lemma_shl_zero(xa);
            lemma_shr_zero(yb);
        }
        while y != 0
            invariant
                i <= 128,
                x == xa << i,
                y == yb >> i,
                prod == clmul_upto(xa, yb, i as nat),
            decreases 128 - i,
        {
            proof {
                if i == 128 {
                    lemma_shr_width(yb);
                }
                lemma_low_bit(y);
            }
            if (y & 1) != 0 {
                prod ^= x;
            }
            x <<= 1;
            y >>= 1;
            proof {
                lemma_shl_step(xa, i);
                lemma_shr_step(yb, i);
                i = (i + 1) as u128;
            }
        }
        proof {
            lemma_clmul_upto_rest(xa, yb, i as nat, 128);
        }

        let lo = prod as u64;
        let hi = (prod >> 64) as u64;
        Self::set_epi64x(hi, lo)
    }

    /// `_mm_blendv_epi8` (SSE4.1).
    pub fn blend_vectors_sse41(a: Vector, b: Vector, mask: Vector) -> (r: Vector)
        ensures
            r@ == blend_spec(a@, b@, mask@),
            r@.len() == 16,
            forall|i: int| 0 <= i < 16 && mask@[i] & 0x80u8 != 0 ==> r@[i] == b@[i],
            forall|i: int| 0 <= i < 16 && mask@[i] & 0x80u8 == 0 ==> r@[i] == a@[i],
    {
        proof {
            lemma_blend_selects(a@, b@, mask@);
        }
        a.blend_bytes(b, mask)
    }

    /// Blend without vector instructions: byte `i` from `b` where bit 7 of
    /// `mask[i]` is set, else from `a`.
    pub fn blend_vectors_fallback(a: Vector, b: Vector, mask: Vector) -> (r: Vector)
        ensures
            r@ == blend_spec(a@, b@, mask@),
            r@.len() == 16,
            forall|i: int| 0 <= i < 16 && mask@[i] & 0x80u8 != 0 ==> r@[i] == b@[i],
            forall|i: int| 0 <= i < 16 && mask@[i] & 0x80u8 == 0 ==> r@[i] == a@[i],
    {
        proof {
            lemma_blend_selects(a@, b@, mask@);
        }
        let bytes_a: [u8; 16] = a.bytes;
        let bytes_b: [u8; 16] = b.bytes;
        let bytes_mask: [u8; 16] = mask.bytes;

        let mut out = [0u8; 16];
        for i in 0..16
            invariant
                bytes_a@ == a@,
                bytes_b@ == b@,
                bytes_mask@ == mask@,
                out@.len() == 16,
                forall|j: int| 0 <= j < i ==> out@[j] == blend_spec(a@, b@, mask@)[j],
        {
            out[i] = if (bytes_mask[i] & 0x80) != 0 {
                bytes_b[i]
            } else {
                bytes_a[i]
            };
        }
        assert(out@ =~= blend_spec(a@, b@, mask@));
        Vector { bytes: out }
    }

    /// Blend with SSE2 instructions: a signed compare of the mask with zero
    /// spreads each mask byte's bit 7 over the byte, which then selects
    /// between `a` and `b` by and / and-not / or.
    pub fn blend_vectors_sse2(a: Vector, b: Vector, mask: Vector) -> (r: Vector)
        ensures
            r@ == blend_spec(a@, b@, mask@),
            r@.len() == 16,
            forall|i: int| 0 <= i < 16 && mask@[i] & 0x80u8 != 0 ==> r@[i] == b@[i],
            forall|i: int| 0 <= i < 16 && mask@[i] & 0x80u8 == 0 ==> r@[i] == a@[i],
    {
        proof {
            lemma_blend_selects(a@, b@, mask@);
        }
        let zero = Vector::zero();
        let sel = mask.less_than_bytes(zero);
        let a_sel = sel.and_not(a);
        let b_sel = b.and(sel);
        let r = a_sel.or(b_sel);
        proof {
            assert forall|i: int| 0 <= i < 16 implies r@[i] == blend_spec(a@, b@, mask@)[i] by {
                let m = mask@[i];
                let x = a@[i];
                let y = b@[i];
                assert((m & 0x80u8 != 0) == (m >= 128)) by (bit_vector);
                assert((!0xffu8 & x) | (y & 0xffu8) == y) by (bit_vector);
                assert((!0u8 & x) | (y & 0u8) == x) by (bit_vector);
            }
            assert(r@ =~= blend_spec(a@, b@, mask@));
        }
        r
    }
}

} // verus!
