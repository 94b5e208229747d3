use lib::vector::Vector;
use lib::x86::{CpuFeatures, X86Ops};

fn feature_sets() -> Vec<CpuFeatures> {
    let mut out = Vec::new();
    for bits in 0u8..16 {
        out.push(CpuFeatures {
            sse2: bits & 1 != 0,
            ssse3: bits & 2 != 0,
            sse41: bits & 4 != 0,
            pclmulqdq: bits & 8 != 0,
        });
    }
    out
}

fn all_ops() -> Vec<X86Ops> {
    feature_sets().into_iter().map(|features| X86Ops { features }).collect()
}

fn ops() -> X86Ops {
    X86Ops {
        features: CpuFeatures { sse2: true, ssse3: true, sse41: true, pclmulqdq: true },
    }
}

fn vec_of(bytes: [u8; 16]) -> Vector {
    Vector { bytes }
}

fn from_u128(x: u128) -> Vector {
    Vector { bytes: x.to_le_bytes() }
}

fn as_u128(v: Vector) -> u128 {
    u128::from_le_bytes(v.bytes)
}

fn pair(lo: u64, hi: u64) -> Vector {
    from_u128(((hi as u128) << 64) | lo as u128)
}

#[test]
fn carryless_multiply_small_values() {
    assert_eq!(X86Ops::carryless_multiply_64(3, 3), 5);
    assert_eq!(X86Ops::carryless_multiply_64(0b101, 0b11), 0b1111);
    assert_eq!(X86Ops::carryless_multiply_64(0, 0xdead_beef), 0);
    assert_eq!(X86Ops::carryless_multiply_64(0xdead_beef, 1), 0xdead_beef);
}

#[test]
fn carryless_multiply_64_bit_operands() {
    assert_eq!(
        X86Ops::carryless_multiply_64(0xffff_ffff_ffff_ffff, 0xffff_ffff_ffff_ffff),
        0x5555_5555_5555_5555_5555_5555_5555_5555
    );
    assert_eq!(
        X86Ops::carryless_multiply_64(0x0123_4567_89ab_cdef, 0xfedc_ba98_7654_3210),
        0x00e0_38d8_6888_50b0_40a0_7898_28c8_10f0
    );
    assert_eq!(
        X86Ops::carryless_multiply_64(0x8000_0000_0000_0000, 0x8000_0000_0000_0000),
        0x4000_0000_0000_0000_0000_0000_0000_0000
    );
}

#[test]
fn carryless_multiply_keeps_128_bits() {
    assert_eq!(
        X86Ops::carryless_multiply_64((1u128 << 127) | 1, 3),
        (1u128 << 127) | 3
    );
}

#[test]
fn carryless_multiply_commutes() {
    let values: [u128; 5] = [0, 1, 0x1234_5678, 0xffff_ffff_ffff_ffff, (1u128 << 100) | 0xabc];
    for &a in values.iter() {
        for &b in values.iter() {
            assert_eq!(X86Ops::carryless_multiply_64(a, b), X86Ops::carryless_multiply_64(b, a));
        }
    }
}

#[test]
fn carryless_lane_products_on_every_path() {
    let a = pair(0x0123_4567_89ab_cdef, 0xffff_ffff_ffff_ffff);
    let b = pair(0xfedc_ba98_7654_3210, 0x8000_0000_0000_0000);
    for o in all_ops() {
        assert_eq!(
            as_u128(o.carryless_mul_00(a, b)),
            0x00e0_38d8_6888_50b0_40a0_7898_28c8_10f0
        );
        assert_eq!(
            as_u128(o.carryless_mul_01(a, b)),
            X86Ops::carryless_multiply_64(0xffff_ffff_ffff_ffff, 0xfedc_ba98_7654_3210)
        );
        assert_eq!(
            as_u128(o.carryless_mul_10(a, b)),
            X86Ops::carryless_multiply_64(0x0123_4567_89ab_cdef, 0x8000_0000_0000_0000)
        );
        assert_eq!(
            as_u128(o.carryless_mul_11(a, b)),
            X86Ops::carryless_multiply_64(0xffff_ffff_ffff_ffff, 0x8000_0000_0000_0000)
        );
    }
}

#[test]
fn carryless_variants_agree() {
    let a = pair(0x9e37_79b9_7f4a_7c15, 0x0000_0000_0000_0003);
    let b = pair(0x0000_0001_0000_0001, 0xc2b2_ae3d_27d4_eb4f);
    for imm in [0x00u8, 0x01, 0x10, 0x11, 0xff, 0x20] {
        let f = X86Ops::carryless_mul_fallback(a, b, imm);
        let s = X86Ops::carryless_mul_sse2(a, b, imm);
        let h = a.clmul_lanes(b, imm);
        assert_eq!(f, s);
        assert_eq!(f, h);
    }
    assert_eq!(X86Ops::carryless_mul_00_hw(a, b), X86Ops::carryless_mul_fallback(a, b, 0x00));
    assert_eq!(X86Ops::carryless_mul_01_hw(a, b), X86Ops::carryless_mul_fallback(a, b, 0x01));
    assert_eq!(X86Ops::carryless_mul_10_hw(a, b), X86Ops::carryless_mul_fallback(a, b, 0x10));
    assert_eq!(X86Ops::carryless_mul_11_hw(a, b), X86Ops::carryless_mul_fallback(a, b, 0x11));
}

#[test]
fn carryless_mul_operands_swap() {
    let o = ops();
    let a = pair(0x1111_2222_3333_4444, 0x5555_6666_7777_8888);
    let b = pair(0x9999_aaaa_bbbb_cccc, 0xdddd_eeee_ffff_0001);
    assert_eq!(o.carryless_mul_01(a, b), o.carryless_mul_10(b, a));
    assert_eq!(o.carryless_mul_00(a, b), o.carryless_mul_00(b, a));
    assert_eq!(o.carryless_mul_11(a, b), o.carryless_mul_11(b, a));
}

#[test]
fn carryless_lane_product_top_bit_clear() {
    let o = ops();
    let a = pair(u64::MAX, u64::MAX);
    let r = o.carryless_mul_11(a, a);
    assert_eq!(o.extract_u64s(r)[1] >> 63, 0);
}

#[test]
fn create_from_u64_pair_round_trip() {
    for o in all_ops() {
        let v = o.create_vector_from_u64_pair(0xaaaa, 0xbbbb, false);
        assert_eq!(o.extract_u64s(v), [0xbbbb, 0xaaaa]);
        let v = o.create_vector_from_u64_pair(0xaaaa, 0xbbbb, true);
        assert_eq!(o.extract_u64s(v), [0xaaaa, 0xbbbb]);
        let v = o.create_vector_from_u64_pair_non_reflected(0x1234, 0x5678);
        assert_eq!(o.extract_u64s(v), [0x5678, 0x1234]);
        assert_eq!(o.extract_poly64s(v), [0x5678, 0x1234]);
    }
}

#[test]
fn create_from_u64_pair_memory_order() {
    let o = ops();
    let v = o.create_vector_from_u64_pair(0x1716_1514_1312_1110, 0x0706_0504_0302_0100, false);
    assert_eq!(
        v.bytes,
        [0, 1, 2, 3, 4, 5, 6, 7, 0x10, 0x11, 0x12, 0x13, 0x14, 0x15, 0x16, 0x17]
    );
}

#[test]
fn extract_then_create_rebuilds() {
    let o = ops();
    let v = vec_of([9, 8, 7, 6, 5, 4, 3, 2, 1, 0, 255, 254, 253, 252, 251, 250]);
    let [lo, hi] = o.extract_u64s(v);
    assert_eq!(o.create_vector_from_u64_pair_non_reflected(hi, lo), v);
}

#[test]
fn create_from_u64_placement() {
    let o = ops();
    assert_eq!(o.extract_u64s(o.create_vector_from_u64(42, true)), [0, 42]);
    assert_eq!(o.extract_u64s(o.create_vector_from_u64(42, false)), [42, 0]);
}

#[test]
fn set_epi64x_32_bit_forms_agree() {
    let high = 0x0fed_cba9_8765_4321u64;
    let low = 0x1122_3344_5566_7788u64;
    let v = X86Ops::set_epi64x(high, low);
    assert_eq!(X86Ops::set_epi64x_x86_32(high, low), v);
    assert_eq!(X86Ops::extract_u64_low(v), low);
    assert_eq!(X86Ops::extract_u64_high(v), high);
    assert_eq!(X86Ops::extract_u64_low_x86_32(v), low);
    assert_eq!(X86Ops::extract_u64_high_x86_32(v), high);
}

#[test]
fn xor_and_and() {
    let o = ops();
    let a = from_u128(0xf0f0_f0f0_0000_ffff_1234_5678_9abc_def0);
    let b = from_u128(0x0ff0_0ff0_ffff_0000_ffff_0000_ffff_0000);
    assert_eq!(
        as_u128(o.xor_vectors(a, b)),
        0xf0f0_f0f0_0000_ffff_1234_5678_9abc_def0 ^ 0x0ff0_0ff0_ffff_0000_ffff_0000_ffff_0000
    );
    assert_eq!(
        as_u128(o.and_vectors(a, b)),
        0xf0f0_f0f0_0000_ffff_1234_5678_9abc_def0 & 0x0ff0_0ff0_ffff_0000_ffff_0000_ffff_0000
    );
    assert_eq!(o.xor_vectors(o.xor_vectors(a, b), b), a);
}

#[test]
fn load_bytes_reads_first_sixteen() {
    let o = ops();
    let data: Vec<u8> = (0u8..20).collect();
    let v = o.load_bytes(&data[2..]);
    assert_eq!(v.bytes, [2, 3, 4, 5, 6, 7, 8, 9, 10, 11, 12, 13, 14, 15, 16, 17]);
}

#[test]
fn load_aligned_pair() {
    let o = ops();
    let v = o.load_aligned(&[0x0706_0504_0302_0100, 0x0f0e_0d0c_0b0a_0908]);
    assert_eq!(v.bytes, [0, 1, 2, 3, 4, 5, 6, 7, 8, 9, 10, 11, 12, 13, 14, 15]);
}

#[test]
fn byte_shifts() {
    let o = ops();
    let x = 0x0f0e_0d0c_0b0a_0908_0706_0504_0302_0100u128;
    let v = from_u128(x);
    assert_eq!(as_u128(o.shift_left_4(v)), x << 32);
    assert_eq!(as_u128(o.shift_left_8(v)), x << 64);
    assert_eq!(as_u128(o.shift_left_12(v)), x << 96);
    assert_eq!(as_u128(o.shift_left_32(v)), x << 32);
    assert_eq!(as_u128(o.shift_right_4(v)), x >> 32);
    assert_eq!(as_u128(o.shift_right_5(v)), x >> 40);
    assert_eq!(as_u128(o.shift_right_6(v)), x >> 48);
    assert_eq!(as_u128(o.shift_right_7(v)), x >> 56);
    assert_eq!(as_u128(o.shift_right_8(v)), x >> 64);
    assert_eq!(as_u128(o.shift_right_12(v)), x >> 96);
    assert_eq!(as_u128(o.shift_right_32(v)), x >> 32);
    assert_eq!(o.shift_left_32(v), o.shift_left_4(v));
    assert_eq!(o.shift_right_32(v), o.shift_right_4(v));
}

#[test]
fn shift_by_sixteen_or_more_clears() {
    let v = from_u128(u128::MAX);
    assert_eq!(as_u128(v.shift_bytes_left(16)), 0);
    assert_eq!(as_u128(v.shift_bytes_right(16)), 0);
    assert_eq!(as_u128(v.shift_bytes_right(200)), 0);
}

#[test]
fn shuffle_bytes_reverse_and_zero() {
    let data = vec_of([10, 11, 12, 13, 14, 15, 16, 17, 18, 19, 20, 21, 22, 23, 24, 25]);
    let reverse = vec_of([15, 14, 13, 12, 11, 10, 9, 8, 7, 6, 5, 4, 3, 2, 1, 0]);
    let mixed = vec_of([0x80, 0x10 | 3, 0xff, 0, 0x7f, 0x8f, 1, 1, 2, 2, 0x40, 0x81, 5, 6, 7, 8]);
    for o in all_ops() {
        assert_eq!(
            o.shuffle_bytes(data, reverse).bytes,
            [25, 24, 23, 22, 21, 20, 19, 18, 17, 16, 15, 14, 13, 12, 11, 10]
        );
        assert_eq!(
            o.shuffle_bytes(data, mixed).bytes,
            [0, 13, 0, 10, 25, 0, 11, 11, 12, 12, 10, 0, 15, 16, 17, 18]
        );
    }
    assert_eq!(X86Ops::shuffle_bytes_ssse3(data, mixed), X86Ops::shuffle_bytes_fallback(data, mixed));
}

#[test]
fn blend_by_mask_top_bit() {
    let a = vec_of([0; 16]);
    let b = vec_of([0xaa; 16]);
    let mask = vec_of([0x80, 0x7f, 0xff, 0x00, 0x81, 0x01, 0xc0, 0x40, 0, 0, 0, 0, 0x80, 0x80, 0x80, 0x80]);
    let expected = [0xaa, 0, 0xaa, 0, 0xaa, 0, 0xaa, 0, 0, 0, 0, 0, 0xaa, 0xaa, 0xaa, 0xaa];
    for o in all_ops() {
        assert_eq!(o.blend_vectors(a, b, mask).bytes, expected);
        assert_eq!(o.blend_vectors(a, b, o.create_compare_mask(mask)).bytes, expected);
    }
    assert_eq!(X86Ops::blend_vectors_sse41(a, b, mask).bytes, expected);
    assert_eq!(X86Ops::blend_vectors_sse2(a, b, mask).bytes, expected);
    assert_eq!(X86Ops::blend_vectors_fallback(a, b, mask).bytes, expected);
}

#[test]
fn create_from_u32_placement_on_every_path() {
    for o in all_ops() {
        let hi = o.create_vector_from_u32(0xdead_beef, true);
        assert_eq!(as_u128(hi), 0xdead_beefu128 << 96);
        let lo = o.create_vector_from_u32(0xdead_beef, false);
        assert_eq!(as_u128(lo), 0xdead_beef);
    }
    for high in [false, true] {
        let a = X86Ops::create_vector_from_u32_sse41(7, high);
        assert_eq!(X86Ops::create_vector_from_u32_sse2(7, high), a);
        assert_eq!(X86Ops::create_vector_from_u32_fallback(7, high), a);
    }
}

#[test]
fn set_all_bytes_and_compare_mask() {
    let o = ops();
    assert_eq!(o.set_all_bytes(0x5a).bytes, [0x5a; 16]);
    let v = vec_of([1; 16]);
    assert_eq!(o.create_compare_mask(v), v);
}

#[test]
fn signed_byte_compare() {
    let a = vec_of([0x80, 0x7f, 0xff, 0x00, 1, 2, 3, 4, 5, 6, 7, 8, 9, 10, 11, 12]);
    let zero = Vector::zero();
    let lt = a.less_than_bytes(zero);
    assert_eq!(lt.bytes, [0xff, 0, 0xff, 0, 0, 0, 0, 0, 0, 0, 0, 0, 0, 0, 0, 0]);
    assert_eq!(zero.less_than_bytes(a).bytes[1], 0xff);
    assert_eq!(zero.less_than_bytes(a).bytes[0], 0);
}

#[test]
fn lane32_moves() {
    let v = Vector::from_u32_lanes([1, 2, 3, 4]);
    assert_eq!(v.shuffle_lanes32(0x1b), Vector::from_u32_lanes([4, 3, 2, 1]));
    assert_eq!(v.shuffle_lanes32(0x15), Vector::from_u32_lanes([2, 2, 2, 1]));
    assert_eq!(v.insert_lane32(9, 2), Vector::from_u32_lanes([1, 2, 9, 4]));
    assert_eq!(v.low_u32(), 1);
    assert_eq!(Vector::from_low_u32(5), Vector::from_u32_lanes([5, 0, 0, 0]));
    let w = Vector::from_u32_lanes([11, 12, 13, 14]);
    assert_eq!(v.unpack_low64(w), Vector::from_u32_lanes([1, 2, 11, 12]));
}

#[test]
fn bytewise_logic() {
    let a = vec_of([0b1100; 16]);
    let b = vec_of([0b1010; 16]);
    assert_eq!(a.or(b).bytes, [0b1110; 16]);
    assert_eq!(a.and_not(b).bytes, [0b0010; 16]);
    assert_eq!(a.and(b).bytes, [0b1000; 16]);
    assert_eq!(a.xor(b).bytes, [0b0110; 16]);
}

#[test]
fn u64_and_u128_conversions() {
    let v = Vector::from_u128(0x0f0e_0d0c_0b0a_0908_0706_0504_0302_0100);
    assert_eq!(v.bytes, [0, 1, 2, 3, 4, 5, 6, 7, 8, 9, 10, 11, 12, 13, 14, 15]);
    assert_eq!(v.to_u64_lanes(), [0x0706_0504_0302_0100, 0x0f0e_0d0c_0b0a_0908]);
    assert_eq!(Vector::from_u64_lanes(v.to_u64_lanes()), v);
    assert_eq!(v.low_u64(), 0x0706_0504_0302_0100);
    assert_eq!(Vector::splat(3).bytes, [3; 16]);
}
