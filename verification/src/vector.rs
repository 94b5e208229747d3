//! The 128-bit vector type, its byte and lane views, and the SSE
//! instructions it is operated on with.
use vstd::prelude::*;

verus! {

/// A 128-bit SSE register, held as its sixteen bytes in memory order
/// (byte 0 is the least significant byte of the low 64-bit lane).
#[derive(Clone, Copy, Debug, PartialEq, Eq)]
pub struct Vector {
    pub bytes: [u8; 16],
}

impl View for Vector {
    type V = Seq<u8>;

    open spec fn view(&self) -> Seq<u8> {
        self.bytes@
    }
}

// ---------------------------------------------------------------------------
// Little-endian lanes
// ---------------------------------------------------------------------------

/// The `u64` whose little-endian bytes are `s[0..8]`.
pub open spec fn u64_le(s: Seq<u8>) -> u64 {
    (s[0] as u64) | ((s[1] as u64) << 8u64) | ((s[2] as u64) << 16u64) | ((s[3] as u64) << 24u64)
        | ((s[4] as u64) << 32u64) | ((s[5] as u64) << 40u64) | ((s[6] as u64) << 48u64) | ((
    s[7] as u64) << 56u64)
}

/// The eight little-endian bytes of `x`.
pub open spec fn u64_bytes(x: u64) -> Seq<u8> {
    seq![
        (x & 0xff) as u8,
        ((x >> 8u64) & 0xff) as u8,
        ((x >> 16u64) & 0xff) as u8,
        ((x >> 24u64) & 0xff) as u8,
        ((x >> 32u64) & 0xff) as u8,
        ((x >> 40u64) & 0xff) as u8,
        ((x >> 48u64) & 0xff) as u8,
        ((x >> 56u64) & 0xff) as u8,
    ]
}

/// The `u32` whose little-endian bytes are `s[0..4]`.
pub open spec fn u32_le(s: Seq<u8>) -> u32 {
    (s[0] as u32) | ((s[1] as u32) << 8u32) | ((s[2] as u32) << 16u32) | ((s[3] as u32) << 24u32)
}

/// The four little-endian bytes of `x`.
pub open spec fn u32_bytes(x: u32) -> Seq<u8> {
    seq![
        (x & 0xff) as u8,
        ((x >> 8u32) & 0xff) as u8,
        ((x >> 16u32) & 0xff) as u8,
        ((x >> 24u32) & 0xff) as u8,
    ]
}

/// 64-bit lane `k` (0 = low, 1 = high) of a vector's bytes.
pub open spec fn lane64(v: Seq<u8>, k: int) -> u64 {
    u64_le(v.subrange(8 * k, 8 * k + 8))
}

/// 32-bit lane `k` (0 = lowest, 3 = highest) of a vector's bytes.
pub open spec fn lane32(v: Seq<u8>, k: int) -> u32 {
    u32_le(v.subrange(4 * k, 4 * k + 4))
}

/// The bytes of the vector whose low 64-bit lane is `lo` and high lane is `hi`.
pub open spec fn from_lanes64(lo: u64, hi: u64) -> Seq<u8> {
    u64_bytes(lo) + u64_bytes(hi)
}

/// The bytes of the vector whose 32-bit lanes, lowest first, are `l0..l3`.
pub open spec fn from_lanes32(l0: u32, l1: u32, l2: u32, l3: u32) -> Seq<u8> {
    u32_bytes(l0) + u32_bytes(l1) + u32_bytes(l2) + u32_bytes(l3)
}

/// The bytes of the vector that holds the 128-bit integer `x`.
pub open spec fn u128_bytes(x: u128) -> Seq<u8> {
    from_lanes64(x as u64, (x >> 64u128) as u64)
}

pub proof fn lemma_u64_bytes_le(x: u64)
    ensures
        u64_bytes(x).len() == 8,
        u64_le(u64_bytes(x)) == x,
{
    let s = u64_bytes(x);
    assert(x == ((x & 0xff) as u8 as u64) | ((((x >> 8u64) & 0xff) as u8 as u64) << 8u64) | ((((x
        >> 16u64) & 0xff) as u8 as u64) << 16u64) | ((((x >> 24u64) & 0xff) as u8 as u64) << 24u64)
        | ((((x >> 32u64) & 0xff) as u8 as u64) << 32u64) | ((((x >> 40u64) & 0xff) as u8 as u64)
        << 40u64) | ((((x >> 48u64) & 0xff) as u8 as u64) << 48u64) | ((((x >> 56u64) & 0xff) as u8
        as u64) << 56u64)) by (bit_vector);
}

pub proof fn lemma_u64_le_bytes(s: Seq<u8>)
    requires
        s.len() == 8,
    ensures
        u64_bytes(u64_le(s)) == s,
{
    let x = u64_le(s);
    let (b0, b1, b2, b3, b4, b5, b6, b7) = (s[0], s[1], s[2], s[3], s[4], s[5], s[6], s[7]);
    assert(x == (b0 as u64) | ((b1 as u64) << 8u64) | ((b2 as u64) << 16u64) | ((b3 as u64)
        << 24u64) | ((b4 as u64) << 32u64) | ((b5 as u64) << 40u64) | ((b6 as u64) << 48u64) | ((
    b7 as u64) << 56u64));
    assert(x == (b0 as u64) | ((b1 as u64) << 8u64) | ((b2 as u64) << 16u64) | ((b3 as u64)
        << 24u64) | ((b4 as u64) << 32u64) | ((b5 as u64) << 40u64) | ((b6 as u64) << 48u64) | ((
    b7 as u64) << 56u64) ==> b0 == (x & 0xff) as u8 && b1 == ((x >> 8u64) & 0xff) as u8 && b2 == ((
    x >> 16u64) & 0xff) as u8 && b3 == ((x >> 24u64) & 0xff) as u8 && b4 == ((x >> 32u64) & 0xff) as u8
        && b5 == ((x >> 40u64) & 0xff) as u8 && b6 == ((x >> 48u64) & 0xff) as u8 && b7 == ((x
        >> 56u64) & 0xff) as u8) by (bit_vector);
    assert(u64_bytes(x) =~= s);
}

pub proof fn lemma_u32_bytes_le(x: u32)
    ensures
        u32_bytes(x).len() == 4,
        u32_le(u32_bytes(x)) == x,
{
    assert(x == ((x & 0xff) as u8 as u32) | ((((x >> 8u32) & 0xff) as u8 as u32) << 8u32) | ((((x
        >> 16u32) & 0xff) as u8 as u32) << 16u32) | ((((x >> 24u32) & 0xff) as u8 as u32) << 24u32))
        by (bit_vector);
}

/// A `u64` read from eight little-endian bytes is their value in base 256,
/// lowest byte first.
pub proof fn lemma_u64_le_value(s: Seq<u8>)
    requires
        s.len() == 8,
    ensures
        u64_le(s) == s[0] + 0x100 * s[1] + 0x1_0000 * s[2] + 0x100_0000 * s[3] + 0x1_0000_0000 * s[4]
            + 0x100_0000_0000 * s[5] + 0x1_0000_0000_0000 * s[6] + 0x100_0000_0000_0000 * s[7],
{
    let (b0, b1, b2, b3, b4, b5, b6, b7) = (s[0], s[1], s[2], s[3], s[4], s[5], s[6], s[7]);
    assert((b0 as u64) | ((b1 as u64) << 8u64) | ((b2 as u64) << 16u64) | ((b3 as u64) << 24u64) | ((
    b4 as u64) << 32u64) | ((b5 as u64) << 40u64) | ((b6 as u64) << 48u64) | ((b7 as u64) << 56u64)
        == b0 + 0x100 * b1 + 0x1_0000 * b2 + 0x100_0000 * b3 + 0x1_0000_0000 * b4 + 0x100_0000_0000
        * b5 + 0x1_0000_0000_0000 * b6 + 0x100_0000_0000_0000 * b7) by (bit_vector);
}

/// A `u32` read from four little-endian bytes is their value in base 256,
/// lowest byte first.
pub proof fn lemma_u32_le_value(s: Seq<u8>)
    requires
        s.len() == 4,
    ensures
        u32_le(s) == s[0] + 0x100 * s[1] + 0x1_0000 * s[2] + 0x100_0000 * s[3],
{
    let (b0, b1, b2, b3) = (s[0], s[1], s[2], s[3]);
    assert((b0 as u32) | ((b1 as u32) << 8u32) | ((b2 as u32) << 16u32) | ((b3 as u32) << 24u32)
        == b0 + 0x100 * b1 + 0x1_0000 * b2 + 0x100_0000 * b3) by (bit_vector);
}

/// Reading the lanes of a vector built from two 64-bit lanes gives them back.
pub proof fn lemma_from_lanes64(lo: u64, hi: u64)
    ensures
        from_lanes64(lo, hi).len() == 16,
        lane64(from_lanes64(lo, hi), 0) == lo,
        lane64(from_lanes64(lo, hi), 1) == hi,
{
    lemma_u64_bytes_le(lo);
    lemma_u64_bytes_le(hi);
    let s = from_lanes64(lo, hi);
    assert(s.subrange(0, 8) =~= u64_bytes(lo));
    assert(s.subrange(8, 16) =~= u64_bytes(hi));
}

/// A vector is the vector built from its two 64-bit lanes.
pub proof fn lemma_lanes64_of(s: Seq<u8>)
    requires
        s.len() == 16,
    ensures
        from_lanes64(lane64(s, 0), lane64(s, 1)) == s,
{
    lemma_u64_le_bytes(s.subrange(0, 8));
    lemma_u64_le_bytes(s.subrange(8, 16));
    assert(from_lanes64(lane64(s, 0), lane64(s, 1)) =~= s);
}

/// Reading the lanes of a vector built from four 32-bit lanes gives them back.
pub proof fn lemma_from_lanes32(l0: u32, l1: u32, l2: u32, l3: u32)
    ensures
        from_lanes32(l0, l1, l2, l3).len() == 16,
        lane32(from_lanes32(l0, l1, l2, l3), 0) == l0,
        lane32(from_lanes32(l0, l1, l2, l3), 1) == l1,
        lane32(from_lanes32(l0, l1, l2, l3), 2) == l2,
        lane32(from_lanes32(l0, l1, l2, l3), 3) == l3,
{
    lemma_u32_bytes_le(l0);
    lemma_u32_bytes_le(l1);
    lemma_u32_bytes_le(l2);
    lemma_u32_bytes_le(l3);
    let s = from_lanes32(l0, l1, l2, l3);
    assert(s.subrange(0, 4) =~= u32_bytes(l0));
    assert(s.subrange(4, 8) =~= u32_bytes(l1));
    assert(s.subrange(8, 12) =~= u32_bytes(l2));
    assert(s.subrange(12, 16) =~= u32_bytes(l3));
}

impl Vector {
    /// The vector whose 64-bit lanes are `lanes[0]` (low) and `lanes[1]` (high),
    /// as a `[u64; 2]` is laid out in memory.
    pub fn from_u64_lanes(lanes: [u64; 2]) -> (r: Vector)
        ensures
            r@ == from_lanes64(lanes[0], lanes[1]),
            lane64(r@, 0) == lanes[0],
            lane64(r@, 1) == lanes[1],
    {
        proof {
            lemma_from_lanes64(lanes[0], lanes[1]);
        }
        let lo = lanes[0];
        let hi = lanes[1];
        let r = Vector {
            bytes: [
                (lo & 0xff) as u8,
                ((lo >> 8u64) & 0xff) as u8,
                ((lo >> 16u64) & 0xff) as u8,
                ((lo >> 24u64) & 0xff) as u8,
                ((lo >> 32u64) & 0xff) as u8,
                ((lo >> 40u64) & 0xff) as u8,
                ((lo >> 48u64) & 0xff) as u8,
                ((lo >> 56u64) & 0xff) as u8,
                (hi & 0xff) as u8,
                ((hi >> 8u64) & 0xff) as u8,
                ((hi >> 16u64) & 0xff) as u8,
                ((hi >> 24u64) & 0xff) as u8,
                ((hi >> 32u64) & 0xff) as u8,
                ((hi >> 40u64) & 0xff) as u8,
                ((hi >> 48u64) & 0xff) as u8,
                ((hi >> 56u64) & 0xff) as u8,
            ],
        };
        assert(r@ =~= from_lanes64(lo, hi));
        r
    }

    /// The two 64-bit lanes of the vector, low first, as its memory holds them.
    pub fn to_u64_lanes(self) -> (r: [u64; 2])
        ensures
            r[0] == lane64(self@, 0),
            r[1] == lane64(self@, 1),
            r[0] == self@[0] + 0x100 * self@[1] + 0x1_0000 * self@[2] + 0x100_0000 * self@[3] + 0x1_0000_0000 * self@[4] + 0x100_0000_0000 * self@[5] + 0x1_0000_0000_0000 * self@[6] + 0x100_0000_0000_0000 * self@[7],
            r[1] == self@[8] + 0x100 * self@[9] + 0x1_0000 * self@[10] + 0x100_0000 * self@[11] + 0x1_0000_0000 * self@[12] + 0x100_0000_0000 * self@[13] + 0x1_0000_0000_0000 * self@[14] + 0x100_0000_0000_0000 * self@[15],
    {
        proof {
            lemma_u64_le_value(self@.subrange(0, 8));
            lemma_u64_le_value(self@.subrange(8, 16));
        }
        let b = self.bytes;
        let lo = (b[0] as u64) | ((b[1] as u64) << 8u64) | ((b[2] as u64) << 16u64) | ((b[3] as u64)
            << 24u64) | ((b[4] as u64) << 32u64) | ((b[5] as u64) << 40u64) | ((b[6] as u64)
            << 48u64) | ((b[7] as u64) << 56u64);
        let hi = (b[8] as u64) | ((b[9] as u64) << 8u64) | ((b[10] as u64) << 16u64) | ((
        b[11] as u64) << 24u64) | ((b[12] as u64) << 32u64) | ((b[13] as u64) << 40u64) | ((
        b[14] as u64) << 48u64) | ((b[15] as u64) << 56u64);
        [lo, hi]
    }

    /// The vector whose 32-bit lanes, lowest first, are `lanes[0..4]`, as a
    /// `[u32; 4]` is laid out in memory.
    pub fn from_u32_lanes(lanes: [u32; 4]) -> (r: Vector)
        ensures
            r@ == from_lanes32(lanes[0], lanes[1], lanes[2], lanes[3]),
            lane32(r@, 0) == lanes[0],
            lane32(r@, 1) == lanes[1],
            lane32(r@, 2) == lanes[2],
            lane32(r@, 3) == lanes[3],
    {
        proof {
            lemma_from_lanes32(lanes[0], lanes[1], lanes[2], lanes[3]);
        }
        let (l0, l1, l2, l3) = (lanes[0], lanes[1], lanes[2], lanes[3]);
        let r = Vector {
            bytes: [
                (l0 & 0xff) as u8,
                ((l0 >> 8u32) & 0xff) as u8,
                ((l0 >> 16u32) & 0xff) as u8,
                ((l0 >> 24u32) & 0xff) as u8,
                (l1 & 0xff) as u8,
                ((l1 >> 8u32) & 0xff) as u8,
                ((l1 >> 16u32) & 0xff) as u8,
                ((l1 >> 24u32) & 0xff) as u8,
                (l2 & 0xff) as u8,
                ((l2 >> 8u32) & 0xff) as u8,
                ((l2 >> 16u32) & 0xff) as u8,
                ((l2 >> 24u32) & 0xff) as u8,
                (l3 & 0xff) as u8,
                ((l3 >> 8u32) & 0xff) as u8,
                ((l3 >> 16u32) & 0xff) as u8,
                ((l3 >> 24u32) & 0xff) as u8,
            ],
        };
        assert(r@ =~= from_lanes32(l0, l1, l2, l3));
        r
    }

    /// The vector that holds the 128-bit integer `x` (little-endian).
    pub fn from_u128(x: u128) -> (r: Vector)
        ensures
            r@ == u128_bytes(x),
            lane64(r@, 0) == x as u64,
            lane64(r@, 1) == (x >> 64u128) as u64,
    {
        proof {
            lemma_from_lanes64(x as u64, (x >> 64u128) as u64);
        }
        Vector::from_u64_lanes([x as u64, (x >> 64u128) as u64])
    }
}

// ---------------------------------------------------------------------------
// What each instruction computes, over the bytes of its operands
// ---------------------------------------------------------------------------

/// Bytewise exclusive or.
pub open spec fn xor_spec(a: Seq<u8>, b: Seq<u8>) -> Seq<u8> {
    Seq::new(16, |i: int| a[i] ^ b[i])
}

/// Bytewise and.
pub open spec fn and_spec(a: Seq<u8>, b: Seq<u8>) -> Seq<u8> {
    Seq::new(16, |i: int| a[i] & b[i])
}

/// Bytewise or.
pub open spec fn or_spec(a: Seq<u8>, b: Seq<u8>) -> Seq<u8> {
    Seq::new(16, |i: int| a[i] | b[i])
}

/// Bytewise `!a & b`.
pub open spec fn and_not_spec(a: Seq<u8>, b: Seq<u8>) -> Seq<u8> {
    Seq::new(16, |i: int| !a[i] & b[i])
}

/// The vector moved `n` bytes towards its high end, zeros shifted in.
pub open spec fn shift_left_spec(s: Seq<u8>, n: int) -> Seq<u8> {
    Seq::new(16, |i: int| if i >= n { s[i - n] } else { 0u8 })
}

/// The vector moved `n` bytes towards its low end, zeros shifted in.
pub open spec fn shift_right_spec(s: Seq<u8>, n: int) -> Seq<u8> {
    Seq::new(16, |i: int| if i + n < 16 { s[i + n] } else { 0u8 })
}

/// Every byte equal to `x`.
pub open spec fn splat_spec(x: u8) -> Seq<u8> {
    Seq::new(16, |i: int| x)
}

/// A byte read as a two's complement `i8`.
pub open spec fn signed_byte(b: u8) -> int {
    if b < 128 {
        b as int
    } else {
        b - 256
    }
}

/// Bytewise signed `a < b`: all ones where it holds, zero elsewhere.
pub open spec fn less_than_spec(a: Seq<u8>, b: Seq<u8>) -> Seq<u8> {
    Seq::new(16, |i: int| if signed_byte(a[i]) < signed_byte(b[i]) { 0xffu8 } else { 0u8 })
}

/// Byte `i` of the result is zero when bit 7 of `mask[i]` is set, and
/// otherwise the byte of `data` indexed by the low four bits of `mask[i]`.
pub open spec fn shuffle_spec(data: Seq<u8>, mask: Seq<u8>) -> Seq<u8> {
    Seq::new(
        16,
        |i: int|
            if mask[i] & 0x80u8 != 0 {
                0u8
            } else {
                data[(mask[i] & 0x0fu8) as int]
            },
    )
}

/// Byte `i` of the result is `b[i]` when bit 7 of `mask[i]` is set, else `a[i]`.
pub open spec fn blend_spec(a: Seq<u8>, b: Seq<u8>, mask: Seq<u8>) -> Seq<u8> {
    Seq::new(16, |i: int| if mask[i] & 0x80u8 != 0 { b[i] } else { a[i] })
}

/// The source lane that 32-bit lane `j` of a `pshufd` result is taken from.
pub open spec fn lane_selector(imm: u8, j: int) -> int {
    ((imm >> ((2 * j) as u8)) & 3u8) as int
}

/// 32-bit lane `j` of the result is lane `lane_selector(imm, j)` of `v`.
pub open spec fn shuffle32_spec(v: Seq<u8>, imm: u8) -> Seq<u8> {
    Seq::new(16, |i: int| v[4 * lane_selector(imm, i / 4) + i % 4])
}

/// `v` with 32-bit lane `k` replaced by `x`.
pub open spec fn insert32_spec(v: Seq<u8>, x: u32, k: int) -> Seq<u8> {
    Seq::new(16, |i: int| if 4 * k <= i < 4 * k + 4 { u32_bytes(x)[i - 4 * k] } else { v[i] })
}

// ---------------------------------------------------------------------------
// What the instructions do, byte by byte
// ---------------------------------------------------------------------------

/// Bytewise logic: byte `i` of each result is the operation applied to byte
/// `i` of the operands.
pub proof fn lemma_bytewise_logic(a: Seq<u8>, b: Seq<u8>)
    ensures
        xor_spec(a, b).len() == 16,
        and_spec(a, b).len() == 16,
        or_spec(a, b).len() == 16,
        and_not_spec(a, b).len() == 16,
        forall|i: int| 0 <= i < 16 ==> #[trigger] xor_spec(a, b)[i] == a[i] ^ b[i],
        forall|i: int| 0 <= i < 16 ==> #[trigger] and_spec(a, b)[i] == a[i] & b[i],
        forall|i: int| 0 <= i < 16 ==> #[trigger] or_spec(a, b)[i] == a[i] | b[i],
        forall|i: int| 0 <= i < 16 ==> #[trigger] and_not_spec(a, b)[i] == !a[i] & b[i],
{
}

/// A right shift by `n` bytes moves byte `i + n` down to `i` and fills the top
/// `n` bytes with zeros, whatever the vector's top byte is: it is the 128-bit
/// logical shift `v >> 8n`.
pub proof fn lemma_shift_right_bytes(s: Seq<u8>, n: int)
    requires
        n >= 0,
    ensures
        shift_right_spec(s, n).len() == 16,
        forall|i: int| 0 <= i < 16 && i + n < 16 ==> #[trigger] shift_right_spec(s, n)[i] == s[i + n],
        forall|i: int| 0 <= i < 16 && 16 <= i + n ==> #[trigger] shift_right_spec(s, n)[i] == 0,
{
}

/// A left shift by `n` bytes moves byte `i - n` up to `i` and fills the low
/// `n` bytes with zeros: it is the 128-bit shift `v << 8n`.
pub proof fn lemma_shift_left_bytes(s: Seq<u8>, n: int)
    requires
        n >= 0,
    ensures
        shift_left_spec(s, n).len() == 16,
        forall|i: int| 0 <= i < 16 && n <= i ==> #[trigger] shift_left_spec(s, n)[i] == s[i - n],
        forall|i: int| 0 <= i < 16 && i < n ==> #[trigger] shift_left_spec(s, n)[i] == 0,
{
}

/// Eight zero bytes read as a `u64` are zero.
pub proof fn lemma_u64_le_zero(s: Seq<u8>)
    requires
        s.len() == 8,
        forall|i: int| 0 <= i < 8 ==> s[i] == 0,
    ensures
        u64_le(s) == 0,
{
    let (b0, b1, b2, b3, b4, b5, b6, b7) = (s[0], s[1], s[2], s[3], s[4], s[5], s[6], s[7]);
    assert(b0 == 0 && b1 == 0 && b2 == 0 && b3 == 0 && b4 == 0 && b5 == 0 && b6 == 0 && b7 == 0 ==> (
    b0 as u64) | ((b1 as u64) << 8u64) | ((b2 as u64) << 16u64) | ((b3 as u64) << 24u64) | ((
    b4 as u64) << 32u64) | ((b5 as u64) << 40u64) | ((b6 as u64) << 48u64) | ((b7 as u64) << 56u64)
        == 0) by (bit_vector);
}

/// A shift by eight bytes moves a whole 64-bit lane and zeroes the other:
/// shifting right leaves the old high lane low and zero above; shifting left
/// leaves the old low lane high and zero below.
pub proof fn lemma_shift_8_lanes(s: Seq<u8>)
    requires
        s.len() == 16,
    ensures
        lane64(shift_right_spec(s, 8), 0) == lane64(s, 1),
        lane64(shift_right_spec(s, 8), 1) == 0,
        lane64(shift_left_spec(s, 8), 1) == lane64(s, 0),
        lane64(shift_left_spec(s, 8), 0) == 0,
{
    assert(shift_right_spec(s, 8).subrange(0, 8) =~= s.subrange(8, 16));
    assert(shift_left_spec(s, 8).subrange(8, 16) =~= s.subrange(0, 8));
    lemma_u64_le_zero(shift_right_spec(s, 8).subrange(8, 16));
    lemma_u64_le_zero(shift_left_spec(s, 8).subrange(0, 8));
}

/// Every byte of a broadcast is the broadcast value, unchanged.
pub proof fn lemma_splat_bytes(x: u8)
    ensures
        splat_spec(x).len() == 16,
        forall|i: int| 0 <= i < 16 ==> #[trigger] splat_spec(x)[i] == x,
{
}

/// A blend takes `b[i]` where bit 7 of `mask[i]` is set and `a[i]` where it is
/// clear; so an all-0x80 mask gives `b` and an all-zero mask gives `a`.
pub proof fn lemma_blend_selects(a: Seq<u8>, b: Seq<u8>, mask: Seq<u8>)
    requires
        a.len() == 16,
        b.len() == 16,
    ensures
        blend_spec(a, b, mask).len() == 16,
        forall|i: int|
            0 <= i < 16 && mask[i] & 0x80u8 != 0 ==> #[trigger] blend_spec(a, b, mask)[i] == b[i],
        forall|i: int|
            0 <= i < 16 && mask[i] & 0x80u8 == 0 ==> #[trigger] blend_spec(a, b, mask)[i] == a[i],
        blend_spec(a, b, splat_spec(0x80)) == b,
        blend_spec(a, b, splat_spec(0)) == a,
{
    assert(0x80u8 & 0x80u8 != 0 && 0u8 & 0x80u8 == 0) by (bit_vector);
    assert(blend_spec(a, b, splat_spec(0x80)) =~= b);
    assert(blend_spec(a, b, splat_spec(0)) =~= a);
}

/// A byte shuffle zeroes byte `i` exactly when bit 7 of `mask[i]` is set, and
/// otherwise copies the data byte that the low four bits of `mask[i]` index,
/// whatever its value; so the mask `15, 14, ..., 0` reverses the data.
pub proof fn lemma_shuffle_selects(data: Seq<u8>, mask: Seq<u8>)
    requires
        data.len() == 16,
    ensures
        shuffle_spec(data, mask).len() == 16,
        forall|i: int|
            0 <= i < 16 && mask[i] & 0x80u8 != 0 ==> #[trigger] shuffle_spec(data, mask)[i] == 0,
        forall|i: int|
            0 <= i < 16 && mask[i] & 0x80u8 == 0 ==> #[trigger] shuffle_spec(data, mask)[i]
                == data[(mask[i] & 0x0fu8) as int],
        shuffle_spec(data, Seq::new(16, |i: int| (15 - i) as u8)) == data.reverse(),
{
    let rev = Seq::new(16, |i: int| (15 - i) as u8);
    assert forall|i: int| 0 <= i < 16 implies #[trigger] shuffle_spec(data, rev)[i] == data.reverse()[i] by {
        let c = (15 - i) as u8;
        assert(c < 16 ==> c & 0x80u8 == 0 && c & 0x0fu8 == c) by (bit_vector);
    }
    assert(shuffle_spec(data, rev) =~= data.reverse());
}

/// A signed byte compare gives all ones where `a[i] < b[i]` as `i8`s and zero
/// elsewhere.
pub proof fn lemma_less_than_bytes(a: Seq<u8>, b: Seq<u8>)
    ensures
        less_than_spec(a, b).len() == 16,
        forall|i: int|
            0 <= i < 16 ==> #[trigger] less_than_spec(a, b)[i] == if (if a[i] < 128 {
                a[i] as int
            } else {
                a[i] - 256
            }) < (if b[i] < 128 {
                b[i] as int
            } else {
                b[i] - 256
            }) {
                0xffu8
            } else {
                0u8
            },
{
}

impl Vector {
    /// `_mm_setzero_si128`: the all-zero vector.
    pub fn zero() -> (r: Vector)
        ensures
            r@ == splat_spec(0),
            forall|i: int| 0 <= i < 16 ==> r@[i] == 0,
    {
        Vector::splat(0)
    }

    /// `_mm_set1_epi8`: every byte equal to `x`.
    pub fn splat(x: u8) -> (r: Vector)
        ensures
            r@ == splat_spec(x),
            r@.len() == 16,
            forall|i: int| 0 <= i < 16 ==> r@[i] == x,
    {
        proof {
            lemma_splat_bytes(x);
        }
        let r = Vector { bytes: [x; 16] };
        assert(r@ =~= splat_spec(x));
        r
    }

    /// `_mm_cvtsi32_si128`: `x` in the lowest 32-bit lane, zeros above.
    pub fn from_low_u32(x: u32) -> (r: Vector)
        ensures
            r@ == from_lanes32(x, 0, 0, 0),
    {
        Vector::from_u32_lanes([x, 0, 0, 0])
    }

    /// `_mm_cvtsi128_si64`: the low 64-bit lane.
    pub fn low_u64(self) -> (r: u64)
        ensures
            r == lane64(self@, 0),
    {
        let lanes = self.to_u64_lanes();
        lanes[0]
    }

    /// `_mm_cvtsi128_si32`: the lowest 32-bit lane.
    pub fn low_u32(self) -> (r: u32)
        ensures
            r == lane32(self@, 0),
    {
        let b = self.bytes;
        (b[0] as u32) | ((b[1] as u32) << 8u32) | ((b[2] as u32) << 16u32) | ((b[3] as u32) << 24u32)
    }

    /// `_mm_unpacklo_epi64`: the low 64-bit lane of `self`, then that of `other`.
    pub fn unpack_low64(self, other: Vector) -> (r: Vector)
        ensures
            r@ == self@.subrange(0, 8) + other@.subrange(0, 8),
    {
        let mut out = self.bytes;
        for i in 8..16
            invariant
                out@.len() == 16,
                forall|j: int| 0 <= j < 8 ==> out@[j] == self@[j],
                forall|j: int| 8 <= j < i ==> out@[j] == other@[j - 8],
        {
            out[i] = other.bytes[i - 8];
        }
        assert(out@ =~= self@.subrange(0, 8) + other@.subrange(0, 8));
        Vector { bytes: out }
    }

    /// `_mm_xor_si128`: bytewise exclusive or.
    pub fn xor(self, other: Vector) -> (r: Vector)
        ensures
            r@ == xor_spec(self@, other@),
            r@.len() == 16,
            forall|i: int| 0 <= i < 16 ==> r@[i] == self@[i] ^ other@[i],
    {
        proof {
            lemma_bytewise_logic(self@, other@);
        }
        let mut out = [0u8; 16];
        for i in 0..16
            invariant
                out@.len() == 16,
                forall|j: int| 0 <= j < i ==> out@[j] == self@[j] ^ other@[j],
        {
            out[i] = self.bytes[i] ^ other.bytes[i];
        }
        assert(out@ =~= xor_spec(self@, other@));
        Vector { bytes: out }
    }

    /// `_mm_and_si128`: bytewise and.
    pub fn and(self, other: Vector) -> (r: Vector)
        ensures
            r@ == and_spec(self@, other@),
            r@.len() == 16,
            forall|i: int| 0 <= i < 16 ==> r@[i] == self@[i] & other@[i],
    {
        proof {
            lemma_bytewise_logic(self@, other@);
        }
        let mut out = [0u8; 16];
        for i in 0..16
            invariant
                out@.len() == 16,
                forall|j: int| 0 <= j < i ==> out@[j] == self@[j] & other@[j],
        {
            out[i] = self.bytes[i] & other.bytes[i];
        }
        assert(out@ =~= and_spec(self@, other@));
        Vector { bytes: out }
    }

    /// `_mm_or_si128`: bytewise or.
    pub fn or(self, other: Vector) -> (r: Vector)
        ensures
            r@ == or_spec(self@, other@),
            r@.len() == 16,
            forall|i: int| 0 <= i < 16 ==> r@[i] == self@[i] | other@[i],
    {
        proof {
            lemma_bytewise_logic(self@, other@);
        }
        let mut out = [0u8; 16];
        for i in 0..16
            invariant
                out@.len() == 16,
                forall|j: int| 0 <= j < i ==> out@[j] == self@[j] | other@[j],
        {
            out[i] = self.bytes[i] | other.bytes[i];
        }
        assert(out@ =~= or_spec(self@, other@));
        Vector { bytes: out }
    }

    /// `_mm_andnot_si128`: bytewise `!self & other`.
    pub fn and_not(self, other: Vector) -> (r: Vector)
        ensures
            r@ == and_not_spec(self@, other@),
            r@.len() == 16,
            forall|i: int| 0 <= i < 16 ==> r@[i] == !self@[i] & other@[i],
    {
        proof {
            lemma_bytewise_logic(self@, other@);
        }
        let mut out = [0u8; 16];
        for i in 0..16
            invariant
                out@.len() == 16,
                forall|j: int| 0 <= j < i ==> out@[j] == !self@[j] & other@[j],
        {
            out[i] = !self.bytes[i] & other.bytes[i];
        }
        assert(out@ =~= and_not_spec(self@, other@));
        Vector { bytes: out }
    }

    /// `_mm_slli_si128`: shift the whole vector left by `n` bytes.
    pub fn shift_bytes_left(self, n: usize) -> (r: Vector)
        ensures
            r@ == shift_left_spec(self@, n as int),
            r@.len() == 16,
            forall|i: int| 0 <= i < 16 && n <= i ==> r@[i] == self@[i - n],
            forall|i: int| 0 <= i < 16 && i < n ==> r@[i] == 0,
    {
        proof {
            lemma_shift_left_bytes(self@, n as int);
        }
        let mut out = [0u8; 16];
        for i in 0..16
            invariant
                out@.len() == 16,
                forall|j: int| 0 <= j < i ==> out@[j] == shift_left_spec(self@, n as int)[j],
                forall|j: int| i <= j < 16 ==> out@[j] == 0,
        {
            if i >= n {
                out[i] = self.bytes[i - n];
            }
        }
        assert(out@ =~= shift_left_spec(self@, n as int));
        Vector { bytes: out }
    }

    /// `_mm_srli_si128`: shift the whole vector right by `n` bytes.
    pub fn shift_bytes_right(self, n: usize) -> (r: Vector)
        ensures
            r@ == shift_right_spec(self@, n as int),
            r@.len() == 16,
            forall|i: int| 0 <= i < 16 && i + n < 16 ==> r@[i] == self@[i + n],
            forall|i: int| 0 <= i < 16 && 16 <= i + n ==> r@[i] == 0,
    {
        proof {
            lemma_shift_right_bytes(self@, n as int);
        }
        let mut out = [0u8; 16];
        for i in 0..16
            invariant
                out@.len() == 16,
                forall|j: int| 0 <= j < i ==> out@[j] == shift_right_spec(self@, n as int)[j],
                forall|j: int| i <= j < 16 ==> out@[j] == 0,
        {
            if n < 16 - i {
                out[i] = self.bytes[i + n];
            }
        }
        assert(out@ =~= shift_right_spec(self@, n as int));
        Vector { bytes: out }
    }

    /// `_mm_cmplt_epi8`: bytewise signed less-than, as all-ones or zero bytes.
    pub fn less_than_bytes(self, other: Vector) -> (r: Vector)
        ensures
            r@ == less_than_spec(self@, other@),
            r@.len() == 16,
            forall|i: int|
                0 <= i < 16 ==> r@[i] == if (if self@[i] < 128 {
                    self@[i] as int
                } else {
                    self@[i] - 256
                }) < (if other@[i] < 128 {
                    other@[i] as int
                } else {
                    other@[i] - 256
                }) {
                    0xffu8
                } else {
                    0u8
                },
    {
        proof {
            lemma_less_than_bytes(self@, other@);
        }
        let mut out = [0u8; 16];
        for i in 0..16
            invariant
                out@.len() == 16,
                forall|j: int| 0 <= j < i ==> out@[j] == less_than_spec(self@, other@)[j],
        {
            let x = self.bytes[i];
            let y = other.bytes[i];
            let sx: i16 = if x < 128 { x as i16 } else { x as i16 - 256 };
            let sy: i16 = if y < 128 { y as i16 } else { y as i16 - 256 };
            out[i] = if sx < sy { 0xff } else { 0 };
        }
        assert(out@ =~= less_than_spec(self@, other@));
        Vector { bytes: out }
    }

    /// `_mm_shuffle_epi8`: pick bytes of `self` by the indices in `mask`.
    pub fn shuffle_bytes(self, mask: Vector) -> (r: Vector)
        ensures
            r@ == shuffle_spec(self@, mask@),
            r@.len() == 16,
            forall|i: int| 0 <= i < 16 && mask@[i] & 0x80u8 != 0 ==> r@[i] == 0,
            forall|i: int|
                0 <= i < 16 && mask@[i] & 0x80u8 == 0 ==> r@[i] == self@[(mask@[i] & 0x0fu8) as int],
    {
        proof {
            lemma_shuffle_selects(self@, mask@);
        }
        let mut out = [0u8; 16];
        for i in 0..16
            invariant
                out@.len() == 16,
                forall|j: int| 0 <= j < i ==> out@[j] == shuffle_spec(self@, mask@)[j],
        {
            let ctl = mask.bytes[i];
            if ctl & 0x80 != 0 {
                out[i] = 0;
            } else {
                assert(ctl & 0x0f < 16) by (bit_vector);
                out[i] = self.bytes[(ctl & 0x0f) as usize];
            }
        }
        assert(out@ =~= shuffle_spec(self@, mask@));
        Vector { bytes: out }
    }

    /// `_mm_blendv_epi8`: take `other`'s byte where bit 7 of the mask byte is
    /// set, `self`'s byte elsewhere.
    pub fn blend_bytes(self, other: Vector, mask: Vector) -> (r: Vector)
        ensures
            r@ == blend_spec(self@, other@, mask@),
            r@.len() == 16,
            forall|i: int| 0 <= i < 16 && mask@[i] & 0x80u8 != 0 ==> r@[i] == other@[i],
            forall|i: int| 0 <= i < 16 && mask@[i] & 0x80u8 == 0 ==> r@[i] == self@[i],
    {
        proof {
            lemma_blend_selects(self@, other@, mask@);
        }
        let mut out = [0u8; 16];
        for i in 0..16
            invariant
                out@.len() == 16,
                forall|j: int| 0 <= j < i ==> out@[j] == blend_spec(self@, other@, mask@)[j],
        {
            out[i] = if mask.bytes[i] & 0x80 != 0 {
                other.bytes[i]
            } else {
                self.bytes[i]
            };
        }
        assert(out@ =~= blend_spec(self@, other@, mask@));
        Vector { bytes: out }
    }

    /// `_mm_shuffle_epi32`: 32-bit lane `j` of the result is lane
    /// `(imm >> 2j) & 3` of `self`.
    pub fn shuffle_lanes32(self, imm: u8) -> (r: Vector)
        ensures
            r@ == shuffle32_spec(self@, imm),
            r@.len() == 16,
            forall|i: int|
                0 <= i < 16 ==> r@[i] == self@[4 * ((imm >> ((2 * (i / 4)) as u8)) & 3u8) + i % 4],
    {
        let mut out = [0u8; 16];
        for i in 0..16
            invariant
                out@.len() == 16,
                forall|j: int| 0 <= j < i ==> out@[j] == shuffle32_spec(self@, imm)[j],
        {
            let j: u8 = (i / 4) as u8;
            let sel: u8 = (imm >> (2 * j)) & 3;
            assert(sel <= 3) by (bit_vector)
                requires
                    sel == (imm >> (2 * j)) & 3,
            ;
            out[i] = self.bytes[4 * (sel as usize) + i % 4];
        }
        assert(out@ =~= shuffle32_spec(self@, imm));
        Vector { bytes: out }
    }

    /// `_mm_insert_epi32`: `self` with 32-bit lane `k` replaced by `x`.
    pub fn insert_lane32(self, x: u32, k: usize) -> (r: Vector)
        requires
            k < 4,
        ensures
            r@ == insert32_spec(self@, x, k as int),
            r@.len() == 16,
            lane32(r@, k as int) == x,
            forall|i: int| 0 <= i < 16 && !(4 * k <= i < 4 * k + 4) ==> r@[i] == self@[i],
    {
        let xb = Vector::from_low_u32(x);
        proof {
            lemma_from_lanes32(x, 0, 0, 0);
            assert(xb@.subrange(0, 4) =~= u32_bytes(x));
        }
        let mut out = self.bytes;
        for t in 0..4
            invariant
                k < 4,
                out@.len() == 16,
                xb@ == from_lanes32(x, 0, 0, 0),
                xb@.subrange(0, 4) == u32_bytes(x),
                forall|j: int|
                    0 <= j < 16 ==> out@[j] == if 4 * k <= j < 4 * k + t {
                        u32_bytes(x)[j - 4 * k]
                    } else {
                        self@[j]
                    },
        {
            assert(xb@.subrange(0, 4)[t as int] == xb@[t as int]);
            out[4 * k + t] = xb.bytes[t];
        }
        assert(out@ =~= insert32_spec(self@, x, k as int));
        proof {
            lemma_u32_bytes_le(x);
            assert(out@.subrange(4 * k as int, 4 * k as int + 4) =~= u32_bytes(x));
        }
        Vector { bytes: out }
    }
}

} // verus!
