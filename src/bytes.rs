//! Little-endian field access on a byte buffer, and the order of IEEE-754
//! single-precision values kept as their raw bit patterns.
use vstd::prelude::*;

verus! {

/// The unsigned 16-bit little-endian value at `p`.
pub open spec fn u16_le(b: Seq<u8>, p: int) -> u16 {
    (b[p] as int + b[p + 1] as int * 256) as u16
}

/// The unsigned 32-bit little-endian value at `p`.
pub open spec fn u32_le(b: Seq<u8>, p: int) -> u32 {
    (b[p] as int + b[p + 1] as int * 256 + b[p + 2] as int * 65536 + b[p + 3] as int
        * 16777216) as u32
}

/// The signed 16-bit little-endian value at `p` (two's complement).
pub open spec fn i16_le(b: Seq<u8>, p: int) -> i16 {
    u16_le(b, p) as i16
}

/// The signed 32-bit little-endian value at `p` (two's complement).
pub open spec fn i32_le(b: Seq<u8>, p: int) -> i32 {
    u32_le(b, p) as i32
}

/// `n` bytes starting at `p` lie inside the buffer.
pub open spec fn fits(b: Seq<u8>, p: int, n: int) -> bool {
    0 <= p && 0 <= n && p + n <= b.len()
}

pub fn read_u8(b: &[u8], p: usize) -> (r: u8)
    requires
        p < b@.len(),
    ensures
        r == b@[p as int],
{
    b[p]
}

pub fn read_u16(b: &[u8], p: usize) -> (r: u16)
    requires
        fits(b@, p as int, 2),
    ensures
        r == u16_le(b@, p as int),
{
    let lo = b[p] as u16;
    let hi = b[p + 1] as u16;
    lo + hi * 256
}

pub fn read_u32(b: &[u8], p: usize) -> (r: u32)
    requires
        fits(b@, p as int, 4),
    ensures
        r == u32_le(b@, p as int),
{
    let b0 = b[p] as u32;
    let b1 = b[p + 1] as u32;
    let b2 = b[p + 2] as u32;
    let b3 = b[p + 3] as u32;
    b0 + b1 * 256 + b2 * 65536 + b3 * 16777216
}

pub fn read_i16(b: &[u8], p: usize) -> (r: i16)
    requires
        fits(b@, p as int, 2),
    ensures
        r == i16_le(b@, p as int),
{
    read_u16(b, p) as i16
}

pub fn read_i32(b: &[u8], p: usize) -> (r: i32)
    requires
        fits(b@, p as int, 4),
    ensures
        r == i32_le(b@, p as int),
{
    read_u32(b, p) as i32
}

/// A fixed-width name field: its bytes up to the first NUL, or all of them.
pub open spec fn is_name_of(r: Seq<u8>, field: Seq<u8>) -> bool {
    &&& r.len() <= field.len()
    &&& r == field.take(r.len() as int)
    &&& forall|i: int| 0 <= i < r.len() ==> r[i] != 0
    &&& r.len() == field.len() || field[r.len() as int] == 0
}

/// Reads the name stored in the `n` bytes at `p`.
pub fn read_name(b: &[u8], p: usize, n: usize) -> (r: Vec<u8>)
    requires
        fits(b@, p as int, n as int),
    ensures
        is_name_of(r@, b@.subrange(p as int, p + n)),
{
    let ghost field = b@.subrange(p as int, p + n);
    let _len = b.len();
    let mut r: Vec<u8> = Vec::new();
    let mut i: usize = 0;
    while i < n && b[p + i] != 0
        invariant
            i <= n,
            fits(b@, p as int, n as int),
            _len == b@.len(),
            field == b@.subrange(p as int, p + n),
            r@ == field.take(i as int),
            forall|k: int| 0 <= k < i ==> r@[k] != 0,
        decreases n - i,
    {
        r.push(b[p + i]);
        i = i + 1;
        assert(r@ =~= field.take(i as int));
    }
    r
}

/// A 3-vector of single-precision values, each kept as its IEEE-754 bit pattern.
#[derive(Clone, Copy, Debug, PartialEq, Eq, Structural)]
pub struct Vec3Bits {
    pub x: u32,
    pub y: u32,
    pub z: u32,
}

/// A 2-vector of single-precision values, each kept as its IEEE-754 bit pattern.
#[derive(Clone, Copy, Debug, PartialEq, Eq, Structural)]
pub struct Vec2Bits {
    pub u: u32,
    pub v: u32,
}

pub open spec fn vec3_le(b: Seq<u8>, p: int) -> Vec3Bits {
    Vec3Bits { x: u32_le(b, p), y: u32_le(b, p + 4), z: u32_le(b, p + 8) }
}

pub open spec fn vec2_le(b: Seq<u8>, p: int) -> Vec2Bits {
    Vec2Bits { u: u32_le(b, p), v: u32_le(b, p + 4) }
}

pub fn read_vec3(b: &[u8], p: usize) -> (r: Vec3Bits)
    requires
        fits(b@, p as int, 12),
    ensures
        r == vec3_le(b@, p as int),
{
    let _len = b.len();
    Vec3Bits { x: read_u32(b, p), y: read_u32(b, p + 4), z: read_u32(b, p + 8) }
}

pub fn read_vec2(b: &[u8], p: usize) -> (r: Vec2Bits)
    requires
        fits(b@, p as int, 8),
    ensures
        r == vec2_le(b@, p as int),
{
    let _len = b.len();
    Vec2Bits { u: read_u32(b, p), v: read_u32(b, p + 4) }
}

/// The bit pattern is a NaN: all exponent bits set and a non-zero fraction.
pub open spec fn is_nan_bits(x: u32) -> bool {
    x & 0x7f80_0000u32 == 0x7f80_0000u32 && x & 0x007f_ffffu32 != 0
}

/// Position of a non-NaN value on the real line: sign and magnitude bits read as
/// an integer, so that both zeros sit at 0 and the order of values is kept.
pub open spec fn order_key(x: u32) -> int {
    if x & 0x8000_0000u32 != 0 {
        -((x & 0x7fff_ffffu32) as int)
    } else {
        (x & 0x7fff_ffffu32) as int
    }
}

/// The smaller of two values; a NaN gives way to the other operand.
pub open spec fn min_bits(a: u32, b: u32) -> u32 {
    if is_nan_bits(a) {
        b
    } else if is_nan_bits(b) {
        a
    } else if order_key(a) <= order_key(b) {
        a
    } else {
        b
    }
}

/// The larger of two values; a NaN gives way to the other operand.
pub open spec fn max_bits(a: u32, b: u32) -> u32 {
    if is_nan_bits(a) {
        b
    } else if is_nan_bits(b) {
        a
    } else if order_key(a) >= order_key(b) {
        a
    } else {
        b
    }
}

pub fn is_nan(x: u32) -> (r: bool)
    ensures
        r == is_nan_bits(x),
{
    x & 0x7f80_0000u32 == 0x7f80_0000u32 && x & 0x007f_ffffu32 != 0
}

pub fn key_of(x: u32) -> (r: i64)
    ensures
        r == order_key(x),
{
    let m = (x & 0x7fff_ffffu32) as i64;
    if x & 0x8000_0000u32 != 0 {
        -m
    } else {
        m
    }
}

pub fn min_of(a: u32, b: u32) -> (r: u32)
    ensures
        r == min_bits(a, b),
{
    if is_nan(a) {
        b
    } else if is_nan(b) {
        a
    } else if key_of(a) <= key_of(b) {
        a
    } else {
        b
    }
}

pub fn max_of(a: u32, b: u32) -> (r: u32)
    ensures
        r == max_bits(a, b),
{
    if is_nan(a) {
        b
    } else if is_nan(b) {
        a
    } else if key_of(a) >= key_of(b) {
        a
    } else {
        b
    }
}

/// Of any two values, the smaller never lies above the larger.
pub proof fn lemma_min_below_max(a: u32, b: u32)
    ensures
        order_key(min_bits(a, b)) <= order_key(max_bits(a, b)),
{
}

} // verus!
