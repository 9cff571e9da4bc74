//! Eight-bit arithmetic with the carry and signed-overflow results that the
//! condition-code register records.

use vstd::prelude::*;

verus! {

/// The value of a byte read as a two's-complement signed number.
pub open spec fn signed(x: u8) -> int {
    if x < 128 {
        x as int
    } else {
        x as int - 256
    }
}

/// Whether a signed result falls outside the range of a signed byte.
pub open spec fn out_of_signed_range(v: int) -> bool {
    v < -128 || v > 127
}

/// Bit `i` of `x`, counted from the least significant bit.
pub open spec fn bit_of(x: u8, i: u8) -> bool {
    (x >> i) & 1u8 == 1u8
}

/// Reading of single bits of a value.
pub trait GetBit {
    spec fn bit_spec(&self, bit_idx: u8) -> bool;

    fn bit(&self, bit_idx: u8) -> (r: bool)
        requires
            bit_idx < 8,
        ensures
            r == self.bit_spec(bit_idx),
    ;
}

impl GetBit for u8 {
    open spec fn bit_spec(&self, bit_idx: u8) -> bool {
        bit_of(*self, bit_idx)
    }

    fn bit(&self, bit_idx: u8) -> (r: bool) {
        (*self >> bit_idx) & 1u8 == 1u8
    }
}

/// The (sum, carry, overflow) triple of `x + y + cin`.
pub open spec fn add_spec(x: u8, y: u8, cin: bool) -> (u8, bool, bool) {
    let total = x as int + y as int + if cin { 1int } else { 0int };
    let s = signed(x) + signed(y) + if cin { 1int } else { 0int };
    ((total % 256) as u8, total > 255, out_of_signed_range(s))
}

/// The (difference, borrow, overflow) triple of `x - y - cin`.
pub open spec fn sub_spec(x: u8, y: u8, cin: bool) -> (u8, bool, bool) {
    let total = x as int - y as int - if cin { 1int } else { 0int };
    let s = signed(x) - signed(y) - if cin { 1int } else { 0int };
    ((total % 256) as u8, total < 0, out_of_signed_range(s))
}

fn signed_i16(x: u8) -> (r: i16)
    ensures
        r as int == signed(x),
{
    if x < 128 {
        x as i16
    } else {
        x as i16 - 256
    }
}

/// 8-bit addition.
///
/// Returns: (sum, c_flag, v_flag)
pub fn add(x: u8, y: u8) -> (r: (u8, bool, bool))
    ensures
        r == add_spec(x, y, false),
{
    add_c(x, y, false)
}

/// 8-bit addition with carry-in: performs `x + y + cin`.
///
/// Returns: (sum, c_flag, v_flag)
pub fn add_c(x: u8, y: u8, cin: bool) -> (r: (u8, bool, bool))
    ensures
        r == add_spec(x, y, cin),
{
    let c: u16 = if cin { 1 } else { 0 };
    let total: u16 = x as u16 + y as u16 + c;
    let s: i16 = signed_i16(x) + signed_i16(y) + c as i16;
    ((total % 256) as u8, total > 255, s < -128 || s > 127)
}

/// 8-bit subtraction: performs `x - y`.
///
/// Returns: (difference, c_flag, v_flag)
pub fn sub(x: u8, y: u8) -> (r: (u8, bool, bool))
    ensures
        r == sub_spec(x, y, false),
{
    sub_c(x, y, false)
}

/// 8-bit subtraction with borrow-in: performs `x - y - cin`.
///
/// Returns: (difference, c_flag, v_flag)
pub fn sub_c(x: u8, y: u8, cin: bool) -> (r: (u8, bool, bool))
    ensures
        r == sub_spec(x, y, cin),
{
    let c: i16 = if cin { 1 } else { 0 };
    let total: i16 = x as i16 - y as i16 - c;
    let s: i16 = signed_i16(x) - signed_i16(y) - c;
    let wrapped: i16 = if total < 0 { total + 256 } else { total };
    assert(wrapped as int == (total as int) % 256);
    (wrapped as u8, total < 0, s < -128 || s > 127)
}

/// The (result, carry, overflow) triple of a logical shift left.
pub open spec fn shl_spec(x: u8) -> (u8, bool, bool) {
    let r = ((2 * x as int) % 256) as u8;
    (r, x >= 128, (x >= 128) != (r >= 128))
}

/// Logical shift left: performs `x << 1`; the carry is the bit shifted out.
///
/// Returns: (result, c_flag, v_flag)
pub fn shl(x: u8) -> (r: (u8, bool, bool))
    ensures
        r == shl_spec(x),
{
    let c = x >= 128;
    let res: u8 = ((2 * x as u16) % 256) as u8;
    (res, c, c != (res >= 128))
}

/// The (result, carry, overflow) triple of a logical shift right.
pub open spec fn shr_spec(x: u8) -> (u8, bool, bool) {
    let r = x / 2;
    (r, x % 2 == 1, (r >= 128) != (x >= 128))
}

/// Logical shift right: performs `x >> 1`; the carry is the bit shifted out.
///
/// Returns: (result, c_flag, v_flag)
pub fn shr(x: u8) -> (r: (u8, bool, bool))
    ensures
        r == shr_spec(x),
{
    let res = x / 2;
    (res, x % 2 == 1, (res >= 128) != (x >= 128))
}

/// The (result, carry) pair of an arithmetic shift right.
pub open spec fn shr_signed_spec(x: u8) -> (u8, bool) {
    ((x / 2 + if x >= 128 { 128int } else { 0int }) as u8, x % 2 == 1)
}

/// Arithmetic shift right: performs `x >> 1` keeping the sign bit.
///
/// Returns: (result, c_flag)
pub fn shr_signed(x: u8) -> (r: (u8, bool))
    ensures
        r == shr_signed_spec(x),
{
    let top: u8 = if x >= 128 { 128 } else { 0 };
    (x / 2 + top, x % 2 == 1)
}

/// The (result, carry) pair of a rotation to the left.
pub open spec fn rotate_left_spec(x: u8) -> (u8, bool) {
    (((2 * x as int) % 256 + if x >= 128 { 1int } else { 0int }) as u8, x >= 128)
}

/// Rotate left: performs `x << 1` with bit 7 wrapped around to bit 0.
///
/// Returns: (result, c_flag)
pub fn rotate_left(x: u8) -> (r: (u8, bool))
    ensures
        r == rotate_left_spec(x),
{
    let low: u16 = if x >= 128 { 1 } else { 0 };
    ((((2 * x as u16) % 256) + low) as u8, x >= 128)
}

/// The (result, carry) pair of a rotation to the right.
pub open spec fn rotate_right_spec(x: u8) -> (u8, bool) {
    ((x / 2 + if x % 2 == 1 { 128int } else { 0int }) as u8, x % 2 == 1)
}

/// Rotate right: performs `x >> 1` with bit 0 wrapped around to bit 7.
///
/// Returns: (result, c_flag)
pub fn rotate_right(x: u8) -> (r: (u8, bool))
    ensures
        r == rotate_right_spec(x),
{
    let top: u8 = if x % 2 == 1 { 128 } else { 0 };
    (x / 2 + top, x % 2 == 1)
}


/// A value reduced to a byte, modulo 256.
pub open spec fn wrap8(v: int) -> u8 {
    (v % 256) as u8
}

/// `x + y` modulo 256.
pub fn add8(x: u8, y: u8) -> (r: u8)
    ensures
        r == wrap8(x + y),
{
    ((x as u16 + y as u16) % 256) as u8
}

/// `x - y` modulo 256.
pub fn sub8(x: u8, y: u8) -> (r: u8)
    ensures
        r == wrap8(x - y),
{
    if x >= y {
        x - y
    } else {
        ((x as u16 + 256) - y as u16) as u8
    }
}

} // verus!
