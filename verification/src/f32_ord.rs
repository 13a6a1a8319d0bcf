//! Single-precision elements and their ordinal encoding.
//!
//! As with the half-precision support, a single-precision value is carried
//! as its 32 raw bits ([`F32`]); the ordinal encoder turns the
//! sign-magnitude pattern into a two's-complement `i32` whose order is the
//! numeric order of the finite values.  NaN is excluded from the ordering
//! guarantee and detected separately.

use vstd::prelude::*;

verus! {

use crate::scalar::Element;

/// A single-precision float, held as its raw bit pattern.
#[derive(Clone, Copy, Debug, PartialEq, Eq, Structural)]
pub struct F32 {
    pub bits: u32,
}

/// NaN bit patterns: exponent all ones, mantissa non-zero.
pub open spec fn f32_is_nan(bits: u32) -> bool {
    bits & 0x7F80_0000 == 0x7F80_0000 && bits & 0x007F_FFFF != 0
}

/// The position of a bit pattern in single-precision numeric order.
pub open spec fn f32_key(bits: u32) -> int {
    if bits < 0x8000_0000 {
        bits as int
    } else {
        0x7FFF_FFFF - bits
    }
}

impl F32 {
    /// Wraps a raw single-precision bit pattern.
    pub fn from_bits(bits: u32) -> (r: F32)
        ensures
            r.bits == bits,
    {
        F32 { bits }
    }

    /// The raw bit pattern.
    pub fn to_bits(self) -> (r: u32)
        ensures
            r == self.bits,
    {
        self.bits
    }
}

impl Element for F32 {
    open spec fn key(self) -> int {
        f32_key(self.bits)
    }

    open spec fn nan(self) -> bool {
        f32_is_nan(self.bits)
    }

    fn is_nan(self) -> (r: bool) {
        self.bits & 0x7F80_0000 == 0x7F80_0000 && self.bits & 0x007F_FFFF != 0
    }

    fn lt(self, other: Self) -> (r: bool) {
        f32_to_i32ord(self) < f32_to_i32ord(other)
    }

    fn gt(self, other: Self) -> (r: bool) {
        f32_to_i32ord(self) > f32_to_i32ord(other)
    }
}

/// Ordinal encoder: single-precision bits to an `i32` that compares in
/// numeric order.  Must not be trusted on NaN patterns.
pub fn f32_to_i32ord(x: F32) -> (r: i32)
    ensures
        r as int == f32_key(x.bits),
{
    let b: i32 = x.bits as i32;
    let r: i32 = ((b >> 31) & 0x7FFF_FFFF) ^ b;
    proof {
        let bu = x.bits;
        assert((((((bu as i32) >> 31) & 0x7FFF_FFFF) ^ (bu as i32)) as int) == (if bu
            < 0x8000_0000 {
            bu as int
        } else {
            0x7FFF_FFFF - bu
        })) by (bit_vector);
    }
    r
}

/// Ordinal decoder: exact inverse of `f32_to_i32ord` (the transform is an
/// involution on the 32-bit patterns).
pub fn i32ord_to_f32(v: i32) -> (r: F32)
    ensures
        f32_key(r.bits) == v as int,
{
    let y: i32 = ((v >> 31) & 0x7FFF_FFFF) ^ v;
    let r = F32 { bits: y as u32 };
    proof {
        assert(f32_key(((((v >> 31) & 0x7FFF_FFFF) ^ v) as u32)) == v as int) by (bit_vector);
    }
    r
}

/// The ordinal key determines the bit pattern.
pub proof fn lemma_f32_key_injective(a: u32, b: u32)
    requires
        f32_key(a) == f32_key(b),
    ensures
        a == b,
{
}

/// Round trip: decoding the encoding of any single-precision value gives
/// back exactly that value.
pub proof fn lemma_f32_ordinal_round_trip(x: F32, e: i32, d: F32)
    requires
        e as int == f32_key(x.bits),
        f32_key(d.bits) == e as int,
    ensures
        d == x,
{
    lemma_f32_key_injective(d.bits, x.bits);
}

} // verus!
