//! Double-precision elements and their ordinal encoding.
//!
//! A double-precision value is carried as its 64 raw bits ([`F64`]); the
//! ordinal encoder turns the sign-magnitude pattern into a two's-complement
//! `i64` whose order is the numeric order of the finite values.  NaN is
//! excluded from the ordering guarantee and detected separately.

use vstd::prelude::*;

verus! {

use crate::scalar::Element;

/// A double-precision float, held as its raw bit pattern.
#[derive(Clone, Copy, Debug, PartialEq, Eq, Structural)]
pub struct F64 {
    pub bits: u64,
}

/// NaN bit patterns: exponent all ones, mantissa non-zero.
pub open spec fn f64_is_nan(bits: u64) -> bool {
    bits & 0x7FF0_0000_0000_0000 == 0x7FF0_0000_0000_0000 && bits & 0x000F_FFFF_FFFF_FFFF != 0
}

/// The position of a bit pattern in double-precision numeric order.
pub open spec fn f64_key(bits: u64) -> int {
    if bits < 0x8000_0000_0000_0000 {
        bits as int
    } else {
        0x7FFF_FFFF_FFFF_FFFF - bits
    }
}

impl F64 {
    /// Wraps a raw double-precision bit pattern.
    pub fn from_bits(bits: u64) -> (r: F64)
        ensures
            r.bits == bits,
    {
        F64 { bits }
    }

    /// The raw bit pattern.
    pub fn to_bits(self) -> (r: u64)
        ensures
            r == self.bits,
    {
        self.bits
    }
}

impl Element for F64 {
    open spec fn key(self) -> int {
        f64_key(self.bits)
    }

    open spec fn nan(self) -> bool {
        f64_is_nan(self.bits)
    }

    fn is_nan(self) -> (r: bool) {
        self.bits & 0x7FF0_0000_0000_0000 == 0x7FF0_0000_0000_0000 && self.bits
            & 0x000F_FFFF_FFFF_FFFF != 0
    }

    fn lt(self, other: Self) -> (r: bool) {
        f64_to_i64ord(self) < f64_to_i64ord(other)
    }

    fn gt(self, other: Self) -> (r: bool) {
        f64_to_i64ord(self) > f64_to_i64ord(other)
    }
}

/// Ordinal encoder: double-precision bits to an `i64` that compares in
/// numeric order.  Must not be trusted on NaN patterns.
pub fn f64_to_i64ord(x: F64) -> (r: i64)
    ensures
        r as int == f64_key(x.bits),
{
    let b: i64 = x.bits as i64;
    let r: i64 = ((b >> 63) & 0x7FFF_FFFF_FFFF_FFFF) ^ b;
    proof {
        let bu = x.bits;
        assert((((((bu as i64) >> 63) & 0x7FFF_FFFF_FFFF_FFFF) ^ (bu as i64)) as int) == (if bu
            < 0x8000_0000_0000_0000 {
            bu as int
        } else {
            0x7FFF_FFFF_FFFF_FFFF - bu
        })) by (bit_vector);
    }
    r
}

/// Ordinal decoder: exact inverse of `f64_to_i64ord` (the transform is an
/// involution on the 64-bit patterns).
pub fn i64ord_to_f64(v: i64) -> (r: F64)
    ensures
        f64_key(r.bits) == v as int,
{
    let y: i64 = ((v >> 63) & 0x7FFF_FFFF_FFFF_FFFF) ^ v;
    let r = F64 { bits: y as u64 };
    proof {
        assert(f64_key(((((v >> 63) & 0x7FFF_FFFF_FFFF_FFFF) ^ v) as u64)) == v as int)
            by (bit_vector);
    }
    r
}

/// The ordinal key determines the bit pattern.
pub proof fn lemma_f64_key_injective(a: u64, b: u64)
    requires
        f64_key(a) == f64_key(b),
    ensures
        a == b,
{
}

/// Round trip: decoding the encoding of any double-precision value gives
/// back exactly that value.
pub proof fn lemma_f64_ordinal_round_trip(x: F64, e: i64, d: F64)
    requires
        e as int == f64_key(x.bits),
        f64_key(d.bits) == e as int,
    ensures
        d == x,
{
    lemma_f64_key_injective(d.bits, x.bits);
}

} // verus!
