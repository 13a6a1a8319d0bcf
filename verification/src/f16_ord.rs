//! Half-precision elements and their ordinal encoding.
//!
//! A half-precision value is carried as its 16 raw bits ([`F16`]); callers
//! that hold a native half-precision float convert through its bit pattern.
//! The ordinal encoder maps those bits to an `i16` whose two's-complement
//! order is the numeric order of the finite values (sign-magnitude turned
//! into two's complement, so every negative value sorts below every
//! non-negative one and larger negative magnitudes sort lower).  NaN is
//! excluded from that guarantee and is detected separately, before the
//! encoding is trusted.

use vstd::prelude::*;

verus! {

use crate::model::{argminmax_post, is_first_min, is_first_max};
use crate::scalar::{Element, key_seq_of, nan_seq_of};

/// A half-precision float, held as its raw bit pattern.
#[derive(Clone, Copy, Debug, PartialEq, Eq, Structural)]
pub struct F16 {
    pub bits: u16,
}

/// NaN bit patterns: exponent all ones, mantissa non-zero.
pub open spec fn f16_is_nan(bits: u16) -> bool {
    bits & 0x7C00 == 0x7C00 && bits & 0x03FF != 0
}

/// The position of a bit pattern in half-precision numeric order: the sign
/// bit turns the sign-magnitude pattern into a signed key, so non-negative
/// values keep their pattern and negative values are reflected below zero.
pub open spec fn f16_key(bits: u16) -> int {
    if bits < 0x8000 {
        bits as int
    } else {
        0x7FFF - bits
    }
}

impl F16 {
    /// Wraps a raw half-precision bit pattern.
    pub fn from_bits(bits: u16) -> (r: F16)
        ensures
            r.bits == bits,
    {
        F16 { bits }
    }

    /// The raw bit pattern.
    pub fn to_bits(self) -> (r: u16)
        ensures
            r == self.bits,
    {
        self.bits
    }
}

impl Element for F16 {
    open spec fn key(self) -> int {
        f16_key(self.bits)
    }

    open spec fn nan(self) -> bool {
        f16_is_nan(self.bits)
    }

    fn is_nan(self) -> (r: bool) {
        self.bits & 0x7C00 == 0x7C00 && self.bits & 0x03FF != 0
    }

    fn lt(self, other: Self) -> (r: bool) {
        f16_to_i16ord(self) < f16_to_i16ord(other)
    }

    fn gt(self, other: Self) -> (r: bool) {
        f16_to_i16ord(self) > f16_to_i16ord(other)
    }
}

/// Ordinal encoder: half-precision bits to an `i16` that compares in
/// numeric order.  Must not be trusted on NaN patterns, which are detected
/// separately.
pub fn f16_to_i16ord(x: F16) -> (r: i16)
    ensures
        r as int == f16_key(x.bits),
{
    let b: i16 = x.bits as i16;
    let r: i16 = ((b >> 15) & 0x7FFF) ^ b;
    proof {
        let bu = x.bits;
        assert((((((bu as i16) >> 15) & 0x7FFF) ^ (bu as i16)) as int) == (if bu < 0x8000 {
            bu as int
        } else {
            0x7FFF - bu
        })) by (bit_vector);
    }
    r
}

/// Ordinal decoder: exact inverse of `f16_to_i16ord` (the transform is an
/// involution on the 16-bit patterns).
pub fn i16ord_to_f16(v: i16) -> (r: F16)
    ensures
        f16_key(r.bits) == v as int,
{
    let y: i16 = ((v >> 15) & 0x7FFF) ^ v;
    let r = F16 { bits: y as u16 };
    proof {
        assert(f16_key(((((v >> 15) & 0x7FFF) ^ v) as u16)) == v as int) by (bit_vector);
    }
    r
}

/// The ordinal key determines the bit pattern: encoding is injective on all
/// 16-bit patterns, so decoding the encoding of any half-precision value
/// gives back exactly that value.
pub proof fn lemma_f16_key_injective(a: u16, b: u16)
    requires
        f16_key(a) == f16_key(b),
    ensures
        a == b,
{
}

/// Round trip: decoding the encoding of any half-precision value gives
/// back exactly that value.
pub proof fn lemma_f16_ordinal_round_trip(x: F16, e: i16, d: F16)
    requires
        e as int == f16_key(x.bits),
        f16_key(d.bits) == e as int,
    ensures
        d == x,
{
    lemma_f16_key_injective(d.bits, x.bits);
}

/// Specialized half-precision scalar engine: encodes each element to its
/// `i16` ordinal once and compares integers, with the same contract as the
/// generic scalar engine.
pub fn scalar_argminmax_f16(arr: &[F16]) -> (r: (usize, usize))
    requires
        arr@.len() >= 1,
    ensures
        argminmax_post(key_seq_of(arr@), nan_seq_of(arr@), r.0 as int, r.1 as int),
{
    let ghost keys = key_seq_of(arr@);
    let ghost nans = nan_seq_of(arr@);
    let n: usize = arr.len();
    let mut low_index: usize = 0;
    let mut high_index: usize = 0;
    let mut low: i16 = f16_to_i16ord(arr[0]);
    let mut high: i16 = f16_to_i16ord(arr[0]);
    let mut i: usize = 0;
    while i < n
        invariant
            n == arr@.len(),
            1 <= n,
            i <= n,
            keys == key_seq_of(arr@),
            nans == nan_seq_of(arr@),
            forall|j: int| 0 <= j < i ==> !arr@[j].nan(),
            low_index < n,
            high_index < n,
            low as int == f16_key(arr@[low_index as int].bits),
            high as int == f16_key(arr@[high_index as int].bits),
            i == 0 ==> low_index == 0 && high_index == 0,
            i >= 1 ==> is_first_min(keys.take(i as int), low_index as int),
            i >= 1 ==> is_first_max(keys.take(i as int), high_index as int),
        decreases n - i,
    {
        let v: F16 = arr[i];
        if v.is_nan() {
            proof {
                assert(nans[i as int]);
                assert(forall|j: int| 0 <= j < i ==> !nans[j]);
            }
            return (i, i);
        }
        let vi: i16 = f16_to_i16ord(v);
        if vi < low {
            low = vi;
            low_index = i;
        } else if vi > high {
            high = vi;
            high_index = i;
        }
        proof {
            let ki = i as int;
            let post_seq = keys.take(ki + 1);
            assert(post_seq[ki] == f16_key(arr@[ki].bits));
            assert(forall|j: int| 0 <= j < ki ==> post_seq[j] == keys.take(ki)[j]);
            if i == 0 {
                assert(is_first_min(post_seq, low_index as int));
                assert(is_first_max(post_seq, high_index as int));
            }
        }
        i = i + 1;
    }
    proof {
        assert(keys.take(n as int) =~= keys);
        assert(forall|j: int| 0 <= j < n ==> !nans[j]);
    }
    (low_index, high_index)
}

} // verus!
