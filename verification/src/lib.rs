//! Argmin/argmax over one-dimensional numeric buffers.
//!
//! For a non-empty contiguous buffer the crate computes, in one pass, the
//! index of the minimum element and the index of the maximum element.  Ties
//! are broken towards the first occurrence, and for half-precision data a
//! NaN short-circuits the computation to the position of the first NaN.
//!
//! Two engines produce the pair: a scalar reference engine, and a
//! lane-parallel engine that works on fixed-width groups of order-preserving
//! integer encodings.  Both are verified against the same mathematical
//! contract, so they agree on every input.

use vstd::prelude::*;

pub mod f16_ord;
pub mod f32_ord;
pub mod f64_ord;
pub mod model;
pub mod scalar;
pub mod simd_u32;

verus! {

use crate::f16_ord::{F16, scalar_argminmax_f16};
use crate::f32_ord::F32;
use crate::f64_ord::F64;
use crate::model::argminmax_post;
use crate::scalar::{key_seq_of, nan_seq_of, scalar_argminmax};
use crate::simd_u32::argminmax_u32;

/// Index pair of the minimum and maximum element of a buffer.
pub trait ArgMinMax: Sized {
    /// Order-preserving integer key of each element, in buffer order.
    spec fn key_seq(self) -> Seq<int>;

    /// Which elements are NaN (always false for integer element types).
    spec fn nan_seq(self) -> Seq<bool>;

    /// There is one NaN flag for each key.
    proof fn seqs_agree(self)
        ensures
            self.key_seq().len() == self.nan_seq().len(),
    ;

    /// Returns `(min_index, max_index)`: the first position of the smallest
    /// element and the first position of the largest element, or twice the
    /// position of the first NaN if one occurs.
    fn argminmax(self) -> (r: (usize, usize))
        requires
            self.key_seq().len() >= 1,
        ensures
            argminmax_post(self.key_seq(), self.nan_seq(), r.0 as int, r.1 as int),
    ;
}

impl ArgMinMax for &[i16] {
    open spec fn key_seq(self) -> Seq<int> {
        key_seq_of(self@)
    }

    open spec fn nan_seq(self) -> Seq<bool> {
        nan_seq_of(self@)
    }

    proof fn seqs_agree(self) {
    }

    fn argminmax(self) -> (r: (usize, usize)) {
        scalar_argminmax(self)
    }
}

impl ArgMinMax for &[i32] {
    open spec fn key_seq(self) -> Seq<int> {
        key_seq_of(self@)
    }

    open spec fn nan_seq(self) -> Seq<bool> {
        nan_seq_of(self@)
    }

    proof fn seqs_agree(self) {
    }

    fn argminmax(self) -> (r: (usize, usize)) {
        scalar_argminmax(self)
    }
}

impl ArgMinMax for &[i64] {
    open spec fn key_seq(self) -> Seq<int> {
        key_seq_of(self@)
    }

    open spec fn nan_seq(self) -> Seq<bool> {
        nan_seq_of(self@)
    }

    proof fn seqs_agree(self) {
    }

    fn argminmax(self) -> (r: (usize, usize)) {
        scalar_argminmax(self)
    }
}

impl ArgMinMax for &[u32] {
    open spec fn key_seq(self) -> Seq<int> {
        key_seq_of(self@)
    }

    open spec fn nan_seq(self) -> Seq<bool> {
        nan_seq_of(self@)
    }

    proof fn seqs_agree(self) {
    }

    /// The lane-parallel engine serves every length its 32-bit index lanes
    /// can address; longer buffers fall back to the scalar engine.
    fn argminmax(self) -> (r: (usize, usize)) {
        if self.len() <= 0x7FFF_FFFF {
            argminmax_u32(self)
        } else {
            scalar_argminmax(self)
        }
    }
}

impl ArgMinMax for &[F16] {
    open spec fn key_seq(self) -> Seq<int> {
        key_seq_of(self@)
    }

    open spec fn nan_seq(self) -> Seq<bool> {
        nan_seq_of(self@)
    }

    proof fn seqs_agree(self) {
    }

    fn argminmax(self) -> (r: (usize, usize)) {
        scalar_argminmax_f16(self)
    }
}

impl ArgMinMax for &[F32] {
    open spec fn key_seq(self) -> Seq<int> {
        key_seq_of(self@)
    }

    open spec fn nan_seq(self) -> Seq<bool> {
        nan_seq_of(self@)
    }

    proof fn seqs_agree(self) {
    }

    fn argminmax(self) -> (r: (usize, usize)) {
        scalar_argminmax(self)
    }
}

impl ArgMinMax for &[F64] {
    open spec fn key_seq(self) -> Seq<int> {
        key_seq_of(self@)
    }

    open spec fn nan_seq(self) -> Seq<bool> {
        nan_seq_of(self@)
    }

    proof fn seqs_agree(self) {
    }

    fn argminmax(self) -> (r: (usize, usize)) {
        scalar_argminmax(self)
    }
}

} // verus!
