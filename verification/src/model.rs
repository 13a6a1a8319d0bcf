//! Mathematical model of the argmin/argmax computation.
//!
//! Every engine in this crate (scalar or lane-parallel) is specified against
//! the predicates below: the result is the position of the first occurrence
//! of the smallest / largest ordinal key, unless a NaN element occurs, in
//! which case both results are the position of the first NaN.

use vstd::prelude::*;

verus! {

/// Some element of the sequence is a NaN.
pub open spec fn has_nan(nans: Seq<bool>) -> bool {
    exists|j: int| 0 <= j < nans.len() && nans[j]
}

/// `p` is the position of the first NaN element.
pub open spec fn is_first_nan(nans: Seq<bool>, p: int) -> bool {
    &&& 0 <= p < nans.len()
    &&& nans[p]
    &&& forall|j: int| 0 <= j < p ==> !nans[j]
}

/// `i` is the position of the first occurrence of the minimum key.
pub open spec fn is_first_min(keys: Seq<int>, i: int) -> bool {
    &&& 0 <= i < keys.len()
    &&& forall|j: int| 0 <= j < keys.len() ==> keys[i] <= keys[j]
    &&& forall|j: int| 0 <= j < i ==> keys[i] < keys[j]
}

/// `i` is the position of the first occurrence of the maximum key.
pub open spec fn is_first_max(keys: Seq<int>, i: int) -> bool {
    &&& 0 <= i < keys.len()
    &&& forall|j: int| 0 <= j < keys.len() ==> keys[i] >= keys[j]
    &&& forall|j: int| 0 <= j < i ==> keys[i] > keys[j]
}

/// Full contract of `argminmax`: a first NaN short-circuits the whole
/// computation to its own position; otherwise the pair is the first
/// argmin and the first argmax of the key sequence.
pub open spec fn argminmax_post(keys: Seq<int>, nans: Seq<bool>, mi: int, ma: int) -> bool {
    if has_nan(nans) {
        is_first_nan(nans, mi) && ma == mi
    } else {
        is_first_min(keys, mi) && is_first_max(keys, ma)
    }
}

/// The first argmin position is unique: two positions that both satisfy
/// `is_first_min` are equal.
pub proof fn lemma_first_min_unique(keys: Seq<int>, i: int, j: int)
    requires
        is_first_min(keys, i),
        is_first_min(keys, j),
    ensures
        i == j,
{
    if i < j {
        assert(keys[j] < keys[i]);
    } else if j < i {
        assert(keys[i] < keys[j]);
    }
}

/// The first argmax position is unique.
pub proof fn lemma_first_max_unique(keys: Seq<int>, i: int, j: int)
    requires
        is_first_max(keys, i),
        is_first_max(keys, j),
    ensures
        i == j,
{
    if i < j {
        assert(keys[j] > keys[i]);
    } else if j < i {
        assert(keys[i] > keys[j]);
    }
}

/// The first NaN position is unique.
pub proof fn lemma_first_nan_unique(nans: Seq<bool>, p: int, q: int)
    requires
        is_first_nan(nans, p),
        is_first_nan(nans, q),
    ensures
        p == q,
{
}

/// Any two results that satisfy the `argminmax` contract on the same input
/// agree, so every engine of this crate returns the same pair as the scalar
/// reference engine on every input.
pub proof fn lemma_argminmax_deterministic(
    keys: Seq<int>,
    nans: Seq<bool>,
    mi1: int,
    ma1: int,
    mi2: int,
    ma2: int,
)
    requires
        argminmax_post(keys, nans, mi1, ma1),
        argminmax_post(keys, nans, mi2, ma2),
    ensures
        mi1 == mi2,
        ma1 == ma2,
{
    if has_nan(nans) {
        lemma_first_nan_unique(nans, mi1, mi2);
    } else {
        lemma_first_min_unique(keys, mi1, mi2);
        lemma_first_max_unique(keys, ma1, ma2);
    }
}

/// Outside the NaN short-circuit, both returned indices are valid
/// positions, the element at `min_index` is less than or equal to every
/// element, and the element at `max_index` is greater than or equal to
/// every element.
pub proof fn lemma_result_is_extremal(keys: Seq<int>, nans: Seq<bool>, mi: int, ma: int)
    requires
        argminmax_post(keys, nans, mi, ma),
        !has_nan(nans),
    ensures
        0 <= mi < keys.len(),
        0 <= ma < keys.len(),
        forall|j: int| 0 <= j < keys.len() ==> keys[mi] <= keys[j],
        forall|j: int| 0 <= j < keys.len() ==> keys[ma] >= keys[j],
{
}

/// Tie-break: when the extreme value occurs at several positions, the
/// returned index is the smallest of them — every earlier position holds a
/// strictly different value.
pub proof fn lemma_result_is_first_occurrence(keys: Seq<int>, nans: Seq<bool>, mi: int, ma: int)
    requires
        argminmax_post(keys, nans, mi, ma),
        !has_nan(nans),
    ensures
        forall|j: int| 0 <= j < keys.len() && keys[j] == keys[mi] ==> mi <= j,
        forall|j: int| 0 <= j < keys.len() && keys[j] == keys[ma] ==> ma <= j,
{
    assert forall|j: int| 0 <= j < keys.len() && keys[j] == keys[mi] implies mi <= j by {
        if j < mi {
            assert(keys[mi] < keys[j]);
        }
    }
    assert forall|j: int| 0 <= j < keys.len() && keys[j] == keys[ma] implies ma <= j by {
        if j < ma {
            assert(keys[ma] > keys[j]);
        }
    }
}

/// NaN short-circuit: when position `p` holds the first NaN, both returned
/// indices equal `p`, whatever the other elements are.
pub proof fn lemma_nan_short_circuit(keys: Seq<int>, nans: Seq<bool>, p: int, mi: int, ma: int)
    requires
        argminmax_post(keys, nans, mi, ma),
        is_first_nan(nans, p),
    ensures
        mi == p,
        ma == p,
{
    assert(has_nan(nans));
    lemma_first_nan_unique(nans, mi, p);
}

/// When every element is a NaN, the first NaN stands at position 0, so both
/// returned indices are 0.
pub proof fn lemma_all_nan_first_is_zero(nans: Seq<bool>, p: int)
    requires
        nans.len() >= 1,
        forall|j: int| 0 <= j < nans.len() ==> nans[j],
        is_first_nan(nans, p),
    ensures
        p == 0,
{
    if p > 0 {
        assert(nans[0]);
    }
}

/// An all-NaN input yields the pair `(0, 0)`.
pub proof fn lemma_all_nan_result_is_zero(keys: Seq<int>, nans: Seq<bool>, mi: int, ma: int)
    requires
        nans.len() >= 1,
        forall|j: int| 0 <= j < nans.len() ==> nans[j],
        argminmax_post(keys, nans, mi, ma),
    ensures
        mi == 0,
        ma == 0,
{
    assert(nans[0]);
    lemma_all_nan_first_is_zero(nans, mi);
}

} // verus!
