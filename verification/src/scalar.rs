//! Scalar reference engine.
//!
//! `scalar_argminmax` walks the buffer element by element and is the
//! semantic authority of the crate: every other engine is proved to meet the
//! same contract.  It is generic over the element type through the
//! [`Element`] trait, which hands it an order-preserving integer key and a
//! NaN test for each element.

use vstd::prelude::*;

verus! {

use crate::model::{argminmax_post, is_first_min, is_first_max};

/// One element of a buffer: ordered by an integer key, possibly NaN.
pub trait Element: Sized + Copy {
    /// The element's position in its type's order, as a mathematical integer.
    spec fn key(self) -> int;

    /// Whether the element is a NaN (never true for integer types).
    spec fn nan(self) -> bool;

    /// NaN test, faithful to `nan`.
    fn is_nan(self) -> (r: bool)
        ensures
            r == self.nan(),
    ;

    /// Strict `<` on keys.
    fn lt(self, other: Self) -> (r: bool)
        ensures
            r == (self.key() < other.key()),
    ;

    /// Strict `>` on keys.
    fn gt(self, other: Self) -> (r: bool)
        ensures
            r == (self.key() > other.key()),
    ;
}

/// The keys of a buffer, in buffer order.
pub open spec fn key_seq_of<T: Element>(s: Seq<T>) -> Seq<int> {
    Seq::new(s.len(), |i: int| s[i].key())
}

/// The NaN flags of a buffer, in buffer order.
pub open spec fn nan_seq_of<T: Element>(s: Seq<T>) -> Seq<bool> {
    Seq::new(s.len(), |i: int| s[i].nan())
}

impl Element for i16 {
    open spec fn key(self) -> int {
        self as int
    }

    open spec fn nan(self) -> bool {
        false
    }

    fn is_nan(self) -> (r: bool) {
        false
    }

    fn lt(self, other: Self) -> (r: bool) {
        self < other
    }

    fn gt(self, other: Self) -> (r: bool) {
        self > other
    }
}

impl Element for i32 {
    open spec fn key(self) -> int {
        self as int
    }

    open spec fn nan(self) -> bool {
        false
    }

    fn is_nan(self) -> (r: bool) {
        false
    }

    fn lt(self, other: Self) -> (r: bool) {
        self < other
    }

    fn gt(self, other: Self) -> (r: bool) {
        self > other
    }
}

impl Element for i64 {
    open spec fn key(self) -> int {
        self as int
    }

    open spec fn nan(self) -> bool {
        false
    }

    fn is_nan(self) -> (r: bool) {
        false
    }

    fn lt(self, other: Self) -> (r: bool) {
        self < other
    }

    fn gt(self, other: Self) -> (r: bool) {
        self > other
    }
}

impl Element for u32 {
    open spec fn key(self) -> int {
        self as int
    }

    open spec fn nan(self) -> bool {
        false
    }

    fn is_nan(self) -> (r: bool) {
        false
    }

    fn lt(self, other: Self) -> (r: bool) {
        self < other
    }

    fn gt(self, other: Self) -> (r: bool) {
        self > other
    }
}

/// Single-pass scalar argmin/argmax.
///
/// Both candidates start at position 0; each later element replaces a
/// candidate only under strict inequality, so among equal elements the first
/// position is kept.  The first NaN element short-circuits the whole pass to
/// its own position.
pub fn scalar_argminmax<T: Element>(arr: &[T]) -> (r: (usize, usize))
    requires
        arr@.len() >= 1,
    ensures
        argminmax_post(key_seq_of(arr@), nan_seq_of(arr@), r.0 as int, r.1 as int),
{
    let ghost keys = key_seq_of(arr@);
    let ghost nans = nan_seq_of(arr@);
    let n: usize = arr.len();
    let mut low_index: usize = 0;
    let mut high_index: usize = 0;
    let mut low: T = arr[0];
    let mut high: T = arr[0];
    let mut i: usize = 0;
    while i < n
        invariant
            n == arr@.len(),
            1 <= n,
            i <= n,
            keys == key_seq_of(arr@),
            nans == nan_seq_of(arr@),
            forall|j: int| 0 <= j < i ==> !arr@[j].nan(),
            low_index < n,
            high_index < n,
            low == arr@[low_index as int],
            high == arr@[high_index as int],
            i == 0 ==> low_index == 0 && high_index == 0 && low == arr@[0] && high == arr@[0],
            i >= 1 ==> is_first_min(keys.take(i as int), low_index as int),
            i >= 1 ==> is_first_max(keys.take(i as int), high_index as int),
        decreases n - i,
    {
        let v: T = arr[i];
        if v.is_nan() {
            proof {
                assert(nans[i as int]);
                assert(forall|j: int| 0 <= j < i ==> !nans[j]);
            }
            return (i, i);
        }
        if v.lt(low) {
            low = v;
            low_index = i;
        } else if v.gt(high) {
            high = v;
            high_index = i;
        }
        proof {
            let ki = i as int;
            let pre = keys.take(ki);
            let post_seq = keys.take(ki + 1);
            assert(post_seq[ki] == v.key());
            assert(forall|j: int| 0 <= j < ki ==> post_seq[j] == pre[j]);
            if i == 0 {
                assert(is_first_min(post_seq, low_index as int));
                assert(is_first_max(post_seq, high_index as int));
            }
        }
        i = i + 1;
    }
    proof {
        assert(keys.take(n as int) =~= keys);
        assert(forall|j: int| 0 <= j < n ==> !nans[j]);
    }
    (low_index, high_index)
}

} // verus!
