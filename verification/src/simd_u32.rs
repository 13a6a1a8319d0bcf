//! Lane-parallel engine for 32-bit unsigned elements.
//!
//! This is the portable backend instantiation for 32-bit elements: eight
//! lanes of 32 bits (the width of one 256-bit register), realized with
//! verified lane-by-lane operations instead of machine intrinsics.  The
//! elements are pre-encoded on load with a *decreasing* ordinal encoding
//! (`v XOR 0x7FFF_FFFF` reinterpreted as signed), so that a single signed
//! compare serves both directions; the roles of minimum and maximum are
//! swapped back after the horizontal reduction.

use vstd::prelude::*;

verus! {

broadcast use vstd::array::group_array_axioms;

use crate::model::{argminmax_post, is_first_min, is_first_max};
use crate::scalar::{key_seq_of, nan_seq_of, scalar_argminmax};

/// Number of 32-bit lanes in one 256-bit register.
pub const LANE_SIZE: usize = 8;

/// Decreasing ordinal key of a 32-bit unsigned element: the signed value of
/// `v XOR 0x7FFF_FFFF`, which is `0x7FFF_FFFF - v`, strictly decreasing in
/// `v`.
pub open spec fn i32decr_of(v: u32) -> int {
    0x7FFF_FFFF - v
}

/// Inverse of `i32decr_of`, back from a decreasing ordinal key.
pub open spec fn u32_of_i32decr(e: int) -> int {
    0x7FFF_FFFF - e
}

/// Ordinal encoder: transforms a 32-bit unsigned value to monotonically
/// *decreasing* signed order, so `a < b` exactly when `encode(a) > encode(b)`.
pub fn u32_to_i32decrord(v: u32) -> (r: i32)
    ensures
        r as int == i32decr_of(v),
{
    let r: i32 = (v ^ 0x7FFF_FFFF) as i32;
    proof {
        assert(((v ^ 0x7FFF_FFFF) as i32) as int == 0x7FFF_FFFF - v) by (bit_vector);
    }
    r
}

/// Ordinal decoder: exact inverse of `u32_to_i32decrord`.
pub fn decr_ord_i32_to_u32(ord_i32: i32) -> (r: u32)
    ensures
        r as int == u32_of_i32decr(ord_i32 as int),
{
    let r: u32 = (ord_i32 ^ 0x7FFF_FFFF) as u32;
    proof {
        assert(((ord_i32 ^ 0x7FFF_FFFF) as u32) as int == 0x7FFF_FFFF - ord_i32) by (bit_vector);
    }
    r
}

/// Decoding the encoding of any 32-bit unsigned value gives it back
/// unchanged.
pub proof fn lemma_u32_ordinal_round_trip(v: u32)
    ensures
        u32_of_i32decr(i32decr_of(v)) == v,
{
}

/// The decreasing encoding reverses strict order: smaller original values
/// carry strictly larger keys.
pub proof fn lemma_u32_ordinal_reverses_order(a: u32, b: u32)
    ensures
        (a < b) == (i32decr_of(a) > i32decr_of(b)),
{
}

/// Loads eight consecutive elements starting at `offset`, pre-encoded with
/// the decreasing ordinal encoding.
pub fn mm_load(arr: &[u32], offset: usize) -> (r: [i32; 8])
    requires
        offset + 8 <= arr@.len(),
    ensures
        forall|l: int| 0 <= l < 8 ==> #[trigger] r@[l] as int == i32decr_of(arr@[offset + l]),
{
    let n: usize = arr.len();
    let mut out: [i32; 8] = [0i32; 8];
    let mut l: usize = 0;
    while l < 8
        invariant
            l <= 8,
            n == arr@.len(),
            offset + 8 <= n,
            forall|k: int| 0 <= k < l ==> #[trigger] out@[k] as int == i32decr_of(
                arr@[offset + k],
            ),
        decreases 8 - l,
    {
        out[l] = u32_to_i32decrord(arr[offset + l]);
        l = l + 1;
    }
    out
}

/// Broadcasts one signed value into every lane.
pub fn mm_set1(a: i32) -> (r: [i32; 8])
    ensures
        forall|l: int| 0 <= l < 8 ==> #[trigger] r@[l] == a,
{
    [a; 8]
}

/// Lane-wise addition of two index vectors.
pub fn mm_add(a: [i32; 8], b: [i32; 8]) -> (r: [i32; 8])
    requires
        forall|l: int| 0 <= l < 8 ==> i32::MIN <= #[trigger] (a@[l] + b@[l]) <= i32::MAX,
    ensures
        forall|l: int| 0 <= l < 8 ==> #[trigger] r@[l] == a@[l] + b@[l],
{
    let mut out: [i32; 8] = [0i32; 8];
    let mut l: usize = 0;
    while l < 8
        invariant
            l <= 8,
            forall|k: int| 0 <= k < 8 ==> i32::MIN <= #[trigger] (a@[k] + b@[k]) <= i32::MAX,
            forall|k: int| 0 <= k < l ==> #[trigger] out@[k] == a@[k] + b@[k],
        decreases 8 - l,
    {
        out[l] = a[l] + b[l];
        l = l + 1;
    }
    out
}

/// Lane-wise strict greater-than, as a lane mask.
pub fn mm_cmpgt(a: [i32; 8], b: [i32; 8]) -> (r: [bool; 8])
    ensures
        forall|l: int| 0 <= l < 8 ==> #[trigger] r@[l] == (a@[l] > b@[l]),
{
    let mut out: [bool; 8] = [false; 8];
    let mut l: usize = 0;
    while l < 8
        invariant
            l <= 8,
            forall|k: int| 0 <= k < l ==> #[trigger] out@[k] == (a@[k] > b@[k]),
        decreases 8 - l,
    {
        out[l] = a[l] > b[l];
        l = l + 1;
    }
    out
}

/// Lane-wise strict less-than, as a lane mask.
pub fn mm_cmplt(a: [i32; 8], b: [i32; 8]) -> (r: [bool; 8])
    ensures
        forall|l: int| 0 <= l < 8 ==> #[trigger] r@[l] == (a@[l] < b@[l]),
{
    let mut out: [bool; 8] = [false; 8];
    let mut l: usize = 0;
    while l < 8
        invariant
            l <= 8,
            forall|k: int| 0 <= k < l ==> #[trigger] out@[k] == (a@[k] < b@[k]),
        decreases 8 - l,
    {
        out[l] = a[l] < b[l];
        l = l + 1;
    }
    out
}

/// Lane-wise blend: takes `b`'s lane where the mask is set, `a`'s otherwise.
pub fn mm_blendv(a: [i32; 8], b: [i32; 8], mask: [bool; 8]) -> (r: [i32; 8])
    ensures
        forall|l: int|
            0 <= l < 8 ==> #[trigger] r@[l] == (if mask@[l] {
                b@[l]
            } else {
                a@[l]
            }),
{
    let mut out: [i32; 8] = [0i32; 8];
    let mut l: usize = 0;
    while l < 8
        invariant
            l <= 8,
            forall|k: int|
                0 <= k < l ==> #[trigger] out@[k] == (if mask@[k] {
                    b@[k]
                } else {
                    a@[k]
                }),
        decreases 8 - l,
    {
        out[l] = if mask[l] {
            b[l]
        } else {
            a[l]
        };
        l = l + 1;
    }
    out
}

/// The index vector `[0, 1, ..., 7]` that seeds the running index lanes.
pub fn initial_index() -> (r: [i32; 8])
    ensures
        forall|l: int| 0 <= l < 8 ==> #[trigger] r@[l] == l,
{
    let mut out: [i32; 8] = [0i32; 8];
    let mut l: usize = 0;
    while l < 8
        invariant
            l <= 8,
            forall|k: int| 0 <= k < l ==> #[trigger] out@[k] == k,
        decreases 8 - l,
    {
        out[l] = l as i32;
        l = l + 1;
    }
    out
}

/// Horizontal reduction towards the smallest lane value: returns the
/// `(index, value)` of the lane with the smallest value, ties among equal
/// values broken towards the smallest index.
pub fn min_index_value(index: &[i32; 8], values: &[i32; 8]) -> (r: (i32, i32))
    ensures
        exists|l: int| 0 <= l < 8 && r.0 == index@[l] && r.1 == values@[l],
        forall|l: int| 0 <= l < 8 ==> r.1 <= #[trigger] values@[l],
        forall|l: int| 0 <= l < 8 && r.1 == #[trigger] values@[l] ==> r.0 <= index@[l],
{
    let mut best_index: i32 = index[0];
    let mut best_value: i32 = values[0];
    let mut l: usize = 1;
    while l < 8
        invariant
            1 <= l <= 8,
            exists|k: int| 0 <= k < l && best_index == index@[k] && best_value == values@[k],
            forall|k: int| 0 <= k < l ==> best_value <= #[trigger] values@[k],
            forall|k: int| 0 <= k < l && best_value == #[trigger] values@[k] ==> best_index
                <= index@[k],
        decreases 8 - l,
    {
        let v: i32 = values[l];
        if v < best_value || (v == best_value && index[l] < best_index) {
            best_value = v;
            best_index = index[l];
        }
        l = l + 1;
    }
    (best_index, best_value)
}

/// For positions inside one aligned chunk, the lane is the offset into the
/// chunk.
proof fn lemma_lane_of_position(i: int, p: int)
    requires
        i >= 0,
        i % 8 == 0,
        i <= p < i + 8,
    ensures
        p % 8 == p - i,
{
    vstd::arithmetic::div_mod::lemma_fundamental_div_mod(i, 8);
    vstd::arithmetic::div_mod::lemma_fundamental_div_mod_converse(p, 8, i / 8, p - i);
}

/// Horizontal reduction towards the largest lane value: returns the
/// `(index, value)` of the lane with the largest value, ties among equal
/// values broken towards the smallest index.
pub fn max_index_value(index: &[i32; 8], values: &[i32; 8]) -> (r: (i32, i32))
    ensures
        exists|l: int| 0 <= l < 8 && r.0 == index@[l] && r.1 == values@[l],
        forall|l: int| 0 <= l < 8 ==> r.1 >= #[trigger] values@[l],
        forall|l: int| 0 <= l < 8 && r.1 == #[trigger] values@[l] ==> r.0 <= index@[l],
{
    let mut best_index: i32 = index[0];
    let mut best_value: i32 = values[0];
    let mut l: usize = 1;
    while l < 8
        invariant
            1 <= l <= 8,
            exists|k: int| 0 <= k < l && best_index == index@[k] && best_value == values@[k],
            forall|k: int| 0 <= k < l ==> best_value >= #[trigger] values@[k],
            forall|k: int| 0 <= k < l && best_value == #[trigger] values@[k] ==> best_index
                <= index@[k],
        decreases 8 - l,
    {
        let v: i32 = values[l];
        if v > best_value || (v == best_value && index[l] < best_index) {
            best_value = v;
            best_index = index[l];
        }
        l = l + 1;
    }
    (best_index, best_value)
}

/// Collapses the four running lane vectors to the scalar
/// `(min_index, min_value, max_index, max_value)`.
///
/// The running vectors hold *decreasing*-order encodings, so the roles
/// swap here: the largest encoded key among the `high` lanes is the actual
/// minimum, the smallest encoded key among the `low` lanes the actual
/// maximum, and both values are decoded back to `u32`.  Ties among equal
/// values go to the smallest index.
pub fn get_min_max_index_value(
    index_low: &[i32; 8],
    values_low: &[i32; 8],
    index_high: &[i32; 8],
    values_high: &[i32; 8],
) -> (r: (usize, u32, usize, u32))
    requires
        forall|l: int| 0 <= l < 8 ==> #[trigger] index_low@[l] >= 0,
        forall|l: int| 0 <= l < 8 ==> #[trigger] index_high@[l] >= 0,
    ensures
        exists|l: int|
            0 <= l < 8 && r.0 as int == index_high@[l] as int && i32decr_of(r.1)
                == values_high@[l] as int,
        forall|l: int| 0 <= l < 8 ==> i32decr_of(r.1) >= #[trigger] values_high@[l] as int,
        forall|l: int|
            0 <= l < 8 && i32decr_of(r.1) == #[trigger] values_high@[l] as int ==> r.0 as int
                <= index_high@[l] as int,
        exists|l: int|
            0 <= l < 8 && r.2 as int == index_low@[l] as int && i32decr_of(r.3)
                == values_low@[l] as int,
        forall|l: int| 0 <= l < 8 ==> i32decr_of(r.3) <= #[trigger] values_low@[l] as int,
        forall|l: int|
            0 <= l < 8 && i32decr_of(r.3) == #[trigger] values_low@[l] as int ==> r.2 as int
                <= index_low@[l] as int,
{
    let (enc_min_index, enc_min_value) = min_index_value(index_low, values_low);
    let (enc_max_index, enc_max_value) = max_index_value(index_high, values_high);
    let min_value: u32 = decr_ord_i32_to_u32(enc_max_value);
    let max_value: u32 = decr_ord_i32_to_u32(enc_min_value);
    (enc_max_index as usize, min_value, enc_min_index as usize, max_value)
}

/// Lane-parallel argmin/argmax over 32-bit unsigned elements, semantically
/// identical to the scalar engine on every allowed input.
///
/// The main loop walks the buffer in chunks of eight elements, keeping one
/// running candidate `(index, encoded value)` per lane for each direction;
/// the lanes are then reduced horizontally with first-occurrence
/// tie-breaking, and trailing remainder elements are folded in with the
/// scalar comparison rule.  The index lanes are 32-bit, which bounds the
/// accepted length.
pub fn argminmax_u32(arr: &[u32]) -> (r: (usize, usize))
    requires
        1 <= arr@.len() <= 0x7FFF_FFFF,
    ensures
        argminmax_post(key_seq_of(arr@), nan_seq_of(arr@), r.0 as int, r.1 as int),
{
    let n: usize = arr.len();
    if n < LANE_SIZE {
        return scalar_argminmax(arr);
    }
    let ghost keys = key_seq_of(arr@);
    let ghost nans = nan_seq_of(arr@);
    let ghost ekeys = Seq::new(arr@.len(), |p: int| i32decr_of(arr@[p]));
    proof {
        assert(forall|p: int| 0 <= p < n ==> #[trigger] keys[p] == arr@[p] as int);
        assert(forall|p: int| 0 <= p < n ==> #[trigger] ekeys[p] == 0x7FFF_FFFF - keys[p]);
    }
    let mut cur: [i32; 8] = initial_index();
    let mut index_low: [i32; 8] = cur;
    let mut values_low: [i32; 8] = mm_load(arr, 0);
    let mut index_high: [i32; 8] = cur;
    let mut values_high: [i32; 8] = values_low;
    let stride: [i32; 8] = mm_set1(8);
    let mut i: usize = 8;
    proof {
        assert forall|p: int| 0 <= p < 8 implies #[trigger] (p % 8) == p by {
            vstd::arithmetic::div_mod::lemma_small_mod(p as nat, 8);
        }
    }
    while i + 8 <= n
        invariant
            n == arr@.len(),
            8 <= n <= 0x7FFF_FFFF,
            8 <= i <= n,
            i % 8 == 0,
            keys == key_seq_of(arr@),
            nans == nan_seq_of(arr@),
            ekeys == Seq::new(arr@.len(), |p: int| i32decr_of(arr@[p])),
            forall|p: int| 0 <= p < n ==> #[trigger] ekeys[p] == 0x7FFF_FFFF - keys[p],
            forall|p: int| 0 <= p < n ==> #[trigger] keys[p] == arr@[p] as int,
            forall|l: int| 0 <= l < 8 ==> #[trigger] cur@[l] == i - 8 + l,
            forall|l: int| 0 <= l < 8 ==> #[trigger] stride@[l] == 8,
            forall|l: int| 0 <= l < 8 ==> 0 <= #[trigger] index_low@[l] < i,
            forall|l: int| 0 <= l < 8 ==> (#[trigger] index_low@[l]) % 8 == l,
            forall|l: int|
                0 <= l < 8 ==> #[trigger] values_low@[l] as int == ekeys[index_low@[l] as int],
            forall|p: int| 0 <= p < i ==> #[trigger] ekeys[p] >= values_low@[p % 8] as int,
            forall|p: int|
                0 <= p < i && p < index_low@[p % 8] ==> #[trigger] ekeys[p] > values_low@[p % 8]
                    as int,
            forall|l: int| 0 <= l < 8 ==> 0 <= #[trigger] index_high@[l] < i,
            forall|l: int| 0 <= l < 8 ==> (#[trigger] index_high@[l]) % 8 == l,
            forall|l: int|
                0 <= l < 8 ==> #[trigger] values_high@[l] as int == ekeys[index_high@[l] as int],
            forall|p: int| 0 <= p < i ==> #[trigger] ekeys[p] <= values_high@[p % 8] as int,
            forall|p: int|
                0 <= p < i && p < index_high@[p % 8] ==> #[trigger] ekeys[p] < values_high@[p % 8]
                    as int,
        decreases n - i,
    {
        let ghost vlow0 = values_low@;
        let ghost ilow0 = index_low@;
        let ghost vhigh0 = values_high@;
        let ghost ihigh0 = index_high@;
        proof {
            assert forall|l: int| 0 <= l < 8 implies i32::MIN <= #[trigger] (cur@[l] + stride@[l])
                <= i32::MAX by {
                assert(cur@[l] == i - 8 + l);
            }
            assert forall|l: int| 0 <= l < 8 implies #[trigger] ((i + l) % 8) == l by {
                lemma_lane_of_position(i as int, i + l);
            }
        }
        cur = mm_add(cur, stride);
        let chunk: [i32; 8] = mm_load(arr, i);
        let lt = mm_cmplt(chunk, values_low);
        index_low = mm_blendv(index_low, cur, lt);
        values_low = mm_blendv(values_low, chunk, lt);
        let gt = mm_cmpgt(chunk, values_high);
        index_high = mm_blendv(index_high, cur, gt);
        values_high = mm_blendv(values_high, chunk, gt);
        proof {
            assert forall|l: int| 0 <= l < 8 implies #[trigger] chunk@[l] as int == ekeys[i + l] by {
                assert(chunk@[l] as int == i32decr_of(arr@[i + l]));
            }
            assert forall|p: int| 0 <= p < i + 8 implies #[trigger] ekeys[p] >= values_low@[p % 8]
                as int by {
                let l = p % 8;
                if p < i {
                    assert(ekeys[p] >= vlow0[l] as int);
                } else {
                    lemma_lane_of_position(i as int, p);
                    assert(chunk@[l] as int == ekeys[p]);
                }
            }
            assert forall|p: int| 0 <= p < i + 8 && p < index_low@[p % 8] implies #[trigger] ekeys[p]
                > values_low@[p % 8] as int by {
                let l = p % 8;
                if p >= i {
                    lemma_lane_of_position(i as int, p);
                    assert(p == i + l);
                    assert(index_low@[l] <= i + l);
                    assert(false);
                } else {
                    if lt@[l] {
                        assert(ekeys[p] >= vlow0[l] as int);
                        assert(chunk@[l] < vlow0[l]);
                    } else {
                        assert(p < ilow0[l]);
                        assert(ekeys[p] > vlow0[l] as int);
                    }
                }
            }
            assert forall|p: int| 0 <= p < i + 8 implies #[trigger] ekeys[p] <= values_high@[p % 8]
                as int by {
                let l = p % 8;
                if p < i {
                    assert(ekeys[p] <= vhigh0[l] as int);
                } else {
                    lemma_lane_of_position(i as int, p);
                    assert(chunk@[l] as int == ekeys[p]);
                }
            }
            assert forall|p: int| 0 <= p < i + 8 && p < index_high@[p % 8] implies #[trigger] ekeys[p]
                < values_high@[p % 8] as int by {
                let l = p % 8;
                if p >= i {
                    lemma_lane_of_position(i as int, p);
                    assert(p == i + l);
                    assert(index_high@[l] <= i + l);
                    assert(false);
                } else {
                    if gt@[l] {
                        assert(ekeys[p] <= vhigh0[l] as int);
                        assert(chunk@[l] > vhigh0[l]);
                    } else {
                        assert(p < ihigh0[l]);
                        assert(ekeys[p] < vhigh0[l] as int);
                    }
                }
            }
            lemma_lane_of_position(i as int, i + 8 - 8);
            vstd::arithmetic::div_mod::lemma_fundamental_div_mod(i as int, 8);
            vstd::arithmetic::div_mod::lemma_fundamental_div_mod_converse(
                i + 8,
                8,
                i as int / 8 + 1,
                0,
            );
        }
        i = i + 8;
    }
    let (mut min_index, mut min_value, mut max_index, mut max_value) = get_min_max_index_value(
        &index_low,
        &values_low,
        &index_high,
        &values_high,
    );
    proof {
        let ti = i as int;
        let tk = keys.take(ti);
        let lm = choose|l: int|
            0 <= l < 8 && min_index as int == index_high@[l] as int && i32decr_of(min_value)
                == values_high@[l] as int;
        assert((min_index as int) < ti);
        assert(ekeys[min_index as int] == i32decr_of(min_value));
        assert(tk[min_index as int] == min_value as int);
        assert forall|p: int| 0 <= p < ti implies tk[min_index as int] <= #[trigger] tk[p] by {
            assert(ekeys[p] <= values_high@[p % 8] as int);
            assert(values_high@[p % 8] as int <= i32decr_of(min_value));
        }
        assert forall|p: int| 0 <= p < min_index as int implies #[trigger] tk[p]
            > tk[min_index as int] by {
            let l = p % 8;
            if values_high@[l] as int == i32decr_of(min_value) {
                assert(min_index as int <= index_high@[l] as int);
                assert(p < index_high@[l]);
                assert(ekeys[p] < values_high@[l] as int);
            } else {
                assert((values_high@[l] as int) < i32decr_of(min_value));
                assert(ekeys[p] <= values_high@[l] as int);
            }
        }
        assert(is_first_min(tk, min_index as int));
        let lx = choose|l: int|
            0 <= l < 8 && max_index as int == index_low@[l] as int && i32decr_of(max_value)
                == values_low@[l] as int;
        assert((max_index as int) < ti);
        assert(ekeys[max_index as int] == i32decr_of(max_value));
        assert(tk[max_index as int] == max_value as int);
        assert forall|p: int| 0 <= p < ti implies tk[max_index as int] >= #[trigger] tk[p] by {
            assert(ekeys[p] >= values_low@[p % 8] as int);
            assert(values_low@[p % 8] as int >= i32decr_of(max_value));
        }
        assert forall|p: int| 0 <= p < max_index as int implies #[trigger] tk[p]
            < tk[max_index as int] by {
            let l = p % 8;
            if values_low@[l] as int == i32decr_of(max_value) {
                assert(max_index as int <= index_low@[l] as int);
                assert(p < index_low@[l]);
                assert(ekeys[p] > values_low@[l] as int);
            } else {
                assert((values_low@[l] as int) > i32decr_of(max_value));
                assert(ekeys[p] >= values_low@[l] as int);
            }
        }
        assert(is_first_max(tk, max_index as int));
    }
    while i < n
        invariant
            n == arr@.len(),
            i <= n,
            8 <= i,
            keys == key_seq_of(arr@),
            nans == nan_seq_of(arr@),
            forall|p: int| 0 <= p < n ==> #[trigger] keys[p] == arr@[p] as int,
            min_index < i,
            max_index < i,
            min_value == arr@[min_index as int],
            max_value == arr@[max_index as int],
            is_first_min(keys.take(i as int), min_index as int),
            is_first_max(keys.take(i as int), max_index as int),
        decreases n - i,
    {
        let v: u32 = arr[i];
        if v < min_value {
            min_value = v;
            min_index = i;
        } else if v > max_value {
            max_value = v;
            max_index = i;
        }
        proof {
            let ki = i as int;
            let post_seq = keys.take(ki + 1);
            assert(post_seq[ki] == arr@[ki] as int);
            assert(forall|j: int| 0 <= j < ki ==> post_seq[j] == keys.take(ki)[j]);
        }
        i = i + 1;
    }
    proof {
        assert(keys.take(n as int) =~= keys);
        assert(forall|j: int| 0 <= j < n ==> !nans[j]);
    }
    (min_index, max_index)
}

} // verus!
