//! Accumulators: the first layer's output, kept as the bias plus the weight
//! rows of the active features, updated incrementally as features change.
use vstd::prelude::*;
use crate::arith::{wrap16, wrap32, lemma_wrap16_inner, lemma_wrap32_inner};
use crate::constants::{FEATURE_DIMS, PSQT_BUCKETS};
use crate::network::FeatureTransformer;
use crate::update::{
    accum_add, accum_sub, psqt_add, psqt_sub, accum_add1_sub1_into, accum_add1_sub2_into,
    accum_add2_sub1_into, accum_add2_sub2_into, psqt_add1_sub1_into, psqt_add1_sub2_into,
    psqt_add2_sub1_into, psqt_add2_sub2_into,
};
use crate::chess::{Color, ColoredPiece};
use crate::context::{DirtyPiece, dirty_entries, MAX_DIRTY_PIECES, square_count};
use crate::features::{feature_index, feature_index_spec, lemma_feature_index_bound, active_features_spec};
use crate::board::{board_after, entries_fit, lift_entries, lift_ok, place_entries, place_ok, king_square_spec, lemma_lift_len};

verus! {

/// `sum_{f in s} v(f)`.
pub open spec fn seq_sum(s: Seq<int>, v: spec_fn(int) -> int) -> int
    decreases s.len(),
{
    if s.len() == 0 { 0 } else { seq_sum(s.drop_last(), v) + v(s.last()) }
}

/// Lane `lane` of the weight row of a feature, rows being `width` long.
pub open spec fn row_value16(weights: Seq<i16>, width: int, lane: int) -> spec_fn(int) -> int {
    |f: int| weights[f * width + lane] as int
}

pub open spec fn row_value32(weights: Seq<i32>, width: int, lane: int) -> spec_fn(int) -> int {
    |f: int| weights[f * width + lane] as int
}

/// The transformer's sizes for accumulators of `half` lanes.
pub open spec fn transformer_shape_ok(ft: &FeatureTransformer, half: int) -> bool {
    &&& 0 < half <= 4096
    &&& ft.biases@.len() == half
    &&& ft.weights@.len() == FEATURE_DIMS * half
    &&& ft.psqt_weights@.len() == FEATURE_DIMS * PSQT_BUCKETS
}

/// `acc` and `psqt` hold the bias plus the rows of `features`, wrapped lane by lane.
pub open spec fn holds_features(ft: &FeatureTransformer, half: int, acc: Seq<i16>, psqt: Seq<i32>, features: Seq<int>) -> bool {
    &&& acc.len() == half
    &&& psqt.len() == PSQT_BUCKETS
    &&& forall|lane: int| 0 <= lane < half ==> #[trigger] acc[lane]
        == wrap16(ft.biases@[lane] + seq_sum(features, row_value16(ft.weights@, half, lane)))
    &&& forall|b: int| 0 <= b < PSQT_BUCKETS ==> #[trigger] psqt[b]
        == wrap32(seq_sum(features, row_value32(ft.psqt_weights@, PSQT_BUCKETS as int, b)))
}

pub proof fn lemma_sum_push(s: Seq<int>, x: int, v: spec_fn(int) -> int)
    ensures
        seq_sum(s.push(x), v) == seq_sum(s, v) + v(x),
{
    assert(s.push(x).drop_last() =~= s);
}

pub proof fn lemma_sum_concat(a: Seq<int>, b: Seq<int>, v: spec_fn(int) -> int)
    ensures
        seq_sum(a + b, v) == seq_sum(a, v) + seq_sum(b, v),
    decreases b.len(),
{
    if b.len() == 0 {
        assert(a + b =~= a);
    } else {
        lemma_sum_concat(a, b.drop_last(), v);
        assert((a + b).drop_last() =~= a + b.drop_last());
        assert((a + b).last() == b.last());
    }
}

pub proof fn lemma_sum_remove(s: Seq<int>, k: int, v: spec_fn(int) -> int)
    requires
        0 <= k < s.len(),
    ensures
        seq_sum(s, v) == seq_sum(s.remove(k), v) + v(s[k]),
    decreases s.len(),
{
    if k == s.len() - 1 {
        assert(s.remove(k) =~= s.drop_last());
    } else {
        lemma_sum_remove(s.drop_last(), k, v);
        assert(s.remove(k).drop_last() =~= s.drop_last().remove(k));
        assert(s.remove(k).last() == s.last());
    }
}

/// The sum depends only on which values occur and how often.
pub proof fn lemma_sum_permutation(a: Seq<int>, b: Seq<int>, v: spec_fn(int) -> int)
    requires
        a.to_multiset() == b.to_multiset(),
    ensures
        seq_sum(a, v) == seq_sum(b, v),
    decreases a.len(),
{
    broadcast use vstd::seq_lib::group_to_multiset_ensures;
    if a.len() == 0 {
        vstd::seq_lib::to_multiset_len(b);
        vstd::seq_lib::to_multiset_len(a);
    } else {
        let x = a.last();
        assert(a.to_multiset().count(x) > 0) by {
            vstd::seq_lib::to_multiset_contains(a, x);
            assert(a.contains(x)) by { assert(a[a.len() - 1] == x); }
        }
        assert(b.contains(x)) by {
            vstd::seq_lib::to_multiset_contains(b, x);
        }
        let k = choose|k: int| 0 <= k < b.len() && b[k] == x;
        vstd::seq_lib::to_multiset_remove(b, k);
        vstd::seq_lib::to_multiset_remove(a, a.len() - 1);
        assert(a.remove(a.len() - 1) =~= a.drop_last());
        lemma_sum_permutation(a.drop_last(), b.remove(k), v);
        lemma_sum_remove(b, k, v);
    }
}

/// Adds the rows of `feature_index` to an accumulator and its PSQT values.
pub fn apply_feature_add(ft: &FeatureTransformer, half: usize, feature_index: usize, accumulation: &mut [i16], psqt: &mut [i32])
    requires
        transformer_shape_ok(ft, half as int),
        feature_index < FEATURE_DIMS,
        old(accumulation)@.len() == half,
        old(psqt)@.len() == PSQT_BUCKETS,
    ensures
        final(accumulation)@.len() == half,
        final(psqt)@.len() == PSQT_BUCKETS,
        forall|lane: int| 0 <= lane < half ==> #[trigger] final(accumulation)@[lane]
            == wrap16(old(accumulation)@[lane] + ft.weights@[feature_index * half + lane]),
        forall|b: int| 0 <= b < PSQT_BUCKETS ==> #[trigger] final(psqt)@[b]
            == wrap32(old(psqt)@[b] + ft.psqt_weights@[feature_index * PSQT_BUCKETS + b]),
{
    proof {
        assert(feature_index * half + half <= FEATURE_DIMS * half) by (nonlinear_arith)
            requires feature_index < FEATURE_DIMS;
    }
    let weight_row = feature_index * half;
    let psqt_row = feature_index * PSQT_BUCKETS;
    let row = vstd::slice::slice_subrange(ft.weights.as_slice(), weight_row, weight_row + half);
    accum_add(accumulation, row);
    let prow = vstd::slice::slice_subrange(ft.psqt_weights.as_slice(), psqt_row, psqt_row + PSQT_BUCKETS);
    psqt_add(psqt, prow);
}

/// Removes the rows of `feature_index` from an accumulator and its PSQT values.
pub fn apply_feature_sub(ft: &FeatureTransformer, half: usize, feature_index: usize, accumulation: &mut [i16], psqt: &mut [i32])
    requires
        transformer_shape_ok(ft, half as int),
        feature_index < FEATURE_DIMS,
        old(accumulation)@.len() == half,
        old(psqt)@.len() == PSQT_BUCKETS,
    ensures
        final(accumulation)@.len() == half,
        final(psqt)@.len() == PSQT_BUCKETS,
        forall|lane: int| 0 <= lane < half ==> #[trigger] final(accumulation)@[lane]
            == wrap16(old(accumulation)@[lane] - ft.weights@[feature_index * half + lane]),
        forall|b: int| 0 <= b < PSQT_BUCKETS ==> #[trigger] final(psqt)@[b]
            == wrap32(old(psqt)@[b] - ft.psqt_weights@[feature_index * PSQT_BUCKETS + b]),
{
    proof {
        assert(feature_index * half + half <= FEATURE_DIMS * half) by (nonlinear_arith)
            requires feature_index < FEATURE_DIMS;
    }
    let weight_row = feature_index * half;
    let psqt_row = feature_index * PSQT_BUCKETS;
    let row = vstd::slice::slice_subrange(ft.weights.as_slice(), weight_row, weight_row + half);
    accum_sub(accumulation, row);
    let prow = vstd::slice::slice_subrange(ft.psqt_weights.as_slice(), psqt_row, psqt_row + PSQT_BUCKETS);
    psqt_sub(psqt, prow);
}

/// Rebuilds an accumulator from scratch: the biases, then every feature's rows added.
pub fn full_refresh_side(ft: &FeatureTransformer, half: usize, features: &[u32], accumulation: &mut [i16], psqt: &mut [i32])
    requires
        transformer_shape_ok(ft, half as int),
        forall|i: int| 0 <= i < features@.len() ==> #[trigger] features@[i] < FEATURE_DIMS,
        old(accumulation)@.len() == half,
        old(psqt)@.len() == PSQT_BUCKETS,
    ensures
        holds_features(ft, half as int, final(accumulation)@, final(psqt)@, features@.map_values(|f: u32| f as int)),
{
    let mut lane: usize = 0;
    while lane < half
        invariant
            lane <= half,
            transformer_shape_ok(ft, half as int),
            accumulation@.len() == half,
            forall|j: int| 0 <= j < lane ==> #[trigger] accumulation@[j] == ft.biases@[j],
        decreases half - lane,
    {
        accumulation[lane] = ft.biases[lane];
        lane = lane + 1;
    }
    let mut b: usize = 0;
    while b < PSQT_BUCKETS
        invariant
            b <= PSQT_BUCKETS,
            psqt@.len() == PSQT_BUCKETS,
            forall|j: int| 0 <= j < b ==> #[trigger] psqt@[j] == 0,
        decreases PSQT_BUCKETS - b,
    {
        psqt[b] = 0;
        b = b + 1;
    }
    let ghost all = features@.map_values(|f: u32| f as int);
    proof {
        assert forall|j: int| 0 <= j < half implies #[trigger] accumulation@[j]
            == wrap16(ft.biases@[j] + seq_sum(all.take(0), row_value16(ft.weights@, half as int, j))) by {
            crate::arith::lemma_wrap16_small(ft.biases@[j] as int);
        }
        assert forall|j: int| 0 <= j < PSQT_BUCKETS implies #[trigger] psqt@[j]
            == wrap32(seq_sum(all.take(0), row_value32(ft.psqt_weights@, PSQT_BUCKETS as int, j))) by {
            crate::arith::lemma_wrap32_small(0);
        }
    }
    let n = features.len();
    let mut i: usize = 0;
    while i < n
        invariant
            i <= n,
            n == features@.len(),
            all == features@.map_values(|f: u32| f as int),
            transformer_shape_ok(ft, half as int),
            forall|k: int| 0 <= k < features@.len() ==> #[trigger] features@[k] < FEATURE_DIMS,
            holds_features(ft, half as int, accumulation@, psqt@, all.take(i as int)),
        decreases n - i,
    {
        let f = features[i] as usize;
        let ghost before_acc = accumulation@;
        let ghost before_psqt = psqt@;
        apply_feature_add(ft, half, f, accumulation, psqt);
        proof {
            assert(all.take(i + 1) =~= all.take(i as int).push(f as int));
            assert forall|lane: int| 0 <= lane < half implies #[trigger] accumulation@[lane]
                == wrap16(ft.biases@[lane] + seq_sum(all.take(i + 1), row_value16(ft.weights@, half as int, lane))) by {
                lemma_sum_push(all.take(i as int), f as int, row_value16(ft.weights@, half as int, lane));
                lemma_wrap16_inner(ft.biases@[lane] + seq_sum(all.take(i as int), row_value16(ft.weights@, half as int, lane)),
                    ft.weights@[f * half + lane] as int);
            }
            assert forall|bk: int| 0 <= bk < PSQT_BUCKETS implies #[trigger] psqt@[bk]
                == wrap32(seq_sum(all.take(i + 1), row_value32(ft.psqt_weights@, PSQT_BUCKETS as int, bk))) by {
                lemma_sum_push(all.take(i as int), f as int, row_value32(ft.psqt_weights@, PSQT_BUCKETS as int, bk));
                lemma_wrap32_inner(seq_sum(all.take(i as int), row_value32(ft.psqt_weights@, PSQT_BUCKETS as int, bk)),
                    ft.psqt_weights@[f * PSQT_BUCKETS + bk] as int);
            }
        }
        i = i + 1;
    }
    proof {
        assert(all.take(n as int) =~= all);
    }
}


/// The features of the pieces of `entries` that leave a square (`leaving`) or
/// arrive on one (`!leaving`), in entry order.
pub open spec fn entry_features(entries: Seq<(ColoredPiece, int, int)>, perspective: Color, king_square: int, leaving: bool) -> Seq<int>
    decreases entries.len(),
{
    if entries.len() == 0 {
        Seq::empty()
    } else {
        let prev = entry_features(entries.drop_last(), perspective, king_square, leaving);
        let (piece, from, to) = entries.last();
        let square = if leaving { from } else { to };
        if 0 <= square < 64 { prev.push(feature_index_spec(perspective, piece, square, king_square)) } else { prev }
    }
}

/// Features a dirty-piece update removes: origins going forward, destinations going back.
pub open spec fn dirty_removed(d: DirtyPiece, perspective: Color, king_square: int, forward: bool) -> Seq<int> {
    entry_features(dirty_entries(d), perspective, king_square, forward)
}

/// Features a dirty-piece update adds: destinations going forward, origins going back.
pub open spec fn dirty_added(d: DirtyPiece, perspective: Color, king_square: int, forward: bool) -> Seq<int> {
    entry_features(dirty_entries(d), perspective, king_square, !forward)
}

/// At most two features enter and two leave, as for every move.
pub open spec fn dirty_update_ok(d: DirtyPiece, perspective: Color, king_square: int, forward: bool) -> bool {
    &&& d.len <= MAX_DIRTY_PIECES
    &&& dirty_removed(d, perspective, king_square, forward).len() <= 2
    &&& dirty_added(d, perspective, king_square, forward).len() <= 2
}

proof fn lemma_entry_features_bound(entries: Seq<(ColoredPiece, int, int)>, perspective: Color, king_square: int, leaving: bool)
    requires
        0 <= king_square < 64,
    ensures
        forall|i: int| 0 <= i < entry_features(entries, perspective, king_square, leaving).len() ==>
            0 <= #[trigger] entry_features(entries, perspective, king_square, leaving)[i] < FEATURE_DIMS,
    decreases entries.len(),
{
    if entries.len() > 0 {
        lemma_entry_features_bound(entries.drop_last(), perspective, king_square, leaving);
        let prev = entry_features(entries.drop_last(), perspective, king_square, leaving);
        let (piece, from, to) = entries.last();
        let square = if leaving { from } else { to };
        if 0 <= square < 64 {
            lemma_feature_index_bound(perspective, piece, square, king_square);
            let cur = prev.push(feature_index_spec(perspective, piece, square, king_square));
            assert forall|i: int| 0 <= i < cur.len() implies 0 <= #[trigger] cur[i] < FEATURE_DIMS by {
                if i < prev.len() {
                    assert(cur[i] == prev[i]);
                }
            }
        }
    }
}

/// Applies one side of a dirty-piece update: the target accumulator becomes
/// the source plus the rows of the features that arrive, minus those that leave.
/// Going backward undoes the move: origins and destinations swap roles.
pub fn apply_dirty_update(
    ft: &FeatureTransformer,
    half: usize,
    dirty: DirtyPiece,
    perspective: Color,
    king_square: u8,
    source_accumulation: &[i16],
    source_psqt: &[i32],
    target_accumulation: &mut [i16],
    target_psqt: &mut [i32],
    forward: bool,
)
    requires
        transformer_shape_ok(ft, half as int),
        king_square < 64,
        dirty_update_ok(dirty, perspective, king_square as int, forward),
        source_accumulation@.len() == half,
        source_psqt@.len() == PSQT_BUCKETS,
        old(target_accumulation)@.len() == half,
        old(target_psqt)@.len() == PSQT_BUCKETS,
    ensures
        final(target_accumulation)@.len() == half,
        final(target_psqt)@.len() == PSQT_BUCKETS,
        forall|lane: int| 0 <= lane < half ==> #[trigger] final(target_accumulation)@[lane] == wrap16(
            source_accumulation@[lane]
                + seq_sum(dirty_added(dirty, perspective, king_square as int, forward), row_value16(ft.weights@, half as int, lane))
                - seq_sum(dirty_removed(dirty, perspective, king_square as int, forward), row_value16(ft.weights@, half as int, lane))),
        forall|b: int| 0 <= b < PSQT_BUCKETS ==> #[trigger] final(target_psqt)@[b] == wrap32(
            source_psqt@[b]
                + seq_sum(dirty_added(dirty, perspective, king_square as int, forward), row_value32(ft.psqt_weights@, PSQT_BUCKETS as int, b))
                - seq_sum(dirty_removed(dirty, perspective, king_square as int, forward), row_value32(ft.psqt_weights@, PSQT_BUCKETS as int, b))),
{
    let ghost entries = dirty_entries(dirty);
    let ghost removed_all = dirty_removed(dirty, perspective, king_square as int, forward);
    let ghost added_all = dirty_added(dirty, perspective, king_square as int, forward);
    let (removed, removed_len) = collect_dirty_features(dirty, perspective, king_square, forward);
    let (added, added_len) = collect_dirty_features(dirty, perspective, king_square, !forward);
    proof {
        lemma_entry_features_bound(entries, perspective, king_square as int, forward);
        lemma_entry_features_bound(entries, perspective, king_square as int, !forward);
        assert forall|k: int| 0 <= k < removed_len implies #[trigger] removed@[k] < FEATURE_DIMS by {
            assert(removed@[k] == removed_all[k]);
        }
        assert forall|k: int| 0 <= k < added_len implies #[trigger] added@[k] < FEATURE_DIMS by {
            assert(added@[k] == added_all[k]);
        }
        lemma_small_sums(ft, half as int, removed_all);
        lemma_small_sums(ft, half as int, added_all);
    }
    let weights = ft.weights.as_slice();
    let psqt_weights = ft.psqt_weights.as_slice();
    if added_len == 0 && removed_len == 0 {
        copy_lanes16(source_accumulation, target_accumulation);
        copy_lanes32(source_psqt, target_psqt);
        proof {
            assert forall|lane: int| 0 <= lane < half implies #[trigger] target_accumulation@[lane] == wrap16(
                source_accumulation@[lane] + seq_sum(added_all, row_value16(ft.weights@, half as int, lane))
                    - seq_sum(removed_all, row_value16(ft.weights@, half as int, lane))) by {
                crate::arith::lemma_wrap16_small(source_accumulation@[lane] as int);
            }
            assert forall|b: int| 0 <= b < PSQT_BUCKETS implies #[trigger] target_psqt@[b] == wrap32(
                source_psqt@[b] + seq_sum(added_all, row_value32(ft.psqt_weights@, PSQT_BUCKETS as int, b))
                    - seq_sum(removed_all, row_value32(ft.psqt_weights@, PSQT_BUCKETS as int, b))) by {
                crate::arith::lemma_wrap32_small(source_psqt@[b] as int);
            }
        }
    } else if added_len == 1 && removed_len == 1 {
        let a0 = row16(weights, half, added[0]);
        let r0 = row16(weights, half, removed[0]);
        let pa0 = row32(psqt_weights, added[0]);
        let pr0 = row32(psqt_weights, removed[0]);
        accum_add1_sub1_into(source_accumulation, a0, r0, target_accumulation);
        psqt_add1_sub1_into(source_psqt, pa0, pr0, target_psqt);
    } else if added_len == 1 && removed_len == 2 {
        let a0 = row16(weights, half, added[0]);
        let r0 = row16(weights, half, removed[0]);
        let r1 = row16(weights, half, removed[1]);
        let pa0 = row32(psqt_weights, added[0]);
        let pr0 = row32(psqt_weights, removed[0]);
        let pr1 = row32(psqt_weights, removed[1]);
        accum_add1_sub2_into(source_accumulation, a0, r0, r1, target_accumulation);
        psqt_add1_sub2_into(source_psqt, pa0, pr0, pr1, target_psqt);
    } else if added_len == 2 && removed_len == 1 {
        let a0 = row16(weights, half, added[0]);
        let a1 = row16(weights, half, added[1]);
        let r0 = row16(weights, half, removed[0]);
        let pa0 = row32(psqt_weights, added[0]);
        let pa1 = row32(psqt_weights, added[1]);
        let pr0 = row32(psqt_weights, removed[0]);
        accum_add2_sub1_into(source_accumulation, a0, a1, r0, target_accumulation);
        psqt_add2_sub1_into(source_psqt, pa0, pa1, pr0, target_psqt);
    } else if added_len == 2 && removed_len == 2 {
        let a0 = row16(weights, half, added[0]);
        let a1 = row16(weights, half, added[1]);
        let r0 = row16(weights, half, removed[0]);
        let r1 = row16(weights, half, removed[1]);
        let pa0 = row32(psqt_weights, added[0]);
        let pa1 = row32(psqt_weights, added[1]);
        let pr0 = row32(psqt_weights, removed[0]);
        let pr1 = row32(psqt_weights, removed[1]);
        accum_add2_sub2_into(source_accumulation, a0, a1, r0, r1, target_accumulation);
        psqt_add2_sub2_into(source_psqt, pa0, pa1, pr0, pr1, target_psqt);
    } else {
        copy_lanes16(source_accumulation, target_accumulation);
        copy_lanes32(source_psqt, target_psqt);
        let ghost start_acc = target_accumulation@;
        let ghost start_psqt = target_psqt@;
        let mut k: usize = 0;
        while k < removed_len
            invariant
                k <= removed_len <= 2,
                removed_len == removed_all.len(),
                transformer_shape_ok(ft, half as int),
                forall|j: int| 0 <= j < removed_len ==> #[trigger] removed@[j] < FEATURE_DIMS,
                forall|j: int| 0 <= j < removed_len ==> #[trigger] removed@[j] == removed_all[j],
                target_accumulation@.len() == half,
                target_psqt@.len() == PSQT_BUCKETS,
                forall|lane: int| 0 <= lane < half ==> #[trigger] target_accumulation@[lane]
                    == wrap16(start_acc[lane] - seq_sum(removed_all.take(k as int), row_value16(ft.weights@, half as int, lane))),
                forall|b: int| 0 <= b < PSQT_BUCKETS ==> #[trigger] target_psqt@[b]
                    == wrap32(start_psqt[b] - seq_sum(removed_all.take(k as int), row_value32(ft.psqt_weights@, PSQT_BUCKETS as int, b))),
            decreases removed_len - k,
        {
            let f = removed[k];
            apply_feature_sub(ft, half, f, target_accumulation, target_psqt);
            proof {
                assert(removed_all.take(k + 1) =~= removed_all.take(k as int).push(f as int));
                assert forall|lane: int| 0 <= lane < half implies #[trigger] target_accumulation@[lane]
                    == wrap16(start_acc[lane] - seq_sum(removed_all.take(k + 1), row_value16(ft.weights@, half as int, lane))) by {
                    lemma_sum_push(removed_all.take(k as int), f as int, row_value16(ft.weights@, half as int, lane));
                    lemma_wrap16_inner(start_acc[lane] - seq_sum(removed_all.take(k as int), row_value16(ft.weights@, half as int, lane)),
                        -(ft.weights@[f * half + lane] as int));
                }
                assert forall|b: int| 0 <= b < PSQT_BUCKETS implies #[trigger] target_psqt@[b]
                    == wrap32(start_psqt[b] - seq_sum(removed_all.take(k + 1), row_value32(ft.psqt_weights@, PSQT_BUCKETS as int, b))) by {
                    lemma_sum_push(removed_all.take(k as int), f as int, row_value32(ft.psqt_weights@, PSQT_BUCKETS as int, b));
                    lemma_wrap32_inner(start_psqt[b] - seq_sum(removed_all.take(k as int), row_value32(ft.psqt_weights@, PSQT_BUCKETS as int, b)),
                        -(ft.psqt_weights@[f * PSQT_BUCKETS + b] as int));
                }
            }
            k = k + 1;
        }
        let ghost mid_acc = target_accumulation@;
        let ghost mid_psqt = target_psqt@;
        let mut k: usize = 0;
        while k < added_len
            invariant
                k <= added_len <= 2,
                added_len == added_all.len(),
                transformer_shape_ok(ft, half as int),
                forall|j: int| 0 <= j < added_len ==> #[trigger] added@[j] < FEATURE_DIMS,
                forall|j: int| 0 <= j < added_len ==> #[trigger] added@[j] == added_all[j],
                target_accumulation@.len() == half,
                target_psqt@.len() == PSQT_BUCKETS,
                forall|lane: int| 0 <= lane < half ==> #[trigger] target_accumulation@[lane]
                    == wrap16(mid_acc[lane] + seq_sum(added_all.take(k as int), row_value16(ft.weights@, half as int, lane))),
                forall|b: int| 0 <= b < PSQT_BUCKETS ==> #[trigger] target_psqt@[b]
                    == wrap32(mid_psqt[b] + seq_sum(added_all.take(k as int), row_value32(ft.psqt_weights@, PSQT_BUCKETS as int, b))),
            decreases added_len - k,
        {
            let f = added[k];
            apply_feature_add(ft, half, f, target_accumulation, target_psqt);
            proof {
                assert(added_all.take(k + 1) =~= added_all.take(k as int).push(f as int));
                assert forall|lane: int| 0 <= lane < half implies #[trigger] target_accumulation@[lane]
                    == wrap16(mid_acc[lane] + seq_sum(added_all.take(k + 1), row_value16(ft.weights@, half as int, lane))) by {
                    lemma_sum_push(added_all.take(k as int), f as int, row_value16(ft.weights@, half as int, lane));
                    lemma_wrap16_inner(mid_acc[lane] + seq_sum(added_all.take(k as int), row_value16(ft.weights@, half as int, lane)),
                        ft.weights@[f * half + lane] as int);
                }
                assert forall|b: int| 0 <= b < PSQT_BUCKETS implies #[trigger] target_psqt@[b]
                    == wrap32(mid_psqt[b] + seq_sum(added_all.take(k + 1), row_value32(ft.psqt_weights@, PSQT_BUCKETS as int, b))) by {
                    lemma_sum_push(added_all.take(k as int), f as int, row_value32(ft.psqt_weights@, PSQT_BUCKETS as int, b));
                    lemma_wrap32_inner(mid_psqt[b] + seq_sum(added_all.take(k as int), row_value32(ft.psqt_weights@, PSQT_BUCKETS as int, b)),
                        ft.psqt_weights@[f * PSQT_BUCKETS + b] as int);
                }
            }
            k = k + 1;
        }
        proof {
            assert(removed_all.take(removed_len as int) =~= removed_all);
            assert(added_all.take(added_len as int) =~= added_all);
            assert forall|lane: int| 0 <= lane < half implies #[trigger] target_accumulation@[lane] == wrap16(
                source_accumulation@[lane] + seq_sum(added_all, row_value16(ft.weights@, half as int, lane))
                    - seq_sum(removed_all, row_value16(ft.weights@, half as int, lane))) by {
                lemma_wrap16_inner(source_accumulation@[lane] - seq_sum(removed_all, row_value16(ft.weights@, half as int, lane)),
                    seq_sum(added_all, row_value16(ft.weights@, half as int, lane)));
            }
            assert forall|b: int| 0 <= b < PSQT_BUCKETS implies #[trigger] target_psqt@[b] == wrap32(
                source_psqt@[b] + seq_sum(added_all, row_value32(ft.psqt_weights@, PSQT_BUCKETS as int, b))
                    - seq_sum(removed_all, row_value32(ft.psqt_weights@, PSQT_BUCKETS as int, b))) by {
                lemma_wrap32_inner(source_psqt@[b] - seq_sum(removed_all, row_value32(ft.psqt_weights@, PSQT_BUCKETS as int, b)),
                    seq_sum(added_all, row_value32(ft.psqt_weights@, PSQT_BUCKETS as int, b)));
            }
        }
    }
}

/// The features of the pieces of `dirty` that leave (`leaving`) or arrive on a square.
fn collect_dirty_features(dirty: DirtyPiece, perspective: Color, king_square: u8, leaving: bool) -> (r: ([usize; 2], usize))
    requires
        king_square < 64,
        dirty.len <= MAX_DIRTY_PIECES,
        entry_features(dirty_entries(dirty), perspective, king_square as int, leaving).len() <= 2,
    ensures
        r.1 == entry_features(dirty_entries(dirty), perspective, king_square as int, leaving).len(),
        forall|k: int| 0 <= k < r.1 ==> #[trigger] r.0@[k] == entry_features(dirty_entries(dirty), perspective, king_square as int, leaving)[k],
{
    let ghost entries = dirty_entries(dirty);
    let ghost all = entry_features(entries, perspective, king_square as int, leaving);
    let mut out: [usize; 2] = [0, 0];
    let mut len: usize = 0;
    proof {
        assert(entries.take(0) =~= Seq::<(ColoredPiece, int, int)>::empty());
    }
    let mut idx: usize = 0;
    while idx < dirty.len
        invariant
            idx <= dirty.len <= MAX_DIRTY_PIECES,
            king_square < 64,
            entries == dirty_entries(dirty),
            all == entry_features(entries, perspective, king_square as int, leaving),
            all.len() <= 2,
            entry_features(entries.take(idx as int), perspective, king_square as int, leaving).len() == len,
            forall|k: int| 0 <= k < len ==> #[trigger] out@[k]
                == entry_features(entries.take(idx as int), perspective, king_square as int, leaving)[k],
        decreases dirty.len - idx,
    {
        proof {
            lemma_entry_features_prefix(entries, perspective, king_square as int, leaving, idx + 1);
            lemma_entry_features_len_monotone(entries, perspective, king_square as int, leaving, idx + 1);
        }
        let piece = dirty.pieces[idx];
        let square = if leaving { dirty.from[idx] } else { dirty.to[idx] };
        if square < 64 {
            out[len] = feature_index(perspective, piece, square, king_square) as usize;
            len = len + 1;
        }
        idx = idx + 1;
    }
    proof {
        assert(entries.take(dirty.len as int) =~= entries);
    }
    (out, len)
}

proof fn lemma_entry_features_len_monotone(entries: Seq<(ColoredPiece, int, int)>, perspective: Color, king_square: int, leaving: bool, n: int)
    requires
        0 <= n <= entries.len(),
    ensures
        entry_features(entries.take(n), perspective, king_square, leaving).len()
            <= entry_features(entries, perspective, king_square, leaving).len(),
    decreases entries.len() - n,
{
    if n < entries.len() {
        lemma_entry_features_len_monotone(entries, perspective, king_square, leaving, n + 1);
        lemma_entry_features_prefix(entries, perspective, king_square, leaving, n + 1);
    } else {
        assert(entries.take(n) =~= entries);
    }
}

proof fn lemma_entry_features_prefix(entries: Seq<(ColoredPiece, int, int)>, perspective: Color, king_square: int, leaving: bool, n: int)
    requires
        0 < n <= entries.len(),
    ensures
        entry_features(entries.take(n), perspective, king_square, leaving) == ({
            let prev = entry_features(entries.take(n - 1), perspective, king_square, leaving);
            let (piece, from, to) = entries[n - 1];
            let square = if leaving { from } else { to };
            if 0 <= square < 64 { prev.push(feature_index_spec(perspective, piece, square, king_square)) } else { prev }
        }),
        entry_features(entries.take(n - 1), perspective, king_square, leaving).len() <= entry_features(entries.take(n), perspective, king_square, leaving).len(),
        forall|k: int| 0 <= k < entry_features(entries.take(n - 1), perspective, king_square, leaving).len() ==>
            #[trigger] entry_features(entries.take(n), perspective, king_square, leaving)[k]
                == entry_features(entries.take(n - 1), perspective, king_square, leaving)[k],
{
    assert(entries.take(n).drop_last() =~= entries.take(n - 1));
}

/// One- and two-element sums unfold to their terms.
proof fn lemma_small_sums(ft: &FeatureTransformer, half: int, s: Seq<int>)
    requires
        s.len() <= 2,
    ensures
        forall|lane: int| #![trigger seq_sum(s, row_value16(ft.weights@, half, lane))]
            seq_sum(s, row_value16(ft.weights@, half, lane)) == if s.len() == 0 { 0 } else if s.len() == 1 {
                ft.weights@[s[0] * half + lane] as int
            } else {
                ft.weights@[s[0] * half + lane] + ft.weights@[s[1] * half + lane]
            },
        forall|b: int| #![trigger seq_sum(s, row_value32(ft.psqt_weights@, PSQT_BUCKETS as int, b))]
            seq_sum(s, row_value32(ft.psqt_weights@, PSQT_BUCKETS as int, b)) == if s.len() == 0 { 0 } else if s.len() == 1 {
                ft.psqt_weights@[s[0] * PSQT_BUCKETS + b] as int
            } else {
                ft.psqt_weights@[s[0] * PSQT_BUCKETS + b] + ft.psqt_weights@[s[1] * PSQT_BUCKETS + b]
            },
{
    assert forall|lane: int| #![trigger seq_sum(s, row_value16(ft.weights@, half, lane))]
        seq_sum(s, row_value16(ft.weights@, half, lane)) == if s.len() == 0 { 0 } else if s.len() == 1 {
            ft.weights@[s[0] * half + lane] as int
        } else {
            ft.weights@[s[0] * half + lane] + ft.weights@[s[1] * half + lane]
        } by {
        reveal_with_fuel(seq_sum, 3);
        if s.len() == 2 {
            assert(s.drop_last()[0] == s[0]);
            assert(s.drop_last().drop_last().len() == 0);
        }
    }
    assert forall|b: int| #![trigger seq_sum(s, row_value32(ft.psqt_weights@, PSQT_BUCKETS as int, b))]
        seq_sum(s, row_value32(ft.psqt_weights@, PSQT_BUCKETS as int, b)) == if s.len() == 0 { 0 } else if s.len() == 1 {
            ft.psqt_weights@[s[0] * PSQT_BUCKETS + b] as int
        } else {
            ft.psqt_weights@[s[0] * PSQT_BUCKETS + b] + ft.psqt_weights@[s[1] * PSQT_BUCKETS + b]
        } by {
        reveal_with_fuel(seq_sum, 3);
        if s.len() == 2 {
            assert(s.drop_last()[0] == s[0]);
            assert(s.drop_last().drop_last().len() == 0);
        }
    }
}

/// The weight row of `feature`.
fn row16(weights: &[i16], half: usize, feature: usize) -> (r: &[i16])
    requires
        feature < FEATURE_DIMS,
        0 < half <= 4096,
        weights@.len() == FEATURE_DIMS * half,
    ensures
        r@.len() == half,
        forall|lane: int| 0 <= lane < half ==> #[trigger] r@[lane] == weights@[feature * half + lane],
{
    proof {
        assert(feature * half + half <= FEATURE_DIMS * half) by (nonlinear_arith)
            requires feature < FEATURE_DIMS;
    }
    vstd::slice::slice_subrange(weights, feature * half, feature * half + half)
}

/// The PSQT row of `feature`.
fn row32(weights: &[i32], feature: usize) -> (r: &[i32])
    requires
        feature < FEATURE_DIMS,
        weights@.len() == FEATURE_DIMS * PSQT_BUCKETS,
    ensures
        r@.len() == PSQT_BUCKETS,
        forall|b: int| 0 <= b < PSQT_BUCKETS ==> #[trigger] r@[b] == weights@[feature * PSQT_BUCKETS + b],
{
    vstd::slice::slice_subrange(weights, feature * PSQT_BUCKETS, feature * PSQT_BUCKETS + PSQT_BUCKETS)
}

pub fn copy_lanes16(source: &[i16], target: &mut [i16])
    requires
        old(target)@.len() == source@.len(),
    ensures
        final(target)@ == source@,
{
    let n = source.len();
    let mut i: usize = 0;
    while i < n
        invariant
            i <= n,
            n == source@.len(),
            target@.len() == n,
            forall|j: int| 0 <= j < i ==> #[trigger] target@[j] == source@[j],
        decreases n - i,
    {
        target[i] = source[i];
        i = i + 1;
    }
    assert(target@ =~= source@);
}

pub fn copy_lanes32(source: &[i32], target: &mut [i32])
    requires
        old(target)@.len() == source@.len(),
    ensures
        final(target)@ == source@,
{
    let n = source.len();
    let mut i: usize = 0;
    while i < n
        invariant
            i <= n,
            n == source@.len(),
            target@.len() == n,
            forall|j: int| 0 <= j < i ==> #[trigger] target@[j] == source@[j],
        decreases n - i,
    {
        target[i] = source[i];
        i = i + 1;
    }
    assert(target@ =~= source@);
}

/// Incremental updates agree with a full refresh: when the source accumulator
/// holds the features `held`, every feature the update removes is among them,
/// and `result` lists what remains plus what the update adds, then the target
/// accumulator holds exactly the features of `result`.
pub proof fn lemma_incremental_matches_full(
    ft: &FeatureTransformer,
    half: int,
    source_acc: Seq<i16>,
    source_psqt: Seq<i32>,
    target_acc: Seq<i16>,
    target_psqt: Seq<i32>,
    held: Seq<int>,
    removed: Seq<int>,
    added: Seq<int>,
    result: Seq<int>,
)
    requires
        holds_features(ft, half, source_acc, source_psqt, held),
        removed.to_multiset().subset_of(held.to_multiset()),
        result.to_multiset() == held.to_multiset().sub(removed.to_multiset()).add(added.to_multiset()),
        target_acc.len() == half,
        target_psqt.len() == PSQT_BUCKETS,
        forall|lane: int| 0 <= lane < half ==> #[trigger] target_acc[lane] == wrap16(
            source_acc[lane] + seq_sum(added, row_value16(ft.weights@, half, lane)) - seq_sum(removed, row_value16(ft.weights@, half, lane))),
        forall|b: int| 0 <= b < PSQT_BUCKETS ==> #[trigger] target_psqt[b] == wrap32(
            source_psqt[b] + seq_sum(added, row_value32(ft.psqt_weights@, PSQT_BUCKETS as int, b))
                - seq_sum(removed, row_value32(ft.psqt_weights@, PSQT_BUCKETS as int, b))),
    ensures
        holds_features(ft, half, target_acc, target_psqt, result),
{
    broadcast use vstd::multiset::group_multiset_axioms;
    assert((result + removed).to_multiset() =~= (held + added).to_multiset()) by {
        vstd::seq_lib::lemma_multiset_commutative(result, removed);
        vstd::seq_lib::lemma_multiset_commutative(held, added);
    }
    assert forall|lane: int| 0 <= lane < half implies #[trigger] target_acc[lane]
        == wrap16(ft.biases@[lane] + seq_sum(result, row_value16(ft.weights@, half, lane))) by {
        let v = row_value16(ft.weights@, half, lane);
        lemma_sum_permutation(result + removed, held + added, v);
        lemma_sum_concat(result, removed, v);
        lemma_sum_concat(held, added, v);
        lemma_wrap16_inner(ft.biases@[lane] + seq_sum(held, v), seq_sum(added, v) - seq_sum(removed, v));
    }
    assert forall|b: int| 0 <= b < PSQT_BUCKETS implies #[trigger] target_psqt[b]
        == wrap32(seq_sum(result, row_value32(ft.psqt_weights@, PSQT_BUCKETS as int, b))) by {
        let v = row_value32(ft.psqt_weights@, PSQT_BUCKETS as int, b);
        lemma_sum_permutation(result + removed, held + added, v);
        lemma_sum_concat(result, removed, v);
        lemma_sum_concat(held, added, v);
        lemma_wrap32_inner(seq_sum(held, v), seq_sum(added, v) - seq_sum(removed, v));
    }
}

/// Going back undoes going forward: the backward update of a dirty-piece record
/// removes what the forward update added and adds what it removed, so applying
/// both in turn gives back the starting accumulator lanes.
pub proof fn lemma_backward_undoes_forward(
    ft: &FeatureTransformer,
    half: int,
    dirty: DirtyPiece,
    perspective: Color,
    king_square: int,
    start: Seq<i16>,
    forward_result: Seq<i16>,
    backward_result: Seq<i16>,
)
    requires
        start.len() == half,
        forward_result.len() == half,
        backward_result.len() == half,
        forall|lane: int| 0 <= lane < half ==> #[trigger] forward_result[lane] == wrap16(
            start[lane] + seq_sum(dirty_added(dirty, perspective, king_square, true), row_value16(ft.weights@, half, lane))
                - seq_sum(dirty_removed(dirty, perspective, king_square, true), row_value16(ft.weights@, half, lane))),
        forall|lane: int| 0 <= lane < half ==> #[trigger] backward_result[lane] == wrap16(
            forward_result[lane] + seq_sum(dirty_added(dirty, perspective, king_square, false), row_value16(ft.weights@, half, lane))
                - seq_sum(dirty_removed(dirty, perspective, king_square, false), row_value16(ft.weights@, half, lane))),
    ensures
        backward_result == start,
{
    assert forall|lane: int| 0 <= lane < half implies #[trigger] backward_result[lane] == start[lane] by {
        let v = row_value16(ft.weights@, half, lane);
        let a = seq_sum(dirty_added(dirty, perspective, king_square, true), v);
        let r = seq_sum(dirty_removed(dirty, perspective, king_square, true), v);
        assert(dirty_added(dirty, perspective, king_square, false) == dirty_removed(dirty, perspective, king_square, true));
        assert(dirty_removed(dirty, perspective, king_square, false) == dirty_added(dirty, perspective, king_square, true));
        lemma_wrap16_inner(start[lane] + a - r, r - a);
        crate::arith::lemma_wrap16_small(start[lane] as int);
    }
    assert(backward_result =~= start);
}

/// An accumulator and its PSQT values for `perspective` hold exactly the
/// active features of `board`, its king bucket taken from the board.
pub open spec fn holds_board(ft: &FeatureTransformer, half: int, acc: Seq<i16>, psqt: Seq<i32>, board: Seq<Option<ColoredPiece>>, perspective: Color) -> bool {
    holds_features(ft, half, acc, psqt, active_features_spec(perspective, board, king_square_spec(board, perspective), 64))
}

/// What square `s` holding `x` adds to a sum over active features.
pub open spec fn square_term(perspective: Color, x: Option<ColoredPiece>, s: int, king: int, v: spec_fn(int) -> int) -> int {
    match x {
        Some(p) => v(feature_index_spec(perspective, p, s, king)),
        None => 0,
    }
}

/// Changing one square changes a sum over the active features by that square's terms.
pub proof fn lemma_active_update(
    perspective: Color,
    board: Seq<Option<ColoredPiece>>,
    king: int,
    s: int,
    x: Option<ColoredPiece>,
    v: spec_fn(int) -> int,
    n: int,
)
    requires
        board.len() == 64,
        0 <= s < 64,
        0 <= n <= 64,
    ensures
        seq_sum(active_features_spec(perspective, board.update(s, x), king, n), v)
            == seq_sum(active_features_spec(perspective, board, king, n), v)
                + if s < n { square_term(perspective, x, s, king, v) - square_term(perspective, board[s], s, king, v) } else { 0 },
    decreases n,
{
    if n > 0 {
        lemma_active_update(perspective, board, king, s, x, v, n - 1);
        let nb = board.update(s, x);
        let prev_new = active_features_spec(perspective, nb, king, n - 1);
        let prev_old = active_features_spec(perspective, board, king, n - 1);
        match nb[n - 1] {
            Some(p) => lemma_sum_push(prev_new, feature_index_spec(perspective, p, n - 1, king), v),
            None => {},
        }
        match board[n - 1] {
            Some(p) => lemma_sum_push(prev_old, feature_index_spec(perspective, p, n - 1, king), v),
            None => {},
        }
    }
}

/// Lifting the pieces of `entries` takes their origins' features out of the sum.
proof fn lemma_lift_sum(perspective: Color, board: Seq<Option<ColoredPiece>>, entries: Seq<(ColoredPiece, int, int)>, king: int, v: spec_fn(int) -> int)
    requires
        board.len() == 64,
        lift_ok(board, entries),
    ensures
        seq_sum(active_features_spec(perspective, lift_entries(board, entries), king, 64), v)
            == seq_sum(active_features_spec(perspective, board, king, 64), v) - seq_sum(entry_features(entries, perspective, king, true), v),
    decreases entries.len(),
{
    if entries.len() > 0 {
        let prev = entries.drop_last();
        lemma_lift_sum(perspective, board, prev, king, v);
        lemma_lift_len(board, prev);
        let b = lift_entries(board, prev);
        let (piece, from, to) = entries.last();
        if 0 <= from < 64 {
            lemma_active_update(perspective, b, king, from, None, v, 64);
            lemma_sum_push(entry_features(prev, perspective, king, true), feature_index_spec(perspective, piece, from, king), v);
        }
    }
}

/// Placing the pieces of `entries` puts their destinations' features into the sum.
proof fn lemma_place_sum(perspective: Color, board: Seq<Option<ColoredPiece>>, entries: Seq<(ColoredPiece, int, int)>, king: int, v: spec_fn(int) -> int)
    requires
        board.len() == 64,
        place_ok(board, entries),
    ensures
        seq_sum(active_features_spec(perspective, place_entries(board, entries), king, 64), v)
            == seq_sum(active_features_spec(perspective, board, king, 64), v) + seq_sum(entry_features(entries, perspective, king, false), v),
    decreases entries.len(),
{
    if entries.len() > 0 {
        let prev = entries.drop_last();
        lemma_place_sum(perspective, board, prev, king, v);
        crate::board::lemma_place_len(board, prev);
        let b = place_entries(board, prev);
        let (piece, from, to) = entries.last();
        if 0 <= to < 64 {
            lemma_active_update(perspective, b, king, to, Some(piece), v, 64);
            lemma_sum_push(entry_features(prev, perspective, king, false), feature_index_spec(perspective, piece, to, king), v);
        }
    }
}

/// A move changes the sum over the active features by what arrives minus what leaves.
pub proof fn lemma_board_after_sum(perspective: Color, board: Seq<Option<ColoredPiece>>, entries: Seq<(ColoredPiece, int, int)>, king: int, v: spec_fn(int) -> int)
    requires
        board.len() == 64,
        entries_fit(board, entries),
    ensures
        seq_sum(active_features_spec(perspective, board_after(board, entries), king, 64), v)
            == seq_sum(active_features_spec(perspective, board, king, 64), v)
                - seq_sum(entry_features(entries, perspective, king, true), v)
                + seq_sum(entry_features(entries, perspective, king, false), v),
{
    lemma_lift_sum(perspective, board, entries, king, v);
    lemma_lift_len(board, entries);
    lemma_place_sum(perspective, lift_entries(board, entries), entries, king, v);
}

/// One dirty-piece step between the board before a move and the board after
/// it: going forward from an accumulator holding the board before gives the
/// board after, going backward from one holding the board after gives the
/// board before, both with the same king bucket.
pub proof fn lemma_dirty_step(
    ft: &FeatureTransformer,
    half: int,
    dirty: DirtyPiece,
    perspective: Color,
    king: int,
    before: Seq<Option<ColoredPiece>>,
    source_acc: Seq<i16>,
    source_psqt: Seq<i32>,
    target_acc: Seq<i16>,
    target_psqt: Seq<i32>,
    forward: bool,
)
    requires
        before.len() == 64,
        entries_fit(before, dirty_entries(dirty)),
        holds_features(ft, half, source_acc, source_psqt,
            active_features_spec(perspective, if forward { before } else { board_after(before, dirty_entries(dirty)) }, king, 64)),
        target_acc.len() == half,
        target_psqt.len() == PSQT_BUCKETS,
        forall|lane: int| 0 <= lane < half ==> #[trigger] target_acc[lane] == wrap16(
            source_acc[lane]
                + seq_sum(dirty_added(dirty, perspective, king, forward), row_value16(ft.weights@, half, lane))
                - seq_sum(dirty_removed(dirty, perspective, king, forward), row_value16(ft.weights@, half, lane))),
        forall|b: int| 0 <= b < PSQT_BUCKETS ==> #[trigger] target_psqt[b] == wrap32(
            source_psqt[b]
                + seq_sum(dirty_added(dirty, perspective, king, forward), row_value32(ft.psqt_weights@, PSQT_BUCKETS as int, b))
                - seq_sum(dirty_removed(dirty, perspective, king, forward), row_value32(ft.psqt_weights@, PSQT_BUCKETS as int, b))),
    ensures
        holds_features(ft, half, target_acc, target_psqt,
            active_features_spec(perspective, if forward { board_after(before, dirty_entries(dirty)) } else { before }, king, 64)),
{
    let e = dirty_entries(dirty);
    let after = board_after(before, e);
    let src_board = if forward { before } else { after };
    let tgt_board = if forward { after } else { before };
    assert forall|lane: int| 0 <= lane < half implies #[trigger] target_acc[lane]
        == wrap16(ft.biases@[lane] + seq_sum(active_features_spec(perspective, tgt_board, king, 64), row_value16(ft.weights@, half, lane))) by {
        let v = row_value16(ft.weights@, half, lane);
        lemma_board_after_sum(perspective, before, e, king, v);
        lemma_wrap16_inner(ft.biases@[lane] + seq_sum(active_features_spec(perspective, src_board, king, 64), v),
            seq_sum(dirty_added(dirty, perspective, king, forward), v) - seq_sum(dirty_removed(dirty, perspective, king, forward), v));
    }
    assert forall|b: int| 0 <= b < PSQT_BUCKETS implies #[trigger] target_psqt[b]
        == wrap32(seq_sum(active_features_spec(perspective, tgt_board, king, 64), row_value32(ft.psqt_weights@, PSQT_BUCKETS as int, b))) by {
        let v = row_value32(ft.psqt_weights@, PSQT_BUCKETS as int, b);
        lemma_board_after_sum(perspective, before, e, king, v);
        lemma_wrap32_inner(seq_sum(active_features_spec(perspective, src_board, king, 64), v),
            seq_sum(dirty_added(dirty, perspective, king, forward), v) - seq_sum(dirty_removed(dirty, perspective, king, forward), v));
    }
}

/// As many features enter (or leave) as there are entries with a destination (or origin).
pub proof fn lemma_entry_features_len(entries: Seq<(ColoredPiece, int, int)>, perspective: Color, king_square: int, leaving: bool)
    ensures
        entry_features(entries, perspective, king_square, leaving).len() == square_count(entries, leaving),
    decreases entries.len(),
{
    if entries.len() > 0 {
        lemma_entry_features_len(entries.drop_last(), perspective, king_square, leaving);
    }
}

} // verus!
