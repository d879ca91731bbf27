//! Bringing the current frame's accumulators up to date: from the nearest
//! computed frame below by incremental updates, or by a full refresh of the
//! current frame followed by backward updates down to where the king last moved.
use vstd::prelude::*;
use crate::accumulator::{
    apply_dirty_update, full_refresh_side, holds_board, holds_features, transformer_shape_ok,
    dirty_added, dirty_removed, dirty_update_ok, row_value16, row_value32, seq_sum,
    lemma_dirty_step, lemma_entry_features_len,
};
use crate::arith::{wrap16, wrap32};
use crate::board::{Position, board_ok, king_square, king_square_spec, lemma_king_square_kept, king_of};
use crate::chess::{Color, ColoredPiece, color_index};
use crate::constants::{FEATURE_DIMS, PSQT_BUCKETS};
use crate::context::{
    DirtyPiece, NnueContext, SideAccumulator, STACK_FRAMES, dirty_entries, slot, slot_index, color_of,
    refresh_needed,
};
use crate::features::{active_features_spec, push_perspective_features};
use crate::network::{FeatureTransformer, LoadedNetwork, NnueNetworks};
use crate::finny::{FinnyEntry, finny_ok, refresh_from_finny, cleared_cache, cache_kept_or_at, empty_board};

verus! {

/// A network whose transformer fits accumulators of its `half_dims` lanes.
pub open spec fn network_shape_ok(network: &LoadedNetwork) -> bool {
    transformer_shape_ok(&network.feature_transformer, network.half_dims as int)
}

impl NnueContext {
    /// The context's computed accumulators agree with both networks.
    pub open spec fn holds_for(&self, nets: &NnueNetworks) -> bool {
        &&& self.holds_net(0, &nets.big.feature_transformer, nets.big.half_dims as int)
        &&& self.holds_net(1, &nets.small.feature_transformer, nets.small.half_dims as int)
        &&& finny_ok(self.finny_big@, &nets.big.feature_transformer, nets.big.half_dims as int)
        &&& finny_ok(self.finny_small@, &nets.small.feature_transformer, nets.small.half_dims as int)
    }

    /// Only the accumulators of network `net` and perspective `p` may have changed.
    pub open spec fn same_but(&self, other: &NnueContext, net: int, p: int) -> bool {
        &&& self.sides@.len() == other.sides@.len()
        &&& self.dirty == other.dirty
        &&& self.depth == other.depth
        &&& self.initialized == other.initialized
        &&& self.root_hash == other.root_hash
        &&& self.boards == other.boards
        &&& net != 0 ==> self.finny_big == other.finny_big
        &&& net != 1 ==> self.finny_small == other.finny_small
        &&& forall|d: int, n: int, q: int| 0 <= d < STACK_FRAMES && 0 <= n < 2 && 0 <= q < 2 && (n != net || q != p)
            ==> #[trigger] self.sides@[slot(d, n, q)] == other.sides@[slot(d, n, q)]
    }

    /// Fills slot `target` from slot `source` by one dirty-piece update.
    fn step_slot(
        &mut self,
        ft: &FeatureTransformer,
        half: usize,
        source: usize,
        target: usize,
        dirty: DirtyPiece,
        perspective: Color,
        king: u8,
        forward: bool,
    )
        requires
            source < old(self).sides@.len(),
            target < old(self).sides@.len(),
            source != target,
            transformer_shape_ok(ft, half as int),
            king < 64,
            dirty_update_ok(dirty, perspective, king as int, forward),
            old(self).sides@[source as int].accumulation@.len() == half,
            old(self).sides@[source as int].psqt@.len() == PSQT_BUCKETS,
        ensures
            final(self).sides@.len() == old(self).sides@.len(),
            final(self).dirty == old(self).dirty,
            final(self).depth == old(self).depth,
            final(self).initialized == old(self).initialized,
            final(self).root_hash == old(self).root_hash,
            final(self).boards == old(self).boards,
            final(self).finny_big == old(self).finny_big,
            final(self).finny_small == old(self).finny_small,
            forall|j: int| 0 <= j < old(self).sides@.len() && j != target ==> #[trigger] final(self).sides@[j] == old(self).sides@[j],
            final(self).sides@[target as int].computed,
            final(self).sides@[target as int].accumulation@.len() == half,
            final(self).sides@[target as int].psqt@.len() == PSQT_BUCKETS,
            forall|lane: int| 0 <= lane < half ==> #[trigger] final(self).sides@[target as int].accumulation@[lane] == wrap16(
                old(self).sides@[source as int].accumulation@[lane]
                    + seq_sum(dirty_added(dirty, perspective, king as int, forward), row_value16(ft.weights@, half as int, lane))
                    - seq_sum(dirty_removed(dirty, perspective, king as int, forward), row_value16(ft.weights@, half as int, lane))),
            forall|b: int| 0 <= b < PSQT_BUCKETS ==> #[trigger] final(self).sides@[target as int].psqt@[b] == wrap32(
                old(self).sides@[source as int].psqt@[b]
                    + seq_sum(dirty_added(dirty, perspective, king as int, forward), row_value32(ft.psqt_weights@, PSQT_BUCKETS as int, b))
                    - seq_sum(dirty_removed(dirty, perspective, king as int, forward), row_value32(ft.psqt_weights@, PSQT_BUCKETS as int, b))),
    {
        let mut side = SideAccumulator::empty();
        std::mem::swap(&mut side, &mut self.sides[target]);
        if side.accumulation.len() != half {
            side.accumulation = vec![0i16; half];
        }
        if side.psqt.len() != PSQT_BUCKETS {
            side.psqt = vec![0i32; PSQT_BUCKETS];
        }
        apply_dirty_update(
            ft,
            half,
            dirty,
            perspective,
            king,
            self.sides[source].accumulation.as_slice(),
            self.sides[source].psqt.as_slice(),
            side.accumulation.as_mut_slice(),
            side.psqt.as_mut_slice(),
            forward,
        );
        side.computed = true;
        self.sides.set(target, side);
    }

    /// Fills slot `target` with the active features of `board`, refreshed
    /// through the cache of network `net`.
    fn refresh_slot(&mut self, ft: &FeatureTransformer, half: usize, net: usize, target: usize, board: &[Option<ColoredPiece>], perspective: Color, king: u8)
        requires
            target < old(self).sides@.len(),
            net < 2,
            transformer_shape_ok(ft, half as int),
            finny_ok(old(self).finny_of(net as int), ft, half as int),
            board@.len() == 64,
            king < 64,
        ensures
            final(self).sides@.len() == old(self).sides@.len(),
            final(self).dirty == old(self).dirty,
            final(self).depth == old(self).depth,
            final(self).initialized == old(self).initialized,
            final(self).root_hash == old(self).root_hash,
            final(self).boards == old(self).boards,
            finny_ok(final(self).finny_of(net as int), ft, half as int),
            cache_kept_or_at(final(self).finny_of(net as int), old(self).finny_of(net as int), board@),
            net != 0 ==> final(self).finny_big == old(self).finny_big,
            net != 1 ==> final(self).finny_small == old(self).finny_small,
            forall|j: int| 0 <= j < old(self).sides@.len() && j != target ==> #[trigger] final(self).sides@[j] == old(self).sides@[j],
            final(self).sides@[target as int].computed,
            holds_features(ft, half as int, final(self).sides@[target as int].accumulation@, final(self).sides@[target as int].psqt@,
                active_features_spec(perspective, board@, king as int, 64)),
    {
        let mut cache: Vec<FinnyEntry> = Vec::new();
        if net == 0 {
            std::mem::swap(&mut cache, &mut self.finny_big);
        } else {
            std::mem::swap(&mut cache, &mut self.finny_small);
        }
        let mut side = SideAccumulator::empty();
        std::mem::swap(&mut side, &mut self.sides[target]);
        refresh_from_finny(ft, half, &mut cache, board, perspective, king, &mut side.accumulation, &mut side.psqt);
        side.computed = true;
        self.sides.set(target, side);
        if net == 0 {
            std::mem::swap(&mut cache, &mut self.finny_big);
        } else {
            std::mem::swap(&mut cache, &mut self.finny_small);
        }
    }
}

impl NnueContext {
    /// No frame above `lo`, up to the current one, has a computed accumulator
    /// for (`net`, `perspective`) or a move of that side's king.
    pub open spec fn nothing_usable_above(&self, lo: int, net: int, perspective: Color) -> bool {
        forall|j: int| #![trigger self.sides@[slot(j, net, color_index(perspective))]] #![trigger self.dirty@[j]]
            lo < j <= self.depth ==> !self.sides@[slot(j, net, color_index(perspective))].computed
                && !refresh_needed(self.dirty@[j], perspective)
    }

    /// The nearest frame at or below the current one from which `perspective`'s
    /// accumulator of network `net` can be reached: one already computed
    /// (`true`), or else the last frame where that side's king moved, or the root.
    pub fn find_last_usable(&self, net: usize, perspective: Color) -> (r: (usize, bool))
        requires
            self.shape_ok(),
            net < 2,
        ensures
            r.0 <= self.depth,
            r.1 ==> self.sides@[slot(r.0 as int, net as int, color_index(perspective))].computed,
            !r.1 ==> !self.sides@[slot(r.0 as int, net as int, color_index(perspective))].computed,
            !r.1 && r.0 >= 1 ==> refresh_needed(self.dirty@[r.0 as int], perspective),
            self.nothing_usable_above(r.0 as int, net as int, perspective),
    {
        let ps = perspective.index();
        let mut idx = self.depth;
        while idx >= 1
            invariant
                self.shape_ok(),
                idx <= self.depth,
                ps == color_index(perspective),
                net < 2,
                self.nothing_usable_above(idx as int, net as int, perspective),
            decreases idx,
        {
            if self.sides[slot_index(idx, net, ps)].computed {
                return (idx, true);
            }
            if self.dirty[idx].requires_refresh(perspective) {
                return (idx, false);
            }
            proof {
                assert forall|j: int| idx - 1 < j <= self.depth implies
                    !(#[trigger] self.sides@[slot(j, net as int, color_index(perspective))]).computed
                    && !refresh_needed(self.dirty@[j], perspective) by {
                    if j > idx {
                        assert(self.nothing_usable_above(idx as int, net as int, perspective));
                    }
                }
                assert(self.nothing_usable_above(idx - 1, net as int, perspective));
            }
            idx = idx - 1;
        }
        (0, self.sides[slot_index(0, net, ps)].computed)
    }
}

/// Between a frame and the current one, with no move of `perspective`'s king
/// in between, that king stays on the same square.
proof fn lemma_kings_stable(ctx: &NnueContext, perspective: Color, j: int)
    requires
        ctx.shape_ok(),
        ctx.initialized,
        0 <= j <= ctx.depth,
        forall|k: int| j < k <= ctx.depth ==> !refresh_needed(#[trigger] ctx.dirty@[k], perspective),
    ensures
        king_square_spec(ctx.boards@[j], perspective) == king_square_spec(ctx.boards@[ctx.depth as int], perspective),
    decreases ctx.depth - j,
{
    if j < ctx.depth {
        lemma_kings_stable(ctx, perspective, j + 1);
        assert(ctx.step_ok(j + 1));
        let d = ctx.dirty@[j + 1];
        let e = dirty_entries(d);
        assert(!refresh_needed(d, perspective));
        if e.len() > 0 {
            assert(e[0].0 == d.pieces[0]);
        }
        assert(board_ok(ctx.boards@[j]));
        lemma_king_square_kept(ctx.boards@[j], e, perspective);
    }
}

/// Changing only computed accumulators of an initialized context keeps its shape.
proof fn lemma_shape_kept(a: &NnueContext, b: &NnueContext)
    requires
        a.shape_ok(),
        a.initialized,
        b.initialized,
        b.sides@.len() == a.sides@.len(),
        b.dirty == a.dirty,
        b.depth == a.depth,
        b.boards == a.boards,
    ensures
        b.shape_ok(),
{
    assert forall|d: int| 1 <= d <= b.depth implies b.step_ok(d) by {
        assert(a.step_ok(d));
    }
}

/// The dirty pieces of a frame above the root fit the incremental update.
proof fn lemma_frame_dirty_ok(ctx: &NnueContext, d: int, perspective: Color, king: int, forward: bool)
    requires
        ctx.shape_ok(),
        ctx.initialized,
        1 <= d <= ctx.depth,
    ensures
        dirty_update_ok(ctx.dirty@[d], perspective, king, forward),
{
    assert(ctx.step_ok(d));
    let e = dirty_entries(ctx.dirty@[d]);
    lemma_entry_features_len(e, perspective, king, forward);
    lemma_entry_features_len(e, perspective, king, !forward);
}

impl NnueContext {
    /// Brings `perspective`'s accumulator of network `net` in the current frame
    /// up to date, leaving every other network and perspective as it was.
    pub fn ensure_perspective(&mut self, network: &LoadedNetwork, net: usize, board: &[Option<ColoredPiece>], perspective: Color)
        requires
            old(self).shape_ok(),
            old(self).initialized,
            net < 2,
            network_shape_ok(network),
            board@ == old(self).current_board(),
            old(self).holds_net(net as int, &network.feature_transformer, network.half_dims as int),
            finny_ok(old(self).finny_of(net as int), &network.feature_transformer, network.half_dims as int),
        ensures
            final(self).shape_ok(),
            final(self).same_but(old(self), net as int, color_index(perspective)),
            final(self).holds_net(net as int, &network.feature_transformer, network.half_dims as int),
            finny_ok(final(self).finny_of(net as int), &network.feature_transformer, network.half_dims as int),
            cache_kept_or_at(final(self).finny_of(net as int), old(self).finny_of(net as int), board@),
            final(self).sides@[slot(final(self).depth as int, net as int, color_index(perspective))].computed,
    {
        let ghost start = *self;
        let ps = perspective.index();
        let current = self.depth;
        let half = network.half_dims;
        let ft = &network.feature_transformer;
        if self.sides[slot_index(current, net, ps)].computed {
            return;
        }
        proof {
            assert(board_ok(self.boards@[current as int]));
        }
        let king = king_square(board, perspective);
        let (begin, found) = self.find_last_usable(net, perspective);
        proof {
            assert forall|j: int| begin <= j <= current implies
                #[trigger] king_square_spec(self.boards@[j], perspective) == king by {
                assert forall|k: int| j < k <= self.depth implies !refresh_needed(#[trigger] self.dirty@[k], perspective) by {
                    assert(self.nothing_usable_above(begin as int, net as int, perspective));
                }
                lemma_kings_stable(self, perspective, j);
            }
        }
        if found {
            let mut next = begin + 1;
            while next <= current
                invariant
                    self.shape_ok(),
                    start.shape_ok(),
                    self.same_but(&start, net as int, ps as int),
                    self.initialized,
                    self.holds_net(net as int, ft, half as int),
                    finny_ok(self.finny_of(net as int), ft, half as int),
                    cache_kept_or_at(self.finny_of(net as int), start.finny_of(net as int), board@),
                    board@ == start.current_board(),
                    ft == &network.feature_transformer,
                    half == network.half_dims,
                    transformer_shape_ok(ft, half as int),
                    current == self.depth,
                    begin < next <= current + 1,
                    net < 2,
                    ps == color_index(perspective),
                    king < 64,
                    self.sides@[slot(next - 1, net as int, ps as int)].computed,
                    forall|j: int| begin <= j <= current ==> #[trigger] king_square_spec(self.boards@[j], perspective) == king,
                decreases current + 1 - next,
            {
                let src = slot_index(next - 1, net, ps);
                let tgt = slot_index(next, net, ps);
                let d = self.dirty[next];
                let ghost before = *self;
                proof {
                    lemma_frame_dirty_ok(self, next as int, perspective, king as int, true);
                    assert(self.step_ok(next as int));
                }
                self.step_slot(ft, half, src, tgt, d, perspective, king, true);
                proof {
                    lemma_shape_kept(&before, self);
                    let b0 = before.boards@[next - 1];
                    assert(king_square_spec(b0, perspective) == king);
                    assert(king_square_spec(before.boards@[next as int], perspective) == king);
                    lemma_dirty_step(ft, half as int, d, perspective, king as int, b0,
                        before.sides@[src as int].accumulation@, before.sides@[src as int].psqt@,
                        self.sides@[tgt as int].accumulation@, self.sides@[tgt as int].psqt@, true);
                    assert forall|d2: int, p2: int| 0 <= d2 <= self.depth && 0 <= p2 < 2
                        && #[trigger] self.sides@[slot(d2, net as int, p2)].computed implies
                        holds_board(ft, half as int, self.sides@[slot(d2, net as int, p2)].accumulation@,
                            self.sides@[slot(d2, net as int, p2)].psqt@, self.boards@[d2], color_of(p2)) by {
                        if slot(d2, net as int, p2) != tgt {
                            assert(self.sides@[slot(d2, net as int, p2)] == before.sides@[slot(d2, net as int, p2)]);
                        } else {
                            assert(d2 == next && p2 == ps);
                        }
                    }
                    assert forall|d3: int, n: int, q: int| 0 <= d3 < STACK_FRAMES && 0 <= n < 2 && 0 <= q < 2 && (n != net || q != ps)
                        implies #[trigger] self.sides@[slot(d3, n, q)] == start.sides@[slot(d3, n, q)] by {
                        assert(slot(d3, n, q) != tgt);
                        assert(before.sides@[slot(d3, n, q)] == start.sides@[slot(d3, n, q)]);
                    }
                }
                next = next + 1;
            }
        } else {
            let tgt = slot_index(current, net, ps);
            let ghost before = *self;
            self.refresh_slot(ft, half, net, tgt, board, perspective, king);
            proof {
                lemma_shape_kept(&before, self);
                assert forall|d2: int, p2: int| 0 <= d2 <= self.depth && 0 <= p2 < 2
                    && #[trigger] self.sides@[slot(d2, net as int, p2)].computed implies
                    holds_board(ft, half as int, self.sides@[slot(d2, net as int, p2)].accumulation@,
                        self.sides@[slot(d2, net as int, p2)].psqt@, self.boards@[d2], color_of(p2)) by {
                    if slot(d2, net as int, p2) != tgt {
                        assert(self.sides@[slot(d2, net as int, p2)] == before.sides@[slot(d2, net as int, p2)]);
                    } else {
                        assert(d2 == current && p2 == ps);
                        assert(king_square_spec(self.boards@[current as int], perspective) == king);
                    }
                }
                assert forall|d3: int, n: int, q: int| 0 <= d3 < STACK_FRAMES && 0 <= n < 2 && 0 <= q < 2 && (n != net || q != ps)
                    implies #[trigger] self.sides@[slot(d3, n, q)] == start.sides@[slot(d3, n, q)] by {
                    assert(slot(d3, n, q) != tgt);
                }
            }
            let mut prev = current;
            while prev > begin
                invariant
                    self.shape_ok(),
                    start.shape_ok(),
                    self.same_but(&start, net as int, ps as int),
                    self.initialized,
                    self.holds_net(net as int, ft, half as int),
                    finny_ok(self.finny_of(net as int), ft, half as int),
                    cache_kept_or_at(self.finny_of(net as int), start.finny_of(net as int), board@),
                    board@ == start.current_board(),
                    ft == &network.feature_transformer,
                    half == network.half_dims,
                    transformer_shape_ok(ft, half as int),
                    current == self.depth,
                    begin <= prev <= current,
                    net < 2,
                    ps == color_index(perspective),
                    king < 64,
                    self.sides@[slot(prev as int, net as int, ps as int)].computed,
                    self.sides@[slot(current as int, net as int, ps as int)].computed,
                    forall|j: int| begin <= j <= current ==> #[trigger] king_square_spec(self.boards@[j], perspective) == king,
                decreases prev,
            {
                let src = slot_index(prev, net, ps);
                let tgt = slot_index(prev - 1, net, ps);
                let d = self.dirty[prev];
                let ghost before = *self;
                proof {
                    lemma_frame_dirty_ok(self, prev as int, perspective, king as int, false);
                    assert(self.step_ok(prev as int));
                }
                self.step_slot(ft, half, src, tgt, d, perspective, king, false);
                proof {
                    lemma_shape_kept(&before, self);
                    let b0 = before.boards@[prev - 1];
                    assert(king_square_spec(b0, perspective) == king);
                    assert(king_square_spec(before.boards@[prev as int], perspective) == king);
                    lemma_dirty_step(ft, half as int, d, perspective, king as int, b0,
                        before.sides@[src as int].accumulation@, before.sides@[src as int].psqt@,
                        self.sides@[tgt as int].accumulation@, self.sides@[tgt as int].psqt@, false);
                    assert forall|d2: int, p2: int| 0 <= d2 <= self.depth && 0 <= p2 < 2
                        && #[trigger] self.sides@[slot(d2, net as int, p2)].computed implies
                        holds_board(ft, half as int, self.sides@[slot(d2, net as int, p2)].accumulation@,
                            self.sides@[slot(d2, net as int, p2)].psqt@, self.boards@[d2], color_of(p2)) by {
                        if slot(d2, net as int, p2) != tgt {
                            assert(self.sides@[slot(d2, net as int, p2)] == before.sides@[slot(d2, net as int, p2)]);
                        } else {
                            assert(d2 == prev - 1 && p2 == ps);
                        }
                    }
                    assert forall|d3: int, n: int, q: int| 0 <= d3 < STACK_FRAMES && 0 <= n < 2 && 0 <= q < 2 && (n != net || q != ps)
                        implies #[trigger] self.sides@[slot(d3, n, q)] == start.sides@[slot(d3, n, q)] by {
                        assert(slot(d3, n, q) != tgt);
                        assert(before.sides@[slot(d3, n, q)] == start.sides@[slot(d3, n, q)]);
                    }
                    assert(self.sides@[slot(current as int, net as int, ps as int)] == before.sides@[slot(current as int, net as int, ps as int)]);
                }
                prev = prev - 1;
            }
        }
    }

    /// Only the accumulators and the refresh cache of network `net` may have changed.
    pub open spec fn same_but_net(&self, other: &NnueContext, net: int) -> bool {
        &&& self.sides@.len() == other.sides@.len()
        &&& self.dirty == other.dirty
        &&& self.depth == other.depth
        &&& self.initialized == other.initialized
        &&& self.root_hash == other.root_hash
        &&& self.boards == other.boards
        &&& net != 0 ==> self.finny_big == other.finny_big
        &&& net != 1 ==> self.finny_small == other.finny_small
        &&& forall|d: int, q: int| 0 <= d < STACK_FRAMES && 0 <= q < 2 && net != 0
            ==> #[trigger] self.sides@[slot(d, 0, q)] == other.sides@[slot(d, 0, q)]
        &&& forall|d: int, q: int| 0 <= d < STACK_FRAMES && 0 <= q < 2 && net != 1
            ==> #[trigger] self.sides@[slot(d, 1, q)] == other.sides@[slot(d, 1, q)]
    }

    /// Brings both perspectives' accumulators of network `net` in the current frame up to date.
    pub fn ensure_frame(&mut self, network: &LoadedNetwork, net: usize, board: &[Option<ColoredPiece>])
        requires
            old(self).shape_ok(),
            old(self).initialized,
            net < 2,
            network_shape_ok(network),
            board@ == old(self).current_board(),
            old(self).holds_net(net as int, &network.feature_transformer, network.half_dims as int),
            finny_ok(old(self).finny_of(net as int), &network.feature_transformer, network.half_dims as int),
        ensures
            final(self).shape_ok(),
            final(self).same_but_net(old(self), net as int),
            final(self).holds_net(net as int, &network.feature_transformer, network.half_dims as int),
            finny_ok(final(self).finny_of(net as int), &network.feature_transformer, network.half_dims as int),
            cache_kept_or_at(final(self).finny_of(net as int), old(self).finny_of(net as int), board@),
            final(self).sides@[slot(final(self).depth as int, net as int, 0)].computed,
            final(self).sides@[slot(final(self).depth as int, net as int, 1)].computed,
    {
        let ghost start = *self;
        self.ensure_perspective(network, net, board, Color::White);
        let ghost mid = *self;
        self.ensure_perspective(network, net, board, Color::Black);
        proof {
            assert(self.sides@[slot(self.depth as int, net as int, 0)] == mid.sides@[slot(mid.depth as int, net as int, 0)]);
            assert forall|d: int, q: int| 0 <= d < STACK_FRAMES && 0 <= q < 2 && net != 0
                implies #[trigger] self.sides@[slot(d, 0, q)] == start.sides@[slot(d, 0, q)] by {
                assert(mid.sides@[slot(d, 0, q)] == start.sides@[slot(d, 0, q)]);
            }
            assert forall|d: int, q: int| 0 <= d < STACK_FRAMES && 0 <= q < 2 && net != 1
                implies #[trigger] self.sides@[slot(d, 1, q)] == start.sides@[slot(d, 1, q)] by {
                assert(mid.sides@[slot(d, 1, q)] == start.sides@[slot(d, 1, q)]);
            }
        }
    }
}

/// Keeping the other network's accumulators and cache keeps what they hold.
pub proof fn lemma_other_net_kept(a: &NnueContext, b: &NnueContext, net: int, other: int, ft: &FeatureTransformer, half: int)
    requires
        b.same_but_net(a, net),
        b.depth < STACK_FRAMES,
        0 <= net < 2,
        0 <= other < 2,
        other != net,
        a.holds_net(other, ft, half),
        finny_ok(a.finny_of(other), ft, half),
    ensures
        b.holds_net(other, ft, half),
        finny_ok(b.finny_of(other), ft, half),
{
    assert forall|d: int, p: int| 0 <= d <= b.depth && 0 <= p < 2 && #[trigger] b.sides@[slot(d, other, p)].computed implies
        holds_board(ft, half, b.sides@[slot(d, other, p)].accumulation@, b.sides@[slot(d, other, p)].psqt@, b.boards@[d], color_of(p)) by {
        assert(d < STACK_FRAMES);
        if other == 0 {
            assert(b.sides@[slot(d, 0, p)] == a.sides@[slot(d, 0, p)]);
        } else {
            assert(b.sides@[slot(d, 1, p)] == a.sides@[slot(d, 1, p)]);
        }
    }
}

impl NnueNetworks {
    /// Makes `position` the root of `ctx`, empties the refresh caches and
    /// computes every accumulator of the root frame.
    pub fn reset_context(&self, position: &Position, ctx: &mut NnueContext)
        requires
            old(ctx).shape_ok(),
            board_ok(position.squares@),
            network_shape_ok(&self.big),
            network_shape_ok(&self.small),
        ensures
            final(ctx).shape_ok(),
            final(ctx).initialized,
            final(ctx).depth == 0,
            final(ctx).root_hash == position.hash,
            final(ctx).boards@ == seq![position.squares@],
            final(ctx).holds_for(self),
            forall|i: int| 0 <= i < 4 ==> (#[trigger] final(ctx).sides@[i]).computed,
            forall|i: int| 0 <= i < final(ctx).finny_big@.len() ==> (#[trigger] final(ctx).finny_big@[i]).board@ == empty_board()
                || final(ctx).finny_big@[i].board@ == position.squares@,
            forall|i: int| 0 <= i < final(ctx).finny_small@.len() ==> (#[trigger] final(ctx).finny_small@[i]).board@ == empty_board()
                || final(ctx).finny_small@[i].board@ == position.squares@,
    {
        ctx.reset_root_state(position);
        ctx.finny_big = cleared_cache(&self.big.feature_transformer, self.big.half_dims);
        ctx.finny_small = cleared_cache(&self.small.feature_transformer, self.small.half_dims);
        let ghost root = *ctx;
        proof {
            assert(ctx.holds_net(0, &self.big.feature_transformer, self.big.half_dims as int));
            assert(ctx.holds_net(1, &self.small.feature_transformer, self.small.half_dims as int));
        }
        ctx.ensure_frame(&self.big, 0, position.squares.as_slice());
        let ghost mid = *ctx;
        proof {
            lemma_other_net_kept(&root, &mid, 0, 1, &self.small.feature_transformer, self.small.half_dims as int);
        }
        ctx.ensure_frame(&self.small, 1, position.squares.as_slice());
        proof {
            lemma_other_net_kept(&mid, ctx, 1, 0, &self.big.feature_transformer, self.big.half_dims as int);
            assert(ctx.sides@[slot(0, 0, 0)] == mid.sides@[slot(0, 0, 0)]);
            assert(ctx.sides@[slot(0, 0, 1)] == mid.sides@[slot(0, 0, 1)]);
        }
    }
}

} // verus!
