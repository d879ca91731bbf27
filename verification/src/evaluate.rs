//! A whole evaluation: choosing the network, bringing the context's
//! accumulators up to date, and combining the outputs into the raw score.
use vstd::prelude::*;
use crate::board::{Position, PositionInputs, board_ok, count_where, piece_filter, king_square, king_square_spec, lemma_count_bound};
use crate::chess::{Color, ColoredPiece};
use crate::constants::{BIG_NET_RECHECK_THRESHOLD, SMALLNET_SIMPLE_EVAL_THRESHOLD, LAYER_STACKS, PSQT_BUCKETS, FEATURE_DIMS};
use crate::context::{NnueContext, slot};
use crate::eval::{
    abs_int, blend_checked, blend_fits, blended_nnue_spec, final_raw_checked, final_raw_fits, final_raw_spec,
    needs_big_recheck, prefers_smallnet, psqt_bucket, psqt_bucket_spec, scaling_material_spec, simple_eval_spec,
};
use crate::layers::dense_shape_ok;
use crate::network::{
    DenseLayer, LayerStack, LoadedNetwork, NnueNetworks, NetworkKind, LayerStackModel, DenseLayerModel,
    network_spec, layer_stack_spec, layer_stacks_spec, dense_layer_spec, kind_half_dims, round_up_32,
};
use crate::loader::{leb128_block, lemma_leb128_block_bounds};
use crate::constants::FC1_INPUT_DIMS;
use crate::pipeline::{evaluate_network, network_ok, network_output_spec, stack_shape_ok};
use crate::refresh::{lemma_other_net_kept, network_shape_ok};
use crate::constants::{FC0_TOTAL_OUTPUTS, FC1_OUTPUTS, FC1_PADDED_INPUT_DIMS};

verus! {

/// The parts of an evaluation before its conversion to centipawns.
#[derive(Clone, Copy, Debug, PartialEq, Eq)]
pub struct RawEvalOutput {
    pub psqt: i32,
    pub positional: i32,
    pub final_raw: i32,
    pub used_smallnet: bool,
}

/// Both networks are ready for evaluation.
pub open spec fn networks_ok(nets: &NnueNetworks) -> bool {
    network_ok(&nets.big) && network_ok(&nets.small)
}

/// The evaluation of `board` with `stm` to move, from full refreshes of the
/// accumulators: the small network first when material is clearly
/// unbalanced, the big one again when the small one's blend is close to
/// zero; `None` where an `i32` computation overflows.
pub open spec fn raw_eval_spec(nets: &NnueNetworks, board: Seq<Option<ColoredPiece>>, stm: Color, rule50: int) -> Option<RawEvalOutput> {
    let count = count_where(board, piece_filter(None, None), 64);
    if count == 0 {
        Some(RawEvalOutput { psqt: 0, positional: 0, final_raw: 0, used_smallnet: false })
    } else {
        let bucket = psqt_bucket_spec(count as u8);
        let small = abs_int(simple_eval_spec(board, stm)) > SMALLNET_SIMPLE_EVAL_THRESHOLD;
        let first = if small { network_output_spec(&nets.small, board, stm, bucket) } else { network_output_spec(&nets.big, board, stm, bucket) };
        match first {
            None => None,
            Some((p1, q1)) => if !blend_fits(p1, q1) {
                None
            } else {
                let recheck = small && abs_int(blended_nnue_spec(p1, q1)) < BIG_NET_RECHECK_THRESHOLD;
                let chosen = if recheck { network_output_spec(&nets.big, board, stm, bucket) } else { first };
                match chosen {
                    None => None,
                    Some((p, q)) => {
                        let material = scaling_material_spec(board);
                        if final_raw_fits(p, q, material, rule50) {
                            Some(RawEvalOutput {
                                psqt: p as i32,
                                positional: q as i32,
                                final_raw: final_raw_spec(p, q, material, rule50) as i32,
                                used_smallnet: small && !recheck,
                            })
                        } else {
                            None
                        }
                    },
                }
            },
        }
    }
}

/// The context may be used for `position`: once it holds a stack, its current
/// frame is `position`, unless the root is replaced because its hash differs.
pub open spec fn context_fits(ctx: &NnueContext, position: &Position) -> bool {
    ctx.initialized && (ctx.depth > 0 || ctx.root_hash == position.hash) ==> position.squares@ == ctx.current_board()
}

/// The root is replaced before evaluating `position`.
pub open spec fn needs_reset(ctx: &NnueContext, position: &Position) -> bool {
    !ctx.initialized || (ctx.depth == 0 && ctx.root_hash != position.hash)
}

/// A decoded dense layer with the given dimensions and matching value counts.
pub open spec fn dense_model_ok(m: DenseLayerModel, input_dims: nat, output_dims: nat) -> bool {
    &&& m.input_dims == input_dims
    &&& m.padded_input_dims == round_up_32(input_dims)
    &&& m.output_dims == output_dims
    &&& m.biases.len() == output_dims
    &&& m.weights.len() == output_dims * round_up_32(input_dims)
}

/// A decoded layer stack with the shapes of a network `half` lanes wide.
pub open spec fn stack_model_ok(m: LayerStackModel, half: nat) -> bool {
    &&& dense_model_ok(m.fc0, half, FC0_TOTAL_OUTPUTS as nat)
    &&& dense_model_ok(m.fc1, FC1_INPUT_DIMS as nat, FC1_OUTPUTS as nat)
    &&& dense_model_ok(m.fc2, FC1_OUTPUTS as nat, 1)
}

proof fn lemma_stack_model_ok(s: Seq<u8>, half: nat, h: u32)
    ensures
        layer_stack_spec(s, half, h) matches Ok((m, used)) ==> stack_model_ok(m, half),
{
}

proof fn lemma_stacks_model_ok(s: Seq<u8>, half: nat, h: u32, count: nat)
    ensures
        layer_stacks_spec(s, half, h, count) matches Ok((ms, used)) ==>
            ms.len() == count && forall|i: int| 0 <= i < count ==> stack_model_ok(#[trigger] ms[i], half),
    decreases count,
{
    if count > 0 {
        lemma_stack_model_ok(s, half, h);
        match layer_stack_spec(s, half, h) {
            Ok((m, used)) => {
                lemma_stacks_model_ok(s.skip(used), half, h, (count - 1) as nat);
                match layer_stacks_spec(s.skip(used), half, h, (count - 1) as nat) {
                    Ok((rest, u2)) => {
                        let ms = seq![m] + rest;
                        assert forall|i: int| 0 <= i < count implies stack_model_ok(#[trigger] ms[i], half) by {
                            if i > 0 {
                                assert(ms[i] == rest[i - 1]);
                            }
                        }
                    },
                    Err(e) => {},
                }
            },
            Err(e) => {},
        }
    }
}

/// A network decoded from a file has the shapes evaluation needs.
pub proof fn lemma_loaded_network_ok(s: Seq<u8>, kind: NetworkKind, n: &LoadedNetwork)
    requires
        network_spec(s, kind) matches Ok(m) && n.models(m),
    ensures
        network_ok(n),
{
    let half = kind_half_dims(kind);
    let m = network_spec(s, kind)->Ok_0;
    let s1 = s.skip(12 + crate::loader::le_u32(s.subrange(8, 12)));
    let s2 = s1.skip(4);
    lemma_leb128_block_bounds(s2, half);
    let u1 = leb128_block(s2, half)->Ok_0.1;
    lemma_leb128_block_bounds(s2.skip(u1), (FEATURE_DIMS * half) as nat);
    let u2 = leb128_block(s2.skip(u1), (FEATURE_DIMS * half) as nat)->Ok_0.1;
    lemma_leb128_block_bounds(s2.skip(u1 + u2), (FEATURE_DIMS * PSQT_BUCKETS) as nat);
    let u3 = leb128_block(s2.skip(u1 + u2), (FEATURE_DIMS * PSQT_BUCKETS) as nat)->Ok_0.1;
    lemma_stacks_model_ok(s2.skip(u1 + u2 + u3), half, crate::network::kind_layer_stack_hash(kind), LAYER_STACKS as nat);
    assert(round_up_32(FC1_INPUT_DIMS as nat) == 32);
    assert(round_up_32(FC1_OUTPUTS as nat) == 32);
    assert(round_up_32(half) == half);
    assert forall|i: int| #![trigger n.layer_stacks@[i]] 0 <= i < LAYER_STACKS implies
        stack_shape_ok(&n.layer_stacks@[i], n.half_dims as int) by {
        assert(n.layer_stacks@[i].models(m.stacks[i]));
        assert(stack_model_ok(m.stacks[i], half));
    }
}

impl NnueNetworks {
    /// The side to move, the fifty-move counter, the number of pieces and the kings' squares (64 for a missing king).
    pub fn position_inputs(&self, position: &Position) -> (r: PositionInputs)
        requires
            position.squares@.len() == 64,
        ensures
            r.side_to_move == position.side_to_move,
            r.rule50 == position.rule50,
            r.piece_count == count_where(position.squares@, piece_filter(None, None), 64),
            r.white_king == king_square_spec(position.squares@, Color::White),
            r.black_king == king_square_spec(position.squares@, Color::Black),
    {
        PositionInputs {
            side_to_move: position.side_to_move,
            rule50: position.rule50,
            piece_count: position.piece_count(),
            white_king: king_square(position.squares.as_slice(), Color::White),
            black_king: king_square(position.squares.as_slice(), Color::Black),
        }
    }

    #[verifier::rlimit(50)]
    /// Evaluates `position` with the accumulators of `ctx`, refreshing its root
    /// first when it holds no stack or its root is another position. The
    /// result is that of full refreshes, whatever moves led to the current frame.
    pub fn evaluate_raw_output(&self, position: &Position, ctx: &mut NnueContext) -> (r: Option<RawEvalOutput>)
        requires
            networks_ok(self),
            old(ctx).shape_ok(),
            needs_reset(old(ctx), position) || old(ctx).holds_for(self),
            position.squares@.len() == 64,
            count_where(position.squares@, piece_filter(None, None), 64) > 0 ==> board_ok(position.squares@),
            context_fits(old(ctx), position),
        ensures
            r == raw_eval_spec(self, position.squares@, position.side_to_move, position.rule50 as int),
            final(ctx).shape_ok(),
            count_where(position.squares@, piece_filter(None, None), 64) == 0 ==> *final(ctx) == *old(ctx),
            count_where(position.squares@, piece_filter(None, None), 64) > 0 ==> {
                &&& final(ctx).holds_for(self)
                &&& final(ctx).initialized
                &&& final(ctx).current_board() == position.squares@
                &&& needs_reset(old(ctx), position) ==> final(ctx).depth == 0 && final(ctx).root_hash == position.hash
                    && final(ctx).boards@ == seq![position.squares@]
                &&& !needs_reset(old(ctx), position) ==> final(ctx).depth == old(ctx).depth
                    && final(ctx).root_hash == old(ctx).root_hash && final(ctx).boards == old(ctx).boards
                    && final(ctx).dirty == old(ctx).dirty
            },
    {
        let inputs = self.position_inputs(position);
        if inputs.piece_count == 0 {
            return Some(RawEvalOutput { psqt: 0, positional: 0, final_raw: 0, used_smallnet: false });
        }
        if !ctx.initialized || (ctx.depth == 0 && ctx.root_hash != position.hash) {
            self.reset_context(position, ctx);
        }
        let ghost ready = *ctx;
        let board = position.squares.as_slice();
        let stm = inputs.side_to_move;
        let bucket = psqt_bucket(inputs.piece_count);
        let se = position.simple_eval(stm);
        let mut used_smallnet = prefers_smallnet(se);
        let first = if used_smallnet {
            ctx.ensure_frame(&self.small, 1, board);
            proof {
                lemma_other_net_kept(&ready, ctx, 1, 0, &self.big.feature_transformer, self.big.half_dims as int);
            }
            evaluate_network(&self.small, 1, ctx, stm, bucket)
        } else {
            ctx.ensure_frame(&self.big, 0, board);
            proof {
                lemma_other_net_kept(&ready, ctx, 0, 1, &self.small.feature_transformer, self.small.half_dims as int);
            }
            evaluate_network(&self.big, 0, ctx, stm, bucket)
        };
        let (mut psqt, mut positional) = match first {
            Some(x) => x,
            None => return None,
        };
        let nnue = match blend_checked(psqt, positional) {
            Some(v) => v,
            None => return None,
        };
        if needs_big_recheck(used_smallnet, nnue) {
            let ghost mid = *ctx;
            ctx.ensure_frame(&self.big, 0, board);
            proof {
                lemma_other_net_kept(&mid, ctx, 0, 1, &self.small.feature_transformer, self.small.half_dims as int);
            }
            match evaluate_network(&self.big, 0, ctx, stm, bucket) {
                Some((p, q)) => {
                    psqt = p;
                    positional = q;
                },
                None => return None,
            }
            used_smallnet = false;
        }
        let material = position.material_for_scaling();
        let final_raw = match final_raw_checked(psqt, positional, material, inputs.rule50) {
            Some(v) => v,
            None => return None,
        };
        Some(RawEvalOutput { psqt, positional, final_raw, used_smallnet })
    }

    /// The final raw evaluation of `position`, as `evaluate_raw_output` computes it.
    pub fn evaluate_raw(&self, position: &Position, ctx: &mut NnueContext) -> (r: Option<i32>)
        requires
            networks_ok(self),
            old(ctx).shape_ok(),
            needs_reset(old(ctx), position) || old(ctx).holds_for(self),
            position.squares@.len() == 64,
            count_where(position.squares@, piece_filter(None, None), 64) > 0 ==> board_ok(position.squares@),
            context_fits(old(ctx), position),
        ensures
            r == match raw_eval_spec(self, position.squares@, position.side_to_move, position.rule50 as int) {
                Some(o) => Some(o.final_raw),
                None => None::<i32>,
            },
            final(ctx).shape_ok(),
            count_where(position.squares@, piece_filter(None, None), 64) > 0 ==> final(ctx).holds_for(self),
    {
        match self.evaluate_raw_output(position, ctx) {
            Some(o) => Some(o.final_raw),
            None => None,
        }
    }
}

} // verus!
