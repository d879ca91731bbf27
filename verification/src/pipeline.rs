//! From accumulators to the two network outputs: transform, layer stack, PSQT.
use vstd::prelude::*;
use crate::arith::{tdiv, wrap32};
use crate::chess::{Color, color_index};
use crate::constants::{FC0_OUTPUTS, FC0_TOTAL_OUTPUTS, FC1_OUTPUTS, FC1_PADDED_INPUT_DIMS, LAYER_STACKS, OUTPUT_SCALE, PSQT_BUCKETS};
use crate::layers::{
    affine_forward, affine_forward_single_output, clipped_relu, clipped_relu_spec, dense_shape_ok,
    packed_dot, row_dot, sparse_affine_forward, sparse_sums_fit, sqr_clipped_relu, sqr_clipped_relu_spec,
};
use crate::network::{LayerStack, LoadedNetwork};
use crate::transform::{transform_features, transformed};
use crate::accumulator::{holds_board, seq_sum, row_value16, row_value32};
use crate::arith::{wrap16, lemma_wrap16_range, lemma_wrap32_range};
use crate::board::king_square_spec;
use crate::chess::ColoredPiece;
use crate::context::{NnueContext, other_color, slot, slot_index, color_of};
use crate::features::active_features_spec;
use crate::network::FeatureTransformer;
use crate::refresh::network_shape_ok;

verus! {

/// The layer stack has the shapes the evaluation expects for `input_dims` transformed inputs.
pub open spec fn stack_shape_ok(stack: &LayerStack, input_dims: int) -> bool {
    &&& dense_shape_ok(&stack.fc0)
    &&& dense_shape_ok(&stack.fc1)
    &&& dense_shape_ok(&stack.fc2)
    &&& stack.fc0.input_dims == input_dims
    &&& stack.fc0.output_dims == FC0_TOTAL_OUTPUTS
    &&& stack.fc0.padded_input_dims <= 4096
    &&& stack.fc1.output_dims == FC1_OUTPUTS
    &&& stack.fc1.padded_input_dims == FC1_PADDED_INPUT_DIMS
    &&& stack.fc2.output_dims == 1
    &&& stack.fc2.padded_input_dims == FC1_PADDED_INPUT_DIMS
}

/// Output `o` of the first layer.
pub open spec fn fc0_value(stack: &LayerStack, input: Seq<u8>, o: int) -> int {
    stack.fc0.biases@[o] + row_dot(stack.fc0.weights@, o * stack.fc0.padded_input_dims, input, stack.fc0.input_dims as int)
}

/// The 32 inputs of the second layer: squared then plain clipped activations
/// of the first 15 outputs, then two zeros.
pub open spec fn fc1_input(stack: &LayerStack, input: Seq<u8>) -> Seq<u8> {
    Seq::new(FC1_PADDED_INPUT_DIMS as nat, |i: int|
        if i < FC0_OUTPUTS { sqr_clipped_relu_spec(fc0_value(stack, input, i)) as u8 }
        else if i < 2 * FC0_OUTPUTS { clipped_relu_spec(fc0_value(stack, input, i - FC0_OUTPUTS)) as u8 }
        else { 0u8 })
}

/// The activated outputs of the second layer.
pub open spec fn fc1_activated(stack: &LayerStack, input: Seq<u8>) -> Seq<u8> {
    Seq::new(FC1_OUTPUTS as nat, |o: int|
        clipped_relu_spec(wrap32(stack.fc1.biases@[o] + packed_dot(stack.fc1.weights@, o, FC1_OUTPUTS as int, fc1_input(stack, input), FC1_PADDED_INPUT_DIMS as int))) as u8)
}

/// The output layer's value.
pub open spec fn fc2_value(stack: &LayerStack, input: Seq<u8>) -> int {
    wrap32(stack.fc2.biases@[0] + row_dot(stack.fc2.weights@, 0, fc1_activated(stack, input), FC1_PADDED_INPUT_DIMS as int))
}

/// The last first-layer output passed straight through, rescaled: `r * 9600 / 8128`.
pub open spec fn residual_forward(stack: &LayerStack, input: Seq<u8>) -> int {
    tdiv(fc0_value(stack, input, FC0_OUTPUTS as int) * (600 * OUTPUT_SCALE), 8128int)
}

/// The layer stack's output for `input`, or `None` where an `i32` computation would overflow.
pub open spec fn propagate_spec(stack: &LayerStack, input: Seq<u8>) -> Option<int> {
    let residual = fc0_value(stack, input, FC0_OUTPUTS as int);
    if !sparse_sums_fit(&stack.fc0, input) {
        None
    } else if !(i32::MIN <= residual * (600 * OUTPUT_SCALE) <= i32::MAX) {
        None
    } else if !(i32::MIN <= fc2_value(stack, input) + residual_forward(stack, input) <= i32::MAX) {
        None
    } else {
        Some(fc2_value(stack, input) + residual_forward(stack, input))
    }
}

/// Whether every running sum of the first layer stays within `i32`.
pub fn sparse_sums_fit_check(layer: &crate::network::DenseLayer, input: &[u8]) -> (r: bool)
    requires
        dense_shape_ok(layer),
        input@.len() >= layer.input_dims,
        layer.padded_input_dims <= 4096,
        layer.output_dims <= 64,
    ensures
        r == sparse_sums_fit(layer, input@),
{
    let out_dims = layer.output_dims;
    let in_dims = layer.input_dims;
    let padded = layer.padded_input_dims;
    let mut o: usize = 0;
    while o < out_dims
        invariant
            o <= out_dims,
            out_dims == layer.output_dims <= 64,
            in_dims == layer.input_dims,
            padded == layer.padded_input_dims <= 4096,
            dense_shape_ok(layer),
            input@.len() >= in_dims,
            forall|p: int, k: int| 0 <= p < o && 0 <= k <= in_dims ==>
                i32::MIN <= #[trigger] (layer.biases@[p] + row_dot(layer.weights@, p * padded, input@, k)) <= i32::MAX,
        decreases out_dims - o,
    {
        proof {
            assert(o * padded + padded <= out_dims * padded) by (nonlinear_arith) requires o < out_dims;
            assert(out_dims * padded <= 64 * 4096) by (nonlinear_arith) requires out_dims <= 64, padded <= 4096;
        }
        let row = o * padded;
        let mut acc: i64 = layer.biases[o] as i64;
        let mut i: usize = 0;
        proof { crate::arith::lemma_i32_wrapping(0, 0); }
        if acc < i32::MIN as i64 || acc > i32::MAX as i64 {
            assert(!(i32::MIN <= layer.biases@[o as int] + row_dot(layer.weights@, o * padded, input@, 0) <= i32::MAX));
            return false;
        }
        while i < in_dims
            invariant
                i <= in_dims,
                o < out_dims,
                out_dims == layer.output_dims <= 64,
                in_dims == layer.input_dims,
                padded == layer.padded_input_dims <= 4096,
                row == o * padded,
                row + padded <= layer.weights@.len(),
                layer.weights@.len() <= 64 * 4096,
                dense_shape_ok(layer),
                input@.len() >= in_dims,
                acc == layer.biases@[o as int] + row_dot(layer.weights@, row as int, input@, i as int),
                i32::MIN <= acc <= i32::MAX,
                forall|k: int| 0 <= k <= i ==>
                    i32::MIN <= #[trigger] (layer.biases@[o as int] + row_dot(layer.weights@, o * padded, input@, k)) <= i32::MAX,
            decreases in_dims - i,
        {
            let weight = layer.weights[row + i] as i64;
            let value = input[i] as i64;
            assert(-32640 <= weight * value <= 32385) by (nonlinear_arith)
                requires -128 <= weight <= 127, 0 <= value <= 255;
            acc = acc + weight * value;
            if acc < i32::MIN as i64 || acc > i32::MAX as i64 {
                assert(!(i32::MIN <= layer.biases@[o as int] + row_dot(layer.weights@, o * padded, input@, i + 1) <= i32::MAX));
                return false;
            }
            i = i + 1;
        }
        proof {
            assert forall|p: int, k: int| 0 <= p < o + 1 && 0 <= k <= in_dims implies
                i32::MIN <= #[trigger] (layer.biases@[p] + row_dot(layer.weights@, p * padded, input@, k)) <= i32::MAX by {
                if p == o {
                }
            }
        }
        o = o + 1;
    }
    true
}

/// Runs a layer stack on the transformed features: the first layer, both
/// activations of its first 15 outputs, the second layer, its activation, the
/// output layer, plus the rescaled last first-layer output; `None` where the
/// computation would overflow `i32`.
pub fn propagate_loaded_network(stack: &LayerStack, transformed: &[u8]) -> (r: Option<i32>)
    requires
        stack_shape_ok(stack, transformed@.len() as int),
    ensures
        match propagate_spec(stack, transformed@) {
            Some(v) => r == Some(v as i32) && v == v as i32,
            None => r is None,
        },
{
    if !sparse_sums_fit_check(&stack.fc0, transformed) {
        return None;
    }
    let mut fc0_out: Vec<i32> = vec![0; 16];
    sparse_affine_forward(&stack.fc0, transformed, fc0_out.as_mut_slice());
    let mut fc1_in: Vec<u8> = vec![0; 32];
    let first = vstd::slice::slice_subrange(fc0_out.as_slice(), 0, FC0_OUTPUTS);
    sqr_clipped_relu(first, fc1_in.as_mut_slice());
    let ghost after_sqr = fc1_in@;
    let mut plain: Vec<u8> = vec![0; 15];
    clipped_relu(first, plain.as_mut_slice());
    let mut i: usize = 0;
    while i < FC0_OUTPUTS
        invariant
            i <= FC0_OUTPUTS,
            fc1_in@.len() == 32,
            plain@.len() == 15,
            forall|j: int| 0 <= j < FC0_OUTPUTS ==> #[trigger] fc1_in@[j] == after_sqr[j],
            forall|j: int| 0 <= j < i ==> #[trigger] fc1_in@[FC0_OUTPUTS + j] == plain@[j],
            forall|j: int| FC0_OUTPUTS + i <= j < 32 ==> #[trigger] fc1_in@[j] == after_sqr[j],
        decreases FC0_OUTPUTS - i,
    {
        fc1_in.set(FC0_OUTPUTS + i, plain[i]);
        i = i + 1;
    }
    proof {
        assert forall|j: int| 0 <= j < 32 implies #[trigger] fc1_in@[j] == fc1_input(stack, transformed@)[j] by {
            if j < FC0_OUTPUTS {
                let x = fc0_out@[j] as int;
                assert(x == fc0_value(stack, transformed@, j));
                assert(x * x >= 0) by (nonlinear_arith);
                assert(0 <= sqr_clipped_relu_spec(x) <= 127);
            } else if j < 2 * FC0_OUTPUTS {
                let x = fc0_out@[j - FC0_OUTPUTS] as int;
                assert(x == fc0_value(stack, transformed@, j - FC0_OUTPUTS));
                let k = j - FC0_OUTPUTS;
                assert(fc1_in@[FC0_OUTPUTS + k] == plain@[k]);
            }
        }
        assert(fc1_in@ =~= fc1_input(stack, transformed@));
    }
    let mut fc1_out: Vec<i32> = vec![0; 32];
    affine_forward(&stack.fc1, fc1_in.as_slice(), fc1_out.as_mut_slice());
    let mut fc1_act: Vec<u8> = vec![0; 32];
    clipped_relu(fc1_out.as_slice(), fc1_act.as_mut_slice());
    proof {
        assert forall|j: int| 0 <= j < 32 implies #[trigger] fc1_act@[j] == fc1_activated(stack, transformed@)[j] by {
            assert(fc1_act@[j] == clipped_relu_spec(fc1_out@[j] as int));
        }
        assert(fc1_act@ =~= fc1_activated(stack, transformed@));
    }
    let positional = affine_forward_single_output(&stack.fc2, fc1_act.as_slice());
    let residual = fc0_out[FC0_OUTPUTS];
    let scaled = residual as i64 * (600 * OUTPUT_SCALE) as i64;
    if scaled < i32::MIN as i64 || scaled > i32::MAX as i64 {
        return None;
    }
    let residual_fwd = (scaled as i32) / (127 * 64);
    let total = positional as i64 + residual_fwd as i64;
    if total < i32::MIN as i64 || total > i32::MAX as i64 {
        return None;
    }
    Some(total as i32)
}

/// The accumulator a full refresh of `board` gives for `perspective`.
pub open spec fn refreshed_acc(ft: &FeatureTransformer, half: int, board: Seq<Option<ColoredPiece>>, perspective: Color) -> Seq<i16> {
    Seq::new(half as nat, |lane: int| wrap16(ft.biases@[lane]
        + seq_sum(active_features_spec(perspective, board, king_square_spec(board, perspective), 64), row_value16(ft.weights@, half, lane))) as i16)
}

/// The PSQT values a full refresh of `board` gives for `perspective`.
pub open spec fn refreshed_psqt(ft: &FeatureTransformer, board: Seq<Option<ColoredPiece>>, perspective: Color) -> Seq<i32> {
    Seq::new(PSQT_BUCKETS as nat, |b: int| wrap32(
        seq_sum(active_features_spec(perspective, board, king_square_spec(board, perspective), 64), row_value32(ft.psqt_weights@, PSQT_BUCKETS as int, b))) as i32)
}

/// An accumulator that holds a board's features has the values of a full refresh.
pub proof fn lemma_holds_board_values(ft: &FeatureTransformer, half: int, acc: Seq<i16>, psqt: Seq<i32>, board: Seq<Option<ColoredPiece>>, perspective: Color)
    requires
        holds_board(ft, half, acc, psqt, board, perspective),
    ensures
        acc == refreshed_acc(ft, half, board, perspective),
        psqt == refreshed_psqt(ft, board, perspective),
{
    let feats = active_features_spec(perspective, board, king_square_spec(board, perspective), 64);
    assert forall|lane: int| 0 <= lane < half implies #[trigger] acc[lane] == refreshed_acc(ft, half, board, perspective)[lane] by {
        lemma_wrap16_range(ft.biases@[lane] + seq_sum(feats, row_value16(ft.weights@, half, lane)));
    }
    assert forall|b: int| 0 <= b < PSQT_BUCKETS implies #[trigger] psqt[b] == refreshed_psqt(ft, board, perspective)[b] by {
        lemma_wrap32_range(seq_sum(feats, row_value32(ft.psqt_weights@, PSQT_BUCKETS as int, b)));
    }
    assert(acc =~= refreshed_acc(ft, half, board, perspective));
    assert(psqt =~= refreshed_psqt(ft, board, perspective));
}

/// The layer stack's input: the side to move's transformed half, then the other side's.
pub open spec fn transformed_input(stm_acc: Seq<i16>, opp_acc: Seq<i16>, half: int) -> Seq<u8> {
    Seq::new(half as nat, |i: int|
        (if i < half / 2 { transformed(stm_acc, half / 2, i) } else { transformed(opp_acc, half / 2, i - half / 2) }) as u8)
}

/// A network ready for evaluation: its transformer fits its width, which is
/// even, and it has one layer stack of matching shape per bucket.
pub open spec fn network_ok(network: &LoadedNetwork) -> bool {
    &&& network_shape_ok(network)
    &&& network.half_dims % 2 == 0
    &&& network.layer_stacks@.len() == LAYER_STACKS
    &&& forall|i: int| #![trigger network.layer_stacks@[i]] 0 <= i < LAYER_STACKS ==>
        stack_shape_ok(&network.layer_stacks@[i], network.half_dims as int)
}

/// A network's PSQT and positional outputs for `board` with `stm` to move,
/// each divided by the output scale; `None` where an `i32` computation overflows.
pub open spec fn network_output_spec(network: &LoadedNetwork, board: Seq<Option<ColoredPiece>>, stm: Color, bucket: int) -> Option<(int, int)> {
    let ft = &network.feature_transformer;
    let half = network.half_dims as int;
    let input = transformed_input(refreshed_acc(ft, half, board, stm), refreshed_acc(ft, half, board, other_color(stm)), half);
    let diff = refreshed_psqt(ft, board, stm)[bucket] - refreshed_psqt(ft, board, other_color(stm))[bucket];
    match propagate_spec(&network.layer_stacks@[bucket], input) {
        None => None,
        Some(positional) => if i32::MIN <= diff <= i32::MAX {
            Some((tdiv(tdiv(diff, 2), OUTPUT_SCALE as int), tdiv(positional, OUTPUT_SCALE as int)))
        } else {
            None
        },
    }
}

/// Evaluates network `net` on the current frame of `ctx`, whose accumulators
/// for that network are computed.
pub fn evaluate_network(network: &LoadedNetwork, net: usize, ctx: &NnueContext, stm: Color, bucket: usize) -> (r: Option<(i32, i32)>)
    requires
        ctx.shape_ok(),
        ctx.initialized,
        net < 2,
        network_ok(network),
        bucket < PSQT_BUCKETS,
        ctx.holds_net(net as int, &network.feature_transformer, network.half_dims as int),
        ctx.sides@[slot(ctx.depth as int, net as int, 0)].computed,
        ctx.sides@[slot(ctx.depth as int, net as int, 1)].computed,
    ensures
        match network_output_spec(network, ctx.current_board(), stm, bucket as int) {
            Some((p, q)) => r == Some((p as i32, q as i32)) && i32::MIN <= p <= i32::MAX && i32::MIN <= q <= i32::MAX,
            None => r is None,
        },
{
    let half = network.half_dims;
    let depth = ctx.depth;
    let ps = stm.index();
    let w = slot_index(depth, net, 0);
    let b = slot_index(depth, net, 1);
    let s_stm = slot_index(depth, net, ps);
    let s_opp = slot_index(depth, net, 1 - ps);
    let ghost ft = &network.feature_transformer;
    let ghost board = ctx.current_board();
    proof {
        assert(ctx.sides@[w as int].computed);
        lemma_holds_board_values(ft, half as int, ctx.sides@[w as int].accumulation@, ctx.sides@[w as int].psqt@, board, color_of(0));
        lemma_holds_board_values(ft, half as int, ctx.sides@[b as int].accumulation@, ctx.sides@[b as int].psqt@, board, color_of(1));
        assert(stm == color_of(ps as int));
        assert(other_color(stm) == color_of(1 - ps));
    }
    let mut input: Vec<u8> = vec![0u8; half];
    transform_features([ctx.sides[w].accumulation.as_slice(), ctx.sides[b].accumulation.as_slice()], stm, input.as_mut_slice());
    let ghost stm_acc = refreshed_acc(ft, half as int, board, stm);
    let ghost opp_acc = refreshed_acc(ft, half as int, board, other_color(stm));
    proof {
        assert forall|i: int| 0 <= i < half implies #[trigger] input@[i] == transformed_input(stm_acc, opp_acc, half as int)[i] by {
            if i < half / 2 {
                assert(input@[i] == transformed(stm_acc, half as int / 2, i));
            } else {
                assert(input@[half as int / 2 + (i - half as int / 2)] == transformed(opp_acc, half as int / 2, i - half as int / 2));
            }
        }
        assert(input@ =~= transformed_input(stm_acc, opp_acc, half as int));
    }
    let positional = match propagate_loaded_network(&network.layer_stacks[bucket], input.as_slice()) {
        Some(v) => v,
        None => return None,
    };
    let a = ctx.sides[s_stm].psqt[bucket] as i64;
    let c = ctx.sides[s_opp].psqt[bucket] as i64;
    let diff = a - c;
    if diff < i32::MIN as i64 || diff > i32::MAX as i64 {
        return None;
    }
    let psqt_raw = (diff as i32) / 2;
    Some((psqt_raw / OUTPUT_SCALE, positional / OUTPUT_SCALE))
}

} // verus!
