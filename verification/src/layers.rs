//! The dense layers and activations of a layer stack.
use vstd::prelude::*;
use crate::arith::{wrap32, tdiv};
use crate::constants::{FC0_OUTPUTS, FC0_TOTAL_OUTPUTS, FC1_OUTPUTS, FC1_PADDED_INPUT_DIMS, OUTPUT_SCALE, WEIGHT_SCALE_BITS};
use crate::layout::packed_index;
use crate::network::{DenseLayer, LayerStack};

verus! {

pub open spec fn clamp(x: int, lo: int, hi: int) -> int {
    if x < lo { lo } else if x > hi { hi } else { x }
}

/// `clamp(x >> 6, 0, 127)`.
pub open spec fn clipped_relu_spec(x: int) -> int {
    clamp(x / 64, 0, 127)
}

/// `min((x * x) >> 19, 127)`.
pub open spec fn sqr_clipped_relu_spec(x: int) -> int {
    let q = (x * x) / 0x8_0000;
    if q > 127 { 127 } else { q }
}

/// Writes `clamp(input[i] >> 6, 0, 127)` to `output[i]` for every input.
pub fn clipped_relu(input: &[i32], output: &mut [u8])
    requires
        old(output)@.len() >= input@.len(),
    ensures
        final(output)@.len() == old(output)@.len(),
        forall|i: int| 0 <= i < input@.len() ==> #[trigger] final(output)@[i] == clipped_relu_spec(input@[i] as int),
        forall|i: int| input@.len() <= i < old(output)@.len() ==> #[trigger] final(output)@[i] == old(output)@[i],
{
    let n = input.len();
    let mut i: usize = 0;
    while i < n
        invariant
            i <= n,
            n == input@.len(),
            output@.len() == old(output)@.len(),
            old(output)@.len() >= n,
            forall|j: int| 0 <= j < i ==> #[trigger] output@[j] == clipped_relu_spec(input@[j] as int),
            forall|j: int| i <= j < output@.len() ==> #[trigger] output@[j] == old(output)@[j],
        decreases n - i,
    {
        let value = input[i];
        let shifted: i32 = if value < 0 { -1 } else { value / 64 };
        proof {
            if value < 0 {
                assert((value as int) / 64 < 0) by (nonlinear_arith) requires value < 0;
            }
        }
        let clipped: u8 = if shifted < 0 { 0 } else if shifted > 127 { 127 } else { shifted as u8 };
        output[i] = clipped;
        i = i + 1;
    }
}

/// Writes `min((input[i]^2) >> 19, 127)` to `output[i]` for every input.
pub fn sqr_clipped_relu(input: &[i32], output: &mut [u8])
    requires
        old(output)@.len() >= input@.len(),
    ensures
        final(output)@.len() == old(output)@.len(),
        forall|i: int| 0 <= i < input@.len() ==> #[trigger] final(output)@[i] == sqr_clipped_relu_spec(input@[i] as int),
        forall|i: int| input@.len() <= i < old(output)@.len() ==> #[trigger] final(output)@[i] == old(output)@[i],
{
    let n = input.len();
    let mut i: usize = 0;
    while i < n
        invariant
            i <= n,
            n == input@.len(),
            output@.len() == old(output)@.len(),
            old(output)@.len() >= n,
            forall|j: int| 0 <= j < i ==> #[trigger] output@[j] == sqr_clipped_relu_spec(input@[j] as int),
            forall|j: int| i <= j < output@.len() ==> #[trigger] output@[j] == old(output)@[j],
        decreases n - i,
    {
        let value = input[i] as i64;
        assert(0 <= value * value <= 0x4000_0000_0000_0000) by (nonlinear_arith)
            requires -0x8000_0000 <= value <= 0x7fff_ffff;
        let squared: i64 = (value * value) / 0x8_0000;
        output[i] = if squared > 127 { 127 } else { squared as u8 };
        i = i + 1;
    }
}

/// The layer's weights and biases have the sizes its dimensions announce.
pub open spec fn dense_shape_ok(layer: &DenseLayer) -> bool {
    &&& layer.biases@.len() == layer.output_dims
    &&& layer.weights@.len() == layer.output_dims * layer.padded_input_dims
    &&& layer.input_dims <= layer.padded_input_dims
}

/// `sum_{i < k} weights[row + i] * input[i]`: the row-major dot product over the first `k` inputs.
pub open spec fn row_dot(weights: Seq<i8>, row: int, input: Seq<u8>, k: int) -> int
    decreases k,
{
    if k <= 0 { 0 } else { row_dot(weights, row, input, k - 1) + weights[row + k - 1] * input[k - 1] }
}

/// Each output's running sum stays within `i32` while the inputs are added in order.
pub open spec fn sparse_sums_fit(layer: &DenseLayer, input: Seq<u8>) -> bool {
    forall|o: int, k: int| 0 <= o < layer.output_dims && 0 <= k <= layer.input_dims ==>
        i32::MIN <= #[trigger] (layer.biases@[o] + row_dot(layer.weights@, o * layer.padded_input_dims, input, k)) <= i32::MAX
}

/// `output[o] = biases[o] + sum_i weights[o * padded + i] * input[i]` over the layer's inputs.
pub fn sparse_affine_forward(layer: &DenseLayer, input: &[u8], output: &mut [i32])
    requires
        dense_shape_ok(layer),
        old(output)@.len() == layer.output_dims,
        input@.len() >= layer.input_dims,
        sparse_sums_fit(layer, input@),
    ensures
        final(output)@.len() == layer.output_dims,
        forall|o: int| 0 <= o < layer.output_dims ==> #[trigger] final(output)@[o]
            == layer.biases@[o] + row_dot(layer.weights@, o * layer.padded_input_dims, input@, layer.input_dims as int),
{
    let out_dims = layer.output_dims;
    let in_dims = layer.input_dims;
    let padded = layer.padded_input_dims;
    let wlen = layer.weights.len();
    let mut o: usize = 0;
    while o < out_dims
        invariant
            o <= out_dims,
            wlen == layer.weights@.len(),
            out_dims == layer.output_dims,
            in_dims == layer.input_dims,
            padded == layer.padded_input_dims,
            dense_shape_ok(layer),
            input@.len() >= in_dims,
            sparse_sums_fit(layer, input@),
            output@.len() == out_dims,
            forall|p: int| 0 <= p < o ==> #[trigger] output@[p]
                == layer.biases@[p] + row_dot(layer.weights@, p * padded, input@, in_dims as int),
        decreases out_dims - o,
    {
        proof {
            assert(o * padded + padded <= out_dims * padded) by (nonlinear_arith) requires o < out_dims;
        }
        let row = o * padded;
        let mut acc: i32 = layer.biases[o];
        let mut i: usize = 0;
        proof {
            assert(layer.biases@[o as int] + row_dot(layer.weights@, row as int, input@, 0) == acc);
        }
        while i < in_dims
            invariant
                i <= in_dims,
                o < out_dims,
                out_dims == layer.output_dims,
                in_dims == layer.input_dims,
                padded == layer.padded_input_dims,
                row == o * padded,
                row + padded <= layer.weights@.len(),
                wlen == layer.weights@.len(),
                dense_shape_ok(layer),
                input@.len() >= in_dims,
                sparse_sums_fit(layer, input@),
                acc == layer.biases@[o as int] + row_dot(layer.weights@, row as int, input@, i as int),
            decreases in_dims - i,
        {
            let value = input[i];
            proof {
                let w = layer.weights@[row + i];
                assert(value == 0 ==> w * value == 0) by (nonlinear_arith) requires value == 0 ==> value == 0;
            }
            if value != 0 {
                let weight = layer.weights[row + i] as i32;
                proof {
                    assert(i32::MIN <= layer.biases@[o as int] + row_dot(layer.weights@, o * padded, input@, i + 1) <= i32::MAX);
                    assert(-128 * 255 <= weight * value <= 127 * 255) by (nonlinear_arith)
                        requires -128 <= weight <= 127, 0 <= value <= 255;
                }
                acc = acc + weight * value as i32;
            }
            i = i + 1;
        }
        output[o] = acc;
        o = o + 1;
    }
}

/// `sum_{i < k} weights[packed_index(i, o)] * input[i]`: the dot product over the packed layout.
pub open spec fn packed_dot(weights: Seq<i8>, o: int, output_dims: int, input: Seq<u8>, k: int) -> int
    decreases k,
{
    if k <= 0 {
        0
    } else {
        packed_dot(weights, o, output_dims, input, k - 1) + weights[packed_index(k - 1, o, output_dims)] * input[k - 1]
    }
}

proof fn lemma_packed_dot_bound(weights: Seq<i8>, o: int, output_dims: int, input: Seq<u8>, k: int)
    requires
        0 <= k,
    ensures
        -32640 * k <= packed_dot(weights, o, output_dims, input, k) <= 32385 * k,
    decreases k,
{
    if k > 0 {
        lemma_packed_dot_bound(weights, o, output_dims, input, k - 1);
        let w = weights[packed_index(k - 1, o, output_dims)] as int;
        let x = input[k - 1] as int;
        assert(-32640 <= w * x <= 32385) by (nonlinear_arith)
            requires -128 <= w <= 127, 0 <= x <= 255;
    }
}

/// The first hidden layer: 32 outputs over an input of 32 bytes, of which the
/// first `padded_input_dims` (a multiple of 4) are read, weights in the packed
/// layout; each output is its bias plus the dot product, wrapped to 32 bits.
pub fn affine_forward(layer: &DenseLayer, input: &[u8], output: &mut [i32])
    requires
        dense_shape_ok(layer),
        layer.output_dims == FC1_OUTPUTS,
        layer.padded_input_dims % 4 == 0,
        layer.padded_input_dims <= FC1_PADDED_INPUT_DIMS,
        input@.len() == FC1_PADDED_INPUT_DIMS,
        old(output)@.len() == FC1_OUTPUTS,
    ensures
        final(output)@.len() == FC1_OUTPUTS,
        forall|o: int| 0 <= o < FC1_OUTPUTS ==> #[trigger] final(output)@[o]
            == wrap32(layer.biases@[o] + packed_dot(layer.weights@, o, FC1_OUTPUTS as int, input@, layer.padded_input_dims as int)),
{
    let padded = layer.padded_input_dims;
    let mut o: usize = 0;
    while o < FC1_OUTPUTS
        invariant
            o <= FC1_OUTPUTS,
            dense_shape_ok(layer),
            layer.output_dims == FC1_OUTPUTS,
            padded == layer.padded_input_dims,
            padded % 4 == 0,
            padded <= FC1_PADDED_INPUT_DIMS,
            input@.len() == FC1_PADDED_INPUT_DIMS,
            output@.len() == FC1_OUTPUTS,
            forall|p: int| 0 <= p < o ==> #[trigger] output@[p]
                == wrap32(layer.biases@[p] + packed_dot(layer.weights@, p, FC1_OUTPUTS as int, input@, padded as int)),
        decreases FC1_OUTPUTS - o,
    {
        let mut dot: i32 = 0;
        let mut i: usize = 0;
        while i < padded
            invariant
                i <= padded,
                o < FC1_OUTPUTS,
                dense_shape_ok(layer),
                layer.output_dims == FC1_OUTPUTS,
                padded == layer.padded_input_dims,
                padded % 4 == 0,
                padded <= FC1_PADDED_INPUT_DIMS,
                input@.len() == FC1_PADDED_INPUT_DIMS,
                dot == packed_dot(layer.weights@, o as int, FC1_OUTPUTS as int, input@, i as int),
            decreases padded - i,
        {
            let idx = (i / 4) * FC1_OUTPUTS * 4 + o * 4 + i % 4;
            proof {
                lemma_packed_dot_bound(layer.weights@, o as int, FC1_OUTPUTS as int, input@, i as int);
                assert(idx < layer.weights@.len()) by (nonlinear_arith)
                    requires
                        idx == (i / 4) * 128 + o * 4 + i % 4,
                        i < padded,
                        padded % 4 == 0,
                        o < 32,
                        layer.weights@.len() == 32 * padded;
            }
            let weight = layer.weights[idx] as i32;
            let value = input[i] as i32;
            assert(-32640 <= weight * value <= 32385) by (nonlinear_arith)
                requires -128 <= weight <= 127, 0 <= value <= 255;
            dot = dot + weight * value;
            i = i + 1;
        }
        let sum = layer.biases[o].wrapping_add(dot);
        proof {
            crate::arith::lemma_i32_wrapping(layer.biases@[o as int], dot);
        }
        output[o] = sum;
        o = o + 1;
    }
}

/// The output layer: one output over 32 inputs; bias plus dot product, wrapped to 32 bits.
pub fn affine_forward_single_output(layer: &DenseLayer, input: &[u8]) -> (r: i32)
    requires
        dense_shape_ok(layer),
        layer.output_dims == 1,
        layer.padded_input_dims == FC1_PADDED_INPUT_DIMS,
        input@.len() == FC1_PADDED_INPUT_DIMS,
    ensures
        r == wrap32(layer.biases@[0] + row_dot(layer.weights@, 0, input@, FC1_PADDED_INPUT_DIMS as int)),
{
    let mut dot: i32 = 0;
    let mut i: usize = 0;
    while i < FC1_PADDED_INPUT_DIMS
        invariant
            i <= FC1_PADDED_INPUT_DIMS,
            dense_shape_ok(layer),
            layer.output_dims == 1,
            layer.padded_input_dims == FC1_PADDED_INPUT_DIMS,
            input@.len() == FC1_PADDED_INPUT_DIMS,
            dot == row_dot(layer.weights@, 0, input@, i as int),
            -32640 * (i as int) <= dot <= 32385 * (i as int),
        decreases FC1_PADDED_INPUT_DIMS - i,
    {
        let weight = layer.weights[i] as i32;
        let value = input[i] as i32;
        assert(-32640 <= weight * value <= 32385) by (nonlinear_arith)
            requires -128 <= weight <= 127, 0 <= value <= 255;
        dot = dot + weight * value;
        i = i + 1;
    }
    proof {
        crate::arith::lemma_i32_wrapping(layer.biases@[0], dot);
    }
    layer.biases[0].wrapping_add(dot)
}

} // verus!
