use nnuebie::chess::Color;
use nnuebie::constants::{
    BIG_FEATURE_TRANSFORMER_HASH, BIG_LAYER_STACK_HASH, BIG_NETWORK_HASH, SMALL_NETWORK_HASH,
};
use nnuebie::constants::{
    activation_hash, affine_hash, feature_transformer_hash, network_architecture_hash,
};
use nnuebie::eval::{
    blended_nnue, final_raw_evaluation, needs_big_recheck, prefers_smallnet, psqt_bucket,
    simple_eval, total_material_for_scaling, EvalOutput,
};
use nnuebie::layers::{affine_forward, affine_forward_single_output, clipped_relu, sparse_affine_forward, sqr_clipped_relu};
use nnuebie::network::DenseLayer;
use nnuebie::transform::transform_features;

#[test]
fn transform_clamps_and_multiplies_pairs() {
    let white = [64i16, 32, 32, 64];
    let black = [127i16, 50, 80, 1];
    let mut output = [0u8; 4];

    transform_features([&white, &black], Color::White, &mut output);

    assert_eq!(output[0], 16);
    assert_eq!(output[1], 16);
    assert_eq!(output[2], 79);
    assert_eq!(output[3], 0);
}

#[test]
fn transform_puts_side_to_move_first() {
    let white = [64i16, 32, 32, 64];
    let black = [127i16, 50, 80, 1];
    let mut output = [0u8; 4];
    transform_features([&white, &black], Color::Black, &mut output);
    assert_eq!(output, [79, 0, 16, 16]);
    let negative = [-5i16, 300, 200, 127];
    transform_features([&negative, &negative], Color::White, &mut output);
    assert_eq!(output, [0, 126, 0, 126]);
}

#[test]
fn white_side_cp_flips_black_positions() {
    let output = EvalOutput {
        final_cp: 37,
        ..EvalOutput::zero()
    };

    assert_eq!(output.white_side_cp(Color::White), 37);
    assert_eq!(output.white_side_cp(Color::Black), -37);
}

#[test]
fn network_hashes_match_their_architecture() {
    assert_eq!(BIG_NETWORK_HASH, 0x1c10_20f2);
    assert_eq!(SMALL_NETWORK_HASH, 0x1c10_3c92);
    assert_eq!(feature_transformer_hash(3072), BIG_FEATURE_TRANSFORMER_HASH);
    assert_eq!(network_architecture_hash(3072), BIG_LAYER_STACK_HASH);
    assert_eq!(network_architecture_hash(128) ^ feature_transformer_hash(128), SMALL_NETWORK_HASH);
    assert_eq!(activation_hash(u32::MAX), 0x538D_24C6);
    assert_eq!(affine_hash(1, 1), 0xCC03_DAE5 ^ 0x8000_0000);
}

fn fc1_layer() -> DenseLayer {
    DenseLayer {
        input_dims: 30,
        padded_input_dims: 32,
        output_dims: 32,
        biases: (0..32).map(|v| v * 13 - 90).collect(),
        weights: (-64..64).cycle().take(32 * 32).collect(),
    }
}

fn affine_forward_scalar(layer: &DenseLayer, input: &[u8], output: &mut [i32]) {
    output.copy_from_slice(&layer.biases);
    let chunk_count = layer.padded_input_dims / 4;
    for chunk in 0..chunk_count {
        let input_base = chunk * 4;
        let weight_base = chunk * layer.output_dims * 4;
        let v0 = i32::from(input[input_base]);
        let v1 = i32::from(input[input_base + 1]);
        let v2 = i32::from(input[input_base + 2]);
        let v3 = i32::from(input[input_base + 3]);
        for out_index in 0..layer.output_dims {
            let offset = weight_base + out_index * 4;
            output[out_index] += i32::from(layer.weights[offset]) * v0
                + i32::from(layer.weights[offset + 1]) * v1
                + i32::from(layer.weights[offset + 2]) * v2
                + i32::from(layer.weights[offset + 3]) * v3;
        }
    }
}

#[test]
fn vnni256_affine_kernel_matches_scalar_reference() {
    let layer = fc1_layer();
    let mut input = [0u8; 32];
    for (idx, slot) in input.iter_mut().enumerate() {
        *slot = ((idx * 7 + 3) % 255) as u8;
    }
    let mut simd = [0i32; 32];
    let mut scalar = [0i32; 32];

    affine_forward(&layer, &input, &mut simd);
    affine_forward_scalar(&layer, &input[..], &mut scalar);

    assert_eq!(simd, scalar);
}

#[test]
fn single_output_layer_is_a_dot_product() {
    let layer = DenseLayer {
        input_dims: 32,
        padded_input_dims: 32,
        output_dims: 1,
        biases: vec![-7],
        weights: (0..32).map(|v| v as i8 - 16).collect(),
    };
    let input = [2u8; 32];
    let expected: i32 = -7 + (0..32).map(|v| (v - 16) * 2).sum::<i32>();
    assert_eq!(affine_forward_single_output(&layer, &input), expected);
}

#[test]
fn sparse_affine_uses_row_major_rows() {
    let layer = DenseLayer {
        input_dims: 3,
        padded_input_dims: 32,
        output_dims: 2,
        biases: vec![10, -10],
        weights: (0..64).map(|v| (v % 32) as i8 - (v / 32) as i8).collect(),
    };
    let input = [1u8, 0, 4];
    let mut output = [0i32; 2];
    sparse_affine_forward(&layer, &input, &mut output);
    assert_eq!(output, [10 + 0 + 2 * 4, -10 + (-1) + 1 * 4]);
}

#[test]
fn activations_clip_to_seven_bits() {
    let input = [-100, 0, 63, 64, 127 * 64, 200 * 64];
    let mut out = [9u8; 7];
    clipped_relu(&input, &mut out);
    assert_eq!(out, [0, 0, 0, 1, 127, 127, 9]);
    let sq_input = [724, 725, -725, 8_000, 1_000_000];
    let mut sq = [0u8; 5];
    sqr_clipped_relu(&sq_input, &mut sq);
    assert_eq!(sq, [0, 1, 1, 122, 127]);
}

#[test]
fn evaluation_scaling_formulas() {
    assert_eq!(blended_nnue(128, 0), 125);
    assert_eq!(blended_nnue(-128, 0), -125);
    assert_eq!(blended_nnue(1, 1), 2);
    assert_eq!(psqt_bucket(32), 7);
    assert_eq!(psqt_bucket(1), 0);
    assert_eq!(psqt_bucket(9), 2);
    assert!(prefers_smallnet(-963));
    assert!(!prefers_smallnet(962));
    assert!(needs_big_recheck(true, -235));
    assert!(!needs_big_recheck(true, 236));
    assert!(!needs_big_recheck(false, 0));
    assert_eq!(simple_eval(8, 7, 781, 0), 208 + 781);
    assert_eq!(total_material_for_scaling(16, 4, 4, 4, 2), 535 * 16 + 4 * 781 + 4 * 825 + 4 * 1276 + 2 * 2538);
    assert_eq!(final_raw_evaluation(0, 0, 0, 0), 0);
    assert_eq!(final_raw_evaluation(100, 100, 0, 0), 200);
    assert_eq!(final_raw_evaluation(100, 100, 77_777, 0), 400);
    assert_eq!(final_raw_evaluation(100, 100, 0, 106), 100);
    assert_eq!(final_raw_evaluation(5_000, 5_000, 25_164, 0), 13_235);
    assert_eq!(final_raw_evaluation(-5_000, -3_000, 25_164, 50), -7_151);
    assert_eq!(final_raw_evaluation(1_000, -1_000, 0, 0), -41);
}

#[test]
fn affine_kernel_reads_only_the_padded_inputs() {
    let layer = DenseLayer {
        input_dims: 14,
        padded_input_dims: 16,
        output_dims: 32,
        biases: (0..32).map(|v| v * 13 - 90).collect(),
        weights: (-64..64).cycle().take(32 * 16).collect(),
    };
    let mut input = [0u8; 32];
    for (idx, slot) in input.iter_mut().enumerate() {
        *slot = ((idx * 7 + 3) % 255) as u8;
    }
    let mut kernel = [0i32; 32];
    let mut scalar = [0i32; 32];
    affine_forward(&layer, &input, &mut kernel);
    affine_forward_scalar(&layer, &input[..], &mut scalar);
    assert_eq!(kernel, scalar);
    // Output 0: bias -90 plus the first 16 inputs against weights
    // -64..-61 for chunk c at offset 128 * c.
    let mut expected = -90i32;
    for i in 0..16usize {
        let w = ((i / 4) * 128 + i % 4) as i32 % 128 - 64;
        expected += w * ((i * 7 + 3) % 255) as i32;
    }
    assert_eq!(kernel[0], expected);
    input[20] = 255;
    let mut again = [0i32; 32];
    affine_forward(&layer, &input, &mut again);
    assert_eq!(again, kernel);
}
