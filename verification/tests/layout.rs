use nnuebie::layout::{dense_packed_weight_index, invert_order, repack_dense_weights, repack_feature_transformer};

#[test]
fn dense_repack_groups_inputs_by_chunks_of_four() {
    let padded_input_dims = 8;
    let output_dims = 3;
    let mut weights: Vec<i8> = (0..(padded_input_dims * output_dims) as i8).collect();

    repack_dense_weights(&mut weights, padded_input_dims, output_dims);

    for out in 0..output_dims {
        for input in 0..padded_input_dims {
            let logical = (out * padded_input_dims + input) as i8;
            let packed = dense_packed_weight_index(input, out, padded_input_dims, output_dims);
            assert_eq!(weights[packed], logical);
        }
    }
}

#[test]
fn feature_transformer_repack_scales_and_permutes_blocks() {
    let mut biases: Vec<i16> = (0..64).collect();
    let mut weights: Vec<i16> = (0..128).collect();

    repack_feature_transformer(&mut biases, &mut weights);

    assert_eq!(&biases[..8], &[0, 2, 4, 6, 8, 10, 12, 14]);
    assert_eq!(&biases[8..16], &[32, 34, 36, 38, 40, 42, 44, 46]);
    assert_eq!(&biases[16..24], &[16, 18, 20, 22, 24, 26, 28, 30]);
    assert_eq!(&weights[..8], &[0, 2, 4, 6, 8, 10, 12, 14]);
    assert_eq!(&weights[8..16], &[32, 34, 36, 38, 40, 42, 44, 46]);
    assert_eq!(&weights[16..24], &[16, 18, 20, 22, 24, 26, 28, 30]);
}

#[test]
fn packed_index_of_first_lanes() {
    assert_eq!(dense_packed_weight_index(0, 0, 32, 32), 0);
    assert_eq!(dense_packed_weight_index(3, 0, 32, 32), 3);
    assert_eq!(dense_packed_weight_index(4, 0, 32, 32), 128);
    assert_eq!(dense_packed_weight_index(5, 2, 32, 32), 128 + 8 + 1);
}

#[test]
fn scaling_wraps_and_trailing_partial_group_is_not_permuted() {
    let mut biases: Vec<i16> = vec![i16::MAX; 70];
    let mut weights: Vec<i16> = (0..70).collect();
    repack_feature_transformer(&mut biases, &mut weights);
    assert_eq!(biases[0], -2);
    assert_eq!(&weights[64..70], &[128, 130, 132, 134, 136, 138]);
    assert_eq!(&weights[40..48], &[96, 98, 100, 102, 104, 106, 108, 110]);
    assert_eq!(&weights[48..56], &[80, 82, 84, 86, 88, 90, 92, 94]);
}

#[test]
fn inverse_of_the_block_order_undoes_it() {
    let order = [0usize, 2, 1, 3, 4, 6, 5, 7];
    let inverse = invert_order(order);
    assert_eq!(inverse, [0, 2, 1, 3, 4, 6, 5, 7]);
    for i in 0..8 {
        assert_eq!(inverse[order[i]], i);
    }
    let rotation = [1usize, 2, 3, 4, 5, 6, 7, 0];
    assert_eq!(invert_order(rotation), [7, 0, 1, 2, 3, 4, 5, 6]);
}
