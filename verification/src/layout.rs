//! Weight layouts: the packed order used by the dense kernel and the scaled,
//! block-permuted order of the feature transformer.
use vstd::prelude::*;
use crate::arith::wrap16;

verus! {

/// Inputs grouped together by the dense kernel.
pub const DENSE_CHUNK_SIZE: usize = 4;
/// Number of `i16` lanes in one permuted block.
pub const FT_PERMUTE_BLOCK_I16S: usize = 8;
/// Number of `i16` lanes in one group of permuted blocks.
pub const FT_PERMUTE_GROUP_I16S: usize = 64;
/// Factor applied to every feature-transformer value.
pub const FT_SCALE: i16 = 2;

/// Position of the weight for (`input`, `output`) when inputs are grouped by four.
pub open spec fn packed_index(input: int, output: int, output_dims: int) -> int {
    (input / 4) * output_dims * 4 + output * 4 + input % 4
}

/// Block `dst` of a permuted group takes its values from block `ft_permute_order(dst)`.
pub open spec fn ft_permute_order(dst: int) -> int {
    if dst == 1 { 2 } else if dst == 2 { 1 } else if dst == 5 { 6 } else if dst == 6 { 5 } else { dst }
}

/// `order` lists each of the eight positions once.
pub open spec fn is_permutation8(order: [usize; 8]) -> bool {
    &&& forall|i: int| 0 <= i < 8 ==> #[trigger] order[i] < 8
    &&& forall|i: int, j: int| 0 <= i < j < 8 ==> order[i] != order[j]
}

/// The inverse of a permutation of eight positions: position `order[i]` maps back to `i`.
pub fn invert_order(order: [usize; 8]) -> (inverse: [usize; 8])
    requires
        is_permutation8(order),
    ensures
        forall|i: int| 0 <= i < 8 ==> #[trigger] inverse[order[i] as int] == i,
{
    let mut inverse = [0usize; 8];
    let mut idx: usize = 0;
    while idx < 8
        invariant
            idx <= 8,
            is_permutation8(order),
            forall|i: int| 0 <= i < idx ==> #[trigger] inverse[order[i] as int] == i,
        decreases 8 - idx,
    {
        inverse[order[idx]] = idx;
        idx = idx + 1;
    }
    inverse
}

pub fn dense_packed_weight_index(input: usize, output: usize, padded_input_dims: usize, output_dims: usize) -> (r: usize)
    requires
        input < padded_input_dims,
        output < output_dims,
        padded_input_dims % 4 == 0,
        padded_input_dims * output_dims <= usize::MAX,
    ensures
        r == packed_index(input as int, output as int, output_dims as int),
        r < padded_input_dims * output_dims,
{
    let chunk = input / DENSE_CHUNK_SIZE;
    let lane = input % DENSE_CHUNK_SIZE;
    proof { lemma_packed_index_bound(input as int, output as int, padded_input_dims as int, output_dims as int); }
    chunk * output_dims * DENSE_CHUNK_SIZE + output * DENSE_CHUNK_SIZE + lane
}

proof fn lemma_packed_index_bound(input: int, output: int, padded: int, out_dims: int)
    requires
        0 <= input < padded,
        0 <= output < out_dims,
        padded % 4 == 0,
    ensures
        0 <= packed_index(input, output, out_dims) < padded * out_dims,
        (input / 4) * out_dims * 4 + output * 4 + 4 <= padded * out_dims,
{
    let c = input / 4;
    assert(c * 4 + 4 <= padded);
    assert((c + 1) * 4 * out_dims <= padded * out_dims) by (nonlinear_arith)
        requires (c + 1) * 4 <= padded, out_dims >= 0;
    assert(c * out_dims * 4 + output * 4 + 4 <= (c + 1) * 4 * out_dims) by (nonlinear_arith)
        requires output < out_dims, c >= 0;
    assert(c * out_dims * 4 >= 0) by (nonlinear_arith) requires c >= 0, out_dims >= 0;
}

/// Two distinct (input, output) pairs never share a packed position.
pub proof fn lemma_packed_index_injective(i1: int, o1: int, i2: int, o2: int, padded: int, out_dims: int)
    requires
        0 <= i1 < padded,
        0 <= i2 < padded,
        0 <= o1 < out_dims,
        0 <= o2 < out_dims,
        packed_index(i1, o1, out_dims) == packed_index(i2, o2, out_dims),
    ensures
        i1 == i2 && o1 == o2,
{
    let c1 = i1 / 4;
    let c2 = i2 / 4;
    let r1 = o1 * 4 + i1 % 4;
    let r2 = o2 * 4 + i2 % 4;
    assert(0 <= r1 < out_dims * 4);
    assert(0 <= r2 < out_dims * 4);
    assert(c1 * (out_dims * 4) + r1 == c2 * (out_dims * 4) + r2) by (nonlinear_arith)
        requires c1 * out_dims * 4 + r1 == c2 * out_dims * 4 + r2;
    if c1 < c2 {
        assert(c1 * (out_dims * 4) + out_dims * 4 <= c2 * (out_dims * 4)) by (nonlinear_arith)
            requires c1 < c2, out_dims > 0;
    } else if c2 < c1 {
        assert(c2 * (out_dims * 4) + out_dims * 4 <= c1 * (out_dims * 4)) by (nonlinear_arith)
            requires c2 < c1, out_dims > 0;
    }
    assert(c1 == c2);
    assert(r1 == r2);
}

/// Rewrites row-major dense weights (`output_dims` rows of `padded_input_dims`)
/// into the packed order: the weight of (`input`, `output`) moves to `packed_index`.
pub fn repack_dense_weights(weights: &mut Vec<i8>, padded_input_dims: usize, output_dims: usize)
    requires
        old(weights)@.len() == padded_input_dims * output_dims,
        padded_input_dims % 4 == 0,
    ensures
        final(weights)@.len() == old(weights)@.len(),
        forall|input: int, output: int| 0 <= input < padded_input_dims && 0 <= output < output_dims ==>
            #[trigger] final(weights)@[packed_index(input, output, output_dims as int)]
                == old(weights)@[output * padded_input_dims + input],
{
    let total = weights.len();
    let mut packed: Vec<i8> = Vec::new();
    let mut fill: usize = 0;
    while fill < total
        invariant
            fill <= total,
            packed@.len() == fill,
        decreases total - fill,
    {
        packed.push(0);
        fill = fill + 1;
    }
    let mut out: usize = 0;
    while out < output_dims
        invariant
            out <= output_dims,
            total == padded_input_dims * output_dims,
            padded_input_dims % 4 == 0,
            packed@.len() == total,
            weights@ == old(weights)@,
            old(weights)@.len() == total,
            forall|input: int, output: int| 0 <= input < padded_input_dims && 0 <= output < out ==>
                #[trigger] packed@[packed_index(input, output, output_dims as int)]
                    == weights@[output * padded_input_dims + input],
        decreases output_dims - out,
    {
        proof {
            assert(out * padded_input_dims + padded_input_dims <= total) by (nonlinear_arith)
                requires out < output_dims, total == padded_input_dims * output_dims;
        }
        let row_offset = out * padded_input_dims;
        let mut input: usize = 0;
        while input < padded_input_dims
            invariant
                input <= padded_input_dims,
                out < output_dims,
                total == padded_input_dims * output_dims,
                row_offset == out * padded_input_dims,
                row_offset + padded_input_dims <= total,
                padded_input_dims % 4 == 0,
                packed@.len() == total,
                weights@ == old(weights)@,
                old(weights)@.len() == total,
                forall|i: int, o: int| 0 <= i < padded_input_dims && 0 <= o < out ==>
                    #[trigger] packed@[packed_index(i, o, output_dims as int)]
                        == weights@[o * padded_input_dims + i],
                forall|i: int| 0 <= i < input ==>
                    #[trigger] packed@[packed_index(i, out as int, output_dims as int)]
                        == weights@[out * padded_input_dims + i],
            decreases padded_input_dims - input,
        {
            let idx = dense_packed_weight_index(input, out, padded_input_dims, output_dims);
            let value = weights[row_offset + input];
            packed.set(idx, value);
            proof {
                assert forall|i: int, o: int| 0 <= i < padded_input_dims && 0 <= o < out implies
                    #[trigger] packed@[packed_index(i, o, output_dims as int)] == weights@[o * padded_input_dims + i] by {
                    lemma_packed_index_bound(i, o, padded_input_dims as int, output_dims as int);
                    if packed_index(i, o, output_dims as int) == idx {
                        lemma_packed_index_injective(i, o, input as int, out as int, padded_input_dims as int, output_dims as int);
                    }
                }
                assert forall|i: int| 0 <= i < input + 1 implies
                    #[trigger] packed@[packed_index(i, out as int, output_dims as int)] == weights@[out * padded_input_dims + i] by {
                    lemma_packed_index_bound(i, out as int, padded_input_dims as int, output_dims as int);
                    if i != input && packed_index(i, out as int, output_dims as int) == idx {
                        lemma_packed_index_injective(i, out as int, input as int, out as int, padded_input_dims as int, output_dims as int);
                    }
                }
            }
            input = input + 1;
        }
        out = out + 1;
    }
    *weights = packed;
}

/// Doubles every value, wrapping on overflow.
pub fn scale_i16s(values: &mut Vec<i16>)
    ensures
        final(values)@.len() == old(values)@.len(),
        forall|i: int| 0 <= i < old(values)@.len() ==> #[trigger] final(values)@[i] == wrap16(old(values)@[i] * 2),
{
    let n = values.len();
    let mut i: usize = 0;
    while i < n
        invariant
            i <= n,
            n == values@.len(),
            values@.len() == old(values)@.len(),
            forall|j: int| 0 <= j < i ==> #[trigger] values@[j] == wrap16(old(values)@[j] * 2),
            forall|j: int| i <= j < n ==> #[trigger] values@[j] == old(values)@[j],
        decreases n - i,
    {
        let v = values[i];
        let scaled = crate::arith::truncate_to_i16(v as i64 * FT_SCALE as i64);
        values.set(i, scaled);
        i = i + 1;
    }
}

/// Within every group of 64 values, block `b` of 8 values takes the contents of
/// block `ft_permute_order(b)`; a trailing partial group is left as is.
pub fn permute_ft_i16_blocks(values: &mut Vec<i16>)
    ensures
        final(values)@.len() == old(values)@.len(),
        forall|i: int| 0 <= i < old(values)@.len() ==> #[trigger] final(values)@[i] == if i < old(values)@.len() / 64 * 64 {
            old(values)@[(i / 64) * 64 + ft_permute_order((i % 64) / 8) * 8 + i % 8]
        } else {
            old(values)@[i]
        },
{
    let n = values.len();
    let groups = n / FT_PERMUTE_GROUP_I16S;
    let mut g: usize = 0;
    while g < groups
        invariant
            g <= groups,
            groups == n / 64,
            n == values@.len(),
            values@.len() == old(values)@.len(),
            forall|i: int| 0 <= i < g * 64 ==> #[trigger] values@[i]
                == old(values)@[(i / 64) * 64 + ft_permute_order((i % 64) / 8) * 8 + i % 8],
            forall|i: int| g * 64 <= i < n ==> #[trigger] values@[i] == old(values)@[i],
        decreases groups - g,
    {
        let base = g * FT_PERMUTE_GROUP_I16S;
        assert(base + 64 <= n) by (nonlinear_arith) requires g < groups, groups == n / 64, base == g * 64;
        let mut buffer: Vec<i16> = Vec::new();
        let mut j: usize = 0;
        while j < 64
            invariant
                j <= 64,
                base + 64 <= n,
                n == values@.len(),
                buffer@.len() == j,
                forall|k: int| 0 <= k < j ==> #[trigger] buffer@[k] == values@[base + ft_permute_order(k / 8) * 8 + k % 8],
            decreases 64 - j,
        {
            let block = j / FT_PERMUTE_BLOCK_I16S;
            let src_block: usize = if block == 1 { 2 } else if block == 2 { 1 } else if block == 5 { 6 } else if block == 6 { 5 } else { block };
            buffer.push(values[base + src_block * FT_PERMUTE_BLOCK_I16S + j % FT_PERMUTE_BLOCK_I16S]);
            j = j + 1;
        }
        let ghost before = values@;
        let mut k: usize = 0;
        while k < 64
            invariant
                k <= 64,
                base + 64 <= n,
                base == g * 64,
                n == values@.len(),
                buffer@.len() == 64,
                forall|t: int| 0 <= t < 64 ==> #[trigger] buffer@[t] == before[base + ft_permute_order(t / 8) * 8 + t % 8],
                forall|t: int| 0 <= t < n && !(base <= t < base + k) ==> #[trigger] values@[t] == before[t],
                forall|t: int| base <= t < base + k ==> #[trigger] values@[t] == buffer@[t - base],
            decreases 64 - k,
        {
            values.set(base + k, buffer[k]);
            k = k + 1;
        }
        proof {
            assert forall|i: int| 0 <= i < (g + 1) * 64 implies #[trigger] values@[i]
                == old(values)@[(i / 64) * 64 + ft_permute_order((i % 64) / 8) * 8 + i % 8] by {
                if i >= base {
                    let t = i - base;
                    assert(i / 64 == g) by (nonlinear_arith) requires base <= i < base + 64, base == g * 64;
                    assert(i % 64 == t) by (nonlinear_arith) requires base <= i < base + 64, base == g * 64, t == i - base;
                    let src = base + ft_permute_order(t / 8) * 8 + t % 8;
                    assert(base <= src < base + 64);
                    assert(before[src] == old(values)@[src]);
                }
            }
        }
        g = g + 1;
    }
    proof {
        assert(groups * 64 == n / 64 * 64);
    }
}

/// Prepares a feature transformer for the accumulator: every value doubled,
/// then the blocks of each group permuted.
pub fn repack_feature_transformer(biases: &mut Vec<i16>, weights: &mut Vec<i16>)
    ensures
        final(biases)@.len() == old(biases)@.len(),
        final(weights)@.len() == old(weights)@.len(),
        forall|i: int| 0 <= i < old(biases)@.len() ==> #[trigger] final(biases)@[i] == wrap16(2 * old(biases)@[
            if i < old(biases)@.len() / 64 * 64 { (i / 64) * 64 + ft_permute_order((i % 64) / 8) * 8 + i % 8 } else { i }
        ]),
        forall|i: int| 0 <= i < old(weights)@.len() ==> #[trigger] final(weights)@[i] == wrap16(2 * old(weights)@[
            if i < old(weights)@.len() / 64 * 64 { (i / 64) * 64 + ft_permute_order((i % 64) / 8) * 8 + i % 8 } else { i }
        ]),
{
    let ghost b0 = biases@;
    let ghost w0 = weights@;
    scale_i16s(biases);
    scale_i16s(weights);
    let ghost b1 = biases@;
    let ghost w1 = weights@;
    permute_ft_i16_blocks(biases);
    permute_ft_i16_blocks(weights);
    proof {
        assert forall|i: int| 0 <= i < b0.len() implies #[trigger] biases@[i] == wrap16(2 * b0[
            if i < b0.len() / 64 * 64 { (i / 64) * 64 + ft_permute_order((i % 64) / 8) * 8 + i % 8 } else { i }
        ]) by {
            if i < b0.len() / 64 * 64 {
                lemma_permuted_source_in_range(i, b0.len() as int);
            }
        }
        assert forall|i: int| 0 <= i < w0.len() implies #[trigger] weights@[i] == wrap16(2 * w0[
            if i < w0.len() / 64 * 64 { (i / 64) * 64 + ft_permute_order((i % 64) / 8) * 8 + i % 8 } else { i }
        ]) by {
            if i < w0.len() / 64 * 64 {
                lemma_permuted_source_in_range(i, w0.len() as int);
            }
        }
    }
}

proof fn lemma_permuted_source_in_range(i: int, n: int)
    requires
        0 <= i < n / 64 * 64,
    ensures
        0 <= (i / 64) * 64 + ft_permute_order((i % 64) / 8) * 8 + i % 8 < n,
        (i / 64) * 64 + ft_permute_order((i % 64) / 8) * 8 + i % 8 < n / 64 * 64,
{
    assert(i / 64 < n / 64) by (nonlinear_arith) requires 0 <= i < n / 64 * 64;
    assert((i / 64) * 64 + 64 <= n / 64 * 64) by (nonlinear_arith) requires i / 64 < n / 64, i >= 0;
    assert(n / 64 * 64 <= n) by (nonlinear_arith) requires 0 <= i < n / 64 * 64;
}

} // verus!
