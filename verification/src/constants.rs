//! Network dimensions, evaluation constants and the architecture hashes that
//! identify a compatible network file.
use vstd::prelude::*;
use vstd::wrapping::u32_specs;

verus! {

pub const NNUE_VERSION: u32 = 0x7AF32F20;
pub const FEATURE_SET_HASH: u32 = 0x7F23_4CB8;

pub const FEATURE_DIMS: usize = 22_528;
pub const MAX_ACTIVE_FEATURES: usize = 32;
pub const PSQT_BUCKETS: usize = 8;
pub const LAYER_STACKS: usize = 8;

pub const BIG_HALF_DIMS: usize = 3_072;
pub const SMALL_HALF_DIMS: usize = 128;

pub const FC0_OUTPUTS: usize = 15;
pub const FC0_TOTAL_OUTPUTS: usize = 16;
pub const FC1_INPUT_DIMS: usize = 30;
pub const FC1_PADDED_INPUT_DIMS: usize = 32;
pub const FC1_OUTPUTS: usize = 32;

pub const OUTPUT_SCALE: i32 = 16;
pub const WEIGHT_SCALE_BITS: i32 = 6;

pub const SMALLNET_SIMPLE_EVAL_THRESHOLD: i32 = 962;
pub const BIG_NET_RECHECK_THRESHOLD: i32 = 236;

pub const PAWN_VALUE: i32 = 208;
pub const KNIGHT_VALUE: i32 = 781;
pub const BISHOP_VALUE: i32 = 825;
pub const ROOK_VALUE: i32 = 1_276;
pub const QUEEN_VALUE: i32 = 2_538;

pub const VALUE_TB_WIN_IN_MAX_PLY: i32 = 31_507;
pub const VALUE_TB_LOSS_IN_MAX_PLY: i32 = -31_507;

pub const BIG_FEATURE_TRANSFORMER_HASH: u32 = 0x7f23_54b8;
pub const SMALL_FEATURE_TRANSFORMER_HASH: u32 = 0x7f23_4db8;
pub const BIG_LAYER_STACK_HASH: u32 = 0x6333_744a;
pub const SMALL_LAYER_STACK_HASH: u32 = 0x6333_712a;
pub const BIG_NETWORK_HASH: u32 = 0x1c10_20f2;
pub const SMALL_NETWORK_HASH: u32 = 0x1c10_3c92;

/// Hash contribution of an affine layer with `output_dims` outputs following `prev_hash`.
pub open spec fn affine_hash_spec(prev_hash: u32, output_dims: u32) -> u32 {
    u32_specs::wrapping_add(0xCC03_DAE4u32, output_dims) ^ (prev_hash >> 1u32) ^ (prev_hash << 31u32)
}

/// Hash contribution of a clipped activation following `prev_hash`.
pub open spec fn activation_hash_spec(prev_hash: u32) -> u32 {
    u32_specs::wrapping_add(0x538D_24C7u32, prev_hash)
}

/// Hash of a feature transformer with `output_dims` outputs per perspective.
pub open spec fn feature_transformer_hash_spec(output_dims: u32) -> u32 {
    FEATURE_SET_HASH ^ ((output_dims * 2) as u32)
}

/// Hash of the layer stack that consumes `transformed_dims` transformed features per perspective.
pub open spec fn network_architecture_hash_spec(transformed_dims: u32) -> u32 {
    let h0 = 0xEC42_E90Du32 ^ ((transformed_dims * 2) as u32);
    let h1 = affine_hash_spec(h0, FC0_TOTAL_OUTPUTS as u32);
    let h2 = activation_hash_spec(h1);
    let h3 = affine_hash_spec(h2, FC1_OUTPUTS as u32);
    let h4 = activation_hash_spec(h3);
    affine_hash_spec(h4, 1)
}

pub fn affine_hash(prev_hash: u32, output_dims: u32) -> (h: u32)
    ensures
        h == affine_hash_spec(prev_hash, output_dims),
{
    let mut hash = 0xCC03_DAE4u32.wrapping_add(output_dims);
    hash = hash ^ (prev_hash >> 1u32);
    hash = hash ^ (prev_hash << 31u32);
    hash
}

pub fn activation_hash(prev_hash: u32) -> (h: u32)
    ensures
        h == activation_hash_spec(prev_hash),
{
    0x538D_24C7u32.wrapping_add(prev_hash)
}

pub fn feature_transformer_hash(output_dims: u32) -> (h: u32)
    requires
        output_dims <= 0x7fff_ffff,
    ensures
        h == feature_transformer_hash_spec(output_dims),
{
    FEATURE_SET_HASH ^ (output_dims * 2)
}

pub fn network_architecture_hash(transformed_dims: u32) -> (h: u32)
    requires
        transformed_dims <= 0x7fff_ffff,
    ensures
        h == network_architecture_hash_spec(transformed_dims),
{
    let mut hash = 0xEC42_E90Du32 ^ (transformed_dims * 2);
    hash = affine_hash(hash, FC0_TOTAL_OUTPUTS as u32);
    hash = activation_hash(hash);
    hash = affine_hash(hash, FC1_OUTPUTS as u32);
    hash = activation_hash(hash);
    affine_hash(hash, 1)
}

/// The hash constants are the architecture hashes of the two networks, and
/// each network hash combines its transformer and layer-stack hashes.
pub proof fn lemma_network_hashes()
    ensures
        BIG_FEATURE_TRANSFORMER_HASH == feature_transformer_hash_spec(BIG_HALF_DIMS as u32),
        SMALL_FEATURE_TRANSFORMER_HASH == feature_transformer_hash_spec(SMALL_HALF_DIMS as u32),
        BIG_LAYER_STACK_HASH == network_architecture_hash_spec(BIG_HALF_DIMS as u32),
        SMALL_LAYER_STACK_HASH == network_architecture_hash_spec(SMALL_HALF_DIMS as u32),
        BIG_NETWORK_HASH == BIG_FEATURE_TRANSFORMER_HASH ^ BIG_LAYER_STACK_HASH,
        SMALL_NETWORK_HASH == SMALL_FEATURE_TRANSFORMER_HASH ^ SMALL_LAYER_STACK_HASH,
{
    assert(0x7f23_54b8u32 == 0x7F23_4CB8u32 ^ 6144u32) by (bit_vector);
    assert(0x7f23_4db8u32 == 0x7F23_4CB8u32 ^ 256u32) by (bit_vector);
    assert(0x1c10_20f2u32 == 0x7f23_54b8u32 ^ 0x6333_744au32) by (bit_vector);
    assert(0x1c10_3c92u32 == 0x7f23_4db8u32 ^ 0x6333_712au32) by (bit_vector);
    lemma_layer_stack_hash(6144u32, 0x6333_744au32);
    lemma_layer_stack_hash(256u32, 0x6333_712au32);
}

proof fn lemma_layer_stack_hash(twice_dims: u32, expected: u32)
    requires
        twice_dims == 6144 && expected == 0x6333_744a || twice_dims == 256 && expected == 0x6333_712a,
    ensures
        ({
            let h0 = 0xEC42_E90Du32 ^ twice_dims;
            let h1 = affine_hash_spec(h0, 16);
            let h2 = activation_hash_spec(h1);
            let h3 = affine_hash_spec(h2, 32);
            let h4 = activation_hash_spec(h3);
            affine_hash_spec(h4, 1) == expected
        }),
{
    let h0 = 0xEC42_E90Du32 ^ twice_dims;
    let a1 = (0xCC03_DAE4u32 + 16u32) as u32;
    let h1 = a1 ^ (h0 >> 1u32) ^ (h0 << 31u32);
    assert(h1 == affine_hash_spec(h0, 16));
    let h2 = (0x538D_24C7u32 + h1) as u32;
    assert(0x538D_24C7u32 + h1 <= u32::MAX ==> h2 == activation_hash_spec(h1));
    assert(0x538D_24C7u32 + h1 > u32::MAX ==> h2 == activation_hash_spec(h1)) by {
        if 0x538D_24C7u32 + h1 > u32::MAX {
            assert((0x538D_24C7u32 + h1) as u32 == (0x538D_24C7u32 + h1 - 0x1_0000_0000) as u32) by (bit_vector)
                requires 0x538D_24C7u32 + h1 > u32::MAX;
        }
    }
    let a3 = (0xCC03_DAE4u32 + 32u32) as u32;
    let h3 = a3 ^ (h2 >> 1u32) ^ (h2 << 31u32);
    assert(h3 == affine_hash_spec(h2, 32));
    let h4 = (0x538D_24C7u32 + h3) as u32;
    assert(h4 == activation_hash_spec(h3)) by {
        if 0x538D_24C7u32 + h3 > u32::MAX {
            assert((0x538D_24C7u32 + h3) as u32 == (0x538D_24C7u32 + h3 - 0x1_0000_0000) as u32) by (bit_vector)
                requires 0x538D_24C7u32 + h3 > u32::MAX;
        }
    }
    let a5 = (0xCC03_DAE4u32 + 1u32) as u32;
    assert(affine_hash_spec(h4, 1) == a5 ^ (h4 >> 1u32) ^ (h4 << 31u32));
    if twice_dims == 6144 {
        assert(({
            let h0 = 0xEC42_E90Du32 ^ 6144u32;
            let h1 = ((0xCC03_DAE4u32 + 16u32) as u32) ^ (h0 >> 1u32) ^ (h0 << 31u32);
            let h2 = (0x538D_24C7u32 + h1) as u32;
            let h3 = ((0xCC03_DAE4u32 + 32u32) as u32) ^ (h2 >> 1u32) ^ (h2 << 31u32);
            let h4 = (0x538D_24C7u32 + h3) as u32;
            ((0xCC03_DAE4u32 + 1u32) as u32) ^ (h4 >> 1u32) ^ (h4 << 31u32)
        }) == 0x6333_744au32) by (bit_vector);
    } else {
        assert(({
            let h0 = 0xEC42_E90Du32 ^ 256u32;
            let h1 = ((0xCC03_DAE4u32 + 16u32) as u32) ^ (h0 >> 1u32) ^ (h0 << 31u32);
            let h2 = (0x538D_24C7u32 + h1) as u32;
            let h3 = ((0xCC03_DAE4u32 + 32u32) as u32) ^ (h2 >> 1u32) ^ (h2 << 31u32);
            let h4 = (0x538D_24C7u32 + h3) as u32;
            ((0xCC03_DAE4u32 + 1u32) as u32) ^ (h4 >> 1u32) ^ (h4 << 31u32)
        }) == 0x6333_712au32) by (bit_vector);
    }
}

} // verus!
