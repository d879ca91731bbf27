//! The two NNUE networks and the parser of their file format.
//!
//! A network file holds a header (version, network hash, description), the
//! feature transformer as three LEB128 blocks, then one layer stack per
//! PSQT bucket, each made of three dense layers, and nothing after.
use vstd::prelude::*;
use crate::arith::wrap16;
use crate::constants::{
    BIG_FEATURE_TRANSFORMER_HASH, BIG_HALF_DIMS, BIG_LAYER_STACK_HASH, BIG_NETWORK_HASH,
    FC0_TOTAL_OUTPUTS, FC1_INPUT_DIMS, FC1_OUTPUTS, FEATURE_DIMS, LAYER_STACKS, NNUE_VERSION,
    PSQT_BUCKETS, SMALL_FEATURE_TRANSFORMER_HASH, SMALL_HALF_DIMS, SMALL_LAYER_STACK_HASH,
    SMALL_NETWORK_HASH,
};
use crate::loader::{
    ByteReader, LoadError, i8_of, le_i32, le_u32, leb128_block, read_i32_array, read_i8_array,
    read_leb128_i16_array, read_leb128_i32_array, read_u32, lemma_leb128_block_bounds,
};

verus! {

/// First-layer weights: a bias and a weight row per feature for each accumulator lane.
pub struct FeatureTransformer {
    pub biases: Vec<i16>,
    pub weights: Vec<i16>,
    pub psqt_weights: Vec<i32>,
}

/// A dense layer with row-major weights, each row padded to `padded_input_dims`.
pub struct DenseLayer {
    pub input_dims: usize,
    pub padded_input_dims: usize,
    pub output_dims: usize,
    pub biases: Vec<i32>,
    pub weights: Vec<i8>,
}

/// The three dense layers applied after the feature transformer.
pub struct LayerStack {
    pub fc0: DenseLayer,
    pub fc1: DenseLayer,
    pub fc2: DenseLayer,
}

/// One network: its transformer and one layer stack per bucket.
pub struct LoadedNetwork {
    pub half_dims: usize,
    pub feature_transformer: FeatureTransformer,
    pub layer_stacks: Vec<LayerStack>,
}

/// The big and the small network used for evaluation.
pub struct NnueNetworks {
    pub big: LoadedNetwork,
    pub small: LoadedNetwork,
}

/// Which of the two networks a file must hold.
#[derive(Clone, Copy, Debug, PartialEq, Eq)]
pub enum NetworkKind {
    Big,
    Small,
}

pub open spec fn kind_network_hash(kind: NetworkKind) -> u32 {
    match kind {
        NetworkKind::Big => BIG_NETWORK_HASH,
        NetworkKind::Small => SMALL_NETWORK_HASH,
    }
}

pub open spec fn kind_transformer_hash(kind: NetworkKind) -> u32 {
    match kind {
        NetworkKind::Big => BIG_FEATURE_TRANSFORMER_HASH,
        NetworkKind::Small => SMALL_FEATURE_TRANSFORMER_HASH,
    }
}

pub open spec fn kind_layer_stack_hash(kind: NetworkKind) -> u32 {
    match kind {
        NetworkKind::Big => BIG_LAYER_STACK_HASH,
        NetworkKind::Small => SMALL_LAYER_STACK_HASH,
    }
}

pub open spec fn kind_half_dims(kind: NetworkKind) -> nat {
    match kind {
        NetworkKind::Big => BIG_HALF_DIMS as nat,
        NetworkKind::Small => SMALL_HALF_DIMS as nat,
    }
}

impl NetworkKind {
    pub fn network_hash(self) -> (h: u32)
        ensures
            h == kind_network_hash(self),
    {
        match self {
            NetworkKind::Big => BIG_NETWORK_HASH,
            NetworkKind::Small => SMALL_NETWORK_HASH,
        }
    }

    pub fn feature_transformer_hash(self) -> (h: u32)
        ensures
            h == kind_transformer_hash(self),
    {
        match self {
            NetworkKind::Big => BIG_FEATURE_TRANSFORMER_HASH,
            NetworkKind::Small => SMALL_FEATURE_TRANSFORMER_HASH,
        }
    }

    pub fn layer_stack_hash(self) -> (h: u32)
        ensures
            h == kind_layer_stack_hash(self),
    {
        match self {
            NetworkKind::Big => BIG_LAYER_STACK_HASH,
            NetworkKind::Small => SMALL_LAYER_STACK_HASH,
        }
    }

    pub fn half_dims(self) -> (d: usize)
        ensures
            d == kind_half_dims(self),
    {
        match self {
            NetworkKind::Big => BIG_HALF_DIMS,
            NetworkKind::Small => SMALL_HALF_DIMS,
        }
    }
}

/// `n` rounded up to a multiple of 32.
pub open spec fn round_up_32(n: nat) -> nat {
    ((n + 31) / 32 * 32) as nat
}

/// What a dense layer holds, as decoded from the file.
pub ghost struct DenseLayerModel {
    pub input_dims: nat,
    pub padded_input_dims: nat,
    pub output_dims: nat,
    pub biases: Seq<int>,
    pub weights: Seq<int>,
}

/// What a layer stack holds.
pub ghost struct LayerStackModel {
    pub fc0: DenseLayerModel,
    pub fc1: DenseLayerModel,
    pub fc2: DenseLayerModel,
}

/// What a network holds: transformer values as decoded (before any narrowing) and its stacks.
pub ghost struct NetworkModel {
    pub half_dims: nat,
    pub ft_biases: Seq<int>,
    pub ft_weights: Seq<int>,
    pub psqt_weights: Seq<int>,
    pub stacks: Seq<LayerStackModel>,
}

/// A dense layer at the start of `s`: `output_dims` little-endian `i32` biases then
/// `output_dims * round_up_32(input_dims)` signed-byte weights, and the bytes it spans.
pub open spec fn dense_layer_spec(s: Seq<u8>, input_dims: nat, output_dims: nat) -> Result<(DenseLayerModel, int), LoadError> {
    let padded = round_up_32(input_dims);
    if s.len() < 4 * output_dims {
        Err(LoadError::UnexpectedEof)
    } else if s.len() - 4 * output_dims < output_dims * padded {
        Err(LoadError::UnexpectedEof)
    } else {
        Ok((
            DenseLayerModel {
                input_dims,
                padded_input_dims: padded,
                output_dims,
                biases: Seq::new(output_dims, |i: int| le_i32(s.subrange(4 * i, 4 * i + 4))),
                weights: Seq::new(output_dims * padded, |i: int| i8_of(s[4 * output_dims + i])),
            },
            (4 * output_dims + output_dims * padded) as int,
        ))
    }
}

/// One layer stack at the start of `s`: its hash, then its three dense layers.
pub open spec fn layer_stack_spec(s: Seq<u8>, half_dims: nat, stack_hash: u32) -> Result<(LayerStackModel, int), LoadError> {
    if s.len() < 4 {
        Err(LoadError::UnexpectedEof)
    } else if le_u32(s.take(4)) != stack_hash {
        Err(LoadError::UnexpectedLayerStackHash(le_u32(s.take(4)) as u32))
    } else {
        match dense_layer_spec(s.skip(4), half_dims, FC0_TOTAL_OUTPUTS as nat) {
            Err(e) => Err(e),
            Ok((fc0, u0)) => match dense_layer_spec(s.skip(4 + u0), FC1_INPUT_DIMS as nat, FC1_OUTPUTS as nat) {
                Err(e) => Err(e),
                Ok((fc1, u1)) => match dense_layer_spec(s.skip(4 + u0 + u1), FC1_OUTPUTS as nat, 1) {
                    Err(e) => Err(e),
                    Ok((fc2, u2)) => Ok((LayerStackModel { fc0, fc1, fc2 }, 4 + u0 + u1 + u2)),
                },
            },
        }
    }
}

/// `count` consecutive layer stacks at the start of `s`, each introduced by `stack_hash`.
pub open spec fn layer_stacks_spec(s: Seq<u8>, half_dims: nat, stack_hash: u32, count: nat) -> Result<(Seq<LayerStackModel>, int), LoadError>
    decreases count,
{
    if count == 0 {
        Ok((Seq::empty(), 0))
    } else {
        match layer_stack_spec(s, half_dims, stack_hash) {
            Err(e) => Err(e),
            Ok((m, used)) => prepend_stacks(seq![m], used, layer_stacks_spec(s.skip(used), half_dims, stack_hash, (count - 1) as nat)),
        }
    }
}

/// The whole file `s` parsed as a network of kind `kind`.
pub open spec fn network_spec(s: Seq<u8>, kind: NetworkKind) -> Result<NetworkModel, LoadError> {
    let half = kind_half_dims(kind);
    if s.len() < 12 {
        Err(LoadError::UnexpectedEof)
    } else if le_u32(s.subrange(0, 4)) != NNUE_VERSION {
        Err(LoadError::InvalidVersion(le_u32(s.subrange(0, 4)) as u32))
    } else if le_u32(s.subrange(4, 8)) != kind_network_hash(kind) {
        Err(LoadError::UnexpectedNetworkHash(le_u32(s.subrange(4, 8)) as u32))
    } else if s.len() - 12 < le_u32(s.subrange(8, 12)) {
        Err(LoadError::UnexpectedEof)
    } else {
        let s1 = s.skip(12 + le_u32(s.subrange(8, 12)));
        if s1.len() < 4 {
            Err(LoadError::UnexpectedEof)
        } else if le_u32(s1.take(4)) != kind_transformer_hash(kind) {
            Err(LoadError::UnexpectedTransformerHash(le_u32(s1.take(4)) as u32))
        } else {
            let s2 = s1.skip(4);
            match leb128_block(s2, half) {
                Err(e) => Err(e),
                Ok((biases, u1)) => match leb128_block(s2.skip(u1), (FEATURE_DIMS * half) as nat) {
                    Err(e) => Err(e),
                    Ok((weights, u2)) => match leb128_block(s2.skip(u1 + u2), (FEATURE_DIMS * PSQT_BUCKETS) as nat) {
                        Err(e) => Err(e),
                        Ok((psqt, u3)) => match layer_stacks_spec(s2.skip(u1 + u2 + u3), half, kind_layer_stack_hash(kind), LAYER_STACKS as nat) {
                            Err(e) => Err(e),
                            Ok((stacks, u4)) => if s2.len() > u1 + u2 + u3 + u4 {
                                Err(LoadError::TrailingBytes)
                            } else {
                                Ok(NetworkModel {
                                    half_dims: half,
                                    ft_biases: biases,
                                    ft_weights: weights,
                                    psqt_weights: psqt,
                                    stacks,
                                })
                            },
                        },
                    },
                },
            }
        }
    }
}

impl DenseLayer {
    /// The layer holds exactly the values of `m`.
    pub open spec fn models(&self, m: DenseLayerModel) -> bool {
        &&& self.input_dims == m.input_dims
        &&& self.padded_input_dims == m.padded_input_dims
        &&& self.output_dims == m.output_dims
        &&& self.biases@.len() == m.biases.len()
        &&& (forall|i: int| 0 <= i < m.biases.len() ==> #[trigger] self.biases@[i] == m.biases[i])
        &&& self.weights@.len() == m.weights.len()
        &&& (forall|i: int| 0 <= i < m.weights.len() ==> #[trigger] self.weights@[i] == m.weights[i])
    }

    /// Reads a dense layer with `input_dims` inputs and `output_dims` outputs.
    pub fn load(reader: &mut ByteReader, input_dims: usize, output_dims: usize) -> (r: Result<Self, LoadError>)
        requires
            input_dims <= 4096,
            output_dims <= 64,
        ensures
            match dense_layer_spec(old(reader).remaining(), input_dims as nat, output_dims as nat) {
                Ok((m, used)) => r matches Ok(l) && l.models(m)
                    && final(reader).remaining() == old(reader).remaining().skip(used),
                Err(e) => r matches Err(x) && x == e,
            },
    {
        let ghost s = reader.remaining();
        let padded_input_dims = (input_dims + 31) / 32 * 32;
        assert(padded_input_dims == round_up_32(input_dims as nat));
        assert(output_dims * padded_input_dims <= 64 * 4096) by (nonlinear_arith)
            requires output_dims <= 64, padded_input_dims <= 4096;
        let biases = match read_i32_array(reader, output_dims) {
            Ok(b) => b,
            Err(e) => return Err(e),
        };
        let ghost s1 = reader.remaining();
        let weights = match read_i8_array(reader, output_dims * padded_input_dims) {
            Ok(w) => w,
            Err(e) => return Err(e),
        };
        let ghost m = DenseLayerModel {
            input_dims: input_dims as nat,
            padded_input_dims: padded_input_dims as nat,
            output_dims: output_dims as nat,
            biases: Seq::new(output_dims as nat, |i: int| le_i32(s.subrange(4 * i, 4 * i + 4))),
            weights: Seq::new((output_dims * padded_input_dims) as nat, |i: int| i8_of(s[4 * output_dims + i])),
        };
        proof {
            assert forall|i: int| 0 <= i < output_dims * padded_input_dims implies
                #[trigger] weights@[i] == m.weights[i] by {
                assert(s1[i] == s[4 * output_dims + i]);
            }
            assert(reader.remaining() =~= s.skip(4 * output_dims + output_dims * padded_input_dims));
        }
        Ok(DenseLayer {
            input_dims,
            padded_input_dims,
            output_dims,
            biases,
            weights,
        })
    }
}


/// Puts already parsed stacks, spanning `off` bytes, in front of a parse result.
pub open spec fn prepend_stacks(
    pre: Seq<LayerStackModel>,
    off: int,
    r: Result<(Seq<LayerStackModel>, int), LoadError>,
) -> Result<(Seq<LayerStackModel>, int), LoadError> {
    match r {
        Ok((v, used)) => Ok((pre + v, off + used)),
        Err(e) => Err(e),
    }
}

proof fn lemma_prepend_stacks_push(
    pre: Seq<LayerStackModel>,
    off: int,
    m: LayerStackModel,
    d: int,
    r: Result<(Seq<LayerStackModel>, int), LoadError>,
)
    ensures
        prepend_stacks(pre, off, prepend_stacks(seq![m], d, r)) == prepend_stacks(pre.push(m), off + d, r),
{
    match r {
        Ok((v, used)) => {
            assert(pre + (seq![m] + v) =~= pre.push(m) + v);
        },
        Err(e) => {},
    }
}

proof fn lemma_skip_skip(s: Seq<u8>, a: int, b: int)
    requires
        0 <= a,
        0 <= b,
        a + b <= s.len(),
    ensures
        s.skip(a).skip(b) == s.skip(a + b),
{
    assert(s.skip(a).skip(b) =~= s.skip(a + b));
}

impl LayerStack {
    /// The stack holds exactly the layers of `m`.
    pub open spec fn models(&self, m: LayerStackModel) -> bool {
        self.fc0.models(m.fc0) && self.fc1.models(m.fc1) && self.fc2.models(m.fc2)
    }
}

impl LoadedNetwork {
    /// The network holds the values of `m`, transformer weights narrowed to 16 bits.
    pub open spec fn models(&self, m: NetworkModel) -> bool {
        &&& self.half_dims == m.half_dims
        &&& self.feature_transformer.biases@.len() == m.ft_biases.len()
        &&& (forall|i: int| 0 <= i < m.ft_biases.len() ==>
            #[trigger] self.feature_transformer.biases@[i] == wrap16(m.ft_biases[i]))
        &&& self.feature_transformer.weights@.len() == m.ft_weights.len()
        &&& (forall|i: int| 0 <= i < m.ft_weights.len() ==>
            #[trigger] self.feature_transformer.weights@[i] == wrap16(m.ft_weights[i]))
        &&& self.feature_transformer.psqt_weights@.len() == m.psqt_weights.len()
        &&& (forall|i: int| 0 <= i < m.psqt_weights.len() ==>
            #[trigger] self.feature_transformer.psqt_weights@[i] == m.psqt_weights[i])
        &&& self.layer_stacks@.len() == m.stacks.len()
        &&& (forall|i: int| 0 <= i < m.stacks.len() ==> #[trigger] self.layer_stacks@[i].models(m.stacks[i]))
    }

    /// Reads one layer stack, which must start with `stack_hash`.
    fn load_layer_stack(reader: &mut ByteReader, half_dims: usize, stack_hash: u32) -> (r: Result<LayerStack, LoadError>)
        requires
            half_dims <= 4096,
        ensures
            match layer_stack_spec(old(reader).remaining(), half_dims as nat, stack_hash) {
                Ok((m, used)) => r matches Ok(st) && st.models(m)
                    && final(reader).remaining() == old(reader).remaining().skip(used),
                Err(e) => r matches Err(x) && x == e,
            },
    {
        let ghost t = reader.remaining();
        let found = match read_u32(reader) {
            Ok(v) => v,
            Err(e) => return Err(e),
        };
        if found != stack_hash {
            return Err(LoadError::UnexpectedLayerStackHash(found));
        }
        let ghost t0 = reader.remaining();
        let fc0 = match DenseLayer::load(reader, half_dims, FC0_TOTAL_OUTPUTS) {
            Ok(l) => l,
            Err(e) => return Err(e),
        };
        let ghost u0 = dense_layer_spec(t0, half_dims as nat, FC0_TOTAL_OUTPUTS as nat)->Ok_0.1;
        proof {
            lemma_dense_used(t0, half_dims as nat, FC0_TOTAL_OUTPUTS as nat);
            lemma_skip_skip(t, 4, u0);
        }
        let ghost t1 = reader.remaining();
        let fc1 = match DenseLayer::load(reader, FC1_INPUT_DIMS, FC1_OUTPUTS) {
            Ok(l) => l,
            Err(e) => return Err(e),
        };
        let ghost u1 = dense_layer_spec(t1, FC1_INPUT_DIMS as nat, FC1_OUTPUTS as nat)->Ok_0.1;
        proof {
            lemma_dense_used(t1, FC1_INPUT_DIMS as nat, FC1_OUTPUTS as nat);
            lemma_skip_skip(t, 4 + u0, u1);
        }
        let ghost t2 = reader.remaining();
        let fc2 = match DenseLayer::load(reader, FC1_OUTPUTS, 1) {
            Ok(l) => l,
            Err(e) => return Err(e),
        };
        let ghost u2 = dense_layer_spec(t2, FC1_OUTPUTS as nat, 1)->Ok_0.1;
        proof {
            lemma_dense_used(t2, FC1_OUTPUTS as nat, 1);
            lemma_skip_skip(t, 4 + u0 + u1, u2);
        }
        Ok(LayerStack { fc0, fc1, fc2 })
    }

    /// Reads the layer stacks of a network of kind `kind`.
    fn load_layer_stacks(reader: &mut ByteReader, kind: NetworkKind) -> (r: Result<Vec<LayerStack>, LoadError>)
        ensures
            match layer_stacks_spec(old(reader).remaining(), kind_half_dims(kind), kind_layer_stack_hash(kind), LAYER_STACKS as nat) {
                Ok((ms, used)) => r matches Ok(v) && v@.len() == ms.len()
                    && (forall|i: int| 0 <= i < ms.len() ==> #[trigger] v@[i].models(ms[i]))
                    && final(reader).remaining() == old(reader).remaining().skip(used),
                Err(e) => r matches Err(x) && x == e,
            },
    {
        let ghost s = reader.remaining();
        let ghost half = kind_half_dims(kind);
        let ghost h = kind_layer_stack_hash(kind);
        let half_dims = kind.half_dims();
        let stack_hash = kind.layer_stack_hash();
        let mut stacks: Vec<LayerStack> = Vec::new();
        let ghost mut done: Seq<LayerStackModel> = Seq::empty();
        let ghost mut off: int = 0;
        let mut k: usize = 0;
        proof {
            assert(s.skip(0) =~= s);
            match layer_stacks_spec(s, half, h, LAYER_STACKS as nat) {
                Ok((v, used)) => { assert(Seq::<LayerStackModel>::empty() + v =~= v); },
                Err(e) => {},
            }
        }
        while k < LAYER_STACKS
            invariant
                k <= LAYER_STACKS,
                half == kind_half_dims(kind),
                half_dims == half,
                h == kind_layer_stack_hash(kind),
                stack_hash == h,
                0 <= off <= s.len(),
                s == old(reader).remaining(),
                reader.remaining() == s.skip(off),
                stacks@.len() == k,
                done.len() == k,
                forall|i: int| 0 <= i < k ==> #[trigger] stacks@[i].models(done[i]),
                layer_stacks_spec(s, half, h, LAYER_STACKS as nat)
                    == prepend_stacks(done, off, layer_stacks_spec(s.skip(off), half, h, (LAYER_STACKS - k) as nat)),
            decreases LAYER_STACKS - k,
        {
            let ghost t = reader.remaining();
            let ghost n = (LAYER_STACKS - k) as nat;
            let stack = match Self::load_layer_stack(reader, half_dims, stack_hash) {
                Ok(st) => st,
                Err(e) => {
                    assert(layer_stacks_spec(t, half, h, n) == Err::<(Seq<LayerStackModel>, int), LoadError>(e));
                    return Err(e);
                },
            };
            let ghost (m, u) = layer_stack_spec(t, half, h)->Ok_0;
            proof {
                lemma_stack_used(t, half, h);
                lemma_skip_skip(s, off, u);
                lemma_prepend_stacks_push(done, off, m, u, layer_stacks_spec(t.skip(u), half, h, (n - 1) as nat));
            }
            stacks.push(stack);
            proof {
                done = done.push(m);
                off = off + u;
            }
            k = k + 1;
        }
        proof {
            assert(done + Seq::<LayerStackModel>::empty() =~= done);
        }
        Ok(stacks)
    }

    /// Parses a whole network file of kind `kind`, which must be all that
    /// `reader` holds. A wrong version or network hash is found once the
    /// twelve header bytes are read; a file that loads is read to its end.
    pub fn load_from_reader(reader: &mut ByteReader, kind: NetworkKind) -> (r: Result<Self, LoadError>)
        ensures
            match network_spec(old(reader).remaining(), kind) {
                Ok(m) => r matches Ok(n) && n.models(m),
                Err(e) => r matches Err(x) && x == e,
            },
            old(reader).remaining().len() >= 12 && (le_u32(old(reader).remaining().subrange(0, 4)) != NNUE_VERSION
                || le_u32(old(reader).remaining().subrange(4, 8)) != kind_network_hash(kind))
                ==> final(reader).remaining() == old(reader).remaining().skip(12),
            r is Ok ==> final(reader).remaining().len() == 0,
    {
        let ghost s = reader.remaining();
        let version = match read_u32(reader) {
            Ok(v) => v,
            Err(e) => return Err(e),
        };
        let header_hash = match read_u32(reader) {
            Ok(v) => v,
            Err(e) => return Err(e),
        };
        let description_len = match read_u32(reader) {
            Ok(v) => v,
            Err(e) => return Err(e),
        };
        proof {
            assert(s.take(4) =~= s.subrange(0, 4));
            assert(s.skip(4).take(4) =~= s.subrange(4, 8));
            assert(s.skip(4).skip(4).take(4) =~= s.subrange(8, 12));
            assert(s.skip(4).skip(4).skip(4) =~= s.skip(12));
        }
        if version != NNUE_VERSION {
            return Err(LoadError::InvalidVersion(version));
        }
        if header_hash != kind.network_hash() {
            return Err(LoadError::UnexpectedNetworkHash(header_hash));
        }
        let description_len = description_len as usize;
        if reader.remaining_len() < description_len {
            return Err(LoadError::UnexpectedEof);
        }
        reader.advance(description_len);
        proof { lemma_skip_skip(s, 12, description_len as int); }
        let ghost s1 = reader.remaining();
        let transformer_hash = match read_u32(reader) {
            Ok(v) => v,
            Err(e) => return Err(e),
        };
        if transformer_hash != kind.feature_transformer_hash() {
            return Err(LoadError::UnexpectedTransformerHash(transformer_hash));
        }
        let ghost s2 = reader.remaining();
        let half_dims = kind.half_dims();
        let biases = match read_leb128_i16_array(reader, half_dims) {
            Ok(v) => v,
            Err(e) => return Err(e),
        };
        let ghost u1 = leb128_block(s2, half_dims as nat)->Ok_0.1;
        let weights = match read_leb128_i16_array(reader, FEATURE_DIMS * half_dims) {
            Ok(v) => v,
            Err(e) => return Err(e),
        };
        let ghost u2 = leb128_block(s2.skip(u1), (FEATURE_DIMS * half_dims) as nat)->Ok_0.1;
        proof {
            lemma_leb128_used(s2, half_dims as nat);
            lemma_leb128_used(s2.skip(u1), (FEATURE_DIMS * half_dims) as nat);
            lemma_skip_skip(s2, u1, u2);
        }
        let psqt_weights = match read_leb128_i32_array(reader, FEATURE_DIMS * PSQT_BUCKETS) {
            Ok(v) => v,
            Err(e) => return Err(e),
        };
        let ghost u3 = leb128_block(s2.skip(u1 + u2), (FEATURE_DIMS * PSQT_BUCKETS) as nat)->Ok_0.1;
        proof {
            lemma_leb128_used(s2.skip(u1 + u2), (FEATURE_DIMS * PSQT_BUCKETS) as nat);
            lemma_skip_skip(s2, u1 + u2, u3);
        }
        let layer_stacks = match Self::load_layer_stacks(reader, kind) {
            Ok(v) => v,
            Err(e) => return Err(e),
        };
        let ghost u4 = layer_stacks_spec(s2.skip(u1 + u2 + u3), kind_half_dims(kind), kind_layer_stack_hash(kind), LAYER_STACKS as nat)->Ok_0.1;
        proof {
            lemma_stacks_used(s2.skip(u1 + u2 + u3), kind_half_dims(kind), kind_layer_stack_hash(kind), LAYER_STACKS as nat);
            lemma_skip_skip(s2, u1 + u2 + u3, u4);
        }
        if reader.remaining_len() != 0 {
            return Err(LoadError::TrailingBytes);
        }
        Ok(LoadedNetwork {
            half_dims,
            feature_transformer: FeatureTransformer { biases, weights, psqt_weights },
            layer_stacks,
        })
    }
}

proof fn lemma_leb128_used(s: Seq<u8>, count: nat)
    ensures
        leb128_block(s, count) matches Ok((v, used)) ==> 0 <= used <= s.len() && v.len() == count,
{
    lemma_leb128_block_bounds(s, count);
}

proof fn lemma_stack_used(s: Seq<u8>, half: nat, h: u32)
    ensures
        layer_stack_spec(s, half, h) matches Ok((m, used)) ==> 0 <= used <= s.len(),
{
    if s.len() >= 4 && le_u32(s.take(4)) == h {
        lemma_dense_used(s.skip(4), half, FC0_TOTAL_OUTPUTS as nat);
        if let Ok((fc0, u0)) = dense_layer_spec(s.skip(4), half, FC0_TOTAL_OUTPUTS as nat) {
            lemma_dense_used(s.skip(4 + u0), FC1_INPUT_DIMS as nat, FC1_OUTPUTS as nat);
            if let Ok((fc1, u1)) = dense_layer_spec(s.skip(4 + u0), FC1_INPUT_DIMS as nat, FC1_OUTPUTS as nat) {
                lemma_dense_used(s.skip(4 + u0 + u1), FC1_OUTPUTS as nat, 1);
            }
        }
    }
}

proof fn lemma_stacks_used(s: Seq<u8>, half: nat, h: u32, count: nat)
    ensures
        layer_stacks_spec(s, half, h, count) matches Ok((v, used)) ==> 0 <= used <= s.len() && v.len() == count,
    decreases count,
{
    if count > 0 {
        lemma_stack_used(s, half, h);
        if let Ok((m, u)) = layer_stack_spec(s, half, h) {
            lemma_stacks_used(s.skip(u), half, h, (count - 1) as nat);
        }
    }
}

proof fn lemma_dense_used(s: Seq<u8>, input_dims: nat, output_dims: nat)
    ensures
        dense_layer_spec(s, input_dims, output_dims) matches Ok((m, used)) ==> 0 <= used <= s.len(),
{
}

impl NnueNetworks {
    /// Parses the big and the small network from the contents of their files;
    /// the big file is checked first.
    pub fn load(big_bytes: Vec<u8>, small_bytes: Vec<u8>) -> (r: Result<Self, LoadError>)
        ensures
            match network_spec(big_bytes@, NetworkKind::Big) {
                Err(e) => r matches Err(x) && x == e,
                Ok(mb) => match network_spec(small_bytes@, NetworkKind::Small) {
                    Err(e) => r matches Err(x) && x == e,
                    Ok(ms) => r matches Ok(n) && n.big.models(mb) && n.small.models(ms),
                },
            },
            r matches Ok(n) ==> crate::evaluate::networks_ok(&n),
    {
        let mut big_reader = ByteReader::new(big_bytes);
        let big = match LoadedNetwork::load_from_reader(&mut big_reader, NetworkKind::Big) {
            Ok(n) => n,
            Err(e) => return Err(e),
        };
        let mut small_reader = ByteReader::new(small_bytes);
        let small = match LoadedNetwork::load_from_reader(&mut small_reader, NetworkKind::Small) {
            Ok(n) => n,
            Err(e) => return Err(e),
        };
        proof {
            crate::evaluate::lemma_loaded_network_ok(big_bytes@, NetworkKind::Big, &big);
            crate::evaluate::lemma_loaded_network_ok(small_bytes@, NetworkKind::Small, &small);
        }
        Ok(NnueNetworks { big, small })
    }
}

} // verus!
