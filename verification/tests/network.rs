use nnuebie::constants::{
    FEATURE_DIMS, NNUE_VERSION, SMALL_FEATURE_TRANSFORMER_HASH, SMALL_HALF_DIMS,
    SMALL_LAYER_STACK_HASH, SMALL_NETWORK_HASH,
};
use nnuebie::loader::{ByteReader, LoadError};
use nnuebie::network::{LoadedNetwork, NetworkKind, NnueNetworks};

fn push_u32(bytes: &mut Vec<u8>, v: u32) {
    bytes.extend_from_slice(&v.to_le_bytes());
}

fn leb_zeros(bytes: &mut Vec<u8>, count: usize, first: u8) {
    bytes.extend_from_slice(b"COMPRESSED_LEB128");
    push_u32(bytes, count as u32);
    bytes.push(first);
    bytes.extend(std::iter::repeat(0u8).take(count - 1));
}

fn dense(bytes: &mut Vec<u8>, inputs: usize, outputs: usize, bias: i32) {
    for _ in 0..outputs {
        bytes.extend_from_slice(&bias.to_le_bytes());
    }
    let padded = (inputs + 31) / 32 * 32;
    bytes.extend(std::iter::repeat(0xffu8).take(padded * outputs));
}

fn small_network_file() -> Vec<u8> {
    let mut bytes = Vec::new();
    push_u32(&mut bytes, NNUE_VERSION);
    push_u32(&mut bytes, SMALL_NETWORK_HASH);
    push_u32(&mut bytes, 3);
    bytes.extend_from_slice(b"abc");
    push_u32(&mut bytes, SMALL_FEATURE_TRANSFORMER_HASH);
    leb_zeros(&mut bytes, SMALL_HALF_DIMS, 0x05);
    leb_zeros(&mut bytes, FEATURE_DIMS * SMALL_HALF_DIMS, 0x7f);
    leb_zeros(&mut bytes, FEATURE_DIMS * 8, 0x01);
    for stack in 0..8 {
        push_u32(&mut bytes, SMALL_LAYER_STACK_HASH);
        dense(&mut bytes, SMALL_HALF_DIMS, 16, stack);
        dense(&mut bytes, 30, 32, -1);
        dense(&mut bytes, 32, 1, 7);
    }
    bytes
}

#[test]
fn loads_a_small_network_file() {
    let mut reader = ByteReader::new(small_network_file());
    let network = LoadedNetwork::load_from_reader(&mut reader, NetworkKind::Small).unwrap();
    assert_eq!(network.half_dims, 128);
    assert_eq!(network.layer_stacks.len(), 8);
    assert_eq!(network.feature_transformer.biases.len(), 128);
    assert_eq!(network.feature_transformer.biases[0], 5);
    assert_eq!(network.feature_transformer.weights[0], -1);
    assert_eq!(network.feature_transformer.weights.len(), FEATURE_DIMS * 128);
    assert_eq!(network.feature_transformer.psqt_weights[0], 1);
    let stack = &network.layer_stacks[3];
    assert_eq!(stack.fc0.padded_input_dims, 128);
    assert_eq!(stack.fc0.biases, vec![3; 16]);
    assert_eq!(stack.fc1.input_dims, 30);
    assert_eq!(stack.fc1.padded_input_dims, 32);
    assert_eq!(stack.fc1.weights.len(), 32 * 32);
    assert_eq!(stack.fc2.biases, vec![7]);
    assert!(stack.fc2.weights.iter().all(|&w| w == -1));
}

#[test]
fn rejects_trailing_bytes_and_wrong_hashes() {
    let mut bytes = small_network_file();
    bytes.push(0);
    let mut reader = ByteReader::new(bytes);
    assert_eq!(
        LoadedNetwork::load_from_reader(&mut reader, NetworkKind::Small).err(),
        Some(LoadError::TrailingBytes)
    );

    let mut reader = ByteReader::new(small_network_file());
    assert_eq!(
        LoadedNetwork::load_from_reader(&mut reader, NetworkKind::Big).err(),
        Some(LoadError::UnexpectedNetworkHash(SMALL_NETWORK_HASH))
    );

    let mut bytes = small_network_file();
    bytes[0] ^= 1;
    assert_eq!(
        NnueNetworks::load(bytes, small_network_file()).err(),
        Some(LoadError::InvalidVersion(NNUE_VERSION ^ 1))
    );

    let mut bytes = small_network_file();
    let stack_start = bytes.len() - 8 * (4 + (16 * 4 + 16 * 128) + (32 * 4 + 32 * 32) + (4 + 32));
    bytes[stack_start] ^= 0xff;
    let mut reader = ByteReader::new(bytes);
    assert_eq!(
        LoadedNetwork::load_from_reader(&mut reader, NetworkKind::Small).err(),
        Some(LoadError::UnexpectedLayerStackHash(SMALL_LAYER_STACK_HASH ^ 0xff))
    );

    let bytes = small_network_file();
    let mut reader = ByteReader::new(bytes[..bytes.len() - 1].to_vec());
    assert_eq!(
        LoadedNetwork::load_from_reader(&mut reader, NetworkKind::Small).err(),
        Some(LoadError::UnexpectedEof)
    );
}

#[test]
fn header_errors_consume_exactly_the_header() {
    let file = small_network_file();
    let total = file.len();
    let mut reader = ByteReader::new(file);
    assert_eq!(
        LoadedNetwork::load_from_reader(&mut reader, NetworkKind::Big).err(),
        Some(LoadError::UnexpectedNetworkHash(SMALL_NETWORK_HASH))
    );
    assert_eq!(reader.remaining_len(), total - 12);

    let mut bytes = small_network_file();
    bytes[1] ^= 0x10;
    let mut reader = ByteReader::new(bytes);
    assert_eq!(
        LoadedNetwork::load_from_reader(&mut reader, NetworkKind::Small).err(),
        Some(LoadError::InvalidVersion(NNUE_VERSION ^ 0x1000))
    );
    assert_eq!(reader.remaining_len(), total - 12);

    let mut reader = ByteReader::new(small_network_file());
    assert!(LoadedNetwork::load_from_reader(&mut reader, NetworkKind::Small).is_ok());
    assert_eq!(reader.remaining_len(), 0);
}
