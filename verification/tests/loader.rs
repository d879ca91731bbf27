use nnuebie::loader::{
    read_i32_array, read_i8_array, read_leb128_i16_array, read_leb128_i32_array, read_u32,
    ByteReader, LoadError,
};

fn leb_block(payload: &[u8]) -> Vec<u8> {
    let mut bytes = b"COMPRESSED_LEB128".to_vec();
    bytes.extend_from_slice(&(payload.len() as u32).to_le_bytes());
    bytes.extend_from_slice(payload);
    bytes
}

fn encode_signed(mut value: i64, out: &mut Vec<u8>) {
    loop {
        let byte = (value & 0x7f) as u8;
        value >>= 7;
        let done = (value == 0 && byte & 0x40 == 0) || (value == -1 && byte & 0x40 != 0);
        out.push(if done { byte } else { byte | 0x80 });
        if done {
            break;
        }
    }
}

#[test]
fn reads_little_endian_integers() {
    let mut reader = ByteReader::new(vec![0x78, 0x56, 0x34, 0x12, 0xff, 0xff, 0xff, 0xff, 0x80, 0x7f]);
    assert_eq!(read_u32(&mut reader), Ok(0x1234_5678));
    assert_eq!(read_i32_array(&mut reader, 1), Ok(vec![-1]));
    assert_eq!(read_i8_array(&mut reader, 2), Ok(vec![-128, 127]));
    assert_eq!(read_u32(&mut reader), Err(LoadError::UnexpectedEof));
    assert_eq!(reader.remaining_len(), 0);
}

#[test]
fn short_reads_fail_without_consuming() {
    let mut reader = ByteReader::new(vec![1, 2, 3]);
    assert_eq!(read_u32(&mut reader), Err(LoadError::UnexpectedEof));
    assert_eq!(read_i32_array(&mut reader, 1), Err(LoadError::UnexpectedEof));
    assert_eq!(read_i8_array(&mut reader, 4), Err(LoadError::UnexpectedEof));
    assert_eq!(reader.remaining_len(), 3);
    assert_eq!(read_i8_array(&mut reader, 3), Ok(vec![1, 2, 3]));
}

#[test]
fn decodes_signed_leb128_values() {
    let values: Vec<i64> = vec![0, 1, -1, 63, 64, -64, -65, 300, -300, 8191, -8192, 1 << 20, -(1 << 27), i32::MAX as i64, i32::MIN as i64];
    let mut payload = Vec::new();
    for &v in &values {
        encode_signed(v, &mut payload);
    }
    let mut bytes = leb_block(&payload);
    bytes.push(0xAA);
    let mut reader = ByteReader::new(bytes);
    let decoded = read_leb128_i32_array(&mut reader, values.len()).unwrap();
    let expected: Vec<i32> = values.iter().map(|&v| v as i32).collect();
    assert_eq!(decoded, expected);
    assert_eq!(reader.remaining_len(), 1);
}

#[test]
fn i16_blocks_keep_the_low_sixteen_bits() {
    let mut payload = Vec::new();
    for v in [5i64, -7, 40_000, -40_000] {
        encode_signed(v, &mut payload);
    }
    let mut reader = ByteReader::new(leb_block(&payload));
    let decoded = read_leb128_i16_array(&mut reader, 4).unwrap();
    assert_eq!(decoded, vec![5, -7, 40_000i32 as i16, -40_000i32 as i16]);
}

#[test]
fn rejects_malformed_leb128_blocks() {
    let mut reader = ByteReader::new(b"COMPRESSED_LEB12X\x00\x00\x00\x00".to_vec());
    assert_eq!(read_leb128_i32_array(&mut reader, 0), Err(LoadError::InvalidLeb128Magic));

    let mut reader = ByteReader::new(leb_block(&[1, 2, 3]));
    assert_eq!(read_leb128_i32_array(&mut reader, 2), Err(LoadError::ExtraLeb128Bytes));

    let mut reader = ByteReader::new(leb_block(&[1]));
    assert_eq!(read_leb128_i32_array(&mut reader, 2), Err(LoadError::UnexpectedEof));

    let mut reader = ByteReader::new(leb_block(&[0x81]));
    assert_eq!(read_leb128_i32_array(&mut reader, 1), Err(LoadError::UnexpectedEof));

    let mut reader = ByteReader::new(leb_block(&[0x80, 0x80, 0x80, 0x80, 0x80, 0x00]));
    assert_eq!(read_leb128_i32_array(&mut reader, 1), Err(LoadError::Leb128ShiftOverflow));

    let mut reader = ByteReader::new(b"COMPRESSED".to_vec());
    assert_eq!(read_leb128_i16_array(&mut reader, 1), Err(LoadError::UnexpectedEof));
    assert_eq!(reader.remaining_len(), 10);
}

#[test]
fn truncated_block_reports_what_the_chunks_reach() {
    let mut header = b"COMPRESSED_LEB128".to_vec();
    header.extend_from_slice(&5000u32.to_le_bytes());
    let mut truncated = header.clone();
    truncated.extend(std::iter::repeat(0u8).take(4100));
    let mut reader = ByteReader::new(truncated);
    assert_eq!(read_leb128_i32_array(&mut reader, 4096), Err(LoadError::ExtraLeb128Bytes));
    let mut reader = ByteReader::new({
        let mut t = header.clone();
        t.extend(std::iter::repeat(0u8).take(4100));
        t
    });
    assert_eq!(read_leb128_i32_array(&mut reader, 4097), Err(LoadError::UnexpectedEof));
}
