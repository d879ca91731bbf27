//! Little-endian and signed-LEB128 readers over an in-memory byte stream.
//!
//! The network file format stores plain little-endian integers and, for the
//! large feature-transformer tables, blocks of signed LEB128 values announced
//! by a magic string and a byte count.
use vstd::prelude::*;
use crate::arith::{wrap16, wrap32, truncate_to_i16, truncate_to_i32, lemma_wrap32_small};

verus! {

/// Why reading a network stream failed.
#[derive(Clone, Copy, Debug, PartialEq, Eq)]
pub enum LoadError {
    /// The stream ended before a value was complete.
    UnexpectedEof,
    /// A LEB128 block did not start with `COMPRESSED_LEB128`.
    InvalidLeb128Magic,
    /// A LEB128 block announced more bytes than its values used.
    ExtraLeb128Bytes,
    /// A LEB128 value ran past five bytes, so its next shift would exceed 31 bits.
    Leb128ShiftOverflow,
    /// The file header carries an unknown format version.
    InvalidVersion(u32),
    /// The file header carries a network hash other than the expected one.
    UnexpectedNetworkHash(u32),
    /// The feature-transformer section carries an unexpected hash.
    UnexpectedTransformerHash(u32),
    /// A layer-stack section carries an unexpected hash.
    UnexpectedLayerStackHash(u32),
    /// Bytes remain after the last layer stack.
    TrailingBytes,
}

/// A read cursor over a byte buffer.
pub struct ByteReader {
    data: Vec<u8>,
    pos: usize,
}

impl ByteReader {
    #[verifier::type_invariant]
    spec fn inv(&self) -> bool {
        self.pos <= self.data.len()
    }

    /// The bytes not read yet.
    pub closed spec fn remaining(&self) -> Seq<u8> {
        self.data@.subrange(self.pos as int, self.data@.len() as int)
    }

    /// A cursor at the start of `data`.
    pub fn new(data: Vec<u8>) -> (r: Self)
        ensures
            r.remaining() == data@,
    {
        let r = ByteReader { data, pos: 0 };
        assert(r.remaining() =~= r.data@);
        r
    }

    /// Number of bytes not read yet.
    pub fn remaining_len(&self) -> (n: usize)
        ensures
            n == self.remaining().len(),
    {
        proof { use_type_invariant(self); }
        self.data.len() - self.pos
    }

    /// The unread byte at `offset`, without consuming anything.
    pub fn peek(&self, offset: usize) -> (b: u8)
        requires
            offset < self.remaining().len(),
        ensures
            b == self.remaining()[offset as int],
    {
        proof { use_type_invariant(self); }
        self.data[self.pos + offset]
    }

    /// Consumes `n` bytes.
    pub fn advance(&mut self, n: usize)
        requires
            n <= old(self).remaining().len(),
        ensures
            final(self).remaining() == old(self).remaining().skip(n as int),
    {
        proof { use_type_invariant(&*self); }
        self.pos = self.pos + n;
        assert(self.remaining() =~= old(self).remaining().skip(n as int));
    }
}

/// The unsigned little-endian value of four bytes.
pub open spec fn le_u32(b: Seq<u8>) -> int {
    b[0] + 0x100 * b[1] + 0x1_0000 * b[2] + 0x100_0000 * b[3]
}

/// The two's-complement little-endian value of four bytes.
pub open spec fn le_i32(b: Seq<u8>) -> int {
    wrap32(le_u32(b))
}

/// A byte read as a signed 8-bit value.
pub open spec fn i8_of(b: u8) -> int {
    if b >= 128 { b - 256 } else { b as int }
}

/// Reads the `u32` stored little-endian at `offset` without consuming it.
fn peek_u32(reader: &ByteReader, offset: usize) -> (v: u32)
    requires
        offset + 4 <= reader.remaining().len(),
    ensures
        v == le_u32(reader.remaining().subrange(offset as int, offset + 4)),
{
    let _len = reader.remaining_len();
    let b0 = reader.peek(offset) as u32;
    let b1 = reader.peek(offset + 1) as u32;
    let b2 = reader.peek(offset + 2) as u32;
    let b3 = reader.peek(offset + 3) as u32;
    b0 + 0x100 * b1 + 0x1_0000 * b2 + 0x100_0000 * b3
}

/// Reads a little-endian `u32`.
pub fn read_u32(reader: &mut ByteReader) -> (r: Result<u32, LoadError>)
    ensures
        match r {
            Ok(v) => old(reader).remaining().len() >= 4
                && v == le_u32(old(reader).remaining().take(4))
                && final(reader).remaining() == old(reader).remaining().skip(4),
            Err(e) => old(reader).remaining().len() < 4 && e == LoadError::UnexpectedEof
                && final(reader).remaining() == old(reader).remaining(),
        },
{
    if reader.remaining_len() < 4 {
        return Err(LoadError::UnexpectedEof);
    }
    let v = peek_u32(reader, 0);
    assert(reader.remaining().subrange(0, 4) =~= reader.remaining().take(4));
    reader.advance(4);
    Ok(v)
}

/// Reads `count` little-endian `i32` values.
pub fn read_i32_array(reader: &mut ByteReader, count: usize) -> (r: Result<Vec<i32>, LoadError>)
    ensures
        match r {
            Ok(v) => old(reader).remaining().len() >= 4 * count
                && v@.len() == count
                && (forall|i: int| 0 <= i < count ==>
                    #[trigger] v@[i] == le_i32(old(reader).remaining().subrange(4 * i, 4 * i + 4)))
                && final(reader).remaining() == old(reader).remaining().skip(4 * count),
            Err(e) => old(reader).remaining().len() < 4 * count && e == LoadError::UnexpectedEof
                && final(reader).remaining() == old(reader).remaining(),
        },
{
    let avail = reader.remaining_len();
    if avail / 4 < count {
        return Err(LoadError::UnexpectedEof);
    }
    let mut values: Vec<i32> = Vec::new();
    let mut i: usize = 0;
    while i < count
        invariant
            i <= count,
            4 * count <= reader.remaining().len(),
            avail == reader.remaining().len(),
            values@.len() == i,
            forall|j: int| 0 <= j < i ==>
                #[trigger] values@[j] == le_i32(reader.remaining().subrange(4 * j, 4 * j + 4)),
        decreases count - i,
    {
        assert(4 * i + 4 <= 4 * count);
        let u = peek_u32(reader, 4 * i);
        let v = truncate_to_i32(u as i64);
        values.push(v);
        i = i + 1;
    }
    reader.advance(4 * count);
    Ok(values)
}

/// Reads `count` signed bytes.
pub fn read_i8_array(reader: &mut ByteReader, count: usize) -> (r: Result<Vec<i8>, LoadError>)
    ensures
        match r {
            Ok(v) => old(reader).remaining().len() >= count
                && v@.len() == count
                && (forall|i: int| 0 <= i < count ==>
                    #[trigger] v@[i] == i8_of(old(reader).remaining()[i]))
                && final(reader).remaining() == old(reader).remaining().skip(count as int),
            Err(e) => old(reader).remaining().len() < count && e == LoadError::UnexpectedEof
                && final(reader).remaining() == old(reader).remaining(),
        },
{
    if reader.remaining_len() < count {
        return Err(LoadError::UnexpectedEof);
    }
    let mut values: Vec<i8> = Vec::new();
    let mut i: usize = 0;
    while i < count
        invariant
            i <= count,
            count <= reader.remaining().len(),
            values@.len() == i,
            forall|j: int| 0 <= j < i ==> #[trigger] values@[j] == i8_of(reader.remaining()[j]),
        decreases count - i,
    {
        let b = reader.peek(i);
        let v: i8 = if b >= 128 { (b as i16 - 256) as i8 } else { b as i8 };
        values.push(v);
        i = i + 1;
    }
    reader.advance(count);
    Ok(values)
}


/// The ASCII bytes of `COMPRESSED_LEB128`, which open every LEB128 block.
pub open spec fn leb128_magic() -> Seq<u8> {
    seq![67u8, 79, 77, 80, 82, 69, 83, 83, 69, 68, 95, 76, 69, 66, 49, 50, 56]
}

/// Bytes of a LEB128 block that are handed out in chunks of this size.
pub const LEB128_CHUNK: usize = 4096;

/// `128^k`.
pub open spec fn pow128(k: nat) -> nat
    decreases k,
{
    if k == 0 { 1 } else { 128 * pow128((k - 1) as nat) }
}

/// The unsigned number held in the low seven bits of each byte, least significant first.
pub open spec fn leb_payload(s: Seq<u8>) -> int
    decreases s.len(),
{
    if s.len() == 0 {
        0
    } else {
        leb_payload(s.drop_last()) + (s.last() % 128) * pow128((s.len() - 1) as nat)
    }
}

/// The signed value of one complete LEB128 encoding of one to five bytes:
/// shorter encodings are sign-extended from their top payload bit, a
/// five-byte encoding keeps the low 32 bits of its payload.
pub open spec fn leb_value(s: Seq<u8>) -> int {
    let u = leb_payload(s);
    if s.len() < 5 {
        if s.last() % 128 >= 64 { u - pow128(s.len()) } else { u }
    } else {
        wrap32(u)
    }
}

/// Scans the value that starts at `pos`, having already seen `k` continuation
/// bytes: its length in bytes, or why it cannot be read from `block`.
pub open spec fn leb_scan(block: Seq<u8>, pos: int, k: nat) -> Result<nat, LoadError>
    decreases 5 - k,
{
    if pos + k >= block.len() {
        Err(LoadError::UnexpectedEof)
    } else if k >= 5 {
        Err(LoadError::Leb128ShiftOverflow)
    } else if block[pos + k] < 128 {
        Ok(k + 1)
    } else {
        leb_scan(block, pos, k + 1)
    }
}

/// Puts `pre` in front of the values of a successful decoding.
pub open spec fn prepend_values(
    pre: Seq<int>,
    r: Result<(Seq<int>, int), LoadError>,
) -> Result<(Seq<int>, int), LoadError> {
    match r {
        Ok((vals, end)) => Ok((pre + vals, end)),
        Err(e) => Err(e),
    }
}

/// Decodes `count` consecutive values of `block` from `pos`: the values and the
/// position just past the last one.
pub open spec fn leb_decode_from(block: Seq<u8>, pos: int, count: nat) -> Result<(Seq<int>, int), LoadError>
    decreases count,
{
    if count == 0 {
        Ok((Seq::empty(), pos))
    } else {
        match leb_scan(block, pos, 0) {
            Err(e) => Err(e),
            Ok(len) => prepend_values(
                seq![leb_value(block.subrange(pos, pos + len))],
                leb_decode_from(block, pos + len, (count - 1) as nat),
            ),
        }
    }
}

/// How many bytes of an announced block of `announced` bytes can be read when
/// `available` bytes follow the header: all of them, or else only the whole
/// chunks that are present.
pub open spec fn leb_accessible(announced: int, available: int) -> int {
    if available >= announced { announced } else { available / (LEB128_CHUNK as int) * (LEB128_CHUNK as int) }
}

/// A LEB128 block of `count` values at the start of `stream`: the decoded values
/// and the number of bytes the block occupies, or why it is rejected.
pub open spec fn leb128_block(stream: Seq<u8>, count: nat) -> Result<(Seq<int>, int), LoadError> {
    if stream.len() < 17 {
        Err(LoadError::UnexpectedEof)
    } else if stream.take(17) != leb128_magic() {
        Err(LoadError::InvalidLeb128Magic)
    } else if stream.len() < 21 {
        Err(LoadError::UnexpectedEof)
    } else {
        let announced = le_u32(stream.subrange(17, 21));
        let rest = stream.skip(21);
        let block = rest.take(leb_accessible(announced, rest.len() as int));
        match leb_decode_from(block, 0, count) {
            Err(e) => Err(e),
            Ok((vals, used)) => if used != announced {
                Err(LoadError::ExtraLeb128Bytes)
            } else {
                Ok((vals, 21 + announced))
            },
        }
    }
}

proof fn lemma_pow128_values()
    ensures
        pow128(0) == 1,
        pow128(1) == 128,
        pow128(2) == 16384,
        pow128(3) == 2097152,
        pow128(4) == 268435456,
        pow128(5) == 34359738368,
{
    reveal_with_fuel(pow128, 6);
}

proof fn lemma_prepend_push(pre: Seq<int>, v: int, r: Result<(Seq<int>, int), LoadError>)
    ensures
        prepend_values(pre, prepend_values(seq![v], r)) == prepend_values(pre.push(v), r),
{
    match r {
        Ok((vals, end)) => {
            assert(pre + (seq![v] + vals) =~= pre.push(v) + vals);
        },
        Err(e) => {},
    }
}

proof fn lemma_prepend_empty(r: Result<(Seq<int>, int), LoadError>)
    ensures
        prepend_values(Seq::empty(), r) == r,
{
    match r {
        Ok((vals, end)) => {
            assert(Seq::<int>::empty() + vals =~= vals);
        },
        Err(e) => {},
    }
}

/// Decodes the value at `pos` of the first `limit` unread bytes, without consuming.
fn decode_leb128_value(reader: &ByteReader, pos: usize, limit: usize) -> (r: Result<(i32, usize), LoadError>)
    requires
        pos <= limit <= reader.remaining().len(),
    ensures
        match leb_scan(reader.remaining().take(limit as int), pos as int, 0) {
            Ok(len) => r == Ok::<(i32, usize), LoadError>((
                leb_value(reader.remaining().take(limit as int).subrange(pos as int, pos + len)) as i32,
                len as usize,
            )) && leb_value(reader.remaining().take(limit as int).subrange(pos as int, pos + len)) == (
                leb_value(reader.remaining().take(limit as int).subrange(pos as int, pos + len)) as i32),
            Err(e) => r == Err::<(i32, usize), LoadError>(e),
        },
{
    let ghost block = reader.remaining().take(limit as int);
    let mut k: usize = 0;
    let mut acc: u64 = 0;
    let mut mult: u64 = 1;
    assert(block.subrange(pos as int, pos as int) =~= Seq::<u8>::empty());
    proof { lemma_pow128_values(); }
    loop
        invariant
            pos <= limit <= reader.remaining().len(),
            block == reader.remaining().take(limit as int),
            k <= 5,
            pos + k <= limit,
            acc == leb_payload(block.subrange(pos as int, pos + k)),
            mult == pow128(k as nat),
            acc < mult,
            mult <= pow128(5),
            leb_scan(block, pos as int, 0) == leb_scan(block, pos as int, k as nat),
        decreases 5 - k,
    {
        if pos + k >= limit {
            return Err(LoadError::UnexpectedEof);
        }
        if k == 5 {
            return Err(LoadError::Leb128ShiftOverflow);
        }
        let b = reader.peek(pos + k);
        assert(b == block[pos + k]);
        let low: u64 = (b % 128) as u64;
        proof {
            let sub = block.subrange(pos as int, pos + k + 1);
            assert(sub.drop_last() =~= block.subrange(pos as int, pos + k));
            assert(sub.last() == b);
            assert(low * mult <= 127 * mult) by (nonlinear_arith)
                requires low <= 127;
            lemma_pow128_values();
            assert(pow128((k + 1) as nat) == 128 * pow128(k as nat));
        }
        acc = acc + low * mult;
        mult = mult * 128;
        k = k + 1;
        if b < 128 {
            let ghost sub = block.subrange(pos as int, pos + k);
            assert(sub.last() == b);
            assert(sub.len() == k);
            let value: i32 = if k < 5 {
                proof { lemma_pow128_values(); }
                if low >= 64 { (acc as i64 - mult as i64) as i32 } else { acc as i32 }
            } else {
                truncate_to_i32(acc as i64)
            };
            proof {
                lemma_wrap32_small(value as int);
            }
            return Ok((value, k));
        }
    }
}

/// Reads and checks a LEB128 block header without consuming it: the announced byte count.
fn peek_leb128_header(reader: &ByteReader) -> (r: Result<u32, LoadError>)
    ensures
        match r {
            Ok(n) => reader.remaining().len() >= 21 && reader.remaining().take(17) == leb128_magic()
                && n == le_u32(reader.remaining().subrange(17, 21)),
            Err(e) => leb128_block(reader.remaining(), 0) == Err::<(Seq<int>, int), LoadError>(e)
                && forall|c: nat| #[trigger] leb128_block(reader.remaining(), c) == Err::<(Seq<int>, int), LoadError>(e),
        },
{
    let magic: [u8; 17] = [67, 79, 77, 80, 82, 69, 83, 83, 69, 68, 95, 76, 69, 66, 49, 50, 56];
    assert(magic@ =~= leb128_magic());
    if reader.remaining_len() < 17 {
        return Err(LoadError::UnexpectedEof);
    }
    let mut i: usize = 0;
    while i < 17
        invariant
            i <= 17,
            17 <= reader.remaining().len(),
            magic@ == leb128_magic(),
            forall|j: int| 0 <= j < i ==> reader.remaining()[j] == magic@[j],
        decreases 17 - i,
    {
        if reader.peek(i) != magic[i] {
            assert(reader.remaining().take(17)[i as int] != leb128_magic()[i as int]);
            return Err(LoadError::InvalidLeb128Magic);
        }
        i = i + 1;
    }
    assert(reader.remaining().take(17) =~= leb128_magic());
    if reader.remaining_len() < 21 {
        return Err(LoadError::UnexpectedEof);
    }
    Ok(peek_u32(reader, 17))
}

/// Decodes the values of a LEB128 block whose header has been checked; returns
/// them as `i32`, without consuming anything.
fn decode_leb128_block_i32(reader: &ByteReader, announced: u32, count: usize) -> (r: Result<Vec<i32>, LoadError>)
    requires
        reader.remaining().len() >= 21,
        reader.remaining().take(17) == leb128_magic(),
        announced == le_u32(reader.remaining().subrange(17, 21)),
    ensures
        match leb128_block(reader.remaining(), count as nat) {
            Ok((vals, used)) => r matches Ok(v) && v@.len() == vals.len()
                && (forall|i: int| 0 <= i < vals.len() ==> #[trigger] v@[i] == vals[i])
                && used <= reader.remaining().len(),
            Err(e) => r == Err::<Vec<i32>, LoadError>(e),
        },
        r is Ok ==> 21 + announced <= reader.remaining().len(),
{
    let ghost stream = reader.remaining();
    let total = reader.remaining_len();
    let avail = total - 21;
    let announced = announced as usize;
    let accessible: usize = if avail >= announced { announced } else { avail / LEB128_CHUNK * LEB128_CHUNK };
    let ghost rest = stream.skip(21);
    let ghost block = rest.take(accessible as int);
    assert(accessible == leb_accessible(announced as int, rest.len() as int));
    let mut values: Vec<i32> = Vec::new();
    let mut pos: usize = 0;
    let mut i: usize = 0;
    let ghost mut vals: Seq<int> = Seq::empty();
    proof {
        lemma_prepend_empty(leb_decode_from(block, 0, count as nat));
    }
    while i < count
        invariant
            stream == reader.remaining(),
            rest == stream.skip(21),
            block == rest.take(accessible as int),
            accessible <= avail,
            avail + 21 == stream.len(),
            total == stream.len(),
            stream.take(17) == leb128_magic(),
            announced == le_u32(stream.subrange(17, 21)),
            accessible == leb_accessible(announced as int, rest.len() as int),
            i <= count,
            pos <= accessible,
            values@.len() == i,
            vals.len() == i,
            forall|j: int| 0 <= j < i ==> #[trigger] values@[j] == vals[j],
            leb_decode_from(block, 0, count as nat)
                == prepend_values(vals, leb_decode_from(block, pos as int, (count - i) as nat)),
        decreases count - i,
    {
        let ghost before = leb_decode_from(block, pos as int, (count - i) as nat);
        let step = decode_leb128_value(reader, 21 + pos, 21 + accessible);
        proof {
            let tk = stream.take(21 + accessible);
            assert forall|j: int| 0 <= j < accessible implies tk[21 + j] == block[j] by {}
            assert forall|k: nat| leb_scan(tk, 21 + pos, k) == leb_scan(block, pos as int, k) by {
                lemma_scan_shift(tk, block, pos as int, k);
            }
            assert(leb_scan(tk, 21 + pos, 0) == leb_scan(block, pos as int, 0));
            lemma_scan_len(block, pos as int, 0);
        }
        match step {
            Err(e) => {
                assert(leb_scan(block, pos as int, 0) == Err::<nat, LoadError>(e));
                assert(leb_decode_from(block, pos as int, (count - i) as nat) == Err::<(Seq<int>, int), LoadError>(e));
                assert(leb_decode_from(block, 0, count as nat) == Err::<(Seq<int>, int), LoadError>(e));
                assert(stream.len() >= 21);
                assert(le_u32(stream.subrange(17, 21)) == announced);
                assert(block == stream.skip(21).take(leb_accessible(le_u32(stream.subrange(17, 21)), stream.skip(21).len() as int)));
                assert(leb128_block(stream, count as nat) == Err::<(Seq<int>, int), LoadError>(e));
                return Err(e);
            },
            Ok((v, len)) => {
                proof {
                    let tk = stream.take(21 + accessible);
                    assert(tk.subrange(21 + pos, 21 + pos + len) =~= block.subrange(pos as int, pos + len));
                    lemma_prepend_push(vals, v as int, leb_decode_from(block, pos + len, (count - i - 1) as nat));
                }
                values.push(v);
                proof { vals = vals.push(v as int); }
                pos = pos + len;
                i = i + 1;
            },
        }
    }
    proof {
        lemma_prepend_empty(leb_decode_from(block, pos as int, 0));
        assert(vals + Seq::<int>::empty() =~= vals);
    }
    if pos != announced {
        return Err(LoadError::ExtraLeb128Bytes);
    }
    Ok(values)
}

/// Decodes the values of a LEB128 block whose header has been checked; returns
/// them truncated to `i16`, without consuming anything.
fn decode_leb128_block_i16(reader: &ByteReader, announced: u32, count: usize) -> (r: Result<Vec<i16>, LoadError>)
    requires
        reader.remaining().len() >= 21,
        reader.remaining().take(17) == leb128_magic(),
        announced == le_u32(reader.remaining().subrange(17, 21)),
    ensures
        match leb128_block(reader.remaining(), count as nat) {
            Ok((vals, used)) => r matches Ok(v) && v@.len() == vals.len()
                && (forall|i: int| 0 <= i < vals.len() ==> #[trigger] v@[i] == wrap16(vals[i]))
                && used <= reader.remaining().len(),
            Err(e) => r == Err::<Vec<i16>, LoadError>(e),
        },
        r is Ok ==> 21 + announced <= reader.remaining().len(),
{
    let ghost stream = reader.remaining();
    let total = reader.remaining_len();
    let avail = total - 21;
    let announced = announced as usize;
    let accessible: usize = if avail >= announced { announced } else { avail / LEB128_CHUNK * LEB128_CHUNK };
    let ghost rest = stream.skip(21);
    let ghost block = rest.take(accessible as int);
    assert(accessible == leb_accessible(announced as int, rest.len() as int));
    let mut values: Vec<i16> = Vec::new();
    let mut pos: usize = 0;
    let mut i: usize = 0;
    let ghost mut vals: Seq<int> = Seq::empty();
    proof {
        lemma_prepend_empty(leb_decode_from(block, 0, count as nat));
    }
    while i < count
        invariant
            stream == reader.remaining(),
            rest == stream.skip(21),
            block == rest.take(accessible as int),
            accessible <= avail,
            avail + 21 == stream.len(),
            total == stream.len(),
            stream.take(17) == leb128_magic(),
            announced == le_u32(stream.subrange(17, 21)),
            accessible == leb_accessible(announced as int, rest.len() as int),
            i <= count,
            pos <= accessible,
            values@.len() == i,
            vals.len() == i,
            forall|j: int| 0 <= j < i ==> #[trigger] values@[j] == wrap16(vals[j]),
            leb_decode_from(block, 0, count as nat)
                == prepend_values(vals, leb_decode_from(block, pos as int, (count - i) as nat)),
        decreases count - i,
    {
        let ghost before = leb_decode_from(block, pos as int, (count - i) as nat);
        let step = decode_leb128_value(reader, 21 + pos, 21 + accessible);
        proof {
            let tk = stream.take(21 + accessible);
            assert forall|j: int| 0 <= j < accessible implies tk[21 + j] == block[j] by {}
            assert forall|k: nat| leb_scan(tk, 21 + pos, k) == leb_scan(block, pos as int, k) by {
                lemma_scan_shift(tk, block, pos as int, k);
            }
            assert(leb_scan(tk, 21 + pos, 0) == leb_scan(block, pos as int, 0));
            lemma_scan_len(block, pos as int, 0);
        }
        match step {
            Err(e) => {
                assert(leb_scan(block, pos as int, 0) == Err::<nat, LoadError>(e));
                assert(leb_decode_from(block, pos as int, (count - i) as nat) == Err::<(Seq<int>, int), LoadError>(e));
                assert(leb_decode_from(block, 0, count as nat) == Err::<(Seq<int>, int), LoadError>(e));
                assert(stream.len() >= 21);
                assert(le_u32(stream.subrange(17, 21)) == announced);
                assert(block == stream.skip(21).take(leb_accessible(le_u32(stream.subrange(17, 21)), stream.skip(21).len() as int)));
                assert(leb128_block(stream, count as nat) == Err::<(Seq<int>, int), LoadError>(e));
                return Err(e);
            },
            Ok((v, len)) => {
                proof {
                    let tk = stream.take(21 + accessible);
                    assert(tk.subrange(21 + pos, 21 + pos + len) =~= block.subrange(pos as int, pos + len));
                    lemma_prepend_push(vals, v as int, leb_decode_from(block, pos + len, (count - i - 1) as nat));
                }
                values.push(truncate_to_i16(v as i64));
                proof { vals = vals.push(v as int); }
                pos = pos + len;
                i = i + 1;
            },
        }
    }
    proof {
        lemma_prepend_empty(leb_decode_from(block, pos as int, 0));
        assert(vals + Seq::<int>::empty() =~= vals);
    }
    if pos != announced {
        return Err(LoadError::ExtraLeb128Bytes);
    }
    Ok(values)
}


/// Reads a LEB128 block of `count` values stored as 32-bit integers.
pub fn read_leb128_i32_array(reader: &mut ByteReader, count: usize) -> (r: Result<Vec<i32>, LoadError>)
    ensures
        match leb128_block(old(reader).remaining(), count as nat) {
            Ok((vals, used)) => r matches Ok(v) && v@.len() == vals.len()
                && (forall|i: int| 0 <= i < vals.len() ==> #[trigger] v@[i] == vals[i])
                && final(reader).remaining() == old(reader).remaining().skip(used),
            Err(e) => r == Err::<Vec<i32>, LoadError>(e) && final(reader).remaining() == old(reader).remaining(),
        },
{
    let announced = match peek_leb128_header(reader) {
        Ok(n) => n,
        Err(e) => return Err(e),
    };
    let values = match decode_leb128_block_i32(reader, announced, count) {
        Ok(v) => v,
        Err(e) => return Err(e),
    };
    let _total = reader.remaining_len();
    reader.advance(21 + announced as usize);
    Ok(values)
}

/// Reads a LEB128 block of `count` values stored as 16-bit integers: each
/// decoded value keeps its low 16 bits.
pub fn read_leb128_i16_array(reader: &mut ByteReader, count: usize) -> (r: Result<Vec<i16>, LoadError>)
    ensures
        match leb128_block(old(reader).remaining(), count as nat) {
            Ok((vals, used)) => r matches Ok(v) && v@.len() == vals.len()
                && (forall|i: int| 0 <= i < vals.len() ==> #[trigger] v@[i] == wrap16(vals[i]))
                && final(reader).remaining() == old(reader).remaining().skip(used),
            Err(e) => r == Err::<Vec<i16>, LoadError>(e) && final(reader).remaining() == old(reader).remaining(),
        },
{
    let announced = match peek_leb128_header(reader) {
        Ok(n) => n,
        Err(e) => return Err(e),
    };
    let values = match decode_leb128_block_i16(reader, announced, count) {
        Ok(v) => v,
        Err(e) => return Err(e),
    };
    let _total = reader.remaining_len();
    reader.advance(21 + announced as usize);
    Ok(values)
}

proof fn lemma_scan_shift(tk: Seq<u8>, block: Seq<u8>, pos: int, k: nat)
    requires
        block.len() + 21 == tk.len(),
        0 <= pos,
        forall|j: int| 0 <= j < block.len() ==> tk[21 + j] == block[j],
    ensures
        leb_scan(tk, 21 + pos, k) == leb_scan(block, pos, k),
    decreases 5 - k,
{
    if pos + k >= block.len() {
    } else if k >= 5 {
    } else if block[pos + k] < 128 {
    } else {
        lemma_scan_shift(tk, block, pos, k + 1);
    }
}

proof fn lemma_scan_len(block: Seq<u8>, pos: int, k: nat)
    ensures
        leb_scan(block, pos, k) matches Ok(len) ==> k < len <= 5 && pos + len <= block.len(),
    decreases 5 - k,
{
    if pos + k >= block.len() {
    } else if k >= 5 {
    } else if block[pos + k] < 128 {
    } else {
        lemma_scan_len(block, pos, k + 1);
    }
}


proof fn lemma_decode_bounds(block: Seq<u8>, pos: int, count: nat)
    requires
        0 <= pos,
    ensures
        leb_decode_from(block, pos, count) matches Ok((v, end)) ==> pos <= end && (count > 0 ==> end <= block.len()) && v.len() == count,
    decreases count,
{
    if count > 0 {
        lemma_scan_len(block, pos, 0);
        if let Ok(len) = leb_scan(block, pos, 0) {
            lemma_decode_bounds(block, pos + len, (count - 1) as nat);
        }
    }
}

/// A block that decodes spans its header and its announced bytes, all present in the stream.
pub proof fn lemma_leb128_block_bounds(stream: Seq<u8>, count: nat)
    ensures
        leb128_block(stream, count) matches Ok((vals, used)) ==> 21 <= used <= stream.len() && vals.len() == count,
{
    if stream.len() >= 21 && stream.take(17) == leb128_magic() {
        let announced = le_u32(stream.subrange(17, 21));
        let rest = stream.skip(21);
        let block = rest.take(leb_accessible(announced, rest.len() as int));
        lemma_decode_bounds(block, 0, count);
    }
}

} // verus!
