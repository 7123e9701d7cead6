//! Tag values as 16-bit words, most significant word and byte first.

use crate::core_model::tag_value::{TagValue, TagValueView};
use crate::time::millis_of;
use byteorder::{BigEndian, ReadBytesExt, WriteBytesExt};
use vstd::prelude::*;
use vstd::string::*;
use vstd::utf8::*;

verus! {

// ---------------------------------------------------------------------------
// Big-endian numbers in bytes
// ---------------------------------------------------------------------------

/// The 16-bit number in the bytes from position `i`.
pub open spec fn u16_at(b: Seq<u8>, i: int) -> u16 {
    (b[i] * 0x100 + b[i + 1]) as u16
}

/// The 32-bit number in the bytes from position `i`.
pub open spec fn u32_at(b: Seq<u8>, i: int) -> u32 {
    (u16_at(b, i) * 0x1_0000 + u16_at(b, i + 2)) as u32
}

/// The 64-bit number in the bytes from position `i`.
pub open spec fn u64_at(b: Seq<u8>, i: int) -> u64 {
    (u32_at(b, i) * 0x1_0000_0000 + u32_at(b, i + 4)) as u64
}

/// Words as bytes, the more significant byte of each first.
pub open spec fn bytes_of(words: Seq<u16>) -> Seq<u8> {
    Seq::new(
        2 * words.len(),
        |i: int|
            if i % 2 == 0 {
                (words[i / 2] / 0x100) as u8
            } else {
                (words[i / 2] % 0x100) as u8
            },
    )
}

/// Bytes as words, the more significant byte of each first; a trailing byte is left out.
pub open spec fn words_of(bytes: Seq<u8>) -> Seq<u16> {
    Seq::new(bytes.len() / 2, |i: int| u16_at(bytes, 2 * i))
}

/// Bytes, followed by a zero byte where that makes their number even.
pub open spec fn padded(bytes: Seq<u8>) -> Seq<u8> {
    if bytes.len() % 2 == 0 {
        bytes
    } else {
        bytes.push(0)
    }
}

/// Words are read back from their bytes.
pub proof fn words_come_back(words: Seq<u16>)
    ensures
        words_of(bytes_of(words)) == words,
{
    let b = bytes_of(words);
    assert forall|i: int| 0 <= i < words.len() implies #[trigger] words_of(b)[i] == words[i] by {
        assert(2 * i / 2 == i);
        assert((2 * i + 1) / 2 == i);
        assert(b[2 * i] == (words[i] / 0x100) as u8);
        assert(b[2 * i + 1] == (words[i] % 0x100) as u8);
    }
    assert(words_of(b) =~= words);
}

/// An even number of bytes is read back from its words.
pub proof fn bytes_come_back(bytes: Seq<u8>)
    requires
        bytes.len() % 2 == 0,
    ensures
        bytes_of(words_of(bytes)) == bytes,
{
    let w = words_of(bytes);
    assert forall|i: int| 0 <= i < bytes.len() implies #[trigger] bytes_of(w)[i] == bytes[i] by {
        let k = i / 2;
        assert(w[k] == bytes[2 * k] * 0x100 + bytes[2 * k + 1]);
        assert(w[k] / 0x100 == bytes[2 * k]);
        assert(w[k] % 0x100 == bytes[2 * k + 1]);
    }
    assert(bytes_of(w) =~= bytes);
}

// ---------------------------------------------------------------------------
// Values as words
// ---------------------------------------------------------------------------

/// A 32-bit number as two words.
pub open spec fn u32_words(v: u32) -> Seq<u16> {
    seq![(v / 0x1_0000) as u16, (v % 0x1_0000) as u16]
}

/// A 64-bit number as four words.
pub open spec fn u64_words(v: u64) -> Seq<u16> {
    seq![
        (v / 0x1_0000_0000_0000) as u16,
        (v / 0x1_0000_0000 % 0x1_0000) as u16,
        (v / 0x1_0000 % 0x1_0000) as u16,
        (v % 0x1_0000) as u16,
    ]
}

/// The words that stand for a value in a PLC: a date and time as its milliseconds, texts and
/// byte strings as their bytes, padded to whole words.
pub open spec fn value_words(v: TagValueView) -> Seq<u16> {
    match v {
        TagValueView::Bool(b) => seq![
            if b {
                1u16
            } else {
                0u16
            },
        ],
        TagValueView::UInt16(n) => seq![n],
        TagValueView::Int16(n) => seq![n as u16],
        TagValueView::UInt32(n) => u32_words(n),
        TagValueView::Int32(n) => u32_words(n as u32),
        TagValueView::Float(n) => u32_words(n),
        TagValueView::Double(n) => u64_words(n),
        TagValueView::UInt64(n) => u64_words(n),
        TagValueView::Int64(n) => u64_words(n as u64),
        TagValueView::DateTime(t) => u64_words(millis_of(t) as i64 as u64),
        TagValueView::ByteString(b) => words_of(padded(b)),
        TagValueView::String(s) => words_of(padded(encode_utf8(s))),
    }
}

/// A 32-bit number as two words.
pub fn u32_to_words(v: u32) -> (r: Vec<u16>)
    ensures
        r@ == u32_words(v),
{
    let mut words: Vec<u16> = Vec::new();
    words.push((v / 0x1_0000) as u16);
    words.push((v % 0x1_0000) as u16);
    assert(words@ =~= u32_words(v));
    words
}

/// A 64-bit number as four words.
pub fn u64_to_words(v: u64) -> (r: Vec<u16>)
    ensures
        r@ == u64_words(v),
{
    let mut words: Vec<u16> = Vec::new();
    words.push((v / 0x1_0000_0000_0000) as u16);
    words.push((v / 0x1_0000_0000 % 0x1_0000) as u16);
    words.push((v / 0x1_0000 % 0x1_0000) as u16);
    words.push((v % 0x1_0000) as u16);
    assert(words@ =~= u64_words(v));
    words
}

fn one_word(w: u16) -> (r: Vec<u16>)
    ensures
        r@ == seq![w],
{
    let mut words: Vec<u16> = Vec::new();
    words.push(w);
    assert(words@ =~= seq![w]);
    words
}

/// Bytes, padded to an even number, as words.
pub fn bytes_to_words(bytes: Vec<u8>) -> (r: Vec<u16>)
    ensures
        r@ == words_of(padded(bytes@)),
{
    let ghost given = bytes@;
    let mut buffer = bytes;
    if buffer.len() % 2 != 0 {
        buffer.push(0);
    }
    assert(buffer@ =~= padded(given));
    split_words(buffer.as_slice())
}

/// Bytes as words; a trailing byte is left out.
pub fn split_words(bytes: &[u8]) -> (r: Vec<u16>)
    ensures
        r@ == words_of(bytes@),
{
    let mut words: Vec<u16> = Vec::new();
    let mut at: usize = 0;
    let n: usize = bytes.len();
    loop
        invariant_except_break
            at <= n == bytes@.len(),
            at == 2 * words@.len(),
            words@ =~= words_of(bytes@).take(words@.len() as int),
        ensures
            words@ == words_of(bytes@),
        decreases bytes@.len() - at,
    {
        match read_u16(bytes, at) {
            Some(w) => {
                words.push(w);
                at = at + 2;
            },
            None => {
                assert(words_of(bytes@).take(words@.len() as int) =~= words_of(bytes@));
                break;
            },
        }
    }
    words
}

/// Words as bytes.
pub fn registers_to_bytes(registers: &[u16]) -> (r: Vec<u8>)
    ensures
        r@ == bytes_of(registers@),
{
    let mut b: Vec<u8> = Vec::new();
    let mut i: usize = 0;
    while i < registers.len()
        invariant
            i <= registers@.len(),
            b@.len() == 2 * i,
            forall|k: int| 0 <= k < 2 * i ==> #[trigger] b@[k] == bytes_of(registers@)[k],
        decreases registers@.len() - i,
    {
        let w: u16 = registers[i];
        b.push((w / 0x100) as u8);
        b.push((w % 0x100) as u8);
        assert(2 * i / 2 == i);
        assert((2 * i + 1) / 2 == i);
        i = i + 1;
    }
    assert(b@ =~= bytes_of(registers@));
    b
}

/// The words that stand for a value in a PLC.
pub fn value_to_words(value: &TagValue) -> (r: Vec<u16>)
    ensures
        r@ == value_words(value@),
{
    match value {
        TagValue::Bool(b) => one_word(
            if *b {
                1
            } else {
                0
            },
        ),
        TagValue::UInt16(v) => one_word(*v),
        TagValue::Int16(v) => one_word(*v as u16),
        TagValue::UInt32(v) => u32_to_words(*v),
        TagValue::Int32(v) => u32_to_words(*v as u32),
        TagValue::Float(v) => u32_to_words(v.to_bits()),
        TagValue::Double(v) => u64_to_words(v.to_bits()),
        TagValue::UInt64(v) => u64_to_words(*v),
        TagValue::Int64(v) => u64_to_words(*v as u64),
        TagValue::DateTime(t) => u64_to_words(t.millis() as u64),
        TagValue::ByteString(b) => bytes_to_words(
            crate::core_model::tag_value::copy_bytes(b.as_slice()),
        ),
        TagValue::String(s) => bytes_to_words(s.as_str().as_bytes_vec()),
    }
}

// ---------------------------------------------------------------------------
// Calls into byteorder
// ---------------------------------------------------------------------------

/// `byteorder::ReadBytesExt::read_u16::<BigEndian>` from a cursor over `bytes` at `at`: the
/// number in the next two bytes, an error where fewer are left.
#[verifier::external_body]
pub(crate) fn read_u16(bytes: &[u8], at: usize) -> (r: Option<u16>)
    ensures
        r == (if at + 2 <= bytes@.len() {
            Some(u16_at(bytes@, at as int))
        } else {
            None
        }),
{
    let mut cursor = std::io::Cursor::new(bytes);
    cursor.set_position(at as u64);
    cursor.read_u16::<BigEndian>().ok()
}

/// `byteorder::ReadBytesExt::read_i16::<BigEndian>` from a cursor over `bytes`: the first two
/// bytes as a number in two's complement, an error where there are fewer.
#[verifier::external_body]
pub(crate) fn read_i16(bytes: &[u8]) -> (r: Option<i16>)
    ensures
        r == (if 2 <= bytes@.len() {
            Some(u16_at(bytes@, 0) as i16)
        } else {
            None
        }),
{
    std::io::Cursor::new(bytes).read_i16::<BigEndian>().ok()
}

/// `byteorder::ReadBytesExt::read_u32::<BigEndian>` from a cursor over `bytes`: the number in
/// the first four bytes, an error where there are fewer.
#[verifier::external_body]
pub(crate) fn read_u32(bytes: &[u8]) -> (r: Option<u32>)
    ensures
        r == (if 4 <= bytes@.len() {
            Some(u32_at(bytes@, 0))
        } else {
            None
        }),
{
    std::io::Cursor::new(bytes).read_u32::<BigEndian>().ok()
}

/// `byteorder::ReadBytesExt::read_i32::<BigEndian>` from a cursor over `bytes`: the first four
/// bytes as a number in two's complement, an error where there are fewer.
#[verifier::external_body]
pub(crate) fn read_i32(bytes: &[u8]) -> (r: Option<i32>)
    ensures
        r == (if 4 <= bytes@.len() {
            Some(u32_at(bytes@, 0) as i32)
        } else {
            None
        }),
{
    std::io::Cursor::new(bytes).read_i32::<BigEndian>().ok()
}

/// `byteorder::ReadBytesExt::read_u64::<BigEndian>` from a cursor over `bytes`: the number in
/// the first eight bytes, an error where there are fewer.
#[verifier::external_body]
pub(crate) fn read_u64(bytes: &[u8]) -> (r: Option<u64>)
    ensures
        r == (if 8 <= bytes@.len() {
            Some(u64_at(bytes@, 0))
        } else {
            None
        }),
{
    std::io::Cursor::new(bytes).read_u64::<BigEndian>().ok()
}

/// `byteorder::ReadBytesExt::read_i64::<BigEndian>` from a cursor over `bytes`: the first eight
/// bytes as a number in two's complement, an error where there are fewer.
#[verifier::external_body]
pub(crate) fn read_i64(bytes: &[u8]) -> (r: Option<i64>)
    ensures
        r == (if 8 <= bytes@.len() {
            Some(u64_at(bytes@, 0) as i64)
        } else {
            None
        }),
{
    std::io::Cursor::new(bytes).read_i64::<BigEndian>().ok()
}

/// `byteorder::WriteBytesExt::write_u16::<BigEndian>` into a vector: the two bytes of the
/// number are appended, which cannot fail.
#[verifier::external_body]
pub(crate) fn write_u16(bytes: &mut Vec<u8>, w: u16)
    ensures
        final(bytes)@ == old(bytes)@ + bytes_of(seq![w]),
{
    bytes.write_u16::<BigEndian>(w).unwrap_or(());
}

} // verus!
