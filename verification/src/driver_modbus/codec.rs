//! Values in Modbus registers.

use crate::core_model::tag_value::{
    copy_bytes, type_of, Float32, Float64, TagDataType, TagValue, TagValueView,
};
use crate::driver_common::words::{
    bytes_come_back, bytes_of, padded, read_i64, read_u16, u16_at, u32_words, u64_at, u64_words,
    value_to_words, value_words, words_come_back, words_of,
};
use crate::driver_modbus::errors::{DriverError, DriverErrorView};
use crate::driver_modbus::mapping::ModbusFunction;
use crate::text;
use crate::time::{
    epoch, instant_at_millis, instants_come_back_from_millis, is_instant, millis_of, Timestamp,
};
use vstd::prelude::*;
use vstd::string::*;
use vstd::utf8::*;

verus! {

/// The registers that stand for a value in a write.
pub fn tagvalue_to_registers(value: &TagValue) -> (r: Result<Vec<u16>, DriverError>)
    ensures
        match r {
            Ok(words) => words@ == value_words(value@),
            Err(_) => false,
        },
{
    Ok(value_to_words(value))
}

/// Word `k` of the bytes, zero where they end before it.
pub open spec fn word(b: Seq<u8>, k: int) -> u16 {
    if 2 * k + 2 <= b.len() {
        u16_at(b, 2 * k)
    } else {
        0
    }
}

/// The number in the first two words.
pub open spec fn two_words(b: Seq<u8>) -> u32 {
    (word(b, 0) * 0x1_0000 + word(b, 1)) as u32
}

/// The number in the first four words.
pub open spec fn four_words(b: Seq<u8>) -> u64 {
    (word(b, 0) * 0x1_0000_0000_0000 + word(b, 1) * 0x1_0000_0000 + word(b, 2) * 0x1_0000 + word(
        b,
        3,
    )) as u64
}

/// Bit `n` of a word.
pub open spec fn bit_of(w: u16, n: u8) -> bool {
    (w >> (n as u16)) & 1 != 0
}

/// The text in bytes: UTF-8 without trailing NUL characters, or else the bytes in hexadecimal.
pub open spec fn text_in(b: Seq<u8>) -> Seq<char> {
    if valid_utf8(b) {
        text::without_trailing_nuls(decode_utf8(b))
    } else {
        text::hex_upper_run(b)
    }
}

/// The value of a data type in bytes.
///
/// Words that are missing count as zero. A date and time is a number of milliseconds; one that
/// is out of range counts as 1970-01-01, and fewer than eight bytes hold none.
pub open spec fn decoded(data_type: TagDataType, b: Seq<u8>, bit_offset: u8) -> Result<
    TagValueView,
    DriverErrorView,
> {
    match data_type {
        TagDataType::Bool => Ok(TagValueView::Bool(bit_of(word(b, 0), bit_offset))),
        TagDataType::UInt16 => Ok(TagValueView::UInt16(word(b, 0))),
        TagDataType::Int16 => Ok(TagValueView::Int16(word(b, 0) as i16)),
        TagDataType::UInt32 => Ok(TagValueView::UInt32(two_words(b))),
        TagDataType::Int32 => Ok(TagValueView::Int32(two_words(b) as i32)),
        TagDataType::Float => Ok(TagValueView::Float(two_words(b))),
        TagDataType::Double => Ok(TagValueView::Double(four_words(b))),
        TagDataType::Int64 => Ok(TagValueView::Int64(four_words(b) as i64)),
        TagDataType::UInt64 => Ok(TagValueView::UInt64(four_words(b))),
        TagDataType::DateTime => if b.len() >= 8 {
            Ok(
                TagValueView::DateTime(
                    match instant_at_millis(u64_at(b, 0) as i64 as int) {
                        Some(t) => t,
                        None => epoch(),
                    },
                ),
            )
        } else if valid_utf8(b) {
            Err(DriverErrorView::Other("Invalid DateTime format"@))
        } else {
            Err(DriverErrorView::Other("Not enough data for DateTime and not valid UTF-8"@))
        },
        TagDataType::ByteString => Ok(TagValueView::ByteString(b)),
        TagDataType::String => Ok(TagValueView::String(text_in(b))),
    }
}

fn word_or_zero(bytes: &[u8], at: usize) -> (r: u16)
    requires
        at % 2 == 0,
    ensures
        r == word(bytes@, at as int / 2),
{
    match read_u16(bytes, at) {
        Some(w) => w,
        None => 0,
    }
}

fn read_two_words(bytes: &[u8]) -> (r: u32)
    ensures
        r == two_words(bytes@),
{
    let hi: u32 = word_or_zero(bytes, 0) as u32;
    let lo: u32 = word_or_zero(bytes, 2) as u32;
    hi * 0x1_0000 + lo
}

fn read_four_words(bytes: &[u8]) -> (r: u64)
    ensures
        r == four_words(bytes@),
{
    let w0: u64 = word_or_zero(bytes, 0) as u64;
    let w1: u64 = word_or_zero(bytes, 2) as u64;
    let w2: u64 = word_or_zero(bytes, 4) as u64;
    let w3: u64 = word_or_zero(bytes, 6) as u64;
    w0 * 0x1_0000_0000_0000 + w1 * 0x1_0000_0000 + w2 * 0x1_0000 + w3
}

/// The text in bytes.
pub fn read_text(bytes: &[u8]) -> (r: String)
    ensures
        r@ == text_in(bytes@),
{
    match text::utf8_text(bytes) {
        Some(s) => text::strip_trailing_nuls(s.as_str()),
        None => text::to_hex_upper_run(bytes),
    }
}

fn read_date_time(bytes: &[u8]) -> (r: Result<TagValue, DriverError>)
    ensures
        match r {
            Ok(v) => decoded(TagDataType::DateTime, bytes@, 0) == Ok::<
                TagValueView,
                DriverErrorView,
            >(v@),
            Err(e) => decoded(TagDataType::DateTime, bytes@, 0) == Err::<
                TagValueView,
                DriverErrorView,
            >(e@),
        },
{
    if bytes.len() >= 8 {
        let ms: i64 = match read_i64(bytes) {
            Some(n) => n,
            None => 0,
        };
        let t = match Timestamp::from_millis(ms) {
            Some(t) => t,
            None => Timestamp::unix_epoch(),
        };
        Ok(TagValue::DateTime(t))
    } else {
        let s = match text::utf8_text(bytes) {
            Some(s) => s,
            None => {
                return Err(
                    DriverError::other("Not enough data for DateTime and not valid UTF-8"),
                );
            },
        };
        proof {
            decode_utf8_encode_utf8(bytes@);
        }
        match Timestamp::parse_rfc3339(s.as_str()) {
            Some(t) => Ok(TagValue::DateTime(t)),
            None => Err(DriverError::other("Invalid DateTime format")),
        }
    }
}

/// Decode raw bytes into a value of the declared data type.
pub fn decode_bytes_to_tagvalue(
    data_type: &TagDataType,
    bytes: &[u8],
    _function: &ModbusFunction,
    bit_offset: u8,
) -> (r: Result<TagValue, DriverError>)
    requires
        *data_type == TagDataType::Bool ==> bit_offset < 16,
    ensures
        match r {
            Ok(v) => decoded(*data_type, bytes@, bit_offset) == Ok::<
                TagValueView,
                DriverErrorView,
            >(v@),
            Err(e) => decoded(*data_type, bytes@, bit_offset) == Err::<
                TagValueView,
                DriverErrorView,
            >(e@),
        },
{
    match data_type {
        TagDataType::Bool => {
            let w: u16 = word_or_zero(bytes, 0);
            Ok(TagValue::Bool((w >> (bit_offset as u16)) & 1 != 0))
        },
        TagDataType::UInt16 => Ok(TagValue::UInt16(word_or_zero(bytes, 0))),
        TagDataType::Int16 => Ok(TagValue::Int16(word_or_zero(bytes, 0) as i16)),
        TagDataType::UInt32 => Ok(TagValue::UInt32(read_two_words(bytes))),
        TagDataType::Int32 => Ok(TagValue::Int32(read_two_words(bytes) as i32)),
        TagDataType::Float => Ok(TagValue::Float(Float32::from_bits(read_two_words(bytes)))),
        TagDataType::Double => Ok(TagValue::Double(Float64::from_bits(read_four_words(bytes)))),
        TagDataType::Int64 => Ok(TagValue::Int64(read_four_words(bytes) as i64)),
        TagDataType::UInt64 => Ok(TagValue::UInt64(read_four_words(bytes))),
        TagDataType::DateTime => read_date_time(bytes),
        TagDataType::ByteString => Ok(TagValue::ByteString(copy_bytes(bytes))),
        TagDataType::String => Ok(TagValue::String(read_text(bytes))),
    }
}

// ---------------------------------------------------------------------------
// Coding and decoding
// ---------------------------------------------------------------------------

proof fn encoding_of_concatenation(a: Seq<char>, b: Seq<char>)
    ensures
        encode_utf8(a + b) == encode_utf8(a) + encode_utf8(b),
    decreases a.len(),
{
    if a.len() == 0 {
        assert(a + b =~= b);
        assert(encode_utf8(a) + encode_utf8(b) =~= encode_utf8(b));
    } else {
        assert((a + b).drop_first() =~= a.drop_first() + b);
        encoding_of_concatenation(a.drop_first(), b);
        assert(encode_utf8(a + b) =~= encode_utf8(a) + encode_utf8(b));
    }
}

/// A text that does not end in NUL is in its bytes, padded or not.
pub proof fn padded_text_is_read_back(s: Seq<char>)
    requires
        s.len() > 0 ==> s.last() != '\0',
    ensures
        text_in(padded(encode_utf8(s))) == s,
{
    let b = encode_utf8(s);
    encode_utf8_valid_utf8(s);
    encode_utf8_decode_utf8(s);
    if b.len() % 2 != 0 {
        let nul = seq!['\0'];
        encoding_of_concatenation(s, nul);
        assert(encode_utf8(nul) =~= seq![0u8]) by {
            assert(nul.drop_first() =~= Seq::<char>::empty());
            let z = nul[0] as u32;
            assert(z == 0);
            assert(leading_byte_width_1(0) == 0u8) by {
                assert((0u32 & 0x7F) as u8 == 0u8) by (bit_vector);
            }
            assert(encode_scalar(z) =~= seq![0u8]);
            assert(encode_utf8(nul.drop_first()) =~= Seq::<u8>::empty());
        }
        assert(padded(b) =~= encode_utf8(s + nul));
        encode_utf8_valid_utf8(s + nul);
        encode_utf8_decode_utf8(s + nul);
        assert((s + nul).drop_last() =~= s);
        assert((s + nul).last() == '\0');
        assert(text::without_trailing_nuls(s) == s);
        assert(text::without_trailing_nuls(s + nul) == text::without_trailing_nuls(s));
    }
}

proof fn words_in_bytes(words: Seq<u16>, k: int)
    requires
        0 <= k < words.len(),
    ensures
        word(bytes_of(words), k) == words[k],
        u16_at(bytes_of(words), 2 * k) == words[k],
{
    words_come_back(words);
    assert(words_of(bytes_of(words))[k] == words[k]);
}

/// The words that stand for a value are decoded to it, with the exceptions that padding and
/// whole milliseconds make.
pub proof fn words_are_decoded(value: TagValueView)
    requires
        match value {
            TagValueView::String(s) => s.len() > 0 ==> s.last() != '\0',
            TagValueView::ByteString(b) => b.len() % 2 == 0,
            TagValueView::DateTime(t) => {
                &&& is_instant(t.secs(), t.nanos())
                &&& t.nanos() < 1_000_000_000
                &&& t.nanos() % 1_000_000 == 0
            },
            _ => true,
        },
    ensures
        decoded(type_of(value), bytes_of(value_words(value)), 0) == Ok::<
            TagValueView,
            DriverErrorView,
        >(value),
{
    let words = value_words(value);
    let b = bytes_of(words);
    match value {
        TagValueView::Bool(x) => {
            words_in_bytes(words, 0);
            assert((1u16 >> 0u16) & 1 != 0) by (bit_vector);
            assert((0u16 >> 0u16) & 1 == 0) by (bit_vector);
        },
        TagValueView::UInt16(_) => {
            words_in_bytes(words, 0);
        },
        TagValueView::Int16(n) => {
            words_in_bytes(words, 0);
            assert((n as u16) as i16 == n) by (bit_vector);
        },
        TagValueView::UInt32(n) => {
            two_words_come_back(n);
        },
        TagValueView::Float(n) => {
            two_words_come_back(n);
        },
        TagValueView::Int32(n) => {
            two_words_come_back(n as u32);
            assert((n as u32) as i32 == n) by (bit_vector);
        },
        TagValueView::Double(n) => {
            u64_words_in_bytes(n);
        },
        TagValueView::UInt64(n) => {
            u64_words_in_bytes(n);
        },
        TagValueView::Int64(n) => {
            u64_words_in_bytes(n as u64);
            assert((n as u64) as i64 == n) by (bit_vector);
        },
        TagValueView::DateTime(t) => {
            let ms = millis_of(t) as i64;
            assert(ms == millis_of(t));
            u64_words_in_bytes(ms as u64);
            assert((ms as u64) as i64 == ms) by (bit_vector);
            instants_come_back_from_millis(t);
        },
        TagValueView::ByteString(s) => {
            bytes_come_back(s);
        },
        TagValueView::String(s) => {
            bytes_come_back(padded(encode_utf8(s)));
            padded_text_is_read_back(s);
        },
    }
}

proof fn two_words_come_back(n: u32)
    ensures
        two_words(bytes_of(u32_words(n))) == n,
{
    words_in_bytes(u32_words(n), 0);
    words_in_bytes(u32_words(n), 1);
}

proof fn number_from_its_words(n: u64)
    ensures
        ({
            let a = n as int / 0x1_0000_0000_0000;
            let b = n as int / 0x1_0000_0000 % 0x1_0000;
            let c = n as int / 0x1_0000 % 0x1_0000;
            let d = n as int % 0x1_0000;
            &&& 0 <= a < 0x1_0000
            &&& (a * 0x1_0000 + b) * 0x1_0000_0000 + (c * 0x1_0000 + d) == n
        }),
{
    let x = n as int;
    let h = x / 0x1_0000;
    assert(x == h * 0x1_0000 + x % 0x1_0000);
    let g = h / 0x1_0000;
    assert(h == g * 0x1_0000 + h % 0x1_0000);
    assert(g == x / 0x1_0000_0000);
    let f = g / 0x1_0000;
    assert(g == f * 0x1_0000 + g % 0x1_0000);
    assert(f == x / 0x1_0000_0000_0000);
}

/// The four words of a number make it up, read word by word or at once.
pub proof fn u64_words_in_bytes(n: u64)
    ensures
        four_words(bytes_of(u64_words(n))) == n,
        u64_at(bytes_of(u64_words(n)), 0) == n,
        bytes_of(u64_words(n)).len() == 8,
{
    let words = u64_words(n);
    let b = bytes_of(words);
    number_from_its_words(n);
    words_in_bytes(words, 0);
    words_in_bytes(words, 1);
    words_in_bytes(words, 2);
    words_in_bytes(words, 3);
    assert(words[0] == n as int / 0x1_0000_0000_0000);
    assert(words[1] == n as int / 0x1_0000_0000 % 0x1_0000);
    assert(words[2] == n as int / 0x1_0000 % 0x1_0000);
    assert(words[3] == n as int % 0x1_0000);
    assert(u64_at(b, 0) == (words[0] * 0x1_0000 + words[1]) * 0x1_0000_0000 + (words[2] * 0x1_0000
        + words[3]));
}

/// The words of an instant from 1970 on are its milliseconds.
pub proof fn date_time_words(t: Timestamp)
    requires
        is_instant(t.secs(), t.nanos()),
        t.secs() >= 0,
        t.nanos() < 1_000_000_000,
        t.nanos() % 1_000_000 == 0,
    ensures
        u64_at(bytes_of(value_words(TagValueView::DateTime(t))), 0) == millis_of(t),
        instant_at_millis(millis_of(t)) == Some(t),
{
    let ms = millis_of(t) as i64;
    assert(ms == millis_of(t) && ms >= 0);
    u64_words_in_bytes(ms as u64);
    instants_come_back_from_millis(t);
}

} // verus!
