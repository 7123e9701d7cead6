//! Values in FINS words.

use crate::core_model::tag_value::{
    copy_bytes, type_of, Float32, Float64, TagDataType, TagValue, TagValueView,
};
use crate::driver_common::words::{
    bytes_of, read_i16, read_i32, read_i64, read_u16, read_u32, read_u64, u16_at,
    u32_at, u64_at, value_to_words, value_words,
};
use crate::driver_fins::errors::{DriverError, DriverErrorView};
use crate::driver_modbus::codec::{
    bit_of, date_time_words, read_text, text_in, u64_words_in_bytes, words_are_decoded,
};
use crate::text;
use crate::time::{instant_at_millis, is_instant, Timestamp};
use vstd::prelude::*;
use vstd::string::*;
use vstd::utf8::*;

verus! {

/// The words that stand for a value.
pub fn tagvalue_to_words_standard(v: &TagValue) -> (r: Result<Vec<u16>, DriverError>)
    ensures
        r matches Ok(w) && w@ == value_words(v@),
{
    Ok(value_to_words(v))
}

/// The error that the bytes are too few for a data type.
pub open spec fn too_few(name: Seq<char>) -> Result<TagValueView, DriverErrorView> {
    Err(DriverErrorView::Protocol("Not enough data for "@ + name))
}

/// The value of a data type in bytes, or why they hold none.
///
/// A date and time is a number of milliseconds; one that is out of range is refused, and fewer
/// than eight bytes hold none.
pub open spec fn decoded(data_type: TagDataType, b: Seq<u8>, bit_offset: u8) -> Result<
    TagValueView,
    DriverErrorView,
> {
    let n = b.len();
    match data_type {
        TagDataType::Bool => if n < 2 {
            too_few("Bool"@)
        } else {
            Ok(TagValueView::Bool(bit_of(u16_at(b, 0), bit_offset)))
        },
        TagDataType::UInt16 => if n < 2 {
            too_few("UInt16"@)
        } else {
            Ok(TagValueView::UInt16(u16_at(b, 0)))
        },
        TagDataType::Int16 => if n < 2 {
            too_few("Int16"@)
        } else {
            Ok(TagValueView::Int16(u16_at(b, 0) as i16))
        },
        TagDataType::UInt32 => if n < 4 {
            too_few("UInt32"@)
        } else {
            Ok(TagValueView::UInt32(u32_at(b, 0)))
        },
        TagDataType::Int32 => if n < 4 {
            too_few("Int32"@)
        } else {
            Ok(TagValueView::Int32(u32_at(b, 0) as i32))
        },
        TagDataType::Float => if n < 4 {
            too_few("Float"@)
        } else {
            Ok(TagValueView::Float(u32_at(b, 0)))
        },
        TagDataType::Double => if n < 8 {
            too_few("Double"@)
        } else {
            Ok(TagValueView::Double(u64_at(b, 0)))
        },
        TagDataType::UInt64 => if n < 8 {
            too_few("UInt64"@)
        } else {
            Ok(TagValueView::UInt64(u64_at(b, 0)))
        },
        TagDataType::Int64 => if n < 8 {
            too_few("Int64"@)
        } else {
            Ok(TagValueView::Int64(u64_at(b, 0) as i64))
        },
        TagDataType::DateTime => if n >= 8 {
            match instant_at_millis(u64_at(b, 0) as int) {
                Some(t) => Ok(TagValueView::DateTime(t)),
                None => Err(DriverErrorView::Protocol("DateTime out of range"@)),
            }
        } else if valid_utf8(b) {
            Err(DriverErrorView::Protocol("Invalid DateTime format"@))
        } else {
            too_few("DateTime"@)
        },
        TagDataType::ByteString => Ok(TagValueView::ByteString(b)),
        TagDataType::String => Ok(TagValueView::String(text_in(b))),
    }
}

/// `r` is what `decoded` says.
pub open spec fn is_decoded(
    r: Result<TagValue, DriverError>,
    wanted: Result<TagValueView, DriverErrorView>,
) -> bool {
    match r {
        Ok(v) => wanted == Ok::<TagValueView, DriverErrorView>(v@),
        Err(e) => wanted == Err::<TagValueView, DriverErrorView>(e@),
    }
}

fn not_enough(name: &str) -> (r: Result<TagValue, DriverError>)
    ensures
        is_decoded(r, too_few(name@)),
{
    Err(DriverError::Protocol(text::join2("Not enough data for ", name)))
}

fn decode_date_time(bytes: &[u8]) -> (r: Result<TagValue, DriverError>)
    ensures
        is_decoded(r, decoded(TagDataType::DateTime, bytes@, 0)),
{
    if bytes.len() >= 8 {
        let ms: u64 = match read_u64(bytes) {
            Some(n) => n,
            None => 0,
        };
        if ms <= 0x7FFF_FFFF_FFFF_FFFF {
            match Timestamp::from_millis(ms as i64) {
                Some(t) => {
                    return Ok(TagValue::DateTime(t));
                },
                None => {},
            }
        }
        return Err(DriverError::protocol("DateTime out of range"));
    }
    match text::utf8_text(bytes) {
        Some(s) => {
            proof {
                decode_utf8_encode_utf8(bytes@);
            }
            match Timestamp::parse_rfc3339(s.as_str()) {
                Some(t) => Ok(TagValue::DateTime(t)),
                None => Err(DriverError::protocol("Invalid DateTime format")),
            }
        },
        None => not_enough("DateTime"),
    }
}

/// The value of a data type in bytes.
pub fn decode_value(data_type: TagDataType, bytes: &[u8], bit_offset: u8) -> (r: Result<
    TagValue,
    DriverError,
>)
    requires
        data_type == TagDataType::Bool ==> bit_offset < 16,
    ensures
        is_decoded(r, decoded(data_type, bytes@, bit_offset)),
{
    match data_type {
        TagDataType::Bool => match read_u16(bytes, 0) {
            Some(w) => Ok(TagValue::Bool((w >> (bit_offset as u16)) & 1 != 0)),
            None => not_enough("Bool"),
        },
        TagDataType::UInt16 => match read_u16(bytes, 0) {
            Some(v) => Ok(TagValue::UInt16(v)),
            None => not_enough("UInt16"),
        },
        TagDataType::Int16 => match read_i16(bytes) {
            Some(v) => Ok(TagValue::Int16(v)),
            None => not_enough("Int16"),
        },
        TagDataType::UInt32 => match read_u32(bytes) {
            Some(v) => Ok(TagValue::UInt32(v)),
            None => not_enough("UInt32"),
        },
        TagDataType::Int32 => match read_i32(bytes) {
            Some(v) => Ok(TagValue::Int32(v)),
            None => not_enough("Int32"),
        },
        TagDataType::Float => match read_u32(bytes) {
            Some(v) => Ok(TagValue::Float(Float32::from_bits(v))),
            None => not_enough("Float"),
        },
        TagDataType::Double => match read_u64(bytes) {
            Some(v) => Ok(TagValue::Double(Float64::from_bits(v))),
            None => not_enough("Double"),
        },
        TagDataType::UInt64 => match read_u64(bytes) {
            Some(v) => Ok(TagValue::UInt64(v)),
            None => not_enough("UInt64"),
        },
        TagDataType::Int64 => match read_i64(bytes) {
            Some(v) => Ok(TagValue::Int64(v)),
            None => not_enough("Int64"),
        },
        TagDataType::DateTime => decode_date_time(bytes),
        TagDataType::ByteString => Ok(TagValue::ByteString(copy_bytes(bytes))),
        TagDataType::String => Ok(TagValue::String(read_text(bytes))),
    }
}

/// The words that stand for a value are decoded to it, with the exceptions that padding and
/// unsigned whole milliseconds make.
pub proof fn words_are_decoded_back(value: TagValueView)
    requires
        match value {
            TagValueView::String(s) => s.len() > 0 ==> s.last() != '\0',
            TagValueView::ByteString(b) => b.len() % 2 == 0,
            TagValueView::DateTime(t) => {
                &&& is_instant(t.secs(), t.nanos())
                &&& t.secs() >= 0
                &&& t.nanos() < 1_000_000_000
                &&& t.nanos() % 1_000_000 == 0
            },
            _ => true,
        },
    ensures
        decoded(type_of(value), bytes_of(value_words(value)), 0) == Ok::<
            TagValueView,
            DriverErrorView,
        >(value),
{
    words_are_decoded(value);
    match value {
        TagValueView::DateTime(t) => {
            date_time_words(t);
        },
        TagValueView::Double(n) => {
            u64_words_in_bytes(n);
        },
        TagValueView::UInt64(n) => {
            u64_words_in_bytes(n);
        },
        TagValueView::Int64(n) => {
            u64_words_in_bytes(n as u64);
        },
        _ => {},
    }
}

} // verus!
