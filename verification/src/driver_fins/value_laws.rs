//! What the values of memory words are as numbers.

use crate::core_model::tag_value::{TagDataType, TagValueView};
use crate::driver_common::word_laws::bytes_make_up_numbers;
use crate::driver_common::words::{u16_at, u32_at, u64_at};
use crate::driver_fins::codec::decoded;
use crate::driver_fins::errors::DriverErrorView;
use crate::driver_modbus::value_laws::{bits_have_their_weight, signed_numbers};
use crate::text_laws::{hexadecimal_run, only_trailing_nuls_go};
use crate::time::millis_are_counted;
use vstd::arithmetic::power2::pow2;
use vstd::prelude::*;
use vstd::string::*;
use vstd::utf8::*;

verus! {

/// The number in word `k`: two bytes, the more significant one first.
pub open spec fn memory_word(b: Seq<u8>, k: int) -> int {
    b[2 * k] * 0x100 + b[2 * k + 1]
}

/// The number in the first two words.
pub open spec fn memory_pair(b: Seq<u8>) -> int {
    memory_word(b, 0) * 0x1_0000 + memory_word(b, 1)
}

/// The number in the first four words.
pub open spec fn four_memory_words(b: Seq<u8>) -> int {
    ((memory_word(b, 0) * 0x1_0000 + memory_word(b, 1)) * 0x1_0000 + memory_word(b, 2))
        * 0x1_0000 + memory_word(b, 3)
}

/// How many bytes a value of a data type takes, where it always takes the same.
pub open spec fn bytes_taken(data_type: TagDataType) -> int {
    match data_type {
        TagDataType::Bool | TagDataType::Int16 | TagDataType::UInt16 => 2,
        TagDataType::Int32 | TagDataType::UInt32 | TagDataType::Float => 4,
        TagDataType::Int64
        | TagDataType::UInt64
        | TagDataType::Double
        | TagDataType::DateTime => 8,
        TagDataType::String | TagDataType::ByteString => 0,
    }
}

/// A tag takes the number that its words make up, the most significant one first: one word of a
/// 16-bit number, two of a 32-bit number, four of a 64-bit number. Signed numbers are in two's
/// complement, and floating-point numbers are given by their bits.
pub proof fn words_are_decoded_as_numbers(data_type: TagDataType, b: Seq<u8>, bit_offset: u8)
    requires
        b.len() >= bytes_taken(data_type),
    ensures
        ({
            let r = decoded(data_type, b, bit_offset);
            match data_type {
                TagDataType::Bool => bit_offset < 16 ==> r == Ok::<TagValueView, DriverErrorView>(
                    TagValueView::Bool(
                        memory_word(b, 0) / pow2(bit_offset as nat) as int % 2 == 1,
                    ),
                ),
                TagDataType::UInt16 => r matches Ok(TagValueView::UInt16(n)) && n == memory_word(
                    b,
                    0,
                ),
                TagDataType::Int16 => r matches Ok(TagValueView::Int16(n)) && n as int % 0x1_0000
                    == memory_word(b, 0),
                TagDataType::UInt32 => r matches Ok(TagValueView::UInt32(n)) && n == memory_pair(
                    b,
                ),
                TagDataType::Int32 => r matches Ok(TagValueView::Int32(n)) && n as int
                    % 0x1_0000_0000 == memory_pair(b),
                TagDataType::Float => r matches Ok(TagValueView::Float(n)) && n == memory_pair(b),
                TagDataType::UInt64 => r matches Ok(TagValueView::UInt64(n)) && n
                    == four_memory_words(b),
                TagDataType::Int64 => r matches Ok(TagValueView::Int64(n)) && n as int
                    % 0x1_0000_0000_0000_0000 == four_memory_words(b),
                TagDataType::Double => r matches Ok(TagValueView::Double(n)) && n
                    == four_memory_words(b),
                TagDataType::ByteString => r == Ok::<TagValueView, DriverErrorView>(
                    TagValueView::ByteString(b),
                ),
                _ => true,
            }
        }),
{
    bytes_make_up_numbers(b, 0);
    signed_numbers(u16_at(b, 0), u32_at(b, 0), u64_at(b, 0));
    if bit_offset < 16 {
        bits_have_their_weight(u16_at(b, 0), bit_offset);
    }
}

/// Fewer bytes than a data type takes hold no value of it: the error is one of the protocol.
pub proof fn too_few_bytes_hold_no_value(data_type: TagDataType, b: Seq<u8>, bit_offset: u8)
    requires
        b.len() < bytes_taken(data_type),
    ensures
        decoded(data_type, b, bit_offset) matches Err(DriverErrorView::Protocol(_)),
{
}

/// A date and time is the number in four words of milliseconds since 1970-01-01 00:00:00 UTC,
/// and an error of the protocol where there is no instant so many milliseconds later.
pub proof fn words_are_decoded_as_times(b: Seq<u8>, bit_offset: u8)
    requires
        b.len() >= 8,
    ensures
        ({
            let r = decoded(TagDataType::DateTime, b, bit_offset);
            let ms = four_memory_words(b);
            &&& ms < 8210266876800 * 1000 ==> (r matches Ok(TagValueView::DateTime(t))
                && t.nanos() % 1_000_000 == 0 && t.secs() * 1000 + t.nanos() / 1_000_000 == ms)
            &&& ms >= 8210266876800 * 1000 ==> r == Err::<TagValueView, DriverErrorView>(
                DriverErrorView::Protocol("DateTime out of range"@),
            )
        }),
{
    bytes_make_up_numbers(b, 0);
    assert(u64_at(b, 0) == four_memory_words(b));
    millis_are_counted(u64_at(b, 0) as int);
}

/// A text is the characters that the bytes are the UTF-8 of, without the NUL characters at the
/// end and with every other one.
pub proof fn words_are_decoded_as_text(b: Seq<u8>, bit_offset: u8)
    requires
        valid_utf8(b),
    ensures
        decoded(TagDataType::String, b, bit_offset) matches Ok(TagValueView::String(t)) && {
            &&& t.len() <= decode_utf8(b).len()
            &&& t == decode_utf8(b).take(t.len() as int)
            &&& forall|i: int|
                t.len() <= i < decode_utf8(b).len() ==> #[trigger] decode_utf8(b)[i] == '\0'
            &&& t.len() > 0 ==> t.last() != '\0'
        },
{
    only_trailing_nuls_go(decode_utf8(b));
}

/// Bytes that are not UTF-8 make a text of their hexadecimal digits, two for each byte.
pub proof fn other_words_are_decoded_as_digits(b: Seq<u8>, bit_offset: u8, k: int)
    requires
        !valid_utf8(b),
        0 <= k < b.len(),
    ensures
        decoded(TagDataType::String, b, bit_offset) matches Ok(TagValueView::String(t)) && {
            &&& t.len() == 2 * b.len()
            &&& t[2 * k] == "0123456789ABCDEF"@[b[k] as int / 16]
            &&& t[2 * k + 1] == "0123456789ABCDEF"@[b[k] as int % 16]
        },
{
    hexadecimal_run(b, k);
}

/// What is told of too few bytes names the data type, but for a time whose bytes are a text.
pub proof fn too_few_bytes_are_told(data_type: TagDataType, b: Seq<u8>, bit_offset: u8)
    requires
        b.len() < bytes_taken(data_type),
    ensures
        decoded(data_type, b, bit_offset) == Err::<TagValueView, DriverErrorView>(
            DriverErrorView::Protocol(
                match data_type {
                    TagDataType::Bool => "Not enough data for "@ + "Bool"@,
                    TagDataType::UInt16 => "Not enough data for "@ + "UInt16"@,
                    TagDataType::Int16 => "Not enough data for "@ + "Int16"@,
                    TagDataType::UInt32 => "Not enough data for "@ + "UInt32"@,
                    TagDataType::Int32 => "Not enough data for "@ + "Int32"@,
                    TagDataType::Float => "Not enough data for "@ + "Float"@,
                    TagDataType::UInt64 => "Not enough data for "@ + "UInt64"@,
                    TagDataType::Int64 => "Not enough data for "@ + "Int64"@,
                    TagDataType::Double => "Not enough data for "@ + "Double"@,
                    _ => if valid_utf8(b) {
                        "Invalid DateTime format"@
                    } else {
                        "Not enough data for "@ + "DateTime"@
                    },
                },
            ),
        ),
{
}

} // verus!
