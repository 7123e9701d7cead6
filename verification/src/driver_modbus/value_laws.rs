//! What the values of registers are as numbers.

use crate::core_model::tag_value::{TagDataType, TagValueView};
use crate::driver_modbus::codec::{bit_of, decoded, four_words, two_words, word};
use crate::driver_modbus::errors::DriverErrorView;
use crate::text_laws::{hexadecimal_run, only_trailing_nuls_go};
use crate::time::millis_are_counted;
use vstd::arithmetic::power2::pow2;
use vstd::prelude::*;
use vstd::string::*;
use vstd::utf8::*;

verus! {

/// The number in register `k`: two bytes, the more significant one first. A register that is not
/// there counts as zero.
pub open spec fn register(b: Seq<u8>, k: int) -> int {
    if 2 * k + 1 < b.len() {
        b[2 * k] * 0x100 + b[2 * k + 1]
    } else {
        0
    }
}

/// The number in the first two registers.
pub open spec fn register_pair(b: Seq<u8>) -> int {
    register(b, 0) * 0x1_0000 + register(b, 1)
}

/// The number in the first four registers.
pub open spec fn four_registers(b: Seq<u8>) -> int {
    ((register(b, 0) * 0x1_0000 + register(b, 1)) * 0x1_0000 + register(b, 2)) * 0x1_0000
        + register(b, 3)
}

/// A bit of a number says whether the number without the bits below it is odd.
pub proof fn bits_have_their_weight(w: u16, n: u8)
    requires
        n < 16,
    ensures
        bit_of(w, n) <==> w as int / pow2(n as nat) as int % 2 == 1,
{
    vstd::bits::lemma_u16_shr_is_div(w, n as u16);
    let x = w >> (n as u16);
    assert(x & 1 == x % 2) by (bit_vector);
}

proof fn registers_agree(b: Seq<u8>)
    ensures
        word(b, 0) == register(b, 0),
        word(b, 1) == register(b, 1),
        word(b, 2) == register(b, 2),
        word(b, 3) == register(b, 3),
        two_words(b) == register_pair(b),
        four_words(b) == four_registers(b),
{
    assert(0 <= register(b, 0) < 0x1_0000);
    assert(0 <= register(b, 1) < 0x1_0000);
    assert(0 <= register(b, 2) < 0x1_0000);
    assert(0 <= register(b, 3) < 0x1_0000);
}

/// The signed numbers of 16, 32 and 64 bits in two's complement.
pub proof fn signed_numbers(a: u16, b: u32, c: u64)
    ensures
        (a as i16) as int % 0x1_0000 == a,
        (b as i32) as int % 0x1_0000_0000 == b,
        (c as i64) as int % 0x1_0000_0000_0000_0000 == c,
{
    assert(a >= 0x8000 ==> (a as i16) as i32 == (a as i32) - 0x1_0000) by (bit_vector);
    assert(b >= 0x8000_0000 ==> (b as i32) as i64 == (b as i64) - 0x1_0000_0000) by (bit_vector);
    assert(c >= 0x8000_0000_0000_0000 ==> (c as i64) as i128 == (c as i128)
        - 0x1_0000_0000_0000_0000) by (bit_vector);
}

/// A tag takes the number that its registers make up, the most significant one first: one
/// register of a 16-bit number, two of a 32-bit number, four of a 64-bit number. Signed numbers
/// are in two's complement, and floating-point numbers are given by their bits.
pub proof fn registers_are_decoded_as_numbers(data_type: TagDataType, b: Seq<u8>, bit_offset: u8)
    ensures
        ({
            let r = decoded(data_type, b, bit_offset);
            match data_type {
                TagDataType::Bool => bit_offset < 16 ==> r == Ok::<TagValueView, DriverErrorView>(
                    TagValueView::Bool(
                        register(b, 0) / pow2(bit_offset as nat) as int % 2 == 1,
                    ),
                ),
                TagDataType::UInt16 => r matches Ok(TagValueView::UInt16(n)) && n == register(
                    b,
                    0,
                ),
                TagDataType::Int16 => r matches Ok(TagValueView::Int16(n)) && n as int % 0x1_0000
                    == register(b, 0),
                TagDataType::UInt32 => r matches Ok(TagValueView::UInt32(n)) && n
                    == register_pair(b),
                TagDataType::Int32 => r matches Ok(TagValueView::Int32(n)) && n as int
                    % 0x1_0000_0000 == register_pair(b),
                TagDataType::Float => r matches Ok(TagValueView::Float(n)) && n == register_pair(
                    b,
                ),
                TagDataType::UInt64 => r matches Ok(TagValueView::UInt64(n)) && n
                    == four_registers(b),
                TagDataType::Int64 => r matches Ok(TagValueView::Int64(n)) && n as int
                    % 0x1_0000_0000_0000_0000 == four_registers(b),
                TagDataType::Double => r matches Ok(TagValueView::Double(n)) && n
                    == four_registers(b),
                TagDataType::ByteString => r == Ok::<TagValueView, DriverErrorView>(
                    TagValueView::ByteString(b),
                ),
                _ => true,
            }
        }),
{
    registers_agree(b);
    signed_numbers(word(b, 0), two_words(b), four_words(b));
    if bit_offset < 16 {
        bits_have_their_weight(word(b, 0), bit_offset);
    }
}

/// A date and time is the number in four registers, in two's complement, of milliseconds since
/// 1970-01-01 00:00:00 UTC; it is that instant itself where there is none so many milliseconds
/// away, and an error where there are fewer than four registers.
pub proof fn registers_are_decoded_as_times(b: Seq<u8>, bit_offset: u8, ms: int)
    requires
        -0x8000_0000_0000_0000 <= ms < 0x8000_0000_0000_0000,
        ms % 0x1_0000_0000_0000_0000 == four_registers(b),
    ensures
        ({
            let r = decoded(TagDataType::DateTime, b, bit_offset);
            &&& b.len() < 8 ==> r is Err
            &&& b.len() >= 8 ==> (r matches Ok(TagValueView::DateTime(t)) && {
                &&& t.nanos() % 1_000_000 == 0
                &&& -8334601228800 * 1000 <= ms < 8210266876800 * 1000 ==> t.secs() * 1000
                    + t.nanos() / 1_000_000 == ms
                &&& !(-8334601228800 * 1000 <= ms < 8210266876800 * 1000) ==> t.secs() == 0
                    && t.nanos() == 0
            })
        }),
{
    registers_agree(b);
    if b.len() >= 8 {
        let n = crate::driver_common::words::u64_at(b, 0);
        crate::driver_common::word_laws::bytes_make_up_numbers(b, 0);
        assert(n == four_registers(b));
        signed_numbers(0, 0, n);
        let s = (n as i64) as int;
        assert(s == ms);
        millis_are_counted(ms);
    }
}

/// A text is the characters that the bytes are the UTF-8 of, without the NUL characters at the
/// end and with every other one.
pub proof fn registers_are_decoded_as_text(b: Seq<u8>, bit_offset: u8)
    requires
        valid_utf8(b),
    ensures
        decoded(TagDataType::String, b, bit_offset) matches Ok(TagValueView::String(t)) && {
            &&& t.len() <= decode_utf8(b).len()
            &&& t == decode_utf8(b).take(t.len() as int)
            &&& forall|i: int|
                t.len() <= i < decode_utf8(b).len() ==> #[trigger] decode_utf8(b)[i] == '\0'
            &&& t.len() > 0 ==> t.last() != '\0'
        },
{
    only_trailing_nuls_go(decode_utf8(b));
}

/// Bytes that are not UTF-8 make a text of their hexadecimal digits, two for each byte.
pub proof fn other_registers_are_decoded_as_digits(b: Seq<u8>, bit_offset: u8, k: int)
    requires
        !valid_utf8(b),
        0 <= k < b.len(),
    ensures
        decoded(TagDataType::String, b, bit_offset) matches Ok(TagValueView::String(t)) && {
            &&& t.len() == 2 * b.len()
            &&& t[2 * k] == "0123456789ABCDEF"@[b[k] as int / 16]
            &&& t[2 * k + 1] == "0123456789ABCDEF"@[b[k] as int % 16]
        },
{
    hexadecimal_run(b, k);
}

} // verus!
