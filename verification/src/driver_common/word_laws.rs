//! What the words of a value are as numbers and bytes.

use crate::core_model::order_laws::{
    badc_swaps_bytes_of_words, cdab_swaps_words_of_chunks, dcba_reverses_chunks,
    plain_order_keeps_bytes,
};
use crate::core_model::tag_value::{
    reordered, TagValueView, WordOrder,
};
use crate::driver_common::words::{
    bytes_of, u16_at, u32_at, u32_words, u64_at, u64_words, value_words,
};
use crate::driver_common::{doubled_backoff, write_words};
use crate::time::is_instant;
use vstd::prelude::*;
use vstd::utf8::*;

verus! {

/// The number that words make up, the most significant one first.
pub open spec fn words_number(w: Seq<u16>) -> int
    decreases w.len(),
{
    if w.len() == 0 {
        0
    } else {
        words_number(w.drop_last()) * 0x1_0000 + w.last()
    }
}

/// A word with its two bytes exchanged.
pub open spec fn exchanged(w: u16) -> int {
    w % 0x100 * 0x100 + w / 0x100
}

proof fn two_words_number(w: Seq<u16>)
    requires
        w.len() == 2,
    ensures
        words_number(w) == w[0] * 0x1_0000 + w[1],
{
    reveal_with_fuel(words_number, 4);
}

proof fn four_words_number(w: Seq<u16>)
    requires
        w.len() == 4,
    ensures
        words_number(w) == ((w[0] * 0x1_0000 + w[1]) * 0x1_0000 + w[2]) * 0x1_0000 + w[3],
{
    reveal_with_fuel(words_number, 6);
}

proof fn u32_words_number(n: u32)
    ensures
        words_number(u32_words(n)) == n,
{
    two_words_number(u32_words(n));
}

proof fn u64_words_number(n: u64)
    ensures
        words_number(u64_words(n)) == n,
{
    let w = u64_words(n);
    four_words_number(w);
    let x = n as int;
    let h = x / 0x1_0000;
    let g = h / 0x1_0000;
    let f = g / 0x1_0000;
    assert(x == h * 0x1_0000 + x % 0x1_0000);
    assert(h == g * 0x1_0000 + h % 0x1_0000);
    assert(g == f * 0x1_0000 + g % 0x1_0000);
    assert(g == x / 0x1_0000_0000);
    assert(f == x / 0x1_0000_0000_0000);
    assert(0 <= f < 0x1_0000);
    assert(w[0] == f && w[1] == g % 0x1_0000 && w[2] == h % 0x1_0000 && w[3] == x % 0x1_0000);
}

proof fn complement_of_i16(n: i16)
    ensures
        n as u16 == n as int % 0x1_0000,
{
    if n < 0 {
        assert((n as u16) as i32 == (n as i32) + 0x1_0000) by (bit_vector)
            requires
                n < 0,
        ;
    }
}

proof fn complement_of_i32(n: i32)
    ensures
        n as u32 == n as int % 0x1_0000_0000,
{
    if n < 0 {
        assert((n as u32) as i64 == (n as i64) + 0x1_0000_0000) by (bit_vector)
            requires
                n < 0,
        ;
    }
}

proof fn complement_of_i64(n: i64)
    ensures
        n as u64 == n as int % 0x1_0000_0000_0000_0000,
{
    if n < 0 {
        assert((n as u64) as i128 == (n as i128) + 0x1_0000_0000_0000_0000) by (bit_vector)
            requires
                n < 0,
        ;
    }
}

/// The words of a number make up the number, as many as it has bits for: sixteen bits make one
/// word, 32 bits two and 64 bits four. A negative number is in two's complement, a floating-point
/// number in its bits, and a boolean is 1 or 0.
pub proof fn words_make_up_the_number(v: TagValueView)
    requires
        v matches TagValueView::DateTime(t) ==> is_instant(t.secs(), t.nanos()),
    ensures
        ({
            let w = value_words(v);
            match v {
                TagValueView::Bool(b) => w.len() == 1 && w[0] == if b {
                    1int
                } else {
                    0
                },
                TagValueView::UInt16(n) => w.len() == 1 && w[0] == n,
                TagValueView::Int16(n) => w.len() == 1 && w[0] == n as int % 0x1_0000,
                TagValueView::UInt32(n) => w.len() == 2 && words_number(w) == n,
                TagValueView::Int32(n) => w.len() == 2 && words_number(w) == n as int
                    % 0x1_0000_0000,
                TagValueView::Float(n) => w.len() == 2 && words_number(w) == n,
                TagValueView::UInt64(n) => w.len() == 4 && words_number(w) == n,
                TagValueView::Int64(n) => w.len() == 4 && words_number(w) == n as int
                    % 0x1_0000_0000_0000_0000,
                TagValueView::Double(n) => w.len() == 4 && words_number(w) == n,
                TagValueView::DateTime(t) => w.len() == 4 && words_number(w) == (t.secs() * 1000
                    + t.nanos() / 1_000_000) % 0x1_0000_0000_0000_0000,
                _ => true,
            }
        }),
{
    match v {
        TagValueView::UInt32(n) => {
            u32_words_number(n);
        },
        TagValueView::Int16(n) => {
            complement_of_i16(n);
        },
        TagValueView::Int32(n) => {
            complement_of_i32(n);
            u32_words_number(n as u32);
        },
        TagValueView::Float(n) => {
            u32_words_number(n);
        },
        TagValueView::UInt64(n) => {
            u64_words_number(n);
        },
        TagValueView::Int64(n) => {
            complement_of_i64(n);
            u64_words_number(n as u64);
        },
        TagValueView::Double(n) => {
            u64_words_number(n);
        },
        TagValueView::DateTime(t) => {
            let ms = t.secs() * 1000 + t.nanos() / 1_000_000;
            complement_of_i64(ms as i64);
            u64_words_number(ms as i64 as u64);
        },
        _ => {},
    }
}

/// A byte string, or the UTF-8 bytes of a text, lie in the words two by two, the first of two in
/// the upper half; an odd number of bytes is followed by a zero.
pub proof fn words_hold_the_bytes(v: TagValueView, k: int)
    requires
        v is ByteString || v is String,
        0 <= k,
    ensures
        ({
            let w = value_words(v);
            let b = match v {
                TagValueView::ByteString(b) => b,
                TagValueView::String(s) => encode_utf8(s),
                _ => Seq::empty(),
            };
            &&& 2 * w.len() == b.len() || 2 * w.len() == b.len() + 1
            &&& 2 * k + 1 < b.len() ==> w[k] == b[2 * k] * 0x100 + b[2 * k + 1]
            &&& 2 * k + 1 == b.len() ==> w[k] == b[2 * k] * 0x100
        }),
{
}

/// In `ABCD` a value is written by its own words.
pub proof fn plain_words_are_written(v: TagValueView)
    ensures
        write_words(v, WordOrder::ABCD) == value_words(v),
{
    let w = value_words(v);
    plain_order_keeps_bytes(bytes_of(w));
    crate::driver_common::words::words_come_back(w);
}

proof fn written_word(v: TagValueView, order: WordOrder, k: int)
    requires
        0 <= k < value_words(v).len(),
    ensures
        write_words(v, order).len() == value_words(v).len(),
        write_words(v, order)[k] == reordered(order, bytes_of(value_words(v)))[2 * k] * 0x100
            + reordered(order, bytes_of(value_words(v)))[2 * k + 1],
        bytes_of(value_words(v))[2 * k] == value_words(v)[k] / 0x100,
        bytes_of(value_words(v))[2 * k + 1] == value_words(v)[k] % 0x100,
{
    assert((2 * k) / 2 == k && (2 * k) % 2 == 0);
    assert((2 * k + 1) / 2 == k && (2 * k + 1) % 2 == 1);
}

/// In `BADC` a value is written by its words with the bytes of each exchanged.
pub proof fn badc_words_are_written(v: TagValueView, k: int)
    requires
        0 <= k < value_words(v).len(),
    ensures
        write_words(v, WordOrder::BADC).len() == value_words(v).len(),
        write_words(v, WordOrder::BADC)[k] == exchanged(value_words(v)[k]),
{
    written_word(v, WordOrder::BADC, k);
    badc_swaps_bytes_of_words(bytes_of(value_words(v)), k);
}

/// In `CDAB` a value is written by its words, of each two the second one first; a single word at
/// the end stays.
pub proof fn cdab_words_are_written(v: TagValueView, k: int)
    requires
        0 <= k,
    ensures
        write_words(v, WordOrder::CDAB).len() == value_words(v).len(),
        2 * k + 1 < value_words(v).len() ==> {
            &&& write_words(v, WordOrder::CDAB)[2 * k] == value_words(v)[2 * k + 1]
            &&& write_words(v, WordOrder::CDAB)[2 * k + 1] == value_words(v)[2 * k]
        },
        2 * k + 1 == value_words(v).len() ==> write_words(v, WordOrder::CDAB)[2 * k]
            == value_words(v)[2 * k],
{
    let b = bytes_of(value_words(v));
    cdab_swaps_words_of_chunks(b, k);
    if 2 * k < value_words(v).len() {
        written_word(v, WordOrder::CDAB, 2 * k);
        assert(2 * (2 * k) == 4 * k);
    }
    if 2 * k + 1 < value_words(v).len() {
        written_word(v, WordOrder::CDAB, 2 * k + 1);
        assert(2 * (2 * k + 1) == 4 * k + 2);
    } else if 2 * k + 1 == value_words(v).len() {
        assert(b.len() == 4 * k + 2);
        let r = reordered(WordOrder::CDAB, b);
        assert(r[4 * k] == b[4 * k] && r[4 * k + 1] == b[4 * k + 1]);
    }
}

/// In `DCBA` a value is written by its words with their bytes exchanged, of each two the second
/// one first; a single word at the end stays where it is.
pub proof fn dcba_words_are_written(v: TagValueView, k: int)
    requires
        0 <= k,
    ensures
        write_words(v, WordOrder::DCBA).len() == value_words(v).len(),
        2 * k + 1 < value_words(v).len() ==> {
            &&& write_words(v, WordOrder::DCBA)[2 * k] == exchanged(value_words(v)[2 * k + 1])
            &&& write_words(v, WordOrder::DCBA)[2 * k + 1] == exchanged(value_words(v)[2 * k])
        },
        2 * k + 1 == value_words(v).len() ==> write_words(v, WordOrder::DCBA)[2 * k]
            == exchanged(value_words(v)[2 * k]),
{
    let b = bytes_of(value_words(v));
    dcba_reverses_chunks(b, k);
    if 2 * k < value_words(v).len() {
        written_word(v, WordOrder::DCBA, 2 * k);
        assert(2 * (2 * k) == 4 * k);
    }
    if 2 * k + 1 < value_words(v).len() {
        written_word(v, WordOrder::DCBA, 2 * k + 1);
        assert(2 * (2 * k + 1) == 4 * k + 2);
    }
}

/// Registers lie in bytes one after the other, the upper half of each first.
pub proof fn bytes_make_up_the_words(w: Seq<u16>, k: int)
    requires
        0 <= k < w.len(),
    ensures
        bytes_of(w).len() == 2 * w.len(),
        bytes_of(w)[2 * k] * 0x100 + bytes_of(w)[2 * k + 1] == w[k],
{
    assert((2 * k) / 2 == k && (2 * k) % 2 == 0);
    assert((2 * k + 1) / 2 == k && (2 * k + 1) % 2 == 1);
}

/// Numbers in bytes are what place value makes of them, the most significant byte first.
pub proof fn bytes_make_up_numbers(b: Seq<u8>, i: int)
    ensures
        u16_at(b, i) == b[i] * 0x100 + b[i + 1],
        u32_at(b, i) == ((b[i] * 0x100 + b[i + 1]) * 0x100 + b[i + 2]) * 0x100 + b[i + 3],
        u64_at(b, i) == ((((((b[i] * 0x100 + b[i + 1]) * 0x100 + b[i + 2]) * 0x100 + b[i + 3])
            * 0x100 + b[i + 4]) * 0x100 + b[i + 5]) * 0x100 + b[i + 6]) * 0x100 + b[i + 7],
{
    assert(u32_at(b, i) == u16_at(b, i) * 0x1_0000 + u16_at(b, i + 2));
    assert(u64_at(b, i) == u32_at(b, i) * 0x1_0000_0000 + u32_at(b, i + 4));
}

/// Waits between attempts double until they reach the longest one, and stay there.
pub proof fn waits_double_up_to_the_longest(secs: u64, max: u64)
    ensures
        2 * secs <= max ==> doubled_backoff(secs, max) == 2 * secs,
        2 * secs > max ==> doubled_backoff(secs, max) == max,
        doubled_backoff(max, max) == max,
{
}

} // verus!
