//! What the protocol drivers share: byte order, 16-bit words, read planning, health events
//! and write confirmation.

use crate::core_model::tag_value::{reordered, TagValueView, WordOrder};
use crate::driver_common::words::{
    bytes_of, registers_to_bytes, split_words, value_words, words_of,
};
use vstd::prelude::*;

pub mod health;
pub mod plan;
pub mod word_laws;
pub mod words;
pub mod write_request;

verus! {

/// Apply the configured byte order to a buffer, and give the buffer back.
pub fn apply_byte_order(bytes: Vec<u8>, order: &WordOrder) -> (r: Vec<u8>)
    ensures
        r@ == reordered(*order, bytes@),
{
    let mut buffer = bytes;
    order.apply_to_bytes(buffer.as_mut_slice());
    buffer
}

/// The words by which a value is written in a byte order.
pub open spec fn write_words(value: TagValueView, order: WordOrder) -> Seq<u16> {
    words_of(reordered(order, bytes_of(value_words(value))))
}

/// Words with their bytes in a byte order.
pub fn ordered_words(words: &[u16], order: &WordOrder) -> (r: Vec<u16>)
    ensures
        r@ == words_of(reordered(*order, bytes_of(words@))),
{
    let bytes = registers_to_bytes(words);
    let ordered = apply_byte_order(bytes, order);
    split_words(ordered.as_slice())
}

/// First wait between two attempts to connect, in seconds.
pub const FIRST_BACKOFF_SECS: u64 = 1;

/// The wait after a wait of `secs` seconds: twice as long, up to `max`.
pub open spec fn doubled_backoff(secs: u64, max: u64) -> u64 {
    let twice = if 2 * secs <= u64::MAX {
        2 * secs
    } else {
        u64::MAX as int
    };
    if twice <= max {
        twice as u64
    } else {
        max
    }
}

/// The wait after a wait of `secs` seconds: twice as long, up to `max`.
pub fn next_backoff(secs: u64, max: u64) -> (r: u64)
    ensures
        r == doubled_backoff(secs, max),
        r <= max,
{
    let twice: u64 = match secs.checked_mul(2) {
        Some(n) => n,
        None => u64::MAX,
    };
    if twice <= max {
        twice
    } else {
        max
    }
}

} // verus!
