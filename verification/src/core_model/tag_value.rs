//! Runtime tag values, data type descriptors, byte ordering and quality states.

use crate::text;
use crate::time::{rfc3339_text, Timestamp};
use vstd::prelude::*;
use vstd::string::*;

verus! {

// ---------------------------------------------------------------------------
// Floating point values, held as their bits
// ---------------------------------------------------------------------------

/// An IEEE 754 single precision number, held as its 32 bits.
#[derive(Clone, Copy, Debug)]
pub struct Float32 {
    /// Sign, exponent and fraction.
    pub bits: u32,
}

/// An IEEE 754 double precision number, held as its 64 bits.
#[derive(Clone, Copy, Debug)]
pub struct Float64 {
    /// Sign, exponent and fraction.
    pub bits: u64,
}

/// The bits without the sign.
pub open spec fn magnitude32(bits: u32) -> int {
    bits as int % 0x8000_0000
}

/// The bits without the sign.
pub open spec fn magnitude64(bits: u64) -> int {
    bits as int % 0x8000_0000_0000_0000
}

/// Equality of single precision numbers: a NaN equals nothing, the two zeros are equal, and
/// any other number equals only itself.
pub open spec fn float32_equal(a: u32, b: u32) -> bool {
    &&& magnitude32(a) <= 0x7F80_0000
    &&& magnitude32(b) <= 0x7F80_0000
    &&& a == b || (magnitude32(a) == 0 && magnitude32(b) == 0)
}

/// Equality of double precision numbers: a NaN equals nothing, the two zeros are equal, and
/// any other number equals only itself.
pub open spec fn float64_equal(a: u64, b: u64) -> bool {
    &&& magnitude64(a) <= 0x7FF0_0000_0000_0000
    &&& magnitude64(b) <= 0x7FF0_0000_0000_0000
    &&& a == b || (magnitude64(a) == 0 && magnitude64(b) == 0)
}

impl Float32 {
    /// The number with these bits.
    pub fn from_bits(bits: u32) -> (r: Float32)
        ensures
            r.bits == bits,
    {
        Float32 { bits }
    }

    /// The bits of the number.
    pub fn to_bits(&self) -> (r: u32)
        ensures
            r == self.bits,
    {
        self.bits
    }
}

impl Float64 {
    /// The number with these bits.
    pub fn from_bits(bits: u64) -> (r: Float64)
        ensures
            r.bits == bits,
    {
        Float64 { bits }
    }

    /// The bits of the number.
    pub fn to_bits(&self) -> (r: u64)
        ensures
            r == self.bits,
    {
        self.bits
    }
}

impl PartialEq for Float32 {
    fn eq(&self, other: &Float32) -> (r: bool) {
        let a: u32 = self.bits % 0x8000_0000;
        let b: u32 = other.bits % 0x8000_0000;
        a <= 0x7F80_0000 && b <= 0x7F80_0000 && (self.bits == other.bits || (a == 0 && b == 0))
    }
}

impl vstd::std_specs::cmp::PartialEqSpecImpl for Float32 {
    open spec fn obeys_eq_spec() -> bool {
        true
    }

    open spec fn eq_spec(&self, other: &Float32) -> bool {
        float32_equal(self.bits, other.bits)
    }
}

impl PartialEq for Float64 {
    fn eq(&self, other: &Float64) -> (r: bool) {
        let a: u64 = self.bits % 0x8000_0000_0000_0000;
        let b: u64 = other.bits % 0x8000_0000_0000_0000;
        a <= 0x7FF0_0000_0000_0000 && b <= 0x7FF0_0000_0000_0000 && (self.bits == other.bits || (a
            == 0 && b == 0))
    }
}

impl vstd::std_specs::cmp::PartialEqSpecImpl for Float64 {
    open spec fn obeys_eq_spec() -> bool {
        true
    }

    open spec fn eq_spec(&self, other: &Float64) -> bool {
        float64_equal(self.bits, other.bits)
    }
}

// ---------------------------------------------------------------------------
// Tag values
// ---------------------------------------------------------------------------

/// Runtime value of a tag.
#[derive(Debug)]
pub enum TagValue {
    /// Boolean value.
    Bool(bool),
    /// Signed 16-bit integer.
    Int16(i16),
    /// Unsigned 16-bit integer.
    UInt16(u16),
    /// Signed 32-bit integer.
    Int32(i32),
    /// Unsigned 32-bit integer.
    UInt32(u32),
    /// Signed 64-bit integer.
    Int64(i64),
    /// Unsigned 64-bit integer.
    UInt64(u64),
    /// 32-bit floating point.
    Float(Float32),
    /// 64-bit floating point.
    Double(Float64),
    /// UTF-8 string.
    String(String),
    /// UTC date and time.
    DateTime(Timestamp),
    /// Raw byte sequence.
    ByteString(Vec<u8>),
}

/// What a [`TagValue`] holds.
#[verifier::ext_equal]
pub ghost enum TagValueView {
    Bool(bool),
    Int16(i16),
    UInt16(u16),
    Int32(i32),
    UInt32(u32),
    Int64(i64),
    UInt64(u64),
    Float(u32),
    Double(u64),
    String(Seq<char>),
    DateTime(Timestamp),
    ByteString(Seq<u8>),
}

/// Configuration-oriented type descriptor used in tag definitions.
#[derive(Clone, Copy, Debug, PartialEq, Eq, Structural)]
pub enum TagDataType {
    /// Boolean type.
    Bool,
    /// Signed 16-bit integer.
    Int16,
    /// Unsigned 16-bit integer.
    UInt16,
    /// Signed 32-bit integer.
    Int32,
    /// Unsigned 32-bit integer.
    UInt32,
    /// Signed 64-bit integer.
    Int64,
    /// Unsigned 64-bit integer.
    UInt64,
    /// 32-bit floating point.
    Float,
    /// 64-bit floating point.
    Double,
    /// UTF-8 string.
    String,
    /// UTC date and time.
    DateTime,
    /// Raw byte sequence.
    ByteString,
}

/// The data type that a value has.
pub open spec fn type_of(v: TagValueView) -> TagDataType {
    match v {
        TagValueView::Bool(_) => TagDataType::Bool,
        TagValueView::Int16(_) => TagDataType::Int16,
        TagValueView::UInt16(_) => TagDataType::UInt16,
        TagValueView::Int32(_) => TagDataType::Int32,
        TagValueView::UInt32(_) => TagDataType::UInt32,
        TagValueView::Int64(_) => TagDataType::Int64,
        TagValueView::UInt64(_) => TagDataType::UInt64,
        TagValueView::Float(_) => TagDataType::Float,
        TagValueView::Double(_) => TagDataType::Double,
        TagValueView::String(_) => TagDataType::String,
        TagValueView::DateTime(_) => TagDataType::DateTime,
        TagValueView::ByteString(_) => TagDataType::ByteString,
    }
}

/// Equality of values: floating point numbers by IEEE 754, any others by what they hold.
pub open spec fn values_equal(a: TagValueView, b: TagValueView) -> bool {
    match (a, b) {
        (TagValueView::Float(x), TagValueView::Float(y)) => float32_equal(x, y),
        (TagValueView::Double(x), TagValueView::Double(y)) => float64_equal(x, y),
        _ => a == b,
    }
}

impl View for TagValue {
    type V = TagValueView;

    open spec fn view(&self) -> TagValueView {
        match *self {
            TagValue::Bool(v) => TagValueView::Bool(v),
            TagValue::Int16(v) => TagValueView::Int16(v),
            TagValue::UInt16(v) => TagValueView::UInt16(v),
            TagValue::Int32(v) => TagValueView::Int32(v),
            TagValue::UInt32(v) => TagValueView::UInt32(v),
            TagValue::Int64(v) => TagValueView::Int64(v),
            TagValue::UInt64(v) => TagValueView::UInt64(v),
            TagValue::Float(v) => TagValueView::Float(v.bits),
            TagValue::Double(v) => TagValueView::Double(v.bits),
            TagValue::String(v) => TagValueView::String(v@),
            TagValue::DateTime(v) => TagValueView::DateTime(v),
            TagValue::ByteString(v) => TagValueView::ByteString(v@),
        }
    }
}

/// A copy of `bytes`.
pub(crate) fn copy_bytes(bytes: &[u8]) -> (r: Vec<u8>)
    ensures
        r@ == bytes@,
{
    let mut v: Vec<u8> = Vec::new();
    let mut i: usize = 0;
    while i < bytes.len()
        invariant
            i <= bytes.len(),
            v@ =~= bytes@.take(i as int),
        decreases bytes.len() - i,
    {
        v.push(bytes[i]);
        i = i + 1;
    }
    assert(bytes@.take(i as int) =~= bytes@);
    v
}

fn same_bytes(a: &Vec<u8>, b: &Vec<u8>) -> (r: bool)
    ensures
        r == (a@ == b@),
{
    if a.len() != b.len() {
        return false;
    }
    let mut i: usize = 0;
    while i < a.len()
        invariant
            i <= a.len(),
            a.len() == b.len(),
            forall|k: int| 0 <= k < i ==> a@[k] == b@[k],
        decreases a.len() - i,
    {
        if a[i] != b[i] {
            return false;
        }
        i = i + 1;
    }
    assert(a@ =~= b@);
    true
}

impl Clone for TagValue {
    fn clone(&self) -> (r: TagValue)
        ensures
            r@ == self@,
    {
        match self {
            TagValue::Bool(v) => TagValue::Bool(*v),
            TagValue::Int16(v) => TagValue::Int16(*v),
            TagValue::UInt16(v) => TagValue::UInt16(*v),
            TagValue::Int32(v) => TagValue::Int32(*v),
            TagValue::UInt32(v) => TagValue::UInt32(*v),
            TagValue::Int64(v) => TagValue::Int64(*v),
            TagValue::UInt64(v) => TagValue::UInt64(*v),
            TagValue::Float(v) => TagValue::Float(*v),
            TagValue::Double(v) => TagValue::Double(*v),
            TagValue::String(v) => TagValue::String(v.clone()),
            TagValue::DateTime(v) => TagValue::DateTime(*v),
            TagValue::ByteString(v) => TagValue::ByteString(copy_bytes(v.as_slice())),
        }
    }
}

impl PartialEq for TagValue {
    fn eq(&self, other: &TagValue) -> (r: bool) {
        match (self, other) {
            (TagValue::Bool(a), TagValue::Bool(b)) => *a == *b,
            (TagValue::Int16(a), TagValue::Int16(b)) => *a == *b,
            (TagValue::UInt16(a), TagValue::UInt16(b)) => *a == *b,
            (TagValue::Int32(a), TagValue::Int32(b)) => *a == *b,
            (TagValue::UInt32(a), TagValue::UInt32(b)) => *a == *b,
            (TagValue::Int64(a), TagValue::Int64(b)) => *a == *b,
            (TagValue::UInt64(a), TagValue::UInt64(b)) => *a == *b,
            (TagValue::Float(a), TagValue::Float(b)) => *a == *b,
            (TagValue::Double(a), TagValue::Double(b)) => *a == *b,
            (TagValue::String(a), TagValue::String(b)) => text::same(a.as_str(), b.as_str()),
            (TagValue::DateTime(a), TagValue::DateTime(b)) => *a == *b,
            (TagValue::ByteString(a), TagValue::ByteString(b)) => same_bytes(a, b),
            _ => false,
        }
    }
}

impl vstd::std_specs::cmp::PartialEqSpecImpl for TagValue {
    open spec fn obeys_eq_spec() -> bool {
        true
    }

    open spec fn eq_spec(&self, other: &TagValue) -> bool {
        values_equal(self@, other@)
    }
}

/// Bytes in the form `[0a, ff]`.
pub open spec fn bytes_listed(b: Seq<u8>) -> Seq<char> {
    "["@ + bytes_separated(b) + "]"@
}

/// Bytes as two-digit hexadecimal numbers, separated by a comma and a space.
pub open spec fn bytes_separated(b: Seq<u8>) -> Seq<char>
    decreases b.len(),
{
    if b.len() == 0 {
        Seq::empty()
    } else if b.len() == 1 {
        text::hex_lower_byte(b[0])
    } else {
        bytes_separated(b.drop_last()) + ", "@ + text::hex_lower_byte(b.last())
    }
}

/// A value as text; floating point numbers have none here.
pub open spec fn value_text(v: TagValueView) -> Option<Seq<char>> {
    match v {
        TagValueView::Bool(b) => Some(
            if b {
                "true"@
            } else {
                "false"@
            },
        ),
        TagValueView::Int16(n) => Some(text::signed_decimal(n as int)),
        TagValueView::UInt16(n) => Some(text::decimal(n as nat)),
        TagValueView::Int32(n) => Some(text::signed_decimal(n as int)),
        TagValueView::UInt32(n) => Some(text::decimal(n as nat)),
        TagValueView::Int64(n) => Some(text::signed_decimal(n as int)),
        TagValueView::UInt64(n) => Some(text::decimal(n as nat)),
        TagValueView::Float(_) => None,
        TagValueView::Double(_) => None,
        TagValueView::String(s) => Some(s),
        TagValueView::DateTime(t) => Some(rfc3339_text(t.secs(), t.nanos())),
        TagValueView::ByteString(b) => Some(bytes_listed(b)),
    }
}

fn list_bytes(b: &Vec<u8>) -> (r: String)
    ensures
        r@ == bytes_listed(b@),
{
    let mut s = "[".to_owned();
    let ghost mut done: Seq<char> = Seq::empty();
    let mut i: usize = 0;
    assert(s@ =~= "["@ + done);
    while i < b.len()
        invariant
            i <= b.len(),
            done == bytes_separated(b@.take(i as int)),
            s@ == "["@ + done,
        decreases b.len() - i,
    {
        let ghost before = done;
        assert(b@.take(i + 1).drop_last() =~= b@.take(i as int));
        let h = text::to_hex_lower_byte(b[i]);
        if i > 0 {
            s.append(", ");
            proof {
                done = before + ", "@ + h@;
            }
        } else {
            proof {
                done = h@;
            }
        }
        s.append(h.as_str());
        assert(s@ =~= "["@ + done);
        i = i + 1;
    }
    assert(b@.take(b@.len() as int) =~= b@);
    s.append("]");
    s
}

impl TagValue {
    /// The data type corresponding to this value.
    pub fn data_type(&self) -> (r: TagDataType)
        ensures
            r == type_of(self@),
    {
        match self {
            TagValue::Bool(_) => TagDataType::Bool,
            TagValue::Int16(_) => TagDataType::Int16,
            TagValue::UInt16(_) => TagDataType::UInt16,
            TagValue::Int32(_) => TagDataType::Int32,
            TagValue::UInt32(_) => TagDataType::UInt32,
            TagValue::Int64(_) => TagDataType::Int64,
            TagValue::UInt64(_) => TagDataType::UInt64,
            TagValue::Float(_) => TagDataType::Float,
            TagValue::Double(_) => TagDataType::Double,
            TagValue::String(_) => TagDataType::String,
            TagValue::DateTime(_) => TagDataType::DateTime,
            TagValue::ByteString(_) => TagDataType::ByteString,
        }
    }

    /// Whether this value has the data type `expected`.
    pub fn matches(&self, expected: &TagDataType) -> (r: bool)
        ensures
            r == (type_of(self@) == *expected),
    {
        self.data_type() == *expected
    }

    /// The value as text, `None` for floating point numbers.
    pub fn plain_text(&self) -> (r: Option<String>)
        ensures
            match r {
                Some(s) => value_text(self@) == Some(s@),
                None => value_text(self@) is None,
            },
    {
        match self {
            TagValue::Bool(v) => Some(
                if *v {
                    "true".to_owned()
                } else {
                    "false".to_owned()
                },
            ),
            TagValue::Int16(v) => Some(text::to_signed_decimal(*v as i64)),
            TagValue::UInt16(v) => Some(text::to_decimal(*v as u64)),
            TagValue::Int32(v) => Some(text::to_signed_decimal(*v as i64)),
            TagValue::UInt32(v) => Some(text::to_decimal(*v as u64)),
            TagValue::Int64(v) => Some(text::to_signed_decimal(*v)),
            TagValue::UInt64(v) => Some(text::to_decimal(*v)),
            TagValue::Float(_) => None,
            TagValue::Double(_) => None,
            TagValue::String(v) => Some(v.clone()),
            TagValue::DateTime(v) => Some(v.to_rfc3339()),
            TagValue::ByteString(v) => Some(list_bytes(v)),
        }
    }
}

// ---------------------------------------------------------------------------
// Byte order
// ---------------------------------------------------------------------------

/// Byte/word ordering used when combining multiple 16-bit registers.
#[derive(Clone, Copy, Debug, PartialEq, Eq, Structural)]
pub enum WordOrder {
    /// Big-endian: no reordering (default).
    ABCD,
    /// Byte-swap within each 16-bit word.
    BADC,
    /// Swap 16-bit word pairs within 32-bit chunks.
    CDAB,
    /// Reverse bytes within 32-bit chunks (little-endian).
    DCBA,
}

impl Default for WordOrder {
    fn default() -> (r: WordOrder)
        ensures
            r == WordOrder::ABCD,
    {
        WordOrder::ABCD
    }
}

/// Where the byte at position `i` of the reordered bytes stood among `len` bytes.
///
/// Only complete words and chunks are reordered, except that `DCBA` also swaps the bytes of
/// a word left over after the last complete chunk.
pub open spec fn source_position(order: WordOrder, len: int, i: int) -> int {
    let in_chunk = i / 4 * 4 + 3 < len;
    match order {
        WordOrder::ABCD => i,
        WordOrder::BADC => if i % 2 == 1 {
            i - 1
        } else if i + 1 < len {
            i + 1
        } else {
            i
        },
        WordOrder::CDAB => if !in_chunk {
            i
        } else if i % 4 < 2 {
            i + 2
        } else {
            i - 2
        },
        WordOrder::DCBA => if in_chunk {
            i / 4 * 4 + 3 - i % 4
        } else if i % 4 == 0 && i + 1 < len {
            i + 1
        } else if i % 4 == 1 {
            i - 1
        } else {
            i
        },
    }
}

/// The bytes `s` in the order `order`.
pub open spec fn reordered(order: WordOrder, s: Seq<u8>) -> Seq<u8> {
    Seq::new(s.len(), |i: int| s[source_position(order, s.len() as int, i)])
}

/// Reordering twice gives back the bytes: what is written in an order is read back in it.
pub proof fn reordering_is_an_involution(order: WordOrder, s: Seq<u8>)
    ensures
        reordered(order, reordered(order, s)) == s,
        reordered(order, s).len() == s.len(),
{
    let t = reordered(order, s);
    let n = s.len() as int;
    assert forall|i: int| 0 <= i < n implies #[trigger] reordered(order, t)[i] == s[i] by {
        let j = source_position(order, n, i);
        assert(0 <= j < n);
        assert(source_position(order, n, j) == i);
        assert(t[j] == s[source_position(order, n, j)]);
    }
    assert(reordered(order, t) =~= s);
}

impl WordOrder {
    /// Reorder bytes in place.
    pub fn apply_to_bytes(&self, bytes: &mut [u8])
        ensures
            final(bytes)@ == reordered(*self, old(bytes)@),
    {
        match self {
            WordOrder::ABCD => {
                assert(bytes@ =~= reordered(*self, bytes@));
            },
            WordOrder::BADC => swap_bytes_in_words(bytes),
            WordOrder::CDAB => swap_word_pairs_in_4byte_chunks(bytes),
            WordOrder::DCBA => reverse_bytes_in_4byte_chunks(bytes),
        }
    }

    /// The name of the order.
    pub fn name(&self) -> (r: &'static str)
        ensures
            r@ == order_name(*self),
    {
        match self {
            WordOrder::ABCD => "ABCD",
            WordOrder::BADC => "BADC",
            WordOrder::CDAB => "CDAB",
            WordOrder::DCBA => "DCBA",
        }
    }
}

/// The name of a byte order.
pub open spec fn order_name(order: WordOrder) -> Seq<char> {
    match order {
        WordOrder::ABCD => "ABCD"@,
        WordOrder::BADC => "BADC"@,
        WordOrder::CDAB => "CDAB"@,
        WordOrder::DCBA => "DCBA"@,
    }
}

proof fn positions_in_chunk(len: int, i: int)
    requires
        0 <= i,
        i % 4 == 0,
        i + 3 < len,
    ensures
        source_position(WordOrder::CDAB, len, i) == i + 2,
        source_position(WordOrder::CDAB, len, i + 1) == i + 3,
        source_position(WordOrder::CDAB, len, i + 2) == i,
        source_position(WordOrder::CDAB, len, i + 3) == i + 1,
        source_position(WordOrder::DCBA, len, i) == i + 3,
        source_position(WordOrder::DCBA, len, i + 1) == i + 2,
        source_position(WordOrder::DCBA, len, i + 2) == i + 1,
        source_position(WordOrder::DCBA, len, i + 3) == i,
{
    assert(i / 4 * 4 == i && (i + 1) / 4 * 4 == i && (i + 2) / 4 * 4 == i && (i + 3) / 4 * 4 == i);
}

proof fn positions_after_chunks(len: int, i: int, k: int)
    requires
        0 <= i <= k < len < i + 4,
        i % 4 == 0,
    ensures
        source_position(WordOrder::CDAB, len, k) == k,
        source_position(WordOrder::DCBA, len, k) == (if len < i + 2 || k >= i + 2 {
            k
        } else if k == i {
            i + 1
        } else {
            i
        }),
{
    assert(k / 4 * 4 == i);
}

fn swap(bytes: &mut [u8], i: usize, j: usize)
    requires
        i < old(bytes)@.len(),
        j < old(bytes)@.len(),
    ensures
        final(bytes)@ == old(bytes)@.update(i as int, old(bytes)@[j as int]).update(
            j as int,
            old(bytes)@[i as int],
        ),
{
    let a: u8 = bytes[i];
    let b: u8 = bytes[j];
    bytes[i] = b;
    bytes[j] = a;
}

/// Swap the two bytes of each word.
pub fn swap_bytes_in_words(bytes: &mut [u8])
    ensures
        final(bytes)@ == reordered(WordOrder::BADC, old(bytes)@),
{
    let ghost s = bytes@;
    let len = bytes.len();
    let mut i: usize = 0;
    while i < len && len - i > 1
        invariant
            bytes@.len() == s.len() == len,
            i <= len,
            i % 2 == 0,
            forall|k: int|
                0 <= k < len ==> #[trigger] bytes@[k] == (if k < i {
                    s[source_position(WordOrder::BADC, len as int, k)]
                } else {
                    s[k]
                }),
        decreases len - i,
    {
        swap(bytes, i, i + 1);
        i = i + 2;
    }
    assert(bytes@ =~= reordered(WordOrder::BADC, s));
}

/// Swap the two words of each complete chunk of four bytes; a trailing word is unchanged.
pub fn swap_word_pairs_in_4byte_chunks(bytes: &mut [u8])
    ensures
        final(bytes)@ == reordered(WordOrder::CDAB, old(bytes)@),
{
    let ghost s = bytes@;
    let len = bytes.len();
    let mut i: usize = 0;
    while i < len && len - i > 3
        invariant
            bytes@.len() == s.len() == len,
            i <= len,
            i % 4 == 0,
            forall|k: int|
                0 <= k < len ==> #[trigger] bytes@[k] == (if k < i {
                    s[source_position(WordOrder::CDAB, len as int, k)]
                } else {
                    s[k]
                }),
        decreases len - i,
    {
        let ghost before = bytes@;
        swap(bytes, i, i + 2);
        swap(bytes, i + 1, i + 3);
        proof {
            positions_in_chunk(len as int, i as int);
            assert forall|k: int| 0 <= k < len implies #[trigger] bytes@[k] == (if k < i + 4 {
                s[source_position(WordOrder::CDAB, len as int, k)]
            } else {
                s[k]
            }) by {
                if k < i || i + 4 <= k {
                    assert(bytes@[k] == before[k]);
                } else {
                    assert(before[i as int] == s[i as int] && before[i + 1] == s[i + 1] && before[i
                        + 2] == s[i + 2] && before[i + 3] == s[i + 3]);
                    assert(k == i || k == i + 1 || k == i + 2 || k == i + 3);
                }
            }
        }
        i = i + 4;
    }
    assert forall|k: int| 0 <= k < len implies #[trigger] bytes@[k] == reordered(
        WordOrder::CDAB,
        s,
    )[k] by {
        if k >= i {
            positions_after_chunks(len as int, i as int, k);
        }
    }
    assert(bytes@ =~= reordered(WordOrder::CDAB, s));
}

/// Reverse the bytes of each complete chunk of four bytes, and swap those of a trailing word.
pub fn reverse_bytes_in_4byte_chunks(bytes: &mut [u8])
    ensures
        final(bytes)@ == reordered(WordOrder::DCBA, old(bytes)@),
{
    let ghost s = bytes@;
    let len = bytes.len();
    let mut i: usize = 0;
    while i < len && len - i > 3
        invariant
            bytes@.len() == s.len() == len,
            i <= len,
            i % 4 == 0,
            forall|k: int|
                0 <= k < len ==> #[trigger] bytes@[k] == (if k < i {
                    s[source_position(WordOrder::DCBA, len as int, k)]
                } else {
                    s[k]
                }),
        decreases len - i,
    {
        let ghost before = bytes@;
        swap(bytes, i, i + 3);
        swap(bytes, i + 1, i + 2);
        proof {
            positions_in_chunk(len as int, i as int);
            assert forall|k: int| 0 <= k < len implies #[trigger] bytes@[k] == (if k < i + 4 {
                s[source_position(WordOrder::DCBA, len as int, k)]
            } else {
                s[k]
            }) by {
                if k < i || i + 4 <= k {
                    assert(bytes@[k] == before[k]);
                } else {
                    assert(before[i as int] == s[i as int] && before[i + 1] == s[i + 1] && before[i
                        + 2] == s[i + 2] && before[i + 3] == s[i + 3]);
                    assert(k == i || k == i + 1 || k == i + 2 || k == i + 3);
                }
            }
        }
        i = i + 4;
    }
    let ghost chunks_done = bytes@;
    if len - i > 1 {
        swap(bytes, i, i + 1);
    }
    assert forall|k: int| 0 <= k < len implies #[trigger] bytes@[k] == reordered(
        WordOrder::DCBA,
        s,
    )[k] by {
        if k >= i {
            positions_after_chunks(len as int, i as int, k);
            assert(chunks_done[i as int] == s[i as int]);
            if i + 1 < len {
                assert(chunks_done[i + 1] == s[i + 1]);
            }
            if i + 2 < len {
                assert(chunks_done[i + 2] == s[i + 2]);
            }
        } else {
            assert(bytes@[k] == chunks_done[k]);
        }
    }
    assert(bytes@ =~= reordered(WordOrder::DCBA, s));
}

// ---------------------------------------------------------------------------
// Quality
// ---------------------------------------------------------------------------

/// Tag quality used by drivers and runtime to express detailed, industrial-grade states.
#[derive(Debug)]
pub enum TagQuality {
    /// Value is fresh and valid.
    Good,
    /// The tag is still initializing / waiting for its first PLC value.
    Initializing,
    /// The value is stale (source timestamp older than configured threshold).
    Stale,
    /// Communication to the PLC or network is lost.
    CommLost,
    /// Misconfiguration detected (addressing, mapping, etc).
    ConfigError,
    /// Type mismatch detected during a write or mapping conversion.
    TypeMismatch,
    /// A substitute or fallback value is being supplied.
    Substitute,
    /// Generic unexpected error; carries a human-friendly description.
    Error(String),
}

/// What a [`TagQuality`] says.
#[verifier::ext_equal]
pub ghost enum TagQualityView {
    Good,
    Initializing,
    Stale,
    CommLost,
    ConfigError,
    TypeMismatch,
    Substitute,
    Error(Seq<char>),
}

impl View for TagQuality {
    type V = TagQualityView;

    open spec fn view(&self) -> TagQualityView {
        match *self {
            TagQuality::Good => TagQualityView::Good,
            TagQuality::Initializing => TagQualityView::Initializing,
            TagQuality::Stale => TagQualityView::Stale,
            TagQuality::CommLost => TagQualityView::CommLost,
            TagQuality::ConfigError => TagQualityView::ConfigError,
            TagQuality::TypeMismatch => TagQualityView::TypeMismatch,
            TagQuality::Substitute => TagQualityView::Substitute,
            TagQuality::Error(s) => TagQualityView::Error(s@),
        }
    }
}

impl Default for TagQuality {
    fn default() -> (r: TagQuality)
        ensures
            r@ == TagQualityView::Initializing,
    {
        TagQuality::Initializing
    }
}

impl Clone for TagQuality {
    fn clone(&self) -> (r: TagQuality)
        ensures
            r@ == self@,
    {
        match self {
            TagQuality::Good => TagQuality::Good,
            TagQuality::Initializing => TagQuality::Initializing,
            TagQuality::Stale => TagQuality::Stale,
            TagQuality::CommLost => TagQuality::CommLost,
            TagQuality::ConfigError => TagQuality::ConfigError,
            TagQuality::TypeMismatch => TagQuality::TypeMismatch,
            TagQuality::Substitute => TagQuality::Substitute,
            TagQuality::Error(s) => TagQuality::Error(s.clone()),
        }
    }
}

impl PartialEq for TagQuality {
    fn eq(&self, other: &TagQuality) -> (r: bool) {
        match (self, other) {
            (TagQuality::Good, TagQuality::Good) => true,
            (TagQuality::Initializing, TagQuality::Initializing) => true,
            (TagQuality::Stale, TagQuality::Stale) => true,
            (TagQuality::CommLost, TagQuality::CommLost) => true,
            (TagQuality::ConfigError, TagQuality::ConfigError) => true,
            (TagQuality::TypeMismatch, TagQuality::TypeMismatch) => true,
            (TagQuality::Substitute, TagQuality::Substitute) => true,
            (TagQuality::Error(a), TagQuality::Error(b)) => text::same(a.as_str(), b.as_str()),
            _ => false,
        }
    }
}

impl vstd::std_specs::cmp::PartialEqSpecImpl for TagQuality {
    open spec fn obeys_eq_spec() -> bool {
        true
    }

    open spec fn eq_spec(&self, other: &TagQuality) -> bool {
        self@ == other@
    }
}

} // verus!
