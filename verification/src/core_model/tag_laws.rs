//! What holds of tags, their definitions and the registry, field by field.

use crate::core_model::error::{core_error_text, CoreErrorView};
use crate::core_model::registry::RegistryView;
use crate::core_model::tag::{Tag, TagView};
use crate::core_model::tag_definition::TagDefinitionView;
use crate::core_model::tag_definition_store::{
    definitions_by_id, definitions_fault, faultless_definitions_are_valid_and_distinct,
    valid_and_distinct,
};
use crate::core_model::tag_store::{TagChangeView, TagStoreView};
use crate::core_model::tag_value::{
    bytes_listed, bytes_separated, float32_equal, float64_equal, type_of, value_text, values_equal,
    TagDataType, TagQuality, TagQualityView, TagValue, TagValueView,
};
use crate::text::{decimal, is_white_space, signed_decimal};
use crate::time::{rfc3339_text, TimeSpan, Timestamp};
use vstd::prelude::*;
use vstd::string::*;

verus! {

// ---------------------------------------------------------------------------
// Values
// ---------------------------------------------------------------------------

/// A value has the data type that it is named after, and no other.
pub proof fn values_have_their_own_type(v: TagValueView)
    ensures
        (type_of(v) == TagDataType::Bool) == (v is Bool),
        (type_of(v) == TagDataType::Int16) == (v is Int16),
        (type_of(v) == TagDataType::UInt16) == (v is UInt16),
        (type_of(v) == TagDataType::Int32) == (v is Int32),
        (type_of(v) == TagDataType::UInt32) == (v is UInt32),
        (type_of(v) == TagDataType::Int64) == (v is Int64),
        (type_of(v) == TagDataType::UInt64) == (v is UInt64),
        (type_of(v) == TagDataType::Float) == (v is Float),
        (type_of(v) == TagDataType::Double) == (v is Double),
        (type_of(v) == TagDataType::String) == (v is String),
        (type_of(v) == TagDataType::DateTime) == (v is DateTime),
        (type_of(v) == TagDataType::ByteString) == (v is ByteString),
{
}

/// Values of different types are never equal, and values without a fraction are equal exactly
/// where they are the same.
pub proof fn equal_values_are_the_same(a: TagValueView, b: TagValueView)
    ensures
        values_equal(a, b) ==> type_of(a) == type_of(b),
        !(a is Float) && !(a is Double) ==> (values_equal(a, b) <==> a == b),
{
}

/// 32 bits that stand for no number.
pub open spec fn is_nan32(bits: u32) -> bool {
    bits % 0x8000_0000 > 0x7F80_0000
}

/// 64 bits that stand for no number.
pub open spec fn is_nan64(bits: u64) -> bool {
    bits % 0x8000_0000_0000_0000 > 0x7FF0_0000_0000_0000
}

/// Floating-point numbers are equal where their bits are, except that what is no number equals
/// nothing and that zero equals zero with either sign.
pub proof fn floating_point_equality(a: u32, b: u32, c: u64, d: u64)
    ensures
        float32_equal(a, b) <==> {
            &&& !is_nan32(a)
            &&& !is_nan32(b)
            &&& a == b || (a % 0x8000_0000 == 0 && b % 0x8000_0000 == 0)
        },
        float64_equal(c, d) <==> {
            &&& !is_nan64(c)
            &&& !is_nan64(d)
            &&& c == d || (c % 0x8000_0000_0000_0000 == 0 && d % 0x8000_0000_0000_0000 == 0)
        },
{
}

/// Whole numbers are written in decimal, booleans in words, texts as they are.
pub proof fn values_are_written_out(n: int, s: Seq<char>)
    ensures
        value_text(TagValueView::Bool(true)) == Some("true"@),
        value_text(TagValueView::Bool(false)) == Some("false"@),
        value_text(TagValueView::String(s)) == Some(s),
        i16::MIN <= n <= i16::MAX ==> value_text(TagValueView::Int16(n as i16)) == Some(
            signed_decimal(n),
        ),
        i32::MIN <= n <= i32::MAX ==> value_text(TagValueView::Int32(n as i32)) == Some(
            signed_decimal(n),
        ),
        i64::MIN <= n <= i64::MAX ==> value_text(TagValueView::Int64(n as i64)) == Some(
            signed_decimal(n),
        ),
        0 <= n <= u16::MAX ==> value_text(TagValueView::UInt16(n as u16)) == Some(
            decimal(n as nat),
        ),
        0 <= n <= u32::MAX ==> value_text(TagValueView::UInt32(n as u32)) == Some(
            decimal(n as nat),
        ),
        0 <= n <= u64::MAX ==> value_text(TagValueView::UInt64(n as u64)) == Some(
            decimal(n as nat),
        ),
{
}

/// Bytes are listed between brackets as two-digit hexadecimal numbers, in their order, with a
/// comma and a space between any two: byte `k` stands at place `4 * k + 1`.
pub proof fn bytes_are_listed_in_order(b: Seq<u8>, k: int)
    requires
        0 <= k < b.len(),
    ensures
        bytes_listed(b).len() == 4 * b.len(),
        bytes_listed(b)[0] == '[',
        bytes_listed(b)[4 * b.len() - 1] == ']',
        bytes_listed(b)[4 * k + 1] == "0123456789abcdef"@[b[k] as int / 16],
        bytes_listed(b)[4 * k + 2] == "0123456789abcdef"@[b[k] as int % 16],
        k + 1 < b.len() ==> bytes_listed(b)[4 * k + 3] == ',' && bytes_listed(b)[4 * k + 4]
            == ' ',
        bytes_listed(Seq::empty()) == seq!['[', ']'],
{
    reveal_strlit("[");
    reveal_strlit("]");
    bytes_stand_in_order(b, k);
    assert(bytes_listed(Seq::empty()) =~= seq!['[', ']']);
}

proof fn bytes_stand_in_order(b: Seq<u8>, k: int)
    requires
        0 <= k < b.len(),
    ensures
        bytes_separated(b).len() == 4 * b.len() - 2,
        bytes_separated(b)[4 * k] == "0123456789abcdef"@[b[k] as int / 16],
        bytes_separated(b)[4 * k + 1] == "0123456789abcdef"@[b[k] as int % 16],
        k + 1 < b.len() ==> bytes_separated(b)[4 * k + 2] == ',' && bytes_separated(b)[4 * k + 3]
            == ' ',
    decreases b.len(),
{
    reveal_strlit(", ");
    crate::text_laws::hexadecimal_digits(b[k] as int / 16);
    crate::text_laws::hexadecimal_digits(b[k] as int % 16);
    if b.len() > 1 {
        let front = b.drop_last();
        bytes_stand_in_order(
            front,
            if k < front.len() {
                k
            } else {
                0
            },
        );
    }
}

// ---------------------------------------------------------------------------
// Tags
// ---------------------------------------------------------------------------

/// A new tag holds its value and waits for the PLC, as of the time it was made.
pub proof fn fresh_tag_waits(value: TagValueView, now: Timestamp)
    ensures
        ({
            let t = TagView::fresh(value, now);
            &&& t.value == value
            &&& t.quality is Initializing
            &&& t.source_timestamp == now
            &&& t.server_timestamp == now
        }),
{
}

/// A value that is read replaces value, quality and source time together; the server time is that
/// of the reading.
pub proof fn reading_replaces_the_tag(
    t: TagView,
    value: TagValueView,
    quality: TagQualityView,
    source_ts: Timestamp,
    now: Timestamp,
)
    ensures
        ({
            let r = t.read(value, quality, source_ts, now);
            &&& r.value == value
            &&& r.quality == quality
            &&& r.source_timestamp == source_ts
            &&& r.server_timestamp == now
        }),
{
}

/// A new quality leaves value and source time, and renews the server time; touching renews the
/// server time only.
pub proof fn quality_leaves_the_value(t: TagView, quality: TagQualityView, now: Timestamp)
    ensures
        ({
            let r = t.with_quality(quality, now);
            &&& r.value == t.value
            &&& r.quality == quality
            &&& r.source_timestamp == t.source_timestamp
            &&& r.server_timestamp == now
        }),
        ({
            let r = t.touched(now);
            &&& r.value == t.value
            &&& r.quality == t.quality
            &&& r.source_timestamp == t.source_timestamp
            &&& r.server_timestamp == now
        }),
{
}

/// A tag is stale exactly where its value was read more than the timeout ago, or in the future.
pub proof fn stale_after_the_timeout(t: TagView, timeout: TimeSpan, now: Timestamp)
    requires
        t.source_timestamp.nanos() < 1_000_000_000,
        now.nanos() < 1_000_000_000,
    ensures
        ({
            let read_ns = t.source_timestamp.secs() * 1_000_000_000 + t.source_timestamp.nanos();
            let now_ns = now.secs() * 1_000_000_000 + now.nanos();
            t.stale(timeout, now) <==> now_ns < read_ns || now_ns > read_ns + timeout.nanos
        }),
{
}

// ---------------------------------------------------------------------------
// The registry
// ---------------------------------------------------------------------------

/// Before the PLC is read every defined tag is there and no other, with a zero, an empty text or
/// the current time of its own type, waiting for the PLC.
pub proof fn tags_start_empty(
    definitions: Map<Seq<char>, TagDefinitionView>,
    now: Timestamp,
    id: Seq<char>,
)
    ensures
        ({
            let r = RegistryView::initial(definitions, now);
            &&& r.definitions == definitions
            &&& r.store.mailboxes.len() == 0
            &&& r.has_tag(id) == definitions.contains_key(id)
            &&& definitions.contains_key(id) ==> {
                let t = r.store.tags[id];
                &&& t.quality is Initializing
                &&& t.source_timestamp == now
                &&& t.server_timestamp == now
                &&& type_of(t.value) == definitions[id].data_type
                &&& match t.value {
                    TagValueView::Bool(b) => !b,
                    TagValueView::Int16(n) => n == 0,
                    TagValueView::UInt16(n) => n == 0,
                    TagValueView::Int32(n) => n == 0,
                    TagValueView::UInt32(n) => n == 0,
                    TagValueView::Int64(n) => n == 0,
                    TagValueView::UInt64(n) => n == 0,
                    TagValueView::Float(n) => n == 0,
                    TagValueView::Double(n) => n == 0,
                    TagValueView::String(s) => s.len() == 0,
                    TagValueView::DateTime(t) => t == now,
                    TagValueView::ByteString(b) => b.len() == 0,
                }
            }
        }),
{
}

/// A value of the defined type for a tag that is there replaces value, quality and times of that
/// tag; a value for an unknown tag or of another type changes nothing. Either way the definitions
/// and every other tag stay.
pub proof fn update_takes_values_of_the_defined_type(
    reg: RegistryView,
    id: Seq<char>,
    value: TagValueView,
    quality: TagQualityView,
    source_ts: Timestamp,
    now: Timestamp,
    other: Seq<char>,
)
    ensures
        ({
            let r = reg.update(id, value, quality, source_ts, now);
            let taken = {
                &&& reg.definitions.contains_key(id)
                &&& reg.store.tags.contains_key(id)
                &&& type_of(value) == reg.definitions[id].data_type
            };
            &&& taken <==> reg.update_fault(id, value) is None
            &&& r.definitions == reg.definitions
            &&& taken ==> r.store.tags.contains_key(id) && {
                let t = r.store.tags[id];
                &&& t.value == value
                &&& t.quality == quality
                &&& t.source_timestamp == source_ts
                &&& t.server_timestamp == now
            }
            &&& !taken ==> r == reg
            &&& other != id ==> r.store.tags.contains_key(other) == reg.store.tags.contains_key(
                other,
            )
            &&& other != id && reg.store.tags.contains_key(other) ==> r.store.tags[other]
                == reg.store.tags[other]
        }),
{
}

/// The reason why a value is refused: no definition, another type, or no tag, in this order.
pub proof fn refusals_have_their_reason(reg: RegistryView, id: Seq<char>, value: TagValueView)
    ensures
        !reg.definitions.contains_key(id) ==> reg.update_fault(id, value) == Some(
            CoreErrorView::DefinitionNotFound(id),
        ),
        reg.definitions.contains_key(id) && type_of(value) != reg.definitions[id].data_type
            ==> reg.update_fault(id, value) == Some(CoreErrorView::TypeMismatch(id)),
        reg.definitions.contains_key(id) && type_of(value) == reg.definitions[id].data_type
            && !reg.store.tags.contains_key(id) ==> reg.update_fault(id, value) == Some(
            CoreErrorView::TagNotFound(id),
        ),
{
}

/// A new quality goes to the tag it is set for, with the time it was set at, and leaves value and
/// source time; where there is no such tag nothing changes. Every other tag stays.
pub proof fn quality_goes_to_its_tag(
    reg: RegistryView,
    id: Seq<char>,
    quality: TagQualityView,
    now: Timestamp,
    other: Seq<char>,
)
    ensures
        ({
            let r = reg.set_quality(id, quality, now);
            &&& r.definitions == reg.definitions
            &&& reg.store.tags.contains_key(id) ==> r.store.tags.contains_key(id) && {
                let t = r.store.tags[id];
                &&& t.quality == quality
                &&& t.value == reg.store.tags[id].value
                &&& t.source_timestamp == reg.store.tags[id].source_timestamp
                &&& t.server_timestamp == now
            }
            &&& !reg.store.tags.contains_key(id) ==> r == reg
            &&& other != id ==> r.store.tags.contains_key(other) == reg.store.tags.contains_key(
                other,
            )
            &&& other != id && reg.store.tags.contains_key(other) ==> r.store.tags[other]
                == reg.store.tags[other]
        }),
{
}

/// Each subscriber has room for 128 changes: a change waits behind those that came before it, and
/// where 128 wait it is dropped.
pub proof fn subscribers_have_room_for_128(
    store: TagStoreView,
    id: Seq<char>,
    tag: TagView,
    subscriber: int,
)
    requires
        0 <= subscriber < store.mailboxes.len(),
    ensures
        ({
            let waiting = store.mailboxes[subscriber];
            let after = store.put(id, tag).mailboxes[subscriber];
            &&& store.put(id, tag).mailboxes.len() == store.mailboxes.len()
            &&& waiting.len() < 128 ==> {
                &&& after.len() == waiting.len() + 1
                &&& after.drop_last() == waiting
                &&& after.last().tag_id == id
                &&& after.last().tag == tag
            }
            &&& waiting.len() >= 128 ==> after == waiting
        }),
{
    let waiting = store.mailboxes[subscriber];
    let change = TagChangeView { tag_id: id, tag };
    assert(waiting.push(change).drop_last() =~= waiting);
}

// ---------------------------------------------------------------------------
// Definitions
// ---------------------------------------------------------------------------

/// A text that holds anything but white space.
pub open spec fn has_ink(s: Seq<char>) -> bool {
    exists|i: int| 0 <= i < s.len() && !is_white_space(#[trigger] s[i])
}

/// A definition is valid exactly where id, name and address each hold more than white space.
pub proof fn definition_needs_id_name_and_address(d: TagDefinitionView)
    ensures
        d.fault() is None <==> has_ink(d.id) && has_ink(d.name) && has_ink(d.address),
        d.fault() matches Some(e) ==> e is InvalidConfig,
{
}

/// Of definitions that are refused, the first one that is not valid, or that has the id of an
/// earlier one, gives the reason.
pub proof fn first_bad_definition_gives_the_reason(defs: Seq<TagDefinitionView>, k: int)
    requires
        0 <= k < defs.len(),
        valid_and_distinct(defs.take(k)),
    ensures
        defs[k].fault() is Some ==> definitions_fault(defs) == defs[k].fault(),
        defs[k].fault() is None && (exists|i: int| 0 <= i < k && (#[trigger] defs[i]).id == defs[k].id)
            ==> definitions_fault(defs) == Some(
            CoreErrorView::InvalidConfig("Duplicate TagDefinition id: "@ + defs[k].id),
        ),
    decreases defs.len() - k,
{
    let upto = defs.take(k + 1);
    assert(upto.drop_last() =~= defs.take(k));
    assert(upto.last() == defs[k]);
    faultless_definitions_are_valid_and_distinct(defs.take(k));
    assert(definitions_fault(defs.take(k)) is None);
    if exists|i: int| 0 <= i < k && (#[trigger] defs[i]).id == defs[k].id {
        let i = choose|i: int| 0 <= i < k && (#[trigger] defs[i]).id == defs[k].id;
        assert(defs.take(k)[i].id == defs[k].id);
    }
    if definitions_fault(upto) is Some {
        fault_stays(defs, k + 1);
    }
}

proof fn fault_stays(defs: Seq<TagDefinitionView>, k: int)
    requires
        0 <= k <= defs.len(),
        definitions_fault(defs.take(k)) is Some,
    ensures
        definitions_fault(defs) == definitions_fault(defs.take(k)),
    decreases defs.len() - k,
{
    if k < defs.len() {
        assert(defs.take(k + 1).drop_last() =~= defs.take(k));
        fault_stays(defs, k + 1);
    } else {
        assert(defs.take(k) =~= defs);
    }
}

/// Definitions with different ids each stand under their own id.
pub proof fn definitions_stand_under_their_id(defs: Seq<TagDefinitionView>, i: int)
    requires
        valid_and_distinct(defs),
        0 <= i < defs.len(),
    ensures
        definitions_by_id(defs).contains_key(defs[i].id),
        definitions_by_id(defs)[defs[i].id] == defs[i],
    decreases defs.len(),
{
    let front = defs.drop_last();
    if i < front.len() {
        assert(valid_and_distinct(front)) by {
            assert forall|a: int| 0 <= a < front.len() implies (
            #[trigger] front[a]).fault() is None by {
                assert(front[a] == defs[a]);
            }
            assert forall|a: int, b: int| 0 <= a < b < front.len() implies (
            #[trigger] front[a]).id != (#[trigger] front[b]).id by {
                assert(front[a] == defs[a] && front[b] == defs[b]);
            }
        }
        definitions_stand_under_their_id(front, i);
        assert(front[i] == defs[i]);
        assert(defs[i].id != defs[defs.len() - 1].id);
    }
}

/// An error message ends in the name or the text that the error is about.
pub proof fn error_texts_end_in_their_subject(s: Seq<char>)
    ensures
        core_error_text(CoreErrorView::TagNotFound(s)) == "Tag not found: "@ + s,
        core_error_text(CoreErrorView::DefinitionNotFound(s)) == "Definition not found: "@ + s,
        core_error_text(CoreErrorView::TypeMismatch(s)) == "Type mismatch for tag "@ + s,
        core_error_text(CoreErrorView::InvalidConfig(s)) == "Invalid configuration: "@ + s,
        core_error_text(CoreErrorView::Internal(s)) == "Internal error: "@ + s,
{
}

/// A time is written out in RFC 3339 form by its second and nanoseconds; floating-point numbers are
/// not written out.
pub proof fn times_are_written_out(t: Timestamp, a: u32, b: u64)
    ensures
        value_text(TagValueView::DateTime(t)) == Some(rfc3339_text(t.secs(), t.nanos())),
        value_text(TagValueView::Float(a)) is None,
        value_text(TagValueView::Double(b)) is None,
{
}

/// The store takes a value of the expected type for a tag that is there, with its quality and
/// times, tells every subscriber, and leaves every other tag; any other value changes nothing.
pub proof fn store_takes_values_of_the_expected_type(
    store: TagStoreView,
    id: Seq<char>,
    value: TagValueView,
    quality: TagQualityView,
    source_ts: Timestamp,
    expected: TagDataType,
    now: Timestamp,
    other: Seq<char>,
)
    ensures
        ({
            let r = store.update(id, value, quality, source_ts, expected, now);
            let taken = type_of(value) == expected && store.tags.contains_key(id);
            &&& taken <==> store.update_fault(id, value, expected) is None
            &&& !taken ==> r == store
            &&& taken ==> {
                let t = r.tags[id];
                &&& r.tags.contains_key(id)
                &&& t.value == value
                &&& t.quality == quality
                &&& t.source_timestamp == source_ts
                &&& t.server_timestamp == now
                &&& r == store.put(id, t)
            }
            &&& other != id ==> r.tags.contains_key(other) == store.tags.contains_key(other)
            &&& other != id && store.tags.contains_key(other) ==> r.tags[other]
                == store.tags[other]
        }),
        type_of(value) != expected ==> store.update_fault(id, value, expected) == Some(
            CoreErrorView::TypeMismatch(id),
        ),
        type_of(value) == expected && !store.tags.contains_key(id) ==> store.update_fault(
            id,
            value,
            expected,
        ) == Some(CoreErrorView::TagNotFound(id)),
{
}

/// What is known of a value, a quality and a tag is what they hold.
pub proof fn tags_say_what_they_hold(v: TagValue, q: TagQuality, t: Tag)
    ensures
        match v {
            TagValue::Bool(x) => v@ == TagValueView::Bool(x),
            TagValue::Int16(x) => v@ == TagValueView::Int16(x),
            TagValue::UInt16(x) => v@ == TagValueView::UInt16(x),
            TagValue::Int32(x) => v@ == TagValueView::Int32(x),
            TagValue::UInt32(x) => v@ == TagValueView::UInt32(x),
            TagValue::Int64(x) => v@ == TagValueView::Int64(x),
            TagValue::UInt64(x) => v@ == TagValueView::UInt64(x),
            TagValue::Float(x) => v@ == TagValueView::Float(x.bits),
            TagValue::Double(x) => v@ == TagValueView::Double(x.bits),
            TagValue::String(x) => v@ == TagValueView::String(x@),
            TagValue::DateTime(x) => v@ == TagValueView::DateTime(x),
            TagValue::ByteString(x) => v@ == TagValueView::ByteString(x@),
        },
        match q {
            TagQuality::Good => q@ is Good,
            TagQuality::Initializing => q@ is Initializing,
            TagQuality::Stale => q@ is Stale,
            TagQuality::CommLost => q@ is CommLost,
            TagQuality::ConfigError => q@ is ConfigError,
            TagQuality::TypeMismatch => q@ is TypeMismatch,
            TagQuality::Substitute => q@ is Substitute,
            TagQuality::Error(s) => q@ == TagQualityView::Error(s@),
        },
        t@.value == t.value@,
        t@.quality == t.quality@,
        t@.source_timestamp == t.source_timestamp,
        t@.server_timestamp == t.server_timestamp,
{
}

} // verus!
