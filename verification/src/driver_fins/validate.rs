//! Validation of FINS mappings.

use crate::core_model::tag_value::{order_name, TagDataType, WordOrder};
use crate::driver_common::plan::{
    find_overlap, first_overlap, last_address, overlapping_spans_share_an_address, span_last,
    spans_without_overlap_are_disjoint, Span,
};
use crate::driver_fins::errors::{DriverError, DriverErrorView};
use crate::driver_fins::mapping::{mapping_views, TagMapping, TagMappingView};
use crate::text;
use crate::text::{decimal, hex_upper_byte};
use vstd::prelude::*;
use vstd::string::*;

verus! {

/// Highest address that a mapping can state.
pub const MAX_ADDRESS: u32 = 0xFFFF_FFFF;

/// The addresses of a mapping.
pub open spec fn mapping_span(m: TagMappingView) -> Span {
    Span { class: m.area, start: m.address, len: m.word_count as u32 }
}

/// The addresses of mappings.
pub open spec fn mapping_spans(ms: Seq<TagMappingView>) -> Seq<Span> {
    Seq::new(ms.len(), |i: int| mapping_span(ms[i]))
}

/// The addresses of mappings.
pub fn spans_of(mappings: &Vec<TagMapping>) -> (r: Vec<Span>)
    ensures
        r@ == mapping_spans(mapping_views(mappings@)),
{
    let mut spans: Vec<Span> = Vec::new();
    let mut i: usize = 0;
    while i < mappings.len()
        invariant
            i <= mappings@.len(),
            spans@ =~= mapping_spans(mapping_views(mappings@)).take(i as int),
        decreases mappings@.len() - i,
    {
        let m = &mappings[i];
        spans.push(
            Span { class: m.area, start: m.address, len: m.word_count as u32 },
        );
        i = i + 1;
    }
    assert(spans@ =~= mapping_spans(mapping_views(mappings@)));
    spans
}

/// What is wrong with a mapping by itself.
pub open spec fn mapping_fault(m: TagMappingView) -> Option<Seq<char>> {
    let about = "Mapping '"@ + m.tag_id;
    if m.word_count == 0 {
        Some(about + "' has zero word_count"@)
    } else if m.bit_offset >= 16 {
        Some(
            about + "' has invalid bit_offset "@ + decimal(m.bit_offset as nat)
                + " (must be 0..15)"@,
        )
    } else if (m.data_type == TagDataType::Float || m.data_type == TagDataType::Int32
        || m.data_type == TagDataType::UInt32) && m.word_count < 2 {
        Some(about + "' data_type requires word_count >= 2"@)
    } else if m.data_type == TagDataType::Double && m.word_count < 4 {
        Some(about + "' data_type 'Double' requires word_count >= 4"@)
    } else if (m.byte_order == WordOrder::CDAB || m.byte_order == WordOrder::DCBA) && m.word_count
        < 2 {
        Some(
            about + "' uses byte_order "@ + order_name(m.byte_order)
                + " which requires word_count >= 2"@,
        )
    } else {
        None
    }
}

/// The fault of the first mapping that has one.
pub open spec fn first_mapping_fault(ms: Seq<TagMappingView>) -> Option<Seq<char>>
    decreases ms.len(),
{
    if ms.len() == 0 {
        None
    } else {
        match first_mapping_fault(ms.drop_last()) {
            Some(t) => Some(t),
            None => mapping_fault(ms.last()),
        }
    }
}

/// A mapping with its first and last address, as in `'a'[10..11]`.
pub open spec fn range_text(m: TagMappingView) -> Seq<char> {
    "'"@ + m.tag_id + "'["@ + decimal(m.address as nat) + ".."@ + decimal(
        last_address(mapping_span(m), MAX_ADDRESS as int) as nat,
    ) + "]"@
}

/// The message that two mappings overlap.
pub open spec fn overlap_text(area: u8, a: TagMappingView, b: TagMappingView) -> Seq<char> {
    "Overlapping FINS ranges for area 0x"@ + hex_upper_byte(area) + ": "@ + range_text(a)
        + " overlaps "@ + range_text(b)
}

/// The message of the first overlap, the areas from number `area` on taken in turn.
pub open spec fn overlap_fault(ms: Seq<TagMappingView>, area: int) -> Option<Seq<char>>
    decreases 256 - area,
{
    if area < 0 || area >= 256 {
        None
    } else {
        match first_overlap(mapping_spans(ms), area as u8, MAX_ADDRESS as int) {
            Some(p) => Some(overlap_text(area as u8, ms[p.0], ms[p.1])),
            None => overlap_fault(ms, area + 1),
        }
    }
}

/// What is wrong with mappings: the fault of the first mapping that has one, else the first
/// overlap.
pub open spec fn mappings_fault(ms: Seq<TagMappingView>) -> Option<Seq<char>> {
    match first_mapping_fault(ms) {
        Some(t) => Some(t),
        None => overlap_fault(ms, 0),
    }
}

fn check_mapping(m: &TagMapping) -> (r: Option<String>)
    ensures
        match r {
            Some(t) => mapping_fault(m@) == Some(t@),
            None => mapping_fault(m@) is None,
        },
{
    let mut about = text::join2("Mapping '", m.tag_id.as_str());
    if m.word_count == 0 {
        about.append("' has zero word_count");
        return Some(about);
    }
    if m.bit_offset >= 16 {
        about.append("' has invalid bit_offset ");
        about.append(text::to_decimal(m.bit_offset as u64).as_str());
        about.append(" (must be 0..15)");
        return Some(about);
    }
    match m.data_type {
        TagDataType::Float | TagDataType::Int32 | TagDataType::UInt32 => {
            if m.word_count < 2 {
                about.append("' data_type requires word_count >= 2");
                return Some(about);
            }
        },
        TagDataType::Double => {
            if m.word_count < 4 {
                about.append("' data_type 'Double' requires word_count >= 4");
                return Some(about);
            }
        },
        _ => {},
    }
    if (m.byte_order == WordOrder::CDAB || m.byte_order == WordOrder::DCBA) && m.word_count < 2 {
        about.append("' uses byte_order ");
        about.append(m.byte_order.name());
        about.append(" which requires word_count >= 2");
        return Some(about);
    }
    None
}

fn write_range(m: &TagMapping) -> (r: String)
    ensures
        r@ == range_text(m@),
{
    let span = Span { class: m.area, start: m.address, len: m.word_count as u32 };
    let mut s = text::join3("'", m.tag_id.as_str(), "'[");
    s.append(text::to_decimal(m.address as u64).as_str());
    s.append("..");
    s.append(text::to_decimal(span_last(&span, MAX_ADDRESS) as u64).as_str());
    s.append("]");
    s
}

proof fn mapping_fault_stays(ms: Seq<TagMappingView>, k: int)
    requires
        0 <= k <= ms.len(),
        first_mapping_fault(ms.take(k)) is Some,
    ensures
        first_mapping_fault(ms) == first_mapping_fault(ms.take(k)),
    decreases ms.len() - k,
{
    if k < ms.len() {
        assert(ms.take(k + 1).drop_last() =~= ms.take(k));
        mapping_fault_stays(ms, k + 1);
    } else {
        assert(ms.take(k) =~= ms);
    }
}

/// Check mappings: word counts, bit offsets, sizes of data types, byte orders, and overlapping
/// address ranges per area.
pub fn validate_mappings(mappings: &Vec<TagMapping>) -> (r: Result<(), DriverError>)
    ensures
        match r {
            Ok(_) => mappings_fault(mapping_views(mappings@)) is None,
            Err(e) => match mappings_fault(mapping_views(mappings@)) {
                Some(t) => e@ == DriverErrorView::Mapping(t),
                None => false,
            },
        },
{
    let ghost ms = mapping_views(mappings@);
    let mut i: usize = 0;
    while i < mappings.len()
        invariant
            i <= mappings@.len(),
            ms == mapping_views(mappings@),
            first_mapping_fault(ms.take(i as int)) is None,
        decreases mappings@.len() - i,
    {
        proof {
            assert(ms.take(i + 1).drop_last() =~= ms.take(i as int));
            assert(ms.take(i + 1).last() == mappings@[i as int]@);
        }
        match check_mapping(&mappings[i]) {
            Some(t) => {
                proof {
                    mapping_fault_stays(ms, i + 1);
                }
                return Err(DriverError::Mapping(t));
            },
            None => {},
        }
        i = i + 1;
    }
    assert(ms.take(i as int) =~= ms);
    let spans = spans_of(mappings);
    let mut area: u16 = 0;
    while area < 256
        invariant
            area <= 256,
            ms == mapping_views(mappings@),
            spans@ == mapping_spans(ms),
            first_mapping_fault(ms) is None,
            overlap_fault(ms, 0) == overlap_fault(ms, area as int),
        decreases 256 - area,
    {
        match find_overlap(&spans, area as u8, MAX_ADDRESS) {
            Some(p) => {
                let mut s = text::join3(
                    "Overlapping FINS ranges for area 0x",
                    text::to_hex_upper_byte(area as u8).as_str(),
                    ": ",
                );
                s.append(write_range(&mappings[p.0]).as_str());
                s.append(" overlaps ");
                s.append(write_range(&mappings[p.1]).as_str());
                return Err(DriverError::Mapping(s));
            },
            None => {},
        }
        area = area + 1;
    }
    Ok(())
}

/// Mappings that are valid are each valid by themselves.
pub proof fn valid_mappings_are_each_valid(ms: Seq<TagMappingView>, i: int)
    requires
        mappings_fault(ms) is None,
        0 <= i < ms.len(),
    ensures
        mapping_fault(ms[i]) is None,
{
    each_without_fault(ms, i);
}

proof fn each_without_fault(ms: Seq<TagMappingView>, i: int)
    requires
        first_mapping_fault(ms) is None,
        0 <= i < ms.len(),
    ensures
        mapping_fault(ms[i]) is None,
    decreases ms.len(),
{
    if i < ms.len() - 1 {
        each_without_fault(ms.drop_last(), i);
        assert(ms.drop_last()[i] == ms[i]);
    }
}

/// Where no overlap is told, no area has one.
pub proof fn no_overlap_of_area(ms: Seq<TagMappingView>, from: int, area: int)
    requires
        overlap_fault(ms, from) is None,
        0 <= from <= area < 256,
    ensures
        first_overlap(mapping_spans(ms), area as u8, MAX_ADDRESS as int) is None,
    decreases area - from,
{
    if from < area {
        no_overlap_of_area(ms, from + 1, area);
    }
}

/// Valid mappings of one area share no address.
pub proof fn valid_mappings_are_disjoint(ms: Seq<TagMappingView>, i: int, j: int)
    requires
        mappings_fault(ms) is None,
        0 <= i < ms.len(),
        0 <= j < ms.len(),
        i != j,
        ms[i].area == ms[j].area,
    ensures
        ms[i].address + ms[i].word_count <= ms[j].address || ms[j].address + ms[j].word_count
            <= ms[i].address,
{
    valid_mappings_are_each_valid(ms, i);
    valid_mappings_are_each_valid(ms, j);
    let spans = mapping_spans(ms);
    let area = ms[i].area;
    no_overlap_of_area(ms, 0, area as int);
    assert(spans[i] == mapping_span(ms[i]));
    assert(spans[j] == mapping_span(ms[j]));
    spans_without_overlap_are_disjoint(spans, area, MAX_ADDRESS as int, i, j);
}

/// Mappings are accepted where each is valid by itself and no two of one area share an address.
pub proof fn disjoint_valid_mappings_are_accepted(ms: Seq<TagMappingView>)
    requires
        forall|i: int| 0 <= i < ms.len() ==> mapping_fault(#[trigger] ms[i]) is None,
        forall|i: int, j: int|
            0 <= i < ms.len() && 0 <= j < ms.len() && i != j && ms[i].area == ms[j].area
                ==> (#[trigger] ms[i]).address + ms[i].word_count <= (#[trigger] ms[j]).address
                || ms[j].address + ms[j].word_count <= ms[i].address,
    ensures
        mappings_fault(ms) is None,
{
    valid_mappings_have_no_fault(ms);
    no_overlap_from(ms, 0);
}

proof fn valid_mappings_have_no_fault(ms: Seq<TagMappingView>)
    requires
        forall|i: int| 0 <= i < ms.len() ==> mapping_fault(#[trigger] ms[i]) is None,
    ensures
        first_mapping_fault(ms) is None,
    decreases ms.len(),
{
    if ms.len() > 0 {
        let front = ms.drop_last();
        assert forall|i: int| 0 <= i < front.len() implies mapping_fault(
            #[trigger] front[i],
        ) is None by {
            assert(front[i] == ms[i]);
        }
        valid_mappings_have_no_fault(front);
        assert(ms.last() == ms[ms.len() - 1]);
    }
}

proof fn no_overlap_from(ms: Seq<TagMappingView>, from: int)
    requires
        0 <= from <= 256,
        forall|i: int| 0 <= i < ms.len() ==> mapping_fault(#[trigger] ms[i]) is None,
        forall|i: int, j: int|
            0 <= i < ms.len() && 0 <= j < ms.len() && i != j && ms[i].area == ms[j].area
                ==> (#[trigger] ms[i]).address + ms[i].word_count <= (#[trigger] ms[j]).address
                || ms[j].address + ms[j].word_count <= ms[i].address,
    ensures
        overlap_fault(ms, from) is None,
    decreases 256 - from,
{
    if from < 256 {
        no_overlap_from(ms, from + 1);
        let spans = mapping_spans(ms);
        assert forall|k: int| 0 <= k < spans.len() implies 0 < (#[trigger] spans[k]).len by {
            assert(mapping_fault(ms[k]) is None);
        }
        overlapping_spans_share_an_address(spans, from as u8, MAX_ADDRESS as int);
        if let Some(p) = first_overlap(spans, from as u8, MAX_ADDRESS as int) {
            assert(spans[p.0] == mapping_span(ms[p.0]));
            assert(spans[p.1] == mapping_span(ms[p.1]));
            assert(ms[p.0].area == ms[p.1].area);
            assert(mapping_fault(ms[p.1]) is None);
        }
    }
}

/// Of mappings that are refused, the first one that is not valid by itself is told.
pub proof fn first_invalid_mapping_is_told(ms: Seq<TagMappingView>, k: int)
    requires
        0 <= k < ms.len(),
        mapping_fault(ms[k]) is Some,
        forall|i: int| 0 <= i < k ==> mapping_fault(#[trigger] ms[i]) is None,
    ensures
        mappings_fault(ms) == mapping_fault(ms[k]),
{
    let front = ms.take(k);
    assert forall|i: int| 0 <= i < front.len() implies mapping_fault(
        #[trigger] front[i],
    ) is None by {
        assert(front[i] == ms[i]);
    }
    valid_mappings_have_no_fault(front);
    assert(ms.take(k + 1).drop_last() =~= front);
    assert(ms.take(k + 1).last() == ms[k]);
    mapping_fault_stays(ms, k + 1);
}

} // verus!
