//! What the read requests of a FINS cycle ask for.

use crate::driver_common::plan::{
    class_plan, class_splittable, disjoint_spans_are_read_once, first_overlap,
    plan_reads_addresses_of_spans_only, plan_respects_maximum, small_maximum_splits_class,
    touching_requests_are_full, ChunkView, Span,
};
use crate::driver_fins::mapping::TagMappingView;
use crate::driver_fins::read::{areas_plan, plannable, read_plan};
use crate::driver_fins::validate::{
    mapping_fault, mapping_span, mapping_spans, mappings_fault, no_overlap_of_area,
    valid_mappings_are_each_valid, MAX_ADDRESS,
};
use vstd::prelude::*;

verus! {

spec fn own_plan(spans: Seq<Span>, max: int, area: int) -> Seq<ChunkView> {
    class_plan(spans, area as u8, MAX_ADDRESS as int, max)
}

spec fn first_of(spans: Seq<Span>, max: int, area: int) -> int {
    areas_plan(spans, max, area as nat).len() as int
}

proof fn area_of_request(spans: Seq<Span>, max: int, n: nat, p: int) -> (area: int)
    requires
        n <= 256,
        0 <= p < areas_plan(spans, max, n).len(),
    ensures
        0 <= area < n,
        first_of(spans, max, area) <= p < first_of(spans, max, area) + own_plan(
            spans,
            max,
            area,
        ).len(),
        areas_plan(spans, max, n)[p] == own_plan(spans, max, area)[p - first_of(spans, max, area)],
        areas_plan(spans, max, n)[p].class == area,
    decreases n,
{
    let rest = areas_plan(spans, max, (n - 1) as nat);
    if p < rest.len() {
        let area = area_of_request(spans, max, (n - 1) as nat, p);
        assert(areas_plan(spans, max, n)[p] == rest[p]);
        area
    } else {
        let area = n - 1;
        plan_respects_maximum(spans, area as u8, MAX_ADDRESS as int, max, p - rest.len());
        area
    }
}

proof fn areas_follow_each_other(spans: Seq<Span>, max: int, a: int, b: int)
    requires
        0 <= a < b <= 256,
    ensures
        first_of(spans, max, a) + own_plan(spans, max, a).len() <= first_of(spans, max, b),
    decreases b - a,
{
    if a < b - 1 {
        areas_follow_each_other(spans, max, a, b - 1);
    }
    assert(areas_plan(spans, max, b as nat) == areas_plan(spans, max, (b - 1) as nat) + own_plan(
        spans,
        max,
        b - 1,
    ));
}

/// Nothing else is asked for: every address of a request belongs to a mapping of its area that the
/// request is made for.
pub proof fn only_mapped_addresses_are_asked_for(
    ms: Seq<TagMappingView>,
    max: u32,
    p: int,
    w: int,
) -> (i: int)
    requires
        0 <= p < read_plan(ms, max).len(),
        read_plan(ms, max)[p].start <= w < read_plan(ms, max)[p].start + read_plan(ms, max)[p].len,
    ensures
        0 <= i < ms.len(),
        read_plan(ms, max)[p].members.contains(i),
        ms[i].area == read_plan(ms, max)[p].class,
        ms[i].address <= w < ms[i].address + ms[i].word_count,
{
    let spans = mapping_spans(ms);
    let area = area_of_request(spans, max as int, 256, p);
    let b = plan_reads_addresses_of_spans_only(
        spans,
        area as u8,
        MAX_ADDRESS as int,
        max as int,
        p - first_of(spans, max as int, area),
        w,
    );
    let i = read_plan(ms, max)[p].members[b];
    assert(spans[i] == mapping_span(ms[i]));
    i
}

proof fn valid_spans(ms: Seq<TagMappingView>, area: int)
    requires
        mappings_fault(ms) is None,
        0 <= area < 256,
    ensures
        first_overlap(mapping_spans(ms), area as u8, MAX_ADDRESS as int) is None,
        forall|k: int|
            0 <= k < mapping_spans(ms).len() ==> (#[trigger] mapping_spans(ms)[k]).start
                <= MAX_ADDRESS && 0 < mapping_spans(ms)[k].len,
{
    no_overlap_of_area(ms, 0, area);
    let spans = mapping_spans(ms);
    assert forall|k: int| 0 <= k < spans.len() implies (#[trigger] spans[k]).start <= MAX_ADDRESS && 0
        < spans[k].len by {
        valid_mappings_are_each_valid(ms, k);
        assert(mapping_fault(ms[k]) is None);
        assert(spans[k] == mapping_span(ms[k]));
    }
}

/// Of valid mappings no address is asked for twice: of two requests of one area the later one
/// starts where the earlier one has ended, and the areas follow each other in their order.
pub proof fn no_address_is_asked_for_twice(ms: Seq<TagMappingView>, max: u32, p: int, q: int)
    requires
        mappings_fault(ms) is None,
        0 <= p < q < read_plan(ms, max).len(),
    ensures
        read_plan(ms, max)[p].class <= read_plan(ms, max)[q].class,
        read_plan(ms, max)[p].class == read_plan(ms, max)[q].class ==> read_plan(ms, max)[p].start
            + read_plan(ms, max)[p].len <= read_plan(ms, max)[q].start,
{
    let spans = mapping_spans(ms);
    let a = area_of_request(spans, max as int, 256, p);
    let b = area_of_request(spans, max as int, 256, q);
    if a == b {
        valid_spans(ms, a);
        disjoint_spans_are_read_once(
            spans,
            a as u8,
            MAX_ADDRESS as int,
            max as int,
            p - first_of(spans, max as int, a),
            q - first_of(spans, max as int, a),
        );
    } else if b < a {
        areas_follow_each_other(spans, max as int, b, a);
    }
}

/// Of valid mappings addresses that touch are asked for together: a request ends right before the
/// next one of its area only where it asks for as many words as it may.
pub proof fn touching_addresses_are_asked_for_together(ms: Seq<TagMappingView>, max: u32, p: int)
    requires
        1 <= max <= 0xFFFF,
        mappings_fault(ms) is None,
        0 <= p,
        p + 1 < read_plan(ms, max).len(),
        read_plan(ms, max)[p].class == read_plan(ms, max)[p + 1].class,
        read_plan(ms, max)[p].start + read_plan(ms, max)[p].len == read_plan(ms, max)[p + 1].start,
    ensures
        read_plan(ms, max)[p].len == max,
{
    let spans = mapping_spans(ms);
    let a = area_of_request(spans, max as int, 256, p);
    let b = area_of_request(spans, max as int, 256, p + 1);
    valid_spans(ms, a);
    touching_requests_are_full(
        spans,
        a as u8,
        MAX_ADDRESS as int,
        max as int,
        p - first_of(spans, max as int, a),
    );
}

/// Any mappings can be read with requests for one word or more, as far as two bytes can tell their
/// number.
pub proof fn requests_of_any_size_can_be_planned(ms: Seq<TagMappingView>, max: u32)
    requires
        1 <= max <= 0xFFFF,
    ensures
        plannable(ms, max),
{
    assert forall|area: u8| #[trigger]
        class_splittable(mapping_spans(ms), area, MAX_ADDRESS as int, max as int) by {
        small_maximum_splits_class(mapping_spans(ms), area, MAX_ADDRESS as int, max as int);
    }
}

} // verus!
