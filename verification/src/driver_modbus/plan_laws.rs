//! What the read requests of a Modbus cycle ask for.

use crate::driver_common::plan::{
    class_plan, disjoint_spans_are_read_once, first_overlap, plan_reads_addresses_of_spans_only,
    plan_respects_maximum, touching_requests_are_full, ChunkView,
};
use crate::driver_modbus::cycle_laws::functions_have_their_numbers;
use crate::driver_modbus::mapping::ModbusMappingView;
use crate::driver_modbus::read::{read_plan, MAX_COILS, MAX_REGISTERS};
use crate::driver_modbus::validate::{
    class_function, function_class, mapping_fault, mapping_span, mapping_spans, mappings_fault,
    no_overlap_of_class, valid_mappings_are_each_valid, MAX_ADDRESS,
};
use vstd::prelude::*;

verus! {

spec fn most(class: int) -> int {
    if class < 2 {
        MAX_COILS as int
    } else {
        MAX_REGISTERS as int
    }
}

spec fn own_plan(ms: Seq<ModbusMappingView>, class: int) -> Seq<ChunkView> {
    class_plan(mapping_spans(ms), class as u8, MAX_ADDRESS as int, most(class))
}

spec fn first_of(ms: Seq<ModbusMappingView>, class: int) -> int {
    if class <= 0 {
        0
    } else if class == 1 {
        own_plan(ms, 0).len() as int
    } else if class == 2 {
        (own_plan(ms, 0).len() + own_plan(ms, 1).len()) as int
    } else {
        (own_plan(ms, 0).len() + own_plan(ms, 1).len() + own_plan(ms, 2).len()) as int
    }
}

proof fn class_of_request(ms: Seq<ModbusMappingView>, p: int) -> (class: int)
    requires
        0 <= p < read_plan(ms).len(),
    ensures
        0 <= class < 4,
        first_of(ms, class) <= p < first_of(ms, class) + own_plan(ms, class).len(),
        read_plan(ms)[p] == own_plan(ms, class)[p - first_of(ms, class)],
        read_plan(ms)[p].class == class,
{
    let class = if p < first_of(ms, 1) {
        0int
    } else if p < first_of(ms, 2) {
        1int
    } else if p < first_of(ms, 3) {
        2int
    } else {
        3int
    };
    plan_respects_maximum(
        mapping_spans(ms),
        class as u8,
        MAX_ADDRESS as int,
        most(class),
        p - first_of(ms, class),
    );
    class
}

/// Nothing else is asked for: every address of a request belongs to a mapping of its function that
/// the request is made for.
pub proof fn only_mapped_addresses_are_asked_for(ms: Seq<ModbusMappingView>, p: int, w: int) -> (i:
    int)
    requires
        0 <= p < read_plan(ms).len(),
        read_plan(ms)[p].start <= w < read_plan(ms)[p].start + read_plan(ms)[p].len,
    ensures
        0 <= i < ms.len(),
        read_plan(ms)[p].members.contains(i),
        ms[i].function == class_function(read_plan(ms)[p].class),
        ms[i].address <= w < ms[i].address + ms[i].quantity,
{
    let class = class_of_request(ms, p);
    let spans = mapping_spans(ms);
    let b = plan_reads_addresses_of_spans_only(
        spans,
        class as u8,
        MAX_ADDRESS as int,
        most(class),
        p - first_of(ms, class),
        w,
    );
    let i = read_plan(ms)[p].members[b];
    functions_have_their_numbers();
    assert(spans[i] == mapping_span(ms[i]));
    assert(class_function(function_class(ms[i].function)) == ms[i].function);
    i
}

proof fn valid_spans(ms: Seq<ModbusMappingView>, class: int)
    requires
        mappings_fault(ms) is None,
        0 <= class < 4,
    ensures
        first_overlap(mapping_spans(ms), class as u8, MAX_ADDRESS as int) is None,
        forall|k: int|
            0 <= k < mapping_spans(ms).len() ==> (#[trigger] mapping_spans(ms)[k]).start
                <= MAX_ADDRESS && 0 < mapping_spans(ms)[k].len,
{
    no_overlap_of_class(ms, 0, class);
    let spans = mapping_spans(ms);
    assert forall|k: int| 0 <= k < spans.len() implies (#[trigger] spans[k]).start <= MAX_ADDRESS && 0
        < spans[k].len by {
        valid_mappings_are_each_valid(ms, k);
        assert(mapping_fault(ms[k]) is None);
        assert(spans[k] == mapping_span(ms[k]));
    }
}

/// Of valid mappings no address is asked for twice: of two requests of one function the later one
/// starts where the earlier one has ended, and the functions follow each other in their order.
pub proof fn no_address_is_asked_for_twice(ms: Seq<ModbusMappingView>, p: int, q: int)
    requires
        mappings_fault(ms) is None,
        0 <= p < q < read_plan(ms).len(),
    ensures
        read_plan(ms)[p].class <= read_plan(ms)[q].class,
        read_plan(ms)[p].class == read_plan(ms)[q].class ==> read_plan(ms)[p].start
            + read_plan(ms)[p].len <= read_plan(ms)[q].start,
{
    let a = class_of_request(ms, p);
    let b = class_of_request(ms, q);
    if a == b {
        valid_spans(ms, a);
        disjoint_spans_are_read_once(
            mapping_spans(ms),
            a as u8,
            MAX_ADDRESS as int,
            most(a),
            p - first_of(ms, a),
            q - first_of(ms, a),
        );
    }
}

/// Of valid mappings addresses that touch are asked for together: a request ends right before the
/// next one of its function only where it asks for as much as the protocol allows, which is 2000
/// coils or discrete inputs and 125 registers.
pub proof fn touching_addresses_are_asked_for_together(ms: Seq<ModbusMappingView>, p: int)
    requires
        mappings_fault(ms) is None,
        0 <= p,
        p + 1 < read_plan(ms).len(),
        read_plan(ms)[p].class == read_plan(ms)[p + 1].class,
        read_plan(ms)[p].start + read_plan(ms)[p].len == read_plan(ms)[p + 1].start,
    ensures
        read_plan(ms)[p].len == if read_plan(ms)[p].class < 2 {
            2000int
        } else {
            125
        },
{
    let a = class_of_request(ms, p);
    let b = class_of_request(ms, p + 1);
    valid_spans(ms, a);
    touching_requests_are_full(
        mapping_spans(ms),
        a as u8,
        MAX_ADDRESS as int,
        most(a),
        p - first_of(ms, a),
    );
}

} // verus!
