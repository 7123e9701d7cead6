//! Validation of Modbus mappings.

use crate::core_model::tag_value::{order_name, TagDataType, WordOrder};
use crate::driver_common::plan::{
    find_overlap, first_overlap, last_address, overlapping_spans_share_an_address, span_last,
    spans_without_overlap_are_disjoint, Span,
};
use crate::driver_modbus::errors::{DriverError, DriverErrorView};
use crate::driver_modbus::mapping::{
    function_name, mapping_views, ModbusFunction, ModbusMapping, ModbusMappingView,
};
use crate::text;
use crate::text::decimal;
use vstd::prelude::*;
use vstd::string::*;

verus! {

/// Highest Modbus address.
pub const MAX_ADDRESS: u32 = 0xFFFF;

/// Number of a function among the address spaces.
pub open spec fn function_class(f: ModbusFunction) -> u8 {
    match f {
        ModbusFunction::Coils => 0,
        ModbusFunction::DiscreteInputs => 1,
        ModbusFunction::HoldingRegisters => 2,
        ModbusFunction::InputRegisters => 3,
    }
}

/// The function with a number; there are four.
pub open spec fn class_function(class: u8) -> ModbusFunction {
    if class == 0 {
        ModbusFunction::Coils
    } else if class == 1 {
        ModbusFunction::DiscreteInputs
    } else if class == 2 {
        ModbusFunction::HoldingRegisters
    } else {
        ModbusFunction::InputRegisters
    }
}

/// Number of a function among the address spaces.
pub fn class_of(f: ModbusFunction) -> (r: u8)
    ensures
        r == function_class(f),
        r < 4,
{
    match f {
        ModbusFunction::Coils => 0,
        ModbusFunction::DiscreteInputs => 1,
        ModbusFunction::HoldingRegisters => 2,
        ModbusFunction::InputRegisters => 3,
    }
}

/// The function with a number.
pub fn function_of(class: u8) -> (r: ModbusFunction)
    ensures
        r == class_function(class),
{
    if class == 0 {
        ModbusFunction::Coils
    } else if class == 1 {
        ModbusFunction::DiscreteInputs
    } else if class == 2 {
        ModbusFunction::HoldingRegisters
    } else {
        ModbusFunction::InputRegisters
    }
}

/// The addresses of a mapping.
pub open spec fn mapping_span(m: ModbusMappingView) -> Span {
    Span { class: function_class(m.function), start: m.address as u32, len: m.quantity as u32 }
}

/// The addresses of mappings.
pub open spec fn mapping_spans(ms: Seq<ModbusMappingView>) -> Seq<Span> {
    Seq::new(ms.len(), |i: int| mapping_span(ms[i]))
}

/// The addresses of mappings.
pub fn spans_of(mappings: &Vec<ModbusMapping>) -> (r: Vec<Span>)
    ensures
        r@ == mapping_spans(mapping_views(mappings@)),
{
    let mut spans: Vec<Span> = Vec::new();
    let mut i: usize = 0;
    while i < mappings.len()
        invariant
            i <= mappings@.len(),
            spans@ =~= mapping_spans(mapping_views(mappings@)).take(i as int),
        decreases mappings@.len() - i,
    {
        let m = &mappings[i];
        spans.push(
            Span { class: class_of(m.function), start: m.address as u32, len: m.quantity as u32 },
        );
        i = i + 1;
    }
    assert(spans@ =~= mapping_spans(mapping_views(mappings@)));
    spans
}

/// What is wrong with a mapping by itself.
pub open spec fn mapping_fault(m: ModbusMappingView) -> Option<Seq<char>> {
    let about = "Mapping '"@ + m.tag_id;
    if m.quantity == 0 {
        Some(about + "' has zero quantity"@)
    } else if m.bit_offset >= 16 {
        Some(
            about + "' has invalid bit_offset "@ + decimal(m.bit_offset as nat)
                + " (must be 0..15)"@,
        )
    } else if (m.data_type == TagDataType::Float || m.data_type == TagDataType::Int32
        || m.data_type == TagDataType::UInt32) && m.quantity < 2 {
        Some(about + "' data_type requires quantity >= 2"@)
    } else if m.data_type == TagDataType::Double && m.quantity < 4 {
        Some(about + "' data_type 'Double' requires quantity >= 4"@)
    } else if (m.function == ModbusFunction::InputRegisters || m.function
        == ModbusFunction::DiscreteInputs) && m.writable {
        Some(
            about + "' marked writable but uses read-only function "@ + function_name(m.function),
        )
    } else if (m.byte_order == WordOrder::CDAB || m.byte_order == WordOrder::DCBA) && m.quantity
        < 2 {
        Some(
            about + "' uses byte_order "@ + order_name(m.byte_order)
                + " which requires quantity >= 2"@,
        )
    } else {
        None
    }
}

/// The fault of the first mapping that has one.
pub open spec fn first_mapping_fault(ms: Seq<ModbusMappingView>) -> Option<Seq<char>>
    decreases ms.len(),
{
    if ms.len() == 0 {
        None
    } else {
        match first_mapping_fault(ms.drop_last()) {
            Some(t) => Some(t),
            None => mapping_fault(ms.last()),
        }
    }
}

/// A mapping with its first and last address, as in `'a'[10..11]`.
pub open spec fn range_text(m: ModbusMappingView) -> Seq<char> {
    "'"@ + m.tag_id + "'["@ + decimal(m.address as nat) + ".."@ + decimal(
        last_address(mapping_span(m), MAX_ADDRESS as int) as nat,
    ) + "]"@
}

/// The message that two mappings overlap.
pub open spec fn overlap_text(f: ModbusFunction, a: ModbusMappingView, b: ModbusMappingView) -> Seq<
    char,
> {
    "Overlapping Modbus ranges for function "@ + function_name(f) + ": "@ + range_text(a)
        + " overlaps "@ + range_text(b)
}

/// The message of the first overlap, the functions from number `class` on taken in turn.
pub open spec fn overlap_fault(ms: Seq<ModbusMappingView>, class: int) -> Option<Seq<char>>
    decreases 4 - class,
{
    if class < 0 || class >= 4 {
        None
    } else {
        match first_overlap(mapping_spans(ms), class as u8, MAX_ADDRESS as int) {
            Some(p) => Some(overlap_text(class_function(class as u8), ms[p.0], ms[p.1])),
            None => overlap_fault(ms, class + 1),
        }
    }
}

/// What is wrong with mappings: the fault of the first mapping that has one, else the first
/// overlap.
pub open spec fn mappings_fault(ms: Seq<ModbusMappingView>) -> Option<Seq<char>> {
    match first_mapping_fault(ms) {
        Some(t) => Some(t),
        None => overlap_fault(ms, 0),
    }
}

fn check_mapping(m: &ModbusMapping) -> (r: Option<String>)
    ensures
        match r {
            Some(t) => mapping_fault(m@) == Some(t@),
            None => mapping_fault(m@) is None,
        },
{
    let mut about = text::join2("Mapping '", m.tag_id.as_str());
    if m.quantity == 0 {
        about.append("' has zero quantity");
        return Some(about);
    }
    if m.bit_offset >= 16 {
        about.append("' has invalid bit_offset ");
        about.append(text::to_decimal(m.bit_offset as u64).as_str());
        about.append(" (must be 0..15)");
        return Some(about);
    }
    match m.data_type {
        TagDataType::Float | TagDataType::Int32 | TagDataType::UInt32 => {
            if m.quantity < 2 {
                about.append("' data_type requires quantity >= 2");
                return Some(about);
            }
        },
        TagDataType::Double => {
            if m.quantity < 4 {
                about.append("' data_type 'Double' requires quantity >= 4");
                return Some(about);
            }
        },
        _ => {},
    }
    match m.function {
        ModbusFunction::InputRegisters | ModbusFunction::DiscreteInputs => {
            if m.writable {
                about.append("' marked writable but uses read-only function ");
                about.append(m.function.name());
                return Some(about);
            }
        },
        _ => {},
    }
    if (m.byte_order == WordOrder::CDAB || m.byte_order == WordOrder::DCBA) && m.quantity < 2 {
        about.append("' uses byte_order ");
        about.append(m.byte_order.name());
        about.append(" which requires quantity >= 2");
        return Some(about);
    }
    None
}

fn write_range(m: &ModbusMapping) -> (r: String)
    ensures
        r@ == range_text(m@),
{
    let span = Span {
        class: class_of(m.function),
        start: m.address as u32,
        len: m.quantity as u32,
    };
    let mut s = text::join3("'", m.tag_id.as_str(), "'[");
    s.append(text::to_decimal(m.address as u64).as_str());
    s.append("..");
    s.append(text::to_decimal(span_last(&span, MAX_ADDRESS) as u64).as_str());
    s.append("]");
    s
}

proof fn mapping_fault_stays(ms: Seq<ModbusMappingView>, k: int)
    requires
        0 <= k <= ms.len(),
        first_mapping_fault(ms.take(k)) is Some,
    ensures
        first_mapping_fault(ms) == first_mapping_fault(ms.take(k)),
    decreases ms.len() - k,
{
    if k < ms.len() {
        assert(ms.take(k + 1).drop_last() =~= ms.take(k));
        mapping_fault_stays(ms, k + 1);
    } else {
        assert(ms.take(k) =~= ms);
    }
}

/// Check mappings: quantities, bit offsets, sizes of data types, writability of read-only
/// functions, byte orders, and overlapping address ranges per function.
pub fn validate_mappings(mappings: &Vec<ModbusMapping>) -> (r: Result<(), DriverError>)
    ensures
        match r {
            Ok(_) => mappings_fault(mapping_views(mappings@)) is None,
            Err(e) => match mappings_fault(mapping_views(mappings@)) {
                Some(t) => e@ == DriverErrorView::Mapping(t),
                None => false,
            },
        },
{
    let ghost ms = mapping_views(mappings@);
    let mut i: usize = 0;
    while i < mappings.len()
        invariant
            i <= mappings@.len(),
            ms == mapping_views(mappings@),
            first_mapping_fault(ms.take(i as int)) is None,
        decreases mappings@.len() - i,
    {
        proof {
            assert(ms.take(i + 1).drop_last() =~= ms.take(i as int));
            assert(ms.take(i + 1).last() == mappings@[i as int]@);
        }
        match check_mapping(&mappings[i]) {
            Some(t) => {
                proof {
                    mapping_fault_stays(ms, i + 1);
                }
                return Err(DriverError::Mapping(t));
            },
            None => {},
        }
        i = i + 1;
    }
    assert(ms.take(i as int) =~= ms);
    let spans = spans_of(mappings);
    let mut class: u8 = 0;
    while class < 4
        invariant
            class <= 4,
            ms == mapping_views(mappings@),
            spans@ == mapping_spans(ms),
            first_mapping_fault(ms) is None,
            overlap_fault(ms, 0) == overlap_fault(ms, class as int),
        decreases 4 - class,
    {
        match find_overlap(&spans, class, MAX_ADDRESS) {
            Some(p) => {
                let mut s = text::join3(
                    "Overlapping Modbus ranges for function ",
                    function_of(class).name(),
                    ": ",
                );
                s.append(write_range(&mappings[p.0]).as_str());
                s.append(" overlaps ");
                s.append(write_range(&mappings[p.1]).as_str());
                return Err(DriverError::Mapping(s));
            },
            None => {},
        }
        class = class + 1;
    }
    Ok(())
}

/// Mappings that are valid are each valid by themselves.
pub proof fn valid_mappings_are_each_valid(ms: Seq<ModbusMappingView>, i: int)
    requires
        mappings_fault(ms) is None,
        0 <= i < ms.len(),
    ensures
        mapping_fault(ms[i]) is None,
{
    each_without_fault(ms, i);
}

proof fn each_without_fault(ms: Seq<ModbusMappingView>, i: int)
    requires
        first_mapping_fault(ms) is None,
        0 <= i < ms.len(),
    ensures
        mapping_fault(ms[i]) is None,
    decreases ms.len(),
{
    if i < ms.len() - 1 {
        each_without_fault(ms.drop_last(), i);
        assert(ms.drop_last()[i] == ms[i]);
    }
}

/// Where no overlap is told, no function has one.
pub proof fn no_overlap_of_class(ms: Seq<ModbusMappingView>, from: int, class: int)
    requires
        overlap_fault(ms, from) is None,
        0 <= from <= class < 4,
    ensures
        first_overlap(mapping_spans(ms), class as u8, MAX_ADDRESS as int) is None,
    decreases class - from,
{
    if from < class {
        no_overlap_of_class(ms, from + 1, class);
    }
}

/// Valid mappings of one function share no address.
pub proof fn valid_mappings_are_disjoint(ms: Seq<ModbusMappingView>, i: int, j: int)
    requires
        mappings_fault(ms) is None,
        0 <= i < ms.len(),
        0 <= j < ms.len(),
        i != j,
        ms[i].function == ms[j].function,
    ensures
        ms[i].address + ms[i].quantity <= ms[j].address || ms[j].address + ms[j].quantity
            <= ms[i].address,
{
    valid_mappings_are_each_valid(ms, i);
    valid_mappings_are_each_valid(ms, j);
    let spans = mapping_spans(ms);
    let class = function_class(ms[i].function);
    no_overlap_of_class(ms, 0, class as int);
    assert(spans[i] == mapping_span(ms[i]));
    assert(spans[j] == mapping_span(ms[j]));
    spans_without_overlap_are_disjoint(spans, class, MAX_ADDRESS as int, i, j);
}

/// Mappings are accepted where each is valid by itself and no two of one function share an address.
pub proof fn disjoint_valid_mappings_are_accepted(ms: Seq<ModbusMappingView>)
    requires
        forall|i: int| 0 <= i < ms.len() ==> mapping_fault(#[trigger] ms[i]) is None,
        forall|i: int, j: int|
            0 <= i < ms.len() && 0 <= j < ms.len() && i != j && ms[i].function == ms[j].function
                ==> (#[trigger] ms[i]).address + ms[i].quantity <= (#[trigger] ms[j]).address
                || ms[j].address + ms[j].quantity <= ms[i].address,
    ensures
        mappings_fault(ms) is None,
{
    valid_mappings_have_no_fault(ms);
    no_overlap_from(ms, 0);
}

proof fn valid_mappings_have_no_fault(ms: Seq<ModbusMappingView>)
    requires
        forall|i: int| 0 <= i < ms.len() ==> mapping_fault(#[trigger] ms[i]) is None,
    ensures
        first_mapping_fault(ms) is None,
    decreases ms.len(),
{
    if ms.len() > 0 {
        let front = ms.drop_last();
        assert forall|i: int| 0 <= i < front.len() implies mapping_fault(
            #[trigger] front[i],
        ) is None by {
            assert(front[i] == ms[i]);
        }
        valid_mappings_have_no_fault(front);
        assert(ms.last() == ms[ms.len() - 1]);
    }
}

proof fn no_overlap_from(ms: Seq<ModbusMappingView>, from: int)
    requires
        0 <= from <= 4,
        forall|i: int| 0 <= i < ms.len() ==> mapping_fault(#[trigger] ms[i]) is None,
        forall|i: int, j: int|
            0 <= i < ms.len() && 0 <= j < ms.len() && i != j && ms[i].function == ms[j].function
                ==> (#[trigger] ms[i]).address + ms[i].quantity <= (#[trigger] ms[j]).address
                || ms[j].address + ms[j].quantity <= ms[i].address,
    ensures
        overlap_fault(ms, from) is None,
    decreases 4 - from,
{
    if from < 4 {
        no_overlap_from(ms, from + 1);
        let spans = mapping_spans(ms);
        assert forall|k: int| 0 <= k < spans.len() implies 0 < (#[trigger] spans[k]).len by {
            assert(mapping_fault(ms[k]) is None);
        }
        overlapping_spans_share_an_address(spans, from as u8, MAX_ADDRESS as int);
        if let Some(p) = first_overlap(spans, from as u8, MAX_ADDRESS as int) {
            assert(spans[p.0] == mapping_span(ms[p.0]));
            assert(spans[p.1] == mapping_span(ms[p.1]));
            assert(ms[p.0].function == ms[p.1].function);
            assert(mapping_fault(ms[p.1]) is None);
        }
    }
}

/// Of mappings that are refused, the first one that is not valid by itself is told.
pub proof fn first_invalid_mapping_is_told(ms: Seq<ModbusMappingView>, k: int)
    requires
        0 <= k < ms.len(),
        mapping_fault(ms[k]) is Some,
        forall|i: int| 0 <= i < k ==> mapping_fault(#[trigger] ms[i]) is None,
    ensures
        mappings_fault(ms) == mapping_fault(ms[k]),
{
    let front = ms.take(k);
    assert forall|i: int| 0 <= i < front.len() implies mapping_fault(
        #[trigger] front[i],
    ) is None by {
        assert(front[i] == ms[i]);
    }
    valid_mappings_have_no_fault(front);
    assert(ms.take(k + 1).drop_last() =~= front);
    assert(ms.take(k + 1).last() == ms[k]);
    mapping_fault_stays(ms, k + 1);
}

} // verus!
