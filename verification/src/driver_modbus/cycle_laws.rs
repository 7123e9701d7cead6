//! How a Modbus cycle goes on after each event, and what it asks of the device.

use crate::core_model::registry::{same_tag, RegistryView};
use crate::core_model::tag_value::{
    reordered, TagDataType, TagQualityView, TagValueView, WordOrder,
};
use crate::driver_common::health::HealthEventView;
use crate::driver_common::plan::ChunkView;
use crate::driver_common::words::bytes_of;
use crate::driver_common::write_request::{ReplyId, ReplyView, WriteRequestView};
use crate::driver_common::write_words;
use crate::driver_modbus::codec::{bit_of, decoded};
use crate::driver_modbus::config::ModbusConfig;
use crate::driver_modbus::driver::{
    is_device_failure, is_illegal, is_mapping_of, mapping_for, read_result, Action, ActionView,
    EventView, ModbusDriver, ModbusDriverView, Outcome, PendingWriteView, PhaseView, ReadOutcome, Step,
    WriteOutcomeView,
};
use crate::driver_modbus::errors::{error_text, DriverErrorView};
use crate::driver_modbus::laws::cycle_reads_every_mapped_address;
use crate::driver_modbus::mapping::{function_name, ModbusFunction, ModbusMappingView};
use crate::driver_modbus::read::{
    bits_number, mark, packed, packed_word_has_its_bits, read_plan, read_plan_is_sound, take_part,
    take_parts, ReadDataView,
};
use crate::driver_modbus::validate::{
    class_function, function_class, mapping_fault, mapping_spans, range_text,
};
use crate::text::{decimal, has};
use crate::text_laws::{occurrence_splits, occurs_between};
use crate::time::Timestamp;
use vstd::arithmetic::power2::pow2;
use vstd::prelude::*;
use vstd::string::*;

verus! {

// ---------------------------------------------------------------------------
// What is asked of the device
// ---------------------------------------------------------------------------

/// The four functions have the numbers 0 to 3, and each number stands for its own function.
pub proof fn functions_have_their_numbers()
    ensures
        class_function(0) == ModbusFunction::Coils,
        class_function(1) == ModbusFunction::DiscreteInputs,
        class_function(2) == ModbusFunction::HoldingRegisters,
        class_function(3) == ModbusFunction::InputRegisters,
        forall|f: ModbusFunction| class_function(#[trigger] function_class(f)) == f,
{
    assert forall|f: ModbusFunction| class_function(#[trigger] function_class(f)) == f by {
        match f {
            ModbusFunction::Coils => {},
            ModbusFunction::DiscreteInputs => {},
            ModbusFunction::HoldingRegisters => {},
            ModbusFunction::InputRegisters => {},
        }
    }
}

/// Whenever the device is asked for something, it is asked for what the request of the plan that
/// is under way says: its function, its first address and its number of addresses.
pub proof fn read_asks_for_its_request(
    d: ModbusDriverView,
    reg: RegistryView,
    event: EventView,
    now: Timestamp,
)
    requires
        d.sound(),
        d.awaits(event),
    ensures
        ({
            let o = d.on_event(reg, event, now);
            &&& o.step.action is Read <==> o.phase is Reading
            &&& o.phase matches PhaseView::Reading { next } ==> (o.step.action matches ActionView::Read {
                function,
                start,
                quantity,
            } && {
                &&& 0 <= next < d.plan().len()
                &&& function == class_function(d.plan()[next].class)
                &&& start == d.plan()[next].start
                &&& quantity == d.plan()[next].len
            })
        }),
{
}

/// Every address of every mapping is asked of the device under its own number and the function of
/// its mapping: some request of the plan covers it on behalf of the mapping.
pub proof fn every_address_is_asked_for(ms: Seq<ModbusMappingView>, i: int, w: int) -> (p: int)
    requires
        0 <= i < ms.len(),
        ms[i].address <= w < ms[i].address + ms[i].quantity,
        w <= 0xFFFF,
    ensures
        0 <= p < read_plan(ms).len(),
        read_plan(ms)[p].start <= w < read_plan(ms)[p].start + read_plan(ms)[p].len,
        class_function(read_plan(ms)[p].class) == ms[i].function,
        read_plan(ms)[p].members.contains(i),
{
    cycle_reads_every_mapped_address(ms, i, w);
    let plan = read_plan(ms);
    let p = choose|p: int|
        {
            &&& 0 <= p < plan.len()
            &&& (#[trigger] plan[p]).start <= w < plan[p].start + plan[p].len
            &&& plan[p].members.contains(i)
        };
    read_plan_is_sound(ms, p);
    let b = choose|b: int| 0 <= b < plan[p].members.len() && plan[p].members[b] == i;
    assert(mapping_spans(ms)[plan[p].members[b]].class == plan[p].class);
    functions_have_their_numbers();
    assert(class_function(function_class(ms[i].function)) == ms[i].function);
    p
}

/// No request asks for more than the protocol allows, which is 2000 coils or discrete inputs and
/// 125 registers, nor for nothing, and each is made for mappings of its own function.
pub proof fn requests_keep_to_the_protocol(ms: Seq<ModbusMappingView>, p: int)
    requires
        0 <= p < read_plan(ms).len(),
    ensures
        ({
            let c = read_plan(ms)[p];
            let f = class_function(c.class);
            &&& c.len >= 1
            &&& f == ModbusFunction::Coils || f == ModbusFunction::DiscreteInputs ==> c.len <= 2000
            &&& f == ModbusFunction::HoldingRegisters || f == ModbusFunction::InputRegisters
                ==> c.len <= 125
            &&& 0 <= c.start <= 0xFFFF
            &&& forall|b: int|
                0 <= b < c.members.len() ==> 0 <= #[trigger] c.members[b] < ms.len()
                    && ms[c.members[b]].function == f
        }),
{
    read_plan_is_sound(ms, p);
    functions_have_their_numbers();
    let c = read_plan(ms)[p];
    assert forall|b: int| 0 <= b < c.members.len() implies 0 <= #[trigger] c.members[b] < ms.len()
        && ms[c.members[b]].function == class_function(c.class) by {
        assert(mapping_spans(ms)[c.members[b]].class == c.class);
        assert(class_function(function_class(ms[c.members[b]].function))
            == ms[c.members[b]].function);
    }
}

// ---------------------------------------------------------------------------
// The order of a cycle
// ---------------------------------------------------------------------------

/// The reads of a cycle begin: with a connection the first request of the plan is made, or the
/// cycle ends well where there is none; without one a connection is made.
pub open spec fn reads_begin(d: ModbusDriverView, o: Outcome) -> bool {
    &&& o.connected == d.connected
    &&& !o.step.disconnect
    &&& o.step.health is None
    &&& !d.connected ==> o.phase == PhaseView::ReadConnecting && o.step.action
        == ActionView::Connect
    &&& d.connected && d.plan().len() > 0 ==> o.phase == PhaseView::Reading { next: 0 }
    &&& d.connected && d.plan().len() == 0 ==> o.phase == PhaseView::Idle && o.step.action
        == ActionView::Finish(Ok(()))
}

/// After a write the queue is polled again, or the reads begin where no more writes are taken.
pub open spec fn goes_on(d: ModbusDriverView, left: int, o: Outcome) -> bool {
    &&& o.connected == d.connected
    &&& !o.step.disconnect
    &&& o.step.health is None
    &&& left > 1 ==> o.phase == PhaseView::Draining { left: left - 1 } && o.step.action
        == ActionView::PollQueue
    &&& left == 1 ==> reads_begin(d, o)
}

/// A cycle starts with the write queue, from which it takes 64 writes at most; it changes no tag.
pub proof fn cycle_starts_with_the_queue(
    d: ModbusDriverView,
    reg: RegistryView,
    now: Timestamp,
)
    requires
        d.phase is Idle,
    ensures
        ({
            let o = d.on_event(reg, EventView::Start, now);
            &&& o.phase == PhaseView::Draining { left: 64 }
            &&& o.step.action == ActionView::PollQueue
            &&& o.step.reply is None
            &&& o.step.health is None
            &&& !o.step.disconnect
            &&& o.connected == d.connected
            &&& o.registry == reg
        }),
{
}

/// Once the queue is empty the reads begin, and no tag has changed.
pub proof fn reads_follow_the_queue(d: ModbusDriverView, reg: RegistryView, now: Timestamp)
    requires
        d.sound(),
        d.phase is Draining,
    ensures
        ({
            let o = d.on_event(reg, EventView::Queue(None), now);
            &&& reads_begin(d, o)
            &&& o.step.reply is None
            &&& o.registry == reg
        }),
{
}

/// A connection that was made for reads lets them begin; one that was not ends the cycle with the
/// reason. No tag changes either way.
pub proof fn connection_lets_reads_begin(
    d: ModbusDriverView,
    reg: RegistryView,
    e: DriverErrorView,
    now: Timestamp,
)
    requires
        d.phase is ReadConnecting,
    ensures
        ({
            let o = d.on_event(reg, EventView::Connected, now);
            &&& reads_begin(ModbusDriverView { connected: true, ..d }, o)
            &&& o.step.reply is None
            &&& o.registry == reg
        }),
        ({
            let o = d.on_event(reg, EventView::ConnectFailed(e), now);
            &&& o.phase is Idle
            &&& !o.connected
            &&& o.step.action == ActionView::Finish(Err(e))
            &&& o.step.reply is None
            &&& o.step.health is None
            &&& o.registry == reg
        }),
{
}

/// The next request of the plan is made, or the cycle ends well where there is none.
pub open spec fn next_request(d: ModbusDriverView, next: int, o: Outcome) -> bool {
    &&& o.connected == d.connected
    &&& !o.step.disconnect
    &&& o.step.health is None
    &&& o.step.reply is None
    &&& next + 1 < d.plan().len() ==> o.phase == PhaseView::Reading { next: next + 1 }
    &&& next + 1 >= d.plan().len() ==> o.phase == PhaseView::Idle && o.step.action
        == ActionView::Finish(Ok(()))
}

/// The requests of a plan are made one after the other, none left out: after an answer comes the
/// next one, until the last one ends the cycle.
pub proof fn requests_follow_in_turn(
    d: ModbusDriverView,
    reg: RegistryView,
    data: ReadDataView,
    now: Timestamp,
)
    requires
        d.sound(),
        d.phase is Reading,
    ensures
        next_request(d, d.phase->Reading_next, d.on_event(reg, EventView::Data(Ok(data)), now)),
{
}

// ---------------------------------------------------------------------------
// Writes
// ---------------------------------------------------------------------------

/// The first mapping with the id is the one that is found, and none is found where no mapping has
/// the id.
pub proof fn first_mapping_is_found(ms: Seq<ModbusMappingView>, id: Seq<char>, i: int)
    ensures
        0 <= i < ms.len() && ms[i].tag_id == id && (forall|j: int|
            0 <= j < i ==> (#[trigger] ms[j]).tag_id != id) ==> mapping_for(ms, id) == Some(i),
        (forall|j: int| 0 <= j < ms.len() ==> (#[trigger] ms[j]).tag_id != id) ==> mapping_for(
            ms,
            id,
        ) is None,
{
    if 0 <= i < ms.len() && ms[i].tag_id == id && (forall|j: int|
        0 <= j < i ==> (#[trigger] ms[j]).tag_id != id) {
        assert(is_mapping_of(ms, id, i));
        let k = mapping_for(ms, id)->0;
        assert(is_mapping_of(ms, id, k));
        if k < i {
            assert(ms[k].tag_id != id);
        } else if i < k {
            assert(ms[i].tag_id != id);
        }
    }
}

/// The first mapping of a request's tag.
pub open spec fn is_first_mapping(ms: Seq<ModbusMappingView>, id: Seq<char>, i: int) -> bool {
    &&& 0 <= i < ms.len()
    &&& ms[i].tag_id == id
    &&& forall|j: int| 0 <= j < i ==> (#[trigger] ms[j]).tag_id != id
}

/// A value for writable holding registers is written to the address of the mapping itself, as the
/// words of the value in the byte order of the mapping. Nothing is answered yet and no tag
/// changes.
pub proof fn holding_registers_are_written(
    d: ModbusDriverView,
    reg: RegistryView,
    r: WriteRequestView,
    i: int,
    now: Timestamp,
)
    requires
        d.phase is Draining,
        d.connected,
        is_first_mapping(d.mappings, r.tag_id, i),
        d.mappings[i].writable,
        d.mappings[i].function == ModbusFunction::HoldingRegisters,
    ensures
        ({
            let m = d.mappings[i];
            let o = d.on_event(reg, EventView::Queue(Some(r)), now);
            &&& o.step.action matches ActionView::Write { address, words } && address == m.address
                && words == write_words(r.value, m.byte_order)
            &&& o.phase == PhaseView::Writing {
                left: d.phase->Draining_left,
                write: PendingWriteView { mapping: i, value: r.value, reply: r.reply },
            }
            &&& o.step.reply is None
            &&& o.connected
            &&& o.registry == reg
        }),
{
    first_mapping_is_found(d.mappings, r.tag_id, i);
}

/// A boolean for writable coils is written to the coil `bit_offset` places after the address of
/// the mapping, where the mapping has it.
pub proof fn own_coil_is_written(
    d: ModbusDriverView,
    reg: RegistryView,
    r: WriteRequestView,
    i: int,
    now: Timestamp,
)
    requires
        d.phase is Draining,
        d.connected,
        is_first_mapping(d.mappings, r.tag_id, i),
        d.mappings[i].writable,
        d.mappings[i].function == ModbusFunction::Coils,
        r.value is Bool,
        d.mappings[i].bit_offset < d.mappings[i].quantity,
        d.mappings[i].address + d.mappings[i].bit_offset <= 0xFFFF,
    ensures
        ({
            let m = d.mappings[i];
            let o = d.on_event(reg, EventView::Queue(Some(r)), now);
            &&& o.step.action matches ActionView::WriteCoil { address, value } && address
                == m.address + m.bit_offset && TagValueView::Bool(value) == r.value
            &&& o.phase == PhaseView::Writing {
                left: d.phase->Draining_left,
                write: PendingWriteView { mapping: i, value: r.value, reply: r.reply },
            }
            &&& o.step.reply is None
            &&& o.connected
            &&& o.registry == reg
        }),
{
    first_mapping_is_found(d.mappings, r.tag_id, i);
}

/// Whether the mapping has a place for the value: holding registers have one for every value,
/// coils for a boolean within the mapping and the address space, and inputs for none.
pub open spec fn has_place_for(m: ModbusMappingView, v: TagValueView) -> bool {
    ||| m.function == ModbusFunction::HoldingRegisters
    ||| m.function == ModbusFunction::Coils && v is Bool && m.bit_offset < m.quantity && m.address
        + m.bit_offset <= 0xFFFF
}

/// Without a connection one is made before the write; the write waits for it, and no tag changes.
pub proof fn write_waits_for_the_connection(
    d: ModbusDriverView,
    reg: RegistryView,
    r: WriteRequestView,
    i: int,
    now: Timestamp,
)
    requires
        d.phase is Draining,
        !d.connected,
        is_first_mapping(d.mappings, r.tag_id, i),
        d.mappings[i].writable,
        has_place_for(d.mappings[i], r.value),
    ensures
        ({
            let o = d.on_event(reg, EventView::Queue(Some(r)), now);
            &&& o.step.action is Connect
            &&& o.phase == PhaseView::WriteConnecting {
                left: d.phase->Draining_left,
                write: PendingWriteView { mapping: i, value: r.value, reply: r.reply },
            }
            &&& o.step.reply is None
            &&& !o.connected
            &&& o.registry == reg
        }),
{
    first_mapping_is_found(d.mappings, r.tag_id, i);
}

/// Once the connection is made, the write that waited for it is sent: to the address of its
/// mapping, with the words of its value, or to its coil.
pub proof fn waiting_write_is_sent(d: ModbusDriverView, reg: RegistryView, now: Timestamp)
    requires
        d.sound(),
        d.phase is WriteConnecting,
    ensures
        ({
            let write = d.phase->WriteConnecting_write;
            let m = d.mappings[write.mapping];
            let o = d.on_event(reg, EventView::Connected, now);
            &&& m.function == ModbusFunction::HoldingRegisters ==> o.step.action
                == (ActionView::Write {
                address: m.address,
                words: write_words(write.value, m.byte_order),
            })
            &&& m.function != ModbusFunction::HoldingRegisters ==> (
            o.step.action matches ActionView::WriteCoil { address, value } && address == m.address
                + m.bit_offset && TagValueView::Bool(value) == write.value)
            &&& o.phase == PhaseView::Writing { left: d.phase->WriteConnecting_left, write }
            &&& o.step.reply is None
            &&& o.connected
            &&& o.registry == reg
        }),
{
}

/// Where the connection for a write fails, its tag is out of reach, the request is told why, and
/// the cycle ends without a connection.
pub proof fn waiting_write_fails_with_the_connection(
    d: ModbusDriverView,
    reg: RegistryView,
    e: DriverErrorView,
    now: Timestamp,
)
    requires
        d.sound(),
        d.phase is WriteConnecting,
    ensures
        ({
            let write = d.phase->WriteConnecting_write;
            let m = d.mappings[write.mapping];
            let o = d.on_event(reg, EventView::ConnectFailed(e), now);
            &&& o.phase is Idle
            &&& !o.connected
            &&& o.step.disconnect
            &&& o.step.health is None
            &&& o.step.action == ActionView::Finish(
                Err(DriverErrorView::Io("Reconnect failed during write"@)),
            )
            &&& o.step.reply is Some <==> write.reply is Some
            &&& o.step.reply matches Some(x) ==> Some(x.to) == write.reply && x.result == Err::<
                (),
                Seq<char>,
            >("Reconnect failed: "@ + error_text(e))
            &&& o.registry == reg.set_quality(m.tag_id, TagQualityView::CommLost, now)
        }),
{
}

/// The reply, where one is wanted, goes to the place that waits for it and says that the write
/// failed, and why.
pub open spec fn told(to: Option<ReplyId>, why: Seq<char>, reply: Option<ReplyView>) -> bool {
    match to {
        Some(id) => reply matches Some(x) && x.to == id && x.result == Err::<(), Seq<char>>(why),
        None => reply is None,
    }
}

/// A request for a tag without a mapping, or with one that is not writable, is refused with the
/// reason: no tag changes, nothing is sent, and the cycle goes on.
pub proof fn requests_without_a_writable_mapping_are_refused(
    d: ModbusDriverView,
    reg: RegistryView,
    r: WriteRequestView,
    i: int,
    now: Timestamp,
)
    requires
        d.sound(),
        d.phase is Draining,
    ensures
        ({
            let o = d.on_event(reg, EventView::Queue(Some(r)), now);
            &&& (forall|j: int|
                0 <= j < d.mappings.len() ==> (#[trigger] d.mappings[j]).tag_id != r.tag_id) ==> {
                &&& told(r.reply, "Unknown tag mapping"@, o.step.reply)
                &&& o.registry == reg
                &&& goes_on(d, d.phase->Draining_left, o)
            }
            &&& is_first_mapping(d.mappings, r.tag_id, i) && !d.mappings[i].writable ==> {
                &&& told(r.reply, "Tag not writable"@, o.step.reply)
                &&& o.registry == reg
                &&& goes_on(d, d.phase->Draining_left, o)
            }
        }),
{
    first_mapping_is_found(d.mappings, r.tag_id, i);
}

/// A value that its mapping has no place for is refused with the reason, and its tag counts as
/// out of reach; the cycle goes on.
pub proof fn values_without_a_place_are_refused(
    d: ModbusDriverView,
    reg: RegistryView,
    r: WriteRequestView,
    i: int,
    now: Timestamp,
)
    requires
        d.sound(),
        d.phase is Draining,
        is_first_mapping(d.mappings, r.tag_id, i),
        d.mappings[i].writable,
        !has_place_for(d.mappings[i], r.value),
    ensures
        ({
            let o = d.on_event(reg, EventView::Queue(Some(r)), now);
            &&& told(r.reply, "Unsupported write function"@, o.step.reply)
            &&& o.registry == reg.set_quality(r.tag_id, TagQualityView::CommLost, now)
            &&& goes_on(d, d.phase->Draining_left, o)
        }),
{
    first_mapping_is_found(d.mappings, r.tag_id, i);
}

/// A write that the device took is answered with success, its tag holds the value in good quality
/// as of now, and the cycle goes on.
pub proof fn taken_write_is_answered(d: ModbusDriverView, reg: RegistryView, now: Timestamp)
    requires
        d.sound(),
        d.phase is Writing,
    ensures
        ({
            let write = d.phase->Writing_write;
            let o = d.on_event(reg, EventView::Written(WriteOutcomeView::Done), now);
            &&& o.step.reply is Some <==> write.reply is Some
            &&& o.step.reply matches Some(x) ==> Some(x.to) == write.reply && x.result is Ok
            &&& o.registry == reg.update(
                d.mappings[write.mapping].tag_id,
                write.value,
                TagQualityView::Good,
                now,
                now,
            )
            &&& goes_on(d, d.phase->Writing_left, o)
        }),
{
}

/// Whether a text has another in it, with anything before and after it.
pub open spec fn mentions(s: Seq<char>, word: Seq<char>) -> bool {
    exists|before: Seq<char>, rest: Seq<char>| s == #[trigger] (before + word + rest)
}

proof fn mentions_is_has(s: Seq<char>, word: Seq<char>)
    ensures
        mentions(s, word) == has(s, word),
{
    if mentions(s, word) {
        let (before, rest) = choose|before: Seq<char>, rest: Seq<char>|
            s == #[trigger] (before + word + rest);
        occurs_between(before, word, rest);
    }
    if has(s, word) {
        let r = occurrence_splits(s, word);
        assert(s == r.0 + word + r.1);
    }
}

/// An exception says that the request was wrong where its text mentions `Illegal` or `Address`;
/// it says that the device is out of order where it mentions `Slave` and one of `Failure`,
/// `Device` and `Unavailable`.
pub proof fn exceptions_are_told_apart(s: Seq<char>)
    ensures
        is_illegal(s) <==> mentions(s, "Illegal"@) || mentions(s, "Address"@),
        is_device_failure(s) <==> mentions(s, "Slave"@) && (mentions(s, "Failure"@) || mentions(
            s,
            "Device"@,
        ) || mentions(s, "Unavailable"@)),
{
    mentions_is_has(s, "Illegal"@);
    mentions_is_has(s, "Address"@);
    mentions_is_has(s, "Slave"@);
    mentions_is_has(s, "Failure"@);
    mentions_is_has(s, "Device"@);
    mentions_is_has(s, "Unavailable"@);
}

/// A write that the device refused as wrong is a configuration error of its tag, and the cycle
/// goes on.
pub proof fn wrong_write_is_a_configuration_error(
    d: ModbusDriverView,
    reg: RegistryView,
    s: Seq<char>,
    now: Timestamp,
)
    requires
        d.sound(),
        d.phase is Writing,
        mentions(s, "Illegal"@) || mentions(s, "Address"@),
    ensures
        ({
            let write = d.phase->Writing_write;
            let o = d.on_event(reg, EventView::Written(WriteOutcomeView::Exception(s)), now);
            &&& told(write.reply, "Modbus exception: "@ + s, o.step.reply)
            &&& o.registry == reg.set_quality(
                d.mappings[write.mapping].tag_id,
                TagQualityView::ConfigError,
                now,
            )
            &&& goes_on(d, d.phase->Writing_left, o)
        }),
{
    exceptions_are_told_apart(s);
}

/// A write that failed otherwise leaves its tag out of reach: the request is told why, the
/// connection is dropped, and the cycle ends with the error. Of an exception the health of the
/// PLC is told.
pub proof fn failed_write_ends_the_cycle(
    d: ModbusDriverView,
    reg: RegistryView,
    outcome: WriteOutcomeView,
    now: Timestamp,
)
    requires
        d.sound(),
        d.phase is Writing,
        match outcome {
            WriteOutcomeView::Done => false,
            WriteOutcomeView::Exception(s) => !mentions(s, "Illegal"@) && !mentions(
                s,
                "Address"@,
            ),
            _ => true,
        },
    ensures
        ({
            let write = d.phase->Writing_write;
            let o = d.on_event(reg, EventView::Written(outcome), now);
            &&& o.phase is Idle
            &&& !o.connected
            &&& o.step.disconnect
            &&& o.registry == reg.set_quality(
                d.mappings[write.mapping].tag_id,
                TagQualityView::CommLost,
                now,
            )
            &&& match outcome {
                WriteOutcomeView::Exception(s) => {
                    &&& told(write.reply, "Modbus error: "@ + s, o.step.reply)
                    &&& o.step.health == Some(
                        HealthEventView {
                            plc: d.name,
                            status: "write_error"@,
                            message: s,
                            data: None,
                        },
                    )
                    &&& o.step.action == ActionView::Finish(Err(DriverErrorView::Modbus(s)))
                },
                WriteOutcomeView::Transport(s) => {
                    &&& told(write.reply, "Transport: "@ + s, o.step.reply)
                    &&& o.step.health is None
                    &&& o.step.action == ActionView::Finish(
                        Err(DriverErrorView::Modbus("Transport: "@ + s)),
                    )
                },
                _ => {
                    &&& told(write.reply, "Timeout"@, o.step.reply)
                    &&& o.step.health is None
                    &&& o.step.action == ActionView::Finish(Err(DriverErrorView::Timeout))
                },
            }
        }),
{
    match outcome {
        WriteOutcomeView::Exception(s) => {
            exceptions_are_told_apart(s);
        },
        _ => {},
    }
}

// ---------------------------------------------------------------------------
// Answers to reads
// ---------------------------------------------------------------------------

/// What the device says about a read is handed on as it came: registers and bits as they are, an
/// exception with its text, a failure of the transport with its text behind that word, and a
/// timeout by its name.
pub proof fn read_outcomes_are_handed_on(o: ReadOutcome)
    ensures
        match o {
            ReadOutcome::Registers(w) => read_result(o) == Ok::<ReadDataView, Seq<char>>(
                ReadDataView::Registers(w@),
            ),
            ReadOutcome::Bits(b) => read_result(o) == Ok::<ReadDataView, Seq<char>>(
                ReadDataView::Bits(b@),
            ),
            ReadOutcome::Exception(s) => read_result(o) == Err::<ReadDataView, Seq<char>>(s@),
            ReadOutcome::Transport(s) => read_result(o) == Err::<ReadDataView, Seq<char>>(
                "Transport: "@ + s@,
            ),
            ReadOutcome::TimedOut => read_result(o) == Err::<ReadDataView, Seq<char>>("Timeout"@),
        },
{
}

/// The tag of a member that no other member of the request has.
pub open spec fn is_only_member(
    ms: Seq<ModbusMappingView>,
    members: Seq<int>,
    k: int,
) -> bool {
    &&& 0 <= k < members.len()
    &&& forall|j: int|
        0 <= j < members.len() && j != k ==> ms[#[trigger] members[j]].tag_id
            != ms[members[k]].tag_id
}

proof fn part_leaves_other_tags(
    reg: RegistryView,
    m: ModbusMappingView,
    c: ChunkView,
    data: ReadDataView,
    now: Timestamp,
    id: Seq<char>,
)
    requires
        m.tag_id != id,
    ensures
        ({
            let r = take_part(reg, m, c, data, now);
            &&& r.definitions == reg.definitions
            &&& r.has_tag(id) == reg.has_tag(id)
            &&& reg.has_tag(id) ==> r.store.tags[id] == reg.store.tags[id]
        }),
{
}

proof fn parts_leave_other_tags(
    reg: RegistryView,
    ms: Seq<ModbusMappingView>,
    c: ChunkView,
    data: ReadDataView,
    now: Timestamp,
    n: nat,
    id: Seq<char>,
)
    requires
        n <= c.members.len(),
        forall|j: int| 0 <= j < n ==> ms[#[trigger] c.members[j]].tag_id != id,
    ensures
        ({
            let r = take_parts(reg, ms, c, data, now, n);
            &&& r.definitions == reg.definitions
            &&& r.has_tag(id) == reg.has_tag(id)
            &&& reg.has_tag(id) ==> r.store.tags[id] == reg.store.tags[id]
        }),
    decreases n,
{
    if n > 0 {
        parts_leave_other_tags(reg, ms, c, data, now, (n - 1) as nat, id);
        part_leaves_other_tags(
            take_parts(reg, ms, c, data, now, (n - 1) as nat),
            ms[c.members[n - 1]],
            c,
            data,
            now,
            id,
        );
    }
}

proof fn part_depends_on_its_tag(
    a: RegistryView,
    b: RegistryView,
    m: ModbusMappingView,
    c: ChunkView,
    data: ReadDataView,
    now: Timestamp,
)
    requires
        a.definitions == b.definitions,
        a.has_tag(m.tag_id),
        b.has_tag(m.tag_id),
        a.store.tags[m.tag_id] == b.store.tags[m.tag_id],
    ensures
        take_part(a, m, c, data, now).store.tags[m.tag_id] == take_part(
            b,
            m,
            c,
            data,
            now,
        ).store.tags[m.tag_id],
        take_part(a, m, c, data, now).has_tag(m.tag_id),
        take_part(a, m, c, data, now).definitions == a.definitions,
{
}

proof fn each_member_takes_its_part(
    reg: RegistryView,
    ms: Seq<ModbusMappingView>,
    c: ChunkView,
    data: ReadDataView,
    now: Timestamp,
    n: nat,
    k: int,
)
    requires
        n <= c.members.len(),
        is_only_member(ms, c.members, k),
        k < n,
        reg.has_tag(ms[c.members[k]].tag_id),
    ensures
        ({
            let id = ms[c.members[k]].tag_id;
            let r = take_parts(reg, ms, c, data, now, n);
            &&& r.has_tag(id)
            &&& r.store.tags[id] == take_part(reg, ms[c.members[k]], c, data, now).store.tags[id]
        }),
    decreases n,
{
    let m = ms[c.members[k]];
    let before = take_parts(reg, ms, c, data, now, (n - 1) as nat);
    if k < n - 1 {
        each_member_takes_its_part(reg, ms, c, data, now, (n - 1) as nat, k);
        assert(ms[c.members[n - 1]].tag_id != m.tag_id);
        part_leaves_other_tags(before, ms[c.members[n - 1]], c, data, now, m.tag_id);
    } else {
        parts_leave_other_tags(reg, ms, c, data, now, (n - 1) as nat, m.tag_id);
        part_depends_on_its_tag(before, reg, m, c, data, now);
    }
}

/// The registers that a mapping has in the answer to a request that covers it.
pub open spec fn own_registers(m: ModbusMappingView, c: ChunkView, registers: Seq<u16>) -> Seq<u16> {
    registers.subrange(m.address - c.start, m.address + m.quantity - c.start)
}

/// Each tag of a request takes the value in its own registers: those at the addresses of its
/// mapping, in the byte order of the mapping and decoded by its type. The tag is good as of now;
/// registers that hold no value are a configuration error.
pub proof fn answer_reaches_every_tag(
    d: ModbusDriverView,
    reg: RegistryView,
    registers: Seq<u16>,
    k: int,
    now: Timestamp,
)
    requires
        d.sound(),
        d.phase is Reading,
        ({
            let c = d.plan()[d.phase->Reading_next];
            let m = d.mappings[c.members[k]];
            &&& is_only_member(d.mappings, c.members, k)
            &&& reg.has_tag(m.tag_id)
            &&& 0 < m.quantity
            &&& c.start <= m.address
            &&& m.address + m.quantity <= c.start + c.len
            &&& m.address + m.quantity - c.start <= registers.len()
        }),
    ensures
        ({
            let c = d.plan()[d.phase->Reading_next];
            let m = d.mappings[c.members[k]];
            let o = d.on_event(
                reg,
                EventView::Data(Ok(ReadDataView::Registers(registers))),
                now,
            );
            let bytes = reordered(m.byte_order, bytes_of(own_registers(m, c, registers)));
            let t = o.registry.store.tags[m.tag_id];
            &&& o.registry.has_tag(m.tag_id)
            &&& match decoded(m.data_type, bytes, m.bit_offset) {
                Ok(v) => reg.update_fault(m.tag_id, v) is None ==> {
                    &&& t.value == v
                    &&& t.quality == TagQualityView::Good
                    &&& t.source_timestamp == now
                    &&& t.server_timestamp == now
                },
                Err(_) => {
                    &&& t.value == reg.store.tags[m.tag_id].value
                    &&& t.quality == TagQualityView::ConfigError
                    &&& t.source_timestamp == reg.store.tags[m.tag_id].source_timestamp
                    &&& t.server_timestamp == now
                },
            }
        }),
{
    let c = d.plan()[d.phase->Reading_next];
    let data = ReadDataView::Registers(registers);
    each_member_takes_its_part(reg, d.mappings, c, data, now, c.members.len(), k);
}

/// A boolean tag of coils or discrete inputs takes the bit `bit_offset` places after the address
/// of its mapping.
pub proof fn bits_reach_every_tag(
    d: ModbusDriverView,
    reg: RegistryView,
    bits: Seq<bool>,
    k: int,
    now: Timestamp,
)
    requires
        d.sound(),
        d.phase is Reading,
        ({
            let c = d.plan()[d.phase->Reading_next];
            let m = d.mappings[c.members[k]];
            &&& is_only_member(d.mappings, c.members, k)
            &&& m.data_type == TagDataType::Bool
            &&& reg.definitions.contains_key(m.tag_id)
            &&& reg.definitions[m.tag_id].data_type == TagDataType::Bool
            &&& reg.has_tag(m.tag_id)
            &&& m.bit_offset < 16
            &&& m.bit_offset < m.quantity
            &&& c.start <= m.address
            &&& m.address + m.quantity <= c.start + c.len
            &&& m.address + m.quantity - c.start <= bits.len()
        }),
    ensures
        ({
            let c = d.plan()[d.phase->Reading_next];
            let m = d.mappings[c.members[k]];
            let o = d.on_event(reg, EventView::Data(Ok(ReadDataView::Bits(bits))), now);
            let t = o.registry.store.tags[m.tag_id];
            &&& o.registry.has_tag(m.tag_id)
            &&& t.value == TagValueView::Bool(bits[m.address + m.bit_offset - c.start])
            &&& t.quality == TagQualityView::Good
            &&& t.source_timestamp == now
        }),
{
    let c = d.plan()[d.phase->Reading_next];
    let m = d.mappings[c.members[k]];
    each_member_takes_its_part(
        reg,
        d.mappings,
        c,
        ReadDataView::Bits(bits),
        now,
        c.members.len(),
        k,
    );
    crate::driver_modbus::laws::tag_reads_its_own_bit(reg, m, c, bits, now);
}

/// An answer that ends before the addresses of a mapping is a configuration error of its tag,
/// which keeps its value.
pub proof fn short_answer_is_a_configuration_error(
    reg: RegistryView,
    m: ModbusMappingView,
    c: ChunkView,
    data: ReadDataView,
    now: Timestamp,
)
    requires
        0 < m.quantity,
        c.start <= m.address,
        m.address + m.quantity <= c.start + c.len,
        match data {
            ReadDataView::Registers(w) => w.len() < m.address + m.quantity - c.start,
            ReadDataView::Bits(b) => b.len() < m.address + m.quantity - c.start,
        },
    ensures
        take_part(reg, m, c, data, now) == reg.set_quality(
            m.tag_id,
            TagQualityView::ConfigError,
            now,
        ),
{
}

/// A request that has none of the addresses of a mapping leaves its tag alone.
pub proof fn request_elsewhere_leaves_the_tag(
    reg: RegistryView,
    m: ModbusMappingView,
    c: ChunkView,
    data: ReadDataView,
    now: Timestamp,
)
    requires
        c.len >= 0,
        m.address + m.quantity <= c.start || c.start + c.len <= m.address,
    ensures
        take_part(reg, m, c, data, now) == reg,
{
}

/// Of a mapping that a request covers in part, the tag takes the registers that both have: those
/// from the higher of the first addresses to the lower of the last ones.
pub proof fn part_in_common_is_taken(
    reg: RegistryView,
    m: ModbusMappingView,
    c: ChunkView,
    registers: Seq<u16>,
    from: int,
    to: int,
    now: Timestamp,
)
    requires
        from >= m.address && from >= c.start && (from == m.address || from == c.start),
        to <= m.address + m.quantity && to <= c.start + c.len,
        to == m.address + m.quantity || to == c.start + c.len,
        from < to,
        to - c.start <= registers.len(),
        reg.has_tag(m.tag_id),
    ensures
        ({
            let own = registers.subrange(from - c.start, to - c.start);
            let r = take_part(reg, m, c, ReadDataView::Registers(registers), now);
            match decoded(m.data_type, reordered(m.byte_order, bytes_of(own)), m.bit_offset) {
                Ok(v) => r == reg.update(m.tag_id, v, TagQualityView::Good, now, now),
                Err(_) => r == reg.set_quality(m.tag_id, TagQualityView::ConfigError, now),
            }
        }),
{
}

/// A tag without a runtime state is never given a value.
pub proof fn unknown_tags_take_nothing(
    reg: RegistryView,
    m: ModbusMappingView,
    c: ChunkView,
    data: ReadDataView,
    now: Timestamp,
)
    requires
        !reg.has_tag(m.tag_id),
    ensures
        take_part(reg, m, c, data, now) == reg,
{
}

/// Coils and discrete inputs are packed into words of sixteen, the first one in the lowest bit: as
/// many words as are needed, with zeros where there are no more.
pub proof fn bits_are_packed_by_sixteen(bits: Seq<bool>, w: int, k: int)
    requires
        0 <= w < packed(bits).len(),
        0 <= k < 16,
    ensures
        16 * (packed(bits).len() - 1) < bits.len() <= 16 * packed(bits).len(),
        16 * w + k < bits.len() ==> bit_of(packed(bits)[w], k as u8) == bits[16 * w + k],
        bits.len() - 16 * w < 16 ==> packed(bits)[w] < pow2((bits.len() - 16 * w) as nat),
{
    if 16 * w + k < bits.len() {
        packed_word_has_its_bits(bits, w, k);
    }
    if 0 <= bits.len() - 16 * w < 16 {
        missing_bits_are_zero(bits, 16 * w, 16);
    }
}

proof fn missing_bits_are_zero(bits: Seq<bool>, from: int, n: nat)
    requires
        0 <= from <= bits.len(),
    ensures
        0 <= bits_number(bits, from, n) < pow2((bits.len() - from) as nat),
    decreases n,
{
    vstd::arithmetic::power2::lemma_pow2_pos((bits.len() - from) as nat);
    if n > 0 && from < bits.len() {
        missing_bits_are_zero(bits, from + 1, (n - 1) as nat);
        vstd::arithmetic::power2::lemma_pow2_unfold((bits.len() - from) as nat);
    } else if n > 0 {
        nothing_behind_the_end(bits, from, n);
    }
}

proof fn nothing_behind_the_end(bits: Seq<bool>, from: int, n: nat)
    requires
        bits.len() <= from,
    ensures
        bits_number(bits, from, n) == 0,
    decreases n,
{
    if n > 0 {
        nothing_behind_the_end(bits, from + 1, (n - 1) as nat);
    }
}

/// Every tag of a request that failed gets the quality that says so, and keeps its value; other
/// tags stay.
pub proof fn every_member_is_marked(
    reg: RegistryView,
    ms: Seq<ModbusMappingView>,
    members: Seq<int>,
    quality: TagQualityView,
    now: Timestamp,
    n: nat,
    id: Seq<char>,
)
    requires
        n <= members.len(),
    ensures
        ({
            let r = mark(reg, ms, members, quality, now, n);
            let marked = exists|k: int|
                0 <= k < n && ms[#[trigger] members[k]].tag_id == id;
            &&& r.definitions == reg.definitions
            &&& r.has_tag(id) == reg.has_tag(id)
            &&& reg.has_tag(id) && marked ==> {
                &&& r.store.tags[id].quality == quality
                &&& r.store.tags[id].value == reg.store.tags[id].value
                &&& r.store.tags[id].source_timestamp == reg.store.tags[id].source_timestamp
                &&& r.store.tags[id].server_timestamp == now
            }
            &&& reg.has_tag(id) && !marked ==> r.store.tags[id] == reg.store.tags[id]
        }),
    decreases n,
{
    if n > 0 {
        every_member_is_marked(reg, ms, members, quality, now, (n - 1) as nat, id);
        let last = members[n - 1];
        let marked = exists|k: int| 0 <= k < n && ms[#[trigger] members[k]].tag_id == id;
        let marked_before = exists|k: int|
            0 <= k < n - 1 && ms[#[trigger] members[k]].tag_id == id;
        if ms[last].tag_id == id {
            assert(0 <= n - 1 < n && ms[members[n - 1]].tag_id == id);
            assert(marked);
        } else if marked {
            let k = choose|k: int| 0 <= k < n && ms[#[trigger] members[k]].tag_id == id;
            assert(k < n - 1);
            assert(marked_before);
        }
    }
}

/// A read that the device refused as wrong is a configuration error of every tag of the request,
/// and the next request follows.
pub proof fn wrong_read_is_a_configuration_error(
    d: ModbusDriverView,
    reg: RegistryView,
    s: Seq<char>,
    now: Timestamp,
    k: int,
)
    requires
        d.sound(),
        d.phase is Reading,
        mentions(s, "Illegal"@) || mentions(s, "Address"@),
        0 <= k < d.plan()[d.phase->Reading_next].members.len(),
        reg.has_tag(d.mappings[d.plan()[d.phase->Reading_next].members[k]].tag_id),
    ensures
        ({
            let c = d.plan()[d.phase->Reading_next];
            let id = d.mappings[c.members[k]].tag_id;
            let o = d.on_event(reg, EventView::Data(Err(s)), now);
            &&& next_request(d, d.phase->Reading_next, o)
            &&& o.registry.store.tags[id].quality == TagQualityView::ConfigError
            &&& o.registry.store.tags[id].value == reg.store.tags[id].value
            &&& o.registry.store.tags[id].source_timestamp == reg.store.tags[id].source_timestamp
        }),
{
    exceptions_are_told_apart(s);
    let c = d.plan()[d.phase->Reading_next];
    let id = d.mappings[c.members[k]].tag_id;
    assert(d.mappings[c.members[k]].tag_id == id);
    every_member_is_marked(
        reg,
        d.mappings,
        c.members,
        TagQualityView::ConfigError,
        now,
        c.members.len(),
        id,
    );
}

/// A read that failed because the device is out of order, or did not answer in time, leaves every
/// tag of the request out of reach: the health of the PLC is told, the connection is dropped, and
/// the cycle ends with the error.
pub proof fn failed_read_ends_the_cycle(
    d: ModbusDriverView,
    reg: RegistryView,
    s: Seq<char>,
    now: Timestamp,
    k: int,
)
    requires
        d.sound(),
        d.phase is Reading,
        !mentions(s, "Illegal"@),
        !mentions(s, "Address"@),
        s == "Timeout"@ || (mentions(s, "Slave"@) && (mentions(s, "Failure"@) || mentions(
            s,
            "Device"@,
        ) || mentions(s, "Unavailable"@))),
        0 <= k < d.plan()[d.phase->Reading_next].members.len(),
        reg.has_tag(d.mappings[d.plan()[d.phase->Reading_next].members[k]].tag_id),
    ensures
        ({
            let c = d.plan()[d.phase->Reading_next];
            let id = d.mappings[c.members[k]].tag_id;
            let o = d.on_event(reg, EventView::Data(Err(s)), now);
            &&& o.phase is Idle
            &&& !o.connected
            &&& o.step.disconnect
            &&& o.step.reply is None
            &&& o.step.health == Some(
                HealthEventView { plc: d.name, status: "read_error"@, message: s, data: None },
            )
            &&& o.step.action == ActionView::Finish(Err(DriverErrorView::Modbus(s)))
            &&& o.registry.store.tags[id].quality == TagQualityView::CommLost
            &&& o.registry.store.tags[id].value == reg.store.tags[id].value
            &&& o.registry.store.tags[id].source_timestamp == reg.store.tags[id].source_timestamp
        }),
{
    exceptions_are_told_apart(s);
    let c = d.plan()[d.phase->Reading_next];
    let id = d.mappings[c.members[k]].tag_id;
    assert(d.mappings[c.members[k]].tag_id == id);
    every_member_is_marked(
        reg,
        d.mappings,
        c.members,
        TagQualityView::CommLost,
        now,
        c.members.len(),
        id,
    );
}

/// A read that failed in any other way changes no tag, and the next request follows.
pub proof fn other_failures_are_passed_over(
    d: ModbusDriverView,
    reg: RegistryView,
    s: Seq<char>,
    now: Timestamp,
)
    requires
        d.sound(),
        d.phase is Reading,
        !mentions(s, "Illegal"@),
        !mentions(s, "Address"@),
        s != "Timeout"@,
        !mentions(s, "Slave"@) || (!mentions(s, "Failure"@) && !mentions(s, "Device"@)
            && !mentions(s, "Unavailable"@)),
    ensures
        ({
            let o = d.on_event(reg, EventView::Data(Err(s)), now);
            &&& next_request(d, d.phase->Reading_next, o)
            &&& o.registry == reg
        }),
{
    exceptions_are_told_apart(s);
}

// ---------------------------------------------------------------------------
// Validation
// ---------------------------------------------------------------------------

/// A mapping is valid by itself exactly where it has addresses, its bit lies within a register,
/// its data type and byte order have the registers they need, and it is not writable where the
/// function only reads.
pub proof fn valid_mappings(m: ModbusMappingView)
    ensures
        mapping_fault(m) is None <==> {
            &&& m.quantity >= 1
            &&& m.bit_offset <= 15
            &&& m.data_type == TagDataType::Float || m.data_type == TagDataType::Int32
                || m.data_type == TagDataType::UInt32 ==> m.quantity >= 2
            &&& m.data_type == TagDataType::Double ==> m.quantity >= 4
            &&& m.writable ==> m.function == ModbusFunction::HoldingRegisters || m.function
                == ModbusFunction::Coils
            &&& m.byte_order == WordOrder::CDAB || m.byte_order == WordOrder::DCBA ==> m.quantity
                >= 2
        },
{
}

/// Errors and functions are told by their names.
pub proof fn errors_and_functions_are_told(s: Seq<char>)
    ensures
        error_text(DriverErrorView::Io(s)) == "IO/network error: "@ + s,
        error_text(DriverErrorView::Modbus(s)) == "Modbus protocol error: "@ + s,
        error_text(DriverErrorView::Timeout) == "Timeout"@,
        error_text(DriverErrorView::Mapping(s)) == "Mapping error: "@ + s,
        error_text(DriverErrorView::Other(s)) == "Other: "@ + s,
        function_name(ModbusFunction::Coils) == "Coils"@,
        function_name(ModbusFunction::DiscreteInputs) == "DiscreteInputs"@,
        function_name(ModbusFunction::HoldingRegisters) == "HoldingRegisters"@,
        function_name(ModbusFunction::InputRegisters) == "InputRegisters"@,
{
}

/// A mapping is told by its tag and its first and last address.
pub proof fn ranges_are_told(m: ModbusMappingView)
    requires
        1 <= m.quantity,
        m.address + m.quantity <= 0x1_0000,
    ensures
        range_text(m) == "'"@ + m.tag_id + "'["@ + decimal(m.address as nat) + ".."@ + decimal(
            (m.address + m.quantity - 1) as nat,
        ) + "]"@,
{
}

/// Of coils and discrete inputs a tag takes those at the addresses that its mapping and the request
/// have in common, packed into words.
pub proof fn bits_in_common_are_taken(
    reg: RegistryView,
    m: ModbusMappingView,
    c: ChunkView,
    bits: Seq<bool>,
    from: int,
    to: int,
    now: Timestamp,
)
    requires
        from >= m.address && from >= c.start && (from == m.address || from == c.start),
        to <= m.address + m.quantity && to <= c.start + c.len,
        to == m.address + m.quantity || to == c.start + c.len,
        from < to,
        to - c.start <= bits.len(),
        reg.has_tag(m.tag_id),
    ensures
        ({
            let own = bytes_of(packed(bits.subrange(from - c.start, to - c.start)));
            let r = take_part(reg, m, c, ReadDataView::Bits(bits), now);
            match decoded(m.data_type, own, m.bit_offset) {
                Ok(v) => r == reg.update(m.tag_id, v, TagQualityView::Good, now, now),
                Err(_) => r == reg.set_quality(m.tag_id, TagQualityView::ConfigError, now),
            }
        }),
{
}

/// A driver starts idle and without a connection, with the name and the mappings of its
/// configuration.
pub proof fn drivers_start_idle(config: ModbusConfig, r: ModbusDriver)
    requires
        call_ensures(ModbusDriver::new, (config,), r),
    ensures
        r@.name == config.name@,
        r@.mappings.len() == config.mappings@.len(),
        forall|i: int|
            0 <= i < config.mappings@.len() ==> #[trigger] r@.mappings[i] == config.mappings@[i]@,
        !r@.connected,
        r@.phase is Idle,
{
}

/// What is decided is what is handed out to be done: the same function, addresses, words and
/// numbers, the same reply, and the same word on the connection.
pub proof fn steps_say_what_is_to_be_done(s: Step)
    ensures
        s@.disconnect == s.disconnect,
        s@.reply is Some <==> s.reply is Some,
        s.reply matches Some(x) ==> (s@.reply matches Some(y) && y.to == x.to && (y.result is Ok
            <==> x.result is Ok) && (x.result matches Err(m) ==> y.result == Err::<(), Seq<char>>(
            m@,
        ))),
        s@.health is Some <==> s.health is Some,
        s.health matches Some(e) ==> s@.health == Some(
            HealthEventView { plc: e.plc@, status: e.status@, message: e.message@, data: e.data },
        ),
        match s.action {
            Action::PollQueue => s@.action == ActionView::PollQueue,
            Action::Connect => s@.action == ActionView::Connect,
            Action::Write { address, words } => s@.action == (ActionView::Write {
                address,
                words: words@,
            }),
            Action::WriteCoil { address, value } => s@.action == (ActionView::WriteCoil {
                address,
                value,
            }),
            Action::Read { function, start, quantity } => s@.action == (ActionView::Read {
                function,
                start: start as int,
                quantity: quantity as int,
            }),
            Action::Finish(r) => s@.action matches ActionView::Finish(x) && (r is Ok <==> x is Ok)
                && (r matches Err(e) ==> x->Err_0 == e@),
        },
{
}

/// The first thing that is wrong with a mapping is told: no registers, a bit beyond the register, too
/// few registers for the data type, a function that only reads, or too few for the byte order.
pub proof fn faults_are_told(m: ModbusMappingView)
    ensures
        ({
            let about = "Mapping '"@ + m.tag_id;
            let pair = m.data_type == TagDataType::Float || m.data_type == TagDataType::Int32
                || m.data_type == TagDataType::UInt32;
            let sized = m.quantity >= 1 && m.bit_offset < 16;
            &&& m.quantity == 0 ==> mapping_fault(m) == Some(about + "' has zero quantity"@)
            &&& m.quantity >= 1 && m.bit_offset >= 16 ==> mapping_fault(m) == Some(
                about + "' has invalid bit_offset "@ + decimal(m.bit_offset as nat)
                    + " (must be 0..15)"@,
            )
            &&& sized && pair && m.quantity < 2 ==> mapping_fault(m) == Some(
                about + "' data_type requires quantity >= 2"@,
            )
            &&& sized && m.data_type == TagDataType::Double && m.quantity < 4 ==> mapping_fault(m)
                == Some(about + "' data_type 'Double' requires quantity >= 4"@)
            &&& sized && !(pair && m.quantity < 2) && m.data_type != TagDataType::Double && m.writable
                && m.function != ModbusFunction::HoldingRegisters && m.function
                != ModbusFunction::Coils ==> mapping_fault(m) == Some(
                about + "' marked writable but uses read-only function "@ + function_name(
                    m.function,
                ),
            )
            &&& sized && !pair && m.data_type != TagDataType::Double && !m.writable && m.quantity < 2
                && m.byte_order == WordOrder::CDAB ==> mapping_fault(m) == Some(
                about + "' uses byte_order "@ + "CDAB"@ + " which requires quantity >= 2"@,
            )
            &&& sized && !pair && m.data_type != TagDataType::Double && !m.writable && m.quantity < 2
                && m.byte_order == WordOrder::DCBA ==> mapping_fault(m) == Some(
                about + "' uses byte_order "@ + "DCBA"@ + " which requires quantity >= 2"@,
            )
        }),
{
}

/// The answer to a request, good or bad, leaves every tag alone that the request is not made for.
pub proof fn answers_leave_other_tags(
    d: ModbusDriverView,
    reg: RegistryView,
    data: Result<ReadDataView, Seq<char>>,
    id: Seq<char>,
    now: Timestamp,
)
    requires
        d.sound(),
        d.phase is Reading,
        ({
            let members = d.plan()[d.phase->Reading_next].members;
            forall|j: int|
                0 <= j < members.len() ==> d.mappings[#[trigger] members[j]].tag_id != id
        }),
    ensures
        same_tag(reg, d.on_event(reg, EventView::Data(data), now).registry, id),
{
    let c = d.plan()[d.phase->Reading_next];
    let n = c.members.len();
    match data {
        Ok(x) => {
            parts_leave_other_tags(reg, d.mappings, c, x, now, n, id);
        },
        Err(_) => {
            every_member_is_marked(
                reg,
                d.mappings,
                c.members,
                TagQualityView::ConfigError,
                now,
                n,
                id,
            );
            every_member_is_marked(
                reg,
                d.mappings,
                c.members,
                TagQualityView::CommLost,
                now,
                n,
                id,
            );
        },
    }
}

/// A write, whatever becomes of it, leaves every tag alone but the one that it is for.
pub proof fn writes_leave_other_tags(
    d: ModbusDriverView,
    reg: RegistryView,
    event: EventView,
    id: Seq<char>,
    now: Timestamp,
)
    requires
        d.sound(),
        d.awaits(event),
        match d.phase {
            PhaseView::Reading { .. } => false,
            PhaseView::Draining { .. } => event matches EventView::Queue(Some(r)) ==> r.tag_id
                != id,
            PhaseView::WriteConnecting { write, .. } => d.mappings[write.mapping].tag_id != id,
            PhaseView::Writing { write, .. } => d.mappings[write.mapping].tag_id != id,
            _ => true,
        },
    ensures
        same_tag(reg, d.on_event(reg, event, now).registry, id),
{
    if let EventView::Queue(Some(r)) = event {
        first_mapping_is_found(d.mappings, r.tag_id, 0);
        if let Some(i) = mapping_for(d.mappings, r.tag_id) {
            assert(is_mapping_of(d.mappings, r.tag_id, i));
        }
    }
}

} // verus!
