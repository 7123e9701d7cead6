//! What holds of every Modbus cycle.

use crate::core_model::registry::{same_tag, RegistryView};
use crate::core_model::tag_value::{
    reordered, reordering_is_an_involution, type_of, TagDataType, TagQualityView, TagValueView,
    WordOrder,
};
use crate::driver_common::plan::{is_read_for, plan_reads_every_address, ChunkView};
use crate::driver_common::words::{bytes_of, value_words};
use crate::driver_common::write_words;
use crate::driver_common::write_request::{answer, WriteRequestView};
use crate::driver_modbus::codec::{decoded, word, words_are_decoded};
use crate::driver_modbus::driver::{
    mapping_for, write_action, ActionView, EventView, ModbusDriverView, Outcome, PendingWriteView,
    PhaseView, WriteOutcomeView, WRITES_PER_CYCLE,
};
use crate::driver_modbus::errors::DriverErrorView;
use crate::driver_modbus::mapping::{ModbusFunction, ModbusMappingView};
use crate::driver_modbus::read::{
    mark, packed, packed_word_has_its_bits, read_plan, take_part, take_parts, ReadDataView, MAX_COILS,
    MAX_REGISTERS,
};
use crate::driver_modbus::validate::{function_class, mapping_span, mapping_spans, MAX_ADDRESS};
use crate::time::{is_instant, Timestamp};
use vstd::prelude::*;

verus! {

/// The driver after an event.
pub open spec fn after(d: ModbusDriverView, o: Outcome) -> ModbusDriverView {
    ModbusDriverView { phase: o.phase, connected: o.connected, ..d }
}

/// How many events a cycle still takes at most.
pub open spec fn steps_left(d: ModbusDriverView) -> int {
    let n = d.plan().len();
    match d.phase {
        PhaseView::Idle => 0,
        PhaseView::Draining { left } => 3 * left + n + 2,
        PhaseView::WriteConnecting { left, write } => 3 * left + n + 1,
        PhaseView::Writing { left, write } => 3 * left + n,
        PhaseView::ReadConnecting => n as int + 1,
        PhaseView::Reading { next } => n - next,
    }
}

/// A driver stays sound, whatever happens.
pub proof fn driver_stays_sound(
    d: ModbusDriverView,
    reg: RegistryView,
    event: EventView,
    now: Timestamp,
)
    requires
        d.sound(),
        d.awaits(event),
    ensures
        after(d, d.on_event(reg, event, now)).sound(),
{
    match d.phase {
        PhaseView::Draining { left } => match event {
            EventView::Queue(Some(r)) => {
                mapping_for_is_first(d.mappings, r.tag_id);
            },
            _ => {},
        },
        _ => {},
    }
}

proof fn mapping_for_is_first(ms: Seq<ModbusMappingView>, id: Seq<char>)
    ensures
        match mapping_for(ms, id) {
            Some(i) => 0 <= i < ms.len() && ms[i].tag_id == id,
            None => true,
        },
{
}

/// A cycle ends: every event leaves fewer events to take, and once none are left the step ends
/// the cycle.
pub proof fn cycle_ends(
    d: ModbusDriverView,
    reg: RegistryView,
    event: EventView,
    now: Timestamp,
)
    requires
        d.sound(),
        d.awaits(event),
    ensures
        ({
            let o = d.on_event(reg, event, now);
            let e = after(d, o);
            &&& d.phase is Idle ==> 0 <= steps_left(e) <= 3 * WRITES_PER_CYCLE + d.plan().len()
                + 2
            &&& d.phase !is Idle ==> 0 <= steps_left(e) < steps_left(d)
            &&& o.phase is Idle <==> o.step.action is Finish
        }),
{
    driver_stays_sound(d, reg, event, now);
}

/// A write request that is refused (no mapping, or one that is not writable) changes no tag, and
/// is answered at once.
pub proof fn refused_write_changes_nothing(
    d: ModbusDriverView,
    left: int,
    reg: RegistryView,
    r: WriteRequestView,
    now: Timestamp,
)
    requires
        match mapping_for(d.mappings, r.tag_id) {
            None => true,
            Some(i) => !d.mappings[i].writable,
        },
    ensures
        d.on_request(left, reg, r, now).registry == reg,
        d.on_request(left, reg, r, now).connected == d.connected,
        d.on_request(left, reg, r, now).step.reply == answer(
            r.reply,
            Err(
                if mapping_for(d.mappings, r.tag_id) is None {
                    "Unknown tag mapping"@
                } else {
                    "Tag not writable"@
                },
            ),
        ),
{
}

/// The write that the driver waits for the device with, if it does.
pub open spec fn pending(p: PhaseView) -> Option<PendingWriteView> {
    match p {
        PhaseView::WriteConnecting { left, write } => Some(write),
        PhaseView::Writing { left, write } => Some(write),
        _ => None,
    }
}

/// A write request is answered at once, or it stays pending with the place of its reply and the
/// value that it asks for; never both.
pub proof fn request_is_answered_or_pending(
    d: ModbusDriverView,
    left: int,
    reg: RegistryView,
    r: WriteRequestView,
    now: Timestamp,
)
    requires
        0 < left,
    ensures
        ({
            let o = d.on_request(left, reg, r, now);
            match pending(o.phase) {
                Some(w) => o.step.reply is None && w.reply == r.reply && w.value == r.value,
                None => match r.reply {
                    Some(id) => o.step.reply matches Some(x) && x.to == id,
                    None => o.step.reply is None,
                },
            }
        }),
{
}

/// A pending write stays pending without an answer, or it is answered to the place of its reply
/// and is pending no more.
pub proof fn pending_write_is_answered_once(
    d: ModbusDriverView,
    reg: RegistryView,
    event: EventView,
    now: Timestamp,
)
    requires
        d.sound(),
        d.awaits(event),
        pending(d.phase) is Some,
    ensures
        ({
            let w = pending(d.phase)->0;
            let o = d.on_event(reg, event, now);
            match pending(o.phase) {
                Some(v) => v == w && o.step.reply is None,
                None => match w.reply {
                    Some(id) => o.step.reply matches Some(x) && x.to == id,
                    None => o.step.reply is None,
                },
            }
        }),
{
}

/// Nothing else is answered: without a request and without a pending write there is no reply.
pub proof fn reads_answer_no_write(
    d: ModbusDriverView,
    reg: RegistryView,
    event: EventView,
    now: Timestamp,
)
    requires
        d.sound(),
        d.awaits(event),
        pending(d.phase) is None,
        !(event is Queue && event->Queue_0 is Some),
    ensures
        d.on_event(reg, event, now).step.reply is None,
{
}

/// A cycle that ends with an error leaves no connection behind.
pub proof fn failed_cycle_disconnects(
    d: ModbusDriverView,
    reg: RegistryView,
    event: EventView,
    now: Timestamp,
)
    requires
        d.sound(),
        d.awaits(event),
    ensures
        ({
            let o = d.on_event(reg, event, now);
            &&& o.step.action matches ActionView::Finish(Err(e)) ==> !o.connected
            &&& o.step.disconnect ==> !o.connected && o.step.action is Finish
            &&& d.connected && !o.connected ==> o.step.disconnect
        }),
{
}

/// A write that the device took is what the registry holds of the tag, in good quality and as of
/// the time of the answer, where the value has the type of the tag.
pub proof fn taken_write_is_held(
    d: ModbusDriverView,
    left: int,
    write: PendingWriteView,
    reg: RegistryView,
    now: Timestamp,
)
    requires
        reg.update_fault(d.mappings[write.mapping].tag_id, write.value) is None,
    ensures
        ({
            let id = d.mappings[write.mapping].tag_id;
            let o = d.on_written(left, write, reg, WriteOutcomeView::Done, now);
            &&& o.registry.store.tags[id].value == write.value
            &&& o.registry.store.tags[id].quality == TagQualityView::Good
            &&& o.registry.store.tags[id].source_timestamp == now
            &&& o.step.reply == answer(write.reply, Ok(()))
        }),
{
}

/// A write is reported as done only where the device took it.
pub proof fn write_succeeds_where_taken_only(
    d: ModbusDriverView,
    left: int,
    write: PendingWriteView,
    reg: RegistryView,
    o: WriteOutcomeView,
    now: Timestamp,
)
    requires
        d.on_written(left, write, reg, o, now).step.reply matches Some(x) && x.result is Ok,
    ensures
        o is Done,
{
}

/// A pending write belongs to a writable mapping.
pub open spec fn pending_is_writable(d: ModbusDriverView) -> bool {
    pending(d.phase) matches Some(w) ==> d.mappings[w.mapping].writable
}

/// Only writable mappings are written, of holding registers or of coils: whatever happens, a
/// pending write belongs to such a mapping, and what is sent for it is what writes its value
/// there. Nothing is sent to the device where no write is pending.
pub proof fn write_carries_its_value(
    d: ModbusDriverView,
    reg: RegistryView,
    event: EventView,
    now: Timestamp,
)
    requires
        d.sound(),
        d.awaits(event),
        pending_is_writable(d),
    ensures
        ({
            let o = d.on_event(reg, event, now);
            &&& pending_is_writable(after(d, o))
            &&& o.phase matches PhaseView::Writing { write, .. } ==> {
                let m = d.mappings[write.mapping];
                &&& m.function == ModbusFunction::HoldingRegisters || m.function
                    == ModbusFunction::Coils
                &&& write_action(m, write.value) == Some(o.step.action)
            }
            &&& o.step.action is Write || o.step.action is WriteCoil ==> o.phase is Writing
        }),
{
}

/// A boolean for a writable coil that the mapping holds is written to that coil.
pub proof fn coil_is_written(
    d: ModbusDriverView,
    left: int,
    reg: RegistryView,
    r: WriteRequestView,
    b: bool,
    now: Timestamp,
)
    requires
        mapping_for(d.mappings, r.tag_id) is Some,
        r.value == TagValueView::Bool(b),
        ({
            let m = d.mappings[mapping_for(d.mappings, r.tag_id)->0];
            &&& m.writable
            &&& m.function == ModbusFunction::Coils
            &&& m.bit_offset < m.quantity
            &&& m.address + m.bit_offset <= MAX_ADDRESS
        }),
        d.connected,
    ensures
        ({
            let m = d.mappings[mapping_for(d.mappings, r.tag_id)->0];
            let o = d.on_request(left, reg, r, now);
            &&& o.step.action == ActionView::WriteCoil {
                address: (m.address + m.bit_offset) as u16,
                value: b,
            }
            &&& o.step.reply is None
            &&& o.registry == reg
        }),
{
}

// ---------------------------------------------------------------------------
// Which tags change
// ---------------------------------------------------------------------------

/// Some mapping belongs to the tag `id`.
pub open spec fn maps(ms: Seq<ModbusMappingView>, id: Seq<char>) -> bool {
    exists|i: int| 0 <= i < ms.len() && (#[trigger] ms[i]).tag_id == id
}

proof fn take_parts_changes_mapped_tags_only(
    reg: RegistryView,
    ms: Seq<ModbusMappingView>,
    c: ChunkView,
    data: ReadDataView,
    now: Timestamp,
    n: nat,
    id: Seq<char>,
)
    requires
        !maps(ms, id),
        n <= c.members.len(),
        forall|b: int| 0 <= b < c.members.len() ==> 0 <= #[trigger] c.members[b] < ms.len(),
    ensures
        same_tag(reg, take_parts(reg, ms, c, data, now, n), id),
    decreases n,
{
    if n > 0 {
        take_parts_changes_mapped_tags_only(reg, ms, c, data, now, (n - 1) as nat, id);
        let i = c.members[n - 1];
        assert(0 <= i < ms.len());
        assert(ms[i].tag_id != id);
    }
}

proof fn mark_changes_mapped_tags_only(
    reg: RegistryView,
    ms: Seq<ModbusMappingView>,
    members: Seq<int>,
    quality: TagQualityView,
    now: Timestamp,
    n: nat,
    id: Seq<char>,
)
    requires
        !maps(ms, id),
        n <= members.len(),
        forall|b: int| 0 <= b < members.len() ==> 0 <= #[trigger] members[b] < ms.len(),
    ensures
        same_tag(reg, mark(reg, ms, members, quality, now, n), id),
    decreases n,
{
    if n > 0 {
        mark_changes_mapped_tags_only(reg, ms, members, quality, now, (n - 1) as nat, id);
        let i = members[n - 1];
        assert(0 <= i < ms.len());
        assert(ms[i].tag_id != id);
    }
}

/// Whatever happens, only tags that the driver has mappings for change.
pub proof fn only_mapped_tags_change(
    d: ModbusDriverView,
    reg: RegistryView,
    event: EventView,
    now: Timestamp,
    id: Seq<char>,
)
    requires
        d.sound(),
        d.awaits(event),
        !maps(d.mappings, id),
    ensures
        same_tag(reg, d.on_event(reg, event, now).registry, id),
{
    match d.phase {
        PhaseView::Draining { left } => match event {
            EventView::Queue(Some(r)) => {
                mapping_for_is_first(d.mappings, r.tag_id);
            },
            _ => {},
        },
        PhaseView::WriteConnecting { left, write } => {
            assert(d.mappings[write.mapping].tag_id != id);
        },
        PhaseView::Writing { left, write } => {
            assert(d.mappings[write.mapping].tag_id != id);
        },
        PhaseView::Reading { next } => {
            let c = d.plan()[next];
            crate::driver_modbus::read::read_plan_is_sound(d.mappings, next);
            match event {
                EventView::Data(Ok(data)) => {
                    take_parts_changes_mapped_tags_only(
                        reg,
                        d.mappings,
                        c,
                        data,
                        now,
                        c.members.len(),
                        id,
                    );
                },
                _ => {
                    mark_changes_mapped_tags_only(
                        reg,
                        d.mappings,
                        c.members,
                        TagQualityView::ConfigError,
                        now,
                        c.members.len(),
                        id,
                    );
                    mark_changes_mapped_tags_only(
                        reg,
                        d.mappings,
                        c.members,
                        TagQualityView::CommLost,
                        now,
                        c.members.len(),
                        id,
                    );
                },
            }
        },
        _ => {},
    }
}

// ---------------------------------------------------------------------------
// What is read
// ---------------------------------------------------------------------------

/// A cycle reads every address of every mapping, up to the highest address, on behalf of that
/// mapping.
pub proof fn cycle_reads_every_mapped_address(ms: Seq<ModbusMappingView>, i: int, w: int)
    requires
        0 <= i < ms.len(),
        ms[i].address <= w < ms[i].address + ms[i].quantity,
        w <= MAX_ADDRESS,
    ensures
        is_read_for(read_plan(ms), w, i),
{
    let spans = mapping_spans(ms);
    let limit = MAX_ADDRESS as int;
    assert(spans[i] == mapping_span(ms[i]));
    let class = function_class(ms[i].function);
    let max = if class < 2 {
        MAX_COILS as int
    } else {
        MAX_REGISTERS as int
    };
    crate::driver_common::plan::small_maximum_splits_class(spans, class, limit, max);
    plan_reads_every_address(spans, class, limit, max, i, w);
    let p0 = crate::driver_common::plan::class_plan(spans, 0, limit, MAX_COILS as int);
    let p1 = crate::driver_common::plan::class_plan(spans, 1, limit, MAX_COILS as int);
    let p2 = crate::driver_common::plan::class_plan(spans, 2, limit, MAX_REGISTERS as int);
    let p3 = crate::driver_common::plan::class_plan(spans, 3, limit, MAX_REGISTERS as int);
    let own = crate::driver_common::plan::class_plan(spans, class, limit, max);
    let k = choose|k: int|
        {
            &&& 0 <= k < own.len()
            &&& (#[trigger] own[k]).start <= w < own[k].start + own[k].len
            &&& own[k].members.contains(i)
        };
    let at = if class == 0 {
        k
    } else if class == 1 {
        p0.len() + k
    } else if class == 2 {
        p0.len() + p1.len() + k
    } else {
        p0.len() + p1.len() + p2.len() + k
    };
    assert(read_plan(ms)[at] == own[k]);
}

/// A value that the words of a PLC keep whole: a text that does not end in a NUL character and an
/// even number of bytes, since padding hides the difference, and a time that is a whole number of
/// milliseconds.
pub open spec fn kept_whole(value: TagValueView) -> bool {
    match value {
        TagValueView::String(s) => s.len() > 0 ==> s.last() != '\0',
        TagValueView::ByteString(b) => b.len() % 2 == 0,
        TagValueView::DateTime(t) => {
            &&& is_instant(t.secs(), t.nanos())
            &&& t.nanos() < 1_000_000_000
            &&& t.nanos() % 1_000_000 == 0
        },
        _ => true,
    }
}

/// What is written of a value is read back as that value, in every byte order: reordering the
/// words that were written, and decoding them by the type of the value, gives the value.
pub proof fn written_value_is_read_back(value: TagValueView, order: WordOrder)
    requires
        kept_whole(value),
    ensures
        decoded(
            type_of(value),
            reordered(order, bytes_of(write_words(value, order))),
            0,
        ) == Ok::<TagValueView, DriverErrorView>(value),
{
    let words = value_words(value);
    let plain = bytes_of(words);
    let sent = reordered(order, plain);
    reordering_is_an_involution(order, plain);
    assert(plain.len() % 2 == 0);
    crate::driver_common::words::bytes_come_back(sent);
    words_are_decoded(value);
}

/// A tag that is read where the words of a value were written holds that value.
///
/// The mapping lies within the request and has as many registers as the value has words; a
/// boolean is written to the whole register, so it is read back at bit 0 only.
pub proof fn tag_reads_what_was_written(
    reg: RegistryView,
    m: ModbusMappingView,
    c: ChunkView,
    registers: Seq<u16>,
    value: TagValueView,
    now: Timestamp,
)
    requires
        kept_whole(value),
        type_of(value) == m.data_type,
        m.data_type == TagDataType::Bool ==> m.bit_offset == 0,
        reg.has_tag(m.tag_id),
        0 < m.quantity,
        c.start <= m.address,
        m.address + m.quantity <= c.start + c.len,
        m.address + m.quantity - c.start <= registers.len(),
        registers.subrange(m.address - c.start, m.address + m.quantity - c.start) == write_words(
            value,
            m.byte_order,
        ),
    ensures
        take_part(reg, m, c, ReadDataView::Registers(registers), now) == reg.update(
            m.tag_id,
            value,
            TagQualityView::Good,
            now,
            now,
        ),
{
    written_value_is_read_back(value, m.byte_order);
}

/// A boolean tag takes the value of its own coil or discrete input, whatever else is read with it:
/// the one `bit_offset` places after the address of its mapping, which is the one that is written.
pub proof fn tag_reads_its_own_bit(
    reg: RegistryView,
    m: ModbusMappingView,
    c: ChunkView,
    bits: Seq<bool>,
    now: Timestamp,
)
    requires
        m.data_type == TagDataType::Bool,
        m.bit_offset < 16,
        m.bit_offset < m.quantity,
        reg.has_tag(m.tag_id),
        c.start <= m.address,
        m.address + m.quantity <= c.start + c.len,
        m.address + m.quantity - c.start <= bits.len(),
    ensures
        take_part(reg, m, c, ReadDataView::Bits(bits), now) == reg.update(
            m.tag_id,
            TagValueView::Bool(bits[m.address + m.bit_offset - c.start]),
            TagQualityView::Good,
            now,
            now,
        ),
{
    let own = bits.subrange(m.address - c.start, m.address + m.quantity - c.start);
    packed_word_has_its_bits(own, 0, m.bit_offset as int);
    let words = packed(own);
    let bytes = bytes_of(words);
    assert(words.len() > 0);
    crate::driver_common::words::words_come_back(words);
    assert(word(bytes, 0) == words[0]);
}

} // verus!
