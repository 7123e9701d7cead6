//! What holds of every FINS cycle.

use crate::core_model::registry::{same_tag, RegistryView};
use crate::core_model::tag_value::{
    reordered, reordering_is_an_involution, type_of, TagDataType, TagQualityView, TagValueView,
    WordOrder,
};
use crate::driver_common::plan::ChunkView;
use crate::driver_common::words::{bytes_come_back, bytes_of, u16_at, value_words};
use crate::driver_common::write_request::{answer, WriteRequestView};
use crate::driver_common::write_words;
use crate::driver_fins::codec::{decoded, words_are_decoded_back};
use crate::driver_fins::driver::{
    following_sid, mapping_for, read_frame, write_frame, ActionView, EventView, FinsDriverView,
    Outcome, PendingWriteView, PhaseView, WRITES_PER_CYCLE,
};
use crate::driver_fins::errors::DriverErrorView;
use crate::driver_fins::frame::{
    framed, memory_address, memory_write, response_in, wrapped, WRITE_COMMAND,
};
use crate::driver_fins::mapping::TagMappingView;
use crate::driver_fins::read::{mark, read_plan_is_sound, take_part, take_parts};
use crate::driver_modbus::laws::kept_whole;
use crate::time::Timestamp;
use vstd::prelude::*;

verus! {

/// The driver after an event.
pub open spec fn after(d: FinsDriverView, o: Outcome) -> FinsDriverView {
    FinsDriverView { phase: o.phase, sid: o.sid, connected: o.connected, ..d }
}

/// How many events a cycle still takes at most.
pub open spec fn steps_left(d: FinsDriverView) -> int {
    let n = d.plan().len();
    match d.phase {
        PhaseView::Idle => 0,
        PhaseView::Connecting => 3 * WRITES_PER_CYCLE + 2 * n + 2,
        PhaseView::Draining { left } => 3 * left + 2 * n + 1,
        PhaseView::WriteConnecting { left, .. } => 3 * left + 2 * n,
        PhaseView::Writing { left, .. } => 3 * left + 2 * n - 1,
        PhaseView::ReadConnecting { next, .. } => 2 * (n - next),
        PhaseView::Reading { next, .. } => 2 * (n - next) - 1,
    }
}

proof fn mapping_for_is_first(ms: Seq<TagMappingView>, id: Seq<char>)
    ensures
        match mapping_for(ms, id) {
            Some(i) => 0 <= i < ms.len() && ms[i].tag_id == id,
            None => true,
        },
{
}

/// A driver stays sound, whatever happens.
pub proof fn driver_stays_sound(
    d: FinsDriverView,
    reg: RegistryView,
    event: EventView,
    now: Timestamp,
)
    requires
        d.sound(),
        d.awaits(event),
    ensures
        after(d, d.on_event(reg, event, now)).sound(),
{
    match d.phase {
        PhaseView::Draining { left } => match event {
            EventView::Queue(Some(r)) => {
                mapping_for_is_first(d.mappings, r.tag_id);
            },
            _ => {},
        },
        _ => {},
    }
}

/// A cycle ends: every event leaves fewer events to take, and once none are left the step ends
/// the cycle.
pub proof fn cycle_ends(
    d: FinsDriverView,
    reg: RegistryView,
    event: EventView,
    now: Timestamp,
)
    requires
        d.sound(),
        d.awaits(event),
    ensures
        ({
            let o = d.on_event(reg, event, now);
            let e = after(d, o);
            &&& d.phase is Idle ==> 0 <= steps_left(e) <= 3 * WRITES_PER_CYCLE + 2
                * d.plan().len() + 2
            &&& d.phase !is Idle ==> 0 <= steps_left(e) < steps_left(d)
            &&& o.phase is Idle <==> o.step.action is Finish
        }),
{
    driver_stays_sound(d, reg, event, now);
}

/// A write request that is refused (no mapping, or one that is not writable) changes no tag, is
/// sent nowhere, and is answered at once.
pub proof fn refused_write_changes_nothing(
    d: FinsDriverView,
    left: int,
    reg: RegistryView,
    r: WriteRequestView,
)
    requires
        match mapping_for(d.mappings, r.tag_id) {
            None => true,
            Some(i) => !d.mappings[i].writable,
        },
        left > 1,
    ensures
        ({
            let o = d.on_request(left, reg, r);
            &&& o.registry == reg
            &&& o.connected == d.connected
            &&& o.sid == d.sid
            &&& o.step.action == ActionView::PollQueue
            &&& o.step.reply == answer(
                r.reply,
                Err(
                    if mapping_for(d.mappings, r.tag_id) is None {
                        "Unknown tag id"@
                    } else {
                        "Not writable"@
                    },
                ),
            )
        }),
{
}

/// The write that the driver waits for the PLC with, if it does.
pub open spec fn pending(p: PhaseView) -> Option<PendingWriteView> {
    match p {
        PhaseView::WriteConnecting { write, .. } => Some(write),
        PhaseView::Writing { write, .. } => Some(write),
        _ => None,
    }
}

/// A write request is answered at once, or it stays pending with the place of its reply and the
/// value that it asks for; never both.
pub proof fn request_is_answered_or_pending(
    d: FinsDriverView,
    left: int,
    reg: RegistryView,
    r: WriteRequestView,
)
    requires
        0 < left,
    ensures
        ({
            let o = d.on_request(left, reg, r);
            match pending(o.phase) {
                Some(w) => o.step.reply is None && w.reply == r.reply && w.value == r.value,
                None => match r.reply {
                    Some(id) => o.step.reply matches Some(x) && x.to == id,
                    None => o.step.reply is None,
                },
            }
        }),
{
}

/// A pending write stays pending without an answer, or it is answered to the place of its reply
/// and is pending no more.
pub proof fn pending_write_is_answered_once(
    d: FinsDriverView,
    reg: RegistryView,
    event: EventView,
    now: Timestamp,
)
    requires
        d.sound(),
        d.awaits(event),
        pending(d.phase) is Some,
    ensures
        ({
            let w = pending(d.phase)->0;
            let o = d.on_event(reg, event, now);
            match pending(o.phase) {
                Some(v) => v == w && o.step.reply is None,
                None => match w.reply {
                    Some(id) => o.step.reply matches Some(x) && x.to == id,
                    None => o.step.reply is None,
                },
            }
        }),
{
}

/// Nothing else is answered: without a request and without a pending write there is no reply.
pub proof fn reads_answer_no_write(
    d: FinsDriverView,
    reg: RegistryView,
    event: EventView,
    now: Timestamp,
)
    requires
        d.sound(),
        d.awaits(event),
        pending(d.phase) is None,
        !(event is Queue && event->Queue_0 is Some),
    ensures
        d.on_event(reg, event, now).step.reply is None,
{
}

/// A cycle ends with an error only where its first connection could not be made.
pub proof fn cycle_fails_for_want_of_connection_only(
    d: FinsDriverView,
    reg: RegistryView,
    event: EventView,
    now: Timestamp,
)
    requires
        d.sound(),
        d.awaits(event),
    ensures
        d.on_event(reg, event, now).step.action matches ActionView::Finish(Err(e)) ==> d.phase
            == PhaseView::Connecting && event == EventView::ConnectFailed(e),
{
}

/// The connection is dropped exactly where the driver had one and has none any more.
pub proof fn connection_is_dropped_where_lost(
    d: FinsDriverView,
    reg: RegistryView,
    event: EventView,
    now: Timestamp,
)
    requires
        d.sound(),
        d.awaits(event),
    ensures
        d.on_event(reg, event, now).step.disconnect <==> d.connected && !d.on_event(
            reg,
            event,
            now,
        ).connected,
{
}

/// A write that the PLC took is what the registry holds of the tag, in good quality and as of the
/// time of the answer, where the value has the type of the tag.
pub proof fn taken_write_is_held(
    d: FinsDriverView,
    left: int,
    write: PendingWriteView,
    reg: RegistryView,
    payload: Seq<u8>,
    now: Timestamp,
)
    requires
        payload.len() >= 14,
        payload[9] == write.sid,
        u16_at(payload, 12) == 0,
        reg.update_fault(d.mappings[write.mapping].tag_id, write.value) is None,
    ensures
        ({
            let id = d.mappings[write.mapping].tag_id;
            let o = d.on_write_answer(left, write, reg, Ok(payload), now);
            &&& o.registry.store.tags[id].value == write.value
            &&& o.registry.store.tags[id].quality == TagQualityView::Good
            &&& o.registry.store.tags[id].source_timestamp == now
            &&& o.step.reply == answer(write.reply, Ok(()))
        }),
{
}

/// A write is reported as done only where the PLC answered its own request with end code 0.
pub proof fn write_succeeds_by_its_own_answer_only(
    d: FinsDriverView,
    left: int,
    write: PendingWriteView,
    reg: RegistryView,
    a: Result<Seq<u8>, Seq<char>>,
    now: Timestamp,
)
    requires
        d.on_write_answer(left, write, reg, a, now).step.reply matches Some(x) && x.result is Ok,
    ensures
        match a {
            Ok(payload) => payload.len() >= 14 && payload[9] == write.sid && u16_at(payload, 12)
                == 0,
            Err(_) => false,
        },
{
}

// ---------------------------------------------------------------------------
// Service ids and frames
// ---------------------------------------------------------------------------

/// The request that a frame carries, behind the header that announces its length.
pub open spec fn carried(frame: Seq<u8>) -> Seq<u8> {
    frame.skip(8)
}

/// Service id of the request that the driver waits for the answer to.
pub open spec fn awaited_sid(p: PhaseView) -> Option<u8> {
    match p {
        PhaseView::Writing { write, .. } => Some(write.sid),
        PhaseView::Reading { sid, .. } => Some(sid),
        _ => None,
    }
}

/// What the driver holds of a write that waits for a connection is the frame of that write.
pub open spec fn holds_frame(d: FinsDriverView) -> bool {
    match d.phase {
        PhaseView::WriteConnecting { write, frame, .. } => frame == write_frame(
            d.mappings[write.mapping],
            write.value,
            write.sid,
        ),
        _ => true,
    }
}

/// A write that waits for a connection waits with its own frame, whatever happens.
pub proof fn waiting_write_keeps_its_frame(
    d: FinsDriverView,
    reg: RegistryView,
    event: EventView,
    now: Timestamp,
)
    requires
        d.sound(),
        d.awaits(event),
        holds_frame(d),
    ensures
        holds_frame(after(d, d.on_event(reg, event, now))),
{
}

/// A frame that is sent carries the service id that its answer is held against.
pub proof fn frame_carries_awaited_sid(
    d: FinsDriverView,
    reg: RegistryView,
    event: EventView,
    now: Timestamp,
)
    requires
        d.sound(),
        d.awaits(event),
        holds_frame(d),
    ensures
        d.on_event(reg, event, now).step.action matches ActionView::Exchange(frame) ==> awaited_sid(
            d.on_event(reg, event, now).phase,
        ) == Some(carried(frame)[9]),
{
    let o = d.on_event(reg, event, now);
    match o.phase {
        PhaseView::Writing { write, .. } => {
            let f = write_frame(d.mappings[write.mapping], write.value, write.sid);
            if let ActionView::Exchange(frame) = o.step.action {
                assert(frame == f);
                assert(carried(f)[9] == f[17]);
            }
        },
        PhaseView::Reading { next, sid } => {
            let f = read_frame(d.plan()[next], sid);
            if let ActionView::Exchange(frame) = o.step.action {
                assert(frame == f);
                assert(carried(f)[9] == f[17]);
            }
        },
        _ => {},
    }
}

/// A pending write belongs to a writable mapping.
pub open spec fn pending_is_writable(d: FinsDriverView) -> bool {
    pending(d.phase) matches Some(w) ==> d.mappings[w.mapping].writable
}

/// Only writable mappings are written: whatever happens, a pending write belongs to such a
/// mapping, and what is sent for it is the frame that writes its value there.
pub proof fn write_carries_its_value(
    d: FinsDriverView,
    reg: RegistryView,
    event: EventView,
    now: Timestamp,
)
    requires
        d.sound(),
        d.awaits(event),
        holds_frame(d),
        pending_is_writable(d),
    ensures
        ({
            let o = d.on_event(reg, event, now);
            &&& pending_is_writable(after(d, o))
            &&& o.phase matches PhaseView::Writing { write, .. } ==> o.step.action
                == ActionView::Exchange(
                write_frame(d.mappings[write.mapping], write.value, write.sid),
            )
        }),
{
}

/// Two requests in a row have different service ids.
pub proof fn service_ids_change(sid: u8)
    ensures
        following_sid(sid) != sid,
{
}

/// The frame that writes a value holds, behind the address, the words of the value and their
/// count.
pub proof fn write_frame_holds_words(m: TagMappingView, value: TagValueView, sid: u8)
    requires
        write_words(value, m.byte_order).len() <= 0xFFFF,
    ensures
        ({
            let w = write_words(value, m.byte_order);
            let f = carried(write_frame(m, value, sid));
            &&& f.subrange(10, 12) == WRITE_COMMAND@
            &&& f.subrange(12, 17) == memory_address(m.area, m.address, m.bit_offset)
            &&& u16_at(f, 17) == w.len()
            &&& f.skip(19) == bytes_of(w)
        }),
{
    let w = write_words(value, m.byte_order);
    let params = memory_write(m.area, m.address, m.bit_offset, w);
    let payload = framed(sid, WRITE_COMMAND@, params);
    let f = carried(wrapped(payload));
    assert(f =~= payload);
    assert(f.subrange(10, 12) =~= WRITE_COMMAND@);
    assert(f.subrange(12, 17) =~= memory_address(m.area, m.address, m.bit_offset));
    let count = bytes_of(seq![w.len() as u16]);
    assert(f[17] == count[0] && f[18] == count[1]);
    assert(f.skip(19) =~= bytes_of(w));
}

// ---------------------------------------------------------------------------
// Which tags change
// ---------------------------------------------------------------------------

/// Some mapping belongs to the tag `id`.
pub open spec fn maps(ms: Seq<TagMappingView>, id: Seq<char>) -> bool {
    exists|i: int| 0 <= i < ms.len() && (#[trigger] ms[i]).tag_id == id
}

proof fn take_parts_changes_mapped_tags_only(
    reg: RegistryView,
    ms: Seq<TagMappingView>,
    c: ChunkView,
    raw: Seq<u8>,
    now: Timestamp,
    n: nat,
    id: Seq<char>,
)
    requires
        !maps(ms, id),
        n <= c.members.len(),
        forall|b: int| 0 <= b < c.members.len() ==> 0 <= #[trigger] c.members[b] < ms.len(),
    ensures
        same_tag(reg, take_parts(reg, ms, c, raw, now, n), id),
    decreases n,
{
    if n > 0 {
        take_parts_changes_mapped_tags_only(reg, ms, c, raw, now, (n - 1) as nat, id);
        let i = c.members[n - 1];
        assert(0 <= i < ms.len());
        assert(ms[i].tag_id != id);
    }
}

proof fn mark_changes_mapped_tags_only(
    reg: RegistryView,
    ms: Seq<TagMappingView>,
    members: Seq<int>,
    quality: TagQualityView,
    now: Timestamp,
    n: nat,
    id: Seq<char>,
)
    requires
        !maps(ms, id),
        n <= members.len(),
        forall|b: int| 0 <= b < members.len() ==> 0 <= #[trigger] members[b] < ms.len(),
    ensures
        same_tag(reg, mark(reg, ms, members, quality, now, n), id),
    decreases n,
{
    if n > 0 {
        mark_changes_mapped_tags_only(reg, ms, members, quality, now, (n - 1) as nat, id);
        let i = members[n - 1];
        assert(0 <= i < ms.len());
        assert(ms[i].tag_id != id);
    }
}

/// Whatever happens, only tags that the driver has mappings for change.
pub proof fn only_mapped_tags_change(
    d: FinsDriverView,
    reg: RegistryView,
    event: EventView,
    now: Timestamp,
    id: Seq<char>,
)
    requires
        d.sound(),
        d.awaits(event),
        !maps(d.mappings, id),
    ensures
        same_tag(reg, d.on_event(reg, event, now).registry, id),
{
    match d.phase {
        PhaseView::WriteConnecting { write, .. } => {
            assert(d.mappings[write.mapping].tag_id != id);
        },
        PhaseView::Writing { write, .. } => {
            assert(d.mappings[write.mapping].tag_id != id);
        },
        PhaseView::ReadConnecting { next, .. } => {
            marked_changes_mapped_tags_only(d, next, reg, TagQualityView::CommLost, now, id);
        },
        PhaseView::Reading { next, sid } => {
            let c = d.plan()[next];
            read_plan_is_sound(d.mappings, d.max_words, next);
            if let EventView::Answer(a) = event {
                marked_changes_mapped_tags_only(d, next, reg, TagQualityView::CommLost, now, id);
                if let Ok(payload) = a {
                    match response_in(payload) {
                        Ok(r) => {
                            marked_changes_mapped_tags_only(
                                d,
                                next,
                                reg,
                                TagQualityView::Error(
                                    crate::driver_fins::driver::end_code_text(r.end_code),
                                ),
                                now,
                                id,
                            );
                            take_parts_changes_mapped_tags_only(
                                reg,
                                d.mappings,
                                c,
                                r.data,
                                now,
                                c.members.len(),
                                id,
                            );
                        },
                        Err(e) => {
                            marked_changes_mapped_tags_only(
                                d,
                                next,
                                reg,
                                TagQualityView::Error(
                                    "parse_fins_resp: "@
                                        + crate::driver_fins::errors::error_text(e),
                                ),
                                now,
                                id,
                            );
                        },
                    }
                }
            }
        },
        _ => {},
    }
}

proof fn marked_changes_mapped_tags_only(
    d: FinsDriverView,
    next: int,
    reg: RegistryView,
    quality: TagQualityView,
    now: Timestamp,
    id: Seq<char>,
)
    requires
        0 <= next < d.plan().len(),
        !maps(d.mappings, id),
    ensures
        same_tag(reg, d.marked(next, reg, quality, now), id),
{
    let members = d.plan()[next].members;
    read_plan_is_sound(d.mappings, d.max_words, next);
    mark_changes_mapped_tags_only(reg, d.mappings, members, quality, now, members.len(), id);
}

// ---------------------------------------------------------------------------
// What is read
// ---------------------------------------------------------------------------

/// What is written of a value is read back as that value, in every byte order: reordering the
/// words that were written, and decoding them by the type of the value, gives the value.
///
/// A time before 1970 is not read back, since its milliseconds are read as an unsigned number.
pub proof fn written_value_is_read_back(value: TagValueView, order: WordOrder)
    requires
        kept_whole(value),
        value matches TagValueView::DateTime(t) ==> t.secs() >= 0,
    ensures
        decoded(
            type_of(value),
            reordered(order, bytes_of(write_words(value, order))),
            0,
        ) == Ok::<TagValueView, DriverErrorView>(value),
{
    let plain = bytes_of(value_words(value));
    let sent = reordered(order, plain);
    reordering_is_an_involution(order, plain);
    assert(plain.len() % 2 == 0);
    bytes_come_back(sent);
    words_are_decoded_back(value);
}

/// A tag that is read where the words of a value were written holds that value.
///
/// The mapping lies within the request and has as many words as the value; a boolean is written
/// to the whole word, so it is read back at bit 0 only.
pub proof fn tag_reads_what_was_written(
    reg: RegistryView,
    m: TagMappingView,
    c: ChunkView,
    raw: Seq<u8>,
    value: TagValueView,
    now: Timestamp,
)
    requires
        kept_whole(value),
        value matches TagValueView::DateTime(t) ==> t.secs() >= 0,
        type_of(value) == m.data_type,
        m.data_type == TagDataType::Bool ==> m.bit_offset == 0,
        reg.definitions.contains_key(m.tag_id),
        0 < m.word_count,
        c.start <= m.address,
        m.address + m.word_count <= c.start + c.len,
        2 * c.len <= raw.len(),
        raw.subrange(2 * (m.address - c.start), 2 * (m.address + m.word_count - c.start))
            == bytes_of(write_words(value, m.byte_order)),
    ensures
        take_part(reg, m, c, raw, now) == reg.update(
            m.tag_id,
            value,
            TagQualityView::Good,
            now,
            now,
        ),
{
    written_value_is_read_back(value, m.byte_order);
}

} // verus!
