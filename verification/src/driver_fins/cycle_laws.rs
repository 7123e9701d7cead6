//! How a FINS cycle goes on after each event, and what its frames hold.

use crate::core_model::registry::{same_tag, RegistryView};
use crate::core_model::tag_value::{
    reordered, TagDataType, TagQualityView, TagValueView, WordOrder,
};
use crate::driver_common::health::HealthEventView;
use crate::driver_common::plan::ChunkView;
use crate::driver_common::word_laws::bytes_make_up_the_words;
use crate::driver_common::words::{bytes_of, u16_at, value_words};
use crate::driver_common::write_request::{ReplyId, ReplyView, WriteRequestView};
use crate::driver_common::write_words;
use crate::driver_fins::codec::decoded;
use crate::driver_fins::config::FinsConfig;
use crate::driver_fins::driver::{
    end_code_text, fits_frame, following_sid, is_mapping_of, mapping_for, read_frame, write_frame,
    Action, ActionView, EventView, FinsDriver, FinsDriverView, Outcome, PendingWriteView, PhaseView,
    Step, StepView,
};
use crate::driver_fins::errors::{error_text, DriverErrorView};
use crate::driver_fins::frame::{
    framed, header_announces_length, memory_read, memory_write, response_in, wrapped, READ_COMMAND,
    WRITE_COMMAND,
};
use crate::driver_fins::mapping::TagMappingView;
use crate::driver_fins::read::{
    cycle_reads_every_mapped_address, mark, plannable, read_plan,
    read_plan_is_sound, take_part, take_parts,
};
use crate::driver_fins::validate::{mapping_fault, range_text};
use crate::text::decimal;
use crate::time::Timestamp;
use vstd::prelude::*;
use vstd::string::*;

verus! {

// ---------------------------------------------------------------------------
// Frames
// ---------------------------------------------------------------------------

/// A service id is followed by the next number, and 255 by 0.
pub proof fn service_ids_count_up(sid: u8)
    ensures
        following_sid(sid) == (sid + 1) % 256,
{
}

/// What every frame starts with: `FINS` and the length of what comes behind these eight bytes,
/// the byte that says that this is a command, that it may pass two gateways, the service id at
/// place 9 and zeros between, and the command at places 10 and 11.
pub open spec fn is_command_frame(f: Seq<u8>, sid: u8, first: u8, second: u8) -> bool {
    &&& f.len() >= 20
    &&& f[0] == 0x46 && f[1] == 0x49 && f[2] == 0x4E && f[3] == 0x53
    &&& ((f[4] * 0x100 + f[5]) * 0x100 + f[6]) * 0x100 + f[7] == f.len() - 8
    &&& f[8] == 0x80 && f[9] == 0 && f[10] == 2
    &&& f[11] == 0 && f[12] == 0 && f[13] == 0 && f[14] == 0 && f[15] == 0 && f[16] == 0
    &&& f[17] == sid
    &&& f[18] == first && f[19] == second
}

proof fn command_frame(sid: u8, command: Seq<u8>, params: Seq<u8>)
    requires
        command.len() == 2,
        params.len() + 12 < 0x1_0000_0000,
    ensures
        is_command_frame(wrapped(framed(sid, command, params)), sid, command[0], command[1]),
        wrapped(framed(sid, command, params)).skip(20) == params,
{
    let payload = framed(sid, command, params);
    let f = wrapped(payload);
    header_announces_length(payload);
    crate::driver_common::word_laws::bytes_make_up_numbers(f, 4);
    assert(f.skip(20) =~= params);
}

/// A frame that reads carries the command `01 01`, the area, the first address in three bytes, the
/// most significant one first, bit 0, and the number of words in two bytes: what the request of
/// the plan says, of an address beyond 24 bits its lower 24.
pub proof fn read_frame_holds_its_request(c: ChunkView, sid: u8)
    requires
        0 <= c.start < 0x1_0000_0000,
        0 <= c.len < 0x1_0000,
    ensures
        ({
            let f = read_frame(c, sid);
            &&& is_command_frame(f, sid, 0x01, 0x01)
            &&& f.len() == 27
            &&& f[20] == c.class
            &&& (f[21] * 0x100 + f[22]) * 0x100 + f[23] == c.start % 0x100_0000
            &&& f[24] == 0
            &&& f[25] * 0x100 + f[26] == c.len
        }),
        ({
            let f = read_frame(c, sid).skip(8);
            &&& f[9] == sid
            &&& f[10] == 0x01 && f[11] == 0x01
            &&& f[12] == c.class
            &&& c.start < 0x100_0000 ==> f[13] * 65536 + f[14] * 256 + f[15] == c.start
            &&& f[16] == 0
            &&& u16_at(f, 17) == c.len
        }),
{
    let p = memory_read(c.class, c.start as u32, 0, c.len as u16);
    command_frame(sid, READ_COMMAND@, p);
    let f = read_frame(c, sid);
    let w = seq![c.len as u16];
    bytes_make_up_the_words(w, 0);
    assert(f.skip(20) == p);
    assert forall|i: int| 0 <= i < 7 implies f[20 + i] == p[i] by {
        assert(f.skip(20)[i] == f[20 + i]);
    }
    assert(f[20] == p[0] && f[21] == p[1] && f[22] == p[2] && f[23] == p[3] && f[24] == p[4]);
    assert(f[25] == p[5] && f[26] == p[6]);
    assert(p[5] == bytes_of(w)[0] && p[6] == bytes_of(w)[1]);
    let n = c.start;
    assert(p[1] == n / 0x1_0000 % 0x100);
    assert(p[2] == n / 0x100 % 0x100);
    assert(p[3] == n % 0x100);
    place_value(n);
}

proof fn place_value(n: int)
    requires
        0 <= n,
    ensures
        (n / 0x1_0000 % 0x100 * 0x100 + n / 0x100 % 0x100) * 0x100 + n % 0x100 == n % 0x100_0000,
{
    let h = n / 0x100;
    assert(n == h * 0x100 + n % 0x100);
    let g = h / 0x100;
    assert(h == g * 0x100 + h % 0x100);
    assert(g == n / 0x1_0000);
    let e = g / 0x100;
    assert(g == e * 0x100 + g % 0x100);
    assert(n == e * 0x100_0000 + (g % 0x100 * 0x100 + h % 0x100) * 0x100 + n % 0x100);
}

/// A frame that writes words: it carries the command `01 02`, the area, address and bit of the
/// mapping, of an address beyond 24 bits its lower 24, the number of words, of which two bytes
/// tell the lower half, and the words one after the other, the upper half of each first.
pub open spec fn is_write_frame(f: Seq<u8>, m: TagMappingView, w: Seq<u16>, sid: u8) -> bool {
    &&& is_command_frame(f, sid, 0x01, 0x02)
    &&& f.len() == 27 + 2 * w.len()
    &&& f[20] == m.area
    &&& (f[21] * 0x100 + f[22]) * 0x100 + f[23] == m.address as int % 0x100_0000
    &&& f[24] == m.bit_offset
    &&& f[25] * 0x100 + f[26] == w.len() as int % 0x1_0000
    &&& forall|k: int|
        0 <= k < w.len() ==> #[trigger] w[k] == f[27 + 2 * k] * 0x100 + f[28 + 2 * k]
}

/// The frame that writes a value to a mapping holds the words of the value in the byte order of
/// the mapping.
pub proof fn write_frame_holds_its_request(m: TagMappingView, value: TagValueView, sid: u8)
    requires
        write_words(value, m.byte_order).len() <= 0x1FFF_FFFF,
    ensures
        is_write_frame(
            write_frame(m, value, sid),
            m,
            write_words(value, m.byte_order),
            sid,
        ),
{
    let w = write_words(value, m.byte_order);
    let p = memory_write(m.area, m.address, m.bit_offset, w);
    command_frame(sid, WRITE_COMMAND@, p);
    let f = write_frame(m, value, sid);
    let count = seq![(w.len() % 0x1_0000) as u16];
    bytes_make_up_the_words(count, 0);
    assert(f.skip(20) == p);
    assert(f[20] == p[0] && f[21] == p[1] && f[22] == p[2] && f[23] == p[3] && f[24] == p[4]);
    assert(f[25] == p[5] && f[26] == p[6]);
    assert(p[5] == bytes_of(count)[0] && p[6] == bytes_of(count)[1]);
    place_value(m.address as int);
    assert forall|k: int| 0 <= k < w.len() implies #[trigger] w[k] == f[27 + 2 * k] * 0x100 + f[28
        + 2 * k] by {
        bytes_make_up_the_words(w, k);
        assert(f[27 + 2 * k] == p[7 + 2 * k] && f[28 + 2 * k] == p[8 + 2 * k]);
        assert(p[7 + 2 * k] == bytes_of(w)[2 * k] && p[8 + 2 * k] == bytes_of(w)[2 * k + 1]);
    }
}

proof fn as_many_words_are_written(value: TagValueView, order: WordOrder)
    ensures
        write_words(value, order).len() == value_words(value).len(),
{
}

/// An answer has its service id at place 9, its end code at places 12 and 13, the upper half
/// first, and the data behind them; fewer than fourteen bytes are no answer.
pub proof fn answers_are_taken_apart(frame: Seq<u8>)
    ensures
        frame.len() < 14 <==> response_in(frame) is Err,
        frame.len() < 14 ==> (response_in(frame) matches Err(DriverErrorView::Protocol(_))),
        response_in(frame) matches Ok(r) ==> {
            &&& r.sid == frame[9]
            &&& r.end_code == frame[12] * 0x100 + frame[13]
            &&& r.data.len() == frame.len() - 14
            &&& forall|i: int| 0 <= i < r.data.len() ==> #[trigger] r.data[i] == frame[14 + i]
        },
{
}

/// An end code is told in four hexadecimal digits.
pub proof fn end_codes_are_told_in_hexadecimal(code: u16)
    ensures
        end_code_text(code) == "FINS end code: 0x"@ + seq![
            "0123456789ABCDEF"@[code as int / 4096],
            "0123456789ABCDEF"@[code as int / 256 % 16],
            "0123456789ABCDEF"@[code as int / 16 % 16],
            "0123456789ABCDEF"@[code as int % 16],
        ],
{
    crate::text_laws::hexadecimal_texts(0, code);
    crate::text_laws::hexadecimal_digits(code as int / 4096);
    crate::text_laws::hexadecimal_digits(code as int / 256 % 16);
    crate::text_laws::hexadecimal_digits(code as int / 16 % 16);
    crate::text_laws::hexadecimal_digits(code as int % 16);
}

// ---------------------------------------------------------------------------
// What is asked of the PLC
// ---------------------------------------------------------------------------

/// Whenever a request of the plan is under way, its own frame was just sent, with the service id
/// that the answer is held against.
pub proof fn read_asks_for_its_request(
    d: FinsDriverView,
    reg: RegistryView,
    event: EventView,
    now: Timestamp,
)
    requires
        d.sound(),
        d.awaits(event),
    ensures
        d.on_event(reg, event, now).phase matches PhaseView::Reading { next, sid } ==> {
            &&& 0 <= next < d.plan().len()
            &&& d.on_event(reg, event, now).step.action matches ActionView::Exchange(f) && {
                let c = d.plan()[next];
                &&& is_command_frame(f, sid, 0x01, 0x01)
                &&& f.len() == 27
                &&& f[20] == c.class
                &&& (f[21] * 0x100 + f[22]) * 0x100 + f[23] == c.start % 0x100_0000
                &&& f[24] == 0
                &&& f[25] * 0x100 + f[26] == c.len
            }
        },
{
    let o = d.on_event(reg, event, now);
    match o.phase {
        PhaseView::Reading { next, sid } => {
            let c = d.plan()[next];
            read_plan_is_sound(d.mappings, d.max_words, next);
            read_frame_holds_its_request(c, sid);
        },
        _ => {},
    }
}

/// Every address of every mapping is asked of the PLC under its own number and area: some request
/// of the plan covers it on behalf of the mapping.
pub proof fn every_address_is_asked_for(ms: Seq<TagMappingView>, max: u32, i: int, w: int) -> (p:
    int)
    requires
        plannable(ms, max),
        0 <= i < ms.len(),
        ms[i].address <= w < ms[i].address + ms[i].word_count,
        w <= 0xFFFF_FFFF,
    ensures
        0 <= p < read_plan(ms, max).len(),
        read_plan(ms, max)[p].start <= w < read_plan(ms, max)[p].start + read_plan(ms, max)[p].len,
        read_plan(ms, max)[p].class == ms[i].area,
        read_plan(ms, max)[p].members.contains(i),
{
    cycle_reads_every_mapped_address(ms, max, i, w);
    let plan = read_plan(ms, max);
    let p = choose|p: int|
        {
            &&& 0 <= p < plan.len()
            &&& (#[trigger] plan[p]).start <= w < plan[p].start + plan[p].len
            &&& plan[p].members.contains(i)
        };
    read_plan_is_sound(ms, max, p);
    let b = choose|b: int| 0 <= b < plan[p].members.len() && plan[p].members[b] == i;
    assert(ms[plan[p].members[b]].area == plan[p].class);
    p
}

// ---------------------------------------------------------------------------
// The order of a cycle
// ---------------------------------------------------------------------------

/// Request `next` of the plan is made with the service id of the driver, after a connection where
/// there is none; where the plan has no such request the cycle ends well.
pub open spec fn request_follows(d: FinsDriverView, next: int, o: Outcome) -> bool {
    &&& o.connected == d.connected
    &&& !o.step.disconnect
    &&& next < d.plan().len() ==> {
        &&& o.phase == if d.connected {
            PhaseView::Reading { next, sid: d.sid }
        } else {
            PhaseView::ReadConnecting { next, sid: d.sid }
        }
        &&& !d.connected ==> o.step.action is Connect
        &&& o.sid == (d.sid + 1) % 256
    }
    &&& next >= d.plan().len() ==> {
        &&& o.phase is Idle
        &&& o.step.action == ActionView::Finish(Ok(()))
        &&& o.sid == d.sid
    }
}

/// After a write the queue is polled again, or the reads begin where no more writes are taken.
pub open spec fn goes_on(d: FinsDriverView, left: int, o: Outcome) -> bool {
    &&& o.connected == d.connected
    &&& left > 1 ==> {
        &&& o.phase == PhaseView::Draining { left: left - 1 }
        &&& o.step.action is PollQueue
        &&& o.sid == d.sid
    }
    &&& left == 1 ==> request_follows(d, 0, Outcome {
        step: StepView { disconnect: false, ..o.step },
        ..o
    })
}

/// The queue is polled, from which a cycle takes 64 writes at most.
pub open spec fn queue_is_polled(d: FinsDriverView, o: Outcome) -> bool {
    &&& o.phase == PhaseView::Draining { left: 64 }
    &&& o.step.action is PollQueue
    &&& o.step.reply is None
    &&& o.step.health is None
    &&& !o.step.disconnect
    &&& o.connected
    &&& o.sid == d.sid
}

/// A cycle starts with the write queue, after a connection was made where there is none; where
/// that fails, the cycle ends with the reason. No tag changes.
pub proof fn cycle_starts_with_the_queue(
    d: FinsDriverView,
    reg: RegistryView,
    e: DriverErrorView,
    now: Timestamp,
)
    ensures
        d.phase is Idle && d.connected ==> {
            let o = d.on_event(reg, EventView::Start, now);
            &&& queue_is_polled(d, o)
            &&& o.registry == reg
        },
        d.phase is Idle && !d.connected ==> {
            let o = d.on_event(reg, EventView::Start, now);
            &&& o.phase is Connecting
            &&& o.step.action is Connect
            &&& o.registry == reg
            &&& !o.connected
            &&& o.sid == d.sid
        },
        d.phase is Connecting ==> {
            let o = d.on_event(reg, EventView::Connected, now);
            &&& queue_is_polled(d, o)
            &&& o.registry == reg
        },
        d.phase is Connecting ==> {
            let o = d.on_event(reg, EventView::ConnectFailed(e), now);
            &&& o.phase is Idle
            &&& o.step.action == ActionView::Finish(Err(e))
            &&& o.step.reply is None
            &&& o.step.health is None
            &&& !o.connected
            &&& o.registry == reg
        },
{
}

/// Once the queue is empty the reads begin with the first request of the plan, and no tag has
/// changed.
pub proof fn reads_follow_the_queue(d: FinsDriverView, reg: RegistryView, now: Timestamp)
    requires
        d.sound(),
        d.phase is Draining,
    ensures
        ({
            let o = d.on_event(reg, EventView::Queue(None), now);
            &&& request_follows(d, 0, o)
            &&& o.step.reply is None
            &&& o.step.health is None
            &&& o.registry == reg
        }),
{
}

/// A connection that was made for a request lets it be made.
pub proof fn connection_lets_the_request_be_made(
    d: FinsDriverView,
    reg: RegistryView,
    now: Timestamp,
)
    requires
        d.sound(),
        d.phase is ReadConnecting,
    ensures
        ({
            let o = d.on_event(reg, EventView::Connected, now);
            &&& o.phase == PhaseView::Reading {
                next: d.phase->ReadConnecting_next,
                sid: d.phase->ReadConnecting_sid,
            }
            &&& o.connected
            &&& o.sid == d.sid
            &&& o.registry == reg
            &&& o.step.reply is None
        }),
{
}

// ---------------------------------------------------------------------------
// Writes
// ---------------------------------------------------------------------------

/// The first mapping with the id is the one that is found, and none is found where no mapping has
/// the id.
pub proof fn first_mapping_is_found(ms: Seq<TagMappingView>, id: Seq<char>, i: int)
    ensures
        0 <= i < ms.len() && ms[i].tag_id == id && (forall|j: int|
            0 <= j < i ==> (#[trigger] ms[j]).tag_id != id) ==> mapping_for(ms, id) == Some(i),
        (forall|j: int| 0 <= j < ms.len() ==> (#[trigger] ms[j]).tag_id != id) ==> mapping_for(
            ms,
            id,
        ) is None,
{
    if 0 <= i < ms.len() && ms[i].tag_id == id && (forall|j: int|
        0 <= j < i ==> (#[trigger] ms[j]).tag_id != id) {
        assert(is_mapping_of(ms, id, i));
        let k = mapping_for(ms, id)->0;
        assert(is_mapping_of(ms, id, k));
        if k < i {
            assert(ms[k].tag_id != id);
        } else if i < k {
            assert(ms[i].tag_id != id);
        }
    }
}

/// The first mapping of a request's tag.
pub open spec fn is_first_mapping(ms: Seq<TagMappingView>, id: Seq<char>, i: int) -> bool {
    &&& 0 <= i < ms.len()
    &&& ms[i].tag_id == id
    &&& forall|j: int| 0 <= j < i ==> (#[trigger] ms[j]).tag_id != id
}

proof fn fitting_value_is_framed(m: TagMappingView, value: TagValueView, sid: u8)
    requires
        fits_frame(value),
    ensures
        is_write_frame(
            write_frame(m, value, sid),
            m,
            write_words(value, m.byte_order),
            sid,
        ),
{
    as_many_words_are_written(value, m.byte_order);
    write_frame_holds_its_request(m, value, sid);
}

proof fn write_is_sent_or_waits(
    d: FinsDriverView,
    reg: RegistryView,
    r: WriteRequestView,
    i: int,
    now: Timestamp,
)
    requires
        d.phase is Draining,
        is_first_mapping(d.mappings, r.tag_id, i),
        d.mappings[i].writable,
    ensures
        ({
            let f = write_frame(d.mappings[i], r.value, d.sid);
            let left = d.phase->Draining_left;
            let write = PendingWriteView {
                mapping: i,
                sid: d.sid,
                value: r.value,
                reply: r.reply,
            };
            let o = d.on_event(reg, EventView::Queue(Some(r)), now);
            &&& d.connected ==> {
                &&& o.phase == PhaseView::Writing { left, write }
                &&& o.step.action == ActionView::Exchange(f)
            }
            &&& !d.connected ==> {
                &&& o.step.action is Connect
                &&& o.phase == PhaseView::WriteConnecting { left, write, frame: f }
            }
            &&& o.sid == (d.sid + 1) % 256
            &&& o.step.reply is None
            &&& o.connected == d.connected
            &&& o.registry == reg
        }),
{
    first_mapping_is_found(d.mappings, r.tag_id, i);
}

/// A value for a writable mapping is sent at once where there is a connection, and waits for one
/// where there is none: a frame that writes the words of the value, in the byte order of the
/// mapping, to its area, address and bit. Nothing is answered yet and no tag changes.
pub proof fn writable_mapping_is_written(
    d: FinsDriverView,
    reg: RegistryView,
    r: WriteRequestView,
    i: int,
    now: Timestamp,
)
    requires
        d.sound(),
        d.phase is Draining,
        fits_frame(r.value),
        is_first_mapping(d.mappings, r.tag_id, i),
        d.mappings[i].writable,
    ensures
        ({
            let m = d.mappings[i];
            let w = write_words(r.value, m.byte_order);
            let left = d.phase->Draining_left;
            let write = PendingWriteView {
                mapping: i,
                sid: d.sid,
                value: r.value,
                reply: r.reply,
            };
            let o = d.on_event(reg, EventView::Queue(Some(r)), now);
            &&& d.connected ==> {
                &&& o.phase == PhaseView::Writing { left, write }
                &&& o.step.action matches ActionView::Exchange(f) && is_write_frame(f, m, w, d.sid)
            }
            &&& !d.connected ==> {
                &&& o.step.action is Connect
                &&& o.phase matches PhaseView::WriteConnecting { left: l, write: x, frame: f } && l
                    == left && x == write && is_write_frame(f, m, w, d.sid)
            }
            &&& o.sid == (d.sid + 1) % 256
            &&& o.step.reply is None
            &&& o.connected == d.connected
            &&& o.registry == reg
        }),
{
    write_is_sent_or_waits(d, reg, r, i, now);
    fitting_value_is_framed(d.mappings[i], r.value, d.sid);
}

/// The frame of a write that waited for a connection is sent as it is, once there is one.
pub proof fn waiting_frame_is_sent(d: FinsDriverView, reg: RegistryView, now: Timestamp)
    requires
        d.phase is WriteConnecting,
    ensures
        ({
            let o = d.on_event(reg, EventView::Connected, now);
            &&& o.step.action == ActionView::Exchange(d.phase->WriteConnecting_frame)
            &&& o.phase == PhaseView::Writing {
                left: d.phase->WriteConnecting_left,
                write: d.phase->WriteConnecting_write,
            }
            &&& o.step.reply is None
            &&& o.connected
            &&& o.sid == d.sid
            &&& o.registry == reg
        }),
{
}

/// The reply, where one is wanted, goes to the place that waits for it and says that the write
/// failed, and why.
pub open spec fn told(to: Option<ReplyId>, why: Seq<char>, reply: Option<ReplyView>) -> bool {
    match to {
        Some(id) => reply matches Some(x) && x.to == id && x.result == Err::<(), Seq<char>>(why),
        None => reply is None,
    }
}

/// A request for a tag without a mapping, or with one that is not writable, is refused with the
/// reason: no tag changes, nothing is sent, and the cycle goes on.
pub proof fn requests_without_a_writable_mapping_are_refused(
    d: FinsDriverView,
    reg: RegistryView,
    r: WriteRequestView,
    i: int,
    now: Timestamp,
)
    requires
        d.sound(),
        d.phase is Draining,
    ensures
        ({
            let o = d.on_event(reg, EventView::Queue(Some(r)), now);
            &&& (forall|j: int|
                0 <= j < d.mappings.len() ==> (#[trigger] d.mappings[j]).tag_id != r.tag_id) ==> {
                &&& told(r.reply, "Unknown tag id"@, o.step.reply)
                &&& o.registry == reg
                &&& goes_on(d, d.phase->Draining_left, o)
                &&& !o.step.disconnect
            }
            &&& is_first_mapping(d.mappings, r.tag_id, i) && !d.mappings[i].writable ==> {
                &&& told(r.reply, "Not writable"@, o.step.reply)
                &&& o.registry == reg
                &&& goes_on(d, d.phase->Draining_left, o)
                &&& !o.step.disconnect
            }
        }),
{
    first_mapping_is_found(d.mappings, r.tag_id, i);
}

/// Where no connection can be made for a write, its tag is out of reach, the request and the
/// health of the PLC are told why, and the cycle goes on.
pub proof fn waiting_write_fails_with_the_connection(
    d: FinsDriverView,
    reg: RegistryView,
    e: DriverErrorView,
    now: Timestamp,
)
    requires
        d.sound(),
        d.phase is WriteConnecting,
    ensures
        ({
            let write = d.phase->WriteConnecting_write;
            let o = d.on_event(reg, EventView::ConnectFailed(e), now);
            &&& told(write.reply, "Reconnect failed: "@ + error_text(e), o.step.reply)
            &&& o.registry == reg.set_quality(
                d.mappings[write.mapping].tag_id,
                TagQualityView::CommLost,
                now,
            )
            &&& o.step.health == Some(
                HealthEventView {
                    plc: d.name,
                    status: "connect_failed"@,
                    message: error_text(e),
                    data: None,
                },
            )
            &&& !o.step.disconnect
            &&& goes_on(d, d.phase->WriteConnecting_left, o)
        }),
{
}

/// A write whose answer has its service id and the end code zero was taken: it is answered with
/// success, and its tag holds the value in good quality as of now.
pub proof fn taken_write_is_answered(
    d: FinsDriverView,
    reg: RegistryView,
    a: Seq<u8>,
    now: Timestamp,
)
    requires
        d.sound(),
        d.phase is Writing,
        a.len() >= 14,
        a[9] == d.phase->Writing_write.sid,
        a[12] == 0,
        a[13] == 0,
    ensures
        ({
            let write = d.phase->Writing_write;
            let o = d.on_event(reg, EventView::Answer(Ok(a)), now);
            &&& o.step.reply is Some <==> write.reply is Some
            &&& o.step.reply matches Some(x) ==> Some(x.to) == write.reply && x.result is Ok
            &&& o.registry == reg.update(
                d.mappings[write.mapping].tag_id,
                write.value,
                TagQualityView::Good,
                now,
                now,
            )
            &&& o.step.health is None
            &&& !o.step.disconnect
            &&& goes_on(d, d.phase->Writing_left, o)
        }),
{
}

/// A write that was not taken is answered with the reason, its tag says what went wrong, and the
/// cycle goes on: without a connection where the transport failed, and with it where the answer
/// was too short, had another service id or an end code.
pub proof fn failed_write_is_answered(
    d: FinsDriverView,
    reg: RegistryView,
    a: Result<Seq<u8>, Seq<char>>,
    now: Timestamp,
)
    requires
        d.sound(),
        d.phase is Writing,
        a matches Ok(b) ==> b.len() < 14 || b[9] != d.phase->Writing_write.sid || b[12] != 0
            || b[13] != 0,
    ensures
        ({
            let write = d.phase->Writing_write;
            let id = d.mappings[write.mapping].tag_id;
            let o = d.on_event(reg, EventView::Answer(a), now);
            &&& o.step.health is None
            &&& match a {
                Err(s) => {
                    &&& told(write.reply, "IO error: "@ + s, o.step.reply)
                    &&& o.registry == reg.set_quality(id, TagQualityView::CommLost, now)
                    &&& o.step.disconnect
                    &&& !o.connected
                    &&& goes_on(
                        FinsDriverView { connected: false, ..d },
                        d.phase->Writing_left,
                        o,
                    )
                },
                Ok(b) => {
                    &&& !o.step.disconnect
                    &&& goes_on(d, d.phase->Writing_left, o)
                    &&& if b.len() < 14 {
                        let why = error_text(DriverErrorView::Protocol("Frame too short"@));
                        &&& told(write.reply, "Parse error: "@ + why, o.step.reply)
                        &&& o.registry == reg.set_quality(
                            id,
                            TagQualityView::Error("parse_write_resp: "@ + why),
                            now,
                        )
                    } else if b[9] != write.sid {
                        &&& told(write.reply, "SID mismatch"@, o.step.reply)
                        &&& o.registry == reg.set_quality(id, TagQualityView::CommLost, now)
                    } else {
                        let why = end_code_text((b[12] * 0x100 + b[13]) as u16);
                        &&& told(write.reply, why, o.step.reply)
                        &&& o.registry == reg.set_quality(id, TagQualityView::Error(why), now)
                    }
                },
            }
        }),
{
}

// ---------------------------------------------------------------------------
// Answers to reads
// ---------------------------------------------------------------------------

/// The tag of a member that no other member of the request has.
pub open spec fn is_only_member(
    ms: Seq<TagMappingView>,
    members: Seq<int>,
    k: int,
) -> bool {
    &&& 0 <= k < members.len()
    &&& forall|j: int|
        0 <= j < members.len() && j != k ==> ms[#[trigger] members[j]].tag_id
            != ms[members[k]].tag_id
}

proof fn part_leaves_other_tags(
    reg: RegistryView,
    m: TagMappingView,
    c: ChunkView,
    data: Seq<u8>,
    now: Timestamp,
    id: Seq<char>,
)
    requires
        m.tag_id != id,
    ensures
        ({
            let r = take_part(reg, m, c, data, now);
            &&& r.definitions == reg.definitions
            &&& r.has_tag(id) == reg.has_tag(id)
            &&& reg.has_tag(id) ==> r.store.tags[id] == reg.store.tags[id]
        }),
{
}

proof fn parts_leave_other_tags(
    reg: RegistryView,
    ms: Seq<TagMappingView>,
    c: ChunkView,
    data: Seq<u8>,
    now: Timestamp,
    n: nat,
    id: Seq<char>,
)
    requires
        n <= c.members.len(),
        forall|j: int| 0 <= j < n ==> ms[#[trigger] c.members[j]].tag_id != id,
    ensures
        ({
            let r = take_parts(reg, ms, c, data, now, n);
            &&& r.definitions == reg.definitions
            &&& r.has_tag(id) == reg.has_tag(id)
            &&& reg.has_tag(id) ==> r.store.tags[id] == reg.store.tags[id]
        }),
    decreases n,
{
    if n > 0 {
        parts_leave_other_tags(reg, ms, c, data, now, (n - 1) as nat, id);
        part_leaves_other_tags(
            take_parts(reg, ms, c, data, now, (n - 1) as nat),
            ms[c.members[n - 1]],
            c,
            data,
            now,
            id,
        );
    }
}

proof fn part_depends_on_its_tag(
    a: RegistryView,
    b: RegistryView,
    m: TagMappingView,
    c: ChunkView,
    data: Seq<u8>,
    now: Timestamp,
)
    requires
        a.definitions == b.definitions,
        a.has_tag(m.tag_id),
        b.has_tag(m.tag_id),
        a.store.tags[m.tag_id] == b.store.tags[m.tag_id],
    ensures
        take_part(a, m, c, data, now).store.tags[m.tag_id] == take_part(
            b,
            m,
            c,
            data,
            now,
        ).store.tags[m.tag_id],
        take_part(a, m, c, data, now).has_tag(m.tag_id),
        take_part(a, m, c, data, now).definitions == a.definitions,
{
}

proof fn each_member_takes_its_part(
    reg: RegistryView,
    ms: Seq<TagMappingView>,
    c: ChunkView,
    data: Seq<u8>,
    now: Timestamp,
    n: nat,
    k: int,
)
    requires
        n <= c.members.len(),
        is_only_member(ms, c.members, k),
        k < n,
        reg.has_tag(ms[c.members[k]].tag_id),
    ensures
        ({
            let id = ms[c.members[k]].tag_id;
            let r = take_parts(reg, ms, c, data, now, n);
            &&& r.has_tag(id)
            &&& r.store.tags[id] == take_part(reg, ms[c.members[k]], c, data, now).store.tags[id]
        }),
    decreases n,
{
    let m = ms[c.members[k]];
    let before = take_parts(reg, ms, c, data, now, (n - 1) as nat);
    if k < n - 1 {
        each_member_takes_its_part(reg, ms, c, data, now, (n - 1) as nat, k);
        assert(ms[c.members[n - 1]].tag_id != m.tag_id);
        part_leaves_other_tags(before, ms[c.members[n - 1]], c, data, now, m.tag_id);
    } else {
        parts_leave_other_tags(reg, ms, c, data, now, (n - 1) as nat, m.tag_id);
        part_depends_on_its_tag(before, reg, m, c, data, now);
    }
}

/// The bytes that a mapping has in the data of an answer to a request that covers it: two for each
/// of its addresses.
pub open spec fn own_bytes(m: TagMappingView, c: ChunkView, data: Seq<u8>) -> Seq<u8> {
    data.subrange(
        2 * (m.address - c.start),
        2 * (m.address + m.word_count - c.start),
    )
}

/// An answer with the right service id, the end code zero and two bytes for each word reaches
/// every tag of its request: the tag takes the value in its own bytes, in the byte order of its
/// mapping and decoded by its type, in good quality as of now. Bytes that hold no value make an
/// error of the tag, which keeps its value. The next request follows.
pub proof fn answer_reaches_every_tag(
    d: FinsDriverView,
    reg: RegistryView,
    a: Seq<u8>,
    k: int,
    now: Timestamp,
)
    requires
        d.sound(),
        d.phase is Reading,
        a.len() >= 14,
        a[9] == d.phase->Reading_sid,
        a[12] == 0,
        a[13] == 0,
        ({
            let c = d.plan()[d.phase->Reading_next];
            let m = d.mappings[c.members[k]];
            &&& is_only_member(d.mappings, c.members, k)
            &&& reg.has_tag(m.tag_id)
            &&& reg.definitions.contains_key(m.tag_id)
            &&& 0 < m.word_count
            &&& c.start <= m.address
            &&& m.address + m.word_count <= c.start + c.len
            &&& a.len() >= 14 + 2 * c.len
        }),
    ensures
        ({
            let c = d.plan()[d.phase->Reading_next];
            let m = d.mappings[c.members[k]];
            let o = d.on_event(reg, EventView::Answer(Ok(a)), now);
            let bytes = reordered(m.byte_order, own_bytes(m, c, a.skip(14)));
            let t = o.registry.store.tags[m.tag_id];
            &&& request_follows(d, d.phase->Reading_next + 1, o)
            &&& o.step.reply is None
            &&& o.step.health is None
            &&& o.registry.has_tag(m.tag_id)
            &&& match decoded(m.data_type, bytes, m.bit_offset) {
                Ok(v) => reg.update_fault(m.tag_id, v) is None ==> {
                    &&& t.value == v
                    &&& t.quality == TagQualityView::Good
                    &&& t.source_timestamp == now
                    &&& t.server_timestamp == now
                },
                Err(e) => {
                    &&& t.value == reg.store.tags[m.tag_id].value
                    &&& t.quality == TagQualityView::Error("decode_failed: "@ + error_text(e))
                    &&& t.source_timestamp == reg.store.tags[m.tag_id].source_timestamp
                    &&& t.server_timestamp == now
                },
            }
        }),
{
    let c = d.plan()[d.phase->Reading_next];
    read_plan_is_sound(d.mappings, d.max_words, d.phase->Reading_next);
    each_member_takes_its_part(reg, d.mappings, c, a.skip(14), now, c.members.len(), k);
}

/// An answer with fewer than two bytes for each word of the request is an error of each tag that
/// the request has addresses of, and the tag keeps its value.
pub proof fn short_answer_is_an_error(
    reg: RegistryView,
    m: TagMappingView,
    c: ChunkView,
    raw: Seq<u8>,
    now: Timestamp,
)
    requires
        0 < m.word_count,
        c.start <= m.address,
        m.address + m.word_count <= c.start + c.len,
        raw.len() < 2 * c.len,
    ensures
        take_part(reg, m, c, raw, now) == reg.set_quality(
            m.tag_id,
            TagQualityView::Error("short_payload"@),
            now,
        ),
{
}

/// A request that has none of the addresses of a mapping leaves its tag alone.
pub proof fn request_elsewhere_leaves_the_tag(
    reg: RegistryView,
    m: TagMappingView,
    c: ChunkView,
    raw: Seq<u8>,
    now: Timestamp,
)
    requires
        c.len >= 0,
        m.address + m.word_count <= c.start || c.start + c.len <= m.address,
    ensures
        take_part(reg, m, c, raw, now) == reg,
{
}

/// Of a mapping that a request covers in part, the tag takes the bytes that both have: those from
/// the higher of the first addresses to the lower of the last ones, two for each address.
pub proof fn part_in_common_is_taken(
    reg: RegistryView,
    m: TagMappingView,
    c: ChunkView,
    raw: Seq<u8>,
    from: int,
    to: int,
    now: Timestamp,
)
    requires
        from >= m.address && from >= c.start && (from == m.address || from == c.start),
        to <= m.address + m.word_count && to <= c.start + c.len,
        to == m.address + m.word_count || to == c.start + c.len,
        from < to,
        raw.len() >= 2 * c.len,
        reg.definitions.contains_key(m.tag_id),
    ensures
        ({
            let own = raw.subrange(2 * (from - c.start), 2 * (to - c.start));
            let r = take_part(reg, m, c, raw, now);
            match decoded(m.data_type, reordered(m.byte_order, own), m.bit_offset) {
                Ok(v) => r == reg.update(m.tag_id, v, TagQualityView::Good, now, now),
                Err(e) => r == reg.set_quality(
                    m.tag_id,
                    TagQualityView::Error("decode_failed: "@ + error_text(e)),
                    now,
                ),
            }
        }),
{
}

/// Every tag of a request that failed gets the quality that says so, and keeps its value; other
/// tags stay.
pub proof fn every_member_is_marked(
    reg: RegistryView,
    ms: Seq<TagMappingView>,
    members: Seq<int>,
    quality: TagQualityView,
    now: Timestamp,
    n: nat,
    id: Seq<char>,
)
    requires
        n <= members.len(),
    ensures
        ({
            let r = mark(reg, ms, members, quality, now, n);
            let marked = exists|k: int|
                0 <= k < n && ms[#[trigger] members[k]].tag_id == id;
            &&& r.definitions == reg.definitions
            &&& r.has_tag(id) == reg.has_tag(id)
            &&& reg.has_tag(id) && marked ==> {
                &&& r.store.tags[id].quality == quality
                &&& r.store.tags[id].value == reg.store.tags[id].value
                &&& r.store.tags[id].source_timestamp == reg.store.tags[id].source_timestamp
                &&& r.store.tags[id].server_timestamp == now
            }
            &&& reg.has_tag(id) && !marked ==> r.store.tags[id] == reg.store.tags[id]
        }),
    decreases n,
{
    if n > 0 {
        every_member_is_marked(reg, ms, members, quality, now, (n - 1) as nat, id);
        let last = members[n - 1];
        let marked = exists|k: int| 0 <= k < n && ms[#[trigger] members[k]].tag_id == id;
        let marked_before = exists|k: int|
            0 <= k < n - 1 && ms[#[trigger] members[k]].tag_id == id;
        if ms[last].tag_id == id {
            assert(0 <= n - 1 < n && ms[members[n - 1]].tag_id == id);
            assert(marked);
        } else if marked {
            let k = choose|k: int| 0 <= k < n && ms[#[trigger] members[k]].tag_id == id;
            assert(k < n - 1);
            assert(marked_before);
        }
    }
}

/// A request without a right answer leaves every tag of it with the quality that says why and
/// with its value. The cycle ends, without a connection where the transport failed; only after an
/// answer with another service id does the next request follow.
pub proof fn failed_read_marks_every_tag(
    d: FinsDriverView,
    reg: RegistryView,
    a: Result<Seq<u8>, Seq<char>>,
    k: int,
    now: Timestamp,
)
    requires
        d.sound(),
        d.phase is Reading,
        a matches Ok(b) ==> b.len() < 14 || b[9] != d.phase->Reading_sid || b[12] != 0 || b[13]
            != 0,
        0 <= k < d.plan()[d.phase->Reading_next].members.len(),
        reg.has_tag(d.mappings[d.plan()[d.phase->Reading_next].members[k]].tag_id),
    ensures
        ({
            let c = d.plan()[d.phase->Reading_next];
            let id = d.mappings[c.members[k]].tag_id;
            let o = d.on_event(reg, EventView::Answer(a), now);
            let t = o.registry.store.tags[id];
            let ended = o.phase is Idle && o.step.action == ActionView::Finish(Ok(())) && o.sid
                == d.sid;
            &&& o.step.reply is None
            &&& o.step.health is None
            &&& t.value == reg.store.tags[id].value
            &&& t.source_timestamp == reg.store.tags[id].source_timestamp
            &&& t.server_timestamp == now
            &&& match a {
                Err(_) => {
                    &&& t.quality == TagQualityView::CommLost
                    &&& o.step.disconnect
                    &&& !o.connected
                    &&& ended
                },
                Ok(b) => {
                    &&& !o.step.disconnect
                    &&& o.connected == d.connected
                    &&& if b.len() < 14 {
                        &&& t.quality == TagQualityView::Error(
                            "parse_fins_resp: "@ + error_text(
                                DriverErrorView::Protocol("Frame too short"@),
                            ),
                        )
                        &&& ended
                    } else if b[9] != d.phase->Reading_sid {
                        &&& t.quality == TagQualityView::CommLost
                        &&& request_follows(d, d.phase->Reading_next + 1, o)
                    } else {
                        &&& t.quality == TagQualityView::Error(
                            end_code_text((b[12] * 0x100 + b[13]) as u16),
                        )
                        &&& ended
                    }
                },
            }
        }),
{
    let c = d.plan()[d.phase->Reading_next];
    let id = d.mappings[c.members[k]].tag_id;
    assert(d.mappings[c.members[k]].tag_id == id);
    let n = c.members.len();
    let quality = match a {
        Err(_) => TagQualityView::CommLost,
        Ok(b) => if b.len() < 14 {
            TagQualityView::Error(
                "parse_fins_resp: "@ + error_text(DriverErrorView::Protocol("Frame too short"@)),
            )
        } else if b[9] != d.phase->Reading_sid {
            TagQualityView::CommLost
        } else {
            TagQualityView::Error(end_code_text((b[12] * 0x100 + b[13]) as u16))
        },
    };
    every_member_is_marked(reg, d.mappings, c.members, quality, now, n, id);
}

/// Where no connection can be made for a request, every tag of it is out of reach, the health of
/// the PLC is told why, and the cycle ends.
pub proof fn unconnected_read_marks_every_tag(
    d: FinsDriverView,
    reg: RegistryView,
    e: DriverErrorView,
    k: int,
    now: Timestamp,
)
    requires
        d.sound(),
        d.phase is ReadConnecting,
        0 <= k < d.plan()[d.phase->ReadConnecting_next].members.len(),
        reg.has_tag(d.mappings[d.plan()[d.phase->ReadConnecting_next].members[k]].tag_id),
    ensures
        ({
            let c = d.plan()[d.phase->ReadConnecting_next];
            let id = d.mappings[c.members[k]].tag_id;
            let o = d.on_event(reg, EventView::ConnectFailed(e), now);
            let t = o.registry.store.tags[id];
            &&& o.phase is Idle
            &&& o.step.action == ActionView::Finish(Ok(()))
            &&& o.step.reply is None
            &&& o.step.health == Some(
                HealthEventView {
                    plc: d.name,
                    status: "connect_failed"@,
                    message: error_text(e),
                    data: None,
                },
            )
            &&& t.quality == TagQualityView::CommLost
            &&& t.value == reg.store.tags[id].value
            &&& t.source_timestamp == reg.store.tags[id].source_timestamp
        }),
{
    let c = d.plan()[d.phase->ReadConnecting_next];
    let id = d.mappings[c.members[k]].tag_id;
    assert(d.mappings[c.members[k]].tag_id == id);
    every_member_is_marked(
        reg,
        d.mappings,
        c.members,
        TagQualityView::CommLost,
        now,
        c.members.len(),
        id,
    );
}

// ---------------------------------------------------------------------------
// Validation
// ---------------------------------------------------------------------------

/// A mapping is valid by itself exactly where it has words, its bit lies within a word, and its
/// data type and byte order have the words they need.
pub proof fn valid_mappings(m: TagMappingView)
    ensures
        mapping_fault(m) is None <==> {
            &&& m.word_count >= 1
            &&& m.bit_offset <= 15
            &&& m.data_type == TagDataType::Float || m.data_type == TagDataType::Int32
                || m.data_type == TagDataType::UInt32 ==> m.word_count >= 2
            &&& m.data_type == TagDataType::Double ==> m.word_count >= 4
            &&& m.byte_order == WordOrder::CDAB || m.byte_order == WordOrder::DCBA ==> m.word_count
                >= 2
        },
{
}

/// Errors are told by their names.
pub proof fn errors_are_told(s: Seq<char>)
    ensures
        error_text(DriverErrorView::Io(s)) == "IO error: "@ + s,
        error_text(DriverErrorView::Timeout) == "Timeout"@,
        error_text(DriverErrorView::Protocol(s)) == "Protocol error: "@ + s,
        error_text(DriverErrorView::Mapping(s)) == "Mapping error: "@ + s,
        error_text(DriverErrorView::Other(s)) == "Other: "@ + s,
{
}

/// A mapping is told by its tag and its first and last address.
pub proof fn ranges_are_told(m: TagMappingView)
    requires
        1 <= m.word_count,
        m.address + m.word_count <= 0x1_0000_0000,
    ensures
        range_text(m) == "'"@ + m.tag_id + "'["@ + decimal(m.address as nat) + ".."@ + decimal(
            (m.address + m.word_count - 1) as nat,
        ) + "]"@,
{
}

/// A driver starts idle and without a connection, with the service id 1 and with the name, the
/// mappings and the request size of its configuration.
pub proof fn drivers_start_idle(config: FinsConfig, r: FinsDriver)
    requires
        call_ensures(FinsDriver::new, (config,), r),
    ensures
        r@.name == config.name@,
        r@.mappings.len() == config.mappings@.len(),
        forall|i: int|
            0 <= i < config.mappings@.len() ==> #[trigger] r@.mappings[i] == config.mappings@[i]@,
        r@.max_words == config.max_words_per_request,
        r@.sid == 1,
        !r@.connected,
        r@.phase is Idle,
{
}

/// What is decided is what is handed out to be done: the same frame, the same reply, and the same
/// word on the connection.
pub proof fn steps_say_what_is_to_be_done(s: Step)
    ensures
        s@.disconnect == s.disconnect,
        s@.reply is Some <==> s.reply is Some,
        s.reply matches Some(x) ==> (s@.reply matches Some(y) && y.to == x.to && (y.result is Ok
            <==> x.result is Ok) && (x.result matches Err(m) ==> y.result == Err::<(), Seq<char>>(
            m@,
        ))),
        s@.health is Some <==> s.health is Some,
        s.health matches Some(e) ==> s@.health == Some(
            HealthEventView { plc: e.plc@, status: e.status@, message: e.message@, data: e.data },
        ),
        match s.action {
            Action::PollQueue => s@.action == ActionView::PollQueue,
            Action::Connect => s@.action == ActionView::Connect,
            Action::Exchange(f) => s@.action == ActionView::Exchange(f@),
            Action::Finish(r) => s@.action matches ActionView::Finish(x) && (r is Ok <==> x is Ok)
                && (r matches Err(e) ==> x->Err_0 == e@),
        },
{
}

/// The first thing that is wrong with a mapping is told: no words, a bit beyond the word, too
/// few words for the data type, or too few for the byte order.
pub proof fn faults_are_told(m: TagMappingView)
    ensures
        ({
            let about = "Mapping '"@ + m.tag_id;
            let pair = m.data_type == TagDataType::Float || m.data_type == TagDataType::Int32
                || m.data_type == TagDataType::UInt32;
            let sized = m.word_count >= 1 && m.bit_offset < 16;
            &&& m.word_count == 0 ==> mapping_fault(m) == Some(about + "' has zero word_count"@)
            &&& m.word_count >= 1 && m.bit_offset >= 16 ==> mapping_fault(m) == Some(
                about + "' has invalid bit_offset "@ + decimal(m.bit_offset as nat)
                    + " (must be 0..15)"@,
            )
            &&& sized && pair && m.word_count < 2 ==> mapping_fault(m) == Some(
                about + "' data_type requires word_count >= 2"@,
            )
            &&& sized && m.data_type == TagDataType::Double && m.word_count < 4 ==> mapping_fault(m)
                == Some(about + "' data_type 'Double' requires word_count >= 4"@)
            &&& sized && !pair && m.data_type != TagDataType::Double && m.word_count < 2
                && m.byte_order == WordOrder::CDAB ==> mapping_fault(m) == Some(
                about + "' uses byte_order "@ + "CDAB"@ + " which requires word_count >= 2"@,
            )
            &&& sized && !pair && m.data_type != TagDataType::Double && m.word_count < 2
                && m.byte_order == WordOrder::DCBA ==> mapping_fault(m) == Some(
                about + "' uses byte_order "@ + "DCBA"@ + " which requires word_count >= 2"@,
            )
        }),
{
}

/// The answer to a request, good or bad, leaves every tag alone that the request is not made for.
pub proof fn answers_leave_other_tags(
    d: FinsDriverView,
    reg: RegistryView,
    a: Result<Seq<u8>, Seq<char>>,
    id: Seq<char>,
    now: Timestamp,
)
    requires
        d.sound(),
        d.phase is Reading,
        ({
            let members = d.plan()[d.phase->Reading_next].members;
            forall|j: int|
                0 <= j < members.len() ==> d.mappings[#[trigger] members[j]].tag_id != id
        }),
    ensures
        same_tag(reg, d.on_event(reg, EventView::Answer(a), now).registry, id),
{
    let c = d.plan()[d.phase->Reading_next];
    let n = c.members.len();
    let quality = match a {
        Ok(b) => if b.len() < 14 {
            TagQualityView::Error(
                "parse_fins_resp: "@ + error_text(DriverErrorView::Protocol("Frame too short"@)),
            )
        } else if b[9] != d.phase->Reading_sid {
            TagQualityView::CommLost
        } else {
            TagQualityView::Error(end_code_text((b[12] * 0x100 + b[13]) as u16))
        },
        Err(_) => TagQualityView::CommLost,
    };
    every_member_is_marked(reg, d.mappings, c.members, quality, now, n, id);
    if let Ok(b) = a {
        if b.len() >= 14 {
            parts_leave_other_tags(reg, d.mappings, c, b.skip(14), now, n, id);
        }
    }
}

/// A write, whatever becomes of it, leaves every tag alone but the one that it is for.
pub proof fn writes_leave_other_tags(
    d: FinsDriverView,
    reg: RegistryView,
    event: EventView,
    id: Seq<char>,
    now: Timestamp,
)
    requires
        d.sound(),
        d.awaits(event),
        match d.phase {
            PhaseView::Reading { .. } => false,
            PhaseView::ReadConnecting { .. } => event is Connected,
            PhaseView::Draining { .. } => event matches EventView::Queue(Some(r)) ==> r.tag_id
                != id,
            PhaseView::WriteConnecting { write, .. } => d.mappings[write.mapping].tag_id != id,
            PhaseView::Writing { write, .. } => d.mappings[write.mapping].tag_id != id,
            _ => true,
        },
    ensures
        same_tag(reg, d.on_event(reg, event, now).registry, id),
{
}

} // verus!
