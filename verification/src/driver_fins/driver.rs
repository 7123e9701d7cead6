//! The FINS driver: one read/write cycle, event by event.
//!
//! The driver decides; whoever runs it performs the action of each step (connect, poll the write
//! queue, send a frame and wait for the answer) and hands back the event that came of it, until a
//! step ends the cycle.

use crate::core_model::registry::{RegistryView, TagRegistry};
use crate::core_model::tag_value::{
    TagDataType, TagQuality, TagQualityView, TagValue, TagValueView,
};
use crate::driver_common;
use crate::driver_common::health::{health_event, health_view, HealthEvent, HealthEventView};
use crate::driver_common::plan::{chunk_views, Chunk, ChunkView};
use crate::driver_common::words::value_words;
use crate::driver_common::write_request::{
    answer, reply_err, reply_ok, reply_view, Reply, ReplyId, ReplyView, WriteRequest,
    WriteRequestView,
};
use crate::driver_common::write_words;
use crate::driver_fins::codec::tagvalue_to_words_standard;
use crate::driver_fins::config::FinsConfig;
use crate::driver_fins::errors::{error_text, DriverError, DriverErrorView};
use crate::driver_fins::frame::{
    build_fins_frame, build_memory_read, build_memory_write, framed, memory_read, memory_write,
    parse_fins_response, response_in, wrap_fins_tcp, wrapped, READ_COMMAND, WRITE_COMMAND,
};
use crate::driver_fins::mapping::{mapping_views, TagMapping, TagMappingView};
use crate::driver_fins::read::{
    bits_in_range, mark, mark_members, plan_reads, plannable, read_plan, read_plan_is_sound,
    take_answer, take_parts,
};
use crate::driver_fins::validate::{
    mappings_fault, valid_mappings_are_each_valid, validate_mappings,
};
use crate::text;
use crate::text::hex_upper_word;
use crate::time::{is_clock_reading, Timestamp};
use vstd::prelude::*;
use vstd::string::*;

verus! {

/// Writes that one cycle takes from the queue at most.
pub const WRITES_PER_CYCLE: u32 = 64;

/// Words that a frame can be built for at most.
pub const MAX_WRITE_WORDS: usize = 0x1FFF_FFFF;

/// Service id of the first request.
pub const FIRST_SID: u8 = 1;

/// Whether a frame can be built that writes a value.
pub open spec fn fits_frame(value: TagValueView) -> bool {
    value_words(value).len() <= MAX_WRITE_WORDS
}

/// Whether a frame can be built that writes a value.
pub fn can_frame(value: &TagValue) -> (r: bool)
    ensures
        r == fits_frame(value@),
{
    match tagvalue_to_words_standard(value) {
        Ok(w) => w.len() <= MAX_WRITE_WORDS,
        Err(_) => false,
    }
}

/// The service id after another one; 0 follows 255.
pub open spec fn following_sid(sid: u8) -> u8 {
    if sid == 255 {
        0
    } else {
        (sid + 1) as u8
    }
}

/// The service id after another one.
pub fn next_sid(sid: u8) -> (r: u8)
    ensures
        r == following_sid(sid),
{
    if sid == 255 {
        0
    } else {
        sid + 1
    }
}

// ---------------------------------------------------------------------------
// Events and actions
// ---------------------------------------------------------------------------

/// What happened.
#[derive(Debug)]
pub enum Event {
    /// A cycle is to start.
    Start,
    /// The write queue was polled.
    Queue(Option<WriteRequest>),
    /// The connection was made.
    Connected,
    /// The connection could not be made.
    ConnectFailed(DriverError),
    /// A frame was answered, or the transport failed, described by this text.
    Answer(Result<Vec<u8>, String>),
}

/// What is to be done next.
#[derive(Debug)]
pub enum Action {
    /// Poll the write queue.
    PollQueue,
    /// Connect to the PLC.
    Connect,
    /// Send a frame and wait for the answer.
    Exchange(Vec<u8>),
    /// The cycle is over.
    Finish(Result<(), DriverError>),
}

/// What came of an event.
#[derive(Debug)]
pub struct Step {
    /// Reply to a write request.
    pub reply: Option<Reply>,
    /// Health event to emit.
    pub health: Option<HealthEvent>,
    /// Whether the connection is to be dropped.
    pub disconnect: bool,
    /// What is to be done next.
    pub action: Action,
}

/// What an [`Event`] says.
#[verifier::ext_equal]
pub ghost enum EventView {
    Start,
    Queue(Option<WriteRequestView>),
    Connected,
    ConnectFailed(DriverErrorView),
    Answer(Result<Seq<u8>, Seq<char>>),
}

impl View for Event {
    type V = EventView;

    open spec fn view(&self) -> EventView {
        match *self {
            Event::Start => EventView::Start,
            Event::Queue(None) => EventView::Queue(None),
            Event::Queue(Some(r)) => EventView::Queue(Some(r@)),
            Event::Connected => EventView::Connected,
            Event::ConnectFailed(e) => EventView::ConnectFailed(e@),
            Event::Answer(Ok(b)) => EventView::Answer(Ok(b@)),
            Event::Answer(Err(s)) => EventView::Answer(Err(s@)),
        }
    }
}

/// What an [`Action`] says.
#[verifier::ext_equal]
pub ghost enum ActionView {
    PollQueue,
    Connect,
    Exchange(Seq<u8>),
    Finish(Result<(), DriverErrorView>),
}

impl View for Action {
    type V = ActionView;

    open spec fn view(&self) -> ActionView {
        match *self {
            Action::PollQueue => ActionView::PollQueue,
            Action::Connect => ActionView::Connect,
            Action::Exchange(f) => ActionView::Exchange(f@),
            Action::Finish(Ok(_)) => ActionView::Finish(Ok(())),
            Action::Finish(Err(e)) => ActionView::Finish(Err(e@)),
        }
    }
}

/// What a [`Step`] says.
#[verifier::ext_equal]
pub ghost struct StepView {
    pub reply: Option<ReplyView>,
    pub health: Option<HealthEventView>,
    pub disconnect: bool,
    pub action: ActionView,
}

impl View for Step {
    type V = StepView;

    open spec fn view(&self) -> StepView {
        StepView {
            reply: reply_view(self.reply),
            health: health_view(self.health),
            disconnect: self.disconnect,
            action: self.action@,
        }
    }
}

// ---------------------------------------------------------------------------
// State
// ---------------------------------------------------------------------------

/// A write that waits for the PLC.
struct PendingWrite {
    mapping: usize,
    sid: u8,
    value: TagValue,
    reply: Option<ReplyId>,
}

/// What a pending write asks for.
#[verifier::ext_equal]
pub ghost struct PendingWriteView {
    /// Index of the mapping.
    pub mapping: int,
    /// Service id of the request.
    pub sid: u8,
    /// The value.
    pub value: TagValueView,
    /// Where the reply goes.
    pub reply: Option<ReplyId>,
}

impl PendingWrite {
    spec fn view(self) -> PendingWriteView {
        PendingWriteView {
            mapping: self.mapping as int,
            sid: self.sid,
            value: self.value@,
            reply: self.reply,
        }
    }
}

enum Phase {
    Idle,
    Connecting,
    Draining { left: u32 },
    WriteConnecting { left: u32, write: PendingWrite, frame: Vec<u8> },
    Writing { left: u32, write: PendingWrite },
    ReadConnecting { next: usize, sid: u8 },
    Reading { next: usize, sid: u8 },
}

/// Where a cycle stands.
#[verifier::ext_equal]
pub ghost enum PhaseView {
    /// No cycle runs.
    Idle,
    /// A connection is made for the cycle.
    Connecting,
    /// The write queue is polled, `left` times more.
    Draining { left: int },
    /// A connection is made for a write.
    WriteConnecting { left: int, write: PendingWriteView, frame: Seq<u8> },
    /// A write is under way.
    Writing { left: int, write: PendingWriteView },
    /// A connection is made for request `next` of the plan.
    ReadConnecting { next: int, sid: u8 },
    /// Request `next` of the plan is under way.
    Reading { next: int, sid: u8 },
}

impl Phase {
    spec fn view(self) -> PhaseView {
        match self {
            Phase::Idle => PhaseView::Idle,
            Phase::Connecting => PhaseView::Connecting,
            Phase::Draining { left } => PhaseView::Draining { left: left as int },
            Phase::WriteConnecting { left, write, frame } => PhaseView::WriteConnecting {
                left: left as int,
                write: write.view(),
                frame: frame@,
            },
            Phase::Writing { left, write } => PhaseView::Writing {
                left: left as int,
                write: write.view(),
            },
            Phase::ReadConnecting { next, sid } => PhaseView::ReadConnecting {
                next: next as int,
                sid,
            },
            Phase::Reading { next, sid } => PhaseView::Reading { next: next as int, sid },
        }
    }
}

/// What the driver knows and where it stands.
#[verifier::ext_equal]
pub ghost struct FinsDriverView {
    /// Name of the PLC.
    pub name: Seq<char>,
    /// Mappings of its tags.
    pub mappings: Seq<TagMappingView>,
    /// Words that a read request may ask for at most.
    pub max_words: u32,
    /// Service id of the next request.
    pub sid: u8,
    /// Whether there is a connection.
    pub connected: bool,
    /// Where the cycle stands.
    pub phase: PhaseView,
}

/// What is done next: where the cycle then stands, the service id of the next request, and the
/// action.
#[verifier::ext_equal]
pub ghost struct Next {
    pub phase: PhaseView,
    pub sid: u8,
    pub action: ActionView,
}

/// What came of an event: where the driver stands, the registry, and the step to take.
#[verifier::ext_equal]
pub ghost struct Outcome {
    pub phase: PhaseView,
    pub sid: u8,
    pub connected: bool,
    pub registry: RegistryView,
    pub step: StepView,
}

/// A step that only acts.
pub open spec fn acting(action: ActionView) -> StepView {
    StepView { reply: None, health: None, disconnect: false, action }
}

// ---------------------------------------------------------------------------
// Transitions
// ---------------------------------------------------------------------------

/// The first mapping of the tag `id`.
pub open spec fn is_mapping_of(ms: Seq<TagMappingView>, id: Seq<char>, i: int) -> bool {
    &&& 0 <= i < ms.len()
    &&& ms[i].tag_id == id
    &&& forall|j: int| 0 <= j < i ==> (#[trigger] ms[j]).tag_id != id
}

/// The first mapping of the tag `id`, if there is one.
pub open spec fn mapping_for(ms: Seq<TagMappingView>, id: Seq<char>) -> Option<int> {
    if exists|i: int| is_mapping_of(ms, id, i) {
        Some(choose|i: int| is_mapping_of(ms, id, i))
    } else {
        None
    }
}

/// The frame that reads what a request of the plan asks for.
pub open spec fn read_frame(c: ChunkView, sid: u8) -> Seq<u8> {
    wrapped(
        framed(
            sid,
            READ_COMMAND@,
            memory_read(c.class, c.start as u32, 0, c.len as u16),
        ),
    )
}

/// The frame that writes a value to the address of a mapping.
pub open spec fn write_frame(m: TagMappingView, value: TagValueView, sid: u8) -> Seq<u8> {
    wrapped(
        framed(
            sid,
            WRITE_COMMAND@,
            memory_write(m.area, m.address, m.bit_offset, write_words(value, m.byte_order)),
        ),
    )
}

/// The message of an end code.
pub open spec fn end_code_text(code: u16) -> Seq<char> {
    "FINS end code: 0x"@ + hex_upper_word(code)
}

impl FinsDriverView {
    /// The read requests of a cycle.
    pub open spec fn plan(self) -> Seq<ChunkView> {
        read_plan(self.mappings, self.max_words)
    }

    /// Whether an event is what the driver waits for.
    pub open spec fn awaits(self, event: EventView) -> bool {
        match self.phase {
            PhaseView::Idle => event is Start,
            PhaseView::Connecting => event is Connected || event is ConnectFailed,
            PhaseView::Draining { .. } => match event {
                EventView::Queue(Some(r)) => fits_frame(r.value),
                EventView::Queue(None) => true,
                _ => false,
            },
            PhaseView::WriteConnecting { .. } => event is Connected || event is ConnectFailed,
            PhaseView::Writing { .. } => event is Answer,
            PhaseView::ReadConnecting { .. } => event is Connected || event is ConnectFailed,
            PhaseView::Reading { .. } => event is Answer,
        }
    }

    /// Request `next` of the plan is made, after a connection was made where there is none; or the
    /// cycle ends well where there is no such request.
    pub open spec fn reading(self, next: int) -> Next {
        if next >= self.plan().len() {
            Next { phase: PhaseView::Idle, sid: self.sid, action: ActionView::Finish(Ok(())) }
        } else if self.connected {
            Next {
                phase: PhaseView::Reading { next, sid: self.sid },
                sid: following_sid(self.sid),
                action: ActionView::Exchange(read_frame(self.plan()[next], self.sid)),
            }
        } else {
            Next {
                phase: PhaseView::ReadConnecting { next, sid: self.sid },
                sid: following_sid(self.sid),
                action: ActionView::Connect,
            }
        }
    }

    /// The write queue is polled again, or reads begin where the cycle took enough writes.
    pub open spec fn poll(self, left: int) -> Next {
        if left > 0 {
            Next {
                phase: PhaseView::Draining { left },
                sid: self.sid,
                action: ActionView::PollQueue,
            }
        } else {
            self.reading(0)
        }
    }

    /// A write is answered, and the cycle goes on.
    pub open spec fn answered(
        self,
        left: int,
        registry: RegistryView,
        reply: Option<ReplyView>,
    ) -> Outcome {
        let next = self.poll(left - 1);
        Outcome {
            phase: next.phase,
            sid: next.sid,
            connected: self.connected,
            registry,
            step: StepView { reply, ..acting(next.action) },
        }
    }

    /// The cycle ends well.
    pub open spec fn finished(self, registry: RegistryView) -> Outcome {
        Outcome {
            phase: PhaseView::Idle,
            sid: self.sid,
            connected: self.connected,
            registry,
            step: acting(ActionView::Finish(Ok(()))),
        }
    }

    /// A write request was taken from the queue.
    pub open spec fn on_request(self, left: int, reg: RegistryView, r: WriteRequestView) -> Outcome {
        match mapping_for(self.mappings, r.tag_id) {
            None => self.answered(left, reg, answer(r.reply, Err("Unknown tag id"@))),
            Some(i) => {
                let m = self.mappings[i];
                if !m.writable {
                    self.answered(left, reg, answer(r.reply, Err("Not writable"@)))
                } else {
                    let write = PendingWriteView {
                        mapping: i,
                        sid: self.sid,
                        value: r.value,
                        reply: r.reply,
                    };
                    let frame = write_frame(m, r.value, self.sid);
                    Outcome {
                        phase: if self.connected {
                            PhaseView::Writing { left, write }
                        } else {
                            PhaseView::WriteConnecting { left, write, frame }
                        },
                        sid: following_sid(self.sid),
                        connected: self.connected,
                        registry: reg,
                        step: acting(
                            if self.connected {
                                ActionView::Exchange(frame)
                            } else {
                                ActionView::Connect
                            },
                        ),
                    }
                }
            },
        }
    }

    /// A write was answered, or the transport failed.
    pub open spec fn on_write_answer(
        self,
        left: int,
        write: PendingWriteView,
        reg: RegistryView,
        a: Result<Seq<u8>, Seq<char>>,
        now: Timestamp,
    ) -> Outcome {
        let id = self.mappings[write.mapping].tag_id;
        let lost = reg.set_quality(id, TagQualityView::CommLost, now);
        match a {
            Err(s) => {
                let o = FinsDriverView { connected: false, ..self }.answered(
                    left,
                    lost,
                    answer(write.reply, Err("IO error: "@ + s)),
                );
                Outcome { step: StepView { disconnect: true, ..o.step }, ..o }
            },
            Ok(payload) => match response_in(payload) {
                Err(e) => self.answered(
                    left,
                    reg.set_quality(
                        id,
                        TagQualityView::Error("parse_write_resp: "@ + error_text(e)),
                        now,
                    ),
                    answer(write.reply, Err("Parse error: "@ + error_text(e))),
                ),
                Ok(response) => if response.sid != write.sid {
                    self.answered(left, lost, answer(write.reply, Err("SID mismatch"@)))
                } else if response.end_code != 0 {
                    let t = end_code_text(response.end_code);
                    self.answered(
                        left,
                        reg.set_quality(id, TagQualityView::Error(t), now),
                        answer(write.reply, Err(t)),
                    )
                } else {
                    self.answered(
                        left,
                        reg.update(id, write.value, TagQualityView::Good, now, now),
                        answer(write.reply, Ok(())),
                    )
                },
            },
        }
    }

    /// No connection could be made for a write.
    pub open spec fn on_write_unconnected(
        self,
        left: int,
        write: PendingWriteView,
        reg: RegistryView,
        e: DriverErrorView,
        now: Timestamp,
    ) -> Outcome {
        let o = self.answered(
            left,
            reg.set_quality(
                self.mappings[write.mapping].tag_id,
                TagQualityView::CommLost,
                now,
            ),
            answer(write.reply, Err("Reconnect failed: "@ + error_text(e))),
        );
        Outcome {
            step: StepView {
                health: Some(HealthEventView::of(self.name, "connect_failed"@, error_text(e))),
                ..o.step
            },
            ..o
        }
    }

    /// The tags of request `next` get a quality.
    pub open spec fn marked(
        self,
        next: int,
        reg: RegistryView,
        quality: TagQualityView,
        now: Timestamp,
    ) -> RegistryView {
        let members = self.plan()[next].members;
        mark(reg, self.mappings, members, quality, now, members.len())
    }

    /// No connection could be made for request `next`.
    pub open spec fn on_read_unconnected(
        self,
        next: int,
        reg: RegistryView,
        e: DriverErrorView,
        now: Timestamp,
    ) -> Outcome {
        let o = self.finished(self.marked(next, reg, TagQualityView::CommLost, now));
        Outcome {
            step: StepView {
                health: Some(HealthEventView::of(self.name, "connect_failed"@, error_text(e))),
                ..o.step
            },
            ..o
        }
    }

    /// The next request after `next` is made, or the cycle ends.
    pub open spec fn going_on(self, next: int, registry: RegistryView) -> Outcome {
        let n = self.reading(next + 1);
        Outcome {
            phase: n.phase,
            sid: n.sid,
            connected: self.connected,
            registry,
            step: acting(n.action),
        }
    }

    /// Request `next` of the plan was answered, or the transport failed.
    pub open spec fn on_read_answer(
        self,
        next: int,
        sid: u8,
        reg: RegistryView,
        a: Result<Seq<u8>, Seq<char>>,
        now: Timestamp,
    ) -> Outcome {
        let c = self.plan()[next];
        match a {
            Err(_) => Outcome {
                phase: PhaseView::Idle,
                sid: self.sid,
                connected: false,
                registry: self.marked(next, reg, TagQualityView::CommLost, now),
                step: StepView { disconnect: true, ..acting(ActionView::Finish(Ok(()))) },
            },
            Ok(payload) => match response_in(payload) {
                Err(e) => self.finished(
                    self.marked(
                        next,
                        reg,
                        TagQualityView::Error("parse_fins_resp: "@ + error_text(e)),
                        now,
                    ),
                ),
                Ok(response) => if response.sid != sid {
                    self.going_on(next, self.marked(next, reg, TagQualityView::CommLost, now))
                } else if response.end_code != 0 {
                    self.finished(
                        self.marked(
                            next,
                            reg,
                            TagQualityView::Error(end_code_text(response.end_code)),
                            now,
                        ),
                    )
                } else {
                    self.going_on(
                        next,
                        take_parts(reg, self.mappings, c, response.data, now, c.members.len()),
                    )
                },
            },
        }
    }

    /// What comes of an event that the driver awaits.
    pub open spec fn on_event(self, reg: RegistryView, event: EventView, now: Timestamp) -> Outcome {
        match self.phase {
            PhaseView::Idle => {
                let next = if self.connected {
                    self.poll(WRITES_PER_CYCLE as int)
                } else {
                    Next {
                        phase: PhaseView::Connecting,
                        sid: self.sid,
                        action: ActionView::Connect,
                    }
                };
                Outcome {
                    phase: next.phase,
                    sid: next.sid,
                    connected: self.connected,
                    registry: reg,
                    step: acting(next.action),
                }
            },
            PhaseView::Connecting => match event {
                EventView::ConnectFailed(e) => Outcome {
                    phase: PhaseView::Idle,
                    sid: self.sid,
                    connected: false,
                    registry: reg,
                    step: acting(ActionView::Finish(Err(e))),
                },
                _ => {
                    let next = self.poll(WRITES_PER_CYCLE as int);
                    Outcome {
                        phase: next.phase,
                        sid: next.sid,
                        connected: true,
                        registry: reg,
                        step: acting(next.action),
                    }
                },
            },
            PhaseView::Draining { left } => match event {
                EventView::Queue(Some(r)) => self.on_request(left, reg, r),
                _ => {
                    let next = self.reading(0);
                    Outcome {
                        phase: next.phase,
                        sid: next.sid,
                        connected: self.connected,
                        registry: reg,
                        step: acting(next.action),
                    }
                },
            },
            PhaseView::WriteConnecting { left, write, frame } => match event {
                EventView::ConnectFailed(e) => self.on_write_unconnected(left, write, reg, e, now),
                _ => Outcome {
                    phase: PhaseView::Writing { left, write },
                    sid: self.sid,
                    connected: true,
                    registry: reg,
                    step: acting(ActionView::Exchange(frame)),
                },
            },
            PhaseView::Writing { left, write } => match event {
                EventView::Answer(a) => self.on_write_answer(left, write, reg, a, now),
                _ => arbitrary(),
            },
            PhaseView::ReadConnecting { next, sid } => match event {
                EventView::ConnectFailed(e) => self.on_read_unconnected(next, reg, e, now),
                _ => Outcome {
                    phase: PhaseView::Reading { next, sid },
                    sid: self.sid,
                    connected: true,
                    registry: reg,
                    step: acting(ActionView::Exchange(read_frame(self.plan()[next], sid))),
                },
            },
            PhaseView::Reading { next, sid } => match event {
                EventView::Answer(a) => self.on_read_answer(next, sid, reg, a, now),
                _ => arbitrary(),
            },
        }
    }

    /// Every index that the driver keeps is one of a mapping or request, the writes left are no
    /// more than a cycle takes, and the driver waits for a connection exactly where it has none.
    pub open spec fn sound(self) -> bool {
        match self.phase {
            PhaseView::Idle => true,
            PhaseView::Connecting => !self.connected,
            PhaseView::Draining { left } => 0 < left <= WRITES_PER_CYCLE,
            PhaseView::WriteConnecting { left, write, .. } => 0 < left <= WRITES_PER_CYCLE && 0
                <= write.mapping < self.mappings.len() && !self.connected,
            PhaseView::Writing { left, write } => 0 < left <= WRITES_PER_CYCLE && 0
                <= write.mapping < self.mappings.len() && self.connected,
            PhaseView::ReadConnecting { next, .. } => 0 <= next < self.plan().len()
                && !self.connected,
            PhaseView::Reading { next, .. } => 0 <= next < self.plan().len() && self.connected,
        }
    }
}

/// FINS driver: its configuration, its read plan, and where its cycle stands.
pub struct FinsDriver {
    config: FinsConfig,
    plan: Vec<Chunk>,
    sid: u8,
    connected: bool,
    phase: Phase,
}

impl View for FinsDriver {
    type V = FinsDriverView;

    closed spec fn view(&self) -> FinsDriverView {
        FinsDriverView {
            name: self.config.name@,
            mappings: mapping_views(self.config.mappings@),
            max_words: self.config.max_words_per_request,
            sid: self.sid,
            connected: self.connected,
            phase: self.phase.view(),
        }
    }
}

fn find_mapping(mappings: &Vec<TagMapping>, id: &str) -> (r: Option<usize>)
    ensures
        match r {
            Some(i) => mapping_for(mapping_views(mappings@), id@) == Some(i as int) && i
                < mappings@.len(),
            None => mapping_for(mapping_views(mappings@), id@) is None,
        },
{
    let ghost ms = mapping_views(mappings@);
    let mut i: usize = 0;
    while i < mappings.len()
        invariant
            i <= mappings@.len(),
            ms == mapping_views(mappings@),
            forall|j: int| 0 <= j < i ==> (#[trigger] ms[j]).tag_id != id@,
        decreases mappings@.len() - i,
    {
        assert(ms[i as int] == mappings@[i as int]@);
        if text::same(mappings[i].tag_id.as_str(), id) {
            proof {
                assert(is_mapping_of(ms, id@, i as int));
                let c = choose|c: int| is_mapping_of(ms, id@, c);
                assert(c == i) by {
                    if c < i {
                        assert(ms[c].tag_id != id@);
                    } else if i < c {
                        assert(ms[i as int].tag_id != id@);
                    }
                }
            }
            return Some(i);
        }
        i = i + 1;
    }
    assert forall|c: int| !is_mapping_of(ms, id@, c) by {}
    None
}

fn act(action: Action) -> (r: Step)
    ensures
        r@ == acting(action@),
{
    Step { reply: None, health: None, disconnect: false, action }
}

fn frame_read(chunk: &Chunk, sid: u8) -> (r: Vec<u8>)
    ensures
        r@ == read_frame(chunk@, sid),
{
    let params = build_memory_read(chunk.class, chunk.start, 0, chunk.len);
    let frame = build_fins_frame(sid, READ_COMMAND, params.as_slice());
    wrap_fins_tcp(frame.as_slice())
}

fn frame_write(m: &TagMapping, value: &TagValue, sid: u8) -> (r: Vec<u8>)
    requires
        fits_frame(value@),
    ensures
        r@ == write_frame(m@, value@, sid),
{
    let words = match tagvalue_to_words_standard(value) {
        Ok(w) => w,
        Err(_) => Vec::new(),
    };
    let ordered = driver_common::ordered_words(words.as_slice(), &m.byte_order);
    let params = build_memory_write(m.area, m.address, m.bit_offset, ordered.as_slice());
    let frame = build_fins_frame(sid, WRITE_COMMAND, params.as_slice());
    wrap_fins_tcp(frame.as_slice())
}

fn end_code_message(code: u16) -> (r: String)
    ensures
        r@ == end_code_text(code),
{
    text::join2("FINS end code: 0x", text::to_hex_upper_word(code).as_str())
}

impl FinsDriver {
    /// The plan is that of the mappings.
    spec fn planned(self) -> bool {
        chunk_views(self.plan@) == read_plan(
            mapping_views(self.config.mappings@),
            self.config.max_words_per_request,
        )
    }

    /// The driver's invariant: its plan is that of its mappings, and it stands somewhere sound.
    pub closed spec fn wf(self) -> bool {
        &&& self.planned()
        &&& self@.sound()
    }

    /// A driver that has not connected yet.
    pub fn new(config: FinsConfig) -> (r: FinsDriver)
        requires
            plannable(mapping_views(config.mappings@), config.max_words_per_request),
        ensures
            r.wf(),
            r@ == (FinsDriverView {
                name: config.name@,
                mappings: mapping_views(config.mappings@),
                max_words: config.max_words_per_request,
                sid: FIRST_SID,
                connected: false,
                phase: PhaseView::Idle,
            }),
    {
        let plan = plan_reads(&config.mappings, config.max_words_per_request);
        FinsDriver { config, plan, sid: FIRST_SID, connected: false, phase: Phase::Idle }
    }

    /// Check the mappings of the configuration.
    pub fn validate(&self) -> (r: Result<(), DriverError>)
        ensures
            match r {
                Ok(_) => mappings_fault(self@.mappings) is None && bits_in_range(self@.mappings),
                Err(e) => match mappings_fault(self@.mappings) {
                    Some(t) => e@ == DriverErrorView::Mapping(t),
                    None => false,
                },
            },
    {
        let r = validate_mappings(&self.config.mappings);
        proof {
            if r is Ok {
                let ms = self@.mappings;
                assert forall|i: int|
                    0 <= i < ms.len() && (#[trigger] ms[i]).data_type
                        == TagDataType::Bool implies ms[i].bit_offset < 16 by {
                    valid_mappings_are_each_valid(ms, i);
                }
            }
        }
        r
    }

    fn take_sid(&mut self) -> (r: u8)
        ensures
            r == old(self).sid,
            final(self).sid == following_sid(old(self).sid),
            final(self).config == old(self).config,
            final(self).plan == old(self).plan,
            final(self).connected == old(self).connected,
            final(self).phase == old(self).phase,
    {
        let sid: u8 = self.sid;
        self.sid = next_sid(sid);
        sid
    }

    fn reading(&mut self, next: usize) -> (r: Action)
        requires
            old(self).planned(),
        ensures
            final(self).config == old(self).config,
            final(self).plan == old(self).plan,
            final(self).connected == old(self).connected,
            final(self).wf(),
            old(self)@.reading(next as int) == (Next {
                phase: final(self)@.phase,
                sid: final(self).sid,
                action: r@,
            }),
    {
        if next >= self.plan.len() {
            self.phase = Phase::Idle;
            return Action::Finish(Ok(()));
        }
        assert(self@.plan()[next as int] == self.plan@[next as int]@);
        let sid: u8 = self.take_sid();
        if self.connected {
            self.phase = Phase::Reading { next, sid };
            Action::Exchange(frame_read(&self.plan[next], sid))
        } else {
            self.phase = Phase::ReadConnecting { next, sid };
            Action::Connect
        }
    }

    fn poll(&mut self, left: u32) -> (r: Action)
        requires
            old(self).planned(),
            left <= WRITES_PER_CYCLE,
        ensures
            final(self).config == old(self).config,
            final(self).plan == old(self).plan,
            final(self).connected == old(self).connected,
            final(self).wf(),
            old(self)@.poll(left as int) == (Next {
                phase: final(self)@.phase,
                sid: final(self).sid,
                action: r@,
            }),
    {
        if left > 0 {
            self.phase = Phase::Draining { left };
            Action::PollQueue
        } else {
            self.reading(0)
        }
    }

    fn answered(&mut self, left: u32, reply: Option<Reply>) -> (r: Step)
        requires
            old(self).planned(),
            0 < left <= WRITES_PER_CYCLE,
        ensures
            final(self).config == old(self).config,
            final(self).plan == old(self).plan,
            final(self).wf(),
            final(self).connected == old(self).connected,
            old(self)@.poll(left - 1) == (Next {
                phase: final(self)@.phase,
                sid: final(self).sid,
                action: r@.action,
            }),
            r@ == (StepView { reply: reply_view(reply), ..acting(r@.action) }),
    {
        let action = self.poll(left - 1);
        Step { reply, health: None, disconnect: false, action }
    }

    fn on_request(&mut self, left: u32, registry: &TagRegistry, request: WriteRequest) -> (r: Step)
        requires
            old(self).planned(),
            0 < left <= WRITES_PER_CYCLE,
            fits_frame(request@.value),
        ensures
            final(self).config == old(self).config,
            final(self).plan == old(self).plan,
            final(self).wf(),
            old(self)@.on_request(left as int, registry@, request@) == (Outcome {
                phase: final(self)@.phase,
                sid: final(self).sid,
                connected: final(self)@.connected,
                registry: registry@,
                step: r@,
            }),
    {
        let i: usize = match find_mapping(&self.config.mappings, request.tag_id.as_str()) {
            Some(i) => i,
            None => {
                return self.answered(
                    left,
                    reply_err(request.reply, "Unknown tag id".to_owned()),
                );
            },
        };
        let ghost ms = mapping_views(self.config.mappings@);
        assert(ms[i as int] == self.config.mappings@[i as int]@);
        if !self.config.mappings[i].writable {
            return self.answered(left, reply_err(request.reply, "Not writable".to_owned()));
        }
        let sid: u8 = self.take_sid();
        let frame = frame_write(&self.config.mappings[i], &request.value, sid);
        let write = PendingWrite { mapping: i, sid, value: request.value, reply: request.reply };
        if self.connected {
            self.phase = Phase::Writing { left, write };
            act(Action::Exchange(frame))
        } else {
            self.phase = Phase::WriteConnecting { left, write, frame };
            act(Action::Connect)
        }
    }

    fn on_write_answer(
        &mut self,
        left: u32,
        write: PendingWrite,
        registry: &mut TagRegistry,
        result: Result<Vec<u8>, String>,
        now: Timestamp,
    ) -> (r: Step)
        requires
            old(self).planned(),
            0 < left <= WRITES_PER_CYCLE,
            write.mapping < old(self).config.mappings@.len(),
        ensures
            final(self).config == old(self).config,
            final(self).plan == old(self).plan,
            final(self).wf(),
            old(self)@.on_write_answer(
                left as int,
                write.view(),
                old(registry)@,
                match result {
                    Ok(b) => Ok(b@),
                    Err(s) => Err(s@),
                },
                now,
            ) == (Outcome {
                phase: final(self)@.phase,
                sid: final(self).sid,
                connected: final(self)@.connected,
                registry: final(registry)@,
                step: r@,
            }),
            old(registry)@.consistent() ==> final(registry)@.consistent(),
    {
        let ghost ms = mapping_views(self.config.mappings@);
        let id = self.config.mappings[write.mapping].tag_id.as_str();
        assert(ms[write.mapping as int].tag_id == id@);
        let payload = match result {
            Ok(b) => b,
            Err(s) => {
                let _ = registry.set_tag_quality_at(id, TagQuality::CommLost, now);
                self.connected = false;
                let step = self.answered(
                    left,
                    reply_err(write.reply, text::join2("IO error: ", s.as_str())),
                );
                return Step { disconnect: true, ..step };
            },
        };
        match parse_fins_response(payload.as_slice()) {
            Err(e) => {
                let message = e.message();
                let _ = registry.set_tag_quality_at(
                    id,
                    TagQuality::Error(text::join2("parse_write_resp: ", message.as_str())),
                    now,
                );
                self.answered(
                    left,
                    reply_err(write.reply, text::join2("Parse error: ", message.as_str())),
                )
            },
            Ok((sid, end_code, _)) => {
                if sid != write.sid {
                    let _ = registry.set_tag_quality_at(id, TagQuality::CommLost, now);
                    self.answered(left, reply_err(write.reply, "SID mismatch".to_owned()))
                } else if end_code != 0 {
                    let message = end_code_message(end_code);
                    let _ = registry.set_tag_quality_at(
                        id,
                        TagQuality::Error(message.clone()),
                        now,
                    );
                    self.answered(left, reply_err(write.reply, message))
                } else {
                    let _ = registry.update_tag_value_at(
                        id,
                        write.value,
                        TagQuality::Good,
                        now,
                        now,
                    );
                    self.answered(left, reply_ok(write.reply))
                }
            },
        }
    }

    fn mark_request(
        &self,
        next: usize,
        registry: &mut TagRegistry,
        quality: TagQuality,
        now: Timestamp,
    )
        requires
            self.planned(),
            next < self.plan@.len(),
        ensures
            final(registry)@ == self@.marked(next as int, old(registry)@, quality@, now),
            old(registry)@.consistent() ==> final(registry)@.consistent(),
    {
        let ghost ms = mapping_views(self.config.mappings@);
        proof {
            let c = self.plan@[next as int];
            assert(self@.plan()[next as int] == c@);
            read_plan_is_sound(ms, self.config.max_words_per_request, next as int);
            assert forall|b: int| 0 <= b < c.members@.len() implies #[trigger] c.members@[b]
                < ms.len() by {
                assert(c@.members[b] == c.members@[b]);
            }
        }
        mark_members(
            registry,
            &self.config.mappings,
            &self.plan[next].members,
            &quality,
            now,
        );
    }

    fn take_response(
        &self,
        next: usize,
        registry: &mut TagRegistry,
        data: &Vec<u8>,
        now: Timestamp,
    )
        requires
            self.planned(),
            next < self.plan@.len(),
            bits_in_range(mapping_views(self.config.mappings@)),
        ensures
            ({
                let c = self@.plan()[next as int];
                final(registry)@ == take_parts(
                    old(registry)@,
                    self@.mappings,
                    c,
                    data@,
                    now,
                    c.members.len(),
                )
            }),
            old(registry)@.consistent() ==> final(registry)@.consistent(),
    {
        let ghost ms = mapping_views(self.config.mappings@);
        proof {
            let c = self.plan@[next as int];
            assert(self@.plan()[next as int] == c@);
            read_plan_is_sound(ms, self.config.max_words_per_request, next as int);
            assert forall|b: int| 0 <= b < c.members@.len() implies #[trigger] c.members@[b]
                < ms.len() by {
                assert(c@.members[b] == c.members@[b]);
            }
        }
        take_answer(registry, &self.config.mappings, &self.plan[next], data, now);
    }

    fn on_read_answer(
        &mut self,
        next: usize,
        sid: u8,
        registry: &mut TagRegistry,
        result: Result<Vec<u8>, String>,
        now: Timestamp,
    ) -> (r: Step)
        requires
            old(self).planned(),
            next < old(self).plan@.len(),
            old(self).phase is Idle,
            bits_in_range(mapping_views(old(self).config.mappings@)),
        ensures
            final(self).config == old(self).config,
            final(self).plan == old(self).plan,
            final(self).wf(),
            old(self)@.on_read_answer(
                next as int,
                sid,
                old(registry)@,
                match result {
                    Ok(b) => Ok(b@),
                    Err(s) => Err(s@),
                },
                now,
            ) == (Outcome {
                phase: final(self)@.phase,
                sid: final(self).sid,
                connected: final(self)@.connected,
                registry: final(registry)@,
                step: r@,
            }),
            old(registry)@.consistent() ==> final(registry)@.consistent(),
    {
        let payload = match result {
            Ok(b) => b,
            Err(_) => {
                self.mark_request(next, registry, TagQuality::CommLost, now);
                self.connected = false;
                return Step {
                    reply: None,
                    health: None,
                    disconnect: true,
                    action: Action::Finish(Ok(())),
                };
            },
        };
        match parse_fins_response(payload.as_slice()) {
            Err(e) => {
                self.mark_request(
                    next,
                    registry,
                    TagQuality::Error(text::join2("parse_fins_resp: ", e.message().as_str())),
                    now,
                );
                return act(Action::Finish(Ok(())));
            },
            Ok((response_sid, end_code, data)) => {
                if response_sid != sid {
                    self.mark_request(next, registry, TagQuality::CommLost, now);
                } else if end_code != 0 {
                    self.mark_request(
                        next,
                        registry,
                        TagQuality::Error(end_code_message(end_code)),
                        now,
                    );
                    return act(Action::Finish(Ok(())));
                } else {
                    self.take_response(next, registry, &data, now);
                }
            },
        }
        let count: usize = self.plan.len();
        assert(next < count);
        let action = self.reading(next + 1);
        act(action)
    }

    fn on_write_unconnected(
        &mut self,
        left: u32,
        write: PendingWrite,
        registry: &mut TagRegistry,
        e: DriverError,
        now: Timestamp,
    ) -> (r: Step)
        requires
            old(self).planned(),
            0 < left <= WRITES_PER_CYCLE,
            write.mapping < old(self).config.mappings@.len(),
        ensures
            final(self).config == old(self).config,
            final(self).plan == old(self).plan,
            final(self).wf(),
            old(self)@.on_write_unconnected(
                left as int,
                write.view(),
                old(registry)@,
                e@,
                now,
            ) == (Outcome {
                phase: final(self)@.phase,
                sid: final(self).sid,
                connected: final(self)@.connected,
                registry: final(registry)@,
                step: r@,
            }),
            old(registry)@.consistent() ==> final(registry)@.consistent(),
    {
        let id = self.config.mappings[write.mapping].tag_id.as_str();
        assert(mapping_views(self.config.mappings@)[write.mapping as int].tag_id == id@);
        let _ = registry.set_tag_quality_at(id, TagQuality::CommLost, now);
        let message = e.message();
        let health = health_event(
            self.config.name.as_str(),
            "connect_failed",
            Some(message.clone()),
        );
        let step = self.answered(
            left,
            reply_err(write.reply, text::join2("Reconnect failed: ", message.as_str())),
        );
        Step { health: Some(health), ..step }
    }

    fn on_read_unconnected(
        &mut self,
        next: usize,
        registry: &mut TagRegistry,
        e: DriverError,
        now: Timestamp,
    ) -> (r: Step)
        requires
            old(self).planned(),
            next < old(self).plan@.len(),
            old(self).phase is Idle,
        ensures
            final(self).config == old(self).config,
            final(self).plan == old(self).plan,
            final(self).wf(),
            old(self)@.on_read_unconnected(next as int, old(registry)@, e@, now) == (Outcome {
                phase: final(self)@.phase,
                sid: final(self).sid,
                connected: final(self)@.connected,
                registry: final(registry)@,
                step: r@,
            }),
            old(registry)@.consistent() ==> final(registry)@.consistent(),
    {
        self.mark_request(next, registry, TagQuality::CommLost, now);
        let health = health_event(
            self.config.name.as_str(),
            "connect_failed",
            Some(e.message()),
        );
        Step {
            reply: None,
            health: Some(health),
            disconnect: false,
            action: Action::Finish(Ok(())),
        }
    }

    /// Take an event, as of `now`.
    #[verifier::rlimit(40)]
    pub fn step_at(&mut self, registry: &mut TagRegistry, event: Event, now: Timestamp) -> (r: Step)
        requires
            old(self).wf(),
            old(self)@.awaits(event@),
            bits_in_range(old(self)@.mappings),
        ensures
            final(self).wf(),
            final(self)@.name == old(self)@.name,
            final(self)@.mappings == old(self)@.mappings,
            final(self)@.max_words == old(self)@.max_words,
            old(self)@.on_event(old(registry)@, event@, now) == (Outcome {
                phase: final(self)@.phase,
                sid: final(self)@.sid,
                connected: final(self)@.connected,
                registry: final(registry)@,
                step: r@,
            }),
            old(registry)@.consistent() ==> final(registry)@.consistent(),
    {
        let mut phase = Phase::Idle;
        std::mem::swap(&mut phase, &mut self.phase);
        match phase {
            Phase::Idle => {
                if self.connected {
                    let action = self.poll(WRITES_PER_CYCLE);
                    act(action)
                } else {
                    self.phase = Phase::Connecting;
                    act(Action::Connect)
                }
            },
            Phase::Connecting => match event {
                Event::ConnectFailed(e) => act(Action::Finish(Err(e))),
                _ => {
                    self.connected = true;
                    let action = self.poll(WRITES_PER_CYCLE);
                    act(action)
                },
            },
            Phase::Draining { left } => match event {
                Event::Queue(Some(request)) => self.on_request(left, registry, request),
                _ => {
                    let action = self.reading(0);
                    act(action)
                },
            },
            Phase::WriteConnecting { left, write, frame } => match event {
                Event::ConnectFailed(e) => self.on_write_unconnected(left, write, registry, e, now),
                _ => {
                    self.connected = true;
                    self.phase = Phase::Writing { left, write };
                    act(Action::Exchange(frame))
                },
            },
            Phase::Writing { left, write } => match event {
                Event::Answer(result) => self.on_write_answer(left, write, registry, result, now),
                _ => vstd::pervasive::unreached(),
            },
            Phase::ReadConnecting { next, sid } => match event {
                Event::ConnectFailed(e) => self.on_read_unconnected(next, registry, e, now),
                _ => {
                    self.connected = true;
                    self.phase = Phase::Reading { next, sid };
                    assert(self@.plan()[next as int] == self.plan@[next as int]@);
                    act(Action::Exchange(frame_read(&self.plan[next], sid)))
                },
            },
            Phase::Reading { next, sid } => match event {
                Event::Answer(result) => self.on_read_answer(next, sid, registry, result, now),
                _ => vstd::pervasive::unreached(),
            },
        }
    }

    /// Take an event, as of now.
    pub fn step(&mut self, registry: &mut TagRegistry, event: Event) -> (r: Step)
        requires
            old(self).wf(),
            old(self)@.awaits(event@),
            bits_in_range(old(self)@.mappings),
        ensures
            final(self).wf(),
            final(self)@.name == old(self)@.name,
            final(self)@.mappings == old(self)@.mappings,
            final(self)@.max_words == old(self)@.max_words,
            exists|now: Timestamp| is_clock_reading(now) && #[trigger]
                old(self)@.on_event(old(registry)@, event@, now) == (Outcome {
                    phase: final(self)@.phase,
                    sid: final(self)@.sid,
                    connected: final(self)@.connected,
                    registry: final(registry)@,
                    step: r@,
                }),
            old(registry)@.consistent() ==> final(registry)@.consistent(),
    {
        let now = Timestamp::now();
        self.step_at(registry, event, now)
    }

    /// Whether no cycle runs, so that one can start.
    pub fn is_idle(&self) -> (r: bool)
        ensures
            r == (self@.phase is Idle),
    {
        match self.phase {
            Phase::Idle => true,
            _ => false,
        }
    }

    /// Give up a cycle whose last action was not carried out, and the connection with it.
    pub fn abandon_cycle(&mut self)
        requires
            old(self).wf(),
        ensures
            final(self).wf(),
            final(self)@ == (FinsDriverView {
                connected: false,
                phase: PhaseView::Idle,
                ..old(self)@
            }),
    {
        self.connected = false;
        self.phase = Phase::Idle;
    }
}

} // verus!
