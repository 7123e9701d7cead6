//! The Modbus driver: one read/write cycle, event by event.
//!
//! The driver decides; whoever runs it performs the action of each step (poll the write queue,
//! connect, write, read) and hands back the event that came of it, until a step ends the cycle.

use crate::core_model::registry::{RegistryView, TagRegistry};
use crate::core_model::tag_value::{
    TagDataType, TagQuality, TagQualityView, TagValue, TagValueView,
};
use crate::driver_common;
use crate::driver_common::write_words;
use crate::driver_common::health::{health_event, health_view, HealthEvent, HealthEventView};
use crate::driver_common::plan::{chunk_views, Chunk, ChunkView};
use crate::driver_common::write_request::{
    answer, reply_err, reply_ok, reply_view, Reply, ReplyId, ReplyView, WriteRequest,
    WriteRequestView,
};
use crate::driver_modbus::codec::tagvalue_to_registers;
use crate::driver_modbus::config::ModbusConfig;
use crate::driver_modbus::errors::{error_text, DriverError, DriverErrorView};
use crate::driver_modbus::mapping::{
    mapping_views, ModbusFunction, ModbusMapping, ModbusMappingView,
};
use crate::driver_modbus::read::{
    bits_in_range, mark, mark_members, plan_reads, read_plan, read_plan_is_sound, take_answer,
    take_parts, ReadData, ReadDataView,
};
use crate::driver_modbus::validate::{
    class_function, function_of, mappings_fault, valid_mappings_are_each_valid, validate_mappings,
    MAX_ADDRESS,
};
use crate::text;
use crate::text::has;
use crate::time::{is_clock_reading, Timestamp};
use vstd::prelude::*;
use vstd::string::*;

verus! {

/// Writes that one cycle takes from the queue at most.
pub const WRITES_PER_CYCLE: u32 = 64;

// ---------------------------------------------------------------------------
// Events and actions
// ---------------------------------------------------------------------------

/// How a write to the device ended.
#[derive(Debug)]
pub enum WriteOutcome {
    /// The device took it.
    Done,
    /// The device answered with an exception, described by this text.
    Exception(String),
    /// The transport failed, described by this text.
    Transport(String),
    /// No answer came in time.
    TimedOut,
}

/// How a read from the device ended.
#[derive(Debug)]
pub enum ReadOutcome {
    /// The registers read.
    Registers(Vec<u16>),
    /// The coils or discrete inputs read.
    Bits(Vec<bool>),
    /// The device answered with an exception, described by this text.
    Exception(String),
    /// The transport failed, described by this text.
    Transport(String),
    /// No answer came in time.
    TimedOut,
}

/// What happened.
#[derive(Debug)]
pub enum Event {
    /// A cycle is to start.
    Start,
    /// The write queue was polled.
    Queue(Option<WriteRequest>),
    /// The connection was made.
    Connected,
    /// The connection could not be made.
    ConnectFailed(DriverError),
    /// The write ended.
    Written(WriteOutcome),
    /// The read ended.
    Data(ReadOutcome),
}

/// What is to be done next.
#[derive(Debug)]
pub enum Action {
    /// Poll the write queue.
    PollQueue,
    /// Connect to the device.
    Connect,
    /// Write registers.
    Write { address: u16, words: Vec<u16> },
    /// Write a coil.
    WriteCoil { address: u16, value: bool },
    /// Read registers, coils or discrete inputs.
    Read { function: ModbusFunction, start: u16, quantity: u16 },
    /// The cycle is over.
    Finish(Result<(), DriverError>),
}

/// What came of an event.
#[derive(Debug)]
pub struct Step {
    /// Reply to a write request.
    pub reply: Option<Reply>,
    /// Health event to emit.
    pub health: Option<HealthEvent>,
    /// Whether the connection is to be dropped.
    pub disconnect: bool,
    /// What is to be done next.
    pub action: Action,
}

/// What a [`WriteOutcome`] says.
#[verifier::ext_equal]
pub ghost enum WriteOutcomeView {
    Done,
    Exception(Seq<char>),
    Transport(Seq<char>),
    TimedOut,
}

impl View for WriteOutcome {
    type V = WriteOutcomeView;

    open spec fn view(&self) -> WriteOutcomeView {
        match *self {
            WriteOutcome::Done => WriteOutcomeView::Done,
            WriteOutcome::Exception(s) => WriteOutcomeView::Exception(s@),
            WriteOutcome::Transport(s) => WriteOutcomeView::Transport(s@),
            WriteOutcome::TimedOut => WriteOutcomeView::TimedOut,
        }
    }
}

/// What a [`ReadOutcome`] says: what was read, or a text that describes the failure.
pub open spec fn read_result(o: ReadOutcome) -> Result<ReadDataView, Seq<char>> {
    match o {
        ReadOutcome::Registers(w) => Ok(ReadDataView::Registers(w@)),
        ReadOutcome::Bits(b) => Ok(ReadDataView::Bits(b@)),
        ReadOutcome::Exception(s) => Err(s@),
        ReadOutcome::Transport(s) => Err("Transport: "@ + s@),
        ReadOutcome::TimedOut => Err("Timeout"@),
    }
}

/// What an [`Event`] says.
#[verifier::ext_equal]
pub ghost enum EventView {
    Start,
    Queue(Option<WriteRequestView>),
    Connected,
    ConnectFailed(DriverErrorView),
    Written(WriteOutcomeView),
    Data(Result<ReadDataView, Seq<char>>),
}

impl View for Event {
    type V = EventView;

    open spec fn view(&self) -> EventView {
        match *self {
            Event::Start => EventView::Start,
            Event::Queue(None) => EventView::Queue(None),
            Event::Queue(Some(r)) => EventView::Queue(Some(r@)),
            Event::Connected => EventView::Connected,
            Event::ConnectFailed(e) => EventView::ConnectFailed(e@),
            Event::Written(o) => EventView::Written(o@),
            Event::Data(o) => EventView::Data(read_result(o)),
        }
    }
}

/// What an [`Action`] says.
#[verifier::ext_equal]
pub ghost enum ActionView {
    PollQueue,
    Connect,
    Write { address: u16, words: Seq<u16> },
    WriteCoil { address: u16, value: bool },
    Read { function: ModbusFunction, start: int, quantity: int },
    Finish(Result<(), DriverErrorView>),
}

impl View for Action {
    type V = ActionView;

    open spec fn view(&self) -> ActionView {
        match *self {
            Action::PollQueue => ActionView::PollQueue,
            Action::Connect => ActionView::Connect,
            Action::Write { address, words } => ActionView::Write { address, words: words@ },
            Action::WriteCoil { address, value } => ActionView::WriteCoil { address, value },
            Action::Read { function, start, quantity } => ActionView::Read {
                function,
                start: start as int,
                quantity: quantity as int,
            },
            Action::Finish(Ok(_)) => ActionView::Finish(Ok(())),
            Action::Finish(Err(e)) => ActionView::Finish(Err(e@)),
        }
    }
}

/// What a [`Step`] says.
#[verifier::ext_equal]
pub ghost struct StepView {
    pub reply: Option<ReplyView>,
    pub health: Option<HealthEventView>,
    pub disconnect: bool,
    pub action: ActionView,
}

impl View for Step {
    type V = StepView;

    open spec fn view(&self) -> StepView {
        StepView {
            reply: reply_view(self.reply),
            health: health_view(self.health),
            disconnect: self.disconnect,
            action: self.action@,
        }
    }
}

// ---------------------------------------------------------------------------
// State
// ---------------------------------------------------------------------------

/// A write that waits for the device.
struct PendingWrite {
    mapping: usize,
    value: TagValue,
    reply: Option<ReplyId>,
}

/// What a pending write asks for.
#[verifier::ext_equal]
pub ghost struct PendingWriteView {
    /// Index of the mapping.
    pub mapping: int,
    /// The value.
    pub value: TagValueView,
    /// Where the reply goes.
    pub reply: Option<ReplyId>,
}

impl PendingWrite {
    spec fn view(self) -> PendingWriteView {
        PendingWriteView {
            mapping: self.mapping as int,
            value: self.value@,
            reply: self.reply,
        }
    }
}

enum Phase {
    Idle,
    Draining { left: u32 },
    WriteConnecting { left: u32, write: PendingWrite },
    Writing { left: u32, write: PendingWrite },
    ReadConnecting,
    Reading { next: usize },
}

/// Where a cycle stands.
#[verifier::ext_equal]
pub ghost enum PhaseView {
    /// No cycle runs.
    Idle,
    /// The write queue is polled, `left` times more.
    Draining { left: int },
    /// A connection is made for a write.
    WriteConnecting { left: int, write: PendingWriteView },
    /// A write is under way.
    Writing { left: int, write: PendingWriteView },
    /// A connection is made for reads.
    ReadConnecting,
    /// Request `next` of the plan is under way.
    Reading { next: int },
}

impl Phase {
    spec fn view(self) -> PhaseView {
        match self {
            Phase::Idle => PhaseView::Idle,
            Phase::Draining { left } => PhaseView::Draining { left: left as int },
            Phase::WriteConnecting { left, write } => PhaseView::WriteConnecting {
                left: left as int,
                write: write.view(),
            },
            Phase::Writing { left, write } => PhaseView::Writing {
                left: left as int,
                write: write.view(),
            },
            Phase::ReadConnecting => PhaseView::ReadConnecting,
            Phase::Reading { next } => PhaseView::Reading { next: next as int },
        }
    }
}

/// What the driver knows and where it stands.
#[verifier::ext_equal]
pub ghost struct ModbusDriverView {
    /// Name of the PLC.
    pub name: Seq<char>,
    /// Mappings of its tags.
    pub mappings: Seq<ModbusMappingView>,
    /// Whether there is a connection.
    pub connected: bool,
    /// Where the cycle stands.
    pub phase: PhaseView,
}

/// What came of an event: where the driver stands, the registry, and the step to take.
#[verifier::ext_equal]
pub ghost struct Outcome {
    pub phase: PhaseView,
    pub connected: bool,
    pub registry: RegistryView,
    pub step: StepView,
}

/// A step that only acts.
pub open spec fn acting(action: ActionView) -> StepView {
    StepView { reply: None, health: None, disconnect: false, action }
}

// ---------------------------------------------------------------------------
// Transitions
// ---------------------------------------------------------------------------

/// The first mapping of the tag `id`.
pub open spec fn is_mapping_of(ms: Seq<ModbusMappingView>, id: Seq<char>, i: int) -> bool {
    &&& 0 <= i < ms.len()
    &&& ms[i].tag_id == id
    &&& forall|j: int| 0 <= j < i ==> (#[trigger] ms[j]).tag_id != id
}

/// The first mapping of the tag `id`, if there is one.
pub open spec fn mapping_for(ms: Seq<ModbusMappingView>, id: Seq<char>) -> Option<int> {
    if exists|i: int| is_mapping_of(ms, id, i) {
        Some(choose|i: int| is_mapping_of(ms, id, i))
    } else {
        None
    }
}

/// The device says that an address or function is wrong.
pub open spec fn is_illegal(s: Seq<char>) -> bool {
    has(s, "Illegal"@) || has(s, "Address"@)
}

/// The device says that it, or one behind it, is out of order.
pub open spec fn is_device_failure(s: Seq<char>) -> bool {
    has(s, "Slave"@) && (has(s, "Failure"@) || has(s, "Device"@) || has(s, "Unavailable"@))
}

/// What writes a value to the address of a mapping, if anything does.
///
/// Holding registers take the words of any value. Of coils, a boolean sets the one that the mapping
/// reads it from; other values have no place there. The other functions are read-only.
pub open spec fn write_action(m: ModbusMappingView, value: TagValueView) -> Option<ActionView> {
    match m.function {
        ModbusFunction::HoldingRegisters => Some(
            ActionView::Write { address: m.address, words: write_words(value, m.byte_order) },
        ),
        ModbusFunction::Coils => match value {
            TagValueView::Bool(b) => if m.bit_offset < m.quantity && m.address + m.bit_offset
                <= MAX_ADDRESS {
                Some(
                    ActionView::WriteCoil { address: (m.address + m.bit_offset) as u16, value: b },
                )
            } else {
                None
            },
            _ => None,
        },
        _ => None,
    }
}

impl ModbusDriverView {
    /// The read requests of a cycle.
    pub open spec fn plan(self) -> Seq<ChunkView> {
        read_plan(self.mappings)
    }

    /// Whether an event is what the driver waits for.
    pub open spec fn awaits(self, event: EventView) -> bool {
        match self.phase {
            PhaseView::Idle => event is Start,
            PhaseView::Draining { .. } => event is Queue,
            PhaseView::WriteConnecting { .. } => event is Connected || event is ConnectFailed,
            PhaseView::Writing { .. } => event is Written,
            PhaseView::ReadConnecting => event is Connected || event is ConnectFailed,
            PhaseView::Reading { .. } => event is Data,
        }
    }

    /// Request `next` of the plan is made, or the cycle ends well where there is none.
    pub open spec fn reading(self, next: int) -> (PhaseView, ActionView) {
        if next < self.plan().len() {
            let c = self.plan()[next];
            (
                PhaseView::Reading { next },
                ActionView::Read {
                    function: class_function(c.class),
                    start: c.start,
                    quantity: c.len,
                },
            )
        } else {
            (PhaseView::Idle, ActionView::Finish(Ok(())))
        }
    }

    /// Reads begin, after a connection was made where there is none.
    pub open spec fn begin_reads(self) -> (PhaseView, ActionView) {
        if self.connected {
            self.reading(0)
        } else {
            (PhaseView::ReadConnecting, ActionView::Connect)
        }
    }

    /// The write queue is polled again, or reads begin where the cycle took enough writes.
    pub open spec fn poll(self, left: int) -> (PhaseView, ActionView) {
        if left > 0 {
            (PhaseView::Draining { left }, ActionView::PollQueue)
        } else {
            self.begin_reads()
        }
    }

    /// A write is answered, and the cycle goes on.
    pub open spec fn answered(
        self,
        left: int,
        registry: RegistryView,
        reply: Option<ReplyView>,
    ) -> Outcome {
        let next = self.poll(left - 1);
        Outcome {
            phase: next.0,
            connected: self.connected,
            registry,
            step: StepView { reply, ..acting(next.1) },
        }
    }

    /// A write is answered, the connection is dropped, and the cycle ends with an error.
    pub open spec fn failed(
        self,
        registry: RegistryView,
        reply: Option<ReplyView>,
        health: Option<HealthEventView>,
        error: DriverErrorView,
    ) -> Outcome {
        Outcome {
            phase: PhaseView::Idle,
            connected: false,
            registry,
            step: StepView {
                reply,
                health,
                disconnect: true,
                action: ActionView::Finish(Err(error)),
            },
        }
    }

    /// A write request was taken from the queue.
    pub open spec fn on_request(
        self,
        left: int,
        reg: RegistryView,
        r: WriteRequestView,
        now: Timestamp,
    ) -> Outcome {
        match mapping_for(self.mappings, r.tag_id) {
            None => self.answered(left, reg, answer(r.reply, Err("Unknown tag mapping"@))),
            Some(i) => {
                let m = self.mappings[i];
                if !m.writable {
                    self.answered(left, reg, answer(r.reply, Err("Tag not writable"@)))
                } else if write_action(m, r.value) is None {
                    self.answered(
                        left,
                        reg.set_quality(m.tag_id, TagQualityView::CommLost, now),
                        answer(r.reply, Err("Unsupported write function"@)),
                    )
                } else {
                    let write = PendingWriteView {
                        mapping: i,
                        value: r.value,
                        reply: r.reply,
                    };
                    if self.connected {
                        self.writing(left, write, reg)
                    } else {
                        Outcome {
                            phase: PhaseView::WriteConnecting { left, write },
                            connected: false,
                            registry: reg,
                            step: acting(ActionView::Connect),
                        }
                    }
                }
            },
        }
    }

    /// A write is sent to the device.
    pub open spec fn writing(self, left: int, write: PendingWriteView, reg: RegistryView) -> Outcome {
        Outcome {
            phase: PhaseView::Writing { left, write },
            connected: true,
            registry: reg,
            step: acting(write_action(self.mappings[write.mapping], write.value)->0),
        }
    }

    /// A write to the device ended.
    pub open spec fn on_written(
        self,
        left: int,
        write: PendingWriteView,
        reg: RegistryView,
        o: WriteOutcomeView,
        now: Timestamp,
    ) -> Outcome {
        let id = self.mappings[write.mapping].tag_id;
        let lost = reg.set_quality(id, TagQualityView::CommLost, now);
        match o {
            WriteOutcomeView::Done => self.answered(
                left,
                reg.update(id, write.value, TagQualityView::Good, now, now),
                answer(write.reply, Ok(())),
            ),
            WriteOutcomeView::Exception(s) => if is_illegal(s) {
                self.answered(
                    left,
                    reg.set_quality(id, TagQualityView::ConfigError, now),
                    answer(write.reply, Err("Modbus exception: "@ + s)),
                )
            } else {
                self.failed(
                    lost,
                    answer(write.reply, Err("Modbus error: "@ + s)),
                    Some(HealthEventView::of(self.name, "write_error"@, s)),
                    DriverErrorView::Modbus(s),
                )
            },
            WriteOutcomeView::Transport(s) => self.failed(
                lost,
                answer(write.reply, Err("Transport: "@ + s)),
                None,
                DriverErrorView::Modbus("Transport: "@ + s),
            ),
            WriteOutcomeView::TimedOut => self.failed(
                lost,
                answer(write.reply, Err("Timeout"@)),
                None,
                DriverErrorView::Timeout,
            ),
        }
    }

    /// Request `next` of the plan was answered.
    pub open spec fn on_data(
        self,
        next: int,
        reg: RegistryView,
        data: Result<ReadDataView, Seq<char>>,
        now: Timestamp,
    ) -> Outcome {
        let c = self.plan()[next];
        let go_on = self.reading(next + 1);
        let n = c.members.len();
        match data {
            Ok(d) => Outcome {
                phase: go_on.0,
                connected: self.connected,
                registry: take_parts(reg, self.mappings, c, d, now, n),
                step: acting(go_on.1),
            },
            Err(s) => if is_illegal(s) {
                Outcome {
                    phase: go_on.0,
                    connected: self.connected,
                    registry: mark(
                        reg,
                        self.mappings,
                        c.members,
                        TagQualityView::ConfigError,
                        now,
                        n,
                    ),
                    step: acting(go_on.1),
                }
            } else if is_device_failure(s) || s == "Timeout"@ {
                self.failed(
                    mark(reg, self.mappings, c.members, TagQualityView::CommLost, now, n),
                    None,
                    Some(HealthEventView::of(self.name, "read_error"@, s)),
                    DriverErrorView::Modbus(s),
                )
            } else {
                Outcome {
                    phase: go_on.0,
                    connected: self.connected,
                    registry: reg,
                    step: acting(go_on.1),
                }
            },
        }
    }

    /// What comes of an event that the driver awaits.
    pub open spec fn on_event(self, reg: RegistryView, event: EventView, now: Timestamp) -> Outcome {
        match self.phase {
            PhaseView::Idle => {
                let next = self.poll(WRITES_PER_CYCLE as int);
                Outcome {
                    phase: next.0,
                    connected: self.connected,
                    registry: reg,
                    step: acting(next.1),
                }
            },
            PhaseView::Draining { left } => match event {
                EventView::Queue(Some(r)) => self.on_request(left, reg, r, now),
                _ => {
                    let next = self.begin_reads();
                    Outcome {
                        phase: next.0,
                        connected: self.connected,
                        registry: reg,
                        step: acting(next.1),
                    }
                },
            },
            PhaseView::WriteConnecting { left, write } => match event {
                EventView::ConnectFailed(e) => self.failed(
                    reg.set_quality(
                        self.mappings[write.mapping].tag_id,
                        TagQualityView::CommLost,
                        now,
                    ),
                    answer(write.reply, Err("Reconnect failed: "@ + error_text(e))),
                    None,
                    DriverErrorView::Io("Reconnect failed during write"@),
                ),
                _ => self.writing(left, write, reg),
            },
            PhaseView::Writing { left, write } => match event {
                EventView::Written(o) => self.on_written(left, write, reg, o, now),
                _ => arbitrary(),
            },
            PhaseView::ReadConnecting => match event {
                EventView::ConnectFailed(e) => Outcome {
                    phase: PhaseView::Idle,
                    connected: false,
                    registry: reg,
                    step: acting(ActionView::Finish(Err(e))),
                },
                _ => {
                    let next = ModbusDriverView { connected: true, ..self }.reading(0);
                    Outcome {
                        phase: next.0,
                        connected: true,
                        registry: reg,
                        step: acting(next.1),
                    }
                },
            },
            PhaseView::Reading { next } => match event {
                EventView::Data(d) => self.on_data(next, reg, d, now),
                _ => arbitrary(),
            },
        }
    }

    /// A pending write belongs to a mapping that its value can be written to.
    pub open spec fn writes_well(self, write: PendingWriteView) -> bool {
        &&& 0 <= write.mapping < self.mappings.len()
        &&& write_action(self.mappings[write.mapping], write.value) is Some
    }

    /// Every index that the driver keeps is one of a mapping or request, a pending write can be
    /// written, and the writes left are no more than a cycle takes.
    pub open spec fn sound(self) -> bool {
        match self.phase {
            PhaseView::Idle => true,
            PhaseView::Draining { left } => 0 < left <= WRITES_PER_CYCLE,
            PhaseView::WriteConnecting { left, write } => 0 < left <= WRITES_PER_CYCLE
                && self.writes_well(write) && !self.connected,
            PhaseView::Writing { left, write } => 0 < left <= WRITES_PER_CYCLE && self.writes_well(
                write,
            ) && self.connected,
            PhaseView::ReadConnecting => !self.connected,
            PhaseView::Reading { next } => 0 <= next < self.plan().len() && self.connected,
        }
    }
}

/// Modbus driver: its configuration, its read plan, and where its cycle stands.
pub struct ModbusDriver {
    config: ModbusConfig,
    plan: Vec<Chunk>,
    connected: bool,
    phase: Phase,
}

impl View for ModbusDriver {
    type V = ModbusDriverView;

    closed spec fn view(&self) -> ModbusDriverView {
        ModbusDriverView {
            name: self.config.name@,
            mappings: mapping_views(self.config.mappings@),
            connected: self.connected,
            phase: self.phase.view(),
        }
    }
}

fn find_mapping(mappings: &Vec<ModbusMapping>, id: &str) -> (r: Option<usize>)
    ensures
        match r {
            Some(i) => mapping_for(mapping_views(mappings@), id@) == Some(i as int) && i
                < mappings@.len(),
            None => mapping_for(mapping_views(mappings@), id@) is None,
        },
{
    let ghost ms = mapping_views(mappings@);
    let mut i: usize = 0;
    while i < mappings.len()
        invariant
            i <= mappings@.len(),
            ms == mapping_views(mappings@),
            forall|j: int| 0 <= j < i ==> (#[trigger] ms[j]).tag_id != id@,
        decreases mappings@.len() - i,
    {
        assert(ms[i as int] == mappings@[i as int]@);
        if text::same(mappings[i].tag_id.as_str(), id) {
            proof {
                assert(is_mapping_of(ms, id@, i as int));
                let c = choose|c: int| is_mapping_of(ms, id@, c);
                assert(c == i) by {
                    if c < i {
                        assert(ms[c].tag_id != id@);
                    } else if i < c {
                        assert(ms[i as int].tag_id != id@);
                    }
                }
            }
            return Some(i);
        }
        i = i + 1;
    }
    assert forall|c: int| !is_mapping_of(ms, id@, c) by {}
    None
}

fn illegal(s: &str) -> (r: bool)
    ensures
        r == is_illegal(s@),
{
    text::contains(s, "Illegal") || text::contains(s, "Address")
}

fn device_failure(s: &str) -> (r: bool)
    ensures
        r == is_device_failure(s@),
{
    text::contains(s, "Slave") && (text::contains(s, "Failure") || text::contains(s, "Device")
        || text::contains(s, "Unavailable"))
}

fn action_for(m: &ModbusMapping, value: &TagValue) -> (r: Option<Action>)
    ensures
        match r {
            Some(a) => write_action(m@, value@) == Some(a@),
            None => write_action(m@, value@) is None,
        },
{
    match m.function {
        ModbusFunction::HoldingRegisters => {
            let registers = match tagvalue_to_registers(value) {
                Ok(w) => w,
                Err(_) => Vec::new(),
            };
            let words = driver_common::ordered_words(registers.as_slice(), &m.byte_order);
            Some(Action::Write { address: m.address, words })
        },
        ModbusFunction::Coils => match value {
            TagValue::Bool(b) => {
                let coil: u32 = m.address as u32 + m.bit_offset as u32;
                if (m.bit_offset as u16) < m.quantity && coil <= MAX_ADDRESS {
                    Some(Action::WriteCoil { address: coil as u16, value: *b })
                } else {
                    None
                }
            },
            _ => None,
        },
        _ => None,
    }
}

fn act(action: Action) -> (r: Step)
    ensures
        r@ == acting(action@),
{
    Step { reply: None, health: None, disconnect: false, action }
}

impl ModbusDriver {
    /// The driver's invariant: its plan is that of its mappings, and it stands somewhere sound.
    pub closed spec fn wf(self) -> bool {
        &&& chunk_views(self.plan@) == read_plan(mapping_views(self.config.mappings@))
        &&& self@.sound()
    }

    /// A driver that has not connected yet.
    pub fn new(config: ModbusConfig) -> (r: ModbusDriver)
        ensures
            r.wf(),
            r@ == (ModbusDriverView {
                name: config.name@,
                mappings: mapping_views(config.mappings@),
                connected: false,
                phase: PhaseView::Idle,
            }),
    {
        let plan = plan_reads(&config.mappings);
        ModbusDriver { config, plan, connected: false, phase: Phase::Idle }
    }

    /// Check the mappings of the configuration.
    pub fn validate(&self) -> (r: Result<(), DriverError>)
        ensures
            match r {
                Ok(_) => mappings_fault(self@.mappings) is None && bits_in_range(self@.mappings),
                Err(e) => match mappings_fault(self@.mappings) {
                    Some(t) => e@ == DriverErrorView::Mapping(t),
                    None => false,
                },
            },
    {
        let r = validate_mappings(&self.config.mappings);
        proof {
            if r is Ok {
                let ms = self@.mappings;
                assert forall|i: int|
                    0 <= i < ms.len() && (#[trigger] ms[i]).data_type
                        == TagDataType::Bool implies ms[i].bit_offset < 16 by {
                    valid_mappings_are_each_valid(ms, i);
                }
            }
        }
        r
    }

    fn reading(&mut self, next: usize) -> (r: Action)
        requires
            chunk_views(old(self).plan@) == read_plan(mapping_views(old(self).config.mappings@)),
            old(self).connected || next >= old(self).plan@.len(),
        ensures
            final(self).config == old(self).config,
            final(self).plan == old(self).plan,
            final(self).connected == old(self).connected,
            final(self).wf(),
            (final(self)@.phase, r@) == old(self)@.reading(next as int),
    {
        if next < self.plan.len() {
            let c = &self.plan[next];
            proof {
                assert(self@.plan()[next as int] == c@);
                read_plan_is_sound(self@.mappings, next as int);
            }
            let action = Action::Read {
                function: function_of(c.class),
                start: c.start as u16,
                quantity: c.len,
            };
            self.phase = Phase::Reading { next };
            action
        } else {
            self.phase = Phase::Idle;
            Action::Finish(Ok(()))
        }
    }

    fn begin_reads(&mut self) -> (r: Action)
        requires
            chunk_views(old(self).plan@) == read_plan(mapping_views(old(self).config.mappings@)),
        ensures
            final(self).config == old(self).config,
            final(self).plan == old(self).plan,
            final(self).connected == old(self).connected,
            final(self).wf(),
            (final(self)@.phase, r@) == old(self)@.begin_reads(),
    {
        if self.connected {
            self.reading(0)
        } else {
            self.phase = Phase::ReadConnecting;
            Action::Connect
        }
    }

    fn poll(&mut self, left: u32) -> (r: Action)
        requires
            chunk_views(old(self).plan@) == read_plan(mapping_views(old(self).config.mappings@)),
            left <= WRITES_PER_CYCLE,
        ensures
            final(self).config == old(self).config,
            final(self).plan == old(self).plan,
            final(self).connected == old(self).connected,
            final(self).wf(),
            (final(self)@.phase, r@) == old(self)@.poll(left as int),
    {
        if left > 0 {
            self.phase = Phase::Draining { left };
            Action::PollQueue
        } else {
            self.begin_reads()
        }
    }

    fn answered(&mut self, left: u32, reply: Option<Reply>) -> (r: Step)
        requires
            chunk_views(old(self).plan@) == read_plan(mapping_views(old(self).config.mappings@)),
            0 < left <= WRITES_PER_CYCLE,
        ensures
            final(self).config == old(self).config,
            final(self).plan == old(self).plan,
            final(self).wf(),
            final(self).connected == old(self).connected,
            (final(self)@.phase, r@.action) == old(self)@.poll(left - 1),
            r@ == (StepView { reply: reply_view(reply), ..acting(r@.action) }),
    {
        let action = self.poll(left - 1);
        Step { reply, health: None, disconnect: false, action }
    }

    fn failed(
        &mut self,
        reply: Option<Reply>,
        health: Option<HealthEvent>,
        error: DriverError,
    ) -> (r: Step)
        requires
            chunk_views(old(self).plan@) == read_plan(mapping_views(old(self).config.mappings@)),
        ensures
            final(self).config == old(self).config,
            final(self).plan == old(self).plan,
            final(self).wf(),
            !final(self).connected,
            final(self)@.phase == PhaseView::Idle,
            r@ == (StepView {
                reply: reply_view(reply),
                health: health_view(health),
                disconnect: true,
                action: ActionView::Finish(Err(error@)),
            }),
    {
        self.phase = Phase::Idle;
        self.connected = false;
        Step { reply, health, disconnect: true, action: Action::Finish(Err(error)) }
    }

    fn writing(&mut self, left: u32, write: PendingWrite, action: Action) -> (r: Step)
        requires
            chunk_views(old(self).plan@) == read_plan(mapping_views(old(self).config.mappings@)),
            0 < left <= WRITES_PER_CYCLE,
            old(self)@.writes_well(write.view()),
            write_action(old(self)@.mappings[write.mapping as int], write.value@) == Some(action@),
        ensures
            final(self).config == old(self).config,
            final(self).plan == old(self).plan,
            final(self).wf(),
            final(self).connected,
            final(self)@.phase == (PhaseView::Writing { left: left as int, write: write.view() }),
            r@ == acting(action@),
    {
        self.connected = true;
        self.phase = Phase::Writing { left, write };
        act(action)
    }

    fn on_request(
        &mut self,
        left: u32,
        registry: &mut TagRegistry,
        request: WriteRequest,
        now: Timestamp,
    ) -> (r: Step)
        requires
            chunk_views(old(self).plan@) == read_plan(mapping_views(old(self).config.mappings@)),
            0 < left <= WRITES_PER_CYCLE,
        ensures
            final(self).config == old(self).config,
            final(self).plan == old(self).plan,
            final(self).wf(),
            old(self)@.on_request(left as int, old(registry)@, request@, now) == (Outcome {
                phase: final(self)@.phase,
                connected: final(self)@.connected,
                registry: final(registry)@,
                step: r@,
            }),
            old(registry)@.consistent() ==> final(registry)@.consistent(),
    {
        let i: usize = match find_mapping(&self.config.mappings, request.tag_id.as_str()) {
            Some(i) => i,
            None => {
                return self.answered(
                    left,
                    reply_err(request.reply, "Unknown tag mapping".to_owned()),
                );
            },
        };
        let ghost ms = mapping_views(self.config.mappings@);
        let m = &self.config.mappings[i];
        assert(ms[i as int] == m@);
        if !m.writable {
            return self.answered(left, reply_err(request.reply, "Tag not writable".to_owned()));
        }
        let action = match action_for(m, &request.value) {
            Some(a) => a,
            None => {
                let _ = registry.set_tag_quality_at(m.tag_id.as_str(), TagQuality::CommLost, now);
                return self.answered(
                    left,
                    reply_err(request.reply, "Unsupported write function".to_owned()),
                );
            },
        };
        let write = PendingWrite { mapping: i, value: request.value, reply: request.reply };
        if self.connected {
            self.writing(left, write, action)
        } else {
            self.phase = Phase::WriteConnecting { left, write };
            act(Action::Connect)
        }
    }

    fn on_written(
        &mut self,
        left: u32,
        write: PendingWrite,
        registry: &mut TagRegistry,
        outcome: WriteOutcome,
        now: Timestamp,
    ) -> (r: Step)
        requires
            chunk_views(old(self).plan@) == read_plan(mapping_views(old(self).config.mappings@)),
            0 < left <= WRITES_PER_CYCLE,
            write.mapping < old(self).config.mappings@.len(),
        ensures
            final(self).config == old(self).config,
            final(self).plan == old(self).plan,
            final(self).wf(),
            old(self)@.on_written(left as int, write.view(), old(registry)@, outcome@, now) == (
            Outcome {
                phase: final(self)@.phase,
                connected: final(self)@.connected,
                registry: final(registry)@,
                step: r@,
            }),
            old(registry)@.consistent() ==> final(registry)@.consistent(),
    {
        let ghost ms = mapping_views(self.config.mappings@);
        let id = self.config.mappings[write.mapping].tag_id.as_str();
        assert(ms[write.mapping as int].tag_id == id@);
        match outcome {
            WriteOutcome::Done => {
                let _ = registry.update_tag_value_at(id, write.value, TagQuality::Good, now, now);
                self.answered(left, reply_ok(write.reply))
            },
            WriteOutcome::Exception(s) => {
                if illegal(s.as_str()) {
                    let _ = registry.set_tag_quality_at(id, TagQuality::ConfigError, now);
                    self.answered(
                        left,
                        reply_err(write.reply, text::join2("Modbus exception: ", s.as_str())),
                    )
                } else {
                    let _ = registry.set_tag_quality_at(id, TagQuality::CommLost, now);
                    let reply = reply_err(
                        write.reply,
                        text::join2("Modbus error: ", s.as_str()),
                    );
                    let health = health_event(
                        self.config.name.as_str(),
                        "write_error",
                        Some(s.clone()),
                    );
                    self.failed(reply, Some(health), DriverError::Modbus(s))
                }
            },
            WriteOutcome::Transport(s) => {
                let message = text::join2("Transport: ", s.as_str());
                let _ = registry.set_tag_quality_at(id, TagQuality::CommLost, now);
                self.failed(
                    reply_err(write.reply, message.clone()),
                    None,
                    DriverError::Modbus(message),
                )
            },
            WriteOutcome::TimedOut => {
                let _ = registry.set_tag_quality_at(id, TagQuality::CommLost, now);
                self.failed(
                    reply_err(write.reply, "Timeout".to_owned()),
                    None,
                    DriverError::Timeout,
                )
            },
        }
    }

    fn on_data(
        &mut self,
        next: usize,
        registry: &mut TagRegistry,
        outcome: ReadOutcome,
        now: Timestamp,
    ) -> (r: Step)
        requires
            chunk_views(old(self).plan@) == read_plan(mapping_views(old(self).config.mappings@)),
            next < old(self).plan@.len(),
            old(self).connected,
            bits_in_range(mapping_views(old(self).config.mappings@)),
        ensures
            final(self).config == old(self).config,
            final(self).plan == old(self).plan,
            final(self).wf(),
            old(self)@.on_data(next as int, old(registry)@, read_result(outcome), now) == (
            Outcome {
                phase: final(self)@.phase,
                connected: final(self)@.connected,
                registry: final(registry)@,
                step: r@,
            }),
            old(registry)@.consistent() ==> final(registry)@.consistent(),
    {
        let ghost ms = mapping_views(self.config.mappings@);
        proof {
            let c = self.plan@[next as int];
            assert(read_plan(ms)[next as int] == c@);
            read_plan_is_sound(ms, next as int);
            assert forall|b: int| 0 <= b < c.members@.len() implies #[trigger] c.members@[b]
                < ms.len() by {
                assert(c@.members[b] == c.members@[b]);
            }
        }
        let data: Result<ReadData, String> = match outcome {
            ReadOutcome::Registers(w) => Ok(ReadData::Registers(w)),
            ReadOutcome::Bits(b) => Ok(ReadData::Bits(b)),
            ReadOutcome::Exception(s) => Err(s),
            ReadOutcome::Transport(s) => Err(text::join2("Transport: ", s.as_str())),
            ReadOutcome::TimedOut => Err("Timeout".to_owned()),
        };
        match data {
            Ok(d) => {
                take_answer(registry, &self.config.mappings, &self.plan[next], &d, now);
            },
            Err(s) => {
                if illegal(s.as_str()) {
                    mark_members(
                        registry,
                        &self.config.mappings,
                        &self.plan[next].members,
                        &TagQuality::ConfigError,
                        now,
                    );
                } else if device_failure(s.as_str()) || text::same(s.as_str(), "Timeout") {
                    mark_members(
                        registry,
                        &self.config.mappings,
                        &self.plan[next].members,
                        &TagQuality::CommLost,
                        now,
                    );
                    let health = health_event(
                        self.config.name.as_str(),
                        "read_error",
                        Some(s.clone()),
                    );
                    return self.failed(None, Some(health), DriverError::Modbus(s));
                }
            },
        }
        let count: usize = self.plan.len();
        assert(next < count);
        let action = self.reading(next + 1);
        act(action)
    }

    /// Take an event, as of `now`.
    #[verifier::rlimit(40)]
    pub fn step_at(&mut self, registry: &mut TagRegistry, event: Event, now: Timestamp) -> (r: Step)
        requires
            old(self).wf(),
            old(self)@.awaits(event@),
            bits_in_range(old(self)@.mappings),
        ensures
            final(self).wf(),
            final(self)@.name == old(self)@.name,
            final(self)@.mappings == old(self)@.mappings,
            old(self)@.on_event(old(registry)@, event@, now) == (Outcome {
                phase: final(self)@.phase,
                connected: final(self)@.connected,
                registry: final(registry)@,
                step: r@,
            }),
            old(registry)@.consistent() ==> final(registry)@.consistent(),
    {
        let mut phase = Phase::Idle;
        std::mem::swap(&mut phase, &mut self.phase);
        match phase {
            Phase::Idle => {
                let action = self.poll(WRITES_PER_CYCLE);
                act(action)
            },
            Phase::Draining { left } => match event {
                Event::Queue(Some(request)) => self.on_request(left, registry, request, now),
                _ => {
                    let action = self.begin_reads();
                    act(action)
                },
            },
            Phase::WriteConnecting { left, write } => match event {
                Event::ConnectFailed(e) => {
                    let id = self.config.mappings[write.mapping].tag_id.as_str();
                    assert(mapping_views(self.config.mappings@)[write.mapping as int].tag_id
                        == id@);
                    let _ = registry.set_tag_quality_at(id, TagQuality::CommLost, now);
                    let reply = reply_err(
                        write.reply,
                        text::join2("Reconnect failed: ", e.message().as_str()),
                    );
                    self.failed(reply, None, DriverError::io("Reconnect failed during write"))
                },
                _ => {
                    let m = &self.config.mappings[write.mapping];
                    assert(mapping_views(self.config.mappings@)[write.mapping as int] == m@);
                    match action_for(m, &write.value) {
                        Some(action) => self.writing(left, write, action),
                        None => vstd::pervasive::unreached(),
                    }
                },
            },
            Phase::Writing { left, write } => match event {
                Event::Written(outcome) => self.on_written(left, write, registry, outcome, now),
                _ => vstd::pervasive::unreached(),
            },
            Phase::ReadConnecting => match event {
                Event::ConnectFailed(e) => act(Action::Finish(Err(e))),
                _ => {
                    self.connected = true;
                    let action = self.reading(0);
                    act(action)
                },
            },
            Phase::Reading { next } => match event {
                Event::Data(outcome) => self.on_data(next, registry, outcome, now),
                _ => vstd::pervasive::unreached(),
            },
        }
    }

    /// Take an event, as of now.
    pub fn step(&mut self, registry: &mut TagRegistry, event: Event) -> (r: Step)
        requires
            old(self).wf(),
            old(self)@.awaits(event@),
            bits_in_range(old(self)@.mappings),
        ensures
            final(self).wf(),
            final(self)@.name == old(self)@.name,
            final(self)@.mappings == old(self)@.mappings,
            exists|now: Timestamp| is_clock_reading(now) && #[trigger]
                old(self)@.on_event(old(registry)@, event@, now) == (Outcome {
                    phase: final(self)@.phase,
                    connected: final(self)@.connected,
                    registry: final(registry)@,
                    step: r@,
                }),
            old(registry)@.consistent() ==> final(registry)@.consistent(),
    {
        let now = Timestamp::now();
        self.step_at(registry, event, now)
    }

    /// Whether no cycle runs, so that one can start.
    pub fn is_idle(&self) -> (r: bool)
        ensures
            r == (self@.phase is Idle),
    {
        match self.phase {
            Phase::Idle => true,
            _ => false,
        }
    }

    /// Give up a cycle whose last action was not carried out, and the connection with it.
    pub fn abandon_cycle(&mut self)
        requires
            old(self).wf(),
        ensures
            final(self).wf(),
            final(self)@ == (ModbusDriverView {
                connected: false,
                phase: PhaseView::Idle,
                ..old(self)@
            }),
    {
        self.connected = false;
        self.phase = Phase::Idle;
    }
}

} // verus!
