//! Polling of a driver: backoff after failures, health events, and staleness of tags.

use crate::core_model::registry::{RegistryView, TagRegistry};
use crate::core_model::tag_definition::TagDefinitionView;
use crate::core_model::tag_definition_store::{definition_views, sorted_definitions};
use crate::core_model::tag_value::{TagQuality, TagQualityView};
use crate::driver_common;
use crate::driver_common::doubled_backoff;
use crate::driver_common::health::{health_view, HealthEvent, HealthEventView};
use crate::text;
use crate::time::{is_clock_reading, nanos_between, TimeSpan, Timestamp};
use rand::RngExt;
use vstd::prelude::*;
use vstd::string::*;

verus! {

/// Longest wait after failed cycles, in seconds.
pub const MAX_BACKOFF_SECS: u64 = 30;

/// What happened to a poller.
#[derive(Debug)]
pub enum PollEvent {
    /// The poll interval elapsed.
    Ticked,
    /// The wait after a failure is over.
    Waited,
    /// Shutdown was requested.
    ShutdownRequested,
    /// A cycle ended, well or with an error described by this text.
    CycleEnded(Result<(), String>),
}

/// What a poller does next.
#[derive(Clone, Copy, Debug, PartialEq, Eq, Structural)]
pub enum PollAction {
    /// Wait for the poll interval to elapse.
    AwaitTick,
    /// Wait for so many seconds.
    Wait(u64),
    /// Run a cycle of the driver.
    RunCycle,
    /// Stop polling.
    Exit,
}

/// What came of an event.
#[derive(Debug)]
pub struct PollStep {
    /// Health event to emit.
    pub health: Option<HealthEvent>,
    /// Whether stale tags are looked for, and the driver is asked for its health.
    pub after_success: bool,
    /// What is done next.
    pub action: PollAction,
}

/// What a [`PollEvent`] says.
#[verifier::ext_equal]
pub ghost enum PollEventView {
    Ticked,
    Waited,
    ShutdownRequested,
    CycleEnded(Result<(), Seq<char>>),
}

impl View for PollEvent {
    type V = PollEventView;

    open spec fn view(&self) -> PollEventView {
        match *self {
            PollEvent::Ticked => PollEventView::Ticked,
            PollEvent::Waited => PollEventView::Waited,
            PollEvent::ShutdownRequested => PollEventView::ShutdownRequested,
            PollEvent::CycleEnded(Ok(_)) => PollEventView::CycleEnded(Ok(())),
            PollEvent::CycleEnded(Err(s)) => PollEventView::CycleEnded(Err(s@)),
        }
    }
}

/// What a [`PollStep`] says.
#[verifier::ext_equal]
pub ghost struct PollStepView {
    pub health: Option<HealthEventView>,
    pub after_success: bool,
    pub action: PollAction,
}

impl View for PollStep {
    type V = PollStepView;

    open spec fn view(&self) -> PollStepView {
        PollStepView {
            health: health_view(self.health),
            after_success: self.after_success,
            action: self.action,
        }
    }
}

/// A driver as the runtime polls it.
#[derive(Debug)]
pub struct RuntimeDriver {
    /// Name of the PLC.
    pub name: String,
    /// Poll interval in milliseconds.
    pub poll_interval_ms: u64,
    /// Longest wait after failed cycles, in seconds.
    pub max_backoff_secs: u64,
    /// Wait before the next cycle, in seconds.
    pub backoff_secs: u64,
    /// Whether the poller runs.
    pub running: bool,
}

/// What a [`RuntimeDriver`] says.
#[verifier::ext_equal]
pub ghost struct RuntimeDriverView {
    pub name: Seq<char>,
    pub poll_interval_ms: u64,
    pub max_backoff_secs: u64,
    pub backoff_secs: u64,
    pub running: bool,
}

impl View for RuntimeDriver {
    type V = RuntimeDriverView;

    open spec fn view(&self) -> RuntimeDriverView {
        RuntimeDriverView {
            name: self.name@,
            poll_interval_ms: self.poll_interval_ms,
            max_backoff_secs: self.max_backoff_secs,
            backoff_secs: self.backoff_secs,
            running: self.running,
        }
    }
}

/// The wait after a failed cycle: one second after the first failure, then twice as long each
/// time, up to `max`.
pub open spec fn wait_after_failure(secs: u64, max: u64) -> u64 {
    if secs == 0 {
        driver_common::FIRST_BACKOFF_SECS
    } else {
        doubled_backoff(secs, max)
    }
}

impl RuntimeDriverView {
    /// The wait before the next cycle, after an event.
    pub open spec fn backoff_after(self, event: PollEventView) -> u64 {
        match event {
            PollEventView::CycleEnded(Ok(_)) => 0,
            PollEventView::CycleEnded(Err(_)) => wait_after_failure(
                self.backoff_secs,
                self.max_backoff_secs,
            ),
            _ => self.backoff_secs,
        }
    }

    /// The step that an event asks for.
    pub open spec fn step(self, event: PollEventView) -> PollStepView {
        let plain = PollStepView {
            health: None,
            after_success: false,
            action: PollAction::AwaitTick,
        };
        match event {
            PollEventView::Ticked => PollStepView {
                action: if self.backoff_secs > 0 {
                    PollAction::Wait(self.backoff_secs)
                } else {
                    PollAction::RunCycle
                },
                ..plain
            },
            PollEventView::Waited => PollStepView { action: PollAction::RunCycle, ..plain },
            PollEventView::ShutdownRequested => PollStepView { action: PollAction::Exit, ..plain },
            PollEventView::CycleEnded(Ok(_)) => PollStepView { after_success: true, ..plain },
            PollEventView::CycleEnded(Err(s)) => PollStepView {
                health: Some(HealthEventView::of(self.name, "error"@, s)),
                ..plain
            },
        }
    }
}

impl RuntimeDriver {
    /// A driver that is not polled yet.
    pub fn new(name: &str, poll_interval_ms: u64) -> (r: RuntimeDriver)
        ensures
            r@ == (RuntimeDriverView {
                name: name@,
                poll_interval_ms,
                max_backoff_secs: MAX_BACKOFF_SECS,
                backoff_secs: 0,
                running: false,
            }),
    {
        RuntimeDriver {
            name: name.to_owned(),
            poll_interval_ms,
            max_backoff_secs: MAX_BACKOFF_SECS,
            backoff_secs: 0,
            running: false,
        }
    }

    /// Start polling: the milliseconds to wait before the first poll, or nothing where the poller
    /// runs already.
    pub fn start(&mut self) -> (r: Option<u64>)
        ensures
            old(self)@.running ==> r is None && final(self)@ == old(self)@,
            !old(self)@.running ==> {
                &&& final(self)@ == (RuntimeDriverView {
                    running: true,
                    backoff_secs: 0,
                    ..old(self)@
                })
                &&& r matches Some(ms) && (ms < old(self)@.poll_interval_ms || (ms == 0
                    && old(self)@.poll_interval_ms == 0))
            },
    {
        if self.running {
            return None;
        }
        self.running = true;
        self.backoff_secs = 0;
        Some(
            if self.poll_interval_ms > 0 {
                random_below(self.poll_interval_ms)
            } else {
                0
            },
        )
    }

    /// Stop polling: whether the poller ran.
    pub fn stop(&mut self) -> (r: bool)
        ensures
            r == old(self)@.running,
            final(self)@ == (RuntimeDriverView { running: false, ..old(self)@ }),
    {
        let ran = self.running;
        self.running = false;
        ran
    }

    /// Take an event.
    pub fn poll(&mut self, event: PollEvent) -> (r: PollStep)
        ensures
            r@ == old(self)@.step(event@),
            final(self)@ == (RuntimeDriverView {
                backoff_secs: old(self)@.backoff_after(event@),
                ..old(self)@
            }),
    {
        match event {
            PollEvent::Ticked => PollStep {
                health: None,
                after_success: false,
                action: if self.backoff_secs > 0 {
                    PollAction::Wait(self.backoff_secs)
                } else {
                    PollAction::RunCycle
                },
            },
            PollEvent::Waited => PollStep {
                health: None,
                after_success: false,
                action: PollAction::RunCycle,
            },
            PollEvent::ShutdownRequested => PollStep {
                health: None,
                after_success: false,
                action: PollAction::Exit,
            },
            PollEvent::CycleEnded(Ok(_)) => {
                self.backoff_secs = 0;
                PollStep { health: None, after_success: true, action: PollAction::AwaitTick }
            },
            PollEvent::CycleEnded(Err(message)) => {
                self.backoff_secs = if self.backoff_secs == 0 {
                    driver_common::FIRST_BACKOFF_SECS
                } else {
                    driver_common::next_backoff(self.backoff_secs, self.max_backoff_secs)
                };
                let event = HealthEvent {
                    plc: self.name.clone(),
                    status: "error".to_owned(),
                    message,
                    data: None,
                };
                PollStep {
                    health: Some(event),
                    after_success: false,
                    action: PollAction::AwaitTick,
                }
            },
        }
    }

    /// The health event after a cycle that ended well, where the driver has something to say.
    pub fn health_after_success(&self, data: Option<serde_json::Value>) -> (r: Option<HealthEvent>)
        ensures
            health_view(r) == (match data {
                Some(d) => Some(
                    HealthEventView { data: Some(d), ..HealthEventView::of(self.name@, "ok"@, "ok"@) },
                ),
                None => None,
            }),
    {
        match data {
            Some(d) => Some(
                HealthEvent {
                    plc: self.name.clone(),
                    status: "ok".to_owned(),
                    message: "ok".to_owned(),
                    data: Some(d),
                },
            ),
            None => None,
        }
    }
}

/// The wait never exceeds the longest one, once that is a second at least.
pub proof fn wait_is_bounded(d: RuntimeDriverView, event: PollEventView)
    requires
        1 <= d.max_backoff_secs,
        d.backoff_secs <= d.max_backoff_secs,
    ensures
        d.backoff_after(event) <= d.max_backoff_secs,
{
}

/// A failure never shortens the wait, and leaves no driver without one.
pub proof fn failures_lengthen_the_wait(d: RuntimeDriverView, message: Seq<char>)
    requires
        1 <= d.max_backoff_secs,
        d.backoff_secs <= d.max_backoff_secs,
    ensures
        d.backoff_after(PollEventView::CycleEnded(Err(message))) >= d.backoff_secs,
        d.backoff_after(PollEventView::CycleEnded(Err(message))) > 0,
{
}

// ---------------------------------------------------------------------------
// Staleness
// ---------------------------------------------------------------------------

/// The time that a tag may go without a value, where its definition sets one.
pub open spec fn stale_after(d: TagDefinitionView) -> Option<TimeSpan> {
    match d.stale_after_ms {
        Some(ms) => Some(TimeSpan { nanos: (ms * 1_000_000) as i128 }),
        None => None,
    }
}

/// Whether a tag of the PLC is past its time at `now`.
pub open spec fn is_overdue(
    reg: RegistryView,
    d: TagDefinitionView,
    plc: Seq<char>,
    now: Timestamp,
) -> bool {
    &&& d.plc_name == plc
    &&& stale_after(d) is Some
    &&& reg.has_tag(d.id)
    &&& reg.store.tags[d.id].stale(stale_after(d)->0, now)
}

/// The registry after tags of a PLC that are past their time were marked stale; one that is stale
/// already stays as it is.
pub open spec fn with_stale_marked(
    reg: RegistryView,
    defs: Seq<TagDefinitionView>,
    plc: Seq<char>,
    now: Timestamp,
) -> RegistryView
    decreases defs.len(),
{
    if defs.len() == 0 {
        reg
    } else {
        let rest = with_stale_marked(reg, defs.drop_last(), plc, now);
        let d = defs.last();
        if is_overdue(rest, d, plc, now) && rest.store.tags[d.id].quality != TagQualityView::Stale {
            rest.set_quality(d.id, TagQualityView::Stale, now)
        } else {
            rest
        }
    }
}

/// Mark the tags of a PLC that are past their time as stale, as of `now`.
pub fn check_stale_tags_at(plc_name: &str, registry: &mut TagRegistry, now: Timestamp)
    ensures
        final(registry)@ == with_stale_marked(
            old(registry)@,
            sorted_definitions(old(registry)@.definitions),
            plc_name@,
            now,
        ),
        old(registry)@.consistent() ==> final(registry)@.consistent(),
{
    let defs = registry.all_definitions_sorted();
    let ghost before = registry@;
    let ghost views = definition_views(defs@);
    let mut i: usize = 0;
    while i < defs.len()
        invariant
            i <= defs@.len(),
            before == old(registry)@,
            views == definition_views(defs@),
            registry@ == with_stale_marked(before, views.take(i as int), plc_name@, now),
            before.consistent() ==> registry@.consistent(),
        decreases defs@.len() - i,
    {
        let def = &defs[i];
        proof {
            assert(views.take(i + 1).drop_last() =~= views.take(i as int));
            assert(views.take(i + 1).last() == def@);
        }
        if text::same(def.plc_name.as_str(), plc_name) {
            match def.stale_after_ms() {
                Some(ms) => {
                    let timeout = TimeSpan { nanos: ms as i128 * 1_000_000 };
                    let mark = match registry.get_tag(def.id_str()) {
                        Ok(tag) => tag.is_stale_at(timeout, now) && !is_stale_quality(
                            &tag.quality,
                        ),
                        Err(_) => false,
                    };
                    if mark {
                        let _ = registry.set_tag_quality_at(def.id_str(), TagQuality::Stale, now);
                    }
                },
                None => {},
            }
        }
        i = i + 1;
    }
    assert(views.take(i as int) =~= views);
}

fn is_stale_quality(q: &TagQuality) -> (r: bool)
    ensures
        r == (q@ == TagQualityView::Stale),
{
    match q {
        TagQuality::Stale => true,
        _ => false,
    }
}

/// Mark the tags of a PLC that are past their time as stale, as of now.
pub fn check_stale_tags(plc_name: &str, registry: &mut TagRegistry)
    ensures
        exists|now: Timestamp| is_clock_reading(now) &&
            final(registry)@ == #[trigger] with_stale_marked(
                old(registry)@,
                sorted_definitions(old(registry)@.definitions),
                plc_name@,
                now,
            ),
        old(registry)@.consistent() ==> final(registry)@.consistent(),
{
    let now = Timestamp::now();
    check_stale_tags_at(plc_name, registry, now);
}

/// Marking changes nothing but qualities, to stale, and server timestamps.
pub proof fn marking_keeps_values(
    reg: RegistryView,
    defs: Seq<TagDefinitionView>,
    plc: Seq<char>,
    now: Timestamp,
)
    ensures
        ({
            let after = with_stale_marked(reg, defs, plc, now);
            &&& after.definitions == reg.definitions
            &&& after.store.tags.dom() == reg.store.tags.dom()
            &&& forall|id: Seq<char>| #[trigger]
                reg.has_tag(id) ==> {
                    &&& after.store.tags[id].value == reg.store.tags[id].value
                    &&& after.store.tags[id].source_timestamp
                        == reg.store.tags[id].source_timestamp
                    &&& after.store.tags[id] == reg.store.tags[id]
                        || after.store.tags[id].quality == TagQualityView::Stale
                    &&& reg.store.tags[id].quality == TagQualityView::Stale
                        ==> after.store.tags[id] == reg.store.tags[id]
                }
        }),
    decreases defs.len(),
{
    if defs.len() > 0 {
        let rest = with_stale_marked(reg, defs.drop_last(), plc, now);
        marking_keeps_values(reg, defs.drop_last(), plc, now);
        let after = with_stale_marked(reg, defs, plc, now);
        assert(after.store.tags.dom() =~= reg.store.tags.dom());
        assert forall|id: Seq<char>| #[trigger] reg.has_tag(id) implies {
            &&& after.store.tags[id].value == reg.store.tags[id].value
            &&& after.store.tags[id].source_timestamp == reg.store.tags[id].source_timestamp
            &&& after.store.tags[id] == reg.store.tags[id] || after.store.tags[id].quality
                == TagQualityView::Stale
            &&& reg.store.tags[id].quality == TagQualityView::Stale ==> after.store.tags[id]
                == reg.store.tags[id]
        } by {
            assert(rest.has_tag(id));
        }
    }
}

/// After the check every tag of the PLC that is past its time is stale.
pub proof fn overdue_tags_are_stale(
    reg: RegistryView,
    defs: Seq<TagDefinitionView>,
    plc: Seq<char>,
    now: Timestamp,
    i: int,
)
    requires
        0 <= i < defs.len(),
        is_overdue(reg, defs[i], plc, now),
    ensures
        with_stale_marked(reg, defs, plc, now).store.tags[defs[i].id].quality
            == TagQualityView::Stale,
    decreases defs.len(),
{
    let rest = with_stale_marked(reg, defs.drop_last(), plc, now);
    marking_keeps_values(reg, defs.drop_last(), plc, now);
    assert(reg.has_tag(defs[i].id));
    if i < defs.len() - 1 {
        overdue_tags_are_stale(reg, defs.drop_last(), plc, now, i);
        assert(defs.drop_last()[i] == defs[i]);
    }
}

/// A tag is past its time exactly where its source timestamp is older than the threshold of its
/// definition, however long that is, or lies in the future.
pub proof fn overdue_tags_are_older_than_their_threshold(
    reg: RegistryView,
    d: TagDefinitionView,
    plc: Seq<char>,
    now: Timestamp,
)
    requires
        d.plc_name == plc,
        reg.has_tag(d.id),
    ensures
        is_overdue(reg, d, plc, now) <==> {
            let age = nanos_between(now, reg.store.tags[d.id].source_timestamp);
            &&& d.stale_after_ms is Some
            &&& age < 0 || age > d.stale_after_ms->0 * 1_000_000
        },
{
}

/// A tag that no definition of the PLC calls overdue is left alone.
pub proof fn other_tags_are_left_alone(
    reg: RegistryView,
    defs: Seq<TagDefinitionView>,
    plc: Seq<char>,
    now: Timestamp,
    id: Seq<char>,
)
    requires
        reg.has_tag(id),
        forall|i: int|
            0 <= i < defs.len() && (#[trigger] defs[i]).id == id ==> !is_overdue(
                reg,
                defs[i],
                plc,
                now,
            ),
    ensures
        with_stale_marked(reg, defs, plc, now).store.tags[id] == reg.store.tags[id],
    decreases defs.len(),
{
    if defs.len() > 0 {
        let rest = defs.drop_last();
        assert forall|i: int| 0 <= i < rest.len() && (#[trigger] rest[i]).id == id implies !is_overdue(
            reg,
            rest[i],
            plc,
            now,
        ) by {
            assert(rest[i] == defs[i]);
        }
        other_tags_are_left_alone(reg, rest, plc, now, id);
        marking_keeps_values(reg, rest, plc, now);
        assert(defs[defs.len() - 1] == defs.last());
    }
}

// ---------------------------------------------------------------------------
// Calls into rand
// ---------------------------------------------------------------------------

/// `random_range` of `rand::RngExt`, drawn from `rand::rng`: some number below `bound`. It panics
/// where the system has no source of randomness to seed the generator from, which no argument can
/// rule out.
#[verifier::external_body]
fn random_below(bound: u64) -> (r: u64)
    requires
        bound > 0,
    ensures
        r < bound,
{
    rand::rng().random_range(0..bound)
}

/// A tag of the PLC that is past its time and not stale yet is stale after the check, as of the time
/// of the check, and keeps its value and source time.
pub proof fn tags_are_marked_as_of_the_check(
    reg: RegistryView,
    defs: Seq<TagDefinitionView>,
    plc: Seq<char>,
    now: Timestamp,
    i: int,
)
    requires
        0 <= i < defs.len(),
        is_overdue(reg, defs[i], plc, now),
        reg.store.tags[defs[i].id].quality != TagQualityView::Stale,
    ensures
        ({
            let t = with_stale_marked(reg, defs, plc, now).store.tags[defs[i].id];
            &&& t.quality == TagQualityView::Stale
            &&& t.server_timestamp == now
            &&& t.value == reg.store.tags[defs[i].id].value
            &&& t.source_timestamp == reg.store.tags[defs[i].id].source_timestamp
        }),
    decreases defs.len(),
{
    let front = defs.drop_last();
    let id = defs[i].id;
    marking_keeps_values(reg, front, plc, now);
    assert(reg.has_tag(id));
    marking_sets_the_time(reg, front, plc, now, id);
    if i < defs.len() - 1 {
        assert(front[i] == defs[i]);
        tags_are_marked_as_of_the_check(reg, front, plc, now, i);
    }
}

proof fn marking_sets_the_time(
    reg: RegistryView,
    defs: Seq<TagDefinitionView>,
    plc: Seq<char>,
    now: Timestamp,
    id: Seq<char>,
)
    requires
        reg.has_tag(id),
    ensures
        ({
            let after = with_stale_marked(reg, defs, plc, now);
            after.store.tags[id] == reg.store.tags[id] || after.store.tags[id].server_timestamp
                == now
        }),
    decreases defs.len(),
{
    if defs.len() > 0 {
        marking_sets_the_time(reg, defs.drop_last(), plc, now, id);
    }
}

} // verus!
