//! How drivers are polled, writes are admitted and PLCs are set up.

use crate::core_model::registry::{RegistryView, TagRegistry};
use crate::core_model::tag_value::type_of;
use crate::driver_common::health::{health_view, HealthEvent, HealthEventView};
use crate::driver_common::write_request::{submit_result, Confirmation, ReplyId, SubmitError};
use crate::opcua_server::error::{ServerError, ServerErrorView};
use crate::opcua_server::writes::{WriteRequest, WriteRequestView};
use crate::runtime::health_board::{knows, plc_of, HealthBoardView};
use crate::runtime::runtime_driver::{
    wait_after_failure, PollAction, PollEventView, RuntimeDriver, RuntimeDriverView,
};
use crate::runtime::write_handler::{
    confirm_result, driver_request, enqueue_result, protocol_name, Enqueued, Route,
    RuntimeWriteHandler, WriteHandlerView,
};
use vstd::arithmetic::power2::{lemma_pow2_unfold, pow2};
use vstd::prelude::*;
use vstd::string::*;

verus! {

// ---------------------------------------------------------------------------
// Polling
// ---------------------------------------------------------------------------

/// The wait after `k` failures in a row.
pub open spec fn wait_after_failures(k: nat, max: u64) -> u64
    decreases k,
{
    if k == 0 {
        0
    } else {
        wait_after_failure(wait_after_failures((k - 1) as nat, max), max)
    }
}

/// After the first failure the wait is one second, and each further failure doubles it until it
/// reaches the longest one: after `k` failures it is 2 to the power of `k - 1`, or the longest.
pub proof fn waits_double_with_each_failure(k: nat, max: u64)
    requires
        k >= 1,
        max >= 1,
    ensures
        pow2((k - 1) as nat) <= max ==> wait_after_failures(k, max) == pow2((k - 1) as nat),
        pow2((k - 1) as nat) > max ==> wait_after_failures(k, max) == max,
    decreases k,
{
    reveal_with_fuel(wait_after_failures, 2);
    if k == 1 {
        vstd::arithmetic::power2::lemma2_to64();
    } else {
        waits_double_with_each_failure((k - 1) as nat, max);
        lemma_pow2_unfold((k - 1) as nat);
        vstd::arithmetic::power2::lemma_pow2_pos((k - 2) as nat);
    }
}

/// The wait starts anew after a cycle that ended well, grows by a failure, and stays as it is
/// otherwise.
pub proof fn wait_follows_the_cycles(d: RuntimeDriverView, message: Seq<char>)
    ensures
        d.backoff_after(PollEventView::CycleEnded(Ok(()))) == 0,
        d.backoff_secs == 0 ==> d.backoff_after(PollEventView::CycleEnded(Err(message))) == 1,
        0 < d.backoff_secs && 2 * d.backoff_secs <= d.max_backoff_secs ==> d.backoff_after(
            PollEventView::CycleEnded(Err(message)),
        ) == 2 * d.backoff_secs,
        0 < d.backoff_secs && 2 * d.backoff_secs > d.max_backoff_secs ==> d.backoff_after(
            PollEventView::CycleEnded(Err(message)),
        ) == d.max_backoff_secs,
        d.backoff_after(PollEventView::Ticked) == d.backoff_secs,
        d.backoff_after(PollEventView::Waited) == d.backoff_secs,
        d.backoff_after(PollEventView::ShutdownRequested) == d.backoff_secs,
{
}

/// A tick runs a cycle, after the wait where there is one. A cycle that ended is followed by the
/// next tick; a failure is told as the health of the PLC, and only after success are stale tags
/// looked for. A request to shut down ends the polling.
pub proof fn poller_acts_on_events(d: RuntimeDriverView, event: PollEventView)
    ensures
        ({
            let s = d.step(event);
            &&& s.action == PollAction::Exit <==> event is ShutdownRequested
            &&& s.action == PollAction::RunCycle <==> event is Waited || (event is Ticked
                && d.backoff_secs == 0)
            &&& s.action is Wait <==> event is Ticked && d.backoff_secs > 0
            &&& s.action matches PollAction::Wait(secs) ==> secs == d.backoff_secs
            &&& s.action == PollAction::AwaitTick <==> event is CycleEnded
            &&& s.after_success <==> (event matches PollEventView::CycleEnded(Ok(_)))
            &&& match event {
                PollEventView::CycleEnded(Err(m)) => s.health == Some(
                    HealthEventView { plc: d.name, status: "error"@, message: m, data: None },
                ),
                _ => s.health is None,
            }
        }),
{
}

// ---------------------------------------------------------------------------
// Writes
// ---------------------------------------------------------------------------

/// A write is admitted exactly where its tag is there with a value of the type of the new one, is
/// defined as writable, and has a driver that writes it.
pub proof fn writes_are_admitted(h: WriteHandlerView, reg: RegistryView, req: WriteRequestView)
    ensures
        h.fault(reg, req) is None <==> {
            &&& reg.store.tags.contains_key(req.tag_id)
            &&& type_of(reg.store.tags[req.tag_id].value) == type_of(req.value)
            &&& reg.definitions.contains_key(req.tag_id)
            &&& reg.definitions[req.tag_id].writable
            &&& h.routing.contains_key(req.tag_id)
        },
        h.fault(reg, req) matches Some(e) ==> e is Other,
{
}

/// A write that is refused is told the first of the reasons: no such tag, another type, no
/// definition, not writable, no driver.
pub proof fn refused_writes_are_told_why(
    h: WriteHandlerView,
    reg: RegistryView,
    req: WriteRequestView,
)
    ensures
        ({
            let id = req.tag_id;
            let there = reg.store.tags.contains_key(id);
            let fits = there && type_of(reg.store.tags[id].value) == type_of(req.value);
            let defined = fits && reg.definitions.contains_key(id);
            let writable = defined && reg.definitions[id].writable;
            &&& !there ==> h.fault(reg, req) == Some(
                ServerErrorView::Other(
                    "Runtime tag not found "@ + id + ": "@ + ("Tag not found: "@ + id),
                ),
            )
            &&& there && !fits ==> h.fault(reg, req) == Some(
                ServerErrorView::Other("Type mismatch for tag "@ + id),
            )
            &&& fits && !defined ==> h.fault(reg, req) == Some(
                ServerErrorView::Other("Tag definition not found for "@ + id),
            )
            &&& defined && !writable ==> h.fault(reg, req) == Some(
                ServerErrorView::Other("Tag "@ + id + " is not writable"@),
            )
            &&& writable && !h.routing.contains_key(id) ==> h.fault(reg, req) == Some(
                ServerErrorView::Other("No driver route for tag "@ + id),
            )
        }),
{
}

/// An admitted write goes to the driver that its tag is routed to.
pub proof fn writes_go_to_their_driver(
    h: RuntimeWriteHandler,
    registry: TagRegistry,
    req: WriteRequest,
    r: Result<Route, ServerError>,
)
    requires
        call_ensures(RuntimeWriteHandler::route_for, (&h, &registry, &req), r),
    ensures
        r is Ok <==> h@.fault(registry@, req@) is None,
        r matches Ok(route) ==> h@.routing.contains_key(req.tag_id@) && route
            == h@.routing[req.tag_id@],
{
}

/// The driver is asked to write the value of the request to its tag, and to confirm it.
pub proof fn drivers_are_asked_for_the_write(
    req: WriteRequest,
    reply: ReplyId,
    r: crate::driver_common::write_request::WriteRequest,
)
    requires
        call_ensures(driver_request, (req, reply), r),
    ensures
        r.tag_id@ == req.tag_id@,
        r.value@ == req.value@,
        r.reply == Some(reply),
{
}

/// A write is handed to its driver exactly where the driver's queue took it; else the protocol and
/// the reason are told.
pub proof fn writes_are_enqueued(route: Route, enqueued: Enqueued, r: Result<(), ServerError>)
    requires
        call_ensures(enqueue_result, (&route, enqueued), r),
    ensures
        r is Ok <==> enqueued is Done,
        r matches Err(e) ==> e@ == ServerErrorView::Other(
            match enqueued {
                Enqueued::Closed(s) => "Failed to enqueue "@ + protocol_name(route) + " write: "@
                    + s@,
                _ => "Timed out enqueuing "@ + protocol_name(route) + " write"@,
            },
        ),
{
}

/// A write succeeded exactly where its driver replied so; else the reason is told.
pub proof fn writes_are_confirmed(confirmation: Confirmation, r: Result<(), ServerError>)
    requires
        call_ensures(confirm_result, (confirmation,), r),
    ensures
        r is Ok <==> (confirmation matches Confirmation::Replied(Ok(_))),
        r matches Err(e) ==> e@ == ServerErrorView::Other(
            match confirmation {
                Confirmation::Replied(Err(s)) => "Driver reported write failure: "@ + s@,
                Confirmation::TimedOut => "Write confirmation timed out"@,
                _ => "Write confirmation channel closed"@,
            },
        ),
{
}

/// A submitted write succeeded exactly where the driver replied so; a reply that never came and one
/// that was given up are told apart.
pub proof fn submitted_writes_are_confirmed(confirmation: Confirmation, r: Result<(), SubmitError>)
    requires
        call_ensures(submit_result, (confirmation,), r),
    ensures
        r is Ok <==> (confirmation matches Confirmation::Replied(Ok(_))),
        r matches Err(e) ==> (e is TimedOut <==> confirmation is TimedOut),
        confirmation matches Confirmation::Replied(Err(s)) ==> (r matches Err(SubmitError::Failed(m))
            && m@ == s@),
{
}

/// A driver starts without a wait, not running, with waits of 30 seconds at most.
pub proof fn new_drivers_do_not_wait(name: &str, poll_interval_ms: u64, r: RuntimeDriver)
    requires
        call_ensures(RuntimeDriver::new, (name, poll_interval_ms), r),
    ensures
        r.name@ == name@,
        r.poll_interval_ms == poll_interval_ms,
        r.max_backoff_secs == 30,
        r.backoff_secs == 0,
        !r.running,
{
}

/// After a cycle that ended well the health is `ok` with what the driver says, where it says
/// something.
pub proof fn health_after_success_is_ok(
    d: RuntimeDriver,
    data: Option<serde_json::Value>,
    r: Option<HealthEvent>,
)
    requires
        call_ensures(RuntimeDriver::health_after_success, (&d, data), r),
    ensures
        r is Some <==> data is Some,
        r matches Some(e) ==> {
            &&& e.plc@ == d.name@
            &&& e.status@ == "ok"@
            &&& e.message@ == "ok"@
            &&& e.data == data
        },
{
    if let Some(e) = r {
        assert(health_view(r) == Some(e@));
    }
}

/// Routes are named after their protocol.
pub proof fn routes_are_named(n: usize)
    ensures
        protocol_name(Route::Fins(n)) == "FINS"@,
        protocol_name(Route::Modbus(n)) == "Modbus"@,
{
}

// ---------------------------------------------------------------------------
// Health
// ---------------------------------------------------------------------------

/// The board keeps the latest event of a known PLC under its name, in place of an earlier one, and
/// leaves every other PLC as it is. Events that name no known PLC change nothing.
pub proof fn board_keeps_the_latest_event(
    b: HealthBoardView,
    event: serde_json::Value,
    other: Seq<char>,
)
    ensures
        b.record(event).known == b.known,
        plc_of(event) is None ==> b.record(event) == b,
        plc_of(event) matches Some(plc) ==> {
            &&& (exists|i: int| 0 <= i < b.known.len() && #[trigger] b.known[i] == plc) ==> {
                &&& b.record(event).latest.contains_key(plc)
                &&& b.record(event).latest[plc] == event
            }
            &&& (forall|i: int| 0 <= i < b.known.len() ==> #[trigger] b.known[i] != plc)
                ==> b.record(event) == b
            &&& other != plc ==> b.record(event).latest.contains_key(other)
                == b.latest.contains_key(other)
            &&& other != plc && b.latest.contains_key(other) ==> b.record(event).latest[other]
                == b.latest[other]
        },
{
    if let Some(plc) = plc_of(event) {
        if exists|i: int| 0 <= i < b.known.len() && #[trigger] b.known[i] == plc {
            assert(knows(b.known, plc));
        }
    }
}

} // verus!
