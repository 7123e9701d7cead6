//! Writes of OPC UA clients: checked, routed to a driver, and confirmed.

use crate::core_model::error::{core_error_text, CoreErrorView};
use crate::core_model::registry::{RegistryView, TagRegistry};
use crate::core_model::sorted_map::SortedMap;
use crate::core_model::tag_value::type_of;
use crate::driver_common::write_request::{Confirmation, ReplyId};
use crate::opcua_server::error::{ServerError, ServerErrorView};
use crate::opcua_server::writes::{WriteRequest, WriteRequestView};
use crate::runtime::config::TagConfig;
use crate::text;
use vstd::prelude::*;
use vstd::string::*;

verus! {

/// Timeout of handing a write to a driver where none is set, in milliseconds.
pub const DEFAULT_SEND_TIMEOUT_MS: u64 = 2000;

/// The driver that writes a tag: its protocol, and its number among the drivers of the protocol.
#[derive(Clone, Copy, Debug, PartialEq, Eq, Structural)]
pub enum Route {
    Fins(usize),
    Modbus(usize),
}

/// Name of the protocol of a route.
pub open spec fn protocol_name(route: Route) -> Seq<char> {
    match route {
        Route::Fins(_) => "FINS"@,
        Route::Modbus(_) => "Modbus"@,
    }
}

fn name_of_protocol(route: &Route) -> (r: &'static str)
    ensures
        r@ == protocol_name(*route),
{
    match route {
        Route::Fins(_) => "FINS",
        Route::Modbus(_) => "Modbus",
    }
}

/// Checks writes, routes them to drivers, and says what their confirmation means.
pub struct RuntimeWriteHandler {
    routing: SortedMap<Route>,
    confirm_timeout_ms: u64,
    driver_send_timeout_ms: u64,
}

/// What a [`RuntimeWriteHandler`] knows.
#[verifier::ext_equal]
pub ghost struct WriteHandlerView {
    /// Drivers, by tag id.
    pub routing: Map<Seq<char>, Route>,
    /// How long a driver's confirmation is awaited, in milliseconds.
    pub confirm_timeout_ms: u64,
    /// How long handing a write to a driver may take, in milliseconds.
    pub driver_send_timeout_ms: u64,
}

impl WriteHandlerView {
    /// Why a write is refused: the tag does not exist, the value has another type than the tag
    /// holds, the tag is not writable, or no driver writes it.
    pub open spec fn fault(self, reg: RegistryView, req: WriteRequestView) -> Option<
        ServerErrorView,
    > {
        let id = req.tag_id;
        if !reg.has_tag(id) {
            Some(
                ServerErrorView::Other(
                    "Runtime tag not found "@ + id + ": "@ + core_error_text(
                        CoreErrorView::TagNotFound(id),
                    ),
                ),
            )
        } else if type_of(reg.store.tags[id].value) != type_of(req.value) {
            Some(ServerErrorView::Other("Type mismatch for tag "@ + id))
        } else if !reg.definitions.contains_key(id) {
            Some(ServerErrorView::Other("Tag definition not found for "@ + id))
        } else if !reg.definitions[id].writable {
            Some(ServerErrorView::Other("Tag "@ + id + " is not writable"@))
        } else if !self.routing.contains_key(id) {
            Some(ServerErrorView::Other("No driver route for tag "@ + id))
        } else {
            None
        }
    }

    /// The handler after routes of tags were added.
    pub open spec fn with_routes(self, tags: Seq<TagConfig>, route: Route) -> WriteHandlerView
        decreases tags.len(),
    {
        if tags.len() == 0 {
            self
        } else {
            let rest = self.with_routes(tags.drop_last(), route);
            WriteHandlerView { routing: rest.routing.insert(tags.last().id@, route), ..rest }
        }
    }
}

impl View for RuntimeWriteHandler {
    type V = WriteHandlerView;

    closed spec fn view(&self) -> WriteHandlerView {
        WriteHandlerView {
            routing: self.routing@,
            confirm_timeout_ms: self.confirm_timeout_ms,
            driver_send_timeout_ms: self.driver_send_timeout_ms,
        }
    }
}

impl RuntimeWriteHandler {
    /// A handler without routes.
    pub fn new(confirm_timeout_ms: u64) -> (r: RuntimeWriteHandler)
        ensures
            r@ == (WriteHandlerView {
                routing: Map::empty(),
                confirm_timeout_ms,
                driver_send_timeout_ms: DEFAULT_SEND_TIMEOUT_MS,
            }),
    {
        RuntimeWriteHandler {
            routing: SortedMap::new(),
            confirm_timeout_ms,
            driver_send_timeout_ms: DEFAULT_SEND_TIMEOUT_MS,
        }
    }

    /// The handler with another timeout of handing a write to a driver.
    pub fn with_driver_send_timeout(self, timeout_ms: u64) -> (r: RuntimeWriteHandler)
        ensures
            r@ == (WriteHandlerView { driver_send_timeout_ms: timeout_ms, ..self@ }),
    {
        RuntimeWriteHandler {
            routing: self.routing,
            confirm_timeout_ms: self.confirm_timeout_ms,
            driver_send_timeout_ms: timeout_ms,
        }
    }

    /// How long a driver's confirmation is awaited, in milliseconds.
    pub fn confirm_timeout_ms(&self) -> (r: u64)
        ensures
            r == self@.confirm_timeout_ms,
    {
        self.confirm_timeout_ms
    }

    /// How long handing a write to a driver may take, in milliseconds.
    pub fn driver_send_timeout_ms(&self) -> (r: u64)
        ensures
            r == self@.driver_send_timeout_ms,
    {
        self.driver_send_timeout_ms
    }

    fn add_route(&mut self, tag_id: String, route: Route)
        ensures
            final(self)@ == (WriteHandlerView {
                routing: old(self)@.routing.insert(tag_id@, route),
                ..old(self)@
            }),
    {
        self.routing.insert(tag_id, route);
    }

    /// Let a FINS driver write a tag.
    pub fn add_route_for_fins(&mut self, tag_id: String, driver: usize)
        ensures
            final(self)@ == (WriteHandlerView {
                routing: old(self)@.routing.insert(tag_id@, Route::Fins(driver)),
                ..old(self)@
            }),
    {
        self.add_route(tag_id, Route::Fins(driver));
    }

    /// Let a Modbus driver write a tag.
    pub fn add_route_for_modbus(&mut self, tag_id: String, driver: usize)
        ensures
            final(self)@ == (WriteHandlerView {
                routing: old(self)@.routing.insert(tag_id@, Route::Modbus(driver)),
                ..old(self)@
            }),
    {
        self.add_route(tag_id, Route::Modbus(driver));
    }

    /// Let a driver write all tags of a PLC.
    pub fn add_routes(&mut self, tags: &Vec<TagConfig>, route: Route)
        ensures
            final(self)@ == old(self)@.with_routes(tags@, route),
    {
        let ghost before = self@;
        let mut i: usize = 0;
        while i < tags.len()
            invariant
                i <= tags@.len(),
                before == old(self)@,
                self@ == before.with_routes(tags@.take(i as int), route),
            decreases tags@.len() - i,
        {
            proof {
                assert(tags@.take(i + 1).drop_last() =~= tags@.take(i as int));
                assert(tags@.take(i + 1).last() == tags@[i as int]);
            }
            self.add_route(tags[i].id.clone(), route);
            i = i + 1;
        }
        assert(tags@.take(i as int) =~= tags@);
    }

    /// The driver that takes a write, or why the write is refused.
    pub fn route_for(&self, registry: &TagRegistry, req: &WriteRequest) -> (r: Result<
        Route,
        ServerError,
    >)
        ensures
            match r {
                Ok(route) => {
                    &&& self@.fault(registry@, req@) is None
                    &&& route == self@.routing[req@.tag_id]
                },
                Err(e) => self@.fault(registry@, req@) == Some(e@),
            },
    {
        let id = req.tag_id.as_str();
        match registry.tags().get(id) {
            Ok(tag) => {
                if tag.value.data_type() != req.value.data_type() {
                    return Err(ServerError::Other(text::join2("Type mismatch for tag ", id)));
                }
            },
            Err(e) => {
                let mut m = text::join3("Runtime tag not found ", id, ": ");
                m.append(e.message().as_str());
                return Err(ServerError::Other(m));
            },
        }
        match registry.get_definition(id) {
            Ok(def) => {
                if !def.writable {
                    return Err(ServerError::Other(text::join3("Tag ", id, " is not writable")));
                }
            },
            Err(_) => {
                return Err(ServerError::Other(text::join2("Tag definition not found for ", id)));
            },
        }
        match self.routing.get(id) {
            Some(route) => Ok(*route),
            None => Err(ServerError::Other(text::join2("No driver route for tag ", id))),
        }
    }
}

/// The request to a driver for an admitted write, whose confirmation goes to `reply`.
pub fn driver_request(req: WriteRequest, reply: ReplyId) -> (r:
    crate::driver_common::write_request::WriteRequest)
    ensures
        r@.tag_id == req@.tag_id,
        r@.value == req@.value,
        r@.reply == Some(reply),
{
    crate::driver_common::write_request::WriteRequest {
        tag_id: req.tag_id,
        value: req.value,
        reply: Some(reply),
    }
}

/// What became of handing a write to a driver.
#[derive(Debug)]
pub enum Enqueued {
    /// The driver will take it.
    Done,
    /// The driver takes no writes any more, described by this text.
    Closed(String),
    /// The driver's queue stayed full.
    TimedOut,
}

/// Whether a write was handed to a driver.
pub fn enqueue_result(route: &Route, enqueued: Enqueued) -> (r: Result<(), ServerError>)
    ensures
        match enqueued {
            Enqueued::Done => r is Ok,
            Enqueued::Closed(s) => r matches Err(e) && e@ == ServerErrorView::Other(
                "Failed to enqueue "@ + protocol_name(*route) + " write: "@ + s@,
            ),
            Enqueued::TimedOut => r matches Err(e) && e@ == ServerErrorView::Other(
                "Timed out enqueuing "@ + protocol_name(*route) + " write"@,
            ),
        },
{
    let protocol = name_of_protocol(route);
    match enqueued {
        Enqueued::Done => Ok(()),
        Enqueued::Closed(s) => {
            let mut m = text::join3("Failed to enqueue ", protocol, " write: ");
            m.append(s.as_str());
            Err(ServerError::Other(m))
        },
        Enqueued::TimedOut => Err(
            ServerError::Other(text::join3("Timed out enqueuing ", protocol, " write")),
        ),
    }
}

/// What a write came to, by what became of the driver's confirmation.
pub fn confirm_result(confirmation: Confirmation) -> (r: Result<(), ServerError>)
    ensures
        match confirmation {
            Confirmation::Replied(Ok(_)) => r is Ok,
            Confirmation::Replied(Err(s)) => r matches Err(e) && e@ == ServerErrorView::Other(
                "Driver reported write failure: "@ + s@,
            ),
            Confirmation::Closed => r matches Err(e) && e@ == ServerErrorView::Other(
                "Write confirmation channel closed"@,
            ),
            Confirmation::TimedOut => r matches Err(e) && e@ == ServerErrorView::Other(
                "Write confirmation timed out"@,
            ),
        },
{
    match confirmation {
        Confirmation::Replied(Ok(_)) => Ok(()),
        Confirmation::Replied(Err(s)) => Err(
            ServerError::Other(text::join2("Driver reported write failure: ", s.as_str())),
        ),
        Confirmation::Closed => Err(
            ServerError::Other("Write confirmation channel closed".to_owned()),
        ),
        Confirmation::TimedOut => Err(
            ServerError::Other("Write confirmation timed out".to_owned()),
        ),
    }
}

/// A write that is admitted is one that the registry accepts: of a tag that is writable, and of
/// the type that the tag has.
pub proof fn admitted_write_is_accepted(
    h: WriteHandlerView,
    reg: RegistryView,
    req: WriteRequestView,
)
    requires
        reg.consistent(),
        h.fault(reg, req) is None,
    ensures
        reg.update_fault(req.tag_id, req.value) is None,
        reg.definitions[req.tag_id].writable,
        h.routing.contains_key(req.tag_id),
{
    assert(reg.store.tags.dom().contains(req.tag_id));
}

/// Every tag of a PLC is routed to its driver, and no other tag's route changes.
pub proof fn tags_are_routed(h: WriteHandlerView, tags: Seq<TagConfig>, route: Route)
    ensures
        forall|i: int|
            0 <= i < tags.len() ==> h.with_routes(tags, route).routing.contains_key(
                (#[trigger] tags[i]).id@,
            ) && h.with_routes(tags, route).routing[tags[i].id@] == route,
        forall|id: Seq<char>|
            (forall|i: int| 0 <= i < tags.len() ==> (#[trigger] tags[i]).id@ != id) ==> {
                &&& #[trigger] h.with_routes(tags, route).routing.contains_key(id)
                    == h.routing.contains_key(id)
                &&& h.routing.contains_key(id) ==> h.with_routes(tags, route).routing[id]
                    == h.routing[id]
            },
    decreases tags.len(),
{
    if tags.len() > 0 {
        let rest = tags.drop_last();
        tags_are_routed(h, rest, route);
        let after = h.with_routes(tags, route).routing;
        assert forall|i: int| 0 <= i < tags.len() implies after.contains_key(
            (#[trigger] tags[i]).id@,
        ) && after[tags[i].id@] == route by {
            if i < rest.len() {
                assert(rest[i] == tags[i]);
            }
        }
        assert forall|id: Seq<char>|
            (forall|i: int| 0 <= i < tags.len() ==> (#[trigger] tags[i]).id@ != id) implies {
            &&& #[trigger] after.contains_key(id) == h.routing.contains_key(id)
            &&& h.routing.contains_key(id) ==> after[id] == h.routing[id]
        } by {
            assert(tags[tags.len() - 1].id@ != id);
            assert forall|i: int| 0 <= i < rest.len() implies (#[trigger] rest[i]).id@ != id by {
                assert(rest[i] == tags[i]);
            }
            let middle = h.with_routes(rest, route).routing;
            assert(middle.contains_key(id) == h.routing.contains_key(id));
        }
    }
}

} // verus!
