//! Health events of PLC connections.

use crate::core_model::json::{
    insert_member, is_null_value, json_null, json_object, json_text, member_of, new_members, text_of,
};
use vstd::prelude::*;
use vstd::string::*;

verus! {

/// An event about the health of a PLC connection.
#[derive(Debug)]
pub struct HealthEvent {
    /// Name of the PLC.
    pub plc: String,
    /// Status word, such as `ok` or `error`.
    pub status: String,
    /// What happened.
    pub message: String,
    /// Further data, if any.
    pub data: Option<serde_json::Value>,
}

/// What a [`HealthEvent`] says.
#[verifier::ext_equal]
pub ghost struct HealthEventView {
    pub plc: Seq<char>,
    pub status: Seq<char>,
    pub message: Seq<char>,
    pub data: Option<serde_json::Value>,
}

impl View for HealthEvent {
    type V = HealthEventView;

    open spec fn view(&self) -> HealthEventView {
        HealthEventView {
            plc: self.plc@,
            status: self.status@,
            message: self.message@,
            data: self.data,
        }
    }
}

impl HealthEventView {
    /// The event of a status with a message and no further data.
    pub open spec fn of(plc: Seq<char>, status: Seq<char>, message: Seq<char>) -> HealthEventView {
        HealthEventView { plc, status, message, data: None }
    }
}

/// What a health event that may be absent says.
pub open spec fn health_view(h: Option<HealthEvent>) -> Option<HealthEventView> {
    match h {
        Some(e) => Some(e@),
        None => None,
    }
}

/// The event of a status; without a detail the status is the message.
pub fn health_event(plc: &str, status: &str, detail: Option<String>) -> (r: HealthEvent)
    ensures
        r@ == HealthEventView::of(
            plc@,
            status@,
            match detail {
                Some(d) => d@,
                None => status@,
            },
        ),
{
    HealthEvent {
        plc: plc.to_owned(),
        status: status.to_owned(),
        message: match detail {
            Some(d) => d,
            None => status.to_owned(),
        },
        data: None,
    }
}

/// `v` is the JSON object of a health event: the name of the PLC, the status, and a detail object
/// with the message and the further data, which is null where there is none.
pub open spec fn is_health_json(v: serde_json::Value, e: HealthEventView) -> bool {
    &&& forall|k: Seq<char>|
        (#[trigger] member_of(v, k)) is Some <==> k == "plc"@ || k == "status"@ || k == "detail"@
    &&& text_of(member_of(v, "plc"@)->0) == Some(e.plc)
    &&& text_of(member_of(v, "status"@)->0) == Some(e.status)
    &&& is_detail_json(member_of(v, "detail"@)->0, e)
}

/// `v` is the detail object of a health event.
pub open spec fn is_detail_json(v: serde_json::Value, e: HealthEventView) -> bool {
    &&& forall|k: Seq<char>|
        (#[trigger] member_of(v, k)) is Some <==> k == "message"@ || k == "data"@
    &&& text_of(member_of(v, "message"@)->0) == Some(e.message)
    &&& match e.data {
        Some(d) => member_of(v, "data"@) == Some(d),
        None => is_null_value(member_of(v, "data"@)->0),
    }
}

impl HealthEvent {
    /// The event as a JSON object.
    pub fn to_json(self) -> (r: serde_json::Value)
        ensures
            is_health_json(r, self@),
    {
        proof {
            reveal_strlit("plc");
            reveal_strlit("status");
            reveal_strlit("detail");
            reveal_strlit("message");
            reveal_strlit("data");
            assert("plc"@.len() == 3 && "status"@.len() == 6 && "detail"@.len() == 6);
            assert("message"@.len() == 7 && "data"@.len() == 4);
            assert("status"@[0] == 's' && "detail"@[0] == 'd');
        }
        let data = match self.data {
            Some(d) => d,
            None => json_null(),
        };
        let mut detail = new_members();
        insert_member(&mut detail, "message", json_text(self.message.as_str()));
        insert_member(&mut detail, "data", data);
        let mut event = new_members();
        insert_member(&mut event, "plc", json_text(self.plc.as_str()));
        insert_member(&mut event, "status", json_text(self.status.as_str()));
        insert_member(&mut event, "detail", json_object(detail));
        json_object(event)
    }
}

/// A health event as JSON names its PLC, its status and its message, each as a text of its own, and
/// has nothing besides them but its data.
pub proof fn events_are_told_in_full(e: HealthEvent, v: serde_json::Value)
    requires
        call_ensures(HealthEvent::to_json, (e,), v),
    ensures
        text_of(member_of(v, "plc"@)->0) == Some(e.plc@),
        text_of(member_of(v, "status"@)->0) == Some(e.status@),
        text_of(member_of(member_of(v, "detail"@)->0, "message"@)->0) == Some(e.message@),
        e.data matches Some(d) ==> member_of(member_of(v, "detail"@)->0, "data"@) == Some(d),
        e.data is None ==> is_null_value(member_of(member_of(v, "detail"@)->0, "data"@)->0),
        forall|k: Seq<char>|
            (#[trigger] member_of(v, k)) is Some ==> k == "plc"@ || k == "status"@ || k == "detail"@,
{
}

/// An event without a detail has its status for its message.
pub proof fn status_stands_for_the_message(
    plc: &str,
    status: &str,
    detail: Option<String>,
    r: HealthEvent,
)
    requires
        call_ensures(health_event, (plc, status, detail), r),
    ensures
        r.plc@ == plc@,
        r.status@ == status@,
        detail is None ==> r.message@ == status@,
        detail matches Some(d) ==> r.message@ == d@,
        r.data is None,
{
}

} // verus!
