//! Writes of OPC UA clients on their way to the drivers.

use crate::core_model::tag_value::{TagValue, TagValueView};
use crate::driver_common::write_request::{answer, reply_err, reply_ok, reply_view, Reply, ReplyId};
use crate::opcua_server::error::{server_error_text, ServerError};
use vstd::prelude::*;
use vstd::string::*;

verus! {

/// A write that an OPC UA client asked for.
#[derive(Debug)]
pub struct WriteRequest {
    /// Id of the tag.
    pub tag_id: String,
    /// Desired value.
    pub value: TagValue,
}

/// What a [`WriteRequest`] asks for.
#[verifier::ext_equal]
pub ghost struct WriteRequestView {
    pub tag_id: Seq<char>,
    pub value: TagValueView,
}

impl View for WriteRequest {
    type V = WriteRequestView;

    open spec fn view(&self) -> WriteRequestView {
        WriteRequestView { tag_id: self.tag_id@, value: self.value@ }
    }
}

impl WriteRequest {
    /// A request to write `value` to the tag `tag_id`.
    pub fn new(tag_id: &str, value: TagValue) -> (r: WriteRequest)
        ensures
            r@ == (WriteRequestView { tag_id: tag_id@, value: value@ }),
    {
        WriteRequest { tag_id: tag_id.to_owned(), value }
    }
}

/// A write that crosses from the server to the runtime.
#[derive(Debug)]
pub struct BridgeWrite {
    /// Id of the tag.
    pub tag_id: String,
    /// Desired value.
    pub value: TagValue,
    /// Where the confirmation goes, if one is awaited.
    pub reply: Option<ReplyId>,
}

/// What a [`BridgeWrite`] asks for.
#[verifier::ext_equal]
pub ghost struct BridgeWriteView {
    pub tag_id: Seq<char>,
    pub value: TagValueView,
    pub reply: Option<ReplyId>,
}

impl View for BridgeWrite {
    type V = BridgeWriteView;

    open spec fn view(&self) -> BridgeWriteView {
        BridgeWriteView { tag_id: self.tag_id@, value: self.value@, reply: self.reply }
    }
}

impl BridgeWrite {
    /// The request to the runtime, and where its confirmation goes.
    pub fn into_request(self) -> (r: (WriteRequest, Option<ReplyId>))
        ensures
            r.0@ == (WriteRequestView { tag_id: self@.tag_id, value: self@.value }),
            r.1 == self@.reply,
    {
        (WriteRequest { tag_id: self.tag_id, value: self.value }, self.reply)
    }
}

/// The confirmation of a write by what the runtime made of it, where one is awaited.
pub fn bridge_reply(reply: Option<ReplyId>, result: Result<(), ServerError>) -> (r: Option<Reply>)
    ensures
        reply_view(r) == answer(
            reply,
            match result {
                Ok(_) => Ok(()),
                Err(e) => Err(server_error_text(e@)),
            },
        ),
{
    match result {
        Ok(_) => reply_ok(reply),
        Err(e) => reply_err(reply, e.message()),
    }
}

} // verus!
