//! Queued writes and their confirmation.

use crate::core_model::tag_value::{TagValue, TagValueView};
use vstd::prelude::*;
use vstd::string::*;

verus! {

/// Number under which a write request waits for its reply.
#[derive(Clone, Copy, Debug, PartialEq, Eq, Structural)]
pub struct ReplyId {
    pub number: u64,
}

/// A queued write request; its reply, if one is wanted, goes to `reply`.
#[derive(Debug)]
pub struct WriteRequest {
    /// Id of the tag.
    pub tag_id: String,
    /// Desired value.
    pub value: TagValue,
    /// Where the reply goes.
    pub reply: Option<ReplyId>,
}

/// What a [`WriteRequest`] asks for.
#[verifier::ext_equal]
pub ghost struct WriteRequestView {
    pub tag_id: Seq<char>,
    pub value: TagValueView,
    pub reply: Option<ReplyId>,
}

impl View for WriteRequest {
    type V = WriteRequestView;

    open spec fn view(&self) -> WriteRequestView {
        WriteRequestView { tag_id: self.tag_id@, value: self.value@, reply: self.reply }
    }
}

impl WriteRequest {
    /// A request that wants no reply.
    pub fn new(tag_id: &str, value: TagValue) -> (r: WriteRequest)
        ensures
            r@ == (WriteRequestView { tag_id: tag_id@, value: value@, reply: None }),
    {
        WriteRequest { tag_id: tag_id.to_owned(), value, reply: None }
    }

    /// The request with its reply going to `reply`.
    pub fn with_reply(self, reply: ReplyId) -> (r: WriteRequest)
        ensures
            r@ == (WriteRequestView { reply: Some(reply), ..self@ }),
    {
        WriteRequest { tag_id: self.tag_id, value: self.value, reply: Some(reply) }
    }

    /// Where the reply goes, which the request then forgets.
    pub fn take_reply(&mut self) -> (r: Option<ReplyId>)
        ensures
            r == old(self)@.reply,
            final(self)@ == (WriteRequestView { reply: None, ..old(self)@ }),
    {
        let reply = self.reply;
        self.reply = None;
        reply
    }
}

/// The reply to a write request.
#[derive(Debug)]
pub struct Reply {
    /// Where it goes.
    pub to: ReplyId,
    /// Success, or why the write failed.
    pub result: Result<(), String>,
}

/// What a [`Reply`] says.
#[verifier::ext_equal]
pub ghost struct ReplyView {
    pub to: ReplyId,
    pub result: Result<(), Seq<char>>,
}

/// A result with its message as text.
pub open spec fn result_view(r: Result<(), String>) -> Result<(), Seq<char>> {
    match r {
        Ok(_) => Ok(()),
        Err(s) => Err(s@),
    }
}

impl View for Reply {
    type V = ReplyView;

    open spec fn view(&self) -> ReplyView {
        ReplyView { to: self.to, result: result_view(self.result) }
    }
}

/// What a reply that may be absent says.
pub open spec fn reply_view(r: Option<Reply>) -> Option<ReplyView> {
    match r {
        Some(x) => Some(x@),
        None => None,
    }
}

/// The reply with `result`, where one is wanted.
pub open spec fn answer(to: Option<ReplyId>, result: Result<(), Seq<char>>) -> Option<ReplyView> {
    match to {
        Some(id) => Some(ReplyView { to: id, result }),
        None => None,
    }
}

/// The reply that a write succeeded, where one is wanted.
pub fn reply_ok(to: Option<ReplyId>) -> (r: Option<Reply>)
    ensures
        reply_view(r) == answer(to, Ok(())),
{
    match to {
        Some(id) => Some(Reply { to: id, result: Ok(()) }),
        None => None,
    }
}

/// The reply that a write failed, where one is wanted.
pub fn reply_err(to: Option<ReplyId>, message: String) -> (r: Option<Reply>)
    ensures
        reply_view(r) == answer(to, Err(message@)),
{
    match to {
        Some(id) => Some(Reply { to: id, result: Err(message) }),
        None => None,
    }
}

/// What became of the wait for a write confirmation.
#[derive(Debug)]
pub enum Confirmation {
    /// The driver replied.
    Replied(Result<(), String>),
    /// The driver gave the reply up.
    Closed,
    /// No reply came in time.
    TimedOut,
}

/// Why a submitted write is reported as failed.
#[derive(Debug)]
pub enum SubmitError {
    /// The driver failed, or gave the reply up.
    Failed(String),
    /// No confirmation came in time.
    TimedOut(String),
}

/// What a [`SubmitError`] says.
#[verifier::ext_equal]
pub ghost enum SubmitErrorView {
    Failed(Seq<char>),
    TimedOut(Seq<char>),
}

impl View for SubmitError {
    type V = SubmitErrorView;

    open spec fn view(&self) -> SubmitErrorView {
        match *self {
            SubmitError::Failed(s) => SubmitErrorView::Failed(s@),
            SubmitError::TimedOut(s) => SubmitErrorView::TimedOut(s@),
        }
    }
}

/// How the submission of a write ends, by what became of its confirmation.
pub fn submit_result(confirmation: Confirmation) -> (r: Result<(), SubmitError>)
    ensures
        match r {
            Ok(_) => confirmation matches Confirmation::Replied(Ok(_)),
            Err(e) => match confirmation {
                Confirmation::Replied(Ok(_)) => false,
                Confirmation::Replied(Err(s)) => e@ == SubmitErrorView::Failed(s@),
                Confirmation::Closed => e@ == SubmitErrorView::Failed("reply channel closed"@),
                Confirmation::TimedOut => e@ == SubmitErrorView::TimedOut(
                    "write confirmation timed out"@,
                ),
            },
        },
{
    match confirmation {
        Confirmation::Replied(Ok(_)) => Ok(()),
        Confirmation::Replied(Err(s)) => Err(SubmitError::Failed(s)),
        Confirmation::Closed => Err(SubmitError::Failed("reply channel closed".to_owned())),
        Confirmation::TimedOut => Err(
            SubmitError::TimedOut("write confirmation timed out".to_owned()),
        ),
    }
}

} // verus!
