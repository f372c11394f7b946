//! Replies: the status and the body that a handler or the recovery answers
//! with, as values. Writing them to the wire is left to the caller.

use vstd::prelude::*;
use crate::models::{Todo, TodoView};
use crate::rejection::{handle_rejection, recovered, Cause, ErrorMessage, ErrorMessageView, Rejection};

verus! {

/// The result of a division, with the operation spelled out.
#[derive(Debug)]
pub struct Math {
    pub op: String,
    pub output: u16,
}

impl Clone for Math {
    fn clone(&self) -> (r: Math)
        ensures
            r.op@ == self.op@,
            r.output == self.output,
    {
        Math { op: self.op.clone(), output: self.output }
    }
}

/// The body of a reply.
#[derive(Debug)]
pub enum Body {
    Empty,
    Text(String),
    Todos(Vec<Todo>),
    Error(ErrorMessage),
    Math(Math),
}

/// The mathematical value of a [`Body`].
pub enum BodyView {
    Empty,
    Text(Seq<char>),
    Todos(Seq<TodoView>),
    Error(ErrorMessageView),
    Math { op: Seq<char>, output: u16 },
}

impl View for Body {
    type V = BodyView;

    open spec fn view(&self) -> BodyView {
        match self {
            Body::Empty => BodyView::Empty,
            Body::Text(s) => BodyView::Text(s@),
            Body::Todos(todos) => BodyView::Todos(todos.deep_view()),
            Body::Error(e) => BodyView::Error(e@),
            Body::Math(m) => BodyView::Math { op: m.op@, output: m.output },
        }
    }
}

/// A reply: an HTTP status and a body.
#[derive(Debug)]
pub struct Reply {
    pub status: u16,
    pub body: Body,
}

/// The mathematical value of a [`Reply`].
pub struct ReplyView {
    pub status: u16,
    pub body: BodyView,
}

impl View for Reply {
    type V = ReplyView;

    open spec fn view(&self) -> ReplyView {
        ReplyView { status: self.status, body: self.body@ }
    }
}

/// The reply that a rejection is answered with: the status of its cause,
/// and its code and message as the body.
pub open spec fn rejected(cause: Cause) -> ReplyView {
    ReplyView { status: cause.status(), body: BodyView::Error(recovered(cause)) }
}

/// A reply that is a status alone.
pub open spec fn bare(status: u16) -> ReplyView {
    ReplyView { status, body: BodyView::Empty }
}

impl Reply {
    /// A reply without a body.
    pub fn status_only(status: u16) -> (r: Reply)
        ensures
            r@ == bare(status),
    {
        Reply { status, body: Body::Empty }
    }

    /// The reply to a request that was rejected.
    pub fn recover(err: &Rejection) -> (r: Reply)
        ensures
            r@ == rejected(err@),
    {
        let message = handle_rejection(err);
        Reply { status: message.code, body: Body::Error(message) }
    }
}

} // verus!
