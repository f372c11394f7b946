//! Dispatching: the routes are evaluated against one request, the handler
//! of the route that matched is called with the values that the route
//! extracted, and a rejection is answered with its error reply.

use vstd::prelude::*;
use crate::filter::Filter;
use crate::rejection::{Cause, Rejection};
use crate::reply::{rejected, Reply, ReplyView};
use crate::request::Request;
use crate::value::{Value, ValueView};

verus! {

/// The reply to a match that no handler can take: one that is bound to no
/// handler, or whose values do not fit the handler.
pub open spec fn unhandled() -> ReplyView {
    rejected(Cause::Unhandled)
}

/// What the dispatcher makes of the answer of a handler: its reply, or the
/// error reply of its rejection.
pub open spec fn settled(answer: Result<Reply, Rejection>) -> ReplyView {
    match answer {
        Ok(reply) => reply@,
        Err(e) => rejected(e@),
    }
}

/// Whether `reply` is what the dispatcher makes of some answer that
/// `handle` may give to this handler and these values.
pub open spec fn answers<H, F: Fn(&H, &Vec<Value>) -> Result<Reply, Rejection>>(
    handle: F,
    handler: H,
    values: Seq<ValueView>,
    reply: ReplyView,
) -> bool {
    exists|given: Vec<Value>, answer: Result<Reply, Rejection>|
        #[trigger] call_ensures(handle, (&handler, &given), answer) && given.deep_view() == values
            && settled(answer) == reply
}

/// Answers one request for any set of routes: evaluates `routes` against
/// it and calls `handle` with the handler and the values of the match. A
/// rejection of the routes or of the handler becomes its error reply, and
/// so does a match that is bound to no handler.
pub fn dispatch<H, F: Fn(&H, &Vec<Value>) -> Result<Reply, Rejection>>(
    routes: &Filter<H>,
    req: &Request,
    handle: F,
) -> (reply: Reply)
    requires
        forall|handler: &H, values: &Vec<Value>| call_requires(handle, (handler, values)),
    ensures
        match routes.eval(req@, 0) {
            Ok(m) => match m.handler {
                Some(handler) => answers(handle, handler, m.values, reply@),
                None => reply@ == unhandled(),
            },
            Err(cause) => reply@ == rejected(cause),
        },
{
    match routes.evaluate(req) {
        Ok(m) => match m.handler {
            Some(handler) => {
                let answer = handle(handler, &m.values);
                let ghost given = answer;
                let reply = match answer {
                    Ok(reply) => reply,
                    Err(e) => Reply::recover(&e),
                };
                assert(call_ensures(handle, (handler, &m.values), given));
                assert(settled(given) == reply@);
                reply
            },
            None => Reply::recover(&Rejection::Unhandled),
        },
        Err(e) => Reply::recover(&e),
    }
}

} // verus!
