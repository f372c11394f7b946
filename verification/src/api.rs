//! The to-do API: its routes, dispatched to its handlers on the store.

use vstd::prelude::*;
use crate::codec::{json_object, query_pairs, JsonView};
use crate::dispatch::unhandled;
use crate::extractor::{invalid_body, invalid_query};
use crate::fields::{member_of, read_field};
use crate::filter::{Filter, MatchView};
use crate::filters::{
    at_collection, count_kind, from_admin, item_id, list_values, todo_routes, todo_values, todos,
    Action, BODY_LIMIT,
};
use crate::handlers::{create_todos, delete_todo, list_todos, listed, update_todo};
use crate::models::{ListOptions, Todo, TodoView};
use crate::rejection::{Cause, Rejection};
use crate::reply::{bare, rejected, Reply, ReplyView};
use crate::request::{Method, Request, RequestView};
use crate::store::{created, deleted, has_id, updated, Store};
use crate::value::{Value, ValueView};

verus! {

/// An offset or a limit as a route extracts it: a number within `usize`, or
/// absent. `None` for any other value.
pub open spec fn count_of(value: ValueView) -> Option<Option<usize>> {
    match value {
        ValueView::Absent => Some(None),
        ValueView::Unsigned(n) => if n <= usize::MAX {
            Some(Some(n as usize))
        } else {
            None
        },
        _ => None,
    }
}

/// The options of a listing, from the two values of its route.
pub open spec fn options_of(values: Seq<ValueView>) -> Option<ListOptions> {
    if values.len() == 2 && count_of(values[0]) is Some && count_of(values[1]) is Some {
        Some(ListOptions { offset: count_of(values[0])->0, limit: count_of(values[1])->0 })
    } else {
        None
    }
}

/// The id at the front of the values of a route.
pub open spec fn id_of(values: Seq<ValueView>) -> Option<u64> {
    if values.len() >= 1 {
        match values[0] {
            ValueView::Unsigned(id) => Some(id),
            _ => None,
        }
    } else {
        None
    }
}

/// The entry in the three values from `at` on, which are the last.
pub open spec fn todo_of(values: Seq<ValueView>, at: int) -> Option<TodoView> {
    if 0 <= at && values.len() == at + 3 {
        match (values[at], values[at + 1], values[at + 2]) {
            (ValueView::Unsigned(id), ValueView::Text(text), ValueView::Flag(completed)) => Some(
                TodoView { id, text, completed },
            ),
            _ => None,
        }
    } else {
        None
    }
}

/// What a handler answers to the values of its route, and the store after
/// it.
pub open spec fn invoked(action: Action, values: Seq<ValueView>, store: Seq<TodoView>) -> (
    ReplyView,
    Seq<TodoView>,
) {
    match action {
        Action::List => match options_of(values) {
            Some(opts) => (listed(store, opts), store),
            None => (unhandled(), store),
        },
        Action::Create => match todo_of(values, 0) {
            Some(todo) => (
                bare(if has_id(store, todo.id) { 400 } else { 201 }),
                created(store, todo),
            ),
            None => (unhandled(), store),
        },
        Action::Update => match (id_of(values), todo_of(values, 1)) {
            (Some(id), Some(todo)) => (
                bare(if has_id(store, id) { 200 } else { 404 }),
                updated(store, id, todo),
            ),
            _ => (unhandled(), store),
        },
        Action::Delete => match id_of(values) {
            Some(id) if values.len() == 1 => (
                bare(if has_id(store, id) { 204 } else { 404 }),
                deleted(store, id),
            ),
            _ => (unhandled(), store),
        },
    }
}

/// What the dispatcher answers to the outcome of the routes: the answer of
/// the handler of the match, or the error reply of the rejection. A
/// rejection leaves the store as it is.
pub open spec fn responded(route: Result<MatchView<Action>, Cause>, store: Seq<TodoView>) -> (
    ReplyView,
    Seq<TodoView>,
) {
    match route {
        Ok(m) => match m.handler {
            Some(action) => invoked(action, m.values, store),
            None => (unhandled(), store),
        },
        Err(cause) => (rejected(cause), store),
    }
}

fn count_from(value: &Value) -> (r: Option<Option<usize>>)
    ensures
        r == count_of(value@),
{
    match value {
        Value::Absent => Some(None),
        Value::Unsigned(n) => if *n <= usize::MAX as u64 {
            Some(Some(*n as usize))
        } else {
            None
        },
        _ => None,
    }
}

/// Reads the options of a listing from the values of its route.
pub fn options_from(values: &Vec<Value>) -> (r: Option<ListOptions>)
    ensures
        r == options_of(values.deep_view()),
{
    if values.len() != 2 {
        return None;
    }
    assert(values.deep_view()[0] == values[0]@);
    assert(values.deep_view()[1] == values[1]@);
    match (count_from(&values[0]), count_from(&values[1])) {
        (Some(offset), Some(limit)) => Some(ListOptions { offset, limit }),
        _ => None,
    }
}

/// Reads the id at the front of the values of a route.
pub fn id_from(values: &Vec<Value>) -> (r: Option<u64>)
    ensures
        r == id_of(values.deep_view()),
{
    if values.len() == 0 {
        return None;
    }
    assert(values.deep_view()[0] == values[0]@);
    match &values[0] {
        Value::Unsigned(id) => Some(*id),
        _ => None,
    }
}

/// Reads an entry from the last three values of a route.
pub fn todo_from(values: &Vec<Value>, at: usize) -> (r: Option<Todo>)
    ensures
        r.deep_view() == todo_of(values.deep_view(), at as int),
{
    if values.len() < 3 || values.len() - 3 != at {
        return None;
    }
    assert(values.deep_view()[at as int] == values[at as int]@);
    assert(values.deep_view()[at + 1] == values[at + 1]@);
    assert(values.deep_view()[at + 2] == values[at + 2]@);
    match (&values[at], &values[at + 1], &values[at + 2]) {
        (Value::Unsigned(id), Value::Text(text), Value::Flag(completed)) => Some(
            Todo { id: *id, text: text.clone(), completed: *completed },
        ),
        _ => None,
    }
}

/// Runs the handler `action` on the values of its route.
pub fn invoke(action: Action, values: &Vec<Value>, db: &mut Store) -> (reply: Reply)
    ensures
        (reply@, final(db)@) == invoked(action, values.deep_view(), old(db)@),
{
    match action {
        Action::List => match options_from(values) {
            Some(opts) => list_todos(opts, db),
            None => Reply::recover(&Rejection::Unhandled),
        },
        Action::Create => match todo_from(values, 0) {
            Some(todo) => create_todos(todo, db),
            None => Reply::recover(&Rejection::Unhandled),
        },
        Action::Update => match id_from(values) {
            Some(id) => match todo_from(values, 1) {
                Some(todo) => update_todo(id, todo, db),
                None => Reply::recover(&Rejection::Unhandled),
            },
            None => Reply::recover(&Rejection::Unhandled),
        },
        Action::Delete => match id_from(values) {
            Some(id) => {
                if values.len() == 1 {
                    delete_todo(id, db)
                } else {
                    Reply::recover(&Rejection::Unhandled)
                }
            },
            None => Reply::recover(&Rejection::Unhandled),
        },
    }
}

/// Answers one request: evaluates `api` against it, runs the handler of the
/// route that matched, and turns a rejection into its error reply.
pub fn respond(api: &Filter<Action>, req: &Request, db: &mut Store) -> (reply: Reply)
    ensures
        (reply@, final(db)@) == responded(api.eval(req@, 0), old(db)@),
{
    match api.evaluate(req) {
        Ok(m) => match m.handler {
            Some(action) => invoke(*action, &m.values, db),
            None => Reply::recover(&Rejection::Unhandled),
        },
        Err(e) => Reply::recover(&e),
    }
}

/// The entry that a JSON body holds: an object with an unsigned `id`, a
/// string `text` and a boolean `completed`.
pub open spec fn todo_in(body: Seq<u8>) -> Option<TodoView> {
    match json_object(body) {
        Some(object) => match (
            member_of(object, "id"@),
            member_of(object, "text"@),
            member_of(object, "completed"@),
        ) {
            (
                Some(JsonView::Number(Some(id))),
                Some(JsonView::Text(text)),
                Some(JsonView::Flag(completed)),
            ) => Some(TodoView { id, text, completed }),
            _ => None,
        },
        None => None,
    }
}

/// The options that a query string holds: `offset` and `limit`, each at
/// most once and each a number within `usize` where it is there.
pub open spec fn options_in(query: Option<Seq<char>>) -> Option<ListOptions> {
    let text = match query {
        Some(q) => q,
        None => Seq::empty(),
    };
    match query_pairs(text) {
        Some(pairs) => match (
            read_field("offset"@, count_kind(), false, pairs),
            read_field("limit"@, count_kind(), false, pairs),
        ) {
            (Some(offset), Some(limit)) => Some(
                ListOptions { offset: count_of(offset)->0, limit: count_of(limit)->0 },
            ),
            _ => None,
        },
        None => None,
    }
}

/// The to-do API: what it answers to a request, and the store after it.
///
/// - `GET /todos` answers 200 with a page of the store, or 400 to an
///   invalid query string.
/// - `POST /todos` answers 413 to a body that is too large and 400 to one
///   that holds no entry; else 201 where it added the entry and 400 where
///   the id is taken.
/// - `PUT /todos/:id` answers to the body in the same way; else 200 where
///   the entry exists and 404 where it does not.
/// - `DELETE /todos/:id` from an administrator answers 204 where the entry
///   existed and 404 where it did not.
/// - Anything else is answered 404, and leaves the store as it is.
pub open spec fn todo_service(req: RequestView, store: Seq<TodoView>) -> (ReplyView, Seq<TodoView>) {
    if at_collection(req) && req.method == Method::Get {
        match options_in(req.query) {
            Some(opts) => (listed(store, opts), store),
            None => (rejected(invalid_query()), store),
        }
    } else if (at_collection(req) && req.method == Method::Post) || (item_id(req) is Some
        && req.method == Method::Put) {
        if req.body.len() > BODY_LIMIT {
            (rejected(Cause::PayloadTooLarge), store)
        } else {
            match todo_in(req.body) {
                Some(todo) => if req.method == Method::Post {
                    (bare(if has_id(store, todo.id) { 400 } else { 201 }), created(store, todo))
                } else {
                    (
                        bare(if has_id(store, item_id(req)->0) { 200 } else { 404 }),
                        updated(store, item_id(req)->0, todo),
                    )
                },
                None => (rejected(invalid_body()), store),
            }
        }
    } else if item_id(req) is Some && req.method == Method::Delete && from_admin(req) {
        (
            bare(if has_id(store, item_id(req)->0) { 204 } else { 404 }),
            deleted(store, item_id(req)->0),
        )
    } else {
        (rejected(Cause::NotFound), store)
    }
}

/// Dispatching the routes of the API gives the API: the handlers get
/// values that fit them, whatever the request, and the dispatcher answers
/// as `todo_service` says.
pub proof fn lemma_routes_serve(req: RequestView, store: Seq<TodoView>)
    ensures
        responded(todo_routes(req), store) == todo_service(req, store),
{
    let text = match req.query {
        Some(q) => q,
        None => Seq::empty(),
    };
    if at_collection(req) && req.method == Method::Get {
        if let Some(values) = list_values(req.query) {
            assert(options_of(values) == options_in(req.query));
        }
    } else if at_collection(req) && req.method == Method::Post {
        if let Some(values) = todo_values(req.body) {
            assert(todo_of(values, 0) == todo_in(req.body));
        }
    } else if item_id(req) is Some && req.method == Method::Put {
        if let Some(values) = todo_values(req.body) {
            let all = seq![ValueView::Unsigned(item_id(req)->0)] + values;
            assert(todo_of(all, 1) == todo_in(req.body));
            assert(id_of(all) == item_id(req));
        }
    } else if item_id(req) is Some && req.method == Method::Delete {
    }
}

/// The to-do API, ready to serve requests.
pub struct Api {
    routes: Filter<Action>,
}

impl Api {
    #[verifier::type_invariant]
    spec fn inv(&self) -> bool {
        forall|req: RequestView| #[trigger] self.routes.eval(req, 0) == todo_routes(req)
    }

    /// The routes that the API evaluates.
    pub closed spec fn routes(&self) -> Filter<Action> {
        self.routes
    }

    /// Builds the routes of the API.
    pub fn new() -> (api: Api)
        ensures
            forall|req: RequestView| #[trigger] api.routes().eval(req, 0) == todo_routes(req),
    {
        Api { routes: todos() }
    }

    /// Answers one request. A rejection becomes an error reply; nothing
    /// that a request holds makes this function fail.
    pub fn serve(&self, req: &Request, db: &mut Store) -> (reply: Reply)
        ensures
            (reply@, final(db)@) == todo_service(req@, old(db)@),
    {
        proof {
            use_type_invariant(self);
            lemma_routes_serve(req@, db@);
        }
        respond(&self.routes, req, db)
    }
}

} // verus!
