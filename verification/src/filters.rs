//! The routes of the to-do API.
//!
//! - `GET /todos?offset=3&limit=5` lists entries,
//! - `POST /todos` with a JSON body creates one,
//! - `PUT /todos/:id` with a JSON body updates one,
//! - `DELETE /todos/:id` deletes one, for administrators only.
//!
//! The method of a route is a part of the route like its path, so a request
//! that no route is made for is answered with `NotFound`, whichever part of
//! the route it misses.

use vstd::prelude::*;
use crate::codec::{json_object, query_pairs};
use crate::extractor::{invalid_body, invalid_query, Extractor};
use crate::fields::{read_field, read_member, Field, Member};
use crate::filter::{
    lemma_and_eval, lemma_and_leaf, lemma_bound_eval, lemma_leaf_eval, lemma_or_eval, Filter,
    MatchView,
};
use crate::rejection::Cause;
use crate::request::{header_value, Method, RequestView};
use crate::text::parse_unsigned;
use crate::value::{Kind, ValueView};

verus! {

/// The handler that a route of the to-do API is bound to.
#[derive(Debug, Clone, Copy, PartialEq, Eq, Structural)]
pub enum Action {
    List,
    Create,
    Update,
    Delete,
}

/// The largest body that the API reads, in bytes.
pub const BODY_LIMIT: u64 = 16 * 1024;

/// The kind of `offset` and `limit`.
pub open spec fn count_kind() -> Kind {
    Kind::Unsigned { max: usize::MAX as u64 }
}

/// The path is `/todos`.
pub open spec fn at_collection(req: RequestView) -> bool {
    req.path.len() == 1 && req.path[0] == "todos"@
}

/// The id in a path `/todos/:id`.
pub open spec fn item_id(req: RequestView) -> Option<u64> {
    if req.path.len() == 2 && req.path[0] == "todos"@ && req.path[1].len() > 0 {
        parse_unsigned(req.path[1], u64::MAX)
    } else {
        None
    }
}

/// What the query string of a listing holds: the offset and the limit, each
/// a number or absent; `None` where the query string is invalid.
pub open spec fn list_values(query: Option<Seq<char>>) -> Option<Seq<ValueView>> {
    let text = match query {
        Some(q) => q,
        None => Seq::empty(),
    };
    match query_pairs(text) {
        Some(pairs) => {
            let offset = read_field("offset"@, count_kind(), false, pairs);
            let limit = read_field("limit"@, count_kind(), false, pairs);
            if offset is Some && limit is Some {
                Some(seq![offset->0, limit->0])
            } else {
                None
            }
        },
        None => None,
    }
}

/// What a JSON body holds of an entry: its id, its text and its flag;
/// `None` where it is no JSON object or lacks one of them.
pub open spec fn todo_values(body: Seq<u8>) -> Option<Seq<ValueView>> {
    match json_object(body) {
        Some(object) => {
            let id = read_member("id"@, Kind::Unsigned { max: u64::MAX }, object);
            let text = read_member("text"@, Kind::Text, object);
            let completed = read_member("completed"@, Kind::Flag, object);
            if id is Some && text is Some && completed is Some {
                Some(seq![id->0, text->0, completed->0])
            } else {
                None
            }
        },
        None => None,
    }
}

/// What the body filter makes of a body: too large, invalid, or the values
/// of an entry.
pub open spec fn body_values(body: Seq<u8>) -> Result<Seq<ValueView>, Cause> {
    if body.len() > BODY_LIMIT {
        Err(Cause::PayloadTooLarge)
    } else {
        match todo_values(body) {
            Some(values) => Ok(values),
            None => Err(invalid_body()),
        }
    }
}

/// The body filter on a request: the values of the entry in the body.
pub open spec fn body_match<H>(req: RequestView, pos: int) -> Result<MatchView<H>, Cause> {
    match body_values(req.body) {
        Ok(values) => Ok(MatchView { values, pos, handler: None }),
        Err(cause) => Err(cause),
    }
}

/// The listing route on a request.
pub open spec fn list_route(req: RequestView) -> Result<MatchView<Action>, Cause> {
    if at_collection(req) && req.method == Method::Get {
        match list_values(req.query) {
            Some(values) => Ok(MatchView { values, pos: 1, handler: Some(Action::List) }),
            None => Err(invalid_query()),
        }
    } else {
        Err(Cause::NotFound)
    }
}

/// The creating route on a request.
pub open spec fn create_route(req: RequestView) -> Result<MatchView<Action>, Cause> {
    if at_collection(req) && req.method == Method::Post {
        match body_values(req.body) {
            Ok(values) => Ok(MatchView { values, pos: 1, handler: Some(Action::Create) }),
            Err(cause) => Err(cause),
        }
    } else {
        Err(Cause::NotFound)
    }
}

/// The updating route on a request.
pub open spec fn update_route(req: RequestView) -> Result<MatchView<Action>, Cause> {
    if item_id(req) is Some && req.method == Method::Put {
        match body_values(req.body) {
            Ok(values) => Ok(
                MatchView {
                    values: seq![ValueView::Unsigned(item_id(req)->0)] + values,
                    pos: 2,
                    handler: Some(Action::Update),
                },
            ),
            Err(cause) => Err(cause),
        }
    } else {
        Err(Cause::NotFound)
    }
}

/// Whether the request says that an administrator sent it.
pub open spec fn from_admin(req: RequestView) -> bool {
    header_value(req.headers, "authorization"@) == Some("Bearer admin"@)
}

/// The deleting route on a request.
pub open spec fn delete_route(req: RequestView) -> Result<MatchView<Action>, Cause> {
    if item_id(req) is Some && from_admin(req) && req.method == Method::Delete {
        Ok(
            MatchView {
                values: seq![ValueView::Unsigned(item_id(req)->0)],
                pos: 2,
                handler: Some(Action::Delete),
            },
        )
    } else {
        Err(Cause::NotFound)
    }
}

/// The whole API on a request: the one route that is made for the path and
/// the method of the request, or `NotFound`.
pub open spec fn todo_routes(req: RequestView) -> Result<MatchView<Action>, Cause> {
    if at_collection(req) && req.method == Method::Get {
        list_route(req)
    } else if at_collection(req) && req.method == Method::Post {
        create_route(req)
    } else if item_id(req) is Some && req.method == Method::Put {
        update_route(req)
    } else if item_id(req) is Some && req.method == Method::Delete {
        delete_route(req)
    } else {
        Err(Cause::NotFound)
    }
}

/// The body of a request as an entry: a JSON object of at most
/// `BODY_LIMIT` bytes with the members `id`, `text` and `completed`.
pub fn json_body<H>() -> (f: Filter<H>)
    ensures
        forall|req: RequestView, pos: int| #[trigger] f.eval(req, pos) == body_match::<H>(req, pos),
{
    let mut members: Vec<Member> = Vec::new();
    members.push(Member::new("id", Kind::u64()));
    members.push(Member::new("text", Kind::Text));
    members.push(Member::new("completed", Kind::Flag));
    let ghost wanted = members@;
    let f = Filter::json(BODY_LIMIT, members);
    assert forall|req: RequestView, pos: int| #[trigger]
        f.eval(req, pos) == body_match::<H>(req, pos) by {
        lemma_leaf_eval::<H>(f->Leaf_0, req, pos);
        if let Some(object) = json_object(req.body) {
            let got = crate::fields::read_members(wanted, object);
            assert(wanted[0].read(object) == read_member(
                "id"@,
                Kind::Unsigned { max: u64::MAX },
                object,
            ));
            assert(wanted[1].read(object) == read_member("text"@, Kind::Text, object));
            assert(wanted[2].read(object) == read_member("completed"@, Kind::Flag, object));
            if let Some(values) = todo_values(req.body) {
                assert(got is Some);
                assert(got->0 =~= values);
            } else {
                assert(got is None);
            }
        }
    }
    f
}

/// The path `/todos`, then the method: the front of the routes on the
/// whole list.
fn collection(method: Method) -> (f: Filter<Action>)
    ensures
        forall|req: RequestView| #[trigger]
            f.eval(req, 0) == (if at_collection(req) && req.method == method {
                Ok::<MatchView<Action>, Cause>(
                    MatchView { values: Seq::empty(), pos: 1, handler: None },
                )
            } else {
                Err::<MatchView<Action>, Cause>(Cause::NotFound)
            }),
{
    let word = Filter::path("todos");
    let ghost eword = word->Leaf_0;
    let path = word.and(Filter::end());
    let ghost gpath = path;
    let f = path.and(Filter::verb(method));
    assert forall|req: RequestView| #[trigger]
        f.eval(req, 0) == (if at_collection(req) && req.method == method {
            Ok::<MatchView<Action>, Cause>(MatchView { values: Seq::empty(), pos: 1, handler: None })
        } else {
            Err::<MatchView<Action>, Cause>(Cause::NotFound)
        }) by {
        lemma_leaf_eval::<Action>(eword, req, 0);
        lemma_and_leaf(Filter::<Action>::Leaf(eword), Extractor::End, req, 0);
        lemma_and_leaf(gpath, Extractor::Verb(method), req, 0);
        if at_collection(req) && req.method == method {
            assert(f.eval(req, 0) is Ok);
            assert(f.eval(req, 0)->Ok_0.values =~= Seq::empty());
        }
    }
    f
}

/// The path `/todos/:id`: the front of the routes on one entry.
fn item() -> (f: Filter<Action>)
    ensures
        forall|req: RequestView| #[trigger]
            f.eval(req, 0) == (match item_id(req) {
                Some(id) => Ok::<MatchView<Action>, Cause>(
                    MatchView { values: seq![ValueView::Unsigned(id)], pos: 2, handler: None },
                ),
                None => Err::<MatchView<Action>, Cause>(Cause::NotFound),
            }),
{
    let word = Filter::path("todos");
    let ghost eword = word->Leaf_0;
    let number = Extractor::Param(Kind::u64());
    let ab = word.and(Filter::param(Kind::u64()));
    let ghost gab = ab;
    let f = ab.and(Filter::end());
    assert forall|req: RequestView| #[trigger]
        f.eval(req, 0) == (match item_id(req) {
            Some(id) => Ok::<MatchView<Action>, Cause>(
                MatchView { values: seq![ValueView::Unsigned(id)], pos: 2, handler: None },
            ),
            None => Err::<MatchView<Action>, Cause>(Cause::NotFound),
        }) by {
        lemma_leaf_eval::<Action>(eword, req, 0);
        lemma_and_leaf(Filter::<Action>::Leaf(eword), number, req, 0);
        lemma_and_leaf(gab, Extractor::End, req, 0);
        if let Some(id) = item_id(req) {
            assert(f.eval(req, 0) is Ok);
            assert(f.eval(req, 0)->Ok_0.values =~= seq![ValueView::Unsigned(id)]);
        }
    }
    f
}

/// `GET /todos?offset=3&limit=5`
pub fn todos_list() -> (f: Filter<Action>)
    ensures
        forall|req: RequestView| #[trigger] f.eval(req, 0) == list_route(req),
{
    let mut fields: Vec<Field> = Vec::new();
    fields.push(Field::optional("offset", Kind::usize()));
    fields.push(Field::optional("limit", Kind::usize()));
    let ghost wanted = fields@;
    let route = collection(Method::Get);
    let ghost groute = route;
    let query = Filter::query(fields);
    let ghost equery = query->Leaf_0;
    let all = route.and(query);
    let ghost gall = all;
    let f = all.map(Action::List);
    assert forall|req: RequestView| #[trigger] f.eval(req, 0) == list_route(req) by {
        lemma_and_leaf(groute, equery, req, 0);
        lemma_bound_eval(gall, Action::List, req, 0);
        let text = match req.query {
            Some(q) => q,
            None => Seq::empty(),
        };
        if at_collection(req) && req.method == Method::Get {
            if let Some(pairs) = query_pairs(text) {
                let got = crate::fields::read_fields(wanted, pairs);
                assert(wanted[0].read(pairs) == read_field("offset"@, count_kind(), false, pairs));
                assert(wanted[1].read(pairs) == read_field("limit"@, count_kind(), false, pairs));
                if let Some(values) = list_values(req.query) {
                    assert(got is Some);
                    assert(got->0 =~= values);
                    assert(Seq::<ValueView>::empty() + values =~= values);
                } else {
                    assert(got is None);
                }
            }
        }
    }
    f
}

/// `POST /todos` with a JSON body
pub fn todos_create() -> (f: Filter<Action>)
    ensures
        forall|req: RequestView| #[trigger] f.eval(req, 0) == create_route(req),
{
    let route = collection(Method::Post);
    let ghost groute = route;
    let body = json_body();
    let ghost gbody = body;
    let all = route.and(body);
    let ghost gall = all;
    let f = all.map(Action::Create);
    assert forall|req: RequestView| #[trigger] f.eval(req, 0) == create_route(req) by {
        lemma_and_eval(groute, gbody, req, 0);
        lemma_bound_eval(gall, Action::Create, req, 0);
        assert(gbody.eval(req, 1) == body_match::<Action>(req, 1));
        if let Ok(values) = body_values(req.body) {
            assert(Seq::<ValueView>::empty() + values =~= values);
        }
    }
    f
}

/// `PUT /todos/:id` with a JSON body
pub fn todos_update() -> (f: Filter<Action>)
    ensures
        forall|req: RequestView| #[trigger] f.eval(req, 0) == update_route(req),
{
    let path = item();
    let ghost gpath = path;
    let route = path.and(Filter::verb(Method::Put));
    let ghost groute = route;
    let body = json_body();
    let ghost gbody = body;
    let all = route.and(body);
    let ghost gall = all;
    let f = all.map(Action::Update);
    assert forall|req: RequestView| #[trigger] f.eval(req, 0) == update_route(req) by {
        lemma_and_leaf(gpath, Extractor::Verb(Method::Put), req, 0);
        lemma_and_eval(groute, gbody, req, 0);
        lemma_bound_eval(gall, Action::Update, req, 0);
        assert(gbody.eval(req, 2) == body_match::<Action>(req, 2));
        if let Some(id) = item_id(req) {
            if let Ok(values) = body_values(req.body) {
                let first = seq![ValueView::Unsigned(id)];
                assert((first + Seq::<ValueView>::empty()) + values =~= first + values);
            }
        }
    }
    f
}

/// `DELETE /todos/:id`, for requests with the header
/// `authorization: Bearer admin` only
pub fn todos_delete() -> (f: Filter<Action>)
    ensures
        forall|req: RequestView| #[trigger] f.eval(req, 0) == delete_route(req),
{
    let path = item();
    let ghost gpath = path;
    let admin_only = Filter::header_exact("authorization", "Bearer admin");
    let ghost eadmin = admin_only->Leaf_0;
    let guarded = path.and(admin_only);
    let ghost gguarded = guarded;
    let all = guarded.and(Filter::verb(Method::Delete));
    let ghost gall = all;
    let f = all.map(Action::Delete);
    assert forall|req: RequestView| #[trigger] f.eval(req, 0) == delete_route(req) by {
        lemma_and_leaf(gpath, eadmin, req, 0);
        lemma_and_leaf(gguarded, Extractor::Verb(Method::Delete), req, 0);
        lemma_bound_eval(gall, Action::Delete, req, 0);
        if let Some(id) = item_id(req) {
            let first = seq![ValueView::Unsigned(id)];
            assert((first + Seq::<ValueView>::empty()) + Seq::<ValueView>::empty() =~= first);
        }
    }
    f
}

/// The four routes of the API, tried in this order: list, create, update,
/// delete.
pub fn todos() -> (f: Filter<Action>)
    ensures
        forall|req: RequestView| #[trigger] f.eval(req, 0) == todo_routes(req),
{
    let list = todos_list();
    let create = todos_create();
    let update = todos_update();
    let delete = todos_delete();
    let ghost (glist, gcreate, gupdate, gdelete) = (list, create, update, delete);
    let o1 = list.or(create);
    let ghost go1 = o1;
    let o2 = o1.or(update);
    let ghost go2 = o2;
    let f = o2.or(delete);
    assert forall|req: RequestView| #[trigger] f.eval(req, 0) == todo_routes(req) by {
        lemma_or_eval(glist, gcreate, req, 0);
        lemma_or_eval(go1, gupdate, req, 0);
        lemma_or_eval(go2, gdelete, req, 0);
        assert(glist.eval(req, 0) == list_route(req));
        assert(gcreate.eval(req, 0) == create_route(req));
        assert(gupdate.eval(req, 0) == update_route(req));
        assert(gdelete.eval(req, 0) == delete_route(req));
    }
    f
}

} // verus!
