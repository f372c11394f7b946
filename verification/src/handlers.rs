//! The handlers of the to-do API: the ends of its routes. Each takes what
//! its route extracted, and the store.

use vstd::prelude::*;
use crate::models::{ListOptions, Todo, TodoView};
use crate::reply::{bare, Body, BodyView, Reply, ReplyView};
use crate::store::{created, deleted, has_id, page, updated, Creation, Lookup, Store};

verus! {

/// The reply to a listing: the page as a JSON array, with status 200.
pub open spec fn listed(store: Seq<TodoView>, opts: ListOptions) -> ReplyView {
    ReplyView { status: 200, body: BodyView::Todos(page(store, opts.skipped(), opts.taken())) }
}

/// Lists the entries, skipping `offset` and returning `limit` at most.
pub fn list_todos(opts: ListOptions, db: &Store) -> (reply: Reply)
    ensures
        reply@ == listed(db@, opts),
{
    let offset = match opts.offset {
        Some(n) => n,
        None => 0,
    };
    let limit = match opts.limit {
        Some(n) => n,
        None => usize::MAX,
    };
    let todos = db.list(offset, limit);
    Reply { status: 200, body: Body::Todos(todos) }
}

/// Adds an entry: 201 where it was added, 400 where its id is taken.
pub fn create_todos(create: Todo, db: &mut Store) -> (reply: Reply)
    ensures
        reply@ == bare(if has_id(old(db)@, create.id) { 400 } else { 201 }),
        final(db)@ == created(old(db)@, create@),
{
    match db.create(create) {
        Creation::Created => Reply::status_only(201),
        Creation::Duplicate => Reply::status_only(400),
    }
}

/// Replaces the content of the entry `id`: 200 where it exists, else 404.
pub fn update_todo(id: u64, update: Todo, db: &mut Store) -> (reply: Reply)
    ensures
        reply@ == bare(if has_id(old(db)@, id) { 200 } else { 404 }),
        final(db)@ == updated(old(db)@, id, update@),
{
    match db.update(id, update) {
        Lookup::Found => Reply::status_only(200),
        Lookup::NotFound => Reply::status_only(404),
    }
}

/// Deletes the entry `id`: 204 where it existed, else 404.
pub fn delete_todo(id: u64, db: &mut Store) -> (reply: Reply)
    ensures
        reply@ == bare(if has_id(old(db)@, id) { 204 } else { 404 }),
        final(db)@ == deleted(old(db)@, id),
{
    match db.delete(id) {
        Lookup::Found => Reply::status_only(204),
        Lookup::NotFound => Reply::status_only(404),
    }
}

/// The status for a store that reports how many rows a creation changed:
/// 201 where it changed any, else 400.
pub fn creation_status(rows: u64) -> (status: u16)
    ensures
        status == (if rows != 0 { 201u16 } else { 400u16 }),
{
    if rows != 0 {
        201
    } else {
        400
    }
}

/// The same for an update: 200 where it changed any row, else 404.
pub fn update_status(rows: u64) -> (status: u16)
    ensures
        status == (if rows != 0 { 200u16 } else { 404u16 }),
{
    if rows != 0 {
        200
    } else {
        404
    }
}

/// The same for a deletion: 204 where it changed any row, else 404.
pub fn deletion_status(rows: u64) -> (status: u16)
    ensures
        status == (if rows != 0 { 204u16 } else { 404u16 }),
{
    if rows != 0 {
        204
    } else {
        404
    }
}

} // verus!
