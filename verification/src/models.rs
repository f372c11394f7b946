//! The entities that the store holds and the options of a listing.

use vstd::prelude::*;
use crate::store::Store;

verus! {

/// One entry of the to-do list. Its `id` is its identity.
#[derive(Debug)]
pub struct Todo {
    pub id: u64,
    pub text: String,
    pub completed: bool,
}

/// The mathematical value of a [`Todo`].
pub struct TodoView {
    pub id: u64,
    pub text: Seq<char>,
    pub completed: bool,
}

impl View for Todo {
    type V = TodoView;

    open spec fn view(&self) -> TodoView {
        TodoView { id: self.id, text: self.text@, completed: self.completed }
    }
}

impl DeepView for Todo {
    type V = TodoView;

    open spec fn deep_view(&self) -> TodoView {
        self@
    }
}

impl Clone for Todo {
    fn clone(&self) -> (r: Todo)
        ensures
            r@ == self@,
    {
        Todo { id: self.id, text: self.text.clone(), completed: self.completed }
    }
}

/// The query parameters of a listing: how many entries to skip and how many
/// to return at most. A missing `offset` counts as zero, a missing `limit`
/// as no limit.
#[derive(Debug, Clone, Copy)]
pub struct ListOptions {
    pub offset: Option<usize>,
    pub limit: Option<usize>,
}

impl ListOptions {
    /// How many entries the listing skips.
    pub open spec fn skipped(self) -> nat {
        match self.offset {
            Some(n) => n as nat,
            None => 0,
        }
    }

    /// How many entries the listing returns at most.
    pub open spec fn taken(self) -> nat {
        match self.limit {
            Some(n) => n as nat,
            None => usize::MAX as nat,
        }
    }
}

/// An empty store.
pub fn blank_db() -> (db: Store)
    ensures
        db@ == Seq::<TodoView>::empty(),
{
    Store::new()
}

} // verus!
