//! The read-only query interface: a second client of the store's listing.

use vstd::prelude::*;
use crate::models::{Todo, TodoView};
use crate::store::{page, Store};

verus! {

/// The content of an entry that has no id yet.
#[derive(Debug)]
pub struct NewTodo {
    pub text: String,
    pub completed: bool,
}

impl Clone for NewTodo {
    fn clone(&self) -> (r: NewTodo)
        ensures
            r.text@ == self.text@,
            r.completed == self.completed,
    {
        NewTodo { text: self.text.clone(), completed: self.completed }
    }
}

/// The arguments of a listing. Both are signed, as the query language has
/// them; a negative number counts as zero.
#[derive(Debug, Clone, Copy)]
pub struct ListOptions {
    pub offset: Option<i32>,
    pub limit: Option<i32>,
}

/// The number that an argument stands for: the default where it is
/// missing, zero where it is negative.
pub open spec fn argument(given: Option<i32>, default: nat) -> nat {
    match given {
        Some(n) => if n < 0 {
            0
        } else {
            n as nat
        },
        None => default,
    }
}

impl ListOptions {
    /// How many entries a listing returns where no limit is given.
    pub open spec fn default_limit() -> nat {
        1000
    }

    /// How many entries the listing skips.
    pub open spec fn skipped(self) -> nat {
        argument(self.offset, 0)
    }

    /// How many entries the listing returns at most.
    pub open spec fn taken(self) -> nat {
        argument(self.limit, Self::default_limit())
    }
}

impl ListOptions {
    /// How many entries the listing skips.
    pub fn first(&self) -> (n: usize)
        ensures
            n == self.skipped(),
    {
        resolve(self.offset, 0)
    }

    /// How many entries the listing returns at most.
    pub fn count(&self) -> (n: usize)
        ensures
            n == self.taken(),
    {
        resolve(self.limit, 1000)
    }
}

fn resolve(given: Option<i32>, default: usize) -> (n: usize)
    requires
        default <= 1000,
    ensures
        n == argument(given, default as nat),
{
    match given {
        Some(v) => if v < 0 {
            0
        } else {
            v as usize
        },
        None => default,
    }
}

/// The root of the queries.
#[derive(Debug, Clone, Copy)]
pub struct Query;

impl Query {
    /// The version of the query interface.
    #[allow(non_snake_case)]
    pub fn apiVersion() -> (version: &'static str)
        ensures
            version@ == "1.0"@,
    {
        "1.0"
    }

    /// The entries of the store from `opt.offset` on, `opt.limit` of them
    /// at most: no offset means none skipped, no limit means a thousand.
    #[allow(non_snake_case)]
    pub fn todosList(db: &Store, opt: ListOptions) -> (todos: Vec<Todo>)
        ensures
            todos.deep_view() == page(db@, opt.skipped(), opt.taken()),
    {
        db.list(opt.first(), opt.count())
    }
}

} // verus!
