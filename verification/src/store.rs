//! The in-memory store: an ordered sequence of entries with distinct ids.
//!
//! Every operation that changes the store takes it by `&mut`, so no two of
//! them can interleave: whoever shares a store between tasks has to put it
//! behind a lock, and holds the lock for the whole of one operation.

use vstd::prelude::*;
use crate::models::{Todo, TodoView};

verus! {

/// No two entries share an id.
pub open spec fn distinct_ids(s: Seq<TodoView>) -> bool {
    forall|i: int, j: int| 0 <= i < j < s.len() ==> s[i].id != s[j].id
}

/// The index of the first entry with this id; the length where there is none.
pub open spec fn position(s: Seq<TodoView>, id: u64) -> int
    decreases s.len(),
{
    if s.len() == 0 {
        0
    } else if s[0].id == id {
        0
    } else {
        1 + position(s.drop_first(), id)
    }
}

/// Whether an entry has this id.
pub open spec fn has_id(s: Seq<TodoView>, id: u64) -> bool {
    position(s, id) < s.len()
}

/// The entries from `offset` on, `limit` of them at most, in their order.
pub open spec fn page<T>(s: Seq<T>, offset: nat, limit: nat) -> Seq<T> {
    if offset >= s.len() {
        Seq::empty()
    } else if limit >= s.len() - offset {
        s.subrange(offset as int, s.len() as int)
    } else {
        s.subrange(offset as int, (offset + limit) as int)
    }
}

/// The store after an attempt to add `todo`: unchanged if its id is taken.
pub open spec fn created(s: Seq<TodoView>, todo: TodoView) -> Seq<TodoView> {
    if has_id(s, todo.id) {
        s
    } else {
        s.push(todo)
    }
}

/// The store after an update of the entry `id`: that entry keeps its place
/// and its id and takes the text and the flag of `new`.
pub open spec fn updated(s: Seq<TodoView>, id: u64, new: TodoView) -> Seq<TodoView> {
    if has_id(s, id) {
        s.update(position(s, id), TodoView { id, text: new.text, completed: new.completed })
    } else {
        s
    }
}

/// The store after the entry `id` is deleted: the others keep their order.
pub open spec fn deleted(s: Seq<TodoView>, id: u64) -> Seq<TodoView> {
    if has_id(s, id) {
        s.remove(position(s, id))
    } else {
        s
    }
}

/// `position` is the least index that holds the id, and the store has the
/// id exactly if some entry holds it.
pub proof fn lemma_position(s: Seq<TodoView>, id: u64)
    ensures
        0 <= position(s, id) <= s.len(),
        forall|k: int| 0 <= k < position(s, id) ==> (#[trigger] s[k]).id != id,
        position(s, id) < s.len() ==> s[position(s, id)].id == id,
        has_id(s, id) <==> exists|k: int| 0 <= k < s.len() && (#[trigger] s[k]).id == id,
    decreases s.len(),
{
    if s.len() > 0 && s[0].id != id {
        let rest = s.drop_first();
        lemma_position(rest, id);
        assert forall|k: int| 0 <= k < position(s, id) implies (#[trigger] s[k]).id != id by {
            if k > 0 {
                assert(s[k] == rest[k - 1]);
            }
        }
    }
    if has_id(s, id) {
        assert(s[position(s, id)].id == id);
    }
}

/// An index below which no entry holds the id, and which holds it or is the
/// length, is the position of the id.
pub proof fn lemma_position_is(s: Seq<TodoView>, id: u64, i: int)
    requires
        0 <= i <= s.len(),
        forall|k: int| 0 <= k < i ==> (#[trigger] s[k]).id != id,
        i < s.len() ==> s[i].id == id,
    ensures
        position(s, id) == i,
{
    lemma_position(s, id);
    let p = position(s, id);
    if p < i {
        assert(s[p].id != id);
    } else if i < p {
        assert(s[i].id != id);
    }
}

/// A page holds the entries at the positions `offset`, `offset + 1`, ... of
/// the store, as many as `limit` and the store's length allow; beyond the
/// end of the store, or with a `limit` of zero, it is empty.
pub proof fn lemma_page<T>(s: Seq<T>, offset: nat, limit: nat)
    ensures
        offset >= s.len() ==> page(s, offset, limit).len() == 0,
        offset < s.len() && limit >= s.len() - offset ==> page(s, offset, limit).len() == s.len()
            - offset,
        offset < s.len() && limit < s.len() - offset ==> page(s, offset, limit).len() == limit,
        forall|k: int|
            0 <= k < page(s, offset, limit).len() ==> #[trigger] page(s, offset, limit)[k] == s[offset
                + k],
{
}

/// After an attempt to add an entry, its id is in the store.
pub proof fn lemma_created_has_id(s: Seq<TodoView>, todo: TodoView)
    ensures
        has_id(created(s, todo), todo.id),
{
    if !has_id(s, todo.id) {
        lemma_position(s, todo.id);
        let t = s.push(todo);
        assert forall|k: int| 0 <= k < s.len() implies (#[trigger] t[k]).id != todo.id by {
            assert(t[k] == s[k]);
        }
        lemma_position_is(t, todo.id, s.len() as int);
    }
}

/// The store after attempts to add each entry of `batch`, one after the other.
pub open spec fn created_all(s: Seq<TodoView>, batch: Seq<TodoView>) -> Seq<TodoView>
    decreases batch.len(),
{
    if batch.len() == 0 {
        s
    } else {
        created_all(created(s, batch[0]), batch.drop_first())
    }
}

/// How many of those attempts add their entry.
pub open spec fn creations(s: Seq<TodoView>, batch: Seq<TodoView>) -> nat
    decreases batch.len(),
{
    if batch.len() == 0 {
        0
    } else {
        let first: nat = if has_id(s, batch[0].id) { 0 } else { 1 };
        first + creations(created(s, batch[0]), batch.drop_first())
    }
}

/// Attempts to add entries whose id the store holds already all fail, and
/// leave the store as it is.
pub proof fn lemma_duplicates_fail(s: Seq<TodoView>, batch: Seq<TodoView>, id: u64)
    requires
        has_id(s, id),
        forall|i: int| 0 <= i < batch.len() ==> (#[trigger] batch[i]).id == id,
    ensures
        creations(s, batch) == 0,
        created_all(s, batch) == s,
    decreases batch.len(),
{
    if batch.len() > 0 {
        let rest = batch.drop_first();
        assert forall|i: int| 0 <= i < rest.len() implies (#[trigger] rest[i]).id == id by {
            assert(rest[i] == batch[i + 1]);
        }
        lemma_duplicates_fail(s, rest, id);
    }
}

/// Of any number of attempts, taken in any one order, to add entries with
/// one id that the store does not hold, exactly the first succeeds.
pub proof fn lemma_one_creation_per_id(s: Seq<TodoView>, batch: Seq<TodoView>, id: u64)
    requires
        batch.len() >= 1,
        !has_id(s, id),
        forall|i: int| 0 <= i < batch.len() ==> (#[trigger] batch[i]).id == id,
    ensures
        creations(s, batch) == 1,
        created_all(s, batch) == s.push(batch[0]),
{
    let rest = batch.drop_first();
    assert forall|i: int| 0 <= i < rest.len() implies (#[trigger] rest[i]).id == id by {
        assert(rest[i] == batch[i + 1]);
    }
    lemma_created_has_id(s, batch[0]);
    lemma_duplicates_fail(created(s, batch[0]), rest, id);
}

/// Each change keeps the ids distinct, and keeps every entry that it does
/// not name.
pub proof fn lemma_changes_keep_distinct(s: Seq<TodoView>, id: u64, todo: TodoView)
    requires
        distinct_ids(s),
    ensures
        distinct_ids(created(s, todo)),
        distinct_ids(updated(s, id, todo)),
        distinct_ids(deleted(s, id)),
        !has_id(deleted(s, id), id),
        updated(s, id, todo).len() == s.len(),
{
    lemma_position(s, id);
    lemma_position(s, todo.id);
    let p = position(s, id);
    if has_id(s, id) {
        let d = s.remove(p);
        assert forall|k: int| 0 <= k < d.len() implies (#[trigger] d[k]).id != id by {
            if k < p {
                assert(d[k] == s[k]);
            } else {
                assert(d[k] == s[k + 1]);
            }
        }
        lemma_position_is(d, id, d.len() as int);
    }
}

/// Whether a call found the entry it named.
#[derive(Debug, Clone, Copy, PartialEq, Eq, Structural)]
pub enum Lookup {
    Found,
    NotFound,
}

/// Whether a call added its entry.
#[derive(Debug, Clone, Copy, PartialEq, Eq, Structural)]
pub enum Creation {
    Created,
    Duplicate,
}

/// The entries of the to-do list, in the order in which they were added.
pub struct Store {
    todos: Vec<Todo>,
}

impl View for Store {
    type V = Seq<TodoView>;

    closed spec fn view(&self) -> Seq<TodoView> {
        self.todos.deep_view()
    }
}

impl Store {
    #[verifier::type_invariant]
    spec fn inv(&self) -> bool {
        distinct_ids(self.todos.deep_view())
    }

    /// An empty store.
    pub fn new() -> (s: Store)
        ensures
            s@ == Seq::<TodoView>::empty(),
    {
        let todos: Vec<Todo> = Vec::new();
        assert(todos.deep_view() =~= Seq::<TodoView>::empty());
        Store { todos }
    }

    /// Moves the entries out and leaves the store empty.
    fn take(&mut self) -> (todos: Vec<Todo>)
        ensures
            todos.deep_view() == old(self)@,
            distinct_ids(todos.deep_view()),
            final(self)@ == Seq::<TodoView>::empty(),
    {
        proof {
            use_type_invariant(&*self);
        }
        let mut taken = Store::new();
        std::mem::swap(self, &mut taken);
        taken.todos
    }

    /// The number of entries.
    pub fn len(&self) -> (n: usize)
        ensures
            n == self@.len(),
            distinct_ids(self@),
    {
        proof {
            use_type_invariant(self);
        }
        self.todos.len()
    }

    /// The index of the first entry with this id, or the length.
    fn find(&self, id: u64) -> (i: usize)
        ensures
            i == position(self@, id),
            i <= self.todos.len(),
            self.todos.len() == self@.len(),
    {
        let mut i: usize = 0;
        while i < self.todos.len()
            invariant
                i <= self.todos.len(),
                forall|k: int| 0 <= k < i ==> (#[trigger] self@[k]).id != id,
            decreases self.todos.len() - i,
        {
            if self.todos[i].id == id {
                assert(self@[i as int].id == id);
                proof {
                    lemma_position_is(self@, id, i as int);
                }
                return i;
            }
            assert(self@[i as int].id != id);
            i += 1;
        }
        proof {
            lemma_position_is(self@, id, i as int);
        }
        i
    }

    /// The entries from `offset` on, `limit` of them at most, in the order
    /// in which they were added.
    pub fn list(&self, offset: usize, limit: usize) -> (out: Vec<Todo>)
        ensures
            out.deep_view() == page(self@, offset as nat, limit as nat),
    {
        let n = self.todos.len();
        let mut out: Vec<Todo> = Vec::new();
        if offset >= n {
            assert(out.deep_view() =~= Seq::<TodoView>::empty());
            return out;
        }
        let end: usize = if limit >= n - offset { n } else { offset + limit };
        let mut i: usize = offset;
        while i < end
            invariant
                offset <= i <= end <= n,
                n == self.todos.len(),
                out.len() == i - offset,
                forall|k: int| 0 <= k < out.len() ==> (#[trigger] out[k])@ == self.todos[offset + k]@,
            decreases end - i,
        {
            out.push(self.todos[i].clone());
            i += 1;
        }
        assert(out.deep_view() =~= self@.subrange(offset as int, end as int));
        out
    }

    /// Adds `todo` at the end, unless an entry with its id exists already.
    pub fn create(&mut self, todo: Todo) -> (r: Creation)
        ensures
            r == (if has_id(old(self)@, todo.id) { Creation::Duplicate } else { Creation::Created }),
            final(self)@ == created(old(self)@, todo@),
            distinct_ids(final(self)@),
    {
        proof {
            use_type_invariant(&*self);
        }
        let i = self.find(todo.id);
        if i < self.todos.len() {
            return Creation::Duplicate;
        }
        proof {
            lemma_position(self@, todo.id);
        }
        let ghost before = self@;
        let ghost added = todo@;
        let mut todos = self.take();
        todos.push(todo);
        assert(todos.deep_view() =~= before.push(added));
        *self = Store { todos };
        Creation::Created
    }

    /// Gives the entry `id` the text and the flag of `new`. The entry keeps
    /// its place and its id.
    pub fn update(&mut self, id: u64, new: Todo) -> (r: Lookup)
        ensures
            r == (if has_id(old(self)@, id) { Lookup::Found } else { Lookup::NotFound }),
            final(self)@ == updated(old(self)@, id, new@),
            distinct_ids(final(self)@),
    {
        proof {
            use_type_invariant(&*self);
        }
        let i = self.find(id);
        if i >= self.todos.len() {
            return Lookup::NotFound;
        }
        let ghost before = self@;
        proof {
            lemma_position(before, id);
        }
        let ghost entry = TodoView { id, text: new@.text, completed: new@.completed };
        let mut todos = self.take();
        todos.set(i, Todo { id, text: new.text, completed: new.completed });
        assert(todos.deep_view() =~= before.update(i as int, entry));
        *self = Store { todos };
        Lookup::Found
    }

    /// Removes the entry `id`. The other entries keep their order.
    pub fn delete(&mut self, id: u64) -> (r: Lookup)
        ensures
            r == (if has_id(old(self)@, id) { Lookup::Found } else { Lookup::NotFound }),
            final(self)@ == deleted(old(self)@, id),
            distinct_ids(final(self)@),
    {
        proof {
            use_type_invariant(&*self);
        }
        let i = self.find(id);
        if i >= self.todos.len() {
            return Lookup::NotFound;
        }
        let ghost before = self@;
        let mut todos = self.take();
        todos.remove(i);
        assert(todos.deep_view() =~= before.remove(i as int));
        *self = Store { todos };
        Lookup::Found
    }
}

} // verus!
