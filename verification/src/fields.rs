//! The named fields of a query string and the named members of a JSON
//! body: what a route asks for, and how it is read from what the decoders
//! found.

use vstd::prelude::*;
use crate::codec::{Json, JsonView};
use crate::value::{Kind, Value, ValueView};

verus! {

/// One named field of a query string.
#[derive(Debug)]
pub struct Field {
    pub name: String,
    pub kind: Kind,
    /// Whether a query string without the field is turned down.
    pub required: bool,
}

/// One named member of a JSON body. Every member is required.
#[derive(Debug)]
pub struct Member {
    pub name: String,
    pub kind: Kind,
}

impl Clone for Field {
    fn clone(&self) -> (r: Field)
        ensures
            r == *self,
    {
        Field { name: self.name.clone(), kind: self.kind, required: self.required }
    }
}

impl Clone for Member {
    fn clone(&self) -> (r: Member)
        ensures
            r == *self,
    {
        Member { name: self.name.clone(), kind: self.kind }
    }
}

/// The values under the key `name`, in the order of the pairs.
pub open spec fn values_of(pairs: Seq<(Seq<char>, Seq<char>)>, name: Seq<char>) -> Seq<Seq<char>>
    decreases pairs.len(),
{
    if pairs.len() == 0 {
        Seq::empty()
    } else if pairs.last().0 == name {
        values_of(pairs.drop_last(), name).push(pairs.last().1)
    } else {
        values_of(pairs.drop_last(), name)
    }
}

/// The value of one field of a query: `Absent` for an optional field that
/// has no pair, and `None` where the query is invalid: a required field
/// without a pair, a field with more than one pair, or a value that is not
/// of the field's kind.
pub open spec fn read_field(
    name: Seq<char>,
    kind: Kind,
    required: bool,
    pairs: Seq<(Seq<char>, Seq<char>)>,
) -> Option<ValueView> {
    let found = values_of(pairs, name);
    if found.len() == 0 {
        if required {
            None
        } else {
            Some(ValueView::Absent)
        }
    } else if found.len() == 1 {
        kind.read(found[0])
    } else {
        None
    }
}

impl Field {
    /// A field that a query may leave out.
    pub fn optional(name: &str, kind: Kind) -> (f: Field)
        ensures
            f.name@ == name@,
            f.kind == kind,
            !f.required,
    {
        Field { name: name.to_owned(), kind, required: false }
    }

    /// A field that a query has to hold.
    pub fn required(name: &str, kind: Kind) -> (f: Field)
        ensures
            f.name@ == name@,
            f.kind == kind,
            f.required,
    {
        Field { name: name.to_owned(), kind, required: true }
    }

    /// The value of this field in the pairs of a query.
    pub open spec fn read(self, pairs: Seq<(Seq<char>, Seq<char>)>) -> Option<ValueView> {
        read_field(self.name@, self.kind, self.required, pairs)
    }
}

/// The values of all fields, in the order of the fields; `None` where one
/// of them is invalid.
pub open spec fn read_fields(fields: Seq<Field>, pairs: Seq<(Seq<char>, Seq<char>)>) -> Option<
    Seq<ValueView>,
> {
    if forall|i: int| 0 <= i < fields.len() ==> (#[trigger] fields[i].read(pairs)) is Some {
        Some(Seq::new(fields.len(), |i: int| fields[i].read(pairs)->0))
    } else {
        None
    }
}

/// Reads one field from the pairs of a query string.
pub fn field_from_pairs(field: &Field, pairs: &Vec<(String, String)>) -> (r: Option<Value>)
    ensures
        r.deep_view() == field.read(pairs.deep_view()),
{
    let ghost all = pairs.deep_view();
    let mut count: usize = 0;
    let mut first: usize = 0;
    let mut i: usize = 0;
    assert(all.take(0) =~= Seq::<(Seq<char>, Seq<char>)>::empty());
    while i < pairs.len()
        invariant
            i <= pairs.len(),
            all == pairs.deep_view(),
            count <= i,
            count == values_of(all.take(i as int), field.name@).len(),
            count > 0 ==> first < i && values_of(all.take(i as int), field.name@)[0]
                == all[first as int].1,
        decreases pairs.len() - i,
    {
        let ghost seen = all.take(i as int);
        let ghost next = all.take(i + 1);
        assert(next.drop_last() =~= seen);
        assert(next.last() == all[i as int]);
        assert(all[i as int] == pairs[i as int].deep_view());
        if pairs[i].0 == field.name {
            if count == 0 {
                first = i;
            }
            count += 1;
        }
        i += 1;
    }
    assert(all.take(i as int) =~= all);
    if count == 0 {
        if field.required {
            None
        } else {
            Some(Value::Absent)
        }
    } else if count == 1 {
        assert(all[first as int] == pairs[first as int].deep_view());
        field.kind.parse(pairs[first].1.as_str())
    } else {
        None
    }
}

/// Reads all fields from the pairs of a query string.
pub fn fields_from_pairs(fields: &Vec<Field>, pairs: &Vec<(String, String)>) -> (r: Option<
    Vec<Value>,
>)
    ensures
        r.deep_view() == read_fields(fields@, pairs.deep_view()),
{
    let ghost all = pairs.deep_view();
    let mut out: Vec<Value> = Vec::new();
    let mut i: usize = 0;
    while i < fields.len()
        invariant
            i <= fields.len(),
            all == pairs.deep_view(),
            out.len() == i,
            forall|k: int| 0 <= k < i ==> #[trigger] fields@[k].read(all) == Some(out[k]@),
        decreases fields.len() - i,
    {
        match field_from_pairs(&fields[i], pairs) {
            Some(v) => {
                out.push(v);
            },
            None => {
                assert(!(fields@[i as int].read(all) is Some));
                return None;
            },
        }
        i += 1;
    }
    assert(out.deep_view() =~= read_fields(fields@, all)->0);
    Some(out)
}

/// The value under the first key `name` of an object.
pub open spec fn member_of(object: Seq<(Seq<char>, JsonView)>, name: Seq<char>) -> Option<JsonView>
    decreases object.len(),
{
    if object.len() == 0 {
        None
    } else if object[0].0 == name {
        Some(object[0].1)
    } else {
        member_of(object.drop_first(), name)
    }
}

/// What a JSON value is as a value of `kind`: a number that is unsigned and
/// no larger than the maximum, a string, or `true` or `false`; `None` for a
/// value of another type.
pub open spec fn read_json(kind: Kind, value: JsonView) -> Option<ValueView> {
    match (kind, value) {
        (Kind::Unsigned { max }, JsonView::Number(Some(n))) => if n <= max {
            Some(ValueView::Unsigned(n))
        } else {
            None
        },
        (Kind::Text, JsonView::Text(s)) => Some(ValueView::Text(s)),
        (Kind::Flag, JsonView::Flag(b)) => Some(ValueView::Flag(b)),
        _ => None,
    }
}

/// The value of one member of a JSON object; `None` where the object does
/// not hold the member with a value of its kind.
pub open spec fn read_member(name: Seq<char>, kind: Kind, object: Seq<(Seq<char>, JsonView)>) -> Option<
    ValueView,
> {
    match member_of(object, name) {
        Some(value) => read_json(kind, value),
        None => None,
    }
}

impl Member {
    /// A member with this name and kind.
    pub fn new(name: &str, kind: Kind) -> (m: Member)
        ensures
            m.name@ == name@,
            m.kind == kind,
    {
        Member { name: name.to_owned(), kind }
    }

    /// The value of this member in a JSON object.
    pub open spec fn read(self, object: Seq<(Seq<char>, JsonView)>) -> Option<ValueView> {
        read_member(self.name@, self.kind, object)
    }
}

/// The values of all members, in the order of the members; `None` where
/// the object lacks one of them.
pub open spec fn read_members(members: Seq<Member>, object: Seq<(Seq<char>, JsonView)>) -> Option<
    Seq<ValueView>,
> {
    if forall|i: int| 0 <= i < members.len() ==> (#[trigger] members[i].read(object)) is Some {
        Some(Seq::new(members.len(), |i: int| members[i].read(object)->0))
    } else {
        None
    }
}

/// Reads a JSON value as a value of `kind`.
pub fn value_from_json(kind: Kind, value: &Json) -> (r: Option<Value>)
    ensures
        r.deep_view() == read_json(kind, value@),
{
    match kind {
        Kind::Unsigned { max } => match value {
            Json::Number(Some(n)) => {
                if *n <= max {
                    Some(Value::Unsigned(*n))
                } else {
                    None
                }
            },
            _ => None,
        },
        Kind::Text => match value {
            Json::Text(s) => Some(Value::Text(s.clone())),
            _ => None,
        },
        Kind::Flag => match value {
            Json::Flag(b) => Some(Value::Flag(*b)),
            _ => None,
        },
    }
}

/// Reads one member from a JSON object.
pub fn member_from_object(member: &Member, object: &Vec<(String, Json)>) -> (r: Option<Value>)
    ensures
        r.deep_view() == member.read(object.deep_view()),
{
    let ghost all = object.deep_view();
    let mut i: usize = 0;
    assert(all.skip(0) =~= all);
    while i < object.len()
        invariant
            i <= object.len(),
            all == object.deep_view(),
            member_of(all, member.name@) == member_of(all.skip(i as int), member.name@),
        decreases object.len() - i,
    {
        let ghost rest = all.skip(i as int);
        assert(rest[0] == all[i as int]);
        assert(all[i as int] == object[i as int].deep_view());
        assert(rest.drop_first() =~= all.skip(i + 1));
        if object[i].0 == member.name {
            return value_from_json(member.kind, &object[i].1);
        }
        i += 1;
    }
    assert(all.skip(i as int).len() == 0);
    None
}

/// Reads all members from a JSON object.
pub fn members_from_object(members: &Vec<Member>, object: &Vec<(String, Json)>) -> (r: Option<
    Vec<Value>,
>)
    ensures
        r.deep_view() == read_members(members@, object.deep_view()),
{
    let ghost all = object.deep_view();
    let mut out: Vec<Value> = Vec::new();
    let mut i: usize = 0;
    while i < members.len()
        invariant
            i <= members.len(),
            all == object.deep_view(),
            out.len() == i,
            forall|k: int| 0 <= k < i ==> #[trigger] members@[k].read(all) == Some(out[k]@),
        decreases members.len() - i,
    {
        match member_from_object(&members[i], object) {
            Some(v) => {
                out.push(v);
            },
            None => {
                assert(!(members@[i as int].read(all) is Some));
                return None;
            },
        }
        i += 1;
    }
    assert(out.deep_view() =~= read_members(members@, all)->0);
    Some(out)
}

} // verus!
