//! Extractors: the leaves of a filter. Each reads one part of a request:
//! a path segment, the query string, a header or the body.

use vstd::prelude::*;
use crate::codec::{decode_object, decode_pairs, json_object, query_pairs};
use crate::fields::{
    fields_from_pairs, members_from_object, read_fields, read_members, Field, Member,
};
use crate::rejection::{Cause, Rejection};
use crate::request::{header_value, Method, Request, RequestView};
use crate::value::{Kind, Value, ValueView};

verus! {

/// The rejection of a query string that cannot be read as asked.
pub open spec fn invalid_query() -> Cause {
    Cause::InvalidParameter { detail: "INVALID_QUERY"@ }
}

/// The rejection of a body that cannot be read as asked.
pub open spec fn invalid_body() -> Cause {
    Cause::InvalidParameter { detail: "INVALID_BODY"@ }
}

/// A leaf of a filter: it reads one part of the request.
#[derive(Debug)]
pub enum Extractor {
    /// The next path segment is exactly this text. Rejects with `NotFound`.
    Literal(String),
    /// The next path segment is not empty and reads as a value of this
    /// kind. Rejects with `NotFound`, so that a sibling route can match.
    Param(Kind),
    /// No path segment is left. Rejects with `NotFound`.
    End,
    /// The request has this method. Rejects with `MethodNotAllowed`.
    Method(Method),
    /// The request has this method, taken as a part of the route like a
    /// path segment: rejects with `NotFound`, so that a route for another
    /// method on the same path can match.
    Verb(Method),
    /// The query string holds these fields; a request without a query
    /// string counts as one with an empty one. Rejects with
    /// `InvalidParameter`.
    Query(Vec<Field>),
    /// The query string as it is. Rejects with `InvalidParameter` where
    /// the request has none.
    RawQuery,
    /// The header `name` has exactly this value. Rejects with `NotFound`:
    /// the header decides the route, it is no authorisation.
    HeaderExact { name: String, value: String },
    /// The header `name` reads as a value of this kind. Rejects with
    /// `NotFound`.
    Header { name: String, kind: Kind },
    /// The body has at most `limit` bytes, else `PayloadTooLarge`; and it
    /// is a JSON object with these members, else `InvalidParameter`. The
    /// object may hold other members too.
    Json { limit: u64, members: Vec<Member> },
}

fn clone_fields(fields: &Vec<Field>) -> (r: Vec<Field>)
    ensures
        r@ == fields@,
{
    let mut out: Vec<Field> = Vec::new();
    let mut i: usize = 0;
    while i < fields.len()
        invariant
            i <= fields.len(),
            out@ == fields@.take(i as int),
        decreases fields.len() - i,
    {
        out.push(fields[i].clone());
        assert(out@ =~= fields@.take(i + 1));
        i += 1;
    }
    assert(fields@.take(fields.len() as int) =~= fields@);
    out
}

fn clone_members(members: &Vec<Member>) -> (r: Vec<Member>)
    ensures
        r@ == members@,
{
    let mut out: Vec<Member> = Vec::new();
    let mut i: usize = 0;
    while i < members.len()
        invariant
            i <= members.len(),
            out@ == members@.take(i as int),
        decreases members.len() - i,
    {
        out.push(members[i].clone());
        assert(out@ =~= members@.take(i + 1));
        i += 1;
    }
    assert(members@.take(members.len() as int) =~= members@);
    out
}

impl Clone for Extractor {
    /// An extractor that extracts the same from every request.
    fn clone(&self) -> (r: Extractor)
        ensures
            forall|req: RequestView, pos: int| #[trigger]
                r.extract(req, pos) == self.extract(req, pos),
    {
        match self {
            Extractor::Literal(text) => Extractor::Literal(text.clone()),
            Extractor::Param(kind) => Extractor::Param(*kind),
            Extractor::End => Extractor::End,
            Extractor::Method(method) => Extractor::Method(*method),
            Extractor::Verb(method) => Extractor::Verb(*method),
            Extractor::Query(fields) => Extractor::Query(clone_fields(fields)),
            Extractor::RawQuery => Extractor::RawQuery,
            Extractor::HeaderExact { name, value } => Extractor::HeaderExact {
                name: name.clone(),
                value: value.clone(),
            },
            Extractor::Header { name, kind } => Extractor::Header { name: name.clone(), kind: *kind },
            Extractor::Json { limit, members } => Extractor::Json {
                limit: *limit,
                members: clone_members(members),
            },
        }
    }
}

impl Extractor {
    /// What this extractor makes of the request when `pos` path segments
    /// are consumed: the values and the new number of consumed segments, or
    /// the rejection.
    pub open spec fn extract(self, req: RequestView, pos: int) -> Result<(Seq<ValueView>, int), Cause> {
        match self {
            Extractor::Literal(text) => if 0 <= pos < req.path.len() && req.path[pos] == text@ {
                Ok((Seq::empty(), pos + 1))
            } else {
                Err(Cause::NotFound)
            },
            Extractor::Param(kind) => if 0 <= pos < req.path.len() && req.path[pos].len() > 0
                && kind.read(req.path[pos]) is Some {
                Ok((seq![kind.read(req.path[pos])->0], pos + 1))
            } else {
                Err(Cause::NotFound)
            },
            Extractor::End => if pos >= req.path.len() {
                Ok((Seq::empty(), pos))
            } else {
                Err(Cause::NotFound)
            },
            Extractor::Method(method) => if req.method == method {
                Ok((Seq::empty(), pos))
            } else {
                Err(Cause::MethodNotAllowed)
            },
            Extractor::Verb(method) => if req.method == method {
                Ok((Seq::empty(), pos))
            } else {
                Err(Cause::NotFound)
            },
            Extractor::Query(fields) => {
                let text = match req.query {
                    Some(q) => q,
                    None => Seq::empty(),
                };
                match query_pairs(text) {
                    Some(pairs) => match read_fields(fields@, pairs) {
                        Some(values) => Ok((values, pos)),
                        None => Err(invalid_query()),
                    },
                    None => Err(invalid_query()),
                }
            },
            Extractor::RawQuery => match req.query {
                Some(q) => Ok((seq![ValueView::Text(q)], pos)),
                None => Err(invalid_query()),
            },
            Extractor::HeaderExact { name, value } => if header_value(req.headers, name@) == Some(
                value@,
            ) {
                Ok((Seq::empty(), pos))
            } else {
                Err(Cause::NotFound)
            },
            Extractor::Header { name, kind } => match header_value(req.headers, name@) {
                Some(text) => match kind.read(text) {
                    Some(v) => Ok((seq![v], pos)),
                    None => Err(Cause::NotFound),
                },
                None => Err(Cause::NotFound),
            },
            Extractor::Json { limit, members } => if req.body.len() > limit {
                Err(Cause::PayloadTooLarge)
            } else {
                match json_object(req.body) {
                    Some(object) => match read_members(members@, object) {
                        Some(values) => Ok((values, pos)),
                        None => Err(invalid_body()),
                    },
                    None => Err(invalid_body()),
                }
            },
        }
    }

    /// Reads this extractor's part of the request.
    pub fn apply(&self, req: &Request, pos: usize) -> (r: Result<(Vec<Value>, usize), Rejection>)
        ensures
            match r {
                Ok((values, next)) => self.extract(req@, pos as int) == Ok::<_, Cause>(
                    (values.deep_view(), next as int),
                ),
                Err(e) => self.extract(req@, pos as int) == Err::<(Seq<ValueView>, int), _>(e@),
            },
    {
        let none: Vec<Value> = Vec::new();
        assert(none.deep_view() =~= Seq::<ValueView>::empty());
        match self {
            Extractor::Literal(text) => {
                if pos < req.path.len() && req.path[pos] == *text {
                    Ok((none, pos + 1))
                } else {
                    Err(Rejection::NotFound)
                }
            },
            Extractor::Param(kind) => {
                if pos < req.path.len() && !req.path[pos].as_str().is_empty() {
                    match kind.parse(req.path[pos].as_str()) {
                        Some(v) => {
                            let mut values = none;
                            values.push(v);
                            assert(values.deep_view() =~= seq![v@]);
                            Ok((values, pos + 1))
                        },
                        None => Err(Rejection::NotFound),
                    }
                } else {
                    Err(Rejection::NotFound)
                }
            },
            Extractor::End => {
                if pos >= req.path.len() {
                    Ok((none, pos))
                } else {
                    Err(Rejection::NotFound)
                }
            },
            Extractor::Method(method) => {
                if req.method == *method {
                    Ok((none, pos))
                } else {
                    Err(Rejection::MethodNotAllowed)
                }
            },
            Extractor::Verb(method) => {
                if req.method == *method {
                    Ok((none, pos))
                } else {
                    Err(Rejection::NotFound)
                }
            },
            Extractor::Query(fields) => {
                let pairs = match &req.query {
                    Some(q) => decode_pairs(q.as_str()),
                    None => {
                        proof {
                            reveal_strlit("");
                        }
                        assert(""@ =~= Seq::<char>::empty());
                        decode_pairs("")
                    },
                };
                let values = match pairs {
                    Some(pairs) => fields_from_pairs(fields, &pairs),
                    None => None,
                };
                match values {
                    Some(values) => Ok((values, pos)),
                    None => Err(Rejection::InvalidParameter { detail: "INVALID_QUERY".to_owned() }),
                }
            },
            Extractor::RawQuery => match &req.query {
                Some(q) => {
                    let mut values = none;
                    values.push(Value::Text(q.clone()));
                    assert(values.deep_view() =~= seq![ValueView::Text(q@)]);
                    Ok((values, pos))
                },
                None => Err(Rejection::InvalidParameter { detail: "INVALID_QUERY".to_owned() }),
            },
            Extractor::HeaderExact { name, value } => match req.header(name.as_str()) {
                Some(found) => {
                    if *found == *value {
                        Ok((none, pos))
                    } else {
                        Err(Rejection::NotFound)
                    }
                },
                None => Err(Rejection::NotFound),
            },
            Extractor::Header { name, kind } => match req.header(name.as_str()) {
                Some(found) => match kind.parse(found.as_str()) {
                    Some(v) => {
                        let mut values = none;
                        values.push(v);
                        assert(values.deep_view() =~= seq![v@]);
                        Ok((values, pos))
                    },
                    None => Err(Rejection::NotFound),
                },
                None => Err(Rejection::NotFound),
            },
            Extractor::Json { limit, members } => {
                if req.body.len() as u64 > *limit {
                    Err(Rejection::PayloadTooLarge)
                } else {
                    let values = match decode_object(req.body.as_slice()) {
                        Some(object) => members_from_object(members, &object),
                        None => None,
                    };
                    match values {
                        Some(values) => Ok((values, pos)),
                        None => Err(
                            Rejection::InvalidParameter { detail: "INVALID_BODY".to_owned() },
                        ),
                    }
                }
            },
        }
    }
}

} // verus!
