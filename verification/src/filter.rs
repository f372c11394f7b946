//! Filters: trees of extractors, built with the combinators `and`, `or`,
//! `check` and `map`.
//!
//! A filter does not change once it is built. Evaluating it walks the tree
//! against one request and gives either the extracted values, in the order
//! of extraction, or the rejection to recover from.

use vstd::prelude::*;
use crate::extractor::Extractor;
use crate::fields::{Field, Member};
use crate::rejection::{Cause, Rejection};
use crate::request::{Method, Request, RequestView};
use crate::value::{Kind, Value, ValueView};

verus! {

/// A test on the values that a filter has extracted.
#[derive(Debug)]
pub enum Guard {
    /// Turns down a zero as the last extracted value, with a custom
    /// rejection that carries this tag and detail.
    NonZero { tag: String, detail: String },
}

impl Guard {
    /// The guard that turns down a zero with a custom rejection.
    pub fn non_zero(tag: &str, detail: &str) -> (g: Guard)
        ensures
            g matches Guard::NonZero { tag: t, detail: d } && t@ == tag@ && d@ == detail@,
    {
        Guard::NonZero { tag: tag.to_owned(), detail: detail.to_owned() }
    }

    /// Whether the guard turns these values down.
    pub open spec fn rejects(self, values: Seq<ValueView>) -> bool {
        match self {
            Guard::NonZero { .. } => values.len() > 0 && values.last() == ValueView::Unsigned(0),
        }
    }

    /// The rejection that the guard turns values down with.
    pub open spec fn cause(self) -> Cause {
        match self {
            Guard::NonZero { tag, detail } => Cause::Custom { tag: tag@, detail: detail@ },
        }
    }

    /// Tests the extracted values.
    pub fn test(&self, values: &Vec<Value>) -> (r: Result<(), Rejection>)
        ensures
            r is Err <==> self.rejects(values.deep_view()),
            r matches Err(e) ==> e@ == self.cause(),
    {
        match self {
            Guard::NonZero { tag, detail } => {
                let n = values.len();
                if n > 0 {
                    assert(values.deep_view().last() == values[n - 1]@);
                    match &values[n - 1] {
                        Value::Unsigned(v) => {
                            if *v == 0 {
                                return Err(
                                    Rejection::Custom { tag: tag.clone(), detail: detail.clone() },
                                );
                            }
                        },
                        _ => {},
                    }
                }
                Ok(())
            },
        }
    }
}

impl Clone for Guard {
    fn clone(&self) -> (r: Guard)
        ensures
            r == *self,
    {
        match self {
            Guard::NonZero { tag, detail } => Guard::NonZero {
                tag: tag.clone(),
                detail: detail.clone(),
            },
        }
    }
}

/// A filter: a tree of extractors and combinators. `H` names the handlers
/// that `map` binds routes to.
#[derive(Debug)]
pub enum Filter<H> {
    /// One extractor.
    Leaf(Extractor),
    /// The first, then the second on what the first left of the path.
    And(Box<Filter<H>>, Box<Filter<H>>),
    /// The first, or else the second on the request as it was.
    Or(Box<Filter<H>>, Box<Filter<H>>),
    /// The filter, then a guard on its values.
    Check(Box<Filter<H>>, Guard),
    /// The filter, bound to a handler.
    Bound(Box<Filter<H>>, H),
}

impl<H: Copy> Clone for Filter<H> {
    /// A filter that makes the same of every request as this one.
    fn clone(&self) -> (f: Filter<H>)
        ensures
            forall|req: RequestView, pos: int| #[trigger] f.eval(req, pos) == self.eval(req, pos),
    {
        self.duplicate()
    }
}

/// The mathematical value of a match: the extracted values in the order of
/// extraction, the number of path segments consumed, and the handler of the
/// route, where one is bound.
pub struct MatchView<H> {
    pub values: Seq<ValueView>,
    pub pos: int,
    pub handler: Option<H>,
}

/// What a filter extracted from a request.
#[derive(Debug)]
pub struct Match<'a, H> {
    pub values: Vec<Value>,
    pub pos: usize,
    pub handler: Option<&'a H>,
}

impl<'a, H> View for Match<'a, H> {
    type V = MatchView<H>;

    open spec fn view(&self) -> MatchView<H> {
        MatchView {
            values: self.values.deep_view(),
            pos: self.pos as int,
            handler: match self.handler {
                Some(h) => Some(*h),
                None => None,
            },
        }
    }
}

/// The mathematical value of the result of an evaluation.
pub open spec fn outcome<H>(r: Result<Match<'_, H>, Rejection>) -> Result<MatchView<H>, Cause> {
    match r {
        Ok(m) => Ok(m@),
        Err(e) => Err(e@),
    }
}

impl<H> Filter<H> {
    /// What this filter makes of a request when `pos` path segments are
    /// consumed.
    ///
    /// `And` stops at the first rejection and joins the values of both
    /// sides in one flat sequence. `Or` keeps the first match; where the
    /// first side rejects, the second starts from `pos` again, and where
    /// both reject the more specific rejection is kept.
    pub open spec fn eval(self, req: RequestView, pos: int) -> Result<MatchView<H>, Cause>
        decreases self,
    {
        match self {
            Filter::Leaf(e) => match e.extract(req, pos) {
                Ok((values, next)) => Ok(MatchView { values, pos: next, handler: None }),
                Err(c) => Err(c),
            },
            Filter::And(a, b) => match a.eval(req, pos) {
                Ok(first) => match b.eval(req, first.pos) {
                    Ok(second) => Ok(
                        MatchView {
                            values: first.values + second.values,
                            pos: second.pos,
                            handler: if second.handler is Some {
                                second.handler
                            } else {
                                first.handler
                            },
                        },
                    ),
                    Err(c) => Err(c),
                },
                Err(c) => Err(c),
            },
            Filter::Or(a, b) => match a.eval(req, pos) {
                Ok(first) => Ok(first),
                Err(c1) => match b.eval(req, pos) {
                    Ok(second) => Ok(second),
                    Err(c2) => Err(c1.prefer(c2)),
                },
            },
            Filter::Check(f, guard) => match f.eval(req, pos) {
                Ok(m) => if guard.rejects(m.values) {
                    Err(guard.cause())
                } else {
                    Ok(m)
                },
                Err(c) => Err(c),
            },
            Filter::Bound(f, handler) => match f.eval(req, pos) {
                Ok(m) => Ok(MatchView { values: m.values, pos: m.pos, handler: Some(handler) }),
                Err(c) => Err(c),
            },
        }
    }

    /// Evaluates this filter when `pos` path segments are consumed.
    pub fn run<'a>(&'a self, req: &Request, pos: usize) -> (r: Result<Match<'a, H>, Rejection>)
        ensures
            outcome(r) == self.eval(req@, pos as int),
        decreases self,
    {
        match self {
            Filter::Leaf(e) => match e.apply(req, pos) {
                Ok((values, next)) => Ok(Match { values, pos: next, handler: None }),
                Err(e) => Err(e),
            },
            Filter::And(a, b) => {
                let first = match a.run(req, pos) {
                    Ok(m) => m,
                    Err(e) => {
                        return Err(e);
                    },
                };
                let second = match b.run(req, first.pos) {
                    Ok(m) => m,
                    Err(e) => {
                        return Err(e);
                    },
                };
                let ghost joined = first@.values + second@.values;
                let handler = if second.handler.is_some() {
                    second.handler
                } else {
                    first.handler
                };
                let mut values = first.values;
                let mut more = second.values;
                values.append(&mut more);
                assert(values.deep_view() =~= joined);
                Ok(Match { values, pos: second.pos, handler })
            },
            Filter::Or(a, b) => match a.run(req, pos) {
                Ok(m) => Ok(m),
                Err(e1) => match b.run(req, pos) {
                    Ok(m) => Ok(m),
                    Err(e2) => Err(e1.combine(e2)),
                },
            },
            Filter::Check(f, guard) => match f.run(req, pos) {
                Ok(m) => match guard.test(&m.values) {
                    Ok(()) => Ok(m),
                    Err(e) => Err(e),
                },
                Err(e) => Err(e),
            },
            Filter::Bound(f, handler) => match f.run(req, pos) {
                Ok(m) => Ok(Match { values: m.values, pos: m.pos, handler: Some(handler) }),
                Err(e) => Err(e),
            },
        }
    }

    /// A filter that makes the same of every request as this one.
    fn duplicate(&self) -> (f: Filter<H>) where H: Copy
        ensures
            forall|req: RequestView, pos: int| #[trigger] f.eval(req, pos) == self.eval(req, pos),
        decreases self,
    {
        match self {
            Filter::Leaf(e) => Filter::Leaf(e.clone()),
            Filter::And(a, b) => {
                let x = a.duplicate();
                let y = b.duplicate();
                let f = Filter::And(Box::new(x), Box::new(y));
                assert forall|req: RequestView, pos: int| #[trigger]
                    f.eval(req, pos) == self.eval(req, pos) by {
                    assert(x.eval(req, pos) == a.eval(req, pos));
                    if let Ok(first) = a.eval(req, pos) {
                        assert(y.eval(req, first.pos) == b.eval(req, first.pos));
                    }
                }
                f
            },
            Filter::Or(a, b) => {
                let x = a.duplicate();
                let y = b.duplicate();
                let f = Filter::Or(Box::new(x), Box::new(y));
                assert forall|req: RequestView, pos: int| #[trigger]
                    f.eval(req, pos) == self.eval(req, pos) by {
                    assert(x.eval(req, pos) == a.eval(req, pos));
                    assert(y.eval(req, pos) == b.eval(req, pos));
                }
                f
            },
            Filter::Check(inner, guard) => {
                let x = inner.duplicate();
                let f = Filter::Check(Box::new(x), guard.clone());
                assert forall|req: RequestView, pos: int| #[trigger]
                    f.eval(req, pos) == self.eval(req, pos) by {
                    assert(x.eval(req, pos) == inner.eval(req, pos));
                }
                f
            },
            Filter::Bound(inner, handler) => {
                let x = inner.duplicate();
                let f = Filter::Bound(Box::new(x), *handler);
                assert forall|req: RequestView, pos: int| #[trigger]
                    f.eval(req, pos) == self.eval(req, pos) by {
                    assert(x.eval(req, pos) == inner.eval(req, pos));
                }
                f
            },
        }
    }

    /// Evaluates this filter against a request, from the start of its path.
    pub fn evaluate<'a>(&'a self, req: &Request) -> (r: Result<Match<'a, H>, Rejection>)
        ensures
            outcome(r) == self.eval(req@, 0),
    {
        self.run(req, 0)
    }
}

impl<H> Filter<H> {
    /// Matches one path segment that is exactly `segment`.
    pub fn path(segment: &str) -> (f: Filter<H>)
        ensures
            f matches Filter::Leaf(Extractor::Literal(text)) && text@ == segment@,
    {
        Filter::Leaf(Extractor::Literal(segment.to_owned()))
    }

    /// Extracts one path segment as a value of `kind`.
    pub fn param(kind: Kind) -> (f: Filter<H>)
        ensures
            f == Filter::<H>::Leaf(Extractor::Param(kind)),
    {
        Filter::Leaf(Extractor::Param(kind))
    }

    /// Matches the end of the path.
    pub fn end() -> (f: Filter<H>)
        ensures
            f == Filter::<H>::Leaf(Extractor::End),
    {
        Filter::Leaf(Extractor::End)
    }

    /// Matches requests with this method and rejects others with
    /// `MethodNotAllowed`.
    pub fn method(method: Method) -> (f: Filter<H>)
        ensures
            f == Filter::<H>::Leaf(Extractor::Method(method)),
    {
        Filter::Leaf(Extractor::Method(method))
    }

    /// Matches requests with this method and rejects others with `NotFound`.
    pub fn verb(method: Method) -> (f: Filter<H>)
        ensures
            f == Filter::<H>::Leaf(Extractor::Verb(method)),
    {
        Filter::Leaf(Extractor::Verb(method))
    }

    /// `method(Method::Get)`.
    pub fn get() -> (f: Filter<H>)
        ensures
            f == Filter::<H>::Leaf(Extractor::Method(Method::Get)),
    {
        Filter::Leaf(Extractor::Method(Method::Get))
    }

    /// `method(Method::Post)`.
    pub fn post() -> (f: Filter<H>)
        ensures
            f == Filter::<H>::Leaf(Extractor::Method(Method::Post)),
    {
        Filter::Leaf(Extractor::Method(Method::Post))
    }

    /// `method(Method::Put)`.
    pub fn put() -> (f: Filter<H>)
        ensures
            f == Filter::<H>::Leaf(Extractor::Method(Method::Put)),
    {
        Filter::Leaf(Extractor::Method(Method::Put))
    }

    /// `method(Method::Delete)`.
    pub fn delete() -> (f: Filter<H>)
        ensures
            f == Filter::<H>::Leaf(Extractor::Method(Method::Delete)),
    {
        Filter::Leaf(Extractor::Method(Method::Delete))
    }

    /// Extracts these fields from the query string, one value for each.
    pub fn query(fields: Vec<Field>) -> (f: Filter<H>)
        ensures
            f == Filter::<H>::Leaf(Extractor::Query(fields)),
    {
        Filter::Leaf(Extractor::Query(fields))
    }

    /// Extracts the query string as it is.
    pub fn raw_query() -> (f: Filter<H>)
        ensures
            f == Filter::<H>::Leaf(Extractor::RawQuery),
    {
        Filter::Leaf(Extractor::RawQuery)
    }

    /// Matches requests whose header `name` has exactly this value.
    pub fn header_exact(name: &str, value: &str) -> (f: Filter<H>)
        ensures
            f matches Filter::Leaf(Extractor::HeaderExact { name: n, value: v }) && n@ == name@
                && v@ == value@,
    {
        Filter::Leaf(Extractor::HeaderExact { name: name.to_owned(), value: value.to_owned() })
    }

    /// Extracts the header `name` as a value of `kind`.
    pub fn header(name: &str, kind: Kind) -> (f: Filter<H>)
        ensures
            f matches Filter::Leaf(Extractor::Header { name: n, kind: k }) && n@ == name@ && k
                == kind,
    {
        Filter::Leaf(Extractor::Header { name: name.to_owned(), kind })
    }

    /// Extracts these members from a JSON body of at most `limit` bytes.
    pub fn json(limit: u64, members: Vec<Member>) -> (f: Filter<H>)
        ensures
            f == Filter::<H>::Leaf(Extractor::Json { limit, members }),
    {
        Filter::Leaf(Extractor::Json { limit, members })
    }

    /// This filter, then `next` on what this one left of the path.
    pub fn and(self, next: Filter<H>) -> (f: Filter<H>)
        ensures
            f == both(self, next),
    {
        Filter::And(Box::new(self), Box::new(next))
    }

    /// This filter, or else `other` on the request as it was.
    pub fn or(self, other: Filter<H>) -> (f: Filter<H>)
        ensures
            f == either(self, other),
    {
        Filter::Or(Box::new(self), Box::new(other))
    }

    /// This filter, then `guard` on its values.
    pub fn check(self, guard: Guard) -> (f: Filter<H>)
        ensures
            f == checked(self, guard),
    {
        Filter::Check(Box::new(self), guard)
    }

    /// This filter, bound to `handler`.
    pub fn map(self, handler: H) -> (f: Filter<H>)
        ensures
            f == bound(self, handler),
    {
        Filter::Bound(Box::new(self), handler)
    }
}

/// The filter that runs `a` and then `b`.
pub open spec fn both<H>(a: Filter<H>, b: Filter<H>) -> Filter<H> {
    Filter::And(Box::new(a), Box::new(b))
}

/// The filter that tries `a` and then `b`.
pub open spec fn either<H>(a: Filter<H>, b: Filter<H>) -> Filter<H> {
    Filter::Or(Box::new(a), Box::new(b))
}

/// The filter `f` with `guard` on its values.
pub open spec fn checked<H>(f: Filter<H>, guard: Guard) -> Filter<H> {
    Filter::Check(Box::new(f), guard)
}

/// The filter `f` bound to `handler`.
pub open spec fn bound<H>(f: Filter<H>, handler: H) -> Filter<H> {
    Filter::Bound(Box::new(f), handler)
}

/// A match without a handler.
pub open spec fn extracted<H>(found: Result<(Seq<ValueView>, int), Cause>) -> Result<
    MatchView<H>,
    Cause,
> {
    match found {
        Ok((values, next)) => Ok(MatchView { values, pos: next, handler: None }),
        Err(cause) => Err(cause),
    }
}

/// A leaf evaluates to what its extractor extracts.
pub proof fn lemma_leaf_eval<H>(e: Extractor, req: RequestView, pos: int)
    ensures
        Filter::<H>::Leaf(e).eval(req, pos) == extracted::<H>(e.extract(req, pos)),
{
}

/// `and` evaluates its first filter, and its second where the first left
/// off.
pub proof fn lemma_and_eval<H>(a: Filter<H>, b: Filter<H>, req: RequestView, pos: int)
    ensures
        both(a, b).eval(req, pos) == (match a.eval(req, pos) {
            Ok(first) => match b.eval(req, first.pos) {
                Ok(second) => Ok(
                    MatchView {
                        values: first.values + second.values,
                        pos: second.pos,
                        handler: if second.handler is Some {
                            second.handler
                        } else {
                            first.handler
                        },
                    },
                ),
                Err(cause) => Err(cause),
            },
            Err(cause) => Err(cause),
        }),
{
}

/// `and` with a leaf as its second filter.
pub proof fn lemma_and_leaf<H>(a: Filter<H>, e: Extractor, req: RequestView, pos: int)
    ensures
        both(a, Filter::Leaf(e)).eval(req, pos) == (match a.eval(req, pos) {
            Ok(first) => match e.extract(req, first.pos) {
                Ok((values, next)) => Ok(
                    MatchView { values: first.values + values, pos: next, handler: first.handler },
                ),
                Err(cause) => Err(cause),
            },
            Err(cause) => Err(cause),
        }),
{
    reveal_with_fuel(Filter::eval, 2);
}

/// `or` evaluates its second filter where its first rejects, from the same
/// place.
pub proof fn lemma_or_eval<H>(a: Filter<H>, b: Filter<H>, req: RequestView, pos: int)
    ensures
        either(a, b).eval(req, pos) == (match a.eval(req, pos) {
            Ok(first) => Ok(first),
            Err(c1) => match b.eval(req, pos) {
                Ok(second) => Ok(second),
                Err(c2) => Err(c1.prefer(c2)),
            },
        }),
{
}

/// `check` turns a match down where its guard rejects the values.
pub proof fn lemma_check_eval<H>(f: Filter<H>, guard: Guard, req: RequestView, pos: int)
    ensures
        checked(f, guard).eval(req, pos) == (match f.eval(req, pos) {
            Ok(m) => if guard.rejects(m.values) {
                Err(guard.cause())
            } else {
                Ok(m)
            },
            Err(cause) => Err(cause),
        }),
{
}

/// `map` names the handler of a match.
pub proof fn lemma_bound_eval<H>(f: Filter<H>, handler: H, req: RequestView, pos: int)
    ensures
        bound(f, handler).eval(req, pos) == (match f.eval(req, pos) {
            Ok(m) => Ok(MatchView { values: m.values, pos: m.pos, handler: Some(handler) }),
            Err(cause) => Err(cause),
        }),
{
}

/// `and` is associative: however three filters are grouped, they reject
/// the same requests with the same cause, and on a match they give the same
/// single flat sequence of values, which holds the values of the first,
/// then those of the second, then those of the third.
pub proof fn lemma_and_flattens<H>(
    a: Filter<H>,
    b: Filter<H>,
    c: Filter<H>,
    req: RequestView,
    pos: int,
)
    ensures
        both(both(a, b), c).eval(req, pos) == both(a, both(b, c)).eval(req, pos),
        both(both(a, b), c).eval(req, pos) matches Ok(m) ==> {
            &&& a.eval(req, pos) matches Ok(m1)
            &&& b.eval(req, m1.pos) matches Ok(m2)
            &&& c.eval(req, m2.pos) matches Ok(m3)
            &&& m.values == m1.values + m2.values + m3.values
            &&& m.values.len() == m1.values.len() + m2.values.len() + m3.values.len()
            &&& m.pos == m3.pos
        },
{
    reveal_with_fuel(Filter::eval, 3);
    let left = both(both(a, b), c).eval(req, pos);
    let right = both(a, both(b, c)).eval(req, pos);
    if let Ok(m1) = a.eval(req, pos) {
        if let Ok(m2) = b.eval(req, m1.pos) {
            if let Ok(m3) = c.eval(req, m2.pos) {
                assert((m1.values + m2.values) + m3.values =~= m1.values + (m2.values + m3.values));
                assert(left->Ok_0.values =~= right->Ok_0.values);
            }
        }
    }
}

/// `and` stops at the first rejection: where the first filter rejects, the
/// second has no say, and where only the second rejects, its rejection is
/// the result.
pub proof fn lemma_and_short_circuits<H>(a: Filter<H>, b: Filter<H>, req: RequestView, pos: int)
    ensures
        a.eval(req, pos) matches Err(cause) ==> both(a, b).eval(req, pos) == Err::<MatchView<H>, _>(
            cause,
        ),
        a.eval(req, pos) matches Ok(m) ==> (b.eval(req, m.pos) matches Err(cause) ==> both(
            a,
            b,
        ).eval(req, pos) == Err::<MatchView<H>, _>(cause)),
{
}

/// `or` keeps the first match: where the first filter matches, the result
/// is its result, whatever the second would do.
pub proof fn lemma_or_first_wins<H>(a: Filter<H>, b: Filter<H>, req: RequestView, pos: int)
    requires
        a.eval(req, pos) is Ok,
    ensures
        either(a, b).eval(req, pos) == a.eval(req, pos),
{
}

/// `or` starts the second filter where the first one started: whatever
/// the first filter consumed before it rejected, the second is evaluated at
/// `pos`, and its match is the result.
pub proof fn lemma_or_restarts<H>(a: Filter<H>, b: Filter<H>, req: RequestView, pos: int)
    requires
        a.eval(req, pos) is Err,
    ensures
        b.eval(req, pos) is Ok ==> either(a, b).eval(req, pos) == b.eval(req, pos),
        b.eval(req, pos) matches Err(second) ==> either(a, b).eval(req, pos) == Err::<
            MatchView<H>,
            _,
        >(a.eval(req, pos)->Err_0.prefer(second)),
{
}

/// Where both sides of an `or` reject and one says `NotFound`, the cause of
/// the other is the one that surfaces.
pub proof fn lemma_or_specificity<H>(a: Filter<H>, b: Filter<H>, req: RequestView, pos: int)
    requires
        a.eval(req, pos) is Err,
        b.eval(req, pos) is Err,
    ensures
        a.eval(req, pos)->Err_0 is NotFound ==> either(a, b).eval(req, pos) == b.eval(req, pos),
        b.eval(req, pos)->Err_0 is NotFound ==> either(a, b).eval(req, pos) == a.eval(req, pos),
{
}

/// `or` is associative: however three alternatives are grouped, the same
/// one matches, and where none does the same cause surfaces.
pub proof fn lemma_or_associative<H>(
    a: Filter<H>,
    b: Filter<H>,
    c: Filter<H>,
    req: RequestView,
    pos: int,
)
    ensures
        either(either(a, b), c).eval(req, pos) == either(a, either(b, c)).eval(req, pos),
{
    reveal_with_fuel(Filter::eval, 3);
    if let Err(c1) = a.eval(req, pos) {
        if let Err(c2) = b.eval(req, pos) {
            if let Err(c3) = c.eval(req, pos) {
                crate::rejection::lemma_prefer_associative(c1, c2, c3);
            }
        }
    }
}

/// A filter only moves forward in the path, and not beyond its end.
pub proof fn lemma_consumes_forward<H>(f: Filter<H>, req: RequestView, pos: int)
    requires
        0 <= pos <= req.path.len(),
    ensures
        f.eval(req, pos) matches Ok(m) ==> pos <= m.pos <= req.path.len(),
    decreases f,
{
    match f {
        Filter::Leaf(e) => {},
        Filter::And(a, b) => {
            lemma_consumes_forward(*a, req, pos);
            if let Ok(m) = a.eval(req, pos) {
                lemma_consumes_forward(*b, req, m.pos);
            }
        },
        Filter::Or(a, b) => {
            lemma_consumes_forward(*a, req, pos);
            lemma_consumes_forward(*b, req, pos);
        },
        Filter::Check(g, _) => {
            lemma_consumes_forward(*g, req, pos);
        },
        Filter::Bound(g, _) => {
            lemma_consumes_forward(*g, req, pos);
        },
    }
}

} // verus!
