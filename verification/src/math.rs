//! The routes and handlers of the arithmetic demo.
//!
//! - `GET /math` explains the API,
//! - `GET /math/sum/:u32/:u32` adds,
//! - `GET /math/:u16/times/:u16` multiplies,
//! - `GET /math/:u16` with a header `div-by: :u16` divides, and turns a
//!   zero divisor down with a rejection of its own.

use vstd::prelude::*;
use vstd::string::StringExecFns;
use crate::dispatch::dispatch;
use crate::extractor::Extractor;
use crate::filter::{
    lemma_and_eval, lemma_and_leaf, lemma_bound_eval, lemma_check_eval, lemma_leaf_eval,
    lemma_or_eval, Filter, Guard, MatchView,
};
use crate::rejection::{Cause, Rejection};
use crate::reply::{rejected, Body, BodyView, Math, Reply, ReplyView};
use crate::request::{header_value, Method, Request, RequestView};
use crate::text::{decimal, parse_unsigned, push_decimal};
use crate::value::{Kind, Value, ValueView};

verus! {

/// The handler that a route of the demo is bound to.
#[derive(Debug, Clone, Copy, PartialEq, Eq, Structural)]
pub enum MathOp {
    Help,
    Sum,
    Times,
    Divide,
}

/// The rejection of a zero divisor.
pub open spec fn divide_by_zero() -> Cause {
    Cause::Custom { tag: Cause::divide_by_zero_tag(), detail: Seq::empty() }
}

/// The divisor that the header `div-by` holds: `NotFound` where the request
/// has no such header or its value is no number of 16 bits, and the custom
/// rejection where it is zero.
pub open spec fn divisor(headers: Seq<(Seq<char>, Seq<char>)>) -> Result<u64, Cause> {
    match header_value(headers, "div-by"@) {
        Some(text) => match parse_unsigned(text, 0xffff) {
            Some(n) => if n == 0 {
                Err(divide_by_zero())
            } else {
                Ok(n)
            },
            None => Err(Cause::NotFound),
        },
        None => Err(Cause::NotFound),
    }
}

/// The divisor filter on a request.
pub open spec fn divisor_match<H>(req: RequestView, pos: int) -> Result<MatchView<H>, Cause> {
    match divisor(req.headers) {
        Ok(n) => Ok(MatchView { values: seq![ValueView::Unsigned(n)], pos, handler: None }),
        Err(cause) => Err(cause),
    }
}

/// Extracts the divisor from the header `div-by` and turns a zero down.
pub fn div_by<H>() -> (f: Filter<H>)
    ensures
        forall|req: RequestView, pos: int| #[trigger]
            f.eval(req, pos) == divisor_match::<H>(req, pos),
{
    let guard = Guard::non_zero("DIVIDE_BY_ZERO", "");
    let header = Filter::header("div-by", Kind::u16());
    let ghost e = header->Leaf_0;
    let ghost g = guard;
    let f = header.check(guard);
    proof {
        reveal_strlit("");
        assert(""@ =~= Seq::<char>::empty());
    }
    assert forall|req: RequestView, pos: int| #[trigger]
        f.eval(req, pos) == divisor_match::<H>(req, pos) by {
        lemma_leaf_eval::<H>(e, req, pos);
        lemma_check_eval(Filter::<H>::Leaf(e), g, req, pos);
    }
    f
}

/// The number in the path segment `i`, if it is one no larger than `max`.
pub open spec fn number_at(req: RequestView, i: int, max: u64) -> Option<u64> {
    if 0 <= i < req.path.len() {
        parse_unsigned(req.path[i], max)
    } else {
        None
    }
}

/// A match of a route of the demo that consumed the whole path.
pub open spec fn routed(req: RequestView, op: MathOp, values: Seq<ValueView>) -> Result<
    MatchView<MathOp>,
    Cause,
> {
    Ok(MatchView { values, pos: req.path.len() as int, handler: Some(op) })
}

/// The demo on a request: `MethodNotAllowed` for any method but `GET`, the
/// route that the path is made for, or `NotFound`.
pub open spec fn math_routes(req: RequestView) -> Result<MatchView<MathOp>, Cause> {
    let path = req.path;
    if req.method != Method::Get {
        Err(Cause::MethodNotAllowed)
    } else if path.len() == 0 || path[0] != "math"@ {
        Err(Cause::NotFound)
    } else if path.len() == 1 {
        routed(req, MathOp::Help, Seq::empty())
    } else if path.len() == 4 && path[1] == "sum"@ && number_at(req, 2, 0xffff_ffff) is Some
        && number_at(req, 3, 0xffff_ffff) is Some {
        routed(
            req,
            MathOp::Sum,
            seq![
                ValueView::Unsigned(number_at(req, 2, 0xffff_ffff)->0),
                ValueView::Unsigned(number_at(req, 3, 0xffff_ffff)->0),
            ],
        )
    } else if path.len() == 4 && number_at(req, 1, 0xffff) is Some && path[2] == "times"@
        && number_at(req, 3, 0xffff) is Some {
        routed(
            req,
            MathOp::Times,
            seq![
                ValueView::Unsigned(number_at(req, 1, 0xffff)->0),
                ValueView::Unsigned(number_at(req, 3, 0xffff)->0),
            ],
        )
    } else if path.len() == 2 && number_at(req, 1, 0xffff) is Some {
        match divisor(req.headers) {
            Ok(n) => routed(
                req,
                MathOp::Divide,
                seq![ValueView::Unsigned(number_at(req, 1, 0xffff)->0), ValueView::Unsigned(n)],
            ),
            Err(cause) => Err(cause),
        }
    } else {
        Err(Cause::NotFound)
    }
}

spec fn help_at(req: RequestView) -> Result<MatchView<MathOp>, Cause> {
    if req.path.len() <= 1 {
        Ok(MatchView { values: Seq::empty(), pos: 1, handler: Some(MathOp::Help) })
    } else {
        Err(Cause::NotFound)
    }
}

spec fn sum_at(req: RequestView) -> Result<MatchView<MathOp>, Cause> {
    let path = req.path;
    if path.len() == 4 && path[1] == "sum"@ && number_at(req, 2, 0xffff_ffff) is Some && number_at(
        req,
        3,
        0xffff_ffff,
    ) is Some {
        routed(
            req,
            MathOp::Sum,
            seq![
                ValueView::Unsigned(number_at(req, 2, 0xffff_ffff)->0),
                ValueView::Unsigned(number_at(req, 3, 0xffff_ffff)->0),
            ],
        )
    } else {
        Err(Cause::NotFound)
    }
}

spec fn times_at(req: RequestView) -> Result<MatchView<MathOp>, Cause> {
    let path = req.path;
    if path.len() == 4 && number_at(req, 1, 0xffff) is Some && path[2] == "times"@ && number_at(
        req,
        3,
        0xffff,
    ) is Some {
        routed(
            req,
            MathOp::Times,
            seq![
                ValueView::Unsigned(number_at(req, 1, 0xffff)->0),
                ValueView::Unsigned(number_at(req, 3, 0xffff)->0),
            ],
        )
    } else {
        Err(Cause::NotFound)
    }
}

spec fn divide_at(req: RequestView) -> Result<MatchView<MathOp>, Cause> {
    if req.path.len() == 2 && number_at(req, 1, 0xffff) is Some {
        match divisor(req.headers) {
            Ok(n) => routed(
                req,
                MathOp::Divide,
                seq![ValueView::Unsigned(number_at(req, 1, 0xffff)->0), ValueView::Unsigned(n)],
            ),
            Err(cause) => Err(cause),
        }
    } else {
        Err(Cause::NotFound)
    }
}

fn help_route() -> (f: Filter<MathOp>)
    ensures
        forall|req: RequestView| #[trigger] f.eval(req, 1) == help_at(req),
{
    let end = Filter::end();
    let f = end.map(MathOp::Help);
    assert forall|req: RequestView| #[trigger] f.eval(req, 1) == help_at(req) by {
        lemma_leaf_eval::<MathOp>(Extractor::End, req, 1);
        lemma_bound_eval(end, MathOp::Help, req, 1);
    }
    f
}

fn sum_route() -> (f: Filter<MathOp>)
    ensures
        forall|req: RequestView| #[trigger] f.eval(req, 1) == sum_at(req),
{
    let a = Filter::path("sum");
    let ghost ea = a->Leaf_0;
    let number = Extractor::Param(Kind::u32());
    let ab = a.and(Filter::param(Kind::u32()));
    let ghost gab = ab;
    let abc = ab.and(Filter::param(Kind::u32()));
    let ghost gabc = abc;
    let abcd = abc.and(Filter::end());
    let ghost gabcd = abcd;
    let f = abcd.map(MathOp::Sum);
    assert forall|req: RequestView| #[trigger] f.eval(req, 1) == sum_at(req) by {
        lemma_leaf_eval::<MathOp>(ea, req, 1);
        lemma_and_leaf(Filter::<MathOp>::Leaf(ea), number, req, 1);
        lemma_and_leaf(gab, number, req, 1);
        lemma_and_leaf(gabc, Extractor::End, req, 1);
        lemma_bound_eval(gabcd, MathOp::Sum, req, 1);
        if let Ok(m) = sum_at(req) {
            assert(f.eval(req, 1) is Ok);
            assert(f.eval(req, 1)->Ok_0.values =~= m.values);
        }
    }
    f
}

fn times_route() -> (f: Filter<MathOp>)
    ensures
        forall|req: RequestView| #[trigger] f.eval(req, 1) == times_at(req),
{
    let number = Extractor::Param(Kind::u16());
    let a = Filter::param(Kind::u16());
    let word = Filter::path("times");
    let ghost eb = word->Leaf_0;
    let ab = a.and(word);
    let ghost gab = ab;
    let abc = ab.and(Filter::param(Kind::u16()));
    let ghost gabc = abc;
    let abcd = abc.and(Filter::end());
    let ghost gabcd = abcd;
    let f = abcd.map(MathOp::Times);
    assert forall|req: RequestView| #[trigger] f.eval(req, 1) == times_at(req) by {
        lemma_leaf_eval::<MathOp>(number, req, 1);
        lemma_and_leaf(Filter::<MathOp>::Leaf(number), eb, req, 1);
        lemma_and_leaf(gab, number, req, 1);
        lemma_and_leaf(gabc, Extractor::End, req, 1);
        lemma_bound_eval(gabcd, MathOp::Times, req, 1);
        if let Ok(m) = times_at(req) {
            assert(f.eval(req, 1) is Ok);
            assert(f.eval(req, 1)->Ok_0.values =~= m.values);
        }
    }
    f
}

fn divide_route() -> (f: Filter<MathOp>)
    ensures
        forall|req: RequestView| #[trigger] f.eval(req, 1) == divide_at(req),
{
    let number = Extractor::Param(Kind::u16());
    let divider = div_by();
    let ghost gdivider = divider;
    let ab = Filter::param(Kind::u16()).and(Filter::end());
    let ghost gab = ab;
    let abc = ab.and(divider);
    let ghost gabc = abc;
    let f = abc.map(MathOp::Divide);
    assert forall|req: RequestView| #[trigger] f.eval(req, 1) == divide_at(req) by {
        lemma_leaf_eval::<MathOp>(number, req, 1);
        lemma_and_leaf(Filter::<MathOp>::Leaf(number), Extractor::End, req, 1);
        lemma_and_eval(gab, gdivider, req, 1);
        lemma_bound_eval(gabc, MathOp::Divide, req, 1);
        assert(gdivider.eval(req, 2) == divisor_match::<MathOp>(req, 2));
        if let Ok(m) = divide_at(req) {
            assert(f.eval(req, 1) is Ok);
            assert(f.eval(req, 1)->Ok_0.values =~= m.values);
        }
    }
    f
}

/// The routes of the demo.
pub fn math() -> (f: Filter<MathOp>)
    ensures
        forall|req: RequestView| #[trigger] f.eval(req, 0) == math_routes(req),
{
    let help = help_route();
    let sum = sum_route();
    let times = times_route();
    let divide = divide_route();
    let ghost (ghelp, gsum, gtimes, gdivide) = (help, sum, times, divide);
    let o1 = help.or(sum);
    let ghost go1 = o1;
    let o2 = o1.or(times);
    let ghost go2 = o2;
    let o3 = o2.or(divide);
    let ghost go3 = o3;
    let word = Filter::path("math");
    let ghost eword = word->Leaf_0;
    let under = word.and(o3);
    let ghost gunder = under;
    let f = Filter::get().and(under);
    assert forall|req: RequestView| #[trigger] f.eval(req, 0) == math_routes(req) by {
        assert(ghelp.eval(req, 1) == help_at(req));
        assert(gsum.eval(req, 1) == sum_at(req));
        assert(gtimes.eval(req, 1) == times_at(req));
        assert(gdivide.eval(req, 1) == divide_at(req));
        lemma_or_eval(ghelp, gsum, req, 1);
        lemma_or_eval(go1, gtimes, req, 1);
        lemma_or_eval(go2, gdivide, req, 1);
        lemma_leaf_eval::<MathOp>(eword, req, 0);
        lemma_and_eval(Filter::<MathOp>::Leaf(eword), go3, req, 0);
        lemma_leaf_eval::<MathOp>(Extractor::Method(Method::Get), req, 0);
        lemma_and_eval(Filter::<MathOp>::Leaf(Extractor::Method(Method::Get)), gunder, req, 0);
        let want = math_routes(req);
        let got = f.eval(req, 0);
        if let Ok(m) = want {
            assert(got is Ok);
            assert(got->Ok_0.values =~= m.values);
        }
    }
    f
}

/// What `GET /math` answers.
pub open spec fn help_text() -> Seq<char> {
    "This is the Math api. Try calling /math/sum/:u32/:u32 or /math/:u16/times/:u16"@
}

/// The line `a + b = sum`.
pub open spec fn sum_line(a: nat, b: nat) -> Seq<char> {
    decimal(a) + " + "@ + decimal(b) + " = "@ + decimal(a + b)
}

/// The line `a times b = product`.
pub open spec fn times_line(a: nat, b: nat) -> Seq<char> {
    decimal(a) + " times "@ + decimal(b) + " = "@ + decimal(a * b)
}

/// The operation `num / denom`.
pub open spec fn division(num: nat, denom: nat) -> Seq<char> {
    decimal(num) + " / "@ + decimal(denom)
}

/// Adds two numbers and says so. The sum is exact, whatever the numbers.
pub fn sum_text(a: u32, b: u32) -> (line: String)
    ensures
        line@ == sum_line(a as nat, b as nat),
{
    let mut line = String::new();
    push_decimal(&mut line, a as u64);
    line.append(" + ");
    push_decimal(&mut line, b as u64);
    line.append(" = ");
    push_decimal(&mut line, a as u64 + b as u64);
    assert(line@ =~= sum_line(a as nat, b as nat));
    line
}

/// Multiplies two numbers and says so. The product is exact, whatever the
/// numbers.
pub fn times_text(a: u16, b: u16) -> (line: String)
    ensures
        line@ == times_line(a as nat, b as nat),
{
    assert(a * b <= 0xffff * 0xffff) by (nonlinear_arith)
        requires
            a <= 0xffff,
            b <= 0xffff,
    ;
    let mut line = String::new();
    push_decimal(&mut line, a as u64);
    line.append(" times ");
    push_decimal(&mut line, b as u64);
    line.append(" = ");
    push_decimal(&mut line, a as u64 * b as u64);
    assert(line@ =~= times_line(a as nat, b as nat));
    line
}

/// Divides `num` by `denom`, rounding down; a zero divisor is rejected.
pub fn divide(num: u16, denom: u16) -> (r: Result<Math, Rejection>)
    ensures
        denom == 0 ==> (r matches Err(e) && e@ == divide_by_zero()),
        denom != 0 ==> (r matches Ok(m) && m.op@ == division(num as nat, denom as nat) && m.output
            == num / denom),
{
    if denom == 0 {
        return Err(Rejection::divide_by_zero());
    }
    let mut op = String::new();
    push_decimal(&mut op, num as u64);
    op.append(" / ");
    push_decimal(&mut op, denom as u64);
    assert(op@ =~= division(num as nat, denom as nat));
    Ok(Math { op, output: num / denom })
}

/// The reply with status 200 and a text as its body.
pub open spec fn said(text: Seq<char>) -> ReplyView {
    ReplyView { status: 200, body: BodyView::Text(text) }
}

/// The number in `values[i]`, if it is one no larger than `max`.
pub open spec fn operand(values: Seq<ValueView>, i: int, max: u64) -> Option<u64> {
    if 0 <= i < values.len() {
        match values[i] {
            ValueView::Unsigned(n) => if n <= max {
                Some(n)
            } else {
                None
            },
            _ => None,
        }
    } else {
        None
    }
}

/// What a handler of the demo answers to the values of its route.
pub open spec fn answered(op: MathOp, values: Seq<ValueView>) -> ReplyView {
    match op {
        MathOp::Help => said(help_text()),
        MathOp::Sum => match (operand(values, 0, 0xffff_ffff), operand(values, 1, 0xffff_ffff)) {
            (Some(a), Some(b)) => said(sum_line(a as nat, b as nat)),
            _ => rejected(Cause::Unhandled),
        },
        MathOp::Times => match (operand(values, 0, 0xffff), operand(values, 1, 0xffff)) {
            (Some(a), Some(b)) => said(times_line(a as nat, b as nat)),
            _ => rejected(Cause::Unhandled),
        },
        MathOp::Divide => match (operand(values, 0, 0xffff), operand(values, 1, 0xffff)) {
            (Some(num), Some(denom)) => if denom == 0 {
                rejected(divide_by_zero())
            } else {
                ReplyView {
                    status: 200,
                    body: BodyView::Math {
                        op: division(num as nat, denom as nat),
                        output: (num / denom) as u16,
                    },
                }
            },
            _ => rejected(Cause::Unhandled),
        },
    }
}

/// The demo: what it answers to a request.
///
/// A request that no route matches is answered with the error reply of its
/// rejection: 405 for another method than `GET`, 400 with the message
/// `DIVIDE_BY_ZERO` for a division by zero, else 404.
pub open spec fn math_service(req: RequestView) -> ReplyView {
    match math_routes(req) {
        Ok(m) => match m.handler {
            Some(op) => answered(op, m.values),
            None => rejected(Cause::Unhandled),
        },
        Err(cause) => rejected(cause),
    }
}

fn operand_from(values: &Vec<Value>, i: usize, max: u64) -> (r: Option<u64>)
    ensures
        r == operand(values.deep_view(), i as int, max),
{
    if i >= values.len() {
        return None;
    }
    assert(values.deep_view()[i as int] == values[i as int]@);
    match &values[i] {
        Value::Unsigned(n) => if *n <= max {
            Some(*n)
        } else {
            None
        },
        _ => None,
    }
}

/// Runs the handler `op` on the values of its route.
pub fn answer(op: MathOp, values: &Vec<Value>) -> (reply: Reply)
    ensures
        reply@ == answered(op, values.deep_view()),
{
    match op {
        MathOp::Help => Reply {
            status: 200,
            body: Body::Text(
                "This is the Math api. Try calling /math/sum/:u32/:u32 or /math/:u16/times/:u16".to_owned(),
            ),
        },
        MathOp::Sum => {
            let a = operand_from(values, 0, 0xffff_ffff);
            let b = operand_from(values, 1, 0xffff_ffff);
            if a.is_some() && b.is_some() {
                Reply { status: 200, body: Body::Text(sum_text(a.unwrap() as u32, b.unwrap() as u32)) }
            } else {
                Reply::recover(&Rejection::Unhandled)
            }
        },
        MathOp::Times => {
            let a = operand_from(values, 0, 0xffff);
            let b = operand_from(values, 1, 0xffff);
            if a.is_some() && b.is_some() {
                Reply {
                    status: 200,
                    body: Body::Text(times_text(a.unwrap() as u16, b.unwrap() as u16)),
                }
            } else {
                Reply::recover(&Rejection::Unhandled)
            }
        },
        MathOp::Divide => {
            let num = operand_from(values, 0, 0xffff);
            let denom = operand_from(values, 1, 0xffff);
            if num.is_some() && denom.is_some() {
                match divide(num.unwrap() as u16, denom.unwrap() as u16) {
                    Ok(m) => Reply { status: 200, body: Body::Math(m) },
                    Err(e) => Reply::recover(&e),
                }
            } else {
                Reply::recover(&Rejection::Unhandled)
            }
        },
    }
}

/// Every match of the demo's routes gets an answer from its handler: the
/// values of a route fit its handler, and no divisor that passed the guard
/// is zero.
pub proof fn lemma_math_answers(req: RequestView)
    requires
        math_routes(req) is Ok,
    ensures
        math_service(req).status == 200,
        math_routes(req)->Ok_0.handler == Some(MathOp::Sum) ==> math_service(req) == said(
            sum_line(
                number_at(req, 2, 0xffff_ffff)->0 as nat,
                number_at(req, 3, 0xffff_ffff)->0 as nat,
            ),
        ),
        math_routes(req)->Ok_0.handler == Some(MathOp::Times) ==> math_service(req) == said(
            times_line(number_at(req, 1, 0xffff)->0 as nat, number_at(req, 3, 0xffff)->0 as nat),
        ),
        math_routes(req)->Ok_0.handler == Some(MathOp::Divide) ==> math_service(req).body == (
        BodyView::Math {
            op: division(number_at(req, 1, 0xffff)->0 as nat, divisor(req.headers)->Ok_0 as nat),
            output: (number_at(req, 1, 0xffff)->0 / divisor(req.headers)->Ok_0) as u16,
        }),
{
}

/// The arithmetic demo, ready to serve requests.
pub struct MathApi {
    routes: Filter<MathOp>,
}

impl MathApi {
    #[verifier::type_invariant]
    spec fn inv(&self) -> bool {
        forall|req: RequestView| #[trigger] self.routes.eval(req, 0) == math_routes(req)
    }

    /// The routes that the demo evaluates.
    pub closed spec fn routes(&self) -> Filter<MathOp> {
        self.routes
    }

    /// Builds the routes of the demo.
    pub fn new() -> (api: MathApi)
        ensures
            forall|req: RequestView| #[trigger] api.routes().eval(req, 0) == math_routes(req),
    {
        MathApi { routes: math() }
    }

    /// Answers one request.
    pub fn serve(&self, req: &Request) -> (reply: Reply)
        ensures
            reply@ == math_service(req@),
    {
        proof {
            use_type_invariant(self);
        }
        let handle = |op: &MathOp, values: &Vec<Value>| -> (r: Result<Reply, Rejection>)
            ensures
                r matches Ok(reply) && reply@ == answered(*op, values.deep_view()),
            { Ok(answer(*op, values)) };
        dispatch(&self.routes, req, handle)
    }
}

} // verus!
