use routekit::value::Value;
use routekit::math::{answer, div_by, divide, math, sum_text, times_text, MathApi, MathOp};
use routekit::rejection::Rejection;
use routekit::reply::{Body, Reply};
use routekit::request::{Method, Request};

fn get(target: &str) -> Request {
    Request::new(Method::Get, target)
}

fn text(reply: &Reply) -> &str {
    match &reply.body {
        Body::Text(t) => t,
        other => panic!("not a text: {:?}", other),
    }
}

fn error(reply: &Reply) -> (u16, String) {
    match &reply.body {
        Body::Error(e) => (e.code, e.message.clone()),
        other => panic!("not an error: {:?}", other),
    }
}

#[test]
fn division_by_the_header() {
    let api = MathApi::new();
    let reply = api.serve(&get("/math/7").with_header("div-by", "0"));
    assert_eq!(reply.status, 400);
    assert_eq!(error(&reply), (400, "DIVIDE_BY_ZERO".to_string()));

    let reply = api.serve(&get("/math/7").with_header("div-by", "2"));
    assert_eq!(reply.status, 200);
    match &reply.body {
        Body::Math(m) => {
            assert_eq!(m.op, "7 / 2");
            assert_eq!(m.output, 3);
        },
        other => panic!("{:?}", other),
    }
}

#[test]
fn division_needs_a_divisor() {
    let api = MathApi::new();
    assert_eq!(error(&api.serve(&get("/math/7"))), (404, "NOT_FOUND".to_string()));
    let reply = api.serve(&get("/math/7").with_header("div-by", "two"));
    assert_eq!(error(&reply), (404, "NOT_FOUND".to_string()));
    let reply = api.serve(&get("/math/7").with_header("div-by", "65536"));
    assert_eq!(error(&reply), (404, "NOT_FOUND".to_string()));
    let reply = api.serve(&get("/math/65536").with_header("div-by", "2"));
    assert_eq!(error(&reply), (404, "NOT_FOUND".to_string()));
}

#[test]
fn sum_route_adds() {
    let api = MathApi::new();
    let reply = api.serve(&get("/math/sum/2/40"));
    assert_eq!(reply.status, 200);
    assert_eq!(text(&reply), "2 + 40 = 42");
    let reply = api.serve(&get("/math/sum/4294967295/4294967295"));
    assert_eq!(text(&reply), "4294967295 + 4294967295 = 8589934590");
    assert_eq!(api.serve(&get("/math/sum/1")).status, 404);
    assert_eq!(api.serve(&get("/math/sum/1/2/3")).status, 404);
    assert_eq!(api.serve(&get("/math/sum/1/4294967296")).status, 404);
}

#[test]
fn times_route_multiplies() {
    let api = MathApi::new();
    let reply = api.serve(&get("/math/6/times/7"));
    assert_eq!(text(&reply), "6 times 7 = 42");
    let reply = api.serve(&get("/math/65535/times/65535"));
    assert_eq!(text(&reply), "65535 times 65535 = 4294836225");
    assert_eq!(api.serve(&get("/math/6/times/65536")).status, 404);
    assert_eq!(api.serve(&get("/math/6/by/7")).status, 404);
}

#[test]
fn help_route_explains() {
    let api = MathApi::new();
    let reply = api.serve(&get("/math"));
    assert_eq!(reply.status, 200);
    assert!(text(&reply).starts_with("This is the Math api."));
    assert_eq!(api.serve(&get("/")).status, 404);
    assert_eq!(api.serve(&get("/maths")).status, 404);
}

#[test]
fn other_methods_are_not_allowed() {
    let api = MathApi::new();
    let reply = api.serve(&Request::new(Method::Post, "/math/sum/1/2"));
    assert_eq!(error(&reply), (405, "METHOD_NOT_ALLOWED".to_string()));
    let reply = api.serve(&Request::new(Method::Delete, "/nowhere"));
    assert_eq!(error(&reply), (405, "METHOD_NOT_ALLOWED".to_string()));
}

#[test]
fn div_by_rejects_zero_with_a_custom_rejection() {
    let f = div_by::<MathOp>();
    match f.evaluate(&get("/").with_header("div-by", "0")) {
        Err(Rejection::Custom { tag, .. }) => assert_eq!(tag, "DIVIDE_BY_ZERO"),
        other => panic!("{:?}", other),
    }
    let m = f.evaluate(&get("/").with_header("Div-By", "+5")).unwrap();
    assert!(matches!(&m.values[..], [Value::Unsigned(5)]));
    assert!(matches!(f.evaluate(&get("/")), Err(Rejection::NotFound)));
}

#[test]
fn math_routes_bind_their_handlers() {
    let routes = math();
    let m = routes.evaluate(&get("/math/sum/1/2")).unwrap();
    assert_eq!(m.handler, Some(&MathOp::Sum));
    assert_eq!(m.pos, 4);
    let m = routes.evaluate(&get("/math/1/times/2")).unwrap();
    assert_eq!(m.handler, Some(&MathOp::Times));
    let m = routes.evaluate(&get("/math/1").with_header("div-by", "2")).unwrap();
    assert_eq!(m.handler, Some(&MathOp::Divide));
    assert!(matches!(&m.values[..], [Value::Unsigned(1), Value::Unsigned(2)]));
    let m = routes.evaluate(&get("/math/")).unwrap();
    assert_eq!(m.handler, Some(&MathOp::Help));
}

#[test]
fn handlers_compute_exactly() {
    assert_eq!(sum_text(0, 0), "0 + 0 = 0");
    assert_eq!(times_text(0, 9), "0 times 9 = 0");
    let m = divide(9, 3).unwrap();
    assert_eq!((m.op.as_str(), m.output), ("9 / 3", 3));
    let m = divide(0, 65535).unwrap();
    assert_eq!((m.op.as_str(), m.output), ("0 / 65535", 0));
    assert!(matches!(divide(9, 0), Err(Rejection::Custom { ref tag, .. }) if tag == "DIVIDE_BY_ZERO"));
}

#[test]
fn answer_turns_unfit_values_down() {
    let reply = answer(MathOp::Sum, &vec![Value::Unsigned(1)]);
    assert_eq!(error(&reply), (500, "UNHANDLED_REJECTION".to_string()));
    let reply = answer(MathOp::Times, &vec![Value::Unsigned(1), Value::Unsigned(65536)]);
    assert_eq!(error(&reply), (500, "UNHANDLED_REJECTION".to_string()));
    let reply = answer(MathOp::Divide, &vec![Value::Unsigned(1), Value::Unsigned(0)]);
    assert_eq!(error(&reply), (400, "DIVIDE_BY_ZERO".to_string()));
    let reply = answer(MathOp::Divide, &vec![Value::Unsigned(8), Value::Unsigned(2)]);
    assert_eq!(reply.status, 200);
}
