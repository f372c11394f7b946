use routekit::dispatch::dispatch;
use routekit::filter::Filter;
use routekit::rejection::Rejection;
use routekit::reply::{Body, Reply};
use routekit::request::{Method, Request};
use routekit::value::{Kind, Value};

fn routes() -> Filter<&'static str> {
    let hi = Filter::path("hi").and(Filter::end()).map("hi");
    let bye = Filter::path("bye").and(Filter::param(Kind::Text)).and(Filter::end()).map("bye");
    let picky = Filter::path("picky").and(Filter::param(Kind::u64())).map("picky");
    let unbound = Filter::path("unbound");
    Filter::get().and(hi.or(bye).or(picky).or(unbound))
}

fn handle(handler: &&'static str, values: &Vec<Value>) -> Result<Reply, Rejection> {
    let text = match (*handler, &values[..]) {
        ("hi", []) => "Hello, world".to_string(),
        ("bye", [Value::Text(name)]) => format!("Good bye, {}!", name),
        ("picky", [Value::Unsigned(0)]) => return Err(Rejection::divide_by_zero()),
        ("picky", [Value::Unsigned(n)]) => n.to_string(),
        _ => return Err(Rejection::Unhandled),
    };
    Ok(Reply { status: 200, body: Body::Text(text) })
}

fn answer(method: Method, target: &str) -> (u16, String) {
    let reply = dispatch(&routes(), &Request::new(method, target), handle);
    let text = match reply.body {
        Body::Text(text) => text,
        Body::Error(e) => {
            assert_eq!(e.code, reply.status);
            e.message
        },
        other => panic!("{:?}", other),
    };
    (reply.status, text)
}

#[test]
fn dispatch_runs_the_handler_of_the_match() {
    assert_eq!(answer(Method::Get, "/hi"), (200, "Hello, world".to_string()));
    assert_eq!(answer(Method::Get, "/bye/sean"), (200, "Good bye, sean!".to_string()));
    assert_eq!(answer(Method::Get, "/picky/7"), (200, "7".to_string()));
}

#[test]
fn dispatch_recovers_from_a_rejection_of_the_routes() {
    assert_eq!(answer(Method::Get, "/nowhere"), (404, "NOT_FOUND".to_string()));
    assert_eq!(answer(Method::Post, "/hi"), (405, "METHOD_NOT_ALLOWED".to_string()));
}

#[test]
fn dispatch_recovers_from_a_rejection_of_the_handler() {
    assert_eq!(answer(Method::Get, "/picky/0"), (400, "DIVIDE_BY_ZERO".to_string()));
}

#[test]
fn dispatch_does_not_fail_on_a_match_without_a_handler() {
    assert_eq!(answer(Method::Get, "/unbound"), (500, "UNHANDLED_REJECTION".to_string()));
}
