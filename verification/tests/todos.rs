use routekit::api::{invoke, options_from, respond, todo_from, Api};
use routekit::value::Value;
use routekit::filters::{
    json_body, todos, todos_create, todos_delete, todos_list, todos_update, Action,
};
use routekit::handlers::{
    create_todos, creation_status, delete_todo, deletion_status, list_todos, update_status,
    update_todo,
};
use routekit::models::{blank_db, ListOptions, Todo};
use routekit::rejection::Rejection;
use routekit::reply::{Body, Reply};
use routekit::request::{Method, Request};
use routekit::store::Store;

const MILK: &[u8] = b"{\"id\":1,\"text\":\"buy milk\",\"completed\":false}";

fn post(target: &str, body: &[u8]) -> Request {
    Request::new(Method::Post, target).with_body(body.to_vec())
}

fn listing(reply: &Reply) -> Vec<(u64, String, bool)> {
    match &reply.body {
        Body::Todos(todos) => {
            todos.iter().map(|t| (t.id, t.text.clone(), t.completed)).collect()
        },
        other => panic!("not a listing: {:?}", other),
    }
}

fn error(reply: &Reply) -> (u16, String) {
    match &reply.body {
        Body::Error(e) => (e.code, e.message.clone()),
        other => panic!("not an error: {:?}", other),
    }
}

fn filled(n: u64) -> Store {
    let mut db = blank_db();
    for id in 0..n {
        db.create(Todo { id, text: format!("t{}", id), completed: id % 2 == 0 });
    }
    db
}

#[test]
fn a_session_with_the_api() {
    let api = Api::new();
    let mut db = blank_db();

    let reply = api.serve(&post("/todos", MILK), &mut db);
    assert_eq!(reply.status, 201);
    assert!(matches!(reply.body, Body::Empty));

    let reply = api.serve(&post("/todos", MILK), &mut db);
    assert_eq!(reply.status, 400);

    let reply = api.serve(&Request::new(Method::Get, "/todos?offset=0&limit=10"), &mut db);
    assert_eq!(reply.status, 200);
    assert_eq!(listing(&reply), vec![(1, "buy milk".to_string(), false)]);

    let reply = api.serve(&Request::new(Method::Delete, "/todos/1"), &mut db);
    assert_eq!(reply.status, 404);
    assert_eq!(error(&reply), (404, "NOT_FOUND".to_string()));
    assert_eq!(db.len(), 1);

    let admin = Request::new(Method::Delete, "/todos/1").with_header("authorization", "Bearer admin");
    let reply = api.serve(&admin, &mut db);
    assert_eq!(reply.status, 204);

    let reply = api.serve(&Request::new(Method::Get, "/todos"), &mut db);
    assert_eq!(reply.status, 200);
    assert!(listing(&reply).is_empty());
}

#[test]
fn respond_answers_like_the_api() {
    let routes = todos();
    let mut db = blank_db();
    assert_eq!(respond(&routes, &post("/todos", MILK), &mut db).status, 201);
    assert_eq!(respond(&routes, &post("/todos", MILK), &mut db).status, 400);
    let reply = respond(&routes, &Request::new(Method::Get, "/todos"), &mut db);
    assert_eq!(listing(&reply), vec![(1, "buy milk".to_string(), false)]);
}

#[test]
fn list_route_pages_the_store() {
    let api = Api::new();
    let mut db = filled(10);
    let reply = api.serve(&Request::new(Method::Get, "/todos?offset=3&limit=5"), &mut db);
    let ids: Vec<u64> = listing(&reply).iter().map(|t| t.0).collect();
    assert_eq!(ids, vec![3, 4, 5, 6, 7]);
    let reply = api.serve(&Request::new(Method::Get, "/todos?offset=20&limit=5"), &mut db);
    assert!(listing(&reply).is_empty());
    let reply = api.serve(&Request::new(Method::Get, "/todos?limit=0"), &mut db);
    assert!(listing(&reply).is_empty());
    let reply = api.serve(&Request::new(Method::Get, "/todos/"), &mut db);
    assert_eq!(listing(&reply).len(), 10);
}

#[test]
fn list_route_rejects_a_bad_query() {
    let api = Api::new();
    let mut db = filled(2);
    for target in ["/todos?offset=x", "/todos?limit=-1", "/todos?limit=1&limit=2"] {
        let reply = api.serve(&Request::new(Method::Get, target), &mut db);
        assert_eq!(reply.status, 400);
        assert_eq!(error(&reply), (400, "INVALID_QUERY".to_string()));
    }
}

#[test]
fn create_route_checks_the_body() {
    let api = Api::new();
    let mut db = blank_db();
    let reply = api.serve(&post("/todos", b"{\"id\":1,\"text\":\"no flag\"}"), &mut db);
    assert_eq!(error(&reply), (400, "INVALID_BODY".to_string()));
    let reply = api.serve(&post("/todos", b"{\"id\":\"1\",\"text\":\"t\",\"completed\":true}"), &mut db);
    assert_eq!(error(&reply), (400, "INVALID_BODY".to_string()));
    let reply = api.serve(&post("/todos", b"{"), &mut db);
    assert_eq!(error(&reply), (400, "INVALID_BODY".to_string()));
    let mut large = Vec::from(&b"{\"id\":1,\"text\":\""[..]);
    large.extend(std::iter::repeat(b'a').take(16 * 1024));
    large.extend_from_slice(b"\",\"completed\":true}");
    let reply = api.serve(&post("/todos", &large), &mut db);
    assert_eq!(error(&reply), (413, "PAYLOAD_TOO_LARGE".to_string()));
    assert_eq!(db.len(), 0);
}

#[test]
fn create_route_accepts_a_body_at_the_limit() {
    let api = Api::new();
    let mut db = blank_db();
    let head = b"{\"id\":1,\"completed\":true,\"text\":\"";
    let tail = b"\"}";
    let mut body = Vec::from(&head[..]);
    body.extend(std::iter::repeat(b'a').take(16 * 1024 - head.len() - tail.len()));
    body.extend_from_slice(tail);
    assert_eq!(body.len(), 16 * 1024);
    assert_eq!(api.serve(&post("/todos", &body), &mut db).status, 201);
    body.insert(head.len(), b'a');
    assert_eq!(api.serve(&post("/todos", &body), &mut db).status, 413);
}

#[test]
fn update_route_replaces_the_entry() {
    let api = Api::new();
    let mut db = filled(3);
    let body = b"{\"id\":1,\"text\":\"changed\",\"completed\":true}";
    let put = Request::new(Method::Put, "/todos/1").with_body(body.to_vec());
    assert_eq!(api.serve(&put, &mut db).status, 200);
    let all = db.list(0, usize::MAX);
    assert_eq!(all[1].text, "changed");
    assert!(all[1].completed);
    assert_eq!(all[1].id, 1);
    let put = Request::new(Method::Put, "/todos/9").with_body(body.to_vec());
    let reply = api.serve(&put, &mut db);
    assert_eq!(reply.status, 404);
    assert!(matches!(reply.body, Body::Empty));
    let put = Request::new(Method::Put, "/todos/one").with_body(body.to_vec());
    assert_eq!(error(&api.serve(&put, &mut db)), (404, "NOT_FOUND".to_string()));
    let put = Request::new(Method::Put, "/todos/1").with_body(b"{}".to_vec());
    assert_eq!(error(&api.serve(&put, &mut db)), (400, "INVALID_BODY".to_string()));
}

#[test]
fn delete_route_is_for_administrators() {
    let api = Api::new();
    let mut db = filled(3);
    let wrong = Request::new(Method::Delete, "/todos/1").with_header("authorization", "Bearer user");
    assert_eq!(api.serve(&wrong, &mut db).status, 404);
    assert_eq!(db.len(), 3);
    let admin = |id: &str| {
        Request::new(Method::Delete, &format!("/todos/{}", id))
            .with_header("Authorization", "Bearer admin")
    };
    assert_eq!(api.serve(&admin("1"), &mut db).status, 204);
    assert_eq!(api.serve(&admin("1"), &mut db).status, 404);
    assert_eq!(db.len(), 2);
}

#[test]
fn unknown_routes_are_not_found() {
    let api = Api::new();
    let mut db = filled(1);
    for (method, target) in [
        (Method::Get, "/"),
        (Method::Get, "/todo"),
        (Method::Get, "/todos/0"),
        (Method::Get, "/todos/0/x"),
        (Method::Patch, "/todos"),
        (Method::Post, "/todos/0"),
        (Method::Put, "/todos"),
    ] {
        let reply = api.serve(&Request::new(method, target).with_body(MILK.to_vec()), &mut db);
        assert_eq!(error(&reply), (404, "NOT_FOUND".to_string()), "{:?} {}", method, target);
    }
    assert_eq!(db.len(), 1);
}

#[test]
fn each_route_alone() {
    let get = Request::new(Method::Get, "/todos?limit=2");
    let route = todos_list();
    let m = route.evaluate(&get).unwrap();
    assert_eq!(m.handler, Some(&Action::List));
    assert!(matches!(&m.values[..], [Value::Absent, Value::Unsigned(2)]));
    assert!(matches!(todos_create().evaluate(&get), Err(Rejection::NotFound)));

    let route = todos_create();
    let m = route.evaluate(&post("/todos", MILK)).unwrap();
    assert_eq!(m.handler, Some(&Action::Create));
    assert!(matches!(
        &m.values[..],
        [Value::Unsigned(1), Value::Text(t), Value::Flag(false)] if t == "buy milk"
    ));

    let put = Request::new(Method::Put, "/todos/7").with_body(MILK.to_vec());
    let route = todos_update();
    let m = route.evaluate(&put).unwrap();
    assert_eq!(m.handler, Some(&Action::Update));
    assert!(matches!(
        &m.values[..],
        [Value::Unsigned(7), Value::Unsigned(1), Value::Text(_), Value::Flag(false)]
    ));

    let delete = Request::new(Method::Delete, "/todos/7");
    assert!(matches!(todos_delete().evaluate(&delete), Err(Rejection::NotFound)));
    let delete = delete.with_header("authorization", "Bearer admin");
    let route = todos_delete();
    let m = route.evaluate(&delete).unwrap();
    assert_eq!(m.handler, Some(&Action::Delete));
    assert!(matches!(&m.values[..], [Value::Unsigned(7)]));
}

#[test]
fn json_body_extracts_an_entry() {
    let f = json_body::<Action>();
    let m = f.evaluate(&post("/", MILK)).unwrap();
    let todo = todo_from(&m.values, 0).unwrap();
    assert_eq!((todo.id, todo.text.as_str(), todo.completed), (1, "buy milk", false));
    assert!(matches!(f.evaluate(&post("/", b"[]")), Err(Rejection::InvalidParameter { .. })));
}

#[test]
fn values_that_do_not_fit_are_unhandled() {
    let mut db = filled(2);
    let reply = invoke(Action::Create, &vec![Value::Unsigned(5)], &mut db);
    assert_eq!(error(&reply), (500, "UNHANDLED_REJECTION".to_string()));
    let reply = invoke(Action::Delete, &vec![Value::Unsigned(0), Value::Absent], &mut db);
    assert_eq!(error(&reply), (500, "UNHANDLED_REJECTION".to_string()));
    let reply = invoke(Action::List, &vec![Value::Flag(true), Value::Absent], &mut db);
    assert_eq!(error(&reply), (500, "UNHANDLED_REJECTION".to_string()));
    assert_eq!(db.len(), 2);
    assert!(options_from(&vec![Value::Absent]).is_none());
    let opts = options_from(&vec![Value::Absent, Value::Unsigned(4)]).unwrap();
    assert_eq!((opts.offset, opts.limit), (None, Some(4)));
}

#[test]
fn handlers_answer_with_the_status_of_the_store() {
    let mut db = blank_db();
    let todo = |id| Todo { id, text: "t".to_string(), completed: false };
    assert_eq!(create_todos(todo(1), &mut db).status, 201);
    assert_eq!(create_todos(todo(1), &mut db).status, 400);
    assert_eq!(update_todo(1, todo(1), &mut db).status, 200);
    assert_eq!(update_todo(2, todo(2), &mut db).status, 404);
    let reply = list_todos(ListOptions { offset: None, limit: None }, &db);
    assert_eq!(reply.status, 200);
    assert_eq!(listing(&reply).len(), 1);
    assert_eq!(delete_todo(2, &mut db).status, 404);
    assert_eq!(delete_todo(1, &mut db).status, 204);
    assert_eq!(db.len(), 0);
}

#[test]
fn row_counts_map_to_statuses() {
    assert_eq!((creation_status(1), creation_status(0)), (201, 400));
    assert_eq!((update_status(1), update_status(0)), (200, 404));
    assert_eq!((deletion_status(3), deletion_status(0)), (204, 404));
}

#[test]
fn create_route_reads_the_members_it_needs() {
    let api = Api::new();
    let mut db = blank_db();
    let body = b" { \"more\": [1, {\"id\": 9}], \"completed\": true, \"text\": \"t\\u00e9\", \"id\": 18446744073709551615 } ";
    assert_eq!(api.serve(&post("/todos", body), &mut db).status, 201);
    let all = db.list(0, 1);
    assert_eq!((all[0].id, all[0].text.as_str(), all[0].completed), (u64::MAX, "té", true));
    let too_big = b"{\"id\":18446744073709551616,\"text\":\"t\",\"completed\":true}";
    assert_eq!(error(&api.serve(&post("/todos", too_big), &mut db)), (400, "INVALID_BODY".to_string()));
    let repeated = b"{\"id\":1,\"id\":2,\"text\":\"t\",\"completed\":true}";
    assert_eq!(api.serve(&post("/todos", repeated), &mut db).status, 201);
    assert_eq!(db.list(1, 1)[0].id, 2);
}

#[test]
fn clones_hold_the_same_values() {
    let todo = Todo { id: 3, text: "three".to_string(), completed: true };
    let copy = todo.clone();
    assert_eq!((copy.id, copy.text.as_str(), copy.completed), (3, "three", true));
    let value = Value::Text("v".to_string()).clone();
    assert!(matches!(value, Value::Text(ref s) if s == "v"));
    let rejection = Rejection::Custom { tag: "T".to_string(), detail: "d".to_string() }.clone();
    assert!(matches!(rejection, Rejection::Custom { ref tag, ref detail } if tag == "T" && detail == "d"));
}
