use routekit::request::{split_path, Method, Request};

fn request(headers: &[(&str, &str)]) -> Request {
    Request {
        method: Method::Get,
        path: Vec::new(),
        query: None,
        headers: headers.iter().map(|(n, v)| (n.to_string(), v.to_string())).collect(),
        body: Vec::new(),
    }
}

#[test]
fn split_path_gives_the_segments() {
    assert_eq!(split_path("/todos/1"), vec!["todos", "1"]);
    assert_eq!(split_path("/todos"), vec!["todos"]);
    assert_eq!(split_path("todos/1"), vec!["todos", "1"]);
}

#[test]
fn split_path_drops_one_trailing_slash() {
    assert_eq!(split_path("/todos/"), vec!["todos"]);
    assert_eq!(split_path("/"), Vec::<String>::new());
    assert_eq!(split_path(""), Vec::<String>::new());
}

#[test]
fn split_path_keeps_empty_segments_inside() {
    assert_eq!(split_path("/a//b"), vec!["a", "", "b"]);
    assert_eq!(split_path("//a"), vec!["", "a"]);
    assert_eq!(split_path("/a//"), vec!["a", ""]);
}

#[test]
fn header_lookup_ignores_case_of_names() {
    let r = request(&[("Content-Type", "text/plain"), ("DIV-BY", "2"), ("div-by", "3")]);
    assert_eq!(r.header("div-by").map(String::as_str), Some("2"));
    assert_eq!(r.header("content-type").map(String::as_str), Some("text/plain"));
    assert_eq!(r.header("CONTENT-TYPE").map(String::as_str), Some("text/plain"));
    assert_eq!(r.header("accept"), None);
}

#[test]
fn new_splits_the_target() {
    let r = Request::new(Method::Get, "/todos/1?offset=1&x=?");
    assert_eq!(r.path, vec!["todos", "1"]);
    assert_eq!(r.query.as_deref(), Some("offset=1&x=?"));
    assert!(r.headers.is_empty());
    assert!(r.body.is_empty());
    let r = Request::new(Method::Post, "/todos");
    assert_eq!(r.path, vec!["todos"]);
    assert_eq!(r.query, None);
    let r = Request::new(Method::Post, "/todos?");
    assert_eq!(r.query.as_deref(), Some(""));
    let r = Request::new(Method::Post, "?a");
    assert!(r.path.is_empty());
    assert_eq!(r.query.as_deref(), Some("a"));
}

#[test]
fn builders_add_headers_and_body() {
    let r = Request::new(Method::Put, "/x")
        .with_header("a", "1")
        .with_header("b", "2")
        .with_body(vec![1, 2, 3]);
    assert_eq!(r.method, Method::Put);
    assert_eq!(r.headers, vec![("a".to_string(), "1".to_string()), ("b".to_string(), "2".to_string())]);
    assert_eq!(r.body, vec![1, 2, 3]);
}

#[test]
fn method_names_are_upper_case() {
    assert_eq!(Method::from_name("GET"), Method::Get);
    assert_eq!(Method::from_name("POST"), Method::Post);
    assert_eq!(Method::from_name("PUT"), Method::Put);
    assert_eq!(Method::from_name("DELETE"), Method::Delete);
    assert_eq!(Method::from_name("HEAD"), Method::Head);
    assert_eq!(Method::from_name("OPTIONS"), Method::Options);
    assert_eq!(Method::from_name("PATCH"), Method::Patch);
    assert_eq!(Method::from_name("get"), Method::Other);
    assert_eq!(Method::from_name("TRACE"), Method::Other);
}
