use routekit::graph::{ListOptions, Query};
use routekit::models::{blank_db, Todo};
use routekit::store::Store;

fn filled(n: u64) -> Store {
    let mut db = blank_db();
    for id in 0..n {
        db.create(Todo { id, text: format!("t{}", id), completed: false });
    }
    db
}

fn ids(todos: &[Todo]) -> Vec<u64> {
    todos.iter().map(|t| t.id).collect()
}

#[test]
fn api_version_is_one_zero() {
    assert_eq!(Query::apiVersion(), "1.0");
}

#[test]
fn todos_list_pages_the_store() {
    let db = filled(10);
    let opt = ListOptions { offset: Some(3), limit: Some(5) };
    assert_eq!(ids(&Query::todosList(&db, opt)), vec![3, 4, 5, 6, 7]);
    let opt = ListOptions { offset: None, limit: None };
    assert_eq!(ids(&Query::todosList(&db, opt)).len(), 10);
    let opt = ListOptions { offset: Some(20), limit: Some(5) };
    assert!(Query::todosList(&db, opt).is_empty());
}

#[test]
fn todos_list_defaults_to_a_thousand() {
    let db = filled(1005);
    let opt = ListOptions { offset: None, limit: None };
    assert_eq!(Query::todosList(&db, opt).len(), 1000);
    let opt = ListOptions { offset: Some(10), limit: None };
    assert_eq!(Query::todosList(&db, opt).len(), 995);
}

#[test]
fn todos_list_counts_negative_arguments_as_zero() {
    let db = filled(4);
    let opt = ListOptions { offset: Some(-2), limit: Some(2) };
    assert_eq!(ids(&Query::todosList(&db, opt)), vec![0, 1]);
    let opt = ListOptions { offset: Some(0), limit: Some(-1) };
    assert!(Query::todosList(&db, opt).is_empty());
}
