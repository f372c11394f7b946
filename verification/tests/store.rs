use routekit::models::{blank_db, Todo};
use routekit::store::{Creation, Lookup, Store};

fn todo(id: u64, text: &str) -> Todo {
    Todo { id, text: text.to_string(), completed: false }
}

fn filled(n: u64) -> Store {
    let mut db = blank_db();
    for id in 0..n {
        assert_eq!(db.create(todo(id, &format!("t{}", id))), Creation::Created);
    }
    db
}

fn ids(todos: &[Todo]) -> Vec<u64> {
    todos.iter().map(|t| t.id).collect()
}

#[test]
fn blank_db_is_empty() {
    let db = blank_db();
    assert_eq!(db.len(), 0);
    assert!(db.list(0, usize::MAX).is_empty());
}

#[test]
fn list_pages_in_insertion_order() {
    let db = filled(10);
    assert_eq!(ids(&db.list(3, 5)), vec![3, 4, 5, 6, 7]);
    assert_eq!(ids(&db.list(20, 5)), Vec::<u64>::new());
    assert_eq!(ids(&db.list(10, 5)), Vec::<u64>::new());
    assert_eq!(ids(&db.list(0, 0)), Vec::<u64>::new());
    assert_eq!(ids(&db.list(8, 5)), vec![8, 9]);
    assert_eq!(ids(&db.list(0, usize::MAX)), (0..10).collect::<Vec<u64>>());
    assert_eq!(ids(&db.list(usize::MAX, usize::MAX)), Vec::<u64>::new());
}

#[test]
fn create_refuses_a_taken_id() {
    let mut db = blank_db();
    assert_eq!(db.create(todo(1, "first")), Creation::Created);
    assert_eq!(db.create(todo(1, "second")), Creation::Duplicate);
    let all = db.list(0, usize::MAX);
    assert_eq!(all.len(), 1);
    assert_eq!(all[0].text, "first");
}

#[test]
fn same_id_creates_succeed_once() {
    for n in 1..6 {
        let mut db = filled(3);
        let mut created = 0;
        let mut duplicate = 0;
        for k in 0..n {
            match db.create(todo(7, &format!("attempt {}", k))) {
                Creation::Created => created += 1,
                Creation::Duplicate => duplicate += 1,
            }
        }
        assert_eq!(created, 1);
        assert_eq!(duplicate, n - 1);
        assert_eq!(db.len(), 4);
        assert_eq!(db.list(3, 1)[0].text, "attempt 0");
    }
}

#[test]
fn update_replaces_in_place() {
    let mut db = filled(3);
    let new = Todo { id: 1, text: "changed".to_string(), completed: true };
    assert_eq!(db.update(1, new), Lookup::Found);
    let all = db.list(0, usize::MAX);
    assert_eq!(ids(&all), vec![0, 1, 2]);
    assert_eq!(all[1].text, "changed");
    assert!(all[1].completed);
    assert_eq!(all[0].text, "t0");
    assert_eq!(db.update(9, todo(9, "none")), Lookup::NotFound);
    assert_eq!(db.len(), 3);
}

#[test]
fn update_keeps_the_id_of_the_entry() {
    let mut db = filled(3);
    assert_eq!(db.update(1, todo(2, "other id")), Lookup::Found);
    let all = db.list(0, usize::MAX);
    assert_eq!(ids(&all), vec![0, 1, 2]);
    assert_eq!(all[1].text, "other id");
    assert_eq!(all[2].text, "t2");
}

#[test]
fn delete_keeps_the_order_of_the_rest() {
    let mut db = filled(5);
    assert_eq!(db.delete(2), Lookup::Found);
    assert_eq!(ids(&db.list(0, usize::MAX)), vec![0, 1, 3, 4]);
    assert_eq!(db.delete(2), Lookup::NotFound);
    assert_eq!(db.delete(0), Lookup::Found);
    assert_eq!(db.delete(4), Lookup::Found);
    assert_eq!(ids(&db.list(0, usize::MAX)), vec![1, 3]);
}
