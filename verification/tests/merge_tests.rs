//! The merge policy on concrete record lists.

use utodo::merge::GitRepo;
use utodo::todo::{Todo, TodoBuilder};
use utodo::todo_list::TodoList;

fn make_todo(id: u32, title: &str) -> Todo {
    TodoBuilder::new()
        .id(id)
        .title(title)
        .build()
        .expect("Title is required")
}

/// A record with a pinned creation time, so content comparisons across
/// separately built records are deterministic.
fn make_todo_at(id: u32, title: &str, created: i64) -> Todo {
    let mut t = make_todo(id, title);
    t.set_creation_date(created);
    t
}

#[test]
fn test_merge_todo_lists_no_duplicates() {
    let repo = GitRepo::new("/tmp/fakepath");

    let todo1 = make_todo(1, "Task 1");
    let todo2 = make_todo(2, "Task 2");
    let todo3 = make_todo(3, "Task 3");

    let mut local = TodoList::new();
    local.add(todo1.clone());
    local.add(todo2.clone());

    let mut remote = TodoList::new();
    remote.add(todo2.clone());
    remote.add(todo3.clone());

    let merged = repo.merge_todo_lists(local, remote);

    assert_eq!(merged.todos.len(), 3);

    let titles: Vec<String> = merged.todos.iter().map(|t| t.get_title().clone()).collect();
    assert!(titles.contains(&"Task 1".to_string()));
    assert!(titles.contains(&"Task 2".to_string()));
    assert!(titles.contains(&"Task 3".to_string()));
}

#[test]
fn test_merge_todo_lists_empty_local() {
    let repo = GitRepo::new("/tmp/fakepath");

    let local = TodoList::new();

    let mut remote = TodoList::new();
    remote.add(make_todo(1, "Remote Task"));

    let merged = repo.merge_todo_lists(local, remote);

    assert_eq!(merged.todos.len(), 1);
    assert_eq!(merged.todos[0].get_title(), "Remote Task");
}

#[test]
fn test_merge_todo_lists_empty_remote() {
    let repo = GitRepo::new("/tmp/fakepath");

    let mut local = TodoList::new();
    local.add(make_todo(1, "Local Task"));

    let remote = TodoList::new();

    let merged = repo.merge_todo_lists(local, remote);

    assert_eq!(merged.todos.len(), 1);
    assert_eq!(merged.todos[0].get_title(), "Local Task");
}

#[test]
fn merge_of_list_with_itself_is_identity() {
    let repo = GitRepo::new("/tmp/fakepath");

    let mut a = TodoList::new();
    a.add(make_todo_at(0, "alpha", 100));
    a.add(make_todo_at(1, "beta", 200));

    let mut b = TodoList::new();
    b.add(make_todo_at(0, "alpha", 100));
    b.add(make_todo_at(1, "beta", 200));

    let merged = repo.merge_todo_lists(a, b);
    assert_eq!(merged.todos.len(), 2);
    assert_eq!(merged.todos[0].get_title(), "alpha");
    assert_eq!(merged.todos[1].get_title(), "beta");
}

#[test]
fn merge_of_disjoint_lists_keeps_order_and_length() {
    let repo = GitRepo::new("/tmp/fakepath");

    let mut a = TodoList::new();
    a.add(make_todo(0, "one"));
    a.add(make_todo(1, "two"));

    let mut b = TodoList::new();
    b.add(make_todo(0, "three"));

    let merged = repo.merge_todo_lists(a, b);
    assert_eq!(merged.todos.len(), 3);
    assert_eq!(merged.todos[0].get_title(), "one");
    assert_eq!(merged.todos[1].get_title(), "two");
    assert_eq!(merged.todos[2].get_title(), "three");
}

#[test]
fn merge_suppresses_a_duplicated_prefix() {
    let repo = GitRepo::new("/tmp/fakepath");

    let mut a = TodoList::new();
    a.add(make_todo_at(0, "kept once", 10));
    a.add(make_todo_at(1, "also kept once", 20));

    // the remote holds a copy of the whole local list plus one fresh record
    let mut remote = TodoList::new();
    remote.add(make_todo_at(0, "kept once", 10));
    remote.add(make_todo_at(1, "also kept once", 20));
    remote.add(make_todo_at(2, "fresh", 30));

    let merged = repo.merge_todo_lists(a, remote);
    assert_eq!(merged.todos.len(), 3);
    assert_eq!(merged.todos[0].get_title(), "kept once");
    assert_eq!(merged.todos[1].get_title(), "also kept once");
    assert_eq!(merged.todos[2].get_title(), "fresh");
}

#[test]
fn merge_compares_content_not_positional_identity() {
    let repo = GitRepo::new("/tmp/fakepath");

    // same content under different positional identities is one record
    let mut local = TodoList::new();
    local.add(make_todo_at(7, "same", 50));

    let mut remote = TodoList::new();
    remote.add(make_todo_at(42, "same", 50));

    let merged = repo.merge_todo_lists(local, remote);
    assert_eq!(merged.todos.len(), 1);
}
