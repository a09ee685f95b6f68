//! The record store: saving, loading, corrupt lines and the line codec.

use utodo::codec::{parse_line, render_line};
use utodo::priority::Priority;
use utodo::todo::{Date, Todo, TodoBuilder};
use utodo::todo_list::TodoList;

fn sample_todo() -> Todo {
    let mut t = TodoBuilder::new()
        .id(3)
        .title("Write docs")
        .description(Some("for the store".to_string()))
        .finished(false)
        .priority(Priority::Medium)
        .due_date(Date::new(2025, 7, 1).unwrap())
        .build()
        .unwrap();
    t.set_creation_date(1700000000);
    t
}

#[test]
fn render_line_is_exact() {
    let t = sample_todo();
    let line = render_line(&t);
    assert_eq!(
        line,
        "{\"id\":3,\"title\":\"Write docs\",\"description\":\"for the store\",\
         \"finished\":false,\"priority\":\"Medium\",\"created_at\":1700000000,\
         \"due_date\":[2025,7,1]}"
    );
}

#[test]
fn parse_line_undoes_render_line() {
    let t = sample_todo();
    let line = render_line(&t);
    let back = parse_line(&line).expect("a rendered line parses");
    assert_eq!(back.get_id(), 3);
    assert_eq!(back.get_title(), "Write docs");
    assert_eq!(back.get_description(), "for the store");
    assert!(!back.get_finished());
    assert_eq!(back.get_priority().priority_value(), 2);
    assert_eq!(back.get_creation_date(), 1700000000);
    assert_eq!(back.get_due_date(), Some(Date::new(2025, 7, 1).unwrap()));
}

#[test]
fn escaped_titles_survive_the_round_trip() {
    let mut t = Todo::new("a \"quoted\"\\title\twith\nbreaks".to_string());
    t.set_creation_date(5);
    let line = render_line(&t);
    assert!(!line.contains('\n'));
    let back = parse_line(&line).unwrap();
    assert_eq!(back.get_title(), "a \"quoted\"\\title\twith\nbreaks");
}

#[test]
fn save_then_load_keeps_records_and_order() {
    let mut list = TodoList::new();
    let mut a = Todo::new("first".to_string());
    a.set_creation_date(1);
    let mut b = Todo::new("second".to_string());
    b.set_creation_date(2);
    b.set_priority(Priority::High);
    list.add(a);
    list.add(b);

    let text = list.save();
    let loaded = TodoList::load(Some(&text)).expect("a saved store loads");
    assert_eq!(loaded.todos.len(), 2);
    assert_eq!(loaded.todos[0].get_title(), "first");
    assert_eq!(loaded.todos[1].get_title(), "second");
    // positional identity is recomputed from line order
    assert_eq!(loaded.todos[0].get_id(), 0);
    assert_eq!(loaded.todos[1].get_id(), 1);
    assert_eq!(loaded.todos[1].get_priority().priority_value(), 3);
}

#[test]
fn missing_store_file_is_an_empty_list() {
    let loaded = TodoList::load(None).unwrap();
    assert_eq!(loaded.todos.len(), 0);
}

#[test]
fn blank_lines_are_skipped() {
    let mut list = TodoList::new();
    let mut a = Todo::new("kept".to_string());
    a.set_creation_date(9);
    list.add(a);
    let text = list.save();
    let padded = format!("\n  \t\n{}\n   \n", text);
    let loaded = TodoList::load(Some(&padded)).unwrap();
    assert_eq!(loaded.todos.len(), 1);
    assert_eq!(loaded.todos[0].get_title(), "kept");
    assert_eq!(loaded.todos[0].get_id(), 0);
}

#[test]
fn corrupt_third_line_fails_the_whole_load() {
    let mut list = TodoList::new();
    let mut a = Todo::new("one".to_string());
    a.set_creation_date(1);
    let mut b = Todo::new("two".to_string());
    b.set_creation_date(2);
    list.add(a);
    list.add(b);
    let text = list.save();
    let bad = format!("{}this is not a record\n", text);
    let err = TodoList::load(Some(&bad)).expect_err("a corrupt line is fatal");
    assert!(err.is_corrupt_record_at(3));
    assert_eq!(err.message(), "corrupt record line in the store file");
}

#[test]
fn from_json_line_takes_the_given_identity() {
    let t = sample_todo();
    let line = render_line(&t);
    let back = Todo::from_json_line(&line, 17).unwrap();
    assert_eq!(back.get_id(), 17);
    assert_eq!(back.get_title(), "Write docs");
    assert!(Todo::from_json_line("nonsense", 0).is_none());
}

#[test]
fn todos_from_json_lines_drops_bad_lines() {
    let t = sample_todo();
    let lines = vec![
        render_line(&t),
        "broken".to_string(),
        render_line(&t),
    ];
    let parsed = utodo::todo_list::todos_from_json_lines(&lines);
    assert_eq!(parsed.len(), 2);
    assert_eq!(parsed[0].get_id(), 0);
    assert_eq!(parsed[1].get_id(), 0);
    assert_eq!(parsed[0].get_title(), "Write docs");
}

#[test]
fn remove_and_get_follow_positions() {
    let mut list = TodoList::new();
    let mut a = Todo::new("a".to_string());
    a.set_creation_date(1);
    let mut b = Todo::new("b".to_string());
    b.set_creation_date(2);
    list.add(a);
    list.add(b);

    assert!(list.get_todo(1).is_some());
    assert!(list.get_todo(2).is_none());
    let removed = list.remove(0).unwrap();
    assert_eq!(removed.get_title(), "a");
    assert_eq!(list.todos.len(), 1);
    assert_eq!(list.todos[0].get_title(), "b");
    assert!(list.remove(5).is_none());
}

#[test]
fn rejected_dates_and_ids_make_a_line_corrupt() {
    // month 13 is not a calendar month
    assert!(Date::new(2025, 13, 1).is_none());
    assert!(Date::new(2025, 0, 1).is_none());
    assert!(Date::new(2025, 12, 31).is_some());
    let line = "{\"id\":3,\"title\":\"x\",\"description\":null,\"finished\":false,\
                \"priority\":\"Low\",\"created_at\":0,\"due_date\":[2025,13,1]}";
    assert!(parse_line(line).is_none());
}
