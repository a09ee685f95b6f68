//! Argument parsing, command lookup, comparisons and the commands' pure
//! effects on a loaded list.

use core::cmp::Ordering;
use utodo::commands::{
    all_commands, AddArgs, AddCommand, CommandKind, CompleteArgs, CompleteCommand, RemoveArgs,
    RemoveCommand, SortArgs, SortCommand, UpdateArgs, UpdateCommand,
};
use utodo::parser::parse_args;
use utodo::priority::Priority;
use utodo::sort_order::SortCriteria;
use utodo::todo::{Date, Todo};
use utodo::todo_list::TodoList;

fn todo_at(title: &str, created: i64) -> Todo {
    let mut t = Todo::new(title.to_string());
    t.set_creation_date(created);
    t
}

#[test]
fn parse_args_reads_command_positional_and_options() {
    let args: Vec<String> = vec![
        "update".to_string(),
        "3".to_string(),
        "-t".to_string(),
        "new title".to_string(),
        "--priority".to_string(),
        "high".to_string(),
        "ignored".to_string(),
    ];
    let parsed = parse_args(&args).unwrap();
    assert_eq!(parsed.command, "update");
    assert_eq!(parsed.positional, Some("3".to_string()));
    assert_eq!(parsed.options.len(), 2);
    assert_eq!(parsed.options[0], ("t".to_string(), "new title".to_string()));
    assert_eq!(parsed.options[1], ("priority".to_string(), "high".to_string()));
    assert_eq!(parsed.get_option("t"), Some(&"new title".to_string()));
    assert_eq!(parsed.get_option("x"), None);
}

#[test]
fn a_trailing_flag_gets_an_empty_value_and_repeats_overwrite() {
    let args: Vec<String> = vec![
        "config".to_string(),
        "-a".to_string(),
        "true".to_string(),
        "-a".to_string(),
    ];
    let parsed = parse_args(&args).unwrap();
    assert_eq!(parsed.options.len(), 2);
    assert_eq!(parsed.get_option("a"), Some(&"".to_string()));
    assert!(parse_args(&Vec::new()).is_none());
}

#[test]
fn command_names_resolve_to_their_commands() {
    let all = all_commands();
    assert_eq!(all.len(), 7);
    assert_eq!(all[0].0, "show");
    let args: Vec<String> = vec!["sort".to_string()];
    let parsed = parse_args(&args).unwrap();
    assert!(matches!(parsed.to_command(), Some(CommandKind::Sort)));
    let args: Vec<String> = vec!["frobnicate".to_string()];
    let parsed = parse_args(&args).unwrap();
    assert!(parsed.to_command().is_none());
}

#[test]
fn priorities_parse_rank_and_print() {
    assert_eq!(Priority::parse("low"), Some(Priority::Low));
    assert_eq!(Priority::parse("medium"), Some(Priority::Medium));
    assert_eq!(Priority::parse("high"), Some(Priority::High));
    assert_eq!(Priority::parse("urgent"), None);
    assert_eq!(Priority::High.priority_value(), 3);
    assert_eq!(Priority::Low.to_string(), "Low");
    assert_eq!(Priority::Medium.to_string(), "Medium");
}

#[test]
fn compare_folds_case_on_titles() {
    // code points alone would put 'B' (66) before 'a' (97); the comparison
    // folds case first, so "a" comes before "B"
    let a = todo_at("a", 0);
    let b = todo_at("B", 0);
    assert_eq!(a.compare(&b, &SortCriteria::TitleAsc), Ordering::Less);
    assert_eq!(a.compare(&b, &SortCriteria::TitleDesc), Ordering::Greater);
}

#[test]
fn compare_orders_dates_and_priorities() {
    let mut early = todo_at("e", 10);
    let mut late = todo_at("l", 20);
    assert_eq!(early.compare(&late, &SortCriteria::CreatedAsc), Ordering::Less);
    assert_eq!(early.compare(&late, &SortCriteria::CreatedDesc), Ordering::Greater);

    early.set_priority(Priority::High);
    late.set_priority(Priority::Low);
    assert_eq!(early.compare(&late, &SortCriteria::Priority), Ordering::Less);
    assert_eq!(early.compare(&late, &SortCriteria::PriorityReverse), Ordering::Greater);

    early.set_due_date(Date::new(2025, 1, 2).unwrap());
    // a record without a due date sorts after one with a due date
    assert_eq!(early.compare(&late, &SortCriteria::DueDate), Ordering::Less);
    late.set_due_date(Date::new(2024, 12, 31).unwrap());
    assert_eq!(early.compare(&late, &SortCriteria::DueDate), Ordering::Greater);
    assert_eq!(early.compare(&late, &SortCriteria::DueDateReverse), Ordering::Less);
}

#[test]
fn sort_by_order_chains_criteria() {
    let mut list = TodoList::new();
    let mut a = todo_at("zeta", 1);
    a.set_priority(Priority::Low);
    let mut b = todo_at("alpha", 2);
    b.set_priority(Priority::High);
    let mut c = todo_at("mid", 3);
    c.set_priority(Priority::High);
    list.add(a);
    list.add(b);
    list.add(c);

    let args = SortArgs { criterias: vec![SortCriteria::Priority, SortCriteria::TitleAsc] };
    SortCommand::execute(&args, &mut list);
    assert_eq!(list.todos.len(), 3);
    assert_eq!(list.todos[0].get_title(), "alpha");
    assert_eq!(list.todos[1].get_title(), "mid");
    assert_eq!(list.todos[2].get_title(), "zeta");
}

#[test]
fn unfinished_tasks_sort_first_by_status() {
    let mut list = TodoList::new();
    let mut done = todo_at("done", 1);
    done.set_finished(true);
    let open_task = todo_at("open", 2);
    list.add(done);
    list.add(open_task);
    list.sort_by_order(&vec![SortCriteria::Status]);
    assert_eq!(list.todos[0].get_title(), "open");
    list.sort_by_order(&vec![SortCriteria::StatusReverse]);
    assert_eq!(list.todos[0].get_title(), "done");
}

#[test]
fn add_appends_a_record_built_from_the_arguments() {
    let mut list = TodoList::new();
    AddCommand::execute(
        AddArgs {
            title: "buy milk".to_string(),
            description: Some("two bottles".to_string()),
            priority: Some(Priority::High),
            due_date: Date::new(2025, 7, 1),
        },
        &mut list,
    );
    assert_eq!(list.todos.len(), 1);
    let t = &list.todos[0];
    assert_eq!(t.get_title(), "buy milk");
    assert_eq!(t.get_description(), "two bottles");
    assert_eq!(t.get_priority().priority_value(), 3);
    assert_eq!(t.get_due_date(), Date::new(2025, 7, 1));
    assert!(!t.get_finished());
}

#[test]
fn complete_update_and_remove_work_by_position() {
    let mut list = TodoList::new();
    list.add(todo_at("a", 1));
    list.add(todo_at("b", 2));

    assert!(CompleteCommand::execute(CompleteArgs { id: 1 }, &mut list));
    assert!(list.todos[1].get_finished());
    assert!(!CompleteCommand::execute(CompleteArgs { id: 9 }, &mut list));

    let updated = UpdateCommand::execute(
        UpdateArgs {
            id: 0,
            title: Some("a2".to_string()),
            description: None,
            priority: Some(Priority::Medium),
            due_date: None,
            finished: None,
        },
        &mut list,
    );
    assert!(updated);
    assert_eq!(list.todos[0].get_title(), "a2");
    assert_eq!(list.todos[0].get_priority().priority_value(), 2);

    let removed = RemoveCommand::execute(RemoveArgs { id: 0 }, &mut list).unwrap();
    assert_eq!(removed.get_title(), "a2");
    assert_eq!(list.todos.len(), 1);
    assert!(RemoveCommand::execute(RemoveArgs { id: 7 }, &mut list).is_none());
}

#[test]
fn overdue_compares_the_due_date_with_the_given_day() {
    let mut t = todo_at("x", 0);
    assert!(!t.is_overdue());
    t.set_due_date(Date::new(2020, 5, 10).unwrap());
    assert!(t.is_overdue_on(Date::new(2020, 5, 11).unwrap()));
    assert!(!t.is_overdue_on(Date::new(2020, 5, 10).unwrap()));
    assert!(!t.is_overdue_on(Date::new(2020, 5, 9).unwrap()));
    assert!(t.is_overdue_on(Date::new(2021, 1, 1).unwrap()));
}

#[test]
fn argument_metadata_keeps_its_names_and_prefixes() {
    let m = utodo::argument::priority_argument();
    assert_eq!(m.name, "priority");
    assert_eq!(m.prefix, "p");
    assert_eq!(utodo::argument::due_date_argument().prefix, "d");
    assert_eq!(utodo::argument::description_argument().prefix, "m");
    assert_eq!(utodo::argument::title_argument().prefix, "t");
    assert_eq!(utodo::argument::finished_argument().prefix, "f");
    assert_eq!(utodo::argument::config_git_remote_argument().prefix, "r");
    assert_eq!(utodo::argument::config_auto_sync_argument().prefix, "a");
    assert_eq!(utodo::argument::config_show_argument().prefix, "s");
}
