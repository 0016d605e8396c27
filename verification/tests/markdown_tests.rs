use to_tui::parse_todo_list;
use to_tui::serialize_todo_list;
use to_tui::Date;
use to_tui::TodoList;
use to_tui::TodoState;

fn create_test_date() -> Date {
    Date::from_ymd(2025, 12, 31).unwrap()
}

fn create_test_path() -> String {
    "/tmp/2025-12-31.md".to_string()
}

#[test]
fn test_serialize_empty_list() {
    let date = create_test_date();
    let path = create_test_path();
    let list = TodoList::new(date, path);

    let markdown = serialize_todo_list(&list);
    assert!(markdown.contains("# Todo List - December 31, 2025"));
}

#[test]
fn test_serialize_simple_list() {
    let date = create_test_date();
    let path = create_test_path();
    let mut list = TodoList::new(date, path);

    list.add_item("Task 1".to_string());
    list.add_item("Task 2".to_string());

    let markdown = serialize_todo_list(&list);
    assert!(markdown.contains("- [ ] Task 1"));
    assert!(markdown.contains("- [ ] Task 2"));
}

#[test]
fn test_serialize_with_states() {
    let date = create_test_date();
    let path = create_test_path();
    let mut list = TodoList::new(date, path);

    list.add_item("Empty task".to_string());
    list.add_item("Checked task".to_string());
    list.add_item("Question task".to_string());
    list.add_item("Important task".to_string());

    list.items[1].state = TodoState::Checked;
    list.items[2].state = TodoState::Question;
    list.items[3].state = TodoState::Exclamation;

    let markdown = serialize_todo_list(&list);
    assert!(markdown.contains("- [ ] Empty task"));
    assert!(markdown.contains("- [x] Checked task"));
    assert!(markdown.contains("- [?] Question task"));
    assert!(markdown.contains("- [!] Important task"));
}

#[test]
fn test_serialize_with_indentation() {
    let date = create_test_date();
    let path = create_test_path();
    let mut list = TodoList::new(date, path);

    list.add_item_with_indent("Parent".to_string(), 0);
    list.add_item_with_indent("Child 1".to_string(), 1);
    list.add_item_with_indent("Grandchild".to_string(), 2);
    list.add_item_with_indent("Child 2".to_string(), 1);

    let markdown = serialize_todo_list(&list);
    assert!(markdown.contains("- [ ] Parent\n"));
    assert!(markdown.contains("\n  - [ ] Child 1\n"));
    assert!(markdown.contains("\n    - [ ] Grandchild\n"));
    assert!(markdown.contains("\n  - [ ] Child 2\n"));
}

#[test]
fn test_parse_simple_list() {
    let content = r#"# Todo List - December 31, 2025

- [ ] Task 1
- [x] Task 2
- [?] Task 3
- [!] Task 4
"#;

    let date = create_test_date();
    let path = create_test_path();
    let list = parse_todo_list(content, date, path).unwrap();

    assert_eq!(list.items.len(), 4);
    assert_eq!(list.items[0].content, "Task 1");
    assert_eq!(list.items[0].state, TodoState::Empty);
    assert_eq!(list.items[1].content, "Task 2");
    assert_eq!(list.items[1].state, TodoState::Checked);
    assert_eq!(list.items[2].content, "Task 3");
    assert_eq!(list.items[2].state, TodoState::Question);
    assert_eq!(list.items[3].content, "Task 4");
    assert_eq!(list.items[3].state, TodoState::Exclamation);
}

#[test]
fn test_parse_with_indentation() {
    let content = r#"# Todo List - December 31, 2025

- [ ] Parent
  - [ ] Child 1
    - [ ] Grandchild
  - [ ] Child 2
"#;

    let date = create_test_date();
    let path = create_test_path();
    let list = parse_todo_list(content, date, path).unwrap();

    assert_eq!(list.items.len(), 4);
    assert_eq!(list.items[0].indent_level, 0);
    assert_eq!(list.items[1].indent_level, 1);
    assert_eq!(list.items[2].indent_level, 2);
    assert_eq!(list.items[3].indent_level, 1);
}

#[test]
fn test_round_trip() {
    let date = create_test_date();
    let path = create_test_path();
    let mut list = TodoList::new(date.clone(), path.clone());

    list.add_item_with_indent("Parent".to_string(), 0);
    list.add_item_with_indent("Child".to_string(), 1);
    list.items[1].state = TodoState::Checked;

    let markdown = serialize_todo_list(&list);
    let parsed = parse_todo_list(&markdown, date, path).unwrap();

    assert_eq!(parsed.items.len(), 2);
    assert_eq!(parsed.items[0].content, "Parent");
    assert_eq!(parsed.items[0].indent_level, 0);
    assert_eq!(parsed.items[0].state, TodoState::Empty);
    assert_eq!(parsed.items[1].content, "Child");
    assert_eq!(parsed.items[1].indent_level, 1);
    assert_eq!(parsed.items[1].state, TodoState::Checked);
}

#[test]
fn test_parse_skips_non_checkbox_lines() {
    let content = r#"# Todo List - December 31, 2025

Some random text
- [ ] Task 1
Another line
- [x] Task 2

Empty line above
"#;

    let date = create_test_date();
    let path = create_test_path();
    let list = parse_todo_list(content, date, path).unwrap();

    assert_eq!(list.items.len(), 2);
    assert_eq!(list.items[0].content, "Task 1");
    assert_eq!(list.items[1].content, "Task 2");
}

#[test]
fn test_parse_due_date_and_description() {
    let content = "- [ ] Write report @due(2026-01-15)\n  > first line\n  > second line\n";
    let date = create_test_date();
    let list = parse_todo_list(content, date, create_test_path()).unwrap();

    assert_eq!(list.items.len(), 1);
    assert_eq!(list.items[0].content, "Write report");
    assert_eq!(
        list.items[0].due_date,
        Some(Date::from_ymd(2026, 1, 15).unwrap())
    );
    assert_eq!(
        list.items[0].description,
        Some("first line\nsecond line".to_string())
    );
}

#[test]
fn test_parse_id_annotation_round_trips_identifier() {
    let content = "- [ ] Task @id(00000000-0000-0000-0000-0000000000ff)\n";
    let date = create_test_date();
    let list = parse_todo_list(content, date, create_test_path()).unwrap();

    assert_eq!(list.items.len(), 1);
    assert_eq!(list.items[0].content, "Task");
    assert_eq!(list.items[0].id, 0xff);
}

#[test]
fn test_parse_malformed_checkbox_fails() {
    let date = create_test_date();
    assert!(parse_todo_list("- [", date, create_test_path()).is_err());
    assert!(parse_todo_list("- [z] bad state", date, create_test_path()).is_err());
}

#[test]
fn test_serialize_and_deserialize_preserves_data() {
    let date = create_test_date();
    let file_path = "/tmp/test.md".to_string();

    let mut list = TodoList::new(date, file_path.clone());
    list.add_item_with_indent("Parent".to_string(), 0);
    list.add_item_with_indent("Child".to_string(), 1);
    list.items[1].state = TodoState::Checked;

    let markdown = serialize_todo_list(&list);
    let parsed = parse_todo_list(&markdown, date, file_path).unwrap();

    assert_eq!(parsed.items.len(), 2);
    assert_eq!(parsed.items[0].content, "Parent");
    assert_eq!(parsed.items[1].content, "Child");
    assert_eq!(parsed.items[1].state, TodoState::Checked);
}
