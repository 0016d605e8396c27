use to_tui::Date;
use to_tui::TodoList;
use to_tui::TodoState;

fn create_test_list() -> TodoList {
    let date = Date::from_ymd(2025, 12, 31).unwrap();
    let path = "/tmp/test.md".to_string();
    TodoList::new(date, path)
}

#[test]
fn list_test_new() {
    let list = create_test_list();
    assert!(list.items.is_empty());
    assert_eq!(list.date.year, 2025);
}

#[test]
fn test_add_item() {
    let mut list = create_test_list();
    list.add_item("Task 1".to_string());
    list.add_item("Task 2".to_string());

    assert_eq!(list.items.len(), 2);
    assert_eq!(list.items[0].content, "Task 1");
    assert_eq!(list.items[1].content, "Task 2");
}

#[test]
fn test_add_item_with_indent() {
    let mut list = create_test_list();
    list.add_item_with_indent("Parent".to_string(), 0);
    list.add_item_with_indent("Child".to_string(), 1);

    assert_eq!(list.items[0].indent_level, 0);
    assert_eq!(list.items[1].indent_level, 1);
}

#[test]
fn test_get_incomplete_items() {
    let mut list = create_test_list();
    list.add_item("Task 1".to_string());
    list.add_item("Task 2".to_string());
    list.add_item("Task 3".to_string());

    list.items[1].state = TodoState::Checked;

    let incomplete = list.get_incomplete_items();
    assert_eq!(incomplete.len(), 2);
    assert_eq!(incomplete[0].content, "Task 1");
    assert_eq!(incomplete[1].content, "Task 3");
}

#[test]
fn test_get_incomplete_items_includes_complete_parent_with_incomplete_child() {
    let mut list = create_test_list();
    list.add_item("Parent".to_string());
    list.add_item("Child".to_string());

    let parent_id = list.items[0].id;
    list.items[0].state = TodoState::Checked;
    list.items[1].parent_id = Some(parent_id);
    list.items[1].indent_level = 1;

    let incomplete = list.get_incomplete_items();
    assert_eq!(incomplete.len(), 2);
    assert_eq!(incomplete[0].content, "Parent");
    assert_eq!(incomplete[1].content, "Child");
}

#[test]
fn test_get_incomplete_items_includes_complete_ancestors() {
    let mut list = create_test_list();
    list.add_item("Grandparent".to_string());
    list.add_item("Parent".to_string());
    list.add_item("Child".to_string());

    let grandparent_id = list.items[0].id;
    let parent_id = list.items[1].id;

    list.items[0].state = TodoState::Checked;
    list.items[1].state = TodoState::Checked;
    list.items[1].parent_id = Some(grandparent_id);
    list.items[1].indent_level = 1;
    list.items[2].parent_id = Some(parent_id);
    list.items[2].indent_level = 2;

    let incomplete = list.get_incomplete_items();
    assert_eq!(incomplete.len(), 3);
    assert_eq!(incomplete[0].content, "Grandparent");
    assert_eq!(incomplete[1].content, "Parent");
    assert_eq!(incomplete[2].content, "Child");
}

#[test]
fn test_get_incomplete_items_excludes_complete_parent_without_incomplete_children() {
    let mut list = create_test_list();
    list.add_item("Parent".to_string());
    list.add_item("Child".to_string());

    let parent_id = list.items[0].id;
    list.items[0].state = TodoState::Checked;
    list.items[1].state = TodoState::Checked;
    list.items[1].parent_id = Some(parent_id);
    list.items[1].indent_level = 1;

    let incomplete = list.get_incomplete_items();
    assert!(incomplete.is_empty());
}

#[test]
fn test_toggle_item_state() {
    let mut list = create_test_list();
    list.add_item("Task".to_string());

    assert_eq!(list.items[0].state, TodoState::Empty);
    list.toggle_item_state(0).unwrap();
    assert_eq!(list.items[0].state, TodoState::Checked);
}

#[test]
fn test_remove_item() {
    let mut list = create_test_list();
    list.add_item("Task 1".to_string());
    list.add_item("Task 2".to_string());
    list.add_item("Task 3".to_string());

    let removed = list.remove_item(1).unwrap();
    assert_eq!(removed.content, "Task 2");
    assert_eq!(list.items.len(), 2);
    assert_eq!(list.items[1].content, "Task 3");
}

#[test]
fn test_insert_item() {
    let mut list = create_test_list();
    list.add_item("Task 1".to_string());
    list.add_item("Task 3".to_string());

    list.insert_item(1, "Task 2".to_string(), 0).unwrap();

    assert_eq!(list.items.len(), 3);
    assert_eq!(list.items[1].content, "Task 2");
}

#[test]
fn test_is_empty() {
    let mut list = create_test_list();
    assert!(list.is_empty());

    list.add_item("Task".to_string());
    assert!(!list.is_empty());
}

#[test]
fn test_len() {
    let mut list = create_test_list();
    assert_eq!(list.len(), 0);

    list.add_item("Task 1".to_string());
    list.add_item("Task 2".to_string());
    assert_eq!(list.len(), 2);
}

#[test]
fn test_remove_item_range() {
    let mut list = create_test_list();
    list.add_item("A".to_string());
    list.add_item("B".to_string());
    list.add_item("C".to_string());

    assert!(list.remove_item_range(1, 1).is_err());
    assert!(list.remove_item_range(0, 4).is_err());
    assert!(list.remove_item_range(3, 4).is_err());

    let taken = list.remove_item_range(0, 2).unwrap();
    assert_eq!(taken.len(), 2);
    assert_eq!(taken[0].content, "A");
    assert_eq!(taken[1].content, "B");
    assert_eq!(list.items.len(), 1);
    assert_eq!(list.items[0].content, "C");
}
