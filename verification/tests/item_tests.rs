use to_tui::TodoItem;
use to_tui::TodoState;

#[test]
fn item_test_new() {
    let item = TodoItem::new("Test task".to_string(), 0);
    assert_eq!(item.content, "Test task");
    assert_eq!(item.state, TodoState::Empty);
    assert_eq!(item.indent_level, 0);
}

#[test]
fn test_with_state() {
    let item = TodoItem::with_state("Done task".to_string(), TodoState::Checked, 1);
    assert_eq!(item.content, "Done task");
    assert_eq!(item.state, TodoState::Checked);
    assert_eq!(item.indent_level, 1);
}

#[test]
fn test_toggle_state() {
    let mut item = TodoItem::new("Task".to_string(), 0);
    assert_eq!(item.state, TodoState::Empty);

    item.toggle_state();
    assert_eq!(item.state, TodoState::Checked);

    item.toggle_state();
    assert_eq!(item.state, TodoState::Empty);
}

#[test]
fn test_cycle_state() {
    let mut item = TodoItem::new("Task".to_string(), 0);
    assert_eq!(item.state, TodoState::Empty);

    item.cycle_state();
    assert_eq!(item.state, TodoState::Checked);

    item.cycle_state();
    assert_eq!(item.state, TodoState::InProgress);

    item.cycle_state();
    assert_eq!(item.state, TodoState::Question);

    item.cycle_state();
    assert_eq!(item.state, TodoState::Exclamation);

    item.cycle_state();
    assert_eq!(item.state, TodoState::Empty);
}

#[test]
fn item_test_is_complete() {
    let mut item = TodoItem::new("Task".to_string(), 0);
    assert!(!item.is_complete());

    item.state = TodoState::Checked;
    assert!(item.is_complete());
}

#[test]
fn test_can_indent() {
    let item = TodoItem::new("Task".to_string(), 0);
    assert!(!item.can_indent(None));
    assert!(item.can_indent(Some(0)));
    assert!(item.can_indent(Some(1)));
    assert!(item.can_indent(Some(2)));

    let item2 = TodoItem::new("Task".to_string(), 1);
    assert!(!item2.can_indent(Some(0)));
    assert!(item2.can_indent(Some(1)));
}

#[test]
fn test_can_outdent() {
    let item = TodoItem::new("Task".to_string(), 0);
    assert!(!item.can_outdent());

    let item2 = TodoItem::new("Task".to_string(), 1);
    assert!(item2.can_outdent());
}

#[test]
fn item_test_indent_outdent() {
    let mut item = TodoItem::new("Task".to_string(), 0);

    item.indent();
    assert_eq!(item.indent_level, 1);

    item.indent();
    assert_eq!(item.indent_level, 2);

    item.outdent();
    assert_eq!(item.indent_level, 1);

    item.outdent();
    assert_eq!(item.indent_level, 0);

    item.outdent();
    assert_eq!(item.indent_level, 0);
}
