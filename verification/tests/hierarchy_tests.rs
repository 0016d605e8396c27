use to_tui::AppState;
use to_tui::Date;
use to_tui::TodoError;
use to_tui::TodoList;
use to_tui::TodoState;

fn create_test_list() -> TodoList {
    let date = Date::from_ymd(2025, 12, 31).unwrap();
    let path = "/tmp/test.md".to_string();
    TodoList::new(date, path)
}

fn list_of(depths: &[(&str, usize)]) -> TodoList {
    let mut list = create_test_list();
    for (name, depth) in depths {
        list.add_item_with_indent(name.to_string(), *depth);
    }
    list.recalculate_parent_ids();
    list
}

#[test]
fn test_get_item_range() {
    let mut list = create_test_list();
    list.add_item_with_indent("Parent".to_string(), 0);
    list.add_item_with_indent("Child 1".to_string(), 1);
    list.add_item_with_indent("Grandchild".to_string(), 2);
    list.add_item_with_indent("Child 2".to_string(), 1);
    list.add_item_with_indent("Another parent".to_string(), 0);

    let (start, end) = list.get_item_range(0).unwrap();
    assert_eq!(start, 0);
    assert_eq!(end, 4);

    let (start, end) = list.get_item_range(4).unwrap();
    assert_eq!(start, 4);
    assert_eq!(end, 5);
}

#[test]
fn hierarchy_test_indent_outdent() {
    let mut list = create_test_list();
    list.add_item("Parent".to_string());
    list.add_item("Child".to_string());

    assert!(list.indent_item(0).is_err());

    assert!(list.indent_item(1).is_ok());
    assert_eq!(list.items[1].indent_level, 1);

    assert!(list.outdent_item(1).is_ok());
    assert_eq!(list.items[1].indent_level, 0);

    assert!(list.outdent_item(1).is_err());
}

#[test]
fn test_indent_chain_scenario() {
    let mut list = list_of(&[("A", 0), ("B", 0), ("C", 0)]);

    assert!(list.indent_item(1).is_ok());
    assert_eq!(list.items[0].indent_level, 0);
    assert_eq!(list.items[1].indent_level, 1);
    assert_eq!(list.items[2].indent_level, 0);
    assert_eq!(list.items[1].parent_id, Some(list.items[0].id));

    let second = list.indent_item(1);
    assert_eq!(second, Err(TodoError::IndentBeyondParent));
    assert_eq!(list.items[1].indent_level, 1);
}

#[test]
fn test_move_with_children_scenario() {
    let mut list = list_of(&[("P", 0), ("C", 1), ("Q", 0)]);
    let p_id = list.items[0].id;
    let c_id = list.items[1].id;
    let q_id = list.items[2].id;

    let displacement = list.move_item_with_children_down(0).unwrap();
    assert_eq!(displacement, 1);
    assert_eq!(list.items[0].id, q_id);
    assert_eq!(list.items[1].id, p_id);
    assert_eq!(list.items[2].id, c_id);
    assert_eq!(list.items[0].indent_level, 0);
    assert_eq!(list.items[1].indent_level, 0);
    assert_eq!(list.items[2].indent_level, 1);
    assert_eq!(list.items[2].parent_id, Some(p_id));
}

#[test]
fn test_outdent_with_children_clamps_at_zero() {
    let mut list = list_of(&[("A", 0), ("B", 1), ("C", 2)]);

    assert!(list.outdent_item_with_children(1).is_ok());
    assert_eq!(list.items[0].indent_level, 0);
    assert_eq!(list.items[1].indent_level, 0);
    assert_eq!(list.items[2].indent_level, 1);
}

#[test]
fn test_bulk_selection_indent_boundary() {
    let mut list = list_of(&[("A", 0), ("B", 0), ("C", 0)]);

    assert!(list.indent_range(1, 2));
    assert_eq!(list.items[0].indent_level, 0);
    assert_eq!(list.items[1].indent_level, 1);
    assert_eq!(list.items[2].indent_level, 1);
}

#[test]
fn test_bulk_indent_refused_at_front() {
    let mut list = list_of(&[("A", 0), ("B", 0)]);
    assert!(!list.indent_range(0, 1));
    assert_eq!(list.items[0].indent_level, 0);
    assert_eq!(list.items[1].indent_level, 0);
}

#[test]
fn test_bulk_outdent() {
    let mut list = list_of(&[("A", 0), ("B", 1), ("C", 2)]);
    assert!(list.outdent_range(1, 2));
    assert_eq!(list.items[1].indent_level, 0);
    assert_eq!(list.items[2].indent_level, 1);
    assert!(!list.outdent_range(0, 1));
}

#[test]
fn test_move_up_then_down_round_trip() {
    let mut list = list_of(&[("A", 0), ("P", 0), ("C", 1), ("Q", 0)]);
    let ids: Vec<u128> = list.items.iter().map(|it| it.id).collect();
    let depths: Vec<usize> = list.items.iter().map(|it| it.indent_level).collect();

    let up = list.move_item_with_children_up(1).unwrap();
    assert_eq!(up, 1);
    let down = list.move_item_with_children_down(0).unwrap();
    assert_eq!(down, 1);

    let ids_after: Vec<u128> = list.items.iter().map(|it| it.id).collect();
    let depths_after: Vec<usize> = list.items.iter().map(|it| it.indent_level).collect();
    assert_eq!(ids, ids_after);
    assert_eq!(depths, depths_after);
}

#[test]
fn test_move_preserves_identity() {
    let mut list = list_of(&[("A", 0), ("B", 1), ("C", 0)]);
    let mut idents: Vec<(u128, String, char)> = list
        .items
        .iter()
        .map(|it| (it.id, it.content.clone(), it.state.to_char()))
        .collect();

    list.move_item_with_children_up(2).unwrap();

    let mut idents_after: Vec<(u128, String, char)> = list
        .items
        .iter()
        .map(|it| (it.id, it.content.clone(), it.state.to_char()))
        .collect();
    idents.sort();
    idents_after.sort();
    assert_eq!(idents, idents_after);
}

#[test]
fn test_leaf_subtree_range() {
    let list = list_of(&[("A", 0), ("B", 1), ("C", 1)]);
    let (start, end) = list.get_item_range(1).unwrap();
    assert_eq!((start, end), (1, 2));
}

#[test]
fn test_move_errors() {
    let mut list = list_of(&[("A", 0), ("B", 0)]);
    assert_eq!(list.move_item_with_children_up(0), Err(TodoError::MoveFirstItemUp));
    assert_eq!(list.move_item_with_children_up(5), Err(TodoError::OutOfRange));
    assert_eq!(list.move_item_with_children_down(1), Err(TodoError::MoveLastItemDown));
    assert_eq!(list.move_item_with_children_down(5), Err(TodoError::OutOfRange));
    assert_eq!(list.indent_item(5), Err(TodoError::OutOfRange));
    assert_eq!(list.indent_item(0), Err(TodoError::IndentFirstItem));
    assert_eq!(list.outdent_item(0), Err(TodoError::OutdentTopLevel));
    assert_eq!(list.outdent_item(9), Err(TodoError::OutOfRange));
}

#[test]
fn test_error_messages() {
    assert_eq!(TodoError::OutOfRange.message(), "Index out of bounds");
    assert_eq!(TodoError::InvalidRange.message(), "Invalid range");
    assert_eq!(TodoError::IndentFirstItem.message(), "Cannot indent first item");
    assert_eq!(
        TodoError::IndentBeyondParent.message(),
        "Cannot indent beyond parent level"
    );
    assert_eq!(TodoError::OutdentTopLevel.message(), "Cannot outdent top-level item");
    assert_eq!(TodoError::MoveFirstItemUp.message(), "Cannot move first item up");
    assert_eq!(TodoError::MoveLastItemDown.message(), "Cannot move last item down");
}

#[test]
fn test_count_children_stats() {
    let mut list = list_of(&[("P", 0), ("C1", 1), ("C2", 1), ("Q", 0)]);
    list.items[1].state = TodoState::Checked;
    let (done, total) = list.count_children_stats(0);
    assert_eq!((done, total), (1, 2));
    assert!(list.has_children(0));
    assert!(!list.has_children(3));
}

#[test]
fn test_recalculate_parent_ids() {
    let list = list_of(&[("A", 0), ("B", 1), ("C", 2), ("D", 1), ("E", 0)]);
    assert_eq!(list.items[0].parent_id, None);
    assert_eq!(list.items[1].parent_id, Some(list.items[0].id));
    assert_eq!(list.items[2].parent_id, Some(list.items[1].id));
    assert_eq!(list.items[3].parent_id, Some(list.items[0].id));
    assert_eq!(list.items[4].parent_id, None);
}

#[test]
fn test_undo_bounded_history() {
    let mut list = create_test_list();
    list.add_item("base".to_string());
    let mut state = AppState::new(list, 500);

    for k in 0..51usize {
        state.todo_list.add_item(format!("step {}", k));
        state.save_undo();
    }
    assert_eq!(state.undo_stack.len(), 50);

    let items_before_last_save = state.undo_stack[49].0.items.len();
    assert!(state.undo());
    assert_eq!(state.todo_list.items.len(), items_before_last_save);
    assert_eq!(state.undo_stack.len(), 49);
}

#[test]
fn test_undo_restores_snapshot() {
    let mut list = create_test_list();
    list.add_item("A".to_string());
    let mut state = AppState::new(list, 500);

    state.save_undo();
    state.todo_list.add_item("B".to_string());
    assert_eq!(state.todo_list.items.len(), 2);

    assert!(state.undo());
    assert_eq!(state.todo_list.items.len(), 1);
    assert_eq!(state.todo_list.items[0].content, "A");

    assert!(!state.undo());
}

#[test]
fn test_selection_and_cursor() {
    let mut list = create_test_list();
    list.add_item("A".to_string());
    list.add_item("B".to_string());
    list.add_item("C".to_string());
    let mut state = AppState::new(list, 500);

    assert_eq!(state.get_selection_range(), None);
    state.cursor_position = 2;
    state.start_or_extend_selection();
    state.cursor_position = 0;
    assert_eq!(state.get_selection_range(), Some((0, 2)));
    assert!(state.is_selected(1));
    state.clear_selection();
    assert!(!state.is_selected(1));

    state.cursor_position = 9;
    state.clamp_cursor();
    assert_eq!(state.cursor_position, 2);
}

#[test]
fn test_find_parent_index() {
    let list = list_of(&[("A", 0), ("B", 1), ("C", 2)]);
    let mut state = AppState::new(list, 500);
    assert_eq!(state.find_parent_index(2), Some(1));
    assert_eq!(state.find_parent_index(1), Some(0));
    assert_eq!(state.find_parent_index(0), None);
    state.cursor_position = 2;
    state.move_to_parent();
    assert_eq!(state.cursor_position, 1);
}

#[test]
fn test_hidden_under_collapsed_ancestor() {
    let mut list = list_of(&[("A", 0), ("B", 1), ("C", 2), ("D", 0)]);
    list.items[0].collapsed = true;
    let state = AppState::new(list, 500);
    assert!(!state.is_item_hidden(0));
    assert!(state.is_item_hidden(1));
    assert!(state.is_item_hidden(2));
    assert!(!state.is_item_hidden(3));
}

#[test]
fn test_cursor_skips_hidden_items() {
    let mut list = list_of(&[("A", 0), ("B", 1), ("C", 2), ("D", 0)]);
    list.items[0].collapsed = true;
    let mut state = AppState::new(list, 500);

    state.move_cursor_down();
    assert_eq!(state.cursor_position, 3);
    state.move_cursor_up();
    assert_eq!(state.cursor_position, 0);
}

#[test]
fn test_edit_buffer_lifecycle() {
    let mut list = create_test_list();
    list.add_item("A".to_string());
    let mut state = AppState::new(list, 500);

    state.enter_edit_mode();
    assert_eq!(state.edit_buffer, "A");
    state.edit_buffer.push_str(" plus");
    state.save_edit_buffer().unwrap();
    assert_eq!(state.todo_list.items[0].content, "A plus");
    assert_eq!(state.edit_buffer, "");

    state.new_item_below();
    state.edit_buffer.push_str("B");
    state.save_edit_buffer().unwrap();
    assert_eq!(state.todo_list.items.len(), 2);
    assert_eq!(state.todo_list.items[1].content, "B");
    assert_eq!(state.cursor_position, 1);

    state.insert_item_above();
    state.edit_buffer.push_str("A half");
    state.save_edit_buffer().unwrap();
    assert_eq!(state.todo_list.items[1].content, "A half");
    assert_eq!(state.cursor_position, 2);

    state.new_item_below();
    state.edit_buffer.push_str("   ");
    let before = state.todo_list.items.len();
    state.save_edit_buffer().unwrap();
    assert_eq!(state.todo_list.items.len(), before);
}

#[test]
fn test_delete_current_item_removes_subtree() {
    let mut list = list_of(&[("P", 0), ("C", 1), ("Q", 0)]);
    let p_id = list.items[0].id;
    let c_id = list.items[1].id;
    let mut state = AppState::new(list, 500);

    let ids = state.delete_current_item().unwrap();
    assert_eq!(ids, vec![p_id, c_id]);
    assert_eq!(state.todo_list.items.len(), 1);
    assert_eq!(state.todo_list.items[0].content, "Q");
    assert_eq!(state.cursor_position, 0);
}

#[test]
fn test_collapse_operations() {
    let mut list = list_of(&[("P", 0), ("C", 1), ("Q", 0)]);
    list.items[0].collapsed = false;
    let mut state = AppState::new(list, 500);

    state.toggle_collapse();
    assert!(state.todo_list.items[0].collapsed);
    state.expand();
    assert!(!state.todo_list.items[0].collapsed);
    state.collapse_or_parent();
    assert!(state.todo_list.items[0].collapsed);

    state.cursor_position = 1;
    state.collapse_or_parent();
    assert_eq!(state.cursor_position, 0);

    state.cursor_position = 2;
    let before = state.todo_list.items[2].collapsed;
    state.toggle_collapse();
    assert_eq!(state.todo_list.items[2].collapsed, before);
}

#[test]
fn test_visual_selection_snapshots_only_when_applied() {
    let mut list = list_of(&[("A", 0), ("B", 0), ("C", 0)]);
    let mut state = AppState::new(list, 500);

    state.cursor_position = 1;
    state.start_or_extend_selection();
    state.cursor_position = 2;
    assert!(state.visual_indent_selection());
    assert_eq!(state.todo_list.items[1].indent_level, 1);
    assert_eq!(state.todo_list.items[2].indent_level, 1);
    assert_eq!(state.undo_stack.len(), 1);

    state.clear_selection();
    state.cursor_position = 0;
    state.start_or_extend_selection();
    assert!(!state.visual_indent_selection());
    assert_eq!(state.undo_stack.len(), 1);

    state.clear_selection();
    state.cursor_position = 1;
    state.start_or_extend_selection();
    state.cursor_position = 2;
    assert!(state.visual_outdent_selection());
    assert_eq!(state.todo_list.items[1].indent_level, 0);
    assert_eq!(state.undo_stack.len(), 2);

    state.clear_selection();
    state.cursor_position = 0;
    state.start_or_extend_selection();
    assert!(!state.visual_outdent_selection());
    assert_eq!(state.undo_stack.len(), 2);
}

#[test]
fn test_indent_depth_overflow_refused() {
    let mut list = list_of(&[("A", 0), ("B", 0)]);
    list.items[1].indent_level = usize::MAX;
    list.items[0].indent_level = usize::MAX;
    assert_eq!(list.indent_item(1), Err(TodoError::DepthOverflow));
    assert_eq!(list.indent_item_with_children(1), Err(TodoError::DepthOverflow));
    assert_eq!(list.items[1].indent_level, usize::MAX);
}

#[test]
fn test_move_down_then_up_round_trip() {
    let mut list = list_of(&[("P", 0), ("C", 1), ("Q", 0), ("R", 0)]);
    let ids: Vec<u128> = list.items.iter().map(|it| it.id).collect();
    let depths: Vec<usize> = list.items.iter().map(|it| it.indent_level).collect();

    let down = list.move_item_with_children_down(0).unwrap();
    assert_eq!(down, 1);
    let up = list.move_item_with_children_up(1).unwrap();
    assert_eq!(up, 1);

    let ids_after: Vec<u128> = list.items.iter().map(|it| it.id).collect();
    let depths_after: Vec<usize> = list.items.iter().map(|it| it.indent_level).collect();
    assert_eq!(ids, ids_after);
    assert_eq!(depths, depths_after);
}

#[test]
fn test_bulk_edit_snapshot_holds_pre_edit_state() {
    let list = list_of(&[("A", 0), ("B", 0), ("C", 0)]);
    let mut state = AppState::new(list, 500);

    state.cursor_position = 1;
    state.start_or_extend_selection();
    state.cursor_position = 2;
    assert!(state.visual_indent_selection());
    assert_eq!(state.todo_list.items[1].indent_level, 1);

    assert!(state.undo());
    let depths: Vec<usize> = state.todo_list.items.iter().map(|it| it.indent_level).collect();
    assert_eq!(depths, vec![0, 0, 0]);
    assert_eq!(state.cursor_position, 2);
    assert!(state.undo_stack.is_empty());
}

#[test]
fn test_collapse_snapshot_holds_pre_edit_state() {
    let list = list_of(&[("P", 0), ("C", 1)]);
    let mut state = AppState::new(list, 500);

    state.toggle_collapse();
    assert!(state.todo_list.items[0].collapsed);
    assert!(state.undo());
    assert!(!state.todo_list.items[0].collapsed);
}
