use to_tui::create_rolled_over_list;
use to_tui::get_config_path;
use to_tui::get_daily_file_path;
use to_tui::get_dailies_dir;
use to_tui::get_database_path;
use to_tui::get_pid_file_path;
use to_tui::parse_date;
use to_tui::parse_state;
use to_tui::parse_uuid;
use to_tui::today_date;
use to_tui::uuid_to_string;
use to_tui::Action;
use to_tui::Config;
use to_tui::Date;
use to_tui::Mode;
use to_tui::TodoItem;
use to_tui::TodoItemResponse;
use to_tui::TodoListResponse;
use to_tui::TodoState;

#[test]
fn test_default_config() {
    let config = Config::default();
    assert_eq!(config.theme, "default");
}

#[test]
fn test_action_roundtrip() {
    let action = Action::MoveUp;
    let s = action.as_str().to_string();
    let parsed: Action = s.parse().unwrap();
    assert_eq!(action, parsed);
}

#[test]
fn test_action_parse_case_insensitive() {
    assert_eq!(Action::parse_name("MOVE_DOWN"), Some(Action::MoveDown));
    assert_eq!(Action::parse_name("toggle_state"), Some(Action::ToggleState));
    assert_eq!(Action::parse_name("no_such_action"), None);
    assert!("bogus".parse::<Action>().is_err());
}

#[test]
fn test_get_dailies_dir() {
    let dir = get_dailies_dir().unwrap();
    assert!(dir.contains(".to-tui"));
    assert!(dir.ends_with("dailies"));
}

#[test]
fn test_get_config_path() {
    let path = get_config_path().unwrap();
    assert!(path.contains(".to-tui"));
    assert!(path.ends_with("config.toml"));
}

#[test]
fn test_get_daily_file_path() {
    let date = Date::from_ymd(2025, 12, 31).unwrap();
    let path = get_daily_file_path(date).unwrap();

    assert!(path.contains("dailies"));
    assert!(path.ends_with("2025-12-31.md"));
}

#[test]
fn test_get_database_path() {
    let path = get_database_path().unwrap();
    assert!(path.contains(".to-tui"));
    assert!(path.ends_with("todos.db"));
}

#[test]
fn test_get_pid_file_path() {
    let path = get_pid_file_path().unwrap();
    assert!(path.contains(".to-tui"));
    assert!(path.ends_with("server.pid"));
}

#[test]
fn test_create_rolled_over_list() {
    let today = today_date();
    let items = vec![
        TodoItem::with_state("Task 1".to_string(), TodoState::Empty, 0),
        TodoItem::with_state("Task 2".to_string(), TodoState::Question, 0),
    ];

    let list = create_rolled_over_list(today, items).unwrap();

    assert_eq!(list.items.len(), 2);
    assert_eq!(list.date, today);
    assert_eq!(list.items[0].content, "Task 1");
    assert_eq!(list.items[1].content, "Task 2");
}

#[test]
fn test_mode_names() {
    assert_eq!(Mode::Navigate.name(), "NAVIGATE");
    assert_eq!(Mode::Edit.name(), "INSERT");
    assert_eq!(Mode::Visual.name(), "VISUAL");
    assert_eq!(Mode::ConfirmDelete.name(), "CONFIRM");
    assert_eq!(Mode::Plugin.name(), "PLUGIN");
    assert_eq!(Mode::default(), Mode::Navigate);
}

#[test]
fn test_uuid_to_string_format() {
    assert_eq!(
        uuid_to_string(0xff),
        "00000000-0000-0000-0000-0000000000ff"
    );
    assert_eq!(
        uuid_to_string(0x0123_4567_89ab_cdef_0123_4567_89ab_cdef),
        "01234567-89ab-cdef-0123-456789abcdef"
    );
}

#[test]
fn test_parse_uuid_round_trip() {
    let id: u128 = 0xdead_beef_0000_0001_0000_0002_0000_0003;
    let s = uuid_to_string(id);
    assert_eq!(parse_uuid(&s).unwrap(), id);
    assert!(parse_uuid("not a uuid").is_err());
}

#[test]
fn test_parse_date_strings() {
    assert_eq!(
        parse_date(Some("2025-12-31")).unwrap(),
        Date::from_ymd(2025, 12, 31).unwrap()
    );
    assert!(parse_date(Some("not a date")).is_err());
    assert!(parse_date(None).is_ok());
}

#[test]
fn test_parse_state_wire_markers() {
    assert_eq!(parse_state(" "), Some(TodoState::Empty));
    assert_eq!(parse_state(""), Some(TodoState::Empty));
    assert_eq!(parse_state("x"), Some(TodoState::Checked));
    assert_eq!(parse_state("X"), Some(TodoState::Checked));
    assert_eq!(parse_state("?"), Some(TodoState::Question));
    assert_eq!(parse_state("!"), Some(TodoState::Exclamation));
    assert_eq!(parse_state("*"), None);
}

#[test]
fn test_list_response_formatting() {
    let mut item = TodoItem::new("Write tests".to_string(), 0);
    item.state = TodoState::Checked;
    let mut child = TodoItem::new("Nested".to_string(), 1);
    child.due_date = Some(Date::from_ymd(2026, 1, 2).unwrap());
    let responses = vec![
        TodoItemResponse::from_item(&item),
        TodoItemResponse::from_item(&child),
    ];
    let resp = TodoListResponse::new("2025-12-31".to_string(), responses);
    assert_eq!(resp.item_count, 2);
    assert!(resp.formatted.starts_with("## Todos for 2025-12-31 (1/2)"));
    assert!(resp.formatted.contains("\u{2705} Write tests"));
    assert!(resp.formatted.contains("  \u{2B1C} Nested (due: 2026-01-02)"));

    let empty = TodoListResponse::new("2025-12-31".to_string(), Vec::new());
    assert_eq!(empty.formatted, "No todos for 2025-12-31");
}

#[test]
fn test_item_response_fields() {
    let mut item = TodoItem::new("Thing".to_string(), 2);
    item.state = TodoState::Question;
    let r = TodoItemResponse::from_item(&item);
    assert_eq!(r.content, "Thing");
    assert_eq!(r.state, "?");
    assert_eq!(r.state_description, "question");
    assert_eq!(r.indent_level, 2);
    assert_eq!(r.id, uuid_to_string(item.id));
    assert_eq!(r.parent_id, None);
}

#[test]
fn test_date_navigation() {
    let d = Date::from_ymd(2025, 12, 31).unwrap();
    assert_eq!(d.next_day(), Date::from_ymd(2026, 1, 1).unwrap());
    assert_eq!(d.next_day().prev_day(), d);
    let feb = Date::from_ymd(2024, 2, 28).unwrap();
    assert_eq!(feb.next_day(), Date::from_ymd(2024, 2, 29).unwrap());
    assert_eq!(Date::from_ymd(2025, 2, 29), None);
}

#[test]
fn test_get_to_tui_dir() {
    let dir = to_tui::get_to_tui_dir().unwrap();
    assert!(dir.contains(".to-tui"));
}
