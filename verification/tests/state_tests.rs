use to_tui::TodoState;

#[test]
fn test_to_char() {
    assert_eq!(TodoState::Empty.to_char(), ' ');
    assert_eq!(TodoState::Checked.to_char(), 'x');
    assert_eq!(TodoState::Question.to_char(), '?');
    assert_eq!(TodoState::Exclamation.to_char(), '!');
    assert_eq!(TodoState::InProgress.to_char(), '*');
}

#[test]
fn test_from_char() {
    assert_eq!(TodoState::from_char(' '), Some(TodoState::Empty));
    assert_eq!(TodoState::from_char('x'), Some(TodoState::Checked));
    assert_eq!(TodoState::from_char('X'), Some(TodoState::Checked));
    assert_eq!(TodoState::from_char('?'), Some(TodoState::Question));
    assert_eq!(TodoState::from_char('!'), Some(TodoState::Exclamation));
    assert_eq!(TodoState::from_char('*'), Some(TodoState::InProgress));
    assert_eq!(TodoState::from_char('z'), None);
}

#[test]
fn test_cycle() {
    assert_eq!(TodoState::Empty.cycle(), TodoState::Checked);
    assert_eq!(TodoState::Checked.cycle(), TodoState::InProgress);
    assert_eq!(TodoState::InProgress.cycle(), TodoState::Question);
    assert_eq!(TodoState::Question.cycle(), TodoState::Exclamation);
    assert_eq!(TodoState::Exclamation.cycle(), TodoState::Empty);
}

#[test]
fn state_test_is_complete() {
    assert!(!TodoState::Empty.is_complete());
    assert!(TodoState::Checked.is_complete());
    assert!(!TodoState::Question.is_complete());
    assert!(!TodoState::Exclamation.is_complete());
    assert!(!TodoState::InProgress.is_complete());
}

#[test]
fn test_display() {
    assert_eq!(format!("[{}]", TodoState::Empty.to_char()), "[ ]");
    assert_eq!(format!("[{}]", TodoState::Checked.to_char()), "[x]");
    assert_eq!(format!("[{}]", TodoState::Question.to_char()), "[?]");
    assert_eq!(format!("[{}]", TodoState::Exclamation.to_char()), "[!]");
    assert_eq!(format!("[{}]", TodoState::InProgress.to_char()), "[*]");
}

#[test]
fn test_toggle() {
    assert_eq!(TodoState::Empty.toggle(), TodoState::Checked);
    assert_eq!(TodoState::Checked.toggle(), TodoState::Empty);
    assert_eq!(TodoState::Question.toggle(), TodoState::Checked);
    assert_eq!(TodoState::InProgress.toggle(), TodoState::Checked);
}

#[test]
fn test_state_parse() {
    assert_eq!(TodoState::parse(" "), Some(TodoState::Empty));
    assert_eq!(TodoState::parse(""), Some(TodoState::Empty));
    assert_eq!(TodoState::parse("x"), Some(TodoState::Checked));
    assert_eq!(TodoState::parse("X"), Some(TodoState::Checked));
    assert_eq!(TodoState::parse("?"), Some(TodoState::Question));
    assert_eq!(TodoState::parse("!"), Some(TodoState::Exclamation));
    assert_eq!(TodoState::parse("*"), Some(TodoState::InProgress));
    assert_eq!(TodoState::parse("zz"), None);
}
