use to_tui::Action;
use to_tui::KeyBinding;
use to_tui::KeyCode;
use to_tui::KeyLookupResult;
use to_tui::KeySequence;
use to_tui::KeybindingCache;
use to_tui::MOD_ALT;
use to_tui::MOD_CONTROL;
use to_tui::MOD_SHIFT;

#[test]
fn test_parse_simple_key() {
    let binding = KeyBinding::parse_text("j").unwrap();
    assert_eq!(binding.code, KeyCode::Char('j'));
    assert_eq!(binding.modifiers, 0);
}

#[test]
fn test_parse_special_key() {
    let binding = KeyBinding::parse_text("<Space>").unwrap();
    assert_eq!(binding.code, KeyCode::Char(' '));
    assert_eq!(binding.modifiers, 0);
}

#[test]
fn test_parse_modifier_key() {
    let binding = KeyBinding::parse_text("<C-d>").unwrap();
    assert_eq!(binding.code, KeyCode::Char('d'));
    assert!(binding.modifiers & MOD_CONTROL != 0);
}

#[test]
fn test_parse_multi_modifier() {
    let binding = KeyBinding::parse_text("<S-A-Up>").unwrap();
    assert_eq!(binding.code, KeyCode::Up);
    assert!(binding.modifiers & MOD_SHIFT != 0);
    assert!(binding.modifiers & MOD_ALT != 0);
}

#[test]
fn test_parse_sequence_single() {
    let seq = KeySequence::parse_text("j").unwrap();
    assert!(seq.is_single());
    assert_eq!(seq.0[0].code, KeyCode::Char('j'));
}

#[test]
fn test_parse_sequence_double() {
    let seq = KeySequence::parse_text("dd").unwrap();
    assert!(!seq.is_single());
    assert_eq!(seq.0.len(), 2);
    assert_eq!(seq.0[0].code, KeyCode::Char('d'));
    assert_eq!(seq.0[1].code, KeyCode::Char('d'));
}

#[test]
fn test_parse_sequence_with_space() {
    let seq = KeySequence::parse_text("g g").unwrap();
    assert!(!seq.is_single());
    assert_eq!(seq.0[0].code, KeyCode::Char('g'));
    assert_eq!(seq.0[1].code, KeyCode::Char('g'));
}

#[test]
fn test_parse_sequence_brackets() {
    let seq = KeySequence::parse_text("<C-d><C-d>").unwrap();
    assert!(!seq.is_single());
    assert_eq!(seq.0[0].code, KeyCode::Char('d'));
    assert!(seq.0[0].modifiers & MOD_CONTROL != 0);
    assert_eq!(seq.0[1].code, KeyCode::Char('d'));
    assert!(seq.0[1].modifiers & MOD_CONTROL != 0);
}

#[test]
fn test_cache_single_lookup() {
    let cache = KeybindingCache::default();

    let binding = KeyBinding::new(KeyCode::Char('j'), 0);
    let result = cache.lookup_navigate(binding, None);
    assert_eq!(result, KeyLookupResult::Action(Action::MoveDown));
}

#[test]
fn test_cache_sequence_lookup() {
    let cache = KeybindingCache::default();

    let d_binding = KeyBinding::new(KeyCode::Char('d'), 0);

    let result1 = cache.lookup_navigate(d_binding, None);
    assert_eq!(result1, KeyLookupResult::Pending);

    let result2 = cache.lookup_navigate(d_binding, Some(d_binding));
    assert_eq!(result2, KeyLookupResult::Action(Action::Delete));
}

#[test]
fn test_parse_key_rejects_garbage() {
    assert!(KeyBinding::parse_text("").is_none());
    assert!(KeyBinding::parse_text("<Q-x>").is_none());
    assert!(KeyBinding::parse_text("abc").is_none());
    assert!(KeySequence::parse_text("").is_none());
    assert!(KeySequence::parse_text("abc").is_none());
}

#[test]
fn test_parse_function_key() {
    let binding = KeyBinding::parse_text("<F5>").unwrap();
    assert_eq!(binding.code, KeyCode::F(5));
    let esc = KeyBinding::parse_text("<Esc>").unwrap();
    assert_eq!(esc.code, KeyCode::Esc);
}

#[test]
fn test_cache_edit_and_visual_lookup() {
    let cache = KeybindingCache::default();
    let tab = KeyBinding::new(KeyCode::Tab, 0);
    assert_eq!(cache.get_edit_action(tab), Some(Action::EditIndent));
    assert_eq!(cache.get_visual_action(tab), Some(Action::Indent));
    let zz = KeyBinding::new(KeyCode::Char('z'), 0);
    assert_eq!(cache.get_edit_action(zz), None);
}
