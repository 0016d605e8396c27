//! Bindable actions, key chords and their lookup tables.

use vstd::prelude::*;

use vstd::string::StringExecFns;

use crate::textscan::eq_ignore_ascii;
use crate::textscan::str_eq_ignore_ascii;

verus! {

/// Every action a key can be bound to.
#[derive(Debug, Clone, Copy, PartialEq, Eq, Structural)]
pub enum Action {
    MoveUp,
    MoveDown,
    ToggleVisual,
    ExitVisual,
    ToggleState,
    CycleState,
    Delete,
    NewItem,
    NewItemSameLevel,
    EnterEditMode,
    Indent,
    Outdent,
    IndentWithChildren,
    OutdentWithChildren,
    MoveItemUp,
    MoveItemDown,
    ToggleCollapse,
    Expand,
    CollapseOrParent,
    Undo,
    ToggleHelp,
    CloseHelp,
    Quit,
    EditCancel,
    EditConfirm,
    EditBackspace,
    EditLeft,
    EditRight,
    EditHome,
    EditEnd,
    EditIndent,
    EditOutdent,
}

/// A key, modelled with plain values: a character or one of the named
/// keys the editor distinguishes.
#[derive(Debug, Clone, Copy, PartialEq, Eq, Structural)]
pub enum KeyCode {
    Char(char),
    Up,
    Down,
    Left,
    Right,
    Tab,
    BackTab,
    Enter,
    Esc,
    Backspace,
    Home,
    End,
    Delete,
    PageUp,
    PageDown,
    F(u8),
}

/// The control modifier bit.
pub const MOD_CONTROL: u8 = 1;

/// The alt modifier bit.
pub const MOD_ALT: u8 = 2;

/// The shift modifier bit.
pub const MOD_SHIFT: u8 = 4;

/// One key press: a key plus a set of modifier bits.
#[derive(Debug, Clone, Copy, PartialEq, Eq, Structural)]
pub struct KeyBinding {
    pub code: KeyCode,
    pub modifiers: u8,
}

impl KeyBinding {
    /// A binding from its parts.
    pub fn new(code: KeyCode, modifiers: u8) -> (r: KeyBinding)
        ensures
            r == (KeyBinding { code, modifiers }),
    {
        KeyBinding { code, modifiers }
    }
}

/// What a key press resolves to in navigate mode: an action, the start of
/// a two-key chord, or nothing.
#[derive(Debug, Clone, Copy, PartialEq, Eq, Structural)]
pub enum KeyLookupResult {
    Action(Action),
    Pending,
    Unbound,
}

/// The configuration name of each action.
pub open spec fn action_name(a: Action) -> Seq<char> {
    match a {
        Action::MoveUp => "move_up"@,
        Action::MoveDown => "move_down"@,
        Action::ToggleVisual => "toggle_visual"@,
        Action::ExitVisual => "exit_visual"@,
        Action::ToggleState => "toggle_state"@,
        Action::CycleState => "cycle_state"@,
        Action::Delete => "delete"@,
        Action::NewItem => "new_item"@,
        Action::NewItemSameLevel => "new_item_same_level"@,
        Action::EnterEditMode => "enter_edit_mode"@,
        Action::Indent => "indent"@,
        Action::Outdent => "outdent"@,
        Action::IndentWithChildren => "indent_with_children"@,
        Action::OutdentWithChildren => "outdent_with_children"@,
        Action::MoveItemUp => "move_item_up"@,
        Action::MoveItemDown => "move_item_down"@,
        Action::ToggleCollapse => "toggle_collapse"@,
        Action::Expand => "expand"@,
        Action::CollapseOrParent => "collapse_or_parent"@,
        Action::Undo => "undo"@,
        Action::ToggleHelp => "toggle_help"@,
        Action::CloseHelp => "close_help"@,
        Action::Quit => "quit"@,
        Action::EditCancel => "edit_cancel"@,
        Action::EditConfirm => "edit_confirm"@,
        Action::EditBackspace => "edit_backspace"@,
        Action::EditLeft => "edit_left"@,
        Action::EditRight => "edit_right"@,
        Action::EditHome => "edit_home"@,
        Action::EditEnd => "edit_end"@,
        Action::EditIndent => "edit_indent"@,
        Action::EditOutdent => "edit_outdent"@,
    }
}

impl Action {
    /// The action's configuration name.
    pub fn as_str(self) -> (r: &'static str)
        ensures
            r@ == action_name(self),
    {
        match self {
            Action::MoveUp => "move_up",
            Action::MoveDown => "move_down",
            Action::ToggleVisual => "toggle_visual",
            Action::ExitVisual => "exit_visual",
            Action::ToggleState => "toggle_state",
            Action::CycleState => "cycle_state",
            Action::Delete => "delete",
            Action::NewItem => "new_item",
            Action::NewItemSameLevel => "new_item_same_level",
            Action::EnterEditMode => "enter_edit_mode",
            Action::Indent => "indent",
            Action::Outdent => "outdent",
            Action::IndentWithChildren => "indent_with_children",
            Action::OutdentWithChildren => "outdent_with_children",
            Action::MoveItemUp => "move_item_up",
            Action::MoveItemDown => "move_item_down",
            Action::ToggleCollapse => "toggle_collapse",
            Action::Expand => "expand",
            Action::CollapseOrParent => "collapse_or_parent",
            Action::Undo => "undo",
            Action::ToggleHelp => "toggle_help",
            Action::CloseHelp => "close_help",
            Action::Quit => "quit",
            Action::EditCancel => "edit_cancel",
            Action::EditConfirm => "edit_confirm",
            Action::EditBackspace => "edit_backspace",
            Action::EditLeft => "edit_left",
            Action::EditRight => "edit_right",
            Action::EditHome => "edit_home",
            Action::EditEnd => "edit_end",
            Action::EditIndent => "edit_indent",
            Action::EditOutdent => "edit_outdent",
        }
    }

    /// The action a configuration name denotes, compared without regard to
    /// ASCII case; `None` for an unknown name.
    pub fn parse_name(s: &str) -> (r: Option<Action>)
        ensures
            r == action_of_name(s@),
    {
        if str_eq_ignore_ascii(s, "move_up") {
            Some(Action::MoveUp)
        } else if str_eq_ignore_ascii(s, "move_down") {
            Some(Action::MoveDown)
        } else if str_eq_ignore_ascii(s, "toggle_visual") {
            Some(Action::ToggleVisual)
        } else if str_eq_ignore_ascii(s, "exit_visual") {
            Some(Action::ExitVisual)
        } else if str_eq_ignore_ascii(s, "toggle_state") {
            Some(Action::ToggleState)
        } else if str_eq_ignore_ascii(s, "cycle_state") {
            Some(Action::CycleState)
        } else if str_eq_ignore_ascii(s, "delete") {
            Some(Action::Delete)
        } else if str_eq_ignore_ascii(s, "new_item") {
            Some(Action::NewItem)
        } else if str_eq_ignore_ascii(s, "new_item_same_level") {
            Some(Action::NewItemSameLevel)
        } else if str_eq_ignore_ascii(s, "enter_edit_mode") {
            Some(Action::EnterEditMode)
        } else if str_eq_ignore_ascii(s, "indent") {
            Some(Action::Indent)
        } else if str_eq_ignore_ascii(s, "outdent") {
            Some(Action::Outdent)
        } else if str_eq_ignore_ascii(s, "indent_with_children") {
            Some(Action::IndentWithChildren)
        } else if str_eq_ignore_ascii(s, "outdent_with_children") {
            Some(Action::OutdentWithChildren)
        } else if str_eq_ignore_ascii(s, "move_item_up") {
            Some(Action::MoveItemUp)
        } else if str_eq_ignore_ascii(s, "move_item_down") {
            Some(Action::MoveItemDown)
        } else if str_eq_ignore_ascii(s, "toggle_collapse") {
            Some(Action::ToggleCollapse)
        } else if str_eq_ignore_ascii(s, "expand") {
            Some(Action::Expand)
        } else if str_eq_ignore_ascii(s, "collapse_or_parent") {
            Some(Action::CollapseOrParent)
        } else if str_eq_ignore_ascii(s, "undo") {
            Some(Action::Undo)
        } else if str_eq_ignore_ascii(s, "toggle_help") {
            Some(Action::ToggleHelp)
        } else if str_eq_ignore_ascii(s, "close_help") {
            Some(Action::CloseHelp)
        } else if str_eq_ignore_ascii(s, "quit") {
            Some(Action::Quit)
        } else if str_eq_ignore_ascii(s, "edit_cancel") {
            Some(Action::EditCancel)
        } else if str_eq_ignore_ascii(s, "edit_confirm") {
            Some(Action::EditConfirm)
        } else if str_eq_ignore_ascii(s, "edit_backspace") {
            Some(Action::EditBackspace)
        } else if str_eq_ignore_ascii(s, "edit_left") {
            Some(Action::EditLeft)
        } else if str_eq_ignore_ascii(s, "edit_right") {
            Some(Action::EditRight)
        } else if str_eq_ignore_ascii(s, "edit_home") {
            Some(Action::EditHome)
        } else if str_eq_ignore_ascii(s, "edit_end") {
            Some(Action::EditEnd)
        } else if str_eq_ignore_ascii(s, "edit_indent") {
            Some(Action::EditIndent)
        } else if str_eq_ignore_ascii(s, "edit_outdent") {
            Some(Action::EditOutdent)
        } else {
            None
        }
    }
}

impl core::str::FromStr for Action {
    type Err = String;

    fn from_str(s: &str) -> Result<Action, String> {
        match Action::parse_name(s) {
            Some(a) => Ok(a),
            None => Err(<String as StringExecFns>::from_str("Unknown action: ").concat(s)),
        }
    }
}

/// The action denoted by a configuration name, compared without regard to
/// ASCII case.
pub open spec fn action_of_name(s: Seq<char>) -> Option<Action> {
    if eq_ignore_ascii(s, "move_up"@) {
        Some(Action::MoveUp)
    } else if eq_ignore_ascii(s, "move_down"@) {
        Some(Action::MoveDown)
    } else if eq_ignore_ascii(s, "toggle_visual"@) {
        Some(Action::ToggleVisual)
    } else if eq_ignore_ascii(s, "exit_visual"@) {
        Some(Action::ExitVisual)
    } else if eq_ignore_ascii(s, "toggle_state"@) {
        Some(Action::ToggleState)
    } else if eq_ignore_ascii(s, "cycle_state"@) {
        Some(Action::CycleState)
    } else if eq_ignore_ascii(s, "delete"@) {
        Some(Action::Delete)
    } else if eq_ignore_ascii(s, "new_item"@) {
        Some(Action::NewItem)
    } else if eq_ignore_ascii(s, "new_item_same_level"@) {
        Some(Action::NewItemSameLevel)
    } else if eq_ignore_ascii(s, "enter_edit_mode"@) {
        Some(Action::EnterEditMode)
    } else if eq_ignore_ascii(s, "indent"@) {
        Some(Action::Indent)
    } else if eq_ignore_ascii(s, "outdent"@) {
        Some(Action::Outdent)
    } else if eq_ignore_ascii(s, "indent_with_children"@) {
        Some(Action::IndentWithChildren)
    } else if eq_ignore_ascii(s, "outdent_with_children"@) {
        Some(Action::OutdentWithChildren)
    } else if eq_ignore_ascii(s, "move_item_up"@) {
        Some(Action::MoveItemUp)
    } else if eq_ignore_ascii(s, "move_item_down"@) {
        Some(Action::MoveItemDown)
    } else if eq_ignore_ascii(s, "toggle_collapse"@) {
        Some(Action::ToggleCollapse)
    } else if eq_ignore_ascii(s, "expand"@) {
        Some(Action::Expand)
    } else if eq_ignore_ascii(s, "collapse_or_parent"@) {
        Some(Action::CollapseOrParent)
    } else if eq_ignore_ascii(s, "undo"@) {
        Some(Action::Undo)
    } else if eq_ignore_ascii(s, "toggle_help"@) {
        Some(Action::ToggleHelp)
    } else if eq_ignore_ascii(s, "close_help"@) {
        Some(Action::CloseHelp)
    } else if eq_ignore_ascii(s, "quit"@) {
        Some(Action::Quit)
    } else if eq_ignore_ascii(s, "edit_cancel"@) {
        Some(Action::EditCancel)
    } else if eq_ignore_ascii(s, "edit_confirm"@) {
        Some(Action::EditConfirm)
    } else if eq_ignore_ascii(s, "edit_backspace"@) {
        Some(Action::EditBackspace)
    } else if eq_ignore_ascii(s, "edit_left"@) {
        Some(Action::EditLeft)
    } else if eq_ignore_ascii(s, "edit_right"@) {
        Some(Action::EditRight)
    } else if eq_ignore_ascii(s, "edit_home"@) {
        Some(Action::EditHome)
    } else if eq_ignore_ascii(s, "edit_end"@) {
        Some(Action::EditEnd)
    } else if eq_ignore_ascii(s, "edit_indent"@) {
        Some(Action::EditIndent)
    } else if eq_ignore_ascii(s, "edit_outdent"@) {
        Some(Action::EditOutdent)
    } else {
        None
    }
}

/// A character folded to lower case within ASCII.
pub open spec fn lower_char(c: char) -> char {
    if 'A' <= c && c <= 'Z' {
        ((c as u8) + 32) as char
    } else {
        c
    }
}

fn to_lower_char(c: char) -> (r: char)
    ensures
        r == lower_char(c),
{
    if 'A' <= c && c <= 'Z' {
        ((c as u8) + 32) as char
    } else {
        c
    }
}

/// The key a configuration name denotes, compared without regard to ASCII
/// case: a named key, an `F` key, or a single character folded to lower
/// case.
pub open spec fn key_code_of(s: Seq<char>) -> Option<KeyCode> {
    if eq_ignore_ascii(s, "space"@) {
        Some(KeyCode::Char(' '))
    } else if eq_ignore_ascii(s, "tab"@) {
        Some(KeyCode::Tab)
    } else if eq_ignore_ascii(s, "backtab"@) {
        Some(KeyCode::BackTab)
    } else if eq_ignore_ascii(s, "enter"@) || eq_ignore_ascii(s, "return"@) || eq_ignore_ascii(
        s,
        "cr"@,
    ) {
        Some(KeyCode::Enter)
    } else if eq_ignore_ascii(s, "esc"@) || eq_ignore_ascii(s, "escape"@) {
        Some(KeyCode::Esc)
    } else if eq_ignore_ascii(s, "bs"@) || eq_ignore_ascii(s, "backspace"@) {
        Some(KeyCode::Backspace)
    } else if eq_ignore_ascii(s, "up"@) {
        Some(KeyCode::Up)
    } else if eq_ignore_ascii(s, "down"@) {
        Some(KeyCode::Down)
    } else if eq_ignore_ascii(s, "left"@) {
        Some(KeyCode::Left)
    } else if eq_ignore_ascii(s, "right"@) {
        Some(KeyCode::Right)
    } else if eq_ignore_ascii(s, "home"@) {
        Some(KeyCode::Home)
    } else if eq_ignore_ascii(s, "end"@) {
        Some(KeyCode::End)
    } else if eq_ignore_ascii(s, "del"@) || eq_ignore_ascii(s, "delete"@) {
        Some(KeyCode::Delete)
    } else if eq_ignore_ascii(s, "pageup"@) || eq_ignore_ascii(s, "pgup"@) {
        Some(KeyCode::PageUp)
    } else if eq_ignore_ascii(s, "pagedown"@) || eq_ignore_ascii(s, "pgdn"@) {
        Some(KeyCode::PageDown)
    } else if s.len() > 1 && lower_char(s[0]) == 'f' {
        match crate::textscan::parse_u8_spec(s.subrange(1, s.len() as int)) {
            Some(n) => Some(KeyCode::F(n)),
            None => None,
        }
    } else if s.len() == 1 {
        Some(KeyCode::Char(lower_char(s[0])))
    } else {
        None
    }
}

fn parse_key_code(s: &str) -> (r: Option<KeyCode>)
    ensures
        r == key_code_of(s@),
{
    if str_eq_ignore_ascii(s, "space") {
        Some(KeyCode::Char(' '))
    } else if str_eq_ignore_ascii(s, "tab") {
        Some(KeyCode::Tab)
    } else if str_eq_ignore_ascii(s, "backtab") {
        Some(KeyCode::BackTab)
    } else if str_eq_ignore_ascii(s, "enter") || str_eq_ignore_ascii(s, "return")
        || str_eq_ignore_ascii(s, "cr") {
        Some(KeyCode::Enter)
    } else if str_eq_ignore_ascii(s, "esc") || str_eq_ignore_ascii(s, "escape") {
        Some(KeyCode::Esc)
    } else if str_eq_ignore_ascii(s, "bs") || str_eq_ignore_ascii(s, "backspace") {
        Some(KeyCode::Backspace)
    } else if str_eq_ignore_ascii(s, "up") {
        Some(KeyCode::Up)
    } else if str_eq_ignore_ascii(s, "down") {
        Some(KeyCode::Down)
    } else if str_eq_ignore_ascii(s, "left") {
        Some(KeyCode::Left)
    } else if str_eq_ignore_ascii(s, "right") {
        Some(KeyCode::Right)
    } else if str_eq_ignore_ascii(s, "home") {
        Some(KeyCode::Home)
    } else if str_eq_ignore_ascii(s, "end") {
        Some(KeyCode::End)
    } else if str_eq_ignore_ascii(s, "del") || str_eq_ignore_ascii(s, "delete") {
        Some(KeyCode::Delete)
    } else if str_eq_ignore_ascii(s, "pageup") || str_eq_ignore_ascii(s, "pgup") {
        Some(KeyCode::PageUp)
    } else if str_eq_ignore_ascii(s, "pagedown") || str_eq_ignore_ascii(s, "pgdn") {
        Some(KeyCode::PageDown)
    } else {
        let n = s.unicode_len();
        if n > 1 && to_lower_char(s.get_char(0)) == 'f' {
            let rest = s.substring_char(1, n);
            match crate::textscan::parse_u8(rest) {
                Some(v) => Some(KeyCode::F(v)),
                None => None,
            }
        } else if n == 1 {
            Some(KeyCode::Char(to_lower_char(s.get_char(0))))
        } else {
            None
        }
    }
}

/// The modifier bit a chord part denotes, compared without regard to
/// ASCII case.
pub open spec fn modifier_of(s: Seq<char>) -> Option<u8> {
    if eq_ignore_ascii(s, "c"@) || eq_ignore_ascii(s, "ctrl"@) || eq_ignore_ascii(s, "control"@) {
        Some(MOD_CONTROL)
    } else if eq_ignore_ascii(s, "a"@) || eq_ignore_ascii(s, "alt"@) || eq_ignore_ascii(s, "m"@)
        || eq_ignore_ascii(s, "meta"@) {
        Some(MOD_ALT)
    } else if eq_ignore_ascii(s, "s"@) || eq_ignore_ascii(s, "shift"@) {
        Some(MOD_SHIFT)
    } else {
        None
    }
}

fn parse_modifier(s: &str) -> (r: Option<u8>)
    ensures
        r == modifier_of(s@),
{
    if str_eq_ignore_ascii(s, "c") || str_eq_ignore_ascii(s, "ctrl") || str_eq_ignore_ascii(
        s,
        "control",
    ) {
        Some(MOD_CONTROL)
    } else if str_eq_ignore_ascii(s, "a") || str_eq_ignore_ascii(s, "alt") || str_eq_ignore_ascii(
        s,
        "m",
    ) || str_eq_ignore_ascii(s, "meta") {
        Some(MOD_ALT)
    } else if str_eq_ignore_ascii(s, "s") || str_eq_ignore_ascii(s, "shift") {
        Some(MOD_SHIFT)
    } else {
        None
    }
}

/// What the inside of a `<...>` chord denotes: dash-separated modifiers
/// followed by one key.
pub open spec fn bracket_spec(s: Seq<char>) -> Option<KeyBinding>
    decreases s.len(),
{
    let p = crate::markdown::find_char(s, '-', 0);
    if p < 0 || p >= s.len() {
        match key_code_of(s) {
            Some(k) => Some(KeyBinding { code: k, modifiers: 0 }),
            None => None,
        }
    } else {
        match modifier_of(s.subrange(0, p)) {
            Some(m) => match bracket_spec(s.subrange(p + 1, s.len() as int)) {
                Some(kb) => Some(KeyBinding { code: kb.code, modifiers: m | kb.modifiers }),
                None => None,
            },
            None => None,
        }
    }
}

fn parse_bracket_notation(s: &str) -> (r: Option<KeyBinding>)
    ensures
        r == bracket_spec(s@),
    decreases s@.len(),
{
    let n = s.unicode_len();
    let mut p: usize = 0;
    while p < n && s.get_char(p) != '-'
        invariant
            0 <= p <= n,
            n == s@.len(),
            crate::markdown::find_char(s@, '-', 0) == crate::markdown::find_char(s@, '-', p as int),
        decreases n - p,
    {
        p += 1;
    }
    if p >= n {
        match parse_key_code(s) {
            Some(k) => Some(KeyBinding { code: k, modifiers: 0 }),
            None => None,
        }
    } else {
        match parse_modifier(s.substring_char(0, p)) {
            Some(m) => {
                match parse_bracket_notation(s.substring_char(p + 1, n)) {
                    Some(kb) => Some(KeyBinding { code: kb.code, modifiers: m | kb.modifiers }),
                    None => None,
                }
            },
            None => None,
        }
    }
}

/// What a key-binding text denotes: a bracketed chord, or one bare
/// character (taken as it is, without case folding).
pub open spec fn key_binding_of(s: Seq<char>) -> Option<KeyBinding> {
    let t = crate::textscan::trim_spec(s);
    if t.len() >= 2 && t[0] == '<' && t.last() == '>' {
        bracket_spec(t.subrange(1, t.len() - 1))
    } else if t.len() == 1 {
        Some(KeyBinding { code: KeyCode::Char(t[0]), modifiers: 0 })
    } else {
        None
    }
}

impl KeyBinding {
    /// Parses a key-binding text such as `d`, `<Space>` or `<C-d>`.
    pub fn parse_text(s: &str) -> (r: Option<KeyBinding>)
        ensures
            r == key_binding_of(s@),
    {
        let t = crate::textscan::str_trim(s);
        let n = t.unicode_len();
        if n >= 2 && t.get_char(0) == '<' && t.get_char(n - 1) == '>' {
            parse_bracket_notation(t.substring_char(1, n - 1))
        } else if n == 1 {
            Some(KeyBinding { code: KeyCode::Char(t.get_char(0)), modifiers: 0 })
        } else {
            None
        }
    }
}

/// An ordered chord of one or two key presses.
#[derive(Debug, Clone, PartialEq, Eq)]
pub struct KeySequence(pub Vec<KeyBinding>);

/// The keys read from a sequence text from position `i` on: bare spaces
/// separate tokens, `<...>` runs to the closing angle bracket (or the
/// end), and any other character stands for itself.
pub open spec fn seq_tokens(s: Seq<char>, i: int) -> Option<Seq<KeyBinding>>
    decreases s.len() - i,
{
    if i < 0 || i >= s.len() {
        Some(Seq::empty())
    } else if s[i] == ' ' {
        seq_tokens(s, i + 1)
    } else if s[i] == '<' {
        let g = crate::markdown::find_char(s, '>', i);
        let e = if g < i {
            i + 1
        } else if g >= s.len() {
            s.len() as int
        } else {
            g + 1
        };
        match key_binding_of(s.subrange(i, e)) {
            Some(kb) => match seq_tokens(s, e) {
                Some(rest) => Some(seq![kb] + rest),
                None => None,
            },
            None => None,
        }
    } else {
        match seq_tokens(s, i + 1) {
            Some(rest) => Some(
                seq![KeyBinding { code: KeyCode::Char(s[i]), modifiers: 0 }] + rest,
            ),
            None => None,
        }
    }
}

/// What a whole sequence text denotes: the chord's keys, when every token
/// parses and there are one or two of them.
pub open spec fn key_sequence_of(s: Seq<char>) -> Option<Seq<KeyBinding>> {
    match seq_tokens(crate::textscan::trim_spec(s), 0) {
        Some(keys) => if 1 <= keys.len() <= 2 {
            Some(keys)
        } else {
            None
        },
        None => None,
    }
}

impl KeySequence {
    /// Whether the chord is a single key press.
    pub fn is_single(&self) -> (b: bool)
        ensures
            b == (self.0@.len() == 1),
    {
        self.0.len() == 1
    }

    /// Parses a sequence text such as `d`, `dd`, `g g` or `<C-d><C-d>`.
    pub fn parse_text(s: &str) -> (r: Option<KeySequence>)
        ensures
            match r {
                Some(ks) => key_sequence_of(s@) == Some(ks.0@),
                None => key_sequence_of(s@) is None,
            },
    {
        let t = crate::textscan::str_trim(s);
        let n = t.unicode_len();
        let mut keys: Vec<KeyBinding> = Vec::new();
        let mut i: usize = 0;
        while i < n
            invariant
                0 <= i <= n,
                n == t@.len(),
                t@ == crate::textscan::trim_spec(s@),
                (match seq_tokens(t@, 0) {
                    Some(all) => seq_tokens(t@, i as int) matches Some(rest) && all == keys@ + rest,
                    None => seq_tokens(t@, i as int) is None,
                }),
            decreases n - i,
        {
            let c = t.get_char(i);
            if c == ' ' {
                i += 1;
            } else if c == '<' {
                let mut g: usize = i;
                while g < n && t.get_char(g) != '>'
                    invariant
                        i <= g <= n,
                        n == t@.len(),
                        crate::markdown::find_char(t@, '>', i as int) == crate::markdown::find_char(
                            t@,
                            '>',
                            g as int,
                        ),
                    decreases n - g,
                {
                    g += 1;
                }
                let e = if g >= n {
                    n
                } else {
                    g + 1
                };
                proof {
                    assert(crate::markdown::find_char(t@, '>', i as int) == if g < n {
                        g as int
                    } else {
                        n as int
                    });
                }
                match KeyBinding::parse_text(t.substring_char(i, e)) {
                    Some(kb) => {
                        keys.push(kb);
                        proof {
                            assert(keys@ =~= keys@.drop_last() + seq![kb]);
                            if seq_tokens(t@, 0) matches Some(all) {
                                assert(keys@.drop_last() + seq![kb] + seq_tokens(
                                    t@,
                                    e as int,
                                ).unwrap() =~= keys@.drop_last() + (seq![kb] + seq_tokens(
                                    t@,
                                    e as int,
                                ).unwrap()));
                            }
                        }
                        i = e;
                    },
                    None => {
                        proof {
                            assert(seq_tokens(t@, i as int) is None);
                            assert(key_sequence_of(s@) is None);
                        }
                        return None;
                    },
                }
            } else {
                let kb = KeyBinding { code: KeyCode::Char(c), modifiers: 0 };
                keys.push(kb);
                proof {
                    assert(keys@ =~= keys@.drop_last() + seq![kb]);
                    if seq_tokens(t@, 0) matches Some(all) {
                        assert(keys@.drop_last() + seq![kb] + seq_tokens(
                            t@,
                            i as int + 1,
                        ).unwrap() =~= keys@.drop_last() + (seq![kb] + seq_tokens(
                            t@,
                            i as int + 1,
                        ).unwrap()));
                    }
                }
                i += 1;
            }
        }
        proof {
            assert(seq_tokens(t@, n as int) == Some(Seq::<KeyBinding>::empty()));
            if seq_tokens(t@, 0) is Some {
                assert(seq_tokens(t@, 0).unwrap() =~= keys@ + Seq::<KeyBinding>::empty());
                assert(seq_tokens(t@, 0).unwrap() =~= keys@);
            }
        }
        if keys.len() == 0 || keys.len() > 2 {
            return None;
        }
        Some(KeySequence(keys))
    }
}

/// The pairs of a name map, as plain text: binding text and action name.
pub open spec fn pairs_view(v: Seq<(String, String)>) -> Seq<(Seq<char>, Seq<char>)> {
    v.map_values(|p: (String, String)| (p.0@, p.1@))
}

/// The user's key maps: binding text paired with action name, one list
/// per mode, later entries overriding earlier ones.
#[derive(Debug)]
pub struct KeybindingsConfig {
    pub navigate: Vec<(String, String)>,
    pub edit: Vec<(String, String)>,
    pub visual: Vec<(String, String)>,
}

/// The stock navigate-mode bindings.
pub open spec fn default_navigate_table() -> Seq<(Seq<char>, Seq<char>)> {
    seq![
        ("k"@, "move_up"@),
        ("j"@, "move_down"@),
        ("<Up>"@, "move_up"@),
        ("<Down>"@, "move_down"@),
        ("v"@, "toggle_visual"@),
        ("x"@, "toggle_state"@),
        ("<Space>"@, "cycle_state"@),
        ("dd"@, "delete"@),
        ("n"@, "new_item"@),
        ("<Enter>"@, "new_item_same_level"@),
        ("i"@, "enter_edit_mode"@),
        ("<Tab>"@, "indent"@),
        ("<BackTab>"@, "outdent"@),
        ("<S-A-Right>"@, "indent_with_children"@),
        ("<S-A-Left>"@, "outdent_with_children"@),
        ("<S-A-Up>"@, "move_item_up"@),
        ("<S-A-Down>"@, "move_item_down"@),
        ("c"@, "toggle_collapse"@),
        ("<Right>"@, "expand"@),
        ("l"@, "expand"@),
        ("<Left>"@, "collapse_or_parent"@),
        ("h"@, "collapse_or_parent"@),
        ("u"@, "undo"@),
        ("?"@, "toggle_help"@),
        ("<Esc>"@, "close_help"@),
        ("q"@, "quit"@),
    ]
}

/// The stock edit-mode bindings.
pub open spec fn default_edit_table() -> Seq<(Seq<char>, Seq<char>)> {
    seq![
        ("<Esc>"@, "edit_cancel"@),
        ("<Enter>"@, "edit_confirm"@),
        ("<BS>"@, "edit_backspace"@),
        ("<Left>"@, "edit_left"@),
        ("<Right>"@, "edit_right"@),
        ("<Home>"@, "edit_home"@),
        ("<End>"@, "edit_end"@),
        ("<Tab>"@, "edit_indent"@),
        ("<BackTab>"@, "edit_outdent"@),
    ]
}

/// The stock visual-mode bindings.
pub open spec fn default_visual_table() -> Seq<(Seq<char>, Seq<char>)> {
    seq![
        ("k"@, "move_up"@),
        ("j"@, "move_down"@),
        ("<Up>"@, "move_up"@),
        ("<Down>"@, "move_down"@),
        ("<Tab>"@, "indent"@),
        ("<BackTab>"@, "outdent"@),
        ("u"@, "undo"@),
        ("v"@, "exit_visual"@),
        ("<Esc>"@, "exit_visual"@),
        ("q"@, "exit_visual"@),
    ]
}

fn push_pair(v: &mut Vec<(String, String)>, key: &str, action: &str)
    ensures
        final(v)@.len() == old(v)@.len() + 1,
        pairs_view(final(v)@) =~= pairs_view(old(v)@).push((key@, action@)),
{
    v.push(
        (<String as StringExecFns>::from_str(key), <String as StringExecFns>::from_str(action)),
    );
    proof {
        assert(pairs_view(v@) =~= pairs_view(old(v)@).push((key@, action@)));
    }
}

impl Default for KeybindingsConfig {
    /// The stock bindings of all three modes.
    fn default() -> (r: KeybindingsConfig)
        ensures
            pairs_view(r.navigate@) == default_navigate_table(),
            pairs_view(r.edit@) == default_edit_table(),
            pairs_view(r.visual@) == default_visual_table(),
    {
        let mut navigate: Vec<(String, String)> = Vec::new();
        push_pair(&mut navigate, "k", "move_up");
        push_pair(&mut navigate, "j", "move_down");
        push_pair(&mut navigate, "<Up>", "move_up");
        push_pair(&mut navigate, "<Down>", "move_down");
        push_pair(&mut navigate, "v", "toggle_visual");
        push_pair(&mut navigate, "x", "toggle_state");
        push_pair(&mut navigate, "<Space>", "cycle_state");
        push_pair(&mut navigate, "dd", "delete");
        push_pair(&mut navigate, "n", "new_item");
        push_pair(&mut navigate, "<Enter>", "new_item_same_level");
        push_pair(&mut navigate, "i", "enter_edit_mode");
        push_pair(&mut navigate, "<Tab>", "indent");
        push_pair(&mut navigate, "<BackTab>", "outdent");
        push_pair(&mut navigate, "<S-A-Right>", "indent_with_children");
        push_pair(&mut navigate, "<S-A-Left>", "outdent_with_children");
        push_pair(&mut navigate, "<S-A-Up>", "move_item_up");
        push_pair(&mut navigate, "<S-A-Down>", "move_item_down");
        push_pair(&mut navigate, "c", "toggle_collapse");
        push_pair(&mut navigate, "<Right>", "expand");
        push_pair(&mut navigate, "l", "expand");
        push_pair(&mut navigate, "<Left>", "collapse_or_parent");
        push_pair(&mut navigate, "h", "collapse_or_parent");
        push_pair(&mut navigate, "u", "undo");
        push_pair(&mut navigate, "?", "toggle_help");
        push_pair(&mut navigate, "<Esc>", "close_help");
        push_pair(&mut navigate, "q", "quit");
        let mut edit: Vec<(String, String)> = Vec::new();
        push_pair(&mut edit, "<Esc>", "edit_cancel");
        push_pair(&mut edit, "<Enter>", "edit_confirm");
        push_pair(&mut edit, "<BS>", "edit_backspace");
        push_pair(&mut edit, "<Left>", "edit_left");
        push_pair(&mut edit, "<Right>", "edit_right");
        push_pair(&mut edit, "<Home>", "edit_home");
        push_pair(&mut edit, "<End>", "edit_end");
        push_pair(&mut edit, "<Tab>", "edit_indent");
        push_pair(&mut edit, "<BackTab>", "edit_outdent");
        let mut visual: Vec<(String, String)> = Vec::new();
        push_pair(&mut visual, "k", "move_up");
        push_pair(&mut visual, "j", "move_down");
        push_pair(&mut visual, "<Up>", "move_up");
        push_pair(&mut visual, "<Down>", "move_down");
        push_pair(&mut visual, "<Tab>", "indent");
        push_pair(&mut visual, "<BackTab>", "outdent");
        push_pair(&mut visual, "u", "undo");
        push_pair(&mut visual, "v", "exit_visual");
        push_pair(&mut visual, "<Esc>", "exit_visual");
        push_pair(&mut visual, "q", "exit_visual");
        proof {
            assert(pairs_view(navigate@) =~= default_navigate_table());
            assert(pairs_view(edit@) =~= default_edit_table());
            assert(pairs_view(visual@) =~= default_visual_table());
        }
        KeybindingsConfig { navigate, edit, visual }
    }
}

/// The value of the last entry with the given key, if any: what a map
/// filled front to back would answer.
pub open spec fn assoc_last<V>(v: Seq<(KeyBinding, V)>, k: KeyBinding) -> Option<V>
    decreases v.len(),
{
    if v.len() == 0 {
        None
    } else if v.last().0 == k {
        Some(v.last().1)
    } else {
        assoc_last(v.drop_last(), k)
    }
}

/// The single-key bindings a mode's pairs produce, in order: entries
/// whose binding text parses to one key and whose action name is known.
pub open spec fn singles_of(pairs: Seq<(Seq<char>, Seq<char>)>, i: int) -> Seq<(KeyBinding, Action)>
    decreases i,
{
    if i <= 0 {
        Seq::empty()
    } else {
        let prev = singles_of(pairs, i - 1);
        match (key_sequence_of(pairs[i - 1].0), action_of_name(pairs[i - 1].1)) {
            (Some(keys), Some(act)) => if keys.len() == 1 {
                prev.push((keys[0], act))
            } else {
                prev
            },
            _ => prev,
        }
    }
}

/// The two-key chords a mode's pairs produce, in order.
pub open spec fn doubles_of(pairs: Seq<(Seq<char>, Seq<char>)>, i: int) -> Seq<
    ((KeyBinding, KeyBinding), Action),
>
    decreases i,
{
    if i <= 0 {
        Seq::empty()
    } else {
        let prev = doubles_of(pairs, i - 1);
        match (key_sequence_of(pairs[i - 1].0), action_of_name(pairs[i - 1].1)) {
            (Some(keys), Some(act)) => if keys.len() == 2 {
                prev.push(((keys[0], keys[1]), act))
            } else {
                prev
            },
            _ => prev,
        }
    }
}

/// Whether some chord starts with the given key.
pub open spec fn has_starter(v: Seq<((KeyBinding, KeyBinding), Action)>, k: KeyBinding) -> bool {
    exists|j: int| 0 <= j < v.len() && (#[trigger] v[j]).0.0 == k
}

/// The value of the last chord `(first, second)`, if any.
pub open spec fn assoc_last2(
    v: Seq<((KeyBinding, KeyBinding), Action)>,
    first: KeyBinding,
    second: KeyBinding,
) -> Option<Action>
    decreases v.len(),
{
    if v.len() == 0 {
        None
    } else if v.last().0 == (first, second) {
        Some(v.last().1)
    } else {
        assoc_last2(v.drop_last(), first, second)
    }
}

/// The parsed lookup tables of the three modes, built once from the
/// configuration.
#[derive(Debug)]
pub struct KeybindingCache {
    pub navigate_single: Vec<(KeyBinding, Action)>,
    pub navigate_double: Vec<((KeyBinding, KeyBinding), Action)>,
    pub edit_single: Vec<(KeyBinding, Action)>,
    pub visual_single: Vec<(KeyBinding, Action)>,
}

fn build_singles(pairs: &Vec<(String, String)>) -> (r: Vec<(KeyBinding, Action)>)
    ensures
        r@ == singles_of(pairs_view(pairs@), pairs@.len() as int),
{
    let mut r: Vec<(KeyBinding, Action)> = Vec::new();
    let mut i: usize = 0;
    while i < pairs.len()
        invariant
            0 <= i <= pairs@.len(),
            r@ == singles_of(pairs_view(pairs@), i as int),
        decreases pairs@.len() - i,
    {
        proof {
            assert(pairs_view(pairs@)[i as int] == (pairs@[i as int].0@, pairs@[i as int].1@));
        }
        let seq_parsed = KeySequence::parse_text(pairs[i].0.as_str());
        let act_parsed = Action::parse_name(pairs[i].1.as_str());
        match (seq_parsed, act_parsed) {
            (Some(ks), Some(act)) => {
                if ks.0.len() == 1 {
                    r.push((ks.0[0], act));
                }
            },
            _ => {},
        }
        i += 1;
    }
    r
}

fn build_doubles(pairs: &Vec<(String, String)>) -> (r: Vec<((KeyBinding, KeyBinding), Action)>)
    ensures
        r@ == doubles_of(pairs_view(pairs@), pairs@.len() as int),
{
    let mut r: Vec<((KeyBinding, KeyBinding), Action)> = Vec::new();
    let mut i: usize = 0;
    while i < pairs.len()
        invariant
            0 <= i <= pairs@.len(),
            r@ == doubles_of(pairs_view(pairs@), i as int),
        decreases pairs@.len() - i,
    {
        proof {
            assert(pairs_view(pairs@)[i as int] == (pairs@[i as int].0@, pairs@[i as int].1@));
        }
        let seq_parsed = KeySequence::parse_text(pairs[i].0.as_str());
        let act_parsed = Action::parse_name(pairs[i].1.as_str());
        match (seq_parsed, act_parsed) {
            (Some(ks), Some(act)) => {
                if ks.0.len() == 2 {
                    r.push(((ks.0[0], ks.0[1]), act));
                }
            },
            _ => {},
        }
        i += 1;
    }
    r
}

fn assoc_find(v: &Vec<(KeyBinding, Action)>, k: KeyBinding) -> (r: Option<Action>)
    ensures
        r == assoc_last(v@, k),
{
    let mut j: usize = v.len();
    proof {
        assert(v@.subrange(0, v@.len() as int) =~= v@);
    }
    while j > 0
        invariant
            0 <= j <= v@.len(),
            assoc_last(v@, k) == assoc_last(v@.subrange(0, j as int), k),
        decreases j,
    {
        proof {
            assert(v@.subrange(0, j as int).last() == v@[j as int - 1]);
            assert(v@.subrange(0, j as int).drop_last() =~= v@.subrange(0, j as int - 1));
        }
        if v[j - 1].0 == k {
            return Some(v[j - 1].1);
        }
        j -= 1;
    }
    proof {
        assert(v@.subrange(0, 0) =~= Seq::<(KeyBinding, Action)>::empty());
    }
    None
}

fn assoc_find2(
    v: &Vec<((KeyBinding, KeyBinding), Action)>,
    first: KeyBinding,
    second: KeyBinding,
) -> (r: Option<Action>)
    ensures
        r == assoc_last2(v@, first, second),
{
    let mut j: usize = v.len();
    proof {
        assert(v@.subrange(0, v@.len() as int) =~= v@);
    }
    while j > 0
        invariant
            0 <= j <= v@.len(),
            assoc_last2(v@, first, second) == assoc_last2(v@.subrange(0, j as int), first, second),
        decreases j,
    {
        proof {
            assert(v@.subrange(0, j as int).last() == v@[j as int - 1]);
            assert(v@.subrange(0, j as int).drop_last() =~= v@.subrange(0, j as int - 1));
        }
        if v[j - 1].0.0 == first && v[j - 1].0.1 == second {
            return Some(v[j - 1].1);
        }
        j -= 1;
    }
    proof {
        assert(v@.subrange(0, 0) =~= Seq::<((KeyBinding, KeyBinding), Action)>::empty());
    }
    None
}

fn any_starter(v: &Vec<((KeyBinding, KeyBinding), Action)>, k: KeyBinding) -> (r: bool)
    ensures
        r == has_starter(v@, k),
{
    let mut j: usize = 0;
    while j < v.len()
        invariant
            0 <= j <= v@.len(),
            forall|m: int| 0 <= m < j ==> (#[trigger] v@[m]).0.0 != k,
        decreases v@.len() - j,
    {
        if v[j].0.0 == k {
            return true;
        }
        j += 1;
    }
    false
}

impl KeybindingCache {
    /// Parses every configured binding once into the mode tables; pairs
    /// that fail to parse are passed over, and later pairs override
    /// earlier ones.
    pub fn from_config(config: &KeybindingsConfig) -> (r: KeybindingCache)
        ensures
            r.navigate_single@ == singles_of(
                pairs_view(config.navigate@),
                config.navigate@.len() as int,
            ),
            r.navigate_double@ == doubles_of(
                pairs_view(config.navigate@),
                config.navigate@.len() as int,
            ),
            r.edit_single@ == singles_of(pairs_view(config.edit@), config.edit@.len() as int),
            r.visual_single@ == singles_of(pairs_view(config.visual@), config.visual@.len() as int),
    {
        KeybindingCache {
            navigate_single: build_singles(&config.navigate),
            navigate_double: build_doubles(&config.navigate),
            edit_single: build_singles(&config.edit),
            visual_single: build_singles(&config.visual),
        }
    }

    /// Resolves a key press in navigate mode.  With a pending first key,
    /// only the configured chords starting with it answer.  Without one,
    /// a key that starts any chord is pending; otherwise its single-key
    /// binding answers.
    pub fn lookup_navigate(&self, binding: KeyBinding, pending: Option<KeyBinding>) -> (r:
        KeyLookupResult)
        ensures
            r == match pending {
                Some(first) => if has_starter(self.navigate_double@, first) {
                    match assoc_last2(self.navigate_double@, first, binding) {
                        Some(act) => KeyLookupResult::Action(act),
                        None => KeyLookupResult::Unbound,
                    }
                } else {
                    KeyLookupResult::Unbound
                },
                None => if has_starter(self.navigate_double@, binding) {
                    KeyLookupResult::Pending
                } else {
                    match assoc_last(self.navigate_single@, binding) {
                        Some(act) => KeyLookupResult::Action(act),
                        None => KeyLookupResult::Unbound,
                    }
                },
            },
    {
        match pending {
            Some(first) => {
                if any_starter(&self.navigate_double, first) {
                    match assoc_find2(&self.navigate_double, first, binding) {
                        Some(act) => KeyLookupResult::Action(act),
                        None => KeyLookupResult::Unbound,
                    }
                } else {
                    KeyLookupResult::Unbound
                }
            },
            None => {
                if any_starter(&self.navigate_double, binding) {
                    KeyLookupResult::Pending
                } else {
                    match assoc_find(&self.navigate_single, binding) {
                        Some(act) => KeyLookupResult::Action(act),
                        None => KeyLookupResult::Unbound,
                    }
                }
            },
        }
    }

    /// The single-key binding of a key press in edit mode, if any.
    pub fn get_edit_action(&self, binding: KeyBinding) -> (r: Option<Action>)
        ensures
            r == assoc_last(self.edit_single@, binding),
    {
        assoc_find(&self.edit_single, binding)
    }

    /// The single-key binding of a key press in visual mode, if any.
    pub fn get_visual_action(&self, binding: KeyBinding) -> (r: Option<Action>)
        ensures
            r == assoc_last(self.visual_single@, binding),
    {
        assoc_find(&self.visual_single, binding)
    }
}

impl Default for KeybindingCache {
    /// The lookup tables of the stock bindings.
    fn default() -> (r: KeybindingCache)
        ensures
            r.navigate_single@ == singles_of(
                default_navigate_table(),
                default_navigate_table().len() as int,
            ),
            r.navigate_double@ == doubles_of(
                default_navigate_table(),
                default_navigate_table().len() as int,
            ),
            r.edit_single@ == singles_of(default_edit_table(), default_edit_table().len() as int),
            r.visual_single@ == singles_of(
                default_visual_table(),
                default_visual_table().len() as int,
            ),
    {
        let config = KeybindingsConfig::default();
        KeybindingCache::from_config(&config)
    }
}

} // verus!
