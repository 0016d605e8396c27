//! Completion markers for checklist items.

use vstd::prelude::*;

use vstd::string::StrSliceExecFns;

use crate::textscan::str_trim;
use crate::textscan::trim_spec;

verus! {

/// The completion state of a single checklist item.
///
/// The canonical cycle order is
/// `Empty -> Checked -> InProgress -> Question -> Exclamation -> Empty`,
/// while `toggle` is a two-way flip between `Checked` and everything else.
#[derive(Debug, Clone, Copy, PartialEq, Eq, Structural)]
pub enum TodoState {
    Empty,
    Checked,
    Question,
    Exclamation,
    InProgress,
}

impl TodoState {
    /// The character used for this state inside a `[ ]` checkbox.
    pub open spec fn char_of(self) -> char {
        match self {
            TodoState::Empty => ' ',
            TodoState::Checked => 'x',
            TodoState::Question => '?',
            TodoState::Exclamation => '!',
            TodoState::InProgress => '*',
        }
    }

    #[verifier::when_used_as_spec(char_of)]
    pub fn to_char(self) -> (c: char)
        ensures
            c == self.char_of(),
    {
        match self {
            TodoState::Empty => ' ',
            TodoState::Checked => 'x',
            TodoState::Question => '?',
            TodoState::Exclamation => '!',
            TodoState::InProgress => '*',
        }
    }

    /// The state denoted by a checkbox character, if any.
    pub open spec fn spec_from_char(c: char) -> Option<TodoState> {
        match c {
            ' ' => Some(TodoState::Empty),
            'x' => Some(TodoState::Checked),
            'X' => Some(TodoState::Checked),
            '?' => Some(TodoState::Question),
            '!' => Some(TodoState::Exclamation),
            '*' => Some(TodoState::InProgress),
            _ => None,
        }
    }

    #[verifier::when_used_as_spec(spec_from_char)]
    pub fn from_char(c: char) -> (s: Option<TodoState>)
        ensures
            s == TodoState::spec_from_char(c),
    {
        match c {
            ' ' => Some(TodoState::Empty),
            'x' | 'X' => Some(TodoState::Checked),
            '?' => Some(TodoState::Question),
            '!' => Some(TodoState::Exclamation),
            '*' => Some(TodoState::InProgress),
            _ => None,
        }
    }

    /// The successor of a state in the five-way cycle.
    pub open spec fn cycle_of(self) -> TodoState {
        match self {
            TodoState::Empty => TodoState::Checked,
            TodoState::Checked => TodoState::InProgress,
            TodoState::InProgress => TodoState::Question,
            TodoState::Question => TodoState::Exclamation,
            TodoState::Exclamation => TodoState::Empty,
        }
    }

    #[verifier::when_used_as_spec(cycle_of)]
    pub fn cycle(self) -> (s: TodoState)
        ensures
            s == self.cycle_of(),
    {
        match self {
            TodoState::Empty => TodoState::Checked,
            TodoState::Checked => TodoState::InProgress,
            TodoState::InProgress => TodoState::Question,
            TodoState::Question => TodoState::Exclamation,
            TodoState::Exclamation => TodoState::Empty,
        }
    }

    /// The two-way flip: `Checked` clears, anything else checks.
    pub open spec fn toggle_of(self) -> TodoState {
        match self {
            TodoState::Checked => TodoState::Empty,
            _ => TodoState::Checked,
        }
    }

    #[verifier::when_used_as_spec(toggle_of)]
    pub fn toggle(self) -> (s: TodoState)
        ensures
            s == self.toggle_of(),
    {
        match self {
            TodoState::Checked => TodoState::Empty,
            _ => TodoState::Checked,
        }
    }

    /// The state denoted by a trimmed string representation: empty text
    /// for `Empty`, else a single marker character.
    pub open spec fn spec_parse(s: Seq<char>) -> Option<TodoState> {
        let t = trim_spec(s);
        if t.len() == 0 {
            Some(TodoState::Empty)
        } else if t.len() == 1 {
            TodoState::spec_from_char(t[0])
        } else {
            None
        }
    }

    /// Parses a state from its string representation, ignoring surrounding
    /// white space: empty for pending, `x` or `X` for done, `?`, `!` and
    /// `*` for the flagged and in-progress markers.
    pub fn parse(s: &str) -> (r: Option<TodoState>)
        ensures
            r == TodoState::spec_parse(s@),
    {
        let t = str_trim(s);
        let n = t.unicode_len();
        if n == 0 {
            Some(TodoState::Empty)
        } else if n == 1 {
            TodoState::from_char(t.get_char(0))
        } else {
            None
        }
    }

    /// Only `Checked` counts as complete.
    pub open spec fn spec_is_complete(self) -> bool {
        self is Checked
    }

    #[verifier::when_used_as_spec(spec_is_complete)]
    pub fn is_complete(self) -> (b: bool)
        ensures
            b == self.spec_is_complete(),
    {
        matches!(self, TodoState::Checked)
    }
}

} // verus!
