//! The session state around one checklist: cursor, mode, selection and the
//! bounded undo history.

use vstd::prelude::*;

use crate::dates::Date;
use crate::dates::today_date;
use crate::keybindings::KeyBinding;
use crate::list::TodoList;
use crate::mode::Mode;

verus! {

/// The undo capacity: how many whole-container snapshots are retained.
pub const MAX_UNDO_HISTORY: usize = 50;

/// What a snapshot push does to the history stack: the oldest entry is
/// evicted first when the stack is full, and the new snapshot goes on top.
pub open spec fn push_snapshot<T>(stack: Seq<T>, snap: T) -> Seq<T> {
    if stack.len() >= MAX_UNDO_HISTORY {
        stack.subrange(1, stack.len() as int).push(snap)
    } else {
        stack.push(snap)
    }
}

/// The undo stack after exactly one snapshot of the given pre-edit state:
/// the old entries are retained (the oldest evicted at capacity) and the
/// new top holds that checklist and cursor.
pub open spec fn snapshot_pushed(
    old_stack: Seq<(TodoList, usize)>,
    new_stack: Seq<(TodoList, usize)>,
    list: TodoList,
    cursor: usize,
) -> bool {
    &&& new_stack.len() == if old_stack.len() >= MAX_UNDO_HISTORY {
        old_stack.len()
    } else {
        old_stack.len() + 1
    }
    &&& new_stack.drop_last() == if old_stack.len() >= MAX_UNDO_HISTORY {
        old_stack.subrange(1, old_stack.len() as int)
    } else {
        old_stack
    }
    &&& new_stack.last().0.items@ == list.items@
    &&& new_stack.last().0.date == list.date
    &&& new_stack.last().0.file_path@ == list.file_path@
    &&& new_stack.last().1 == cursor
}

/// Bounded history: a push keeps the stack within capacity, evicts only
/// the oldest entry, and leaves the new snapshot on top, where the next
/// pop finds it.
pub proof fn lemma_history_push<T>(stack: Seq<T>, snap: T)
    ensures
        push_snapshot(stack, snap).len() == if stack.len() >= MAX_UNDO_HISTORY {
            stack.len()
        } else {
            stack.len() + 1
        },
        stack.len() <= MAX_UNDO_HISTORY ==> push_snapshot(stack, snap).len() <= MAX_UNDO_HISTORY,
        push_snapshot(stack, snap).last() == snap,
        push_snapshot(stack, snap).drop_last() == if stack.len() >= MAX_UNDO_HISTORY {
            stack.subrange(1, stack.len() as int)
        } else {
            stack
        },
{
    if stack.len() >= MAX_UNDO_HISTORY {
        assert(push_snapshot(stack, snap).drop_last() =~= stack.subrange(1, stack.len() as int));
    } else {
        assert(push_snapshot(stack, snap).drop_last() =~= stack);
    }
}

/// The interactive session around one day's checklist.
pub struct AppState {
    pub todo_list: TodoList,
    pub cursor_position: usize,
    pub mode: Mode,
    pub edit_buffer: String,
    pub edit_cursor_pos: usize,
    pub should_quit: bool,
    pub show_help: bool,
    pub pending_key: Option<KeyBinding>,
    pub timeoutlen: u64,
    pub unsaved_changes: bool,
    pub is_creating_new_item: bool,
    pub insert_above: bool,
    pub pending_indent_level: usize,
    pub undo_stack: Vec<(TodoList, usize)>,
    pub selection_anchor: Option<usize>,
    pub viewing_date: Date,
    pub today: Date,
    pub pending_delete_subtask_count: Option<usize>,
    pub status_message: Option<String>,
}

impl AppState {
    /// A fresh session over the given checklist; today's date comes from
    /// the clock, and the viewing date from the list itself.
    pub fn new(todo_list: TodoList, timeoutlen: u64) -> (r: AppState)
        ensures
            r.todo_list == todo_list,
            r.cursor_position == 0,
            r.mode is Navigate,
            r.edit_buffer@ == Seq::<char>::empty(),
            r.edit_cursor_pos == 0,
            !r.should_quit,
            !r.show_help,
            r.pending_key is None,
            r.timeoutlen == timeoutlen,
            !r.unsaved_changes,
            !r.is_creating_new_item,
            !r.insert_above,
            r.pending_indent_level == 0,
            r.undo_stack@ == Seq::<(TodoList, usize)>::empty(),
            r.selection_anchor is None,
            r.viewing_date == todo_list.date,
            r.pending_delete_subtask_count is None,
            r.status_message is None,
    {
        let today = today_date();
        let viewing_date = todo_list.date;
        AppState {
            todo_list,
            cursor_position: 0,
            mode: Mode::Navigate,
            edit_buffer: String::new(),
            edit_cursor_pos: 0,
            should_quit: false,
            show_help: false,
            pending_key: None,
            timeoutlen,
            unsaved_changes: false,
            is_creating_new_item: false,
            insert_above: false,
            pending_indent_level: 0,
            undo_stack: Vec::new(),
            selection_anchor: None,
            viewing_date,
            today,
            pending_delete_subtask_count: None,
            status_message: None,
        }
    }

    /// A day other than today is shown read-only.
    pub fn is_readonly(&self) -> (b: bool)
        ensures
            b == (self.viewing_date != self.today),
    {
        self.viewing_date != self.today
    }

    /// Pushes a snapshot of the current checklist and cursor onto the undo
    /// stack, evicting the oldest snapshot first when at capacity.  The
    /// caller is responsible for calling this once before each mutation it
    /// wants undoable.
    pub fn save_undo(&mut self)
        ensures
            final(self).undo_stack@.len() == if old(self).undo_stack@.len() >= MAX_UNDO_HISTORY {
                old(self).undo_stack@.len()
            } else {
                old(self).undo_stack@.len() + 1
            },
            final(self).undo_stack@.drop_last() == if old(self).undo_stack@.len()
                >= MAX_UNDO_HISTORY {
                old(self).undo_stack@.subrange(1, old(self).undo_stack@.len() as int)
            } else {
                old(self).undo_stack@
            },
            final(self).undo_stack@.last().0.items@ == old(self).todo_list.items@,
            final(self).undo_stack@.last().0.date == old(self).todo_list.date,
            final(self).undo_stack@.last().0.file_path@ == old(self).todo_list.file_path@,
            final(self).undo_stack@.last().1 == old(self).cursor_position,
            final(self).undo_stack@ == push_snapshot(
                old(self).undo_stack@,
                final(self).undo_stack@.last(),
            ),
            snapshot_pushed(
                old(self).undo_stack@,
                final(self).undo_stack@,
                old(self).todo_list,
                old(self).cursor_position,
            ),
            final(self).todo_list == old(self).todo_list,
            final(self).cursor_position == old(self).cursor_position,
            final(self).unsaved_changes == old(self).unsaved_changes,
            same_but_undo(*old(self), *final(self)),
    {
        if self.undo_stack.len() >= MAX_UNDO_HISTORY {
            let _evicted = self.undo_stack.remove(0);
        }
        let snap = (self.todo_list.clone(), self.cursor_position);
        self.undo_stack.push(snap);
        proof {
            if old(self).undo_stack@.len() >= MAX_UNDO_HISTORY {
                assert(self.undo_stack@.drop_last() =~= old(self).undo_stack@.subrange(
                    1,
                    old(self).undo_stack@.len() as int,
                ));
                assert(self.undo_stack@ =~= push_snapshot(
                    old(self).undo_stack@,
                    self.undo_stack@.last(),
                ));
            } else {
                assert(self.undo_stack@.drop_last() =~= old(self).undo_stack@);
                assert(self.undo_stack@ =~= push_snapshot(
                    old(self).undo_stack@,
                    self.undo_stack@.last(),
                ));
            }
        }
    }

    /// Pops the most recent snapshot, if any, and restores the checklist
    /// and cursor from it.  Reports whether an undo took place; a popped
    /// snapshot is gone — there is no redo.
    pub fn undo(&mut self) -> (undone: bool)
        ensures
            undone == (old(self).undo_stack@.len() > 0),
            undone ==> {
                &&& final(self).todo_list == old(self).undo_stack@.last().0
                &&& final(self).cursor_position == old(self).undo_stack@.last().1
                &&& final(self).undo_stack@ == old(self).undo_stack@.drop_last()
                &&& final(self).unsaved_changes
                &&& same_but_undo(*old(self), *final(self))
            },
            !undone ==> {
                &&& final(self).todo_list == old(self).todo_list
                &&& final(self).cursor_position == old(self).cursor_position
                &&& final(self).unsaved_changes == old(self).unsaved_changes
                &&& final(self).undo_stack@ == old(self).undo_stack@
                &&& same_but_undo(*old(self), *final(self))
            },
    {
        match self.undo_stack.pop() {
            Some((list, cursor)) => {
                self.todo_list = list;
                self.cursor_position = cursor;
                self.unsaved_changes = true;
                true
            },
            None => false,
        }
    }

    /// Drops any active selection.
    pub fn clear_selection(&mut self)
        ensures
            *final(self) == (AppState { selection_anchor: None, ..*old(self) }),
    {
        self.selection_anchor = None;
    }

    /// Anchors a selection at the cursor unless one is already active.
    pub fn start_or_extend_selection(&mut self)
        ensures
            old(self).selection_anchor is None ==> *final(self) == (AppState {
                selection_anchor: Some(old(self).cursor_position),
                ..*old(self)
            }),
            old(self).selection_anchor is Some ==> *final(self) == *old(self),
    {
        if self.selection_anchor.is_none() {
            self.selection_anchor = Some(self.cursor_position);
        }
    }

    /// The inclusive index range between the anchor and the cursor, lower
    /// end first, if a selection is active.
    pub fn get_selection_range(&self) -> (r: Option<(usize, usize)>)
        ensures
            r == match self.selection_anchor {
                Some(anchor) => Some(
                    (
                        if anchor <= self.cursor_position {
                            anchor
                        } else {
                            self.cursor_position
                        },
                        if anchor <= self.cursor_position {
                            self.cursor_position
                        } else {
                            anchor
                        },
                    ),
                ),
                None => None::<(usize, usize)>,
            },
    {
        match self.selection_anchor {
            Some(anchor) => {
                let start = if anchor <= self.cursor_position {
                    anchor
                } else {
                    self.cursor_position
                };
                let end = if anchor <= self.cursor_position {
                    self.cursor_position
                } else {
                    anchor
                };
                Some((start, end))
            },
            None => None,
        }
    }

    /// Whether `index` falls inside the active selection.
    pub fn is_selected(&self, index: usize) -> (b: bool)
        ensures
            b == match self.selection_anchor {
                Some(anchor) => {
                    let lo = if anchor <= self.cursor_position {
                        anchor as int
                    } else {
                        self.cursor_position as int
                    };
                    let hi = if anchor <= self.cursor_position {
                        self.cursor_position as int
                    } else {
                        anchor as int
                    };
                    lo <= index <= hi
                },
                None => false,
            },
    {
        match self.get_selection_range() {
            Some((start, end)) => start <= index && index <= end,
            None => false,
        }
    }

    /// Keeps the cursor on an existing item (or at zero when the list is
    /// empty).
    pub fn clamp_cursor(&mut self)
        ensures
            final(self).cursor_position == if old(self).todo_list.items@.len() == 0 {
                0int
            } else if old(self).cursor_position >= old(self).todo_list.items@.len() {
                old(self).todo_list.items@.len() - 1
            } else {
                old(self).cursor_position as int
            },
            same_but_cursor(*old(self), *final(self)),
    {
        if !self.todo_list.items.is_empty() {
            let last = self.todo_list.items.len() - 1;
            if self.cursor_position > last {
                self.cursor_position = last;
            }
        } else {
            self.cursor_position = 0;
        }
    }

    /// The item under the cursor, if any.
    pub fn selected_item(&self) -> (r: Option<&crate::item::TodoItem>)
        ensures
            self.cursor_position < self.todo_list.items@.len() ==> r == Some(
                &self.todo_list.items@[self.cursor_position as int],
            ),
            self.cursor_position >= self.todo_list.items@.len() ==> r is None,
    {
        if self.cursor_position < self.todo_list.items.len() {
            Some(&self.todo_list.items[self.cursor_position])
        } else {
            None
        }
    }

    /// Index of the nearest preceding strictly shallower item, if any.
    pub fn find_parent_index(&self, index: usize) -> (r: Option<usize>)
        ensures
            r == match crate::model::parent_index(
                self.todo_list.items@,
                index as int,
                index as int,
            ) {
                Some(p) => if index < self.todo_list.items@.len()
                    && self.todo_list.items@[index as int].indent_level > 0 {
                    Some(p as usize)
                } else {
                    None::<usize>
                },
                None => None::<usize>,
            },
    {
        if index >= self.todo_list.items.len() {
            return None;
        }
        let target_indent = self.todo_list.items[index].indent_level;
        if target_indent == 0 {
            return None;
        }
        let mut j: usize = index;
        while j > 0
            invariant
                0 <= j <= index < self.todo_list.items@.len(),
                target_indent == self.todo_list.items@[index as int].indent_level,
                crate::model::parent_index(self.todo_list.items@, index as int, index as int)
                    == crate::model::parent_index(self.todo_list.items@, index as int, j as int),
            decreases j,
        {
            if self.todo_list.items[j - 1].indent_level < target_indent {
                return Some(j - 1);
            }
            j -= 1;
        }
        None
    }

    /// Moves the cursor to the item's parent, when it has one.
    pub fn move_to_parent(&mut self)
        ensures
            same_but_cursor(*old(self), *final(self)),
            final(self).cursor_position == match crate::model::parent_index(
                old(self).todo_list.items@,
                old(self).cursor_position as int,
                old(self).cursor_position as int,
            ) {
                Some(p) => if old(self).cursor_position < old(self).todo_list.items@.len() && old(
                    self,
                ).todo_list.items@[old(self).cursor_position as int].indent_level > 0 {
                    p
                } else {
                    old(self).cursor_position as int
                },
                None => old(self).cursor_position as int,
            },
    {
        match self.find_parent_index(self.cursor_position) {
            Some(parent_idx) => {
                proof {
                    if old(self).cursor_position < old(self).todo_list.items@.len() {
                        crate::model::lemma_parent_index_bounds(
                            old(self).todo_list.items@,
                            old(self).cursor_position as int,
                            old(self).cursor_position as int,
                        );
                    }
                }
                self.cursor_position = parent_idx;
            },
            None => {},
        }
    }

    /// Replaces the checklist wholesale with one loaded for another day:
    /// cursor, undo history, selection and edit state all reset.  Day
    /// navigation loads the list and hands it here.
    pub fn apply_loaded_list(&mut self, list: TodoList, date: Date)
        ensures
            final(self).todo_list == list,
            final(self).viewing_date == date,
            final(self).cursor_position == 0,
            final(self).undo_stack@ == Seq::<(TodoList, usize)>::empty(),
            !final(self).unsaved_changes,
            final(self).mode is Navigate,
            final(self).edit_buffer@ == Seq::<char>::empty(),
            final(self).edit_cursor_pos == 0,
            !final(self).is_creating_new_item,
            !final(self).insert_above,
            final(self).today == old(self).today,
            final(self).timeoutlen == old(self).timeoutlen,
    {
        self.todo_list = list;
        self.viewing_date = date;
        self.cursor_position = 0;
        self.undo_stack = Vec::new();
        self.unsaved_changes = false;
        self.mode = Mode::Navigate;
        self.edit_buffer = String::new();
        self.edit_cursor_pos = 0;
        self.is_creating_new_item = false;
        self.insert_above = false;
    }

    /// Records a message for the status bar.
    pub fn set_status_message(&mut self, message: String)
        ensures
            *final(self) == (AppState { status_message: Some(message), ..*old(self) }),
    {
        self.status_message = Some(message);
    }
}

/// Whether the walk from just before `j` upward through ever-shallower
/// ancestors, starting at depth `cur`, meets a collapsed ancestor.
pub open spec fn hidden_walk(s: Seq<crate::item::TodoItem>, j: int, cur: nat) -> bool
    decreases j,
{
    if cur == 0 {
        false
    } else if j <= 0 {
        false
    } else if s[j - 1].indent_level < cur {
        s[j - 1].collapsed || hidden_walk(s, j - 1, s[j - 1].indent_level as nat)
    } else {
        hidden_walk(s, j - 1, cur)
    }
}

/// Whether the item at `index` is hidden beneath a collapsed ancestor.
pub open spec fn item_hidden(s: Seq<crate::item::TodoItem>, index: int) -> bool {
    if index < 0 || index >= s.len() {
        false
    } else {
        hidden_walk(s, index, s[index].indent_level as nat)
    }
}

/// The nearest visible position at or below `j` (position zero if all of
/// them are hidden).
pub open spec fn up_stop(s: Seq<crate::item::TodoItem>, j: int) -> int
    decreases j,
{
    if j <= 0 {
        0
    } else if !item_hidden(s, j) {
        j
    } else {
        up_stop(s, j - 1)
    }
}

/// The nearest visible position at or above `j`, looking no further than
/// `last`.
pub open spec fn down_stop(s: Seq<crate::item::TodoItem>, j: int, last: int) -> int
    decreases last - j,
{
    if j >= last {
        last
    } else if !item_hidden(s, j) {
        j
    } else {
        down_stop(s, j + 1, last)
    }
}

impl AppState {
    /// Whether the item at `index` is hidden beneath a collapsed ancestor;
    /// out-of-range indices simply report visible.
    pub fn is_item_hidden(&self, index: usize) -> (b: bool)
        ensures
            b == item_hidden(self.todo_list.items@, index as int),
    {
        let ghost s = self.todo_list.items@;
        if index >= self.todo_list.items.len() {
            return false;
        }
        let mut cur = self.todo_list.items[index].indent_level;
        if cur == 0 {
            return false;
        }
        let mut i: usize = index;
        while i > 0
            invariant
                0 <= i <= index < s.len(),
                s == self.todo_list.items@,
                cur > 0,
                hidden_walk(s, index as int, s[index as int].indent_level as nat) == hidden_walk(
                    s,
                    i as int,
                    cur as nat,
                ),
            decreases i,
        {
            let prev_ind = self.todo_list.items[i - 1].indent_level;
            if prev_ind < cur {
                if self.todo_list.items[i - 1].collapsed {
                    return true;
                }
                proof {
                    assert(hidden_walk(s, i as int, cur as nat) == hidden_walk(
                        s,
                        i as int - 1,
                        prev_ind as nat,
                    ));
                }
                if prev_ind == 0 {
                    proof {
                        assert(!hidden_walk(s, i as int - 1, 0));
                    }
                    return false;
                }
                cur = prev_ind;
            }
            i -= 1;
        }
        false
    }

    /// Moves the cursor to the nearest visible item above it (position
    /// zero if every item above is hidden); at the top it stays put.
    pub fn move_cursor_up(&mut self)
        ensures
            same_but_cursor(*old(self), *final(self)),
            old(self).cursor_position == 0 ==> final(self).cursor_position == 0,
            old(self).cursor_position > 0 ==> final(self).cursor_position == up_stop(
                old(self).todo_list.items@,
                old(self).cursor_position - 1,
            ),
    {
        let ghost s = self.todo_list.items@;
        if self.cursor_position > 0 {
            self.cursor_position -= 1;
            let ghost start = self.cursor_position as int;
            while self.cursor_position > 0 && self.is_item_hidden(self.cursor_position)
                invariant
                    0 <= self.cursor_position <= start,
                    s == self.todo_list.items@,
                    same_but_cursor(*old(self), *self),
                    up_stop(s, start) == up_stop(s, self.cursor_position as int),
                decreases self.cursor_position,
            {
                self.cursor_position -= 1;
            }
        }
    }

    /// Moves the cursor to the nearest visible item below it, falling back
    /// to the nearest visible item above when everything below is hidden;
    /// at the bottom it stays put.
    pub fn move_cursor_down(&mut self)
        ensures
            same_but_cursor(*old(self), *final(self)),
            ({
                let s = old(self).todo_list.items@;
                let c = old(self).cursor_position as int;
                if s.len() > 0 && c < s.len() - 1 {
                    let d = down_stop(s, c + 1, s.len() - 1);
                    if item_hidden(s, d) && d > 0 {
                        final(self).cursor_position == up_stop(s, d - 1)
                    } else {
                        final(self).cursor_position == d
                    }
                } else {
                    final(self).cursor_position == c
                }
            }),
    {
        let ghost s = self.todo_list.items@;
        let n = self.todo_list.items.len();
        if n > 0 && self.cursor_position < n - 1 {
            self.cursor_position += 1;
            let ghost start = self.cursor_position as int;
            while self.cursor_position < n - 1 && self.is_item_hidden(self.cursor_position)
                invariant
                    start <= self.cursor_position <= n - 1,
                    n == s.len(),
                    s == self.todo_list.items@,
                    same_but_cursor(*old(self), *self),
                    down_stop(s, start, n as int - 1) == down_stop(
                        s,
                        self.cursor_position as int,
                        n as int - 1,
                    ),
                decreases n - self.cursor_position,
            {
                self.cursor_position += 1;
            }
            if self.is_item_hidden(self.cursor_position) && self.cursor_position > 0 {
                self.cursor_position -= 1;
                let ghost start2 = self.cursor_position as int;
                while self.cursor_position > 0 && self.is_item_hidden(self.cursor_position)
                    invariant
                        0 <= self.cursor_position <= start2,
                        s == self.todo_list.items@,
                        same_but_cursor(*old(self), *self),
                        up_stop(s, start2) == up_stop(s, self.cursor_position as int),
                    decreases self.cursor_position,
                {
                    self.cursor_position -= 1;
                }
            }
        }
    }
}

/// Equal in every field that the undo machinery does not manage.
pub open spec fn same_but_undo(a: AppState, b: AppState) -> bool {
    &&& a.mode == b.mode
    &&& a.edit_buffer == b.edit_buffer
    &&& a.edit_cursor_pos == b.edit_cursor_pos
    &&& a.should_quit == b.should_quit
    &&& a.show_help == b.show_help
    &&& a.pending_key == b.pending_key
    &&& a.timeoutlen == b.timeoutlen
    &&& a.is_creating_new_item == b.is_creating_new_item
    &&& a.insert_above == b.insert_above
    &&& a.pending_indent_level == b.pending_indent_level
    &&& a.selection_anchor == b.selection_anchor
    &&& a.viewing_date == b.viewing_date
    &&& a.today == b.today
    &&& a.pending_delete_subtask_count == b.pending_delete_subtask_count
    &&& a.status_message == b.status_message
}

/// Equal in every field but the cursor.
pub open spec fn same_but_cursor(a: AppState, b: AppState) -> bool {
    &&& a.todo_list == b.todo_list
    &&& a.mode == b.mode
    &&& a.edit_buffer == b.edit_buffer
    &&& a.edit_cursor_pos == b.edit_cursor_pos
    &&& a.should_quit == b.should_quit
    &&& a.show_help == b.show_help
    &&& a.pending_key == b.pending_key
    &&& a.timeoutlen == b.timeoutlen
    &&& a.unsaved_changes == b.unsaved_changes
    &&& a.is_creating_new_item == b.is_creating_new_item
    &&& a.insert_above == b.insert_above
    &&& a.pending_indent_level == b.pending_indent_level
    &&& a.undo_stack == b.undo_stack
    &&& a.selection_anchor == b.selection_anchor
    &&& a.viewing_date == b.viewing_date
    &&& a.today == b.today
    &&& a.pending_delete_subtask_count == b.pending_delete_subtask_count
    &&& a.status_message == b.status_message
}

} // verus!
