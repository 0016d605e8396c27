//! Edit-mode state transitions and item deletion: the in-memory halves of
//! the operations whose other halves (drawing, saving, soft-deletion) live
//! in the surrounding shell.

use vstd::prelude::*;

use vstd::string::StringSliceAdditionalSpecFns;
use vstd::utf8::encode_utf8;

use crate::appstate::AppState;
use crate::appstate::snapshot_pushed;
use crate::errors::TodoError;
use crate::item::TodoItem;
use crate::item::fresh_pending_item;
use crate::mode::Mode;
use crate::model::subtree_end;
use crate::textscan::trim_spec;

verus! {

impl AppState {
    /// Starts editing the item under the cursor: its text becomes the edit
    /// buffer, with the cursor at its end.  With no item selected, nothing
    /// happens.
    pub fn enter_edit_mode(&mut self)
        ensures
            old(self).cursor_position < old(self).todo_list.items@.len() ==> {
                &&& final(self).mode is Edit
                &&& final(self).edit_buffer@ == old(self).todo_list.items@[old(
                    self,
                ).cursor_position as int].content@
                &&& final(self).edit_cursor_pos
                    == vstd::utf8::encode_utf8(final(self).edit_buffer@).len() as usize
                &&& !final(self).is_creating_new_item
                &&& final(self).todo_list == old(self).todo_list
                &&& final(self).cursor_position == old(self).cursor_position
                &&& final(self).undo_stack@ == old(self).undo_stack@
            },
            old(self).cursor_position >= old(self).todo_list.items@.len() ==> *final(self) == *old(
                self,
            ),
    {
        if self.cursor_position < self.todo_list.items.len() {
            self.edit_buffer = self.todo_list.items[self.cursor_position].content.clone();
            self.edit_cursor_pos = self.edit_buffer.as_str().len();
            self.mode = Mode::Edit;
            self.is_creating_new_item = false;
        }
    }

    /// Opens an empty edit buffer for a fresh item below the cursor, at
    /// the selected item's depth (depth zero in an empty list).
    pub fn new_item_below(&mut self)
        ensures
            final(self).edit_buffer@ == Seq::<char>::empty(),
            final(self).edit_cursor_pos == 0,
            final(self).mode is Edit,
            final(self).is_creating_new_item,
            !final(self).insert_above,
            final(self).pending_indent_level == if old(self).cursor_position < old(
                self,
            ).todo_list.items@.len() {
                old(self).todo_list.items@[old(self).cursor_position as int].indent_level as int
            } else {
                0int
            },
            final(self).todo_list == old(self).todo_list,
            final(self).cursor_position == old(self).cursor_position,
            final(self).undo_stack@ == old(self).undo_stack@,
    {
        self.edit_buffer = String::new();
        self.edit_cursor_pos = 0;
        self.mode = Mode::Edit;
        self.is_creating_new_item = true;
        self.insert_above = false;
        self.pending_indent_level = if self.cursor_position < self.todo_list.items.len() {
            self.todo_list.items[self.cursor_position].indent_level
        } else {
            0
        };
    }

    /// Opens an empty edit buffer for a fresh item at the selected item's
    /// depth.
    pub fn new_item_at_same_level(&mut self)
        ensures
            final(self).edit_buffer@ == Seq::<char>::empty(),
            final(self).edit_cursor_pos == 0,
            final(self).mode is Edit,
            final(self).is_creating_new_item,
            !final(self).insert_above,
            final(self).pending_indent_level == if old(self).cursor_position < old(
                self,
            ).todo_list.items@.len() {
                old(self).todo_list.items@[old(self).cursor_position as int].indent_level as int
            } else {
                0int
            },
            final(self).todo_list == old(self).todo_list,
            final(self).cursor_position == old(self).cursor_position,
            final(self).undo_stack@ == old(self).undo_stack@,
    {
        self.new_item_below();
    }

    /// Opens an empty edit buffer for a fresh item above the cursor.
    pub fn insert_item_above(&mut self)
        ensures
            final(self).edit_buffer@ == Seq::<char>::empty(),
            final(self).edit_cursor_pos == 0,
            final(self).mode is Edit,
            final(self).is_creating_new_item,
            final(self).insert_above,
            final(self).pending_indent_level == if old(self).cursor_position < old(
                self,
            ).todo_list.items@.len() {
                old(self).todo_list.items@[old(self).cursor_position as int].indent_level as int
            } else {
                0int
            },
            final(self).todo_list == old(self).todo_list,
            final(self).cursor_position == old(self).cursor_position,
            final(self).undo_stack@ == old(self).undo_stack@,
    {
        self.new_item_below();
        self.insert_above = true;
    }

    /// Commits the edit buffer: a blank buffer is discarded; otherwise a
    /// snapshot is pushed and the text becomes a fresh item (when one was
    /// being created) or the selected item's new content.  The buffer is
    /// cleared either way.
    pub fn save_edit_buffer(&mut self) -> (r: Result<(), TodoError>)
        ensures
            r is Ok,
            final(self).edit_buffer@ == Seq::<char>::empty(),
            final(self).edit_cursor_pos == 0,
            !final(self).is_creating_new_item || old(self).is_creating_new_item,
            old(self).is_creating_new_item || trim_spec(old(self).edit_buffer@).len() == 0
                ==> !final(self).is_creating_new_item && !final(self).insert_above,
            trim_spec(old(self).edit_buffer@).len() == 0 ==> {
                &&& final(self).todo_list == old(self).todo_list
                &&& final(self).undo_stack@ == old(self).undo_stack@
                &&& final(self).cursor_position == old(self).cursor_position
                &&& final(self).unsaved_changes == old(self).unsaved_changes
            },
            trim_spec(old(self).edit_buffer@).len() > 0 ==> {
                &&& final(self).unsaved_changes
                &&& snapshot_pushed(
                    old(self).undo_stack@,
                    final(self).undo_stack@,
                    old(self).todo_list,
                    old(self).cursor_position,
                )
                &&& final(self).todo_list.date == old(self).todo_list.date
                &&& final(self).todo_list.file_path == old(self).todo_list.file_path
                &&& (if old(self).is_creating_new_item {
                    if old(self).todo_list.items@.len() == 0 {
                        &&& final(self).todo_list.items@.len() == 1
                        &&& final(self).todo_list.items@[0].content@ == old(self).edit_buffer@
                        &&& final(self).todo_list.items@[0].indent_level == old(
                            self,
                        ).pending_indent_level
                        &&& fresh_pending_item(final(self).todo_list.items@[0])
                        &&& final(self).cursor_position == 0
                    } else {
                        let pos = if old(self).insert_above {
                            old(self).cursor_position as int
                        } else {
                            old(self).cursor_position + 1
                        };
                        let clamped = if pos <= old(self).todo_list.items@.len() {
                            pos
                        } else {
                            old(self).todo_list.items@.len() as int
                        };
                        &&& final(self).todo_list.items@ == old(self).todo_list.items@.insert(
                            clamped,
                            final(self).todo_list.items@[clamped],
                        )
                        &&& final(self).todo_list.items@[clamped].content@ == old(
                            self,
                        ).edit_buffer@
                        &&& final(self).todo_list.items@[clamped].indent_level == old(
                            self,
                        ).pending_indent_level
                        &&& fresh_pending_item(final(self).todo_list.items@[clamped])
                        &&& final(self).cursor_position == if old(self).insert_above {
                            clamped + 1
                        } else {
                            clamped
                        }
                    }
                } else if old(self).cursor_position < old(self).todo_list.items@.len() {
                    let c = old(self).cursor_position as int;
                    &&& final(self).todo_list.items@ == old(self).todo_list.items@.update(
                        c,
                        (TodoItem { content: old(self).edit_buffer, ..old(self).todo_list.items@[c] }),
                    )
                    &&& final(self).cursor_position == old(self).cursor_position
                } else {
                    &&& final(self).todo_list.items@.subrange(
                        0,
                        old(self).todo_list.items@.len() as int,
                    ) == old(self).todo_list.items@
                    &&& final(self).todo_list.items@.len() == old(self).todo_list.items@.len() + 1
                    &&& final(self).todo_list.items@.last().content@ == old(self).edit_buffer@
                    &&& final(self).todo_list.items@.last().indent_level == 0
                    &&& fresh_pending_item(final(self).todo_list.items@.last())
                    &&& final(self).cursor_position == old(self).todo_list.items@.len()
                })
            },
    {
        let trimmed_len = crate::textscan::str_trim(self.edit_buffer.as_str()).unicode_len();
        if trimmed_len == 0 {
            self.edit_buffer = String::new();
            self.edit_cursor_pos = 0;
            self.is_creating_new_item = false;
            self.insert_above = false;
            return Ok(());
        }
        self.save_undo();
        let content = self.edit_buffer.clone();
        if self.is_creating_new_item {
            if self.todo_list.items.len() == 0 {
                self.todo_list.add_item_with_indent(content, self.pending_indent_level);
                self.cursor_position = 0;
            } else {
                let wanted: usize = if self.insert_above {
                    self.cursor_position
                } else if self.cursor_position < self.todo_list.items.len() {
                    self.cursor_position + 1
                } else {
                    self.todo_list.items.len()
                };
                let insert_position = if wanted <= self.todo_list.items.len() {
                    wanted
                } else {
                    self.todo_list.items.len()
                };
                match self.todo_list.insert_item(
                    insert_position,
                    content,
                    self.pending_indent_level,
                ) {
                    Ok(_) => {},
                    Err(_) => {
                        proof {
                            assert(false);
                        }
                    },
                }
                let new_len = self.todo_list.items.len();
                if self.insert_above {
                    proof {
                        assert(insert_position < new_len);
                    }
                    self.cursor_position = insert_position + 1;
                } else {
                    self.cursor_position = insert_position;
                }
            }
            self.is_creating_new_item = false;
            self.insert_above = false;
        } else if self.cursor_position < self.todo_list.items.len() {
            let mut it = self.todo_list.items[self.cursor_position].clone();
            it.content = content;
            self.todo_list.items.set(self.cursor_position, it);
        } else {
            self.todo_list.add_item_with_indent(content, 0);
            self.cursor_position = self.todo_list.items.len() - 1;
        }
        self.edit_buffer = String::new();
        self.edit_cursor_pos = 0;
        self.unsaved_changes = true;
        Ok(())
    }

    /// Whether the visual-mode bulk indent is admissible on `[start, end]`:
    /// the selection does not open the list, its first item sits no deeper
    /// than its predecessor, and no selected depth is at the machine limit.
    fn selection_indent_admissible(&self, start: usize, end: usize) -> (b: bool)
        ensures
            b == (0 < start <= end && end < self.todo_list.items@.len()
                && self.todo_list.items@[start as int].indent_level <= self.todo_list.items@[
                start - 1].indent_level && (forall|k: int|
                start <= k <= end ==> (#[trigger] self.todo_list.items@[k]).indent_level
                    < usize::MAX)),
    {
        if start == 0 || end < start || end >= self.todo_list.items.len() {
            return false;
        }
        if self.todo_list.items[start].indent_level > self.todo_list.items[start
            - 1].indent_level {
            return false;
        }
        let mut k: usize = start;
        while k <= end
            invariant
                0 < start <= k <= end + 1,
                end < self.todo_list.items@.len(),
                end < usize::MAX,
                forall|j: int| start <= j < k ==> (#[trigger] self.todo_list.items@[j]).indent_level
                    < usize::MAX,
            decreases end + 1 - k,
        {
            if self.todo_list.items[k].indent_level == usize::MAX {
                return false;
            }
            k += 1;
        }
        true
    }

    /// Applies the visual-mode bulk indent to the active selection: only
    /// when the edit is admissible is a snapshot pushed and every selected
    /// item moved one level deeper.  Returns whether the edit was applied.
    pub fn visual_indent_selection(&mut self) -> (applied: bool)
        ensures
            final(self).cursor_position == old(self).cursor_position,
            final(self).selection_anchor == old(self).selection_anchor,
            final(self).mode == old(self).mode,
            ({
                let s0 = old(self).todo_list.items@;
                match old(self).selection_anchor {
                    None => {
                        &&& !applied
                        &&& final(self).todo_list == old(self).todo_list
                        &&& final(self).undo_stack@ == old(self).undo_stack@
                        &&& final(self).unsaved_changes == old(self).unsaved_changes
                    },
                    Some(anchor) => {
                        let start = if anchor <= old(self).cursor_position {
                            anchor as int
                        } else {
                            old(self).cursor_position as int
                        };
                        let end = if anchor <= old(self).cursor_position {
                            old(self).cursor_position as int
                        } else {
                            anchor as int
                        };
                        let ok = 0 < start <= end < s0.len() && s0[start].indent_level <= s0[start
                            - 1].indent_level && (forall|k: int|
                            start <= k <= end ==> (#[trigger] s0[k]).indent_level < usize::MAX);
                        &&& applied == ok
                        &&& (ok ==> final(self).todo_list.items@ == crate::model::with_parents(
                            crate::model::bump_range_up(s0, start, end + 1),
                        ) && final(self).unsaved_changes && snapshot_pushed(
                            old(self).undo_stack@,
                            final(self).undo_stack@,
                            old(self).todo_list,
                            old(self).cursor_position,
                        ))
                        &&& (!ok ==> final(self).todo_list == old(self).todo_list
                            && final(self).undo_stack@ == old(self).undo_stack@
                            && final(self).unsaved_changes == old(self).unsaved_changes)
                    },
                }
            }),
    {
        match self.get_selection_range() {
            None => false,
            Some((start, end)) => {
                if !self.selection_indent_admissible(start, end) {
                    return false;
                }
                self.save_undo();
                let applied = self.todo_list.indent_range(start, end);
                proof {
                    assert(applied);
                }
                self.unsaved_changes = true;
                true
            },
        }
    }

    /// Applies the visual-mode bulk outdent to the active selection: only
    /// when the first selected item sits below the root is a snapshot
    /// pushed and every selected item above depth zero moved one level
    /// shallower.  Returns whether the edit was applied.
    pub fn visual_outdent_selection(&mut self) -> (applied: bool)
        ensures
            final(self).cursor_position == old(self).cursor_position,
            final(self).selection_anchor == old(self).selection_anchor,
            final(self).mode == old(self).mode,
            ({
                let s0 = old(self).todo_list.items@;
                match old(self).selection_anchor {
                    None => {
                        &&& !applied
                        &&& final(self).todo_list == old(self).todo_list
                        &&& final(self).undo_stack@ == old(self).undo_stack@
                        &&& final(self).unsaved_changes == old(self).unsaved_changes
                    },
                    Some(anchor) => {
                        let start = if anchor <= old(self).cursor_position {
                            anchor as int
                        } else {
                            old(self).cursor_position as int
                        };
                        let end = if anchor <= old(self).cursor_position {
                            old(self).cursor_position as int
                        } else {
                            anchor as int
                        };
                        let ok = 0 <= start <= end < s0.len() && s0[start].indent_level > 0;
                        &&& applied == ok
                        &&& (ok ==> final(self).todo_list.items@ == crate::model::with_parents(
                            crate::model::bump_range_down(s0, start, end + 1),
                        ) && final(self).unsaved_changes && snapshot_pushed(
                            old(self).undo_stack@,
                            final(self).undo_stack@,
                            old(self).todo_list,
                            old(self).cursor_position,
                        ))
                        &&& (!ok ==> final(self).todo_list == old(self).todo_list
                            && final(self).undo_stack@ == old(self).undo_stack@
                            && final(self).unsaved_changes == old(self).unsaved_changes)
                    },
                }
            }),
    {
        match self.get_selection_range() {
            None => false,
            Some((start, end)) => {
                let admissible = end < self.todo_list.items.len() && self.todo_list.items[
                    start].indent_level > 0;
                if !admissible {
                    return false;
                }
                self.save_undo();
                let applied = self.todo_list.outdent_range(start, end);
                proof {
                    assert(applied);
                }
                self.unsaved_changes = true;
                true
            },
        }
    }

    /// Folds or unfolds the subtree under the cursor, pushing a snapshot
    /// first; an item without descendants is left alone.
    pub fn toggle_collapse(&mut self)
        ensures
            ({
                let s0 = old(self).todo_list.items@;
                let c = old(self).cursor_position as int;
                if c < s0.len() && subtree_end(s0, c) > c + 1 {
                    &&& final(self).todo_list.items@ == s0.update(
                        c,
                        (TodoItem { collapsed: !s0[c].collapsed, ..s0[c] }),
                    )
                    &&& final(self).unsaved_changes
                    &&& snapshot_pushed(
                        old(self).undo_stack@,
                        final(self).undo_stack@,
                        old(self).todo_list,
                        old(self).cursor_position,
                    )
                } else {
                    final(self).todo_list == old(self).todo_list && final(self).undo_stack@ == old(
                        self,
                    ).undo_stack@
                }
            }),
            final(self).cursor_position == old(self).cursor_position,
    {
        if self.todo_list.has_children(self.cursor_position) {
            self.save_undo();
            let i = self.cursor_position;
            let was = self.todo_list.items[i].collapsed;
            let mut it = self.todo_list.items[i].clone();
            it.collapsed = !was;
            self.todo_list.items.set(i, it);
            self.unsaved_changes = true;
            proof {
                assert(self.todo_list.items@ =~= old(self).todo_list.items@.update(
                    i as int,
                    (TodoItem {
                        collapsed: !old(self).todo_list.items@[i as int].collapsed,
                        ..old(self).todo_list.items@[i as int]
                    }),
                ));
            }
        }
    }

    /// Unfolds the subtree under the cursor when it is folded, pushing a
    /// snapshot first; anything else is left alone.
    pub fn expand(&mut self)
        ensures
            ({
                let s0 = old(self).todo_list.items@;
                let c = old(self).cursor_position as int;
                if c < s0.len() && subtree_end(s0, c) > c + 1 && s0[c].collapsed {
                    &&& final(self).todo_list.items@ == s0.update(
                        c,
                        (TodoItem { collapsed: false, ..s0[c] }),
                    )
                    &&& final(self).unsaved_changes
                    &&& snapshot_pushed(
                        old(self).undo_stack@,
                        final(self).undo_stack@,
                        old(self).todo_list,
                        old(self).cursor_position,
                    )
                } else {
                    final(self).todo_list == old(self).todo_list && final(self).undo_stack@ == old(
                        self,
                    ).undo_stack@
                }
            }),
            final(self).cursor_position == old(self).cursor_position,
    {
        let should_expand = self.todo_list.has_children(self.cursor_position)
            && self.cursor_position < self.todo_list.items.len() && self.todo_list.items[
            self.cursor_position].collapsed;
        if should_expand {
            self.save_undo();
            let i = self.cursor_position;
            let mut it = self.todo_list.items[i].clone();
            it.collapsed = false;
            self.todo_list.items.set(i, it);
            self.unsaved_changes = true;
            proof {
                assert(self.todo_list.items@ =~= old(self).todo_list.items@.update(
                    i as int,
                    (TodoItem {
                        collapsed: false,
                        ..old(self).todo_list.items@[i as int]
                    }),
                ));
            }
        }
    }

    /// Folds the subtree under the cursor when it is open; otherwise moves
    /// the cursor to the item's parent.
    pub fn collapse_or_parent(&mut self)
        ensures
            ({
                let s0 = old(self).todo_list.items@;
                let c = old(self).cursor_position as int;
                if c < s0.len() && subtree_end(s0, c) > c + 1 && !s0[c].collapsed {
                    &&& final(self).todo_list.items@ == s0.update(
                        c,
                        (TodoItem { collapsed: true, ..s0[c] }),
                    )
                    &&& final(self).unsaved_changes
                    &&& final(self).cursor_position == old(self).cursor_position
                    &&& snapshot_pushed(
                        old(self).undo_stack@,
                        final(self).undo_stack@,
                        old(self).todo_list,
                        old(self).cursor_position,
                    )
                } else {
                    &&& final(self).todo_list == old(self).todo_list
                    &&& final(self).undo_stack@ == old(self).undo_stack@
                    &&& final(self).cursor_position == match crate::model::parent_index(
                        s0,
                        c,
                        c,
                    ) {
                        Some(p) => if c < s0.len() && s0[c].indent_level > 0 {
                            p
                        } else {
                            c
                        },
                        None => c,
                    }
                }
            }),
    {
        let has_children = self.todo_list.has_children(self.cursor_position);
        let is_collapsed = self.cursor_position < self.todo_list.items.len()
            && self.todo_list.items[self.cursor_position].collapsed;
        if has_children && !is_collapsed {
            self.save_undo();
            let i = self.cursor_position;
            let mut it = self.todo_list.items[i].clone();
            it.collapsed = true;
            self.todo_list.items.set(i, it);
            self.unsaved_changes = true;
            proof {
                assert(self.todo_list.items@ =~= old(self).todo_list.items@.update(
                    i as int,
                    (TodoItem {
                        collapsed: true,
                        ..old(self).todo_list.items@[i as int]
                    }),
                ));
            }
        } else {
            self.move_to_parent();
        }
    }

    /// Removes the subtree under the cursor and keeps the cursor on an
    /// existing item.  Returns the ids of the removed items, which the
    /// storage layer soft-deletes.  An empty list removes nothing; a
    /// cursor past the end is out of range.
    pub fn delete_current_item(&mut self) -> (r: Result<Vec<u128>, TodoError>)
        ensures
            old(self).todo_list.items@.len() == 0 ==> (r matches Ok(ids) && ids@
                == Seq::<u128>::empty() && *final(self) == *old(self)),
            old(self).todo_list.items@.len() > 0 && old(self).cursor_position < old(
                self,
            ).todo_list.items@.len() ==> {
                let s0 = old(self).todo_list.items@;
                let c = old(self).cursor_position as int;
                let e = subtree_end(s0, c);
                &&& r matches Ok(ids)
                &&& ids@ == s0.subrange(c, e).map_values(|it: TodoItem| it.id)
                &&& final(self).todo_list.items@ == s0.subrange(0, c) + s0.subrange(
                    e,
                    s0.len() as int,
                )
                &&& final(self).cursor_position == if final(self).todo_list.items@.len() == 0 {
                    0int
                } else if c >= final(self).todo_list.items@.len() {
                    final(self).todo_list.items@.len() - 1
                } else {
                    c
                }
            },
            old(self).todo_list.items@.len() > 0 && old(self).cursor_position
                >= old(self).todo_list.items@.len() ==> (r matches Err(e2) && e2 is OutOfRange
                && final(self).todo_list.items@ == old(self).todo_list.items@),
    {
        if self.todo_list.items.len() == 0 {
            return Ok(Vec::new());
        }
        let (start, end) = match self.todo_list.get_item_range(self.cursor_position) {
            Ok(range) => range,
            Err(e) => {
                return Err(e);
            },
        };
        let removed = match self.todo_list.remove_item_range(start, end) {
            Ok(v) => v,
            Err(e) => {
                return Err(e);
            },
        };
        let mut ids: Vec<u128> = Vec::new();
        let mut k: usize = 0;
        while k < removed.len()
            invariant
                0 <= k <= removed@.len(),
                ids@ =~= removed@.subrange(0, k as int).map_values(|it: TodoItem| it.id),
            decreases removed@.len() - k,
        {
            ids.push(removed[k].id);
            proof {
                assert(removed@.subrange(0, k as int + 1).map_values(|it: TodoItem| it.id)
                    =~= removed@.subrange(0, k as int).map_values(|it: TodoItem| it.id).push(
                    removed@[k as int].id,
                ));
            }
            k += 1;
        }
        self.clamp_cursor();
        proof {
            assert(removed@.subrange(0, removed@.len() as int) =~= removed@);
        }
        Ok(ids)
    }
}

} // verus!
