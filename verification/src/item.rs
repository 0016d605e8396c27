//! A single checklist entry.

use vstd::prelude::*;

use crate::dates::Date;
use crate::state::TodoState;

verus! {

/// One checklist entry: immutable identity, mutable content, state and
/// structural metadata.  `parent_id` is derived data — always recomputable
/// from the depths alone — kept only for fast external lookup.
#[derive(Debug)]
pub struct TodoItem {
    pub id: u128,
    pub content: String,
    pub state: TodoState,
    pub indent_level: usize,
    pub parent_id: Option<u128>,
    pub due_date: Option<Date>,
    pub description: Option<String>,
    pub collapsed: bool,
    pub created_at: i64,
    pub modified_at: i64,
    pub completed_at: Option<i64>,
    pub deleted_at: Option<i64>,
}

/// Relies on uuid::Uuid::new_v4 and Uuid::as_u128: a freshly generated
/// random identifier, handed over as its 128-bit value.
#[verifier::external_body]
pub(crate) fn fresh_id() -> u128 {
    uuid::Uuid::new_v4().as_u128()
}

/// Relies on chrono::Utc::now and DateTime::timestamp_millis: the current
/// time as milliseconds since the Unix epoch.
#[verifier::external_body]
pub(crate) fn now_timestamp_millis() -> i64 {
    chrono::Utc::now().timestamp_millis()
}

/// The fields a freshly created pending item always carries, whatever
/// its text and depth: no state, no annotations, no stamps but creation.
pub open spec fn fresh_pending_item(it: TodoItem) -> bool {
    &&& it.state is Empty
    &&& it.parent_id is None
    &&& it.due_date is None
    &&& it.description is None
    &&& !it.collapsed
    &&& it.completed_at is None
    &&& it.deleted_at is None
    &&& it.modified_at == it.created_at
}

impl Clone for TodoItem {
    fn clone(&self) -> (r: Self)
        ensures
            r == *self,
    {
        let description = match &self.description {
            Some(d) => Some(d.clone()),
            None => None,
        };
        TodoItem {
            id: self.id,
            content: self.content.clone(),
            state: self.state,
            indent_level: self.indent_level,
            parent_id: self.parent_id,
            due_date: self.due_date,
            description,
            collapsed: self.collapsed,
            created_at: self.created_at,
            modified_at: self.modified_at,
            completed_at: self.completed_at,
            deleted_at: self.deleted_at,
        }
    }
}

impl TodoItem {
    /// A fresh pending item with the given text and depth.
    pub fn new(content: String, indent_level: usize) -> (r: TodoItem)
        ensures
            r.content == content,
            r.state is Empty,
            r.indent_level == indent_level,
            r.parent_id is None,
            r.due_date is None,
            r.description is None,
            !r.collapsed,
            r.modified_at == r.created_at,
            r.completed_at is None,
            r.deleted_at is None,
    {
        let now = now_timestamp_millis();
        TodoItem {
            id: fresh_id(),
            content,
            state: TodoState::Empty,
            indent_level,
            parent_id: None,
            due_date: None,
            description: None,
            collapsed: false,
            created_at: now,
            modified_at: now,
            completed_at: None,
            deleted_at: None,
        }
    }

    /// A fresh item with the given text, state and depth; a completed state
    /// records a completion time.
    pub fn with_state(content: String, state: TodoState, indent_level: usize) -> (r: TodoItem)
        ensures
            r.content == content,
            r.state == state,
            r.indent_level == indent_level,
            r.parent_id is None,
            r.due_date is None,
            r.description is None,
            !r.collapsed,
            r.modified_at == r.created_at,
            r.completed_at is Some <==> state is Checked,
            state is Checked ==> r.completed_at == Some(r.created_at),
            r.deleted_at is None,
    {
        let now = now_timestamp_millis();
        let completed_at = if state.is_complete() {
            Some(now)
        } else {
            None
        };
        TodoItem {
            id: fresh_id(),
            content,
            state,
            indent_level,
            parent_id: None,
            due_date: None,
            description: None,
            collapsed: false,
            created_at: now,
            modified_at: now,
            completed_at,
            deleted_at: None,
        }
    }

    /// A fresh item with every caller-settable field supplied.
    pub fn full(
        content: String,
        state: TodoState,
        indent_level: usize,
        parent_id: Option<u128>,
        due_date: Option<Date>,
        description: Option<String>,
        collapsed: bool,
    ) -> (r: TodoItem)
        ensures
            r.content == content,
            r.state == state,
            r.indent_level == indent_level,
            r.parent_id == parent_id,
            r.due_date == due_date,
            r.description == description,
            r.collapsed == collapsed,
            r.modified_at == r.created_at,
            r.completed_at is Some <==> state is Checked,
            state is Checked ==> r.completed_at == Some(r.created_at),
            r.deleted_at is None,
    {
        let now = now_timestamp_millis();
        let completed_at = if state.is_complete() {
            Some(now)
        } else {
            None
        };
        TodoItem {
            id: fresh_id(),
            content,
            state,
            indent_level,
            parent_id,
            due_date,
            description,
            collapsed,
            created_at: now,
            modified_at: now,
            completed_at,
            deleted_at: None,
        }
    }

    /// Fields untouched by a state change.
    pub open spec fn same_but_state(self, other: TodoItem) -> bool {
        &&& self.id == other.id
        &&& self.content == other.content
        &&& self.indent_level == other.indent_level
        &&& self.parent_id == other.parent_id
        &&& self.due_date == other.due_date
        &&& self.description == other.description
        &&& self.collapsed == other.collapsed
        &&& self.created_at == other.created_at
        &&& self.deleted_at == other.deleted_at
    }

    /// Two-way flip of the completion state, with the completion time kept
    /// in step: set when the item becomes complete, cleared when it ceases
    /// to be.
    pub fn toggle_state(&mut self)
        ensures
            final(self).state == old(self).state.toggle_of(),
            old(self).same_but_state(*final(self)),
            final(self).state is Checked ==> final(self).completed_at is Some,
            !(final(self).state is Checked) ==> final(self).completed_at is None,
    {
        let was_complete = self.state.is_complete();
        self.state = self.state.toggle();
        self.update_completed_at(was_complete);
    }

    /// Five-way cycle of the completion state, with the completion time
    /// kept in step.
    pub fn cycle_state(&mut self)
        ensures
            final(self).state == old(self).state.cycle_of(),
            old(self).same_but_state(*final(self)),
            final(self).state is Checked ==> final(self).completed_at is Some,
            (final(self).state is Checked) == (old(self).state is Checked)
                ==> final(self).completed_at == old(self).completed_at,
            !(final(self).state is Checked) && old(self).state is Checked
                ==> final(self).completed_at is None,
    {
        let was_complete = self.state.is_complete();
        self.state = self.state.cycle();
        self.update_completed_at(was_complete);
    }

    fn update_completed_at(&mut self, was_complete: bool)
        ensures
            final(self).state == old(self).state,
            old(self).same_but_state(*final(self)),
            final(self).state is Checked && !was_complete ==> final(self).completed_at is Some,
            !(final(self).state is Checked) && was_complete ==> final(self).completed_at is None,
            (final(self).state is Checked) == was_complete
                ==> final(self).completed_at == old(self).completed_at,
    {
        let is_complete = self.state.is_complete();
        self.modified_at = now_timestamp_millis();
        if is_complete && !was_complete {
            self.completed_at = Some(now_timestamp_millis());
        } else if !is_complete && was_complete {
            self.completed_at = None;
        }
    }

    /// Whether the item counts as done.
    pub fn is_complete(&self) -> (b: bool)
        ensures
            b == self.state.spec_is_complete(),
    {
        self.state.is_complete()
    }

    /// Whether the item may be nested one level deeper, given the depth of
    /// its predecessor (`None` for the first item, which never indents).
    pub fn can_indent(&self, prev_indent: Option<usize>) -> (b: bool)
        ensures
            b == match prev_indent {
                None => false,
                Some(p) => self.indent_level <= p,
            },
    {
        match prev_indent {
            None => false,
            Some(prev) => self.indent_level <= prev,
        }
    }

    /// Whether the item may move one level shallower.
    pub fn can_outdent(&self) -> (b: bool)
        ensures
            b == (self.indent_level > 0),
    {
        self.indent_level > 0
    }

    /// Nest one level deeper.
    pub fn indent(&mut self)
        requires
            old(self).indent_level < usize::MAX,
        ensures
            *final(self) == (TodoItem {
                indent_level: (old(self).indent_level + 1) as usize,
                ..*old(self)
            }),
    {
        self.indent_level += 1;
    }

    /// Move one level shallower, stopping at the root.
    pub fn outdent(&mut self)
        ensures
            *final(self) == (TodoItem {
                indent_level: if old(self).indent_level > 0 {
                    (old(self).indent_level - 1) as usize
                } else {
                    0
                },
                ..*old(self)
            }),
    {
        if self.indent_level > 0 {
            self.indent_level -= 1;
        }
    }
}

} // verus!
