//! Structural queries and edits over the implicit tree.

use vstd::prelude::*;

use crate::errors::TodoError;
use crate::item::TodoItem;
use crate::list::TodoList;
use crate::model::back_target;
use crate::model::bump_range_down;
use crate::model::bump_range_up;
use crate::model::clamp_amount;
use crate::model::down_insert_pos;
use crate::model::first_at_root;
use crate::model::ident_trace;
use crate::model::lemma_ident_with_parents;
use crate::model::lemma_move_down_identity;
use crate::model::lemma_move_up_identity;
use crate::model::lemma_wf_move_down;
use crate::model::lemma_wf_move_up;
use crate::model::lemma_wf_same_shape;
use crate::model::wf_indents;
use crate::model::lemma_back_target_props;
use crate::model::lemma_i1_bump_down_subtree;
use crate::model::lemma_i1_bump_up;
use crate::model::lemma_parent_id_same_shape;
use crate::model::lemma_span_end_bounds;
use crate::model::lemma_with_parents_i2;
use crate::model::lemma_with_parents_same_shape;
use crate::model::move_down_disp;
use crate::model::move_down_seq;
use crate::model::move_up_disp;
use crate::model::move_up_seq;
use crate::model::parent_id_spec;
use crate::model::parent_index;
use crate::model::payloads_match;
use crate::model::same_shape;
use crate::model::seq_i1;
use crate::model::seq_i2;
use crate::model::shallower_by;
use crate::model::span_end;
use crate::model::subtree_end;
use crate::model::with_indent;
use crate::model::with_parent;
use crate::model::with_parents;

verus! {

/// Number of items of `[lo, hi)` that carry the done state.
pub open spec fn count_checked(s: Seq<TodoItem>, lo: int, hi: int) -> int
    decreases hi - lo,
{
    if lo >= hi {
        0
    } else {
        count_checked(s, lo, hi - 1) + if s[hi - 1].state is Checked {
            1int
        } else {
            0int
        }
    }
}

impl TodoList {
    /// The contiguous span `[index, end)` covering the item at `index` and
    /// all of its descendants.
    pub fn get_item_range(&self, index: usize) -> (r: Result<(usize, usize), TodoError>)
        ensures
            match r {
                Ok((s, e)) => {
                    &&& index < self.items@.len()
                    &&& s == index
                    &&& e == subtree_end(self.items@, index as int)
                    &&& index < e <= self.items@.len()
                },
                Err(err) => {
                    &&& err is OutOfRange
                    &&& index >= self.items@.len()
                },
            },
    {
        if index >= self.items.len() {
            return Err(TodoError::OutOfRange);
        }
        let base = self.items[index].indent_level;
        let n = self.items.len();
        let mut end: usize = index + 1;
        while end < n && self.items[end].indent_level > base
            invariant
                index < end <= n,
                n == self.items@.len(),
                base == self.items@[index as int].indent_level,
                span_end(self.items@, base as nat, index as int + 1) == span_end(
                    self.items@,
                    base as nat,
                    end as int,
                ),
            decreases n - end,
        {
            end += 1;
        }
        proof {
            lemma_span_end_bounds(self.items@, base as nat, end as int);
        }
        Ok((index, end))
    }

    /// Whether the item at `index` has at least one descendant.  Out-of-range
    /// indices simply report `false`.
    pub fn has_children(&self, index: usize) -> (b: bool)
        ensures
            b == (index < self.items@.len() && subtree_end(self.items@, index as int) > index + 1),
    {
        if index >= self.items.len() {
            return false;
        }
        match self.get_item_range(index) {
            Ok((start, end)) => end > start + 1,
            Err(_) => false,
        }
    }

    /// How many of the strict descendants of the item at `index` are done,
    /// and how many there are in all.  Out-of-range indices report `(0, 0)`.
    pub fn count_children_stats(&self, index: usize) -> (r: (usize, usize))
        ensures
            index < self.items@.len() ==> {
                let e = subtree_end(self.items@, index as int);
                r.0 == count_checked(self.items@, index as int + 1, e) && r.1 == e - index - 1
            },
            index >= self.items@.len() ==> r == (0usize, 0usize),
    {
        if index >= self.items.len() {
            return (0, 0);
        }
        let (_, end) = match self.get_item_range(index) {
            Ok(range) => range,
            Err(_) => (index, index + 1),
        };
        let mut completed: usize = 0;
        let mut k: usize = index + 1;
        proof {
            lemma_span_end_bounds(self.items@, self.items@[index as int].indent_level as nat, index as int + 1);
        }
        while k < end
            invariant
                index + 1 <= k <= end <= self.items@.len(),
                completed == count_checked(self.items@, index as int + 1, k as int),
                completed <= k - index - 1,
            decreases end - k,
        {
            if self.items[k].is_complete() {
                completed += 1;
            }
            k += 1;
        }
        (completed, end - index - 1)
    }

    /// Recomputes every parent reference from the depths, per the
    /// nearest-shallower-predecessor rule.  This is the single source of
    /// truth for parent references; every structural edit ends with it.
    pub fn recalculate_parent_ids(&mut self)
        ensures
            final(self).items@ == with_parents(old(self).items@),
            final(self).date == old(self).date,
            final(self).file_path == old(self).file_path,
            seq_i2(final(self).items@),
    {
        let ghost s0 = self.items@;
        let n = self.items.len();
        let mut i: usize = 0;
        while i < n
            invariant
                i <= n,
                n == self.items@.len(),
                n == s0.len(),
                forall|k: int| i <= k < n ==> self.items@[k] == s0[k],
                forall|k: int| 0 <= k < i ==> self.items@[k] == with_parents(s0)[k],
                same_shape(s0, self.items@),
                self.date == old(self).date,
                self.file_path == old(self).file_path,
            decreases n - i,
        {
            let pid = self.parent_id_at(i, Ghost(s0));
            let mut it = self.items[i].clone();
            it.parent_id = pid;
            self.items.set(i, it);
            proof {
                assert(self.items@[i as int] == with_parent(s0[i as int], parent_id_spec(s0, i as int)));
            }
            i += 1;
        }
        proof {
            assert(self.items@ =~= with_parents(s0));
            lemma_with_parents_i2(s0);
        }
    }

    /// The recomputed parent reference of the item at `i`: the id of the
    /// nearest preceding strictly shallower item.
    fn parent_id_at(&self, i: usize, Ghost(s0): Ghost<Seq<TodoItem>>) -> (pid: Option<u128>)
        requires
            i < self.items@.len(),
            s0.len() == self.items@.len(),
            same_shape(s0, self.items@),
        ensures
            pid == parent_id_spec(s0, i as int),
    {
        proof {
            lemma_parent_id_same_shape(s0, self.items@, i as int);
        }
        let indent = self.items[i].indent_level;
        if indent == 0 {
            return None;
        }
        let mut j: usize = i;
        while j > 0
            invariant
                0 <= j <= i < self.items@.len(),
                s0.len() == self.items@.len(),
                same_shape(s0, self.items@),
                indent == self.items@[i as int].indent_level,
                parent_index(self.items@, i as int, i as int) == parent_index(
                    self.items@,
                    i as int,
                    j as int,
                ),
                forall|k: int| j <= k < i ==> #[trigger] self.items@[k].indent_level >= indent,
            decreases j,
        {
            if self.items[j - 1].indent_level < indent {
                proof {
                    lemma_parent_id_same_shape(s0, self.items@, i as int);
                    assert(parent_index(self.items@, i as int, j as int) == Some(j as int - 1));
                    assert(self.items@[i as int].indent_level != 0);
                    assert(parent_id_spec(self.items@, i as int) == Some(
                        self.items@[j as int - 1].id,
                    ));
                }
                return Some(self.items[j - 1].id);
            }
            j -= 1;
        }
        None
    }

    /// Nests the item at `index` one level deeper, then recomputes parent
    /// references.  Refused for the first item, and whenever the item would
    /// end up more than one level below its predecessor.
    pub fn indent_item(&mut self, index: usize) -> (r: Result<(), TodoError>)
        ensures
            final(self).date == old(self).date,
            final(self).file_path == old(self).file_path,
            match r {
                Ok(_) => {
                    &&& 0 < index < old(self).items@.len()
                    &&& old(self).items@[index as int].indent_level <= old(self).items@[index
                        - 1].indent_level
                    &&& final(self).items@ == with_parents(
                        bump_range_up(old(self).items@, index as int, index as int + 1),
                    )
                    &&& seq_i2(final(self).items@)
                    &&& payloads_match(old(self).items@, final(self).items@)
                    &&& seq_i1(old(self).items@) ==> seq_i1(final(self).items@)
                    &&& first_at_root(old(self).items@) ==> first_at_root(final(self).items@)
                },
                Err(e) => {
                    &&& final(self).items@ == old(self).items@
                    &&& (e is OutOfRange <==> index >= old(self).items@.len())
                    &&& (e is IndentFirstItem <==> index == 0 && index < old(self).items@.len())
                    &&& (e is IndentBeyondParent <==> 0 < index < old(self).items@.len() && old(
                        self,
                    ).items@[index as int].indent_level > old(self).items@[index
                        - 1].indent_level)
                    &&& (e is DepthOverflow <==> 0 < index < old(self).items@.len() && old(
                        self,
                    ).items@[index as int].indent_level <= old(self).items@[index
                        - 1].indent_level && old(self).items@[index as int].indent_level
                        == usize::MAX)
                    &&& (e is OutOfRange || e is IndentFirstItem || e is IndentBeyondParent || e
                        is DepthOverflow)
                },
            },
    {
        if index >= self.items.len() {
            return Err(TodoError::OutOfRange);
        }
        if index == 0 {
            return Err(TodoError::IndentFirstItem);
        }
        let prev_indent = self.items[index - 1].indent_level;
        let current_indent = self.items[index].indent_level;
        if current_indent > prev_indent {
            return Err(TodoError::IndentBeyondParent);
        }
        if current_indent == usize::MAX {
            return Err(TodoError::DepthOverflow);
        }
        let mut it = self.items[index].clone();
        it.indent_level = current_indent + 1;
        self.items.set(index, it);
        proof {
            assert(self.items@ =~= bump_range_up(old(self).items@, index as int, index as int + 1));
            if seq_i1(old(self).items@) {
                lemma_i1_bump_up(old(self).items@, index as int, index as int + 1);
            }
            lemma_with_parents_same_shape(self.items@);
        }
        self.recalculate_parent_ids();
        Ok(())
    }

    /// Moves the item at `index` one level shallower, then recomputes parent
    /// references.  Refused for root-level items.
    pub fn outdent_item(&mut self, index: usize) -> (r: Result<(), TodoError>)
        ensures
            final(self).date == old(self).date,
            final(self).file_path == old(self).file_path,
            match r {
                Ok(_) => {
                    &&& index < old(self).items@.len()
                    &&& old(self).items@[index as int].indent_level > 0
                    &&& final(self).items@ == with_parents(
                        bump_range_down(old(self).items@, index as int, index as int + 1),
                    )
                    &&& seq_i2(final(self).items@)
                    &&& payloads_match(old(self).items@, final(self).items@)
                },
                Err(e) => {
                    &&& final(self).items@ == old(self).items@
                    &&& (e is OutOfRange <==> index >= old(self).items@.len())
                    &&& (e is OutdentTopLevel <==> index < old(self).items@.len() && old(
                        self,
                    ).items@[index as int].indent_level == 0)
                    &&& e is OutOfRange || e is OutdentTopLevel
                },
            },
    {
        if index >= self.items.len() {
            return Err(TodoError::OutOfRange);
        }
        let current_indent = self.items[index].indent_level;
        if current_indent == 0 {
            return Err(TodoError::OutdentTopLevel);
        }
        let mut it = self.items[index].clone();
        it.indent_level = current_indent - 1;
        self.items.set(index, it);
        proof {
            assert(self.items@ =~= bump_range_down(
                old(self).items@,
                index as int,
                index as int + 1,
            ));
            lemma_with_parents_same_shape(self.items@);
        }
        self.recalculate_parent_ids();
        Ok(())
    }

    /// Nests the item at `index` and its whole subtree one level deeper,
    /// then recomputes parent references.  The admissibility check is the
    /// same as for a single item, applied to the subtree root.
    pub fn indent_item_with_children(&mut self, index: usize) -> (r: Result<(), TodoError>)
        ensures
            final(self).date == old(self).date,
            final(self).file_path == old(self).file_path,
            match r {
                Ok(_) => {
                    &&& 0 < index < old(self).items@.len()
                    &&& old(self).items@[index as int].indent_level <= old(self).items@[index
                        - 1].indent_level
                    &&& final(self).items@ == with_parents(
                        bump_range_up(
                            old(self).items@,
                            index as int,
                            subtree_end(old(self).items@, index as int),
                        ),
                    )
                    &&& seq_i2(final(self).items@)
                    &&& payloads_match(old(self).items@, final(self).items@)
                    &&& seq_i1(old(self).items@) ==> seq_i1(final(self).items@)
                    &&& first_at_root(old(self).items@) ==> first_at_root(final(self).items@)
                },
                Err(e) => {
                    &&& final(self).items@ == old(self).items@
                    &&& (e is OutOfRange <==> index >= old(self).items@.len())
                    &&& (e is IndentFirstItem <==> index == 0 && index < old(self).items@.len())
                    &&& (e is IndentBeyondParent <==> 0 < index < old(self).items@.len() && old(
                        self,
                    ).items@[index as int].indent_level > old(self).items@[index
                        - 1].indent_level)
                    &&& (e is DepthOverflow <==> 0 < index < old(self).items@.len() && old(
                        self,
                    ).items@[index as int].indent_level <= old(self).items@[index
                        - 1].indent_level && exists|k: int|
                        index <= k < subtree_end(old(self).items@, index as int) && (#[trigger] old(
                            self,
                        ).items@[k]).indent_level == usize::MAX)
                    &&& (e is OutOfRange || e is IndentFirstItem || e is IndentBeyondParent || e
                        is DepthOverflow)
                },
            },
    {
        if index >= self.items.len() {
            return Err(TodoError::OutOfRange);
        }
        if index == 0 {
            return Err(TodoError::IndentFirstItem);
        }
        let prev_indent = self.items[index - 1].indent_level;
        let current_indent = self.items[index].indent_level;
        if current_indent > prev_indent {
            return Err(TodoError::IndentBeyondParent);
        }
        let (start, end) = match self.get_item_range(index) {
            Ok(range) => range,
            Err(e) => {
                return Err(e);
            },
        };
        // A depth at the machine-word limit cannot grow; refuse rather than
        // overflow.
        let mut k: usize = start;
        while k < end
            invariant
                0 < index < self.items@.len(),
                index == start,
                start <= k <= end <= self.items@.len(),
                end == subtree_end(self.items@, index as int),
                self.items@[index as int].indent_level <= self.items@[index - 1].indent_level,
                forall|j: int| start <= j < k ==> #[trigger] self.items@[j].indent_level
                    < usize::MAX,
                self.items@ == old(self).items@,
                self.date == old(self).date,
                self.file_path == old(self).file_path,
            decreases end - k,
        {
            if self.items[k].indent_level == usize::MAX {
                proof {
                    assert(index <= k < subtree_end(self.items@, index as int) && self.items@[
                        k as int].indent_level == usize::MAX);
                }
                return Err(TodoError::DepthOverflow);
            }
            k += 1;
        }
        let ghost s0 = self.items@;
        let mut i: usize = start;
        while i < end
            invariant
                start <= i <= end <= self.items@.len(),
                s0.len() == self.items@.len(),
                forall|j: int| start <= j < end ==> #[trigger] s0[j].indent_level < usize::MAX,
                forall|k2: int| 0 <= k2 < s0.len() && !(start <= k2 < i) ==> self.items@[k2]
                    == s0[k2],
                forall|k2: int| start <= k2 < i ==> self.items@[k2] == with_indent(
                    s0[k2],
                    (s0[k2].indent_level + 1) as usize,
                ),
                self.date == old(self).date,
                self.file_path == old(self).file_path,
            decreases end - i,
        {
            let cur = self.items[i].indent_level;
            let mut it = self.items[i].clone();
            it.indent_level = cur + 1;
            self.items.set(i, it);
            i += 1;
        }
        proof {
            assert(self.items@ =~= bump_range_up(s0, start as int, end as int));
            if seq_i1(s0) {
                lemma_i1_bump_up(s0, start as int, end as int);
            }
            lemma_with_parents_same_shape(self.items@);
        }
        self.recalculate_parent_ids();
        Ok(())
    }

    /// Moves the item at `index` and its whole subtree one level shallower,
    /// each descendant saturating independently at the root, then recomputes
    /// parent references.
    pub fn outdent_item_with_children(&mut self, index: usize) -> (r: Result<(), TodoError>)
        ensures
            final(self).date == old(self).date,
            final(self).file_path == old(self).file_path,
            match r {
                Ok(_) => {
                    &&& index < old(self).items@.len()
                    &&& old(self).items@[index as int].indent_level > 0
                    &&& final(self).items@ == with_parents(
                        bump_range_down(
                            old(self).items@,
                            index as int,
                            subtree_end(old(self).items@, index as int),
                        ),
                    )
                    &&& seq_i2(final(self).items@)
                    &&& payloads_match(old(self).items@, final(self).items@)
                    &&& seq_i1(old(self).items@) ==> seq_i1(final(self).items@)
                    &&& first_at_root(old(self).items@) ==> first_at_root(final(self).items@)
                },
                Err(e) => {
                    &&& final(self).items@ == old(self).items@
                    &&& (e is OutOfRange <==> index >= old(self).items@.len())
                    &&& (e is OutdentTopLevel <==> index < old(self).items@.len() && old(
                        self,
                    ).items@[index as int].indent_level == 0)
                    &&& e is OutOfRange || e is OutdentTopLevel
                },
            },
    {
        if index >= self.items.len() {
            return Err(TodoError::OutOfRange);
        }
        let current_indent = self.items[index].indent_level;
        if current_indent == 0 {
            return Err(TodoError::OutdentTopLevel);
        }
        let (start, end) = match self.get_item_range(index) {
            Ok(range) => range,
            Err(e) => {
                return Err(e);
            },
        };
        let ghost s0 = self.items@;
        let mut i: usize = start;
        while i < end
            invariant
                start <= i <= end <= self.items@.len(),
                s0.len() == self.items@.len(),
                forall|k2: int| 0 <= k2 < s0.len() && !(start <= k2 < i) ==> self.items@[k2]
                    == s0[k2],
                forall|k2: int| start <= k2 < i ==> self.items@[k2] == with_indent(
                    s0[k2],
                    crate::model::sat_dec(s0[k2].indent_level),
                ),
                self.date == old(self).date,
                self.file_path == old(self).file_path,
            decreases end - i,
        {
            let cur = self.items[i].indent_level;
            if cur > 0 {
                let mut it = self.items[i].clone();
                it.indent_level = cur - 1;
                self.items.set(i, it);
            } else {
                proof {
                    assert(self.items@[i as int] == with_indent(
                        s0[i as int],
                        crate::model::sat_dec(s0[i as int].indent_level),
                    ));
                }
            }
            i += 1;
        }
        proof {
            assert(self.items@ =~= bump_range_down(s0, start as int, end as int));
            if seq_i1(s0) {
                lemma_i1_bump_down_subtree(s0, start as int, end as int);
            }
            lemma_with_parents_same_shape(self.items@);
        }
        self.recalculate_parent_ids();
        Ok(())
    }
    /// Relocates the subtree rooted at `index` to sit immediately before
    /// the nearest preceding block at its own level or above, uniformly
    /// reducing the subtree's depths when the new position allows less
    /// nesting, then recomputes parent references.  Returns the number of
    /// positions the subtree's start moved.
    pub fn move_item_with_children_up(&mut self, index: usize) -> (r: Result<usize, TodoError>)
        ensures
            final(self).date == old(self).date,
            final(self).file_path == old(self).file_path,
            match r {
                Ok(disp) => {
                    &&& 0 < index < old(self).items@.len()
                    &&& disp == move_up_disp(old(self).items@, index as int)
                    &&& disp >= 1
                    &&& final(self).items@ == with_parents(move_up_seq(old(self).items@, index as int))
                    &&& seq_i2(final(self).items@)
                    &&& ident_trace(final(self).items@).to_multiset() == ident_trace(
                        old(self).items@,
                    ).to_multiset()
                    &&& wf_indents(old(self).items@) ==> wf_indents(final(self).items@)
                },
                Err(e) => {
                    &&& final(self).items@ == old(self).items@
                    &&& (e is MoveFirstItemUp <==> index == 0)
                    &&& (e is OutOfRange <==> 0 < index && index >= old(self).items@.len())
                    &&& e is MoveFirstItemUp || e is OutOfRange
                },
            },
    {
        if index == 0 {
            return Err(TodoError::MoveFirstItemUp);
        }
        let (item_start, item_end) = match self.get_item_range(index) {
            Ok(range) => range,
            Err(e) => {
                return Err(e);
            },
        };
        let ghost s0 = self.items@;
        let current_indent = self.items[item_start].indent_level;
        let mut target_idx: usize = item_start - 1;
        while target_idx > 0 && self.items[target_idx].indent_level > current_indent
            invariant
                0 <= target_idx <= item_start - 1,
                0 < item_start < self.items@.len(),
                s0 == self.items@,
                current_indent == s0[item_start as int].indent_level,
                back_target(s0, current_indent as nat, item_start as int - 1) == back_target(
                    s0,
                    current_indent as nat,
                    target_idx as int,
                ),
            decreases target_idx,
        {
            target_idx -= 1;
        }
        let target_start = target_idx;
        proof {
            assert(back_target(s0, current_indent as nat, target_idx as int) == target_idx);
            lemma_back_target_props(s0, current_indent as nat, item_start as int - 1);
        }
        let displacement = item_start - target_start;
        let mut moved = match self.remove_item_range(item_start, item_end) {
            Ok(v) => v,
            Err(_) => {
                proof {
                    assert(false);
                }
                return Err(TodoError::OutOfRange);
            },
        };
        let ghost m0 = moved@;
        let ghost rest = self.items@;
        let diff: usize = if target_start == 0 {
            current_indent
        } else {
            let p = self.items[target_start - 1].indent_level;
            if p < usize::MAX && current_indent > p + 1 {
                current_indent - (p + 1)
            } else {
                0
            }
        };
        proof {
            let limit: int = if target_start == 0 {
                -1
            } else {
                s0[target_start - 1].indent_level as int
            };
            assert(diff == clamp_amount(current_indent as nat, limit));
        }
        let mut k: usize = 0;
        while k < moved.len()
            invariant
                k <= moved@.len(),
                moved@.len() == m0.len(),
                forall|j: int| 0 <= j < k ==> moved@[j] == with_indent(
                    m0[j],
                    crate::model::sat_sub(m0[j].indent_level, diff),
                ),
                forall|j: int| k <= j < m0.len() ==> moved@[j] == m0[j],
            decreases moved@.len() - k,
        {
            let cur = moved[k].indent_level;
            let mut it = moved[k].clone();
            it.indent_level = if cur >= diff {
                cur - diff
            } else {
                0
            };
            moved.set(k, it);
            k += 1;
        }
        proof {
            assert(moved@ =~= shallower_by(m0, diff));
        }
        let ghost shifted = moved@;
        let mut pos: usize = 0;
        let count = moved.len();
        while pos < count
            invariant
                pos <= count,
                count == shifted.len(),
                target_start <= rest.len(),
                rest.len() + pos == self.items@.len(),
                moved@ =~= shifted.subrange(pos as int, shifted.len() as int),
                self.items@ =~= rest.subrange(0, target_start as int) + shifted.subrange(
                    0,
                    pos as int,
                ) + rest.subrange(target_start as int, rest.len() as int),
                self.date == old(self).date,
                self.file_path == old(self).file_path,
            decreases count - pos,
        {
            let it = moved.remove(0);
            let total = self.items.len();
            proof {
                assert(target_start + pos <= total);
            }
            self.items.insert(target_start + pos, it);
            pos += 1;
        }
        proof {
            assert(self.items@ =~= rest.subrange(0, target_start as int) + shifted
                + rest.subrange(target_start as int, rest.len() as int));
            assert(rest.subrange(0, target_start as int) =~= s0.subrange(0, target_start as int));
            assert(rest.subrange(target_start as int, rest.len() as int) =~= s0.subrange(
                target_start as int,
                item_start as int,
            ) + s0.subrange(item_end as int, s0.len() as int));
            assert(self.items@ =~= move_up_seq(s0, index as int));
            lemma_move_up_identity(s0, index as int);
            lemma_ident_with_parents(move_up_seq(s0, index as int));
            if wf_indents(s0) {
                lemma_wf_move_up(s0, index as int);
                lemma_with_parents_same_shape(move_up_seq(s0, index as int));
                lemma_wf_same_shape(
                    move_up_seq(s0, index as int),
                    with_parents(move_up_seq(s0, index as int)),
                );
            }
        }
        self.recalculate_parent_ids();
        Ok(displacement)
    }

    /// Relocates the subtree rooted at `index` past the following
    /// sibling-level block, uniformly reducing the subtree's depths when
    /// the new position allows less nesting, then recomputes parent
    /// references.  Returns the number of positions the subtree's start
    /// moved.
    pub fn move_item_with_children_down(&mut self, index: usize) -> (r: Result<usize, TodoError>)
        ensures
            final(self).date == old(self).date,
            final(self).file_path == old(self).file_path,
            match r {
                Ok(disp) => {
                    &&& index < old(self).items@.len()
                    &&& subtree_end(old(self).items@, index as int) < old(self).items@.len()
                    &&& disp == move_down_disp(old(self).items@, index as int)
                    &&& disp >= 1
                    &&& final(self).items@ == with_parents(
                        move_down_seq(old(self).items@, index as int),
                    )
                    &&& seq_i2(final(self).items@)
                    &&& ident_trace(final(self).items@).to_multiset() == ident_trace(
                        old(self).items@,
                    ).to_multiset()
                    &&& wf_indents(old(self).items@) ==> wf_indents(final(self).items@)
                },
                Err(e) => {
                    &&& final(self).items@ == old(self).items@
                    &&& (e is OutOfRange <==> index >= old(self).items@.len())
                    &&& (e is MoveLastItemDown <==> index < old(self).items@.len()
                        && subtree_end(old(self).items@, index as int) >= old(self).items@.len())
                    &&& e is OutOfRange || e is MoveLastItemDown
                },
            },
    {
        let (item_start, item_end) = match self.get_item_range(index) {
            Ok(range) => range,
            Err(e) => {
                return Err(e);
            },
        };
        if item_end >= self.items.len() {
            return Err(TodoError::MoveLastItemDown);
        }
        let ghost s0 = self.items@;
        let current_indent = self.items[item_start].indent_level;
        let target_idx = item_end;
        proof {
            lemma_span_end_bounds(s0, current_indent as nat, item_start as int + 1);
        }
        let target_indent = self.items[target_idx].indent_level;
        let insert_pos = if current_indent > target_indent {
            target_idx + 1
        } else {
            match self.get_item_range(target_idx) {
                Ok((_, te)) => te,
                Err(_) => {
                    proof {
                        assert(false);
                    }
                    return Err(TodoError::OutOfRange);
                },
            }
        };
        proof {
            assert(insert_pos == down_insert_pos(s0, index as int));
            if !(current_indent > target_indent) {
                lemma_span_end_bounds(s0, target_indent as nat, target_idx as int + 1);
            }
        }
        let item_count = item_end - item_start;
        let actual_insert = insert_pos - item_count;
        let mut moved = match self.remove_item_range(item_start, item_end) {
            Ok(v) => v,
            Err(_) => {
                proof {
                    assert(false);
                }
                return Err(TodoError::OutOfRange);
            },
        };
        let ghost m0 = moved@;
        let ghost rest = self.items@;
        let p = self.items[actual_insert - 1].indent_level;
        let diff: usize = if p < usize::MAX && current_indent > p + 1 {
            current_indent - (p + 1)
        } else {
            0
        };
        proof {
            assert(rest[actual_insert as int - 1] == s0[insert_pos as int - 1]);
            assert(diff == clamp_amount(
                current_indent as nat,
                s0[insert_pos as int - 1].indent_level as int,
            ));
        }
        let mut k: usize = 0;
        while k < moved.len()
            invariant
                k <= moved@.len(),
                moved@.len() == m0.len(),
                forall|j: int| 0 <= j < k ==> moved@[j] == with_indent(
                    m0[j],
                    crate::model::sat_sub(m0[j].indent_level, diff),
                ),
                forall|j: int| k <= j < m0.len() ==> moved@[j] == m0[j],
            decreases moved@.len() - k,
        {
            let cur = moved[k].indent_level;
            let mut it = moved[k].clone();
            it.indent_level = if cur >= diff {
                cur - diff
            } else {
                0
            };
            moved.set(k, it);
            k += 1;
        }
        proof {
            assert(moved@ =~= shallower_by(m0, diff));
        }
        let ghost shifted = moved@;
        let mut pos: usize = 0;
        let count = moved.len();
        while pos < count
            invariant
                pos <= count,
                count == shifted.len(),
                actual_insert <= rest.len(),
                rest.len() + pos == self.items@.len(),
                moved@ =~= shifted.subrange(pos as int, shifted.len() as int),
                self.items@ =~= rest.subrange(0, actual_insert as int) + shifted.subrange(
                    0,
                    pos as int,
                ) + rest.subrange(actual_insert as int, rest.len() as int),
                self.date == old(self).date,
                self.file_path == old(self).file_path,
            decreases count - pos,
        {
            let it = moved.remove(0);
            let total = self.items.len();
            proof {
                assert(actual_insert + pos <= total);
            }
            self.items.insert(actual_insert + pos, it);
            pos += 1;
        }
        proof {
            assert(self.items@ =~= rest.subrange(0, actual_insert as int) + shifted
                + rest.subrange(actual_insert as int, rest.len() as int));
            assert(rest.subrange(0, actual_insert as int) =~= s0.subrange(0, item_start as int)
                + s0.subrange(item_end as int, insert_pos as int));
            assert(rest.subrange(actual_insert as int, rest.len() as int) =~= s0.subrange(
                insert_pos as int,
                s0.len() as int,
            ));
            assert(self.items@ =~= move_down_seq(s0, index as int));
            lemma_move_down_identity(s0, index as int);
            lemma_ident_with_parents(move_down_seq(s0, index as int));
            if wf_indents(s0) {
                lemma_wf_move_down(s0, index as int);
                lemma_with_parents_same_shape(move_down_seq(s0, index as int));
                lemma_wf_same_shape(
                    move_down_seq(s0, index as int),
                    with_parents(move_down_seq(s0, index as int)),
                );
            }
        }
        self.recalculate_parent_ids();
        Ok(insert_pos - item_end)
    }

    /// Applies the multi-select bulk indent to the inclusive range
    /// `[start, end]`: admissible only when the selection does not open the
    /// list and its first item sits no deeper than its predecessor; if so,
    /// every selected item moves one level deeper and parent references are
    /// recomputed.  Returns whether the edit was applied.
    pub fn indent_range(&mut self, start: usize, end: usize) -> (applied: bool)
        ensures
            final(self).date == old(self).date,
            final(self).file_path == old(self).file_path,
            applied <==> {
                &&& 0 < start <= end < old(self).items@.len()
                &&& old(self).items@[start as int].indent_level <= old(self).items@[start
                    - 1].indent_level
                &&& forall|k: int| start <= k <= end ==> #[trigger] old(self).items@[k].indent_level
                    < usize::MAX
            },
            applied ==> {
                &&& final(self).items@ == with_parents(
                    bump_range_up(old(self).items@, start as int, end as int + 1),
                )
                &&& seq_i2(final(self).items@)
                &&& payloads_match(old(self).items@, final(self).items@)
                &&& seq_i1(old(self).items@) ==> seq_i1(final(self).items@)
                &&& first_at_root(old(self).items@) ==> first_at_root(final(self).items@)
            },
            !applied ==> final(self).items@ == old(self).items@,
    {
        if start == 0 || end < start || end >= self.items.len() {
            return false;
        }
        if self.items[start].indent_level > self.items[start - 1].indent_level {
            return false;
        }
        let mut k: usize = start;
        while k <= end
            invariant
                0 < start <= k <= end + 1,
                end < self.items@.len(),
                forall|j: int| start <= j < k ==> #[trigger] self.items@[j].indent_level
                    < usize::MAX,
                self.items@ == old(self).items@,
                self.date == old(self).date,
                self.file_path == old(self).file_path,
                end < usize::MAX,
            decreases end + 1 - k,
        {
            if self.items[k].indent_level == usize::MAX {
                return false;
            }
            k += 1;
        }
        let ghost s0 = self.items@;
        let mut i: usize = start;
        while i <= end
            invariant
                0 < start <= i <= end + 1,
                end < self.items@.len(),
                s0.len() == self.items@.len(),
                forall|j: int| start <= j <= end ==> #[trigger] s0[j].indent_level < usize::MAX,
                forall|k2: int| 0 <= k2 < s0.len() && !(start <= k2 < i) ==> self.items@[k2]
                    == s0[k2],
                forall|k2: int| start <= k2 < i ==> self.items@[k2] == with_indent(
                    s0[k2],
                    (s0[k2].indent_level + 1) as usize,
                ),
                self.date == old(self).date,
                self.file_path == old(self).file_path,
                end < usize::MAX,
            decreases end + 1 - i,
        {
            let cur = self.items[i].indent_level;
            let mut it = self.items[i].clone();
            it.indent_level = cur + 1;
            self.items.set(i, it);
            i += 1;
        }
        proof {
            assert(self.items@ =~= bump_range_up(s0, start as int, end as int + 1));
            if seq_i1(s0) {
                lemma_i1_bump_up(s0, start as int, end as int + 1);
            }
            lemma_with_parents_same_shape(self.items@);
        }
        self.recalculate_parent_ids();
        true
    }

    /// Applies the multi-select bulk outdent to the inclusive range
    /// `[start, end]`: admissible only when the first selected item sits
    /// below the root; every selected item above depth zero moves one level
    /// shallower, items already at the root stay, and parent references are
    /// recomputed.  Returns whether the edit was applied.  Unlike the
    /// subtree operations, this does not re-check depth monotonicity inside
    /// the range: a selection that cuts a subtree can leave a depth jump
    /// of more than one.
    pub fn outdent_range(&mut self, start: usize, end: usize) -> (applied: bool)
        ensures
            final(self).date == old(self).date,
            final(self).file_path == old(self).file_path,
            applied <==> {
                &&& start <= end < old(self).items@.len()
                &&& old(self).items@[start as int].indent_level > 0
            },
            applied ==> {
                &&& final(self).items@ == with_parents(
                    bump_range_down(old(self).items@, start as int, end as int + 1),
                )
                &&& seq_i2(final(self).items@)
                &&& payloads_match(old(self).items@, final(self).items@)
            },
            !applied ==> final(self).items@ == old(self).items@,
    {
        if end < start || end >= self.items.len() {
            return false;
        }
        if self.items[start].indent_level == 0 {
            return false;
        }
        let ghost s0 = self.items@;
        let mut i: usize = start;
        while i <= end
            invariant
                start <= i <= end + 1,
                end < self.items@.len(),
                s0.len() == self.items@.len(),
                forall|k2: int| 0 <= k2 < s0.len() && !(start <= k2 < i) ==> self.items@[k2]
                    == s0[k2],
                forall|k2: int| start <= k2 < i ==> self.items@[k2] == with_indent(
                    s0[k2],
                    crate::model::sat_dec(s0[k2].indent_level),
                ),
                self.date == old(self).date,
                self.file_path == old(self).file_path,
                end < usize::MAX,
            decreases end + 1 - i,
        {
            let cur = self.items[i].indent_level;
            if cur > 0 {
                let mut it = self.items[i].clone();
                it.indent_level = cur - 1;
                self.items.set(i, it);
            } else {
                proof {
                    assert(self.items@[i as int] == with_indent(
                        s0[i as int],
                        crate::model::sat_dec(s0[i as int].indent_level),
                    ));
                }
            }
            i += 1;
        }
        proof {
            assert(self.items@ =~= bump_range_down(s0, start as int, end as int + 1));
            lemma_with_parents_same_shape(self.items@);
        }
        self.recalculate_parent_ids();
        true
    }
}

} // verus!
