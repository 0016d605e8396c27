//! The ordered container: a flat sequence of items plus its calendar date
//! and backing-store location.

use vstd::prelude::*;

use crate::dates::Date;
use crate::errors::TodoError;
use crate::item::TodoItem;
use crate::item::fresh_pending_item;

verus! {

/// The ordered checklist for one calendar date.  Insertion order is the
/// pre-order traversal of the implicit tree; the date and file path are
/// opaque to the structural operations.
#[derive(Debug)]
pub struct TodoList {
    pub date: Date,
    pub items: Vec<TodoItem>,
    pub file_path: String,
}

/// The set of indices marked true.
pub open spec fn marks_of(b: Seq<bool>) -> Set<int> {
    Set::new(|i: int| 0 <= i < b.len() && b[i])
}

/// The highest index before `j` holding the given id, if any: what a map
/// built from the items front to back would answer.
pub open spec fn last_index_of_id(s: Seq<TodoItem>, id: u128, j: int) -> Option<int>
    decreases j,
{
    if j <= 0 {
        None
    } else if s[j - 1].id == id {
        Some(j - 1)
    } else {
        last_index_of_id(s, id, j - 1)
    }
}

pub proof fn lemma_last_index_bounds(s: Seq<TodoItem>, id: u128, j: int)
    requires
        j <= s.len(),
    ensures
        last_index_of_id(s, id, j) matches Some(k) ==> 0 <= k < j,
    decreases j,
{
    if j > 0 && s[j - 1].id != id {
        lemma_last_index_bounds(s, id, j - 1);
    }
}

/// The ancestor chain walked from a parent reference, marking each
/// ancestor found, stopping at a missing parent, an already marked item,
/// or after `fuel` steps (the chain can need at most one step per item).
pub open spec fn climb_marks(s: Seq<TodoItem>, from: Option<u128>, acc: Set<int>, fuel: nat) -> Set<
    int,
>
    decreases fuel,
{
    if fuel == 0 {
        acc
    } else {
        match from {
            None => acc,
            Some(pid) => match last_index_of_id(s, pid, s.len() as int) {
                None => acc,
                Some(k) => if acc.contains(k) {
                    acc
                } else {
                    climb_marks(s, s[k].parent_id, acc.insert(k), (fuel - 1) as nat)
                },
            },
        }
    }
}

/// The indices kept by a rollover: after the first `i` items are
/// processed, every incomplete item seen and all of its ancestors.
pub open spec fn include_marks(s: Seq<TodoItem>, i: int) -> Set<int>
    decreases i,
{
    if i <= 0 {
        Set::empty()
    } else {
        let prev = include_marks(s, i - 1);
        if !s[i - 1].state.spec_is_complete() {
            climb_marks(s, s[i - 1].parent_id, prev.insert(i - 1), s.len())
        } else {
            prev
        }
    }
}

/// The items at marked indices, in order, from `i` on.
pub open spec fn select_marked(s: Seq<TodoItem>, m: Set<int>, i: int) -> Seq<TodoItem>
    decreases s.len() - i,
{
    if i < 0 || i >= s.len() {
        Seq::empty()
    } else if m.contains(i) {
        seq![s[i]] + select_marked(s, m, i + 1)
    } else {
        select_marked(s, m, i + 1)
    }
}

impl Clone for TodoList {
    fn clone(&self) -> (r: Self)
        ensures
            r.date == self.date,
            r.items@ == self.items@,
            r.file_path@ == self.file_path@,
    {
        let mut items: Vec<TodoItem> = Vec::new();
        let mut i: usize = 0;
        while i < self.items.len()
            invariant
                i <= self.items.len(),
                items@ =~= self.items@.subrange(0, i as int),
            decreases self.items.len() - i,
        {
            items.push(self.items[i].clone());
            i += 1;
        }
        proof {
            assert(items@ =~= self.items@);
        }
        TodoList { date: self.date, items, file_path: self.file_path.clone() }
    }
}

impl TodoList {
    /// An empty checklist for the given date and backing file.
    pub fn new(date: Date, file_path: String) -> (r: TodoList)
        ensures
            r.date == date,
            r.items@ == Seq::<TodoItem>::empty(),
            r.file_path == file_path,
    {
        TodoList { date, items: Vec::new(), file_path }
    }

    /// A checklist over an existing item sequence.
    pub fn with_items(date: Date, file_path: String, items: Vec<TodoItem>) -> (r: TodoList)
        ensures
            r.date == date,
            r.items == items,
            r.file_path == file_path,
    {
        TodoList { date, items, file_path }
    }

    /// Appends a fresh root-level item with the given text.
    pub fn add_item(&mut self, content: String)
        ensures
            final(self).items@.len() == old(self).items@.len() + 1,
            final(self).items@.subrange(0, old(self).items@.len() as int) == old(self).items@,
            final(self).items@.last().content == content,
            final(self).items@.last().state is Empty,
            final(self).items@.last().indent_level == 0,
            fresh_pending_item(final(self).items@.last()),
            final(self).date == old(self).date,
            final(self).file_path == old(self).file_path,
    {
        self.items.push(TodoItem::new(content, 0));
        proof {
            assert(final(self).items@.subrange(0, old(self).items@.len() as int) =~= old(
                self,
            ).items@);
        }
    }

    /// Appends a fresh item with the given text and depth.
    pub fn add_item_with_indent(&mut self, content: String, indent_level: usize)
        ensures
            final(self).items@.len() == old(self).items@.len() + 1,
            final(self).items@.subrange(0, old(self).items@.len() as int) == old(self).items@,
            final(self).items@.last().content == content,
            final(self).items@.last().state is Empty,
            final(self).items@.last().indent_level == indent_level,
            fresh_pending_item(final(self).items@.last()),
            final(self).date == old(self).date,
            final(self).file_path == old(self).file_path,
    {
        self.items.push(TodoItem::new(content, indent_level));
        proof {
            assert(final(self).items@.subrange(0, old(self).items@.len() as int) =~= old(
                self,
            ).items@);
        }
    }

    /// Flips the completion state of the item at `index`.
    pub fn toggle_item_state(&mut self, index: usize) -> (r: Result<(), TodoError>)
        ensures
            final(self).date == old(self).date,
            final(self).file_path == old(self).file_path,
            match r {
                Ok(_) => {
                    &&& index < old(self).items@.len()
                    &&& final(self).items@.len() == old(self).items@.len()
                    &&& forall|k: int|
                        0 <= k < old(self).items@.len() && k != index ==> final(self).items@[k]
                            == old(self).items@[k]
                    &&& final(self).items@[index as int].state == old(
                        self,
                    ).items@[index as int].state.toggle_of()
                    &&& old(self).items@[index as int].same_but_state(
                        final(self).items@[index as int],
                    )
                },
                Err(e) => {
                    &&& e is OutOfRange
                    &&& index >= old(self).items@.len()
                    &&& final(self).items@ == old(self).items@
                },
            },
    {
        if index >= self.items.len() {
            return Err(TodoError::OutOfRange);
        }
        let mut it = self.items[index].clone();
        it.toggle_state();
        self.items.set(index, it);
        Ok(())
    }

    /// Removes and returns the item at `index`.
    pub fn remove_item(&mut self, index: usize) -> (r: Result<TodoItem, TodoError>)
        ensures
            final(self).date == old(self).date,
            final(self).file_path == old(self).file_path,
            match r {
                Ok(it) => {
                    &&& index < old(self).items@.len()
                    &&& it == old(self).items@[index as int]
                    &&& final(self).items@ == old(self).items@.remove(index as int)
                },
                Err(e) => {
                    &&& e is OutOfRange
                    &&& index >= old(self).items@.len()
                    &&& final(self).items@ == old(self).items@
                },
            },
    {
        if index >= self.items.len() {
            return Err(TodoError::OutOfRange);
        }
        Ok(self.items.remove(index))
    }

    /// Removes and returns the items of the half-open range `[start, end)`.
    pub fn remove_item_range(&mut self, start: usize, end: usize) -> (r: Result<
        Vec<TodoItem>,
        TodoError,
    >)
        ensures
            final(self).date == old(self).date,
            final(self).file_path == old(self).file_path,
            match r {
                Ok(v) => {
                    &&& start < old(self).items@.len()
                    &&& end <= old(self).items@.len()
                    &&& start < end
                    &&& v@ == old(self).items@.subrange(start as int, end as int)
                    &&& final(self).items@ == old(self).items@.subrange(0, start as int) + old(
                        self,
                    ).items@.subrange(end as int, old(self).items@.len() as int)
                },
                Err(e) => {
                    &&& e is InvalidRange
                    &&& start >= old(self).items@.len() || end > old(self).items@.len() || start
                        >= end
                    &&& final(self).items@ == old(self).items@
                },
            },
    {
        if start >= self.items.len() || end > self.items.len() || start >= end {
            return Err(TodoError::InvalidRange);
        }
        let ghost s0 = self.items@;
        let mut taken: Vec<TodoItem> = Vec::new();
        let mut k: usize = 0;
        let count = end - start;
        while k < count
            invariant
                k <= count,
                count == end - start,
                start < end <= s0.len(),
                self.items@.len() == s0.len() - k,
                taken@ =~= s0.subrange(start as int, start as int + k as int),
                self.items@ =~= s0.subrange(0, start as int) + s0.subrange(
                    start as int + k as int,
                    s0.len() as int,
                ),
                self.date == old(self).date,
                self.file_path == old(self).file_path,
            decreases count - k,
        {
            let it = self.items.remove(start);
            taken.push(it);
            k += 1;
        }
        proof {
            assert(taken@ =~= s0.subrange(start as int, end as int));
            assert(self.items@ =~= s0.subrange(0, start as int) + s0.subrange(
                end as int,
                s0.len() as int,
            ));
        }
        Ok(taken)
    }

    /// Inserts a fresh item with the given text and depth at `index`.
    pub fn insert_item(&mut self, index: usize, content: String, indent_level: usize) -> (r: Result<
        (),
        TodoError,
    >)
        ensures
            final(self).date == old(self).date,
            final(self).file_path == old(self).file_path,
            match r {
                Ok(_) => {
                    &&& index <= old(self).items@.len()
                    &&& final(self).items@.len() == old(self).items@.len() + 1
                    &&& final(self).items@ == old(self).items@.insert(
                        index as int,
                        final(self).items@[index as int],
                    )
                    &&& final(self).items@[index as int].content == content
                    &&& final(self).items@[index as int].indent_level == indent_level
                    &&& final(self).items@[index as int].state is Empty
                    &&& fresh_pending_item(final(self).items@[index as int])
                },
                Err(e) => {
                    &&& e is OutOfRange
                    &&& index > old(self).items@.len()
                    &&& final(self).items@ == old(self).items@
                },
            },
    {
        if index > self.items.len() {
            return Err(TodoError::OutOfRange);
        }
        let it = TodoItem::new(content, indent_level);
        self.items.insert(index, it);
        proof {
            assert(final(self).items@ =~= old(self).items@.insert(
                index as int,
                final(self).items@[index as int],
            ));
        }
        Ok(())
    }

    /// The incomplete items together with every ancestor of an incomplete
    /// item, in their original order: what rolls over to the next day.
    pub fn get_incomplete_items(&self) -> (r: Vec<TodoItem>)
        ensures
            r@ == select_marked(
                self.items@,
                include_marks(self.items@, self.items@.len() as int),
                0,
            ),
    {
        let ghost s = self.items@;
        let n = self.items.len();
        let mut inc: Vec<bool> = Vec::new();
        let mut z: usize = 0;
        while z < n
            invariant
                z <= n,
                inc@.len() == z,
                forall|k: int| 0 <= k < z ==> !inc@[k],
            decreases n - z,
        {
            inc.push(false);
            z += 1;
        }
        proof {
            assert(marks_of(inc@) =~= include_marks(s, 0));
        }
        let mut i: usize = 0;
        while i < n
            invariant
                i <= n,
                n == s.len(),
                self.items@ == s,
                inc@.len() == n,
                marks_of(inc@) == include_marks(s, i as int),
            decreases n - i,
        {
            if !self.items[i].is_complete() {
                let ghost acc0 = marks_of(inc@).insert(i as int);
                inc.set(i, true);
                proof {
                    assert(marks_of(inc@) =~= acc0);
                }
                let mut cur: Option<u128> = self.items[i].parent_id;
                let mut fuel: usize = n;
                while fuel > 0
                    invariant_except_break
                        n == s.len(),
                        self.items@ == s,
                        inc@.len() == n,
                        fuel <= n,
                        climb_marks(s, cur, marks_of(inc@), fuel as nat) == climb_marks(
                            s,
                            s[i as int].parent_id,
                            acc0,
                            n as nat,
                        ),
                    ensures
                        marks_of(inc@) == climb_marks(s, s[i as int].parent_id, acc0, n as nat),
                        inc@.len() == n,
                        self.items@ == s,
                    decreases fuel,
                {
                    let ghost fuel0 = fuel as nat;
                    match cur {
                        None => {
                            proof {
                                assert(climb_marks(s, cur, marks_of(inc@), fuel0) == marks_of(
                                    inc@,
                                ));
                            }
                            break ;
                        },
                        Some(pid) => {
                            match self.find_last_index_of_id(pid, Ghost(s)) {
                                None => {
                                    proof {
                                        assert(last_index_of_id(s, pid, s.len() as int) is None);
                                        assert(climb_marks(s, cur, marks_of(inc@), fuel0)
                                            == marks_of(inc@));
                                    }
                                    break ;
                                },
                                Some(k) => {
                                    proof {
                                        lemma_last_index_bounds(s, pid, s.len() as int);
                                        assert(last_index_of_id(s, pid, s.len() as int) == Some(
                                            k as int,
                                        ));
                                    }
                                    if inc[k] {
                                        proof {
                                            assert(marks_of(inc@).contains(k as int));
                                            assert(climb_marks(s, cur, marks_of(inc@), fuel0)
                                                == marks_of(inc@));
                                        }
                                        break ;
                                    }
                                    let ghost before = marks_of(inc@);
                                    proof {
                                        assert(!before.contains(k as int));
                                        assert(climb_marks(s, cur, before, fuel0) == climb_marks(
                                            s,
                                            s[k as int].parent_id,
                                            before.insert(k as int),
                                            (fuel0 - 1) as nat,
                                        ));
                                    }
                                    inc.set(k, true);
                                    proof {
                                        assert(marks_of(inc@) =~= before.insert(k as int));
                                    }
                                    cur = self.items[k].parent_id;
                                    fuel -= 1;
                                },
                            }
                        },
                    }
                }
                proof {
                    assert(marks_of(inc@) == include_marks(s, i as int + 1));
                }
            }
            i += 1;
        }
        let ghost marks = marks_of(inc@);
        let mut out: Vec<TodoItem> = Vec::new();
        let mut k: usize = 0;
        while k < n
            invariant
                k <= n,
                n == s.len(),
                self.items@ == s,
                inc@.len() == n,
                marks == marks_of(inc@),
                select_marked(s, marks, 0) == out@ + select_marked(s, marks, k as int),
            decreases n - k,
        {
            if inc[k] {
                let ghost out0 = out@;
                out.push(self.items[k].clone());
                proof {
                    assert(select_marked(s, marks, k as int) == seq![s[k as int]] + select_marked(
                        s,
                        marks,
                        k as int + 1,
                    ));
                    assert(out@ + select_marked(s, marks, k as int + 1) =~= out0 + (seq![
                        s[k as int],
                    ] + select_marked(s, marks, k as int + 1)));
                }
            } else {
                proof {
                    assert(select_marked(s, marks, k as int) == select_marked(
                        s,
                        marks,
                        k as int + 1,
                    ));
                }
            }
            k += 1;
        }
        proof {
            assert(select_marked(s, marks, n as int) =~= Seq::<TodoItem>::empty());
            assert(out@ =~= select_marked(s, marks, 0));
        }
        out
    }

    /// The highest index holding the given id, if any; mirrors a lookup in
    /// a map built from the items front to back.
    fn find_last_index_of_id(&self, id: u128, Ghost(s): Ghost<Seq<TodoItem>>) -> (r: Option<usize>)
        requires
            self.items@ == s,
        ensures
            r == match last_index_of_id(s, id, s.len() as int) {
                Some(k) => Some(k as usize),
                None => None::<usize>,
            },
            r matches Some(k) ==> k < s.len(),
    {
        proof {
            lemma_last_index_bounds(s, id, s.len() as int);
        }
        let mut j: usize = self.items.len();
        while j > 0
            invariant
                j <= s.len(),
                self.items@ == s,
                last_index_of_id(s, id, s.len() as int) == last_index_of_id(s, id, j as int),
            decreases j,
        {
            if self.items[j - 1].id == id {
                return Some(j - 1);
            }
            j -= 1;
        }
        None
    }

    /// Whether the checklist holds no items.
    pub fn is_empty(&self) -> (b: bool)
        ensures
            b == (self.items@.len() == 0),
    {
        self.items.is_empty()
    }

    /// The number of items.
    pub fn len(&self) -> (n: usize)
        ensures
            n == self.items@.len(),
    {
        self.items.len()
    }
}

} // verus!
