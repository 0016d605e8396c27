//! The mathematical model of the flat-tree encoding.
//!
//! A checklist is a sequence of items; the tree is implicit in the
//! `indent_level` of each item.  The spec functions here define the three
//! structural invariants and the derived notions (subtree span, parent
//! reference) that the executable operations are specified against.

use vstd::prelude::*;

use vstd::seq_lib::lemma_multiset_commutative;

use crate::item::TodoItem;
use crate::state::TodoState;

verus! {

/// The identity-bearing part of an item — id, text and completion state —
/// which no structural operation may change.
pub open spec fn ident_of(it: TodoItem) -> (u128, Seq<char>, TodoState) {
    (it.id, it.content@, it.state)
}

/// The identities of a whole sequence, in order.
pub open spec fn ident_trace(s: Seq<TodoItem>) -> Seq<(u128, Seq<char>, TodoState)> {
    s.map_values(|it: TodoItem| ident_of(it))
}

/// Indentation monotonicity: no item is nested more than one level below
/// its immediate predecessor.
pub open spec fn seq_i1(s: Seq<TodoItem>) -> bool {
    forall|i: int|
        0 < i < s.len() ==> #[trigger] s[i].indent_level <= s[i - 1].indent_level + 1
}

/// A non-empty list opens with a root-level item.
pub open spec fn first_at_root(s: Seq<TodoItem>) -> bool {
    s.len() > 0 ==> s[0].indent_level == 0
}

/// The well-formed depth profiles: monotone and anchored at depth zero.
pub open spec fn wf_indents(s: Seq<TodoItem>) -> bool {
    seq_i1(s) && first_at_root(s)
}

/// First position at or after `e` whose depth is at most `base`
/// (the length of the sequence if there is none).
pub open spec fn span_end(s: Seq<TodoItem>, base: nat, e: int) -> int
    decreases s.len() - e,
{
    if e < 0 || e >= s.len() {
        s.len() as int
    } else if s[e].indent_level <= base {
        e
    } else {
        span_end(s, base, e + 1)
    }
}

/// One past the last descendant of the item at `i`: the end of the maximal
/// contiguous run of strictly deeper items that follows it.
pub open spec fn subtree_end(s: Seq<TodoItem>, i: int) -> int {
    span_end(s, s[i].indent_level as nat, i + 1)
}

/// Index of the nearest item before `j` that is strictly shallower than the
/// item at `i`, if any.
pub open spec fn parent_index(s: Seq<TodoItem>, i: int, j: int) -> Option<int>
    decreases j,
{
    if j <= 0 {
        None
    } else if s[j - 1].indent_level < s[i].indent_level {
        Some(j - 1)
    } else {
        parent_index(s, i, j - 1)
    }
}

/// The derived parent reference of the item at `i`: the id of the nearest
/// preceding strictly shallower item, or `None` at depth zero.
pub open spec fn parent_id_spec(s: Seq<TodoItem>, i: int) -> Option<u128> {
    if s[i].indent_level == 0 {
        None
    } else {
        match parent_index(s, i, i) {
            Some(j) => Some(s[j].id),
            None => None,
        }
    }
}

/// `it` with its parent reference replaced.
pub open spec fn with_parent(it: TodoItem, p: Option<u128>) -> TodoItem {
    TodoItem { parent_id: p, ..it }
}

/// `it` with its depth replaced.
pub open spec fn with_indent(it: TodoItem, d: usize) -> TodoItem {
    TodoItem { indent_level: d, ..it }
}

/// The sequence with every parent reference recomputed from the depths.
pub open spec fn with_parents(s: Seq<TodoItem>) -> Seq<TodoItem> {
    Seq::new(s.len(), |i: int| with_parent(s[i], parent_id_spec(s, i)))
}

/// Parent consistency: every stored parent reference matches the derived one.
pub open spec fn seq_i2(s: Seq<TodoItem>) -> bool {
    forall|i: int| 0 <= i < s.len() ==> #[trigger] s[i].parent_id == parent_id_spec(s, i)
}

/// Two sequences with the same length, depths and ids at every position;
/// such sequences derive the same structure.
pub open spec fn same_shape(s1: Seq<TodoItem>, s2: Seq<TodoItem>) -> bool {
    &&& s1.len() == s2.len()
    &&& forall|i: int|
        0 <= i < s1.len() ==> #[trigger] s1[i].indent_level == s2[i].indent_level && s1[i].id
            == s2[i].id
}

/// Everything but depth, parent reference and position is identical:
/// what the structural operations must never touch.
pub open spec fn same_payload(a: TodoItem, b: TodoItem) -> bool {
    &&& a.id == b.id
    &&& a.content == b.content
    &&& a.state == b.state
    &&& a.due_date == b.due_date
    &&& a.description == b.description
    &&& a.collapsed == b.collapsed
    &&& a.created_at == b.created_at
    &&& a.modified_at == b.modified_at
    &&& a.completed_at == b.completed_at
    &&& a.deleted_at == b.deleted_at
}

/// Pointwise payload preservation of a whole sequence.
pub open spec fn payloads_match(s1: Seq<TodoItem>, s2: Seq<TodoItem>) -> bool {
    s1.len() == s2.len() && forall|i: int|
        0 <= i < s1.len() ==> #[trigger] same_payload(s1[i], s2[i])
}

pub proof fn lemma_span_end_bounds(s: Seq<TodoItem>, base: nat, e: int)
    requires
        0 <= e <= s.len(),
    ensures
        e <= span_end(s, base, e) <= s.len(),
        forall|k: int| e <= k < span_end(s, base, e) ==> #[trigger] s[k].indent_level > base,
        span_end(s, base, e) < s.len() ==> s[span_end(s, base, e)].indent_level <= base,
    decreases s.len() - e,
{
    if e < s.len() && s[e].indent_level > base {
        lemma_span_end_bounds(s, base, e + 1);
    }
}

pub proof fn lemma_parent_index_same_shape(s1: Seq<TodoItem>, s2: Seq<TodoItem>, i: int, j: int)
    requires
        same_shape(s1, s2),
        0 <= i < s1.len(),
        j <= s1.len(),
    ensures
        parent_index(s1, i, j) == parent_index(s2, i, j),
    decreases j,
{
    if j > 0 && !(s1[j - 1].indent_level < s1[i].indent_level) {
        lemma_parent_index_same_shape(s1, s2, i, j - 1);
    }
}

pub proof fn lemma_parent_index_bounds(s: Seq<TodoItem>, i: int, j: int)
    requires
        0 <= i < s.len(),
        j <= s.len(),
    ensures
        parent_index(s, i, j) matches Some(p) ==> 0 <= p < j && s[p].indent_level
            < s[i].indent_level,
    decreases j,
{
    if j > 0 && !(s[j - 1].indent_level < s[i].indent_level) {
        lemma_parent_index_bounds(s, i, j - 1);
    }
}

pub proof fn lemma_parent_id_same_shape(s1: Seq<TodoItem>, s2: Seq<TodoItem>, i: int)
    requires
        same_shape(s1, s2),
        0 <= i < s1.len(),
    ensures
        parent_id_spec(s1, i) == parent_id_spec(s2, i),
{
    lemma_parent_index_same_shape(s1, s2, i, i);
    lemma_parent_index_bounds(s1, i, i);
}

pub proof fn lemma_with_parents_same_shape(s: Seq<TodoItem>)
    ensures
        same_shape(s, with_parents(s)),
        payloads_match(s, with_parents(s)),
{
}

/// Recomputing parent references establishes parent consistency.
pub proof fn lemma_with_parents_i2(s: Seq<TodoItem>)
    ensures
        seq_i2(with_parents(s)),
{
    let t = with_parents(s);
    assert forall|i: int| 0 <= i < t.len() implies #[trigger] t[i].parent_id == parent_id_spec(
        t,
        i,
    ) by {
        lemma_with_parents_same_shape(s);
        lemma_parent_id_same_shape(s, t, i);
    }
}

/// Recomputing parent references is idempotent, and ignores whatever parent
/// references were stored before.
pub proof fn lemma_with_parents_only_shape(s1: Seq<TodoItem>, s2: Seq<TodoItem>)
    requires
        same_shape(s1, s2),
        payloads_match(s1, s2),
        forall|i: int| 0 <= i < s1.len() ==> #[trigger] same_except_parent(s1[i], s2[i]),
    ensures
        with_parents(s1) == with_parents(s2),
{
    assert forall|i: int| 0 <= i < s1.len() implies with_parents(s1)[i] == with_parents(s2)[i] by {
        lemma_parent_id_same_shape(s1, s2, i);
        assert(same_except_parent(s1[i], s2[i]));
        let p = parent_id_spec(s1, i);
        assert(with_parent(s1[i], p) == with_parent(with_parent(s1[i], None), p));
        assert(with_parent(s2[i], p) == with_parent(with_parent(s2[i], None), p));
    }
    assert(with_parents(s1) =~= with_parents(s2));
}

/// Identical in every field except possibly the parent reference.
pub open spec fn same_except_parent(a: TodoItem, b: TodoItem) -> bool {
    with_parent(a, None) == with_parent(b, None)
}

/// Saturating decrement of a depth.
pub open spec fn sat_dec(d: usize) -> usize {
    if d > 0 {
        (d - 1) as usize
    } else {
        0
    }
}

/// Saturating subtraction of depths.
pub open spec fn sat_sub(a: usize, b: usize) -> usize {
    if a >= b {
        (a - b) as usize
    } else {
        0
    }
}

/// Every item of `[lo, hi)` one level deeper; everything else untouched.
pub open spec fn bump_range_up(s: Seq<TodoItem>, lo: int, hi: int) -> Seq<TodoItem> {
    Seq::new(
        s.len(),
        |i: int|
            if lo <= i < hi {
                with_indent(s[i], (s[i].indent_level + 1) as usize)
            } else {
                s[i]
            },
    )
}

/// Every item of `[lo, hi)` one level shallower, saturating at the root;
/// everything else untouched.
pub open spec fn bump_range_down(s: Seq<TodoItem>, lo: int, hi: int) -> Seq<TodoItem> {
    Seq::new(
        s.len(),
        |i: int|
            if lo <= i < hi {
                with_indent(s[i], sat_dec(s[i].indent_level))
            } else {
                s[i]
            },
    )
}

/// Every item `d` levels shallower, saturating at the root.
pub open spec fn shallower_by(s: Seq<TodoItem>, d: usize) -> Seq<TodoItem> {
    Seq::new(s.len(), |i: int| with_indent(s[i], sat_sub(s[i].indent_level, d)))
}

/// Indenting an admissibly rooted range keeps depth monotonicity.
pub proof fn lemma_i1_bump_up(s: Seq<TodoItem>, lo: int, hi: int)
    requires
        seq_i1(s),
        0 < lo <= hi <= s.len(),
        s[lo].indent_level <= s[lo - 1].indent_level,
        forall|k: int| lo <= k < hi ==> #[trigger] s[k].indent_level < usize::MAX,
    ensures
        seq_i1(bump_range_up(s, lo, hi)),
        first_at_root(s) ==> first_at_root(bump_range_up(s, lo, hi)),
{
}

/// Outdenting a range whose end sits at a block boundary keeps depth
/// monotonicity.  (An arbitrary range need not: outdenting an item while
/// leaving a deeper successor in place can open a depth jump of two.)
pub proof fn lemma_i1_bump_down_boundary(s: Seq<TodoItem>, lo: int, hi: int)
    requires
        seq_i1(s),
        0 <= lo < hi <= s.len(),
        hi < s.len() ==> s[hi].indent_level <= s[hi - 1].indent_level || s[hi - 1].indent_level
            == 0,
    ensures
        seq_i1(bump_range_down(s, lo, hi)),
        first_at_root(s) ==> first_at_root(bump_range_down(s, lo, hi)),
{
}

/// A leaf's span is just itself: when nothing deeper follows the item at
/// `i`, its subtree is the single position `i`, so the span is `[i, i+1)`.
pub proof fn lemma_subtree_range_leaf(s: Seq<TodoItem>, i: int)
    requires
        0 <= i < s.len(),
        i + 1 == s.len() || s[i + 1].indent_level <= s[i].indent_level,
    ensures
        subtree_end(s, i) == i + 1,
{
}

/// Nearest position at or before `t` whose depth is at most `c`
/// (position zero if there is none).
pub open spec fn back_target(s: Seq<TodoItem>, c: nat, t: int) -> int
    decreases t,
{
    if t <= 0 {
        0
    } else if s[t].indent_level <= c {
        t
    } else {
        back_target(s, c, t - 1)
    }
}

pub proof fn lemma_back_target_props(s: Seq<TodoItem>, c: nat, t: int)
    requires
        0 <= t < s.len(),
    ensures
        0 <= back_target(s, c, t) <= t,
        back_target(s, c, t) > 0 ==> s[back_target(s, c, t)].indent_level <= c,
        forall|k: int| back_target(s, c, t) < k <= t ==> #[trigger] s[k].indent_level > c,
    decreases t,
{
    if t > 0 && s[t].indent_level > c {
        lemma_back_target_props(s, c, t - 1);
    }
}

/// How far the relocated block's depths are uniformly reduced when its new
/// predecessor is shallower than its old one allowed: the overflow of the
/// root's depth over `limit + 1`, where `limit` is the depth of the item
/// that will precede the block (`-1` when the block lands at the front).
pub open spec fn clamp_amount(c: nat, limit: int) -> usize {
    if c > limit + 1 {
        (c - limit - 1) as usize
    } else {
        0
    }
}

/// The relocation of a subtree past its preceding sibling-level block:
/// the sequence before parent recomputation.
pub open spec fn move_up_seq(s: Seq<TodoItem>, index: int) -> Seq<TodoItem> {
    let c = s[index].indent_level as nat;
    let ie = subtree_end(s, index);
    let ts = back_target(s, c, index - 1);
    let limit: int = if ts == 0 {
        -1
    } else {
        s[ts - 1].indent_level as int
    };
    let d = clamp_amount(c, limit);
    s.subrange(0, ts) + shallower_by(s.subrange(index, ie), d) + s.subrange(ts, index)
        + s.subrange(ie, s.len() as int)
}

/// How far the relocated subtree's start moves in `move_up`.
pub open spec fn move_up_disp(s: Seq<TodoItem>, index: int) -> int {
    index - back_target(s, s[index].indent_level as nat, index - 1)
}

/// Where the subtree relocated by `move_down` is inserted, measured in the
/// original sequence: one past the following item when that item is
/// shallower than the moving root, else the end of the following item's
/// subtree.
pub open spec fn down_insert_pos(s: Seq<TodoItem>, index: int) -> int {
    let ie = subtree_end(s, index);
    if s[index].indent_level > s[ie].indent_level {
        ie + 1
    } else {
        subtree_end(s, ie)
    }
}

/// The relocation of a subtree past its following sibling-level block:
/// the sequence before parent recomputation.
pub open spec fn move_down_seq(s: Seq<TodoItem>, index: int) -> Seq<TodoItem> {
    let c = s[index].indent_level as nat;
    let ie = subtree_end(s, index);
    let ip = down_insert_pos(s, index);
    let d = clamp_amount(c, s[ip - 1].indent_level as int);
    s.subrange(0, index) + s.subrange(ie, ip) + shallower_by(s.subrange(index, ie), d)
        + s.subrange(ip, s.len() as int)
}

/// How far the relocated subtree's start moves in `move_down`.
pub open spec fn move_down_disp(s: Seq<TodoItem>, index: int) -> int {
    down_insert_pos(s, index) - subtree_end(s, index)
}

/// Outdenting a whole subtree, saturating at the root, keeps depth
/// monotonicity.
pub proof fn lemma_i1_bump_down_subtree(s: Seq<TodoItem>, lo: int, hi: int)
    requires
        seq_i1(s),
        0 <= lo < hi <= s.len(),
        hi == subtree_end(s, lo),
    ensures
        seq_i1(bump_range_down(s, lo, hi)),
        s[lo].indent_level > 0 && first_at_root(s) ==> first_at_root(bump_range_down(s, lo, hi)),
{
    lemma_span_end_bounds(s, s[lo].indent_level as nat, lo + 1);
    let t = bump_range_down(s, lo, hi);
    assert forall|i: int| 0 < i < t.len() implies #[trigger] t[i].indent_level <= t[i
        - 1].indent_level + 1 by {
        if i == hi {
            assert(s[hi - 1].indent_level > s[lo].indent_level || hi - 1 == lo);
        }
    }
}

/// Sequences of the same shape satisfy the same depth invariants.
pub proof fn lemma_wf_same_shape(s1: Seq<TodoItem>, s2: Seq<TodoItem>)
    requires
        same_shape(s1, s2),
    ensures
        seq_i1(s1) == seq_i1(s2),
        first_at_root(s1) == first_at_root(s2),
{
    if seq_i1(s1) {
        assert forall|i: int| 0 < i < s2.len() implies #[trigger] s2[i].indent_level <= s2[i
            - 1].indent_level + 1 by {
            assert(s1[i].indent_level <= s1[i - 1].indent_level + 1);
        }
    }
    if seq_i1(s2) {
        assert forall|i: int| 0 < i < s1.len() implies #[trigger] s1[i].indent_level <= s1[i
            - 1].indent_level + 1 by {
            assert(s2[i].indent_level <= s2[i - 1].indent_level + 1);
        }
    }
}

/// Relocating a subtree upward keeps the depth profile well formed.
/// Concatenation keeps depth monotonicity when both halves have it and
/// the junction pair does.
pub proof fn lemma_i1_concat(x: Seq<TodoItem>, y: Seq<TodoItem>)
    requires
        seq_i1(x),
        seq_i1(y),
        x.len() > 0 && y.len() > 0 ==> y[0].indent_level <= x.last().indent_level + 1,
    ensures
        seq_i1(x + y),
{
    let z = x + y;
    assert forall|i: int| 0 < i < z.len() implies #[trigger] z[i].indent_level <= z[i
        - 1].indent_level + 1 by {
        if i < x.len() {
            assert(z[i] == x[i] && z[i - 1] == x[i - 1]);
        } else if i == x.len() {
            assert(z[i] == y[0] && z[i - 1] == x.last());
        } else {
            assert(z[i] == y[i - x.len()] && z[i - 1] == y[i - x.len() - 1]);
        }
    }
}

#[verifier::rlimit(90)]
#[verifier::spinoff_prover]
pub proof fn lemma_wf_move_up(s: Seq<TodoItem>, index: int)
    requires
        wf_indents(s),
        0 < index < s.len(),
    ensures
        wf_indents(move_up_seq(s, index)),
{
    let c = s[index].indent_level as nat;
    let ie = subtree_end(s, index);
    let ts = back_target(s, c, index - 1);
    let limit: int = if ts == 0 {
        -1int
    } else {
        s[ts - 1].indent_level as int
    };
    let d = clamp_amount(c, limit);
    let pa = s.subrange(0, ts);
    let moved = shallower_by(s.subrange(index, ie), d);
    let pc = s.subrange(ts, index);
    let pd = s.subrange(ie, s.len() as int);
    let bl = ie - index;
    lemma_span_end_bounds(s, c, index + 1);
    lemma_back_target_props(s, c, index - 1);
    assert(d <= c);
    assert(moved.len() == bl && bl >= 1);
    assert(pc.len() == index - ts && index - ts >= 1);
    assert(forall|j: int|
        0 <= j < bl ==> #[trigger] moved[j].indent_level == s[index + j].indent_level - d);
    assert(forall|j: int| 0 < j < bl ==> #[trigger] s[index + j].indent_level > c);
    assert(seq_i1(pa));
    assert(seq_i1(pc));
    assert(seq_i1(pd));
    assert(seq_i1(moved));
    // junction into the moved block
    assert(pa.len() > 0 ==> moved[0].indent_level <= pa.last().indent_level + 1) by {
        if ts > 0 {
            assert(pa.last() == s[ts - 1]);
            assert(moved[0].indent_level == c - d <= limit + 1);
        }
    }
    lemma_i1_concat(pa, moved);
    // junction from the moved block onto the old preceding block
    assert(pc[0].indent_level <= (pa + moved).last().indent_level + 1) by {
        assert((pa + moved).last() == moved[bl - 1]);
        assert(moved[bl - 1].indent_level >= c - d);
        assert(pc[0] == s[ts]);
        if ts == 0 {
            assert(s[0].indent_level == 0);
        } else if d > 0 {
            assert(c - d == limit + 1);
            assert(s[ts].indent_level <= s[ts - 1].indent_level + 1);
        } else {
            assert(s[ts].indent_level <= c);
        }
    }
    lemma_i1_concat(pa + moved, pc);
    // junction onto the old subtree successor
    assert(pd.len() > 0 ==> pd[0].indent_level <= (pa + moved + pc).last().indent_level + 1) by {
        if pd.len() > 0 {
            assert(pd[0] == s[ie]);
            assert((pa + moved + pc).last() == s[index - 1]);
            assert(s[ie].indent_level <= c);
            if index - 1 == ts {
                assert(c <= s[ts].indent_level + 1);
            } else {
                assert(s[index - 1].indent_level > c);
            }
        }
    }
    lemma_i1_concat(pa + moved + pc, pd);
    assert(move_up_seq(s, index) =~= pa + moved + pc + pd);
    let res = move_up_seq(s, index);
    assert(seq_i1(res));
    assert(res.len() == s.len());
    if ts == 0 {
        assert(res[0] == moved[0]);
        assert(moved[0].indent_level == c - d);
        assert(c > 0 ==> d == c);
    } else {
        assert(res[0] == s[0]);
    }
}

/// Relocating a subtree downward keeps the depth profile well formed.
#[verifier::rlimit(90)]
#[verifier::spinoff_prover]
pub proof fn lemma_wf_move_down(s: Seq<TodoItem>, index: int)
    requires
        wf_indents(s),
        0 <= index < s.len(),
        subtree_end(s, index) < s.len(),
    ensures
        wf_indents(move_down_seq(s, index)),
{
    let c = s[index].indent_level as nat;
    let ie = subtree_end(s, index);
    let ip = down_insert_pos(s, index);
    let d = clamp_amount(c, s[ip - 1].indent_level as int);
    let moved = shallower_by(s.subrange(index, ie), d);
    let t = move_down_seq(s, index);
    let bl = ie - index;
    let gap = ip - ie;
    lemma_span_end_bounds(s, c, index + 1);
    let tind = s[ie].indent_level;
    if !(c > tind) {
        lemma_span_end_bounds(s, tind as nat, ie + 1);
    }
    assert(tind <= c);
    assert(ie < ip <= s.len());
    assert(d <= c);
    assert(moved.len() == bl);
    assert(t.len() == s.len());
    assert(forall|j: int|
        0 <= j < bl ==> #[trigger] moved[j].indent_level == s[index + j].indent_level - d);
    assert(forall|j: int| 0 < j < bl ==> #[trigger] s[index + j].indent_level > c);
    // where each item of the result comes from
    assert forall|i: int| 0 <= i < index implies #[trigger] t[i] == s[i] by {}
    assert forall|i: int| index <= i < index + gap implies #[trigger] t[i] == s[ie + (i - index)] by {}
    assert forall|i: int| index + gap <= i < index + gap + bl implies #[trigger] t[i] == moved[i
        - index - gap] by {}
    assert forall|i: int| ip <= i < s.len() implies #[trigger] t[i] == s[i] by {}
    assert forall|i: int| 0 < i < t.len() implies #[trigger] t[i].indent_level <= t[i
        - 1].indent_level + 1 by {
        if i < index {
        } else if i == index {
            assert(t[i] == s[ie]);
            assert(t[i - 1] == s[index - 1]);
            assert(c <= s[index - 1].indent_level + 1);
        } else if i > index && i < index + gap {
            assert(t[i] == s[ie + (i - index)]);
            assert(t[i - 1] == s[ie + (i - index) - 1]);
        } else if i == index + gap {
            assert(t[i] == moved[0]);
            assert(t[i - 1] == s[ip - 1]);
            assert(moved[0].indent_level == c - d <= s[ip - 1].indent_level + 1);
        } else if i > index + gap && i < index + gap + bl {
            assert(t[i] == moved[i - index - gap]);
            assert(t[i - 1] == moved[i - index - gap - 1]);
            assert(s[index + (i - index - gap)].indent_level <= s[index + (i - index - gap)
                - 1].indent_level + 1);
        } else if i == index + gap + bl {
            assert(t[i] == s[ip]);
            assert(t[i - 1] == moved[bl - 1]);
            assert(moved[bl - 1].indent_level >= c - d);
            if c > tind {
                assert(ip == ie + 1);
                assert(s[ip].indent_level <= s[ie].indent_level + 1);
                assert(c - d >= tind + 1);
            } else {
                assert(c == tind);
                assert(s[ip].indent_level <= tind);
                assert(d == 0);
            }
        } else {
        }
    }
    if index == 0 {
        assert(t[0] == s[ie]);
        assert(s[ie].indent_level <= c && c == 0);
    } else {
        assert(t[0] == s[0]);
    }
}

/// A span scan lands exactly where the depth profile says it must.
pub proof fn lemma_span_end_characterize(s: Seq<TodoItem>, base: nat, e: int, x: int)
    requires
        0 <= e <= x <= s.len(),
        forall|k: int| e <= k < x ==> #[trigger] s[k].indent_level > base,
        x < s.len() ==> s[x].indent_level <= base,
    ensures
        span_end(s, base, e) == x,
    decreases x - e,
{
    if e < x {
        lemma_span_end_characterize(s, base, e + 1, x);
    }
}

/// A parent-consistent sequence is a fixed point of recomputation.
pub proof fn lemma_i2_fixpoint(s: Seq<TodoItem>)
    requires
        seq_i2(s),
    ensures
        with_parents(s) == s,
{
    assert forall|i: int| 0 <= i < s.len() implies with_parents(s)[i] == s[i] by {
        assert(s[i].parent_id == parent_id_spec(s, i));
    }
    assert(with_parents(s) =~= s);
}

/// The depth reduction applied by `move_up` at `index`.
pub open spec fn up_clamp_of(s: Seq<TodoItem>, index: int) -> usize {
    let c = s[index].indent_level as nat;
    let ts = back_target(s, c, index - 1);
    let limit: int = if ts == 0 {
        -1int
    } else {
        s[ts - 1].indent_level as int
    };
    clamp_amount(c, limit)
}

/// Recomputing parent references never touches an identity.
pub proof fn lemma_ident_with_parents(s: Seq<TodoItem>)
    ensures
        ident_trace(with_parents(s)) =~= ident_trace(s),
{
}

/// Relocating a subtree upward permutes the identities and changes none.
pub proof fn lemma_move_up_identity(s: Seq<TodoItem>, index: int)
    requires
        0 < index < s.len(),
    ensures
        ident_trace(move_up_seq(s, index)).to_multiset() == ident_trace(s).to_multiset(),
{
    let c = s[index].indent_level as nat;
    let ie = subtree_end(s, index);
    let ts = back_target(s, c, index - 1);
    let limit: int = if ts == 0 {
        -1int
    } else {
        s[ts - 1].indent_level as int
    };
    let d = clamp_amount(c, limit);
    let pa = s.subrange(0, ts);
    let block = s.subrange(index, ie);
    let moved = shallower_by(block, d);
    let pc = s.subrange(ts, index);
    let pd = s.subrange(ie, s.len() as int);
    lemma_span_end_bounds(s, c, index + 1);
    lemma_back_target_props(s, c, index - 1);
    let ta = ident_trace(pa);
    let tb = ident_trace(moved);
    let tc = ident_trace(pc);
    let td = ident_trace(pd);
    assert(tb =~= ident_trace(block));
    assert(ident_trace(move_up_seq(s, index)) =~= ta + tb + tc + td);
    assert(ident_trace(s) =~= ta + tc + ident_trace(block) + td);
    lemma_multiset_commutative(ta + tb + tc, td);
    lemma_multiset_commutative(ta + tb, tc);
    lemma_multiset_commutative(ta, tb);
    lemma_multiset_commutative(ta + tc + tb, td);
    lemma_multiset_commutative(ta + tc, tb);
    lemma_multiset_commutative(ta, tc);
    assert((ta + tb + tc + td).to_multiset() =~= (ta + tc + tb + td).to_multiset());
}

/// Relocating a subtree downward permutes the identities and changes none.
pub proof fn lemma_move_down_identity(s: Seq<TodoItem>, index: int)
    requires
        0 <= index < s.len(),
        subtree_end(s, index) < s.len(),
    ensures
        ident_trace(move_down_seq(s, index)).to_multiset() == ident_trace(s).to_multiset(),
{
    let c = s[index].indent_level as nat;
    let ie = subtree_end(s, index);
    let ip = down_insert_pos(s, index);
    let d = clamp_amount(c, s[ip - 1].indent_level as int);
    let pa = s.subrange(0, index);
    let block = s.subrange(index, ie);
    let moved = shallower_by(block, d);
    let pg = s.subrange(ie, ip);
    let pd = s.subrange(ip, s.len() as int);
    lemma_span_end_bounds(s, c, index + 1);
    if !(s[index].indent_level > s[ie].indent_level) {
        lemma_span_end_bounds(s, s[ie].indent_level as nat, ie + 1);
    }
    let ta = ident_trace(pa);
    let tb = ident_trace(moved);
    let tg = ident_trace(pg);
    let td = ident_trace(pd);
    assert(tb =~= ident_trace(block));
    assert(ident_trace(move_down_seq(s, index)) =~= ta + tg + tb + td);
    assert(ident_trace(s) =~= ta + ident_trace(block) + tg + td);
    lemma_multiset_commutative(ta + tg + tb, td);
    lemma_multiset_commutative(ta + tg, tb);
    lemma_multiset_commutative(ta, tg);
    lemma_multiset_commutative(ta + tb + tg, td);
    lemma_multiset_commutative(ta + tb, tg);
    lemma_multiset_commutative(ta, tb);
    assert((ta + tg + tb + td).to_multiset() =~= (ta + tb + tg + td).to_multiset());
}

/// After an unclamped upward relocation, the moved block is again a whole
/// subtree at its new position, and the downward move from there targets
/// exactly the old position, unclamped.
#[verifier::rlimit(90)]
#[verifier::spinoff_prover]
proof fn lemma_move_up_landing(s: Seq<TodoItem>, index: int)
    requires
        wf_indents(s),
        0 < index < s.len(),
        up_clamp_of(s, index) == 0,
    ensures
        ({
            let c = s[index].indent_level as nat;
            let ie = subtree_end(s, index);
            let ts = back_target(s, c, index - 1);
            let bl = ie - index;
            let s2 = with_parents(move_up_seq(s, index));
            &&& s2.len() == s.len()
            &&& 0 <= ts < s.len()
            &&& subtree_end(s2, ts) == ts + bl
            &&& ts + bl < s.len()
            &&& down_insert_pos(s2, ts) == ie
            &&& clamp_amount(s2[ts].indent_level as nat, s2[ie - 1].indent_level as int) == 0
            &&& move_down_disp(s2, ts) == index - ts
            &&& forall|k: int| 0 <= k < s.len() ==> #[trigger] same_except_parent(
                s2[k],
                s[up_source(s, index, k)],
            )
        }),
{
    let c = s[index].indent_level as nat;
    let ie = subtree_end(s, index);
    let ts = back_target(s, c, index - 1);
    let bl = ie - index;
    let pa = s.subrange(0, ts);
    let block = s.subrange(index, ie);
    let pc = s.subrange(ts, index);
    let pd = s.subrange(ie, s.len() as int);
    let s1 = move_up_seq(s, index);
    let s2 = with_parents(s1);
    lemma_span_end_bounds(s, c, index + 1);
    lemma_back_target_props(s, c, index - 1);
    assert(shallower_by(block, 0) =~= block);
    assert(s1 =~= pa + block + pc + pd);
    lemma_with_parents_same_shape(s1);
    assert forall|k: int| 0 <= k < s.len() implies #[trigger] s1[k] == s[up_source(
        s,
        index,
        k,
    )] by {
        if k < ts {
        } else if k < ts + bl {
            assert(s1[k] == s[index + (k - ts)]);
        } else if k < ie {
            assert(s1[k] == s[k - bl]);
        } else {
            assert(s1[k] == s[k]);
        }
    }
    assert forall|k: int| 0 <= k < s.len() implies #[trigger] same_except_parent(
        s2[k],
        s[up_source(s, index, k)],
    ) by {
        assert(s2[k] == with_parent(s1[k], parent_id_spec(s1, k)));
    }
    assert(s2[ts].indent_level == c);
    assert(forall|k: int| ts < k < ts + bl ==> #[trigger] s2[k].indent_level > c);
    assert(ts + bl < s.len());
    let t = s[ts].indent_level;
    assert(s2[ts + bl].indent_level == t);
    assert(t <= c) by {
        if ts == 0 {
            assert(s[0].indent_level == 0);
        }
    }
    lemma_span_end_characterize(s2, c, ts + 1, ts + bl);
    let ie2 = ts + bl;
    assert(ts + 1 < index ==> t == c) by {
        if ts + 1 < index {
            assert(s[ts + 1].indent_level > c);
            assert(s[ts + 1].indent_level <= s[ts].indent_level + 1);
        }
    }
    assert(down_insert_pos(s2, ts) == ie) by {
        if c > s2[ie2].indent_level {
            assert(ts + 1 == index);
            assert(ie2 + 1 == ie);
        } else {
            assert(t == c);
            assert(forall|k: int| ie2 < k < ie ==> #[trigger] s2[k].indent_level > t);
            assert(ie < s.len() ==> s2[ie].indent_level == s[ie].indent_level <= t);
            lemma_span_end_characterize(s2, t as nat, ie2 + 1, ie);
        }
    }
    assert(s2[ie - 1].indent_level == s[index - 1].indent_level);
    assert(c <= s[index - 1].indent_level + 1);
}

/// Which position of the original sequence the item at `k` of the
/// relocated sequence came from.
pub open spec fn up_source(s: Seq<TodoItem>, index: int, k: int) -> int {
    let ie = subtree_end(s, index);
    let ts = back_target(s, s[index].indent_level as nat, index - 1);
    let bl = ie - index;
    if k < ts {
        k
    } else if k < ts + bl {
        index + (k - ts)
    } else if k < ie {
        k - bl
    } else {
        k
    }
}

/// Moving a block down from `ts` in `u` restores `s`, when `u` is `s`
/// with the block `[index, ie)` parked at `ts` (parent references aside)
/// and the downward move is unclamped.
#[verifier::rlimit(90)]
#[verifier::spinoff_prover]
proof fn lemma_move_down_restores(s: Seq<TodoItem>, u: Seq<TodoItem>, index: int, ie: int)
    requires
        seq_i2(s),
        0 < index < ie <= s.len(),
        u.len() == s.len(),
        ({
            let ts = back_target(s, s[index].indent_level as nat, index - 1);
            let bl = ie - index;
            &&& 0 <= ts < index
            &&& ts + bl < s.len()
            &&& subtree_end(u, ts) == ts + bl
            &&& down_insert_pos(u, ts) == ie
            &&& clamp_amount(u[ts].indent_level as nat, u[ie - 1].indent_level as int) == 0
            &&& forall|k: int| 0 <= k < s.len() ==> #[trigger] same_except_parent(
                u[k],
                s[up_source(s, index, k)],
            )
        }),
        subtree_end(s, index) == ie,
    ensures
        with_parents(
            move_down_seq(u, back_target(s, s[index].indent_level as nat, index - 1)),
        ) == s,
{
    let ts = back_target(s, s[index].indent_level as nat, index - 1);
    let bl = ie - index;
    let ie2 = ts + bl;
    let r1 = move_down_seq(u, ts);
    assert(shallower_by(u.subrange(ts, ie2), 0) =~= u.subrange(ts, ie2));
    assert(r1 =~= u.subrange(0, ts) + u.subrange(ie2, ie) + u.subrange(ts, ie2) + u.subrange(
        ie,
        s.len() as int,
    ));
    assert(r1.len() == s.len());
    assert forall|k: int| 0 <= k < s.len() implies #[trigger] same_except_parent(r1[k], s[k]) by {
        if k < ts {
            assert(r1[k] == u[k]);
            assert(up_source(s, index, k) == k);
        } else if k < index {
            assert(r1[k] == u[ie2 + (k - ts)]);
            assert(up_source(s, index, ie2 + (k - ts)) == k);
        } else if k < ie {
            assert(r1[k] == u[ts + (k - index)]);
            assert(up_source(s, index, ts + (k - index)) == k);
        } else {
            assert(r1[k] == u[k]);
            assert(up_source(s, index, k) == k);
        }
    }
    assert forall|k: int|
        0 <= k < s.len() implies #[trigger] r1[k].indent_level == s[k].indent_level && r1[k].id
        == s[k].id by {
        assert(same_except_parent(r1[k], s[k]));
        assert(with_parent(r1[k], None) == with_parent(s[k], None));
    }
    assert(same_shape(r1, s));
    assert forall|k: int| 0 <= k < s.len() implies #[trigger] same_payload(r1[k], s[k]) by {
        assert(same_except_parent(r1[k], s[k]));
        assert(with_parent(r1[k], None) == with_parent(s[k], None));
    }
    assert(payloads_match(r1, s));
    lemma_with_parents_only_shape(r1, s);
    lemma_i2_fixpoint(s);
}

/// The depth reduction applied by `move_down` at `index`.
pub open spec fn down_clamp_of(s: Seq<TodoItem>, index: int) -> usize {
    clamp_amount(
        s[index].indent_level as nat,
        s[down_insert_pos(s, index) - 1].indent_level as int,
    )
}

/// Which position of the original sequence the item at `k` of the
/// downward-relocated sequence came from.
pub open spec fn down_source(s: Seq<TodoItem>, index: int, k: int) -> int {
    let ie = subtree_end(s, index);
    let ip = down_insert_pos(s, index);
    let gap = ip - ie;
    if k < index {
        k
    } else if k < index + gap {
        ie + (k - index)
    } else if k < ip {
        index + (k - index - gap)
    } else {
        k
    }
}

/// The downward relocation moves each item to its computed source
/// position, parent references aside.
#[verifier::rlimit(90)]
#[verifier::spinoff_prover]
proof fn lemma_move_down_pointwise(s: Seq<TodoItem>, index: int)
    requires
        wf_indents(s),
        0 <= index < s.len(),
        subtree_end(s, index) < s.len(),
        down_clamp_of(s, index) == 0,
    ensures
        with_parents(move_down_seq(s, index)).len() == s.len(),
        forall|k: int| 0 <= k < s.len() ==> #[trigger] same_except_parent(
            with_parents(move_down_seq(s, index))[k],
            s[down_source(s, index, k)],
        ),
{
    let c = s[index].indent_level as nat;
    let ie = subtree_end(s, index);
    let ip = down_insert_pos(s, index);
    let gap = ip - ie;
    let pa = s.subrange(0, index);
    let block = s.subrange(index, ie);
    let pg = s.subrange(ie, ip);
    let pd = s.subrange(ip, s.len() as int);
    let s1 = move_down_seq(s, index);
    let s2 = with_parents(s1);
    lemma_span_end_bounds(s, c, index + 1);
    let tind = s[ie].indent_level;
    if !(c > tind) {
        lemma_span_end_bounds(s, tind as nat, ie + 1);
    }
    assert(tind <= c);
    assert(ie < ip <= s.len());
    assert(shallower_by(block, 0) =~= block);
    assert(s1 =~= pa + pg + block + pd);
    lemma_with_parents_same_shape(s1);
    assert(s2.len() == s.len());
    assert forall|k: int| 0 <= k < s.len() implies #[trigger] s1[k] == s[down_source(
        s,
        index,
        k,
    )] by {
        if k < index {
        } else if k < index + gap {
            assert(s1[k] == s[ie + (k - index)]);
        } else if k < ip {
            assert(s1[k] == s[index + (k - index - gap)]);
        } else {
            assert(s1[k] == s[k]);
        }
    }
    assert forall|k: int| 0 <= k < s.len() implies #[trigger] same_except_parent(
        s2[k],
        s[down_source(s, index, k)],
    ) by {
        assert(s2[k] == with_parent(s1[k], parent_id_spec(s1, k)));
    }
}

/// After an unclamped downward relocation, the moved block is again a
/// whole subtree at its new position, and the upward move from there
/// targets exactly the old position, unclamped.
#[verifier::spinoff_prover]
proof fn lemma_move_down_landing(s: Seq<TodoItem>, index: int)
    requires
        wf_indents(s),
        0 <= index < s.len(),
        subtree_end(s, index) < s.len(),
        down_clamp_of(s, index) == 0,
    ensures
        ({
            let c = s[index].indent_level as nat;
            let ie = subtree_end(s, index);
            let ip = down_insert_pos(s, index);
            let gap = ip - ie;
            let bl = ie - index;
            let j = index + gap;
            let s2 = with_parents(move_down_seq(s, index));
            &&& s2.len() == s.len()
            &&& 0 < j < s.len()
            &&& j + bl <= s.len()
            &&& subtree_end(s2, j) == j + bl
            &&& back_target(s2, s2[j].indent_level as nat, j - 1) == index
            &&& s2[j].indent_level == c
            &&& (index > 0 ==> c <= s2[index - 1].indent_level + 1)
            &&& (index == 0 ==> c == 0)
            &&& forall|k: int| 0 <= k < s.len() ==> #[trigger] same_except_parent(
                s2[k],
                s[down_source(s, index, k)],
            )
        }),
{
    lemma_move_down_pointwise(s, index);
    lemma_down_block_structure(s, with_parents(move_down_seq(s, index)), index);
    let ip = down_insert_pos(s, index);
    let ie = subtree_end(s, index);
    let j = index + (ip - ie);
    let s2 = with_parents(move_down_seq(s, index));
    assert(s2[j].indent_level == s[index].indent_level as nat);
}

/// In any sequence that holds the original items rearranged by the
/// downward relocation (parent references aside), the moved block is a
/// whole subtree at its new position and the backward scan from it stops
/// at the old position.
proof fn lemma_down_block_structure(s: Seq<TodoItem>, u: Seq<TodoItem>, index: int)
    requires
        wf_indents(s),
        0 <= index < s.len(),
        subtree_end(s, index) < s.len(),
        down_clamp_of(s, index) == 0,
        u.len() == s.len(),
        forall|k: int| 0 <= k < s.len() ==> #[trigger] same_except_parent(
            u[k],
            s[down_source(s, index, k)],
        ),
    ensures
        ({
            let c = s[index].indent_level as nat;
            let ie = subtree_end(s, index);
            let ip = down_insert_pos(s, index);
            let gap = ip - ie;
            let bl = ie - index;
            let j = index + gap;
            &&& 0 < j < s.len()
            &&& j + bl <= s.len()
            &&& subtree_end(u, j) == j + bl
            &&& u[j].indent_level == c
            &&& back_target(u, c, j - 1) == index
            &&& (index > 0 ==> c <= u[index - 1].indent_level + 1)
            &&& (index == 0 ==> c == 0)
        }),
{
    let c = s[index].indent_level as nat;
    let ie = subtree_end(s, index);
    let ip = down_insert_pos(s, index);
    let gap = ip - ie;
    let bl = ie - index;
    let j = index + gap;
    lemma_span_end_bounds(s, c, index + 1);
    let tind = s[ie].indent_level;
    if !(c > tind) {
        lemma_span_end_bounds(s, tind as nat, ie + 1);
    }
    assert(tind <= c);
    assert(ie < ip <= s.len());
    assert forall|k: int|
        0 <= k < s.len() implies #[trigger] u[k].indent_level == s[down_source(
        s,
        index,
        k,
    )].indent_level by {
        assert(same_except_parent(u[k], s[down_source(s, index, k)]));
        assert(with_parent(u[k], None) == with_parent(s[down_source(s, index, k)], None));
    }
    assert(down_source(s, index, j) == index);
    assert(u[j].indent_level == c);
    assert forall|k: int| j < k < j + bl implies #[trigger] u[k].indent_level > c by {
        assert(down_source(s, index, k) == k - gap);
        assert(index < k - gap < ie);
    }
    if j + bl < s.len() {
        assert(down_source(s, index, j + bl) == j + bl);
        if c > tind {
            assert(ip == ie + 1);
            assert(s[ip].indent_level <= s[ie].indent_level + 1);
        } else {
            assert(s[ip].indent_level <= tind);
        }
        assert(u[j + bl].indent_level <= c);
    }
    lemma_span_end_characterize(u, c, j + 1, j + bl);
    assert forall|k: int| index < k < j implies #[trigger] u[k].indent_level > c by {
        assert(down_source(s, index, k) == ie + (k - index));
        assert(ie < ie + (k - index) < ip);
        if c > tind {
            assert(ip == ie + 1);
            assert(false);
        } else {
            assert(s[ie + (k - index)].indent_level > tind);
        }
    }
    assert(down_source(s, index, index) == ie);
    assert(u[index].indent_level == tind <= c);
    lemma_back_target_stops(u, c, j - 1, index);
    if index > 0 {
        assert(down_source(s, index, index - 1) == index - 1);
        assert(u[index - 1].indent_level == s[index - 1].indent_level);
        assert(c <= s[index - 1].indent_level + 1);
    } else {
        assert(s[0].indent_level == 0);
    }
}

/// A backward scan over strictly deeper items stops at the first
/// shallow-enough position.
proof fn lemma_back_target_stops(s: Seq<TodoItem>, c: nat, t: int, stop: int)
    requires
        0 <= stop <= t < s.len(),
        s[stop].indent_level <= c,
        forall|k: int| stop < k <= t ==> #[trigger] s[k].indent_level > c,
    ensures
        back_target(s, c, t) == stop,
    decreases t - stop,
{
    if t > stop {
        lemma_back_target_stops(s, c, t - 1, stop);
    }
}

/// Moving a block up from `j` in `u` restores `s`, when `u` is `s` with
/// the block `[index, ie)` parked at `j` (parent references aside) and
/// the upward move is unclamped.
#[verifier::rlimit(90)]
#[verifier::spinoff_prover]
proof fn lemma_move_up_restores(s: Seq<TodoItem>, u: Seq<TodoItem>, index: int, ie: int)
    requires
        seq_i2(s),
        0 <= index < ie <= s.len(),
        u.len() == s.len(),
        subtree_end(s, index) == ie,
        ({
            let ip = down_insert_pos(s, index);
            let gap = ip - ie;
            let bl = ie - index;
            let j = index + gap;
            &&& ie < ip <= s.len()
            &&& 0 < j < s.len()
            &&& subtree_end(u, j) == j + bl
            &&& back_target(u, u[j].indent_level as nat, j - 1) == index
            &&& (index > 0 ==> u[j].indent_level <= u[index - 1].indent_level + 1)
            &&& (index == 0 ==> u[j].indent_level == 0)
            &&& forall|k: int| 0 <= k < s.len() ==> #[trigger] same_except_parent(
                u[k],
                s[down_source(s, index, k)],
            )
        }),
    ensures
        with_parents(move_up_seq(u, index + down_insert_pos(s, index) - ie)) == s,
{
    let ip = down_insert_pos(s, index);
    let gap = ip - ie;
    let bl = ie - index;
    let j = index + gap;
    let c = u[j].indent_level as nat;
    let ts = back_target(u, c, j - 1);
    assert(ts == index);
    let limit: int = if ts == 0 {
        -1int
    } else {
        u[ts - 1].indent_level as int
    };
    assert(clamp_amount(c, limit) == 0) by {
        if index > 0 {
            assert(down_source(s, index, index - 1) == index - 1);
            assert(same_except_parent(u[index - 1], s[down_source(s, index, index - 1)]));
            assert(with_parent(u[index - 1], None) == with_parent(s[index - 1], None));
            assert(down_source(s, index, j) == index);
            assert(same_except_parent(u[j], s[down_source(s, index, j)]));
            assert(with_parent(u[j], None) == with_parent(s[index], None));
        }
    }
    let r1 = move_up_seq(u, j);
    assert(shallower_by(u.subrange(j, j + bl), 0) =~= u.subrange(j, j + bl));
    assert(r1 =~= u.subrange(0, index) + u.subrange(j, j + bl) + u.subrange(index, j)
        + u.subrange(j + bl, s.len() as int));
    assert(r1.len() == s.len());
    assert forall|k: int| 0 <= k < s.len() implies #[trigger] same_except_parent(r1[k], s[k]) by {
        if k < index {
            assert(r1[k] == u[k]);
            assert(down_source(s, index, k) == k);
            assert(same_except_parent(u[k], s[down_source(s, index, k)]));
        } else if k < index + bl {
            assert(r1[k] == u[j + (k - index)]);
            assert(down_source(s, index, j + (k - index)) == k);
            assert(same_except_parent(u[j + (k - index)], s[down_source(s, index, j + (k
                - index))]));
        } else if k < ip {
            assert(r1[k] == u[index + (k - index - bl)]);
            assert(down_source(s, index, index + (k - index - bl)) == k);
            assert(same_except_parent(u[index + (k - index - bl)], s[down_source(s, index, index
                + (k - index - bl))]));
        } else {
            assert(r1[k] == u[k]);
            assert(down_source(s, index, k) == k);
            assert(same_except_parent(u[k], s[down_source(s, index, k)]));
        }
    }
    assert forall|k: int|
        0 <= k < s.len() implies #[trigger] r1[k].indent_level == s[k].indent_level && r1[k].id
        == s[k].id by {
        assert(same_except_parent(r1[k], s[k]));
        assert(with_parent(r1[k], None) == with_parent(s[k], None));
    }
    assert(same_shape(r1, s));
    assert forall|k: int| 0 <= k < s.len() implies #[trigger] same_payload(r1[k], s[k]) by {
        assert(same_except_parent(r1[k], s[k]));
        assert(with_parent(r1[k], None) == with_parent(s[k], None));
    }
    assert(payloads_match(r1, s));
    lemma_with_parents_only_shape(r1, s);
    lemma_i2_fixpoint(s);
}

/// Round trip, the other way: relocating a subtree downward and then
/// upward from its new position restores the original sequence — order,
/// depths and parent references — provided the downward move needed no
/// depth clamping.
#[verifier::rlimit(90)]
#[verifier::spinoff_prover]
pub proof fn lemma_move_round_trip_down(s: Seq<TodoItem>, index: int)
    requires
        wf_indents(s),
        seq_i2(s),
        0 <= index < s.len(),
        subtree_end(s, index) < s.len(),
        down_clamp_of(s, index) == 0,
    ensures
        ({
            let s2 = with_parents(move_down_seq(s, index));
            let j = index + move_down_disp(s, index);
            &&& 0 < j < s2.len()
            &&& move_up_disp(s2, j) == move_down_disp(s, index)
            &&& with_parents(move_up_seq(s2, j)) == s
        }),
{
    let c = s[index].indent_level as nat;
    let ie = subtree_end(s, index);
    let ip = down_insert_pos(s, index);
    let s2 = with_parents(move_down_seq(s, index));
    lemma_span_end_bounds(s, c, index + 1);
    if !(c > s[ie].indent_level) {
        lemma_span_end_bounds(s, s[ie].indent_level as nat, ie + 1);
    }
    lemma_move_down_landing(s, index);
    lemma_move_up_restores(s, s2, index, ie);
    assert(s2[index + (ip - ie)].indent_level == c);
}

/// Round trip: relocating a subtree upward and then downward from its new
/// position restores the original sequence — order, depths and parent
/// references — provided the upward move needed no depth clamping.
#[verifier::rlimit(90)]
#[verifier::spinoff_prover]
pub proof fn lemma_move_round_trip(s: Seq<TodoItem>, index: int)
    requires
        wf_indents(s),
        seq_i2(s),
        0 < index < s.len(),
        up_clamp_of(s, index) == 0,
    ensures
        ({
            let s2 = with_parents(move_up_seq(s, index));
            let j = index - move_up_disp(s, index);
            &&& 0 <= j < s2.len()
            &&& subtree_end(s2, j) < s2.len()
            &&& move_down_disp(s2, j) == move_up_disp(s, index)
            &&& with_parents(move_down_seq(s2, j)) == s
        }),
{
    let c = s[index].indent_level as nat;
    let ie = subtree_end(s, index);
    let ts = back_target(s, c, index - 1);
    let s2 = with_parents(move_up_seq(s, index));
    lemma_span_end_bounds(s, c, index + 1);
    lemma_back_target_props(s, c, index - 1);
    lemma_move_up_landing(s, index);
    lemma_move_down_restores(s, s2, index, ie);
}

} // verus!
