//! The on-disk text format: one checkbox line per item, nested by
//! two-space indentation, with optional due-date and description
//! annotations.

use vstd::prelude::*;

use vstd::string::StrSliceExecFns;
use vstd::string::StringExecFns;

use crate::dates::Date;
use crate::item::TodoItem;
use crate::list::TodoList;
use crate::mcp::repeat_chars;
use crate::textnum::dec_digits;
use crate::textnum::pad2_u64;
use crate::textnum::pad4_u64;
use crate::textnum::zero_pad;
use crate::textscan::str_trim;
use crate::textscan::ws_run_end;

verus! {

/// The English month names used in the file header.
pub open spec fn month_name_chars(m: int) -> Seq<char> {
    if m == 1 {
        "January"@
    } else if m == 2 {
        "February"@
    } else if m == 3 {
        "March"@
    } else if m == 4 {
        "April"@
    } else if m == 5 {
        "May"@
    } else if m == 6 {
        "June"@
    } else if m == 7 {
        "July"@
    } else if m == 8 {
        "August"@
    } else if m == 9 {
        "September"@
    } else if m == 10 {
        "October"@
    } else if m == 11 {
        "November"@
    } else {
        "December"@
    }
}

fn month_name(m: u8) -> (r: &'static str)
    requires
        1 <= m <= 12,
    ensures
        r@ == month_name_chars(m as int),
{
    if m == 1 {
        "January"
    } else if m == 2 {
        "February"
    } else if m == 3 {
        "March"
    } else if m == 4 {
        "April"
    } else if m == 5 {
        "May"
    } else if m == 6 {
        "June"
    } else if m == 7 {
        "July"
    } else if m == 8 {
        "August"
    } else if m == 9 {
        "September"
    } else if m == 10 {
        "October"
    } else if m == 11 {
        "November"
    } else {
        "December"
    }
}

/// The long date form of the file header: month name, two-digit day,
/// four-digit year.
pub open spec fn long_date_chars(d: Date) -> Seq<char> {
    month_name_chars(d.month as int) + seq![' '] + zero_pad(dec_digits(d.day as nat), 2) + ", "@
        + zero_pad(dec_digits(d.year as nat), 4)
}

/// The text split into lines, reading from position `i` on: line feeds
/// separate lines, a carriage return before a line feed is dropped, and a
/// final line ending is optional.
pub open spec fn lines_from(s: Seq<char>, i: int) -> Seq<Seq<char>>
    decreases s.len() - i,
{
    if i < 0 || i >= s.len() {
        Seq::empty()
    } else {
        let p0 = find_char(s, '\n', i);
        let p = if p0 < i {
            i
        } else if p0 > s.len() {
            s.len() as int
        } else {
            p0
        };
        let body = if p < s.len() && p > i && s[p - 1] == '\r' {
            s.subrange(i, p - 1)
        } else {
            s.subrange(i, p)
        };
        if p >= s.len() {
            seq![body]
        } else {
            seq![body] + lines_from(s, p + 1)
        }
    }
}

/// The whole text split into lines.
pub open spec fn lines_spec(s: Seq<char>) -> Seq<Seq<char>> {
    lines_from(s, 0)
}

/// The first position of `c` at or after `i` (the length if none).
pub open spec fn find_char(s: Seq<char>, c: char, i: int) -> int
    decreases s.len() - i,
{
    if i < 0 || i >= s.len() {
        s.len() as int
    } else if s[i] == c {
        i
    } else {
        find_char(s, c, i + 1)
    }
}

/// The due-date annotation of a serialized line.
pub open spec fn due_annotation_chars(d: Option<Date>) -> Seq<char> {
    match d {
        Some(due) => " @due("@ + crate::dates::ymd_chars(due) + ")"@,
        None => Seq::<char>::empty(),
    }
}

/// The description lines of one item, each indented and quoted.
pub open spec fn desc_block_chars(ls: Seq<Seq<char>>, indent: nat, i: int) -> Seq<char>
    decreases ls.len() - i,
{
    if i < 0 || i >= ls.len() {
        Seq::<char>::empty()
    } else {
        repeat_chars("  "@, indent) + "  > "@ + ls[i] + seq!['\n'] + desc_block_chars(
            ls,
            indent,
            i + 1,
        )
    }
}

/// One serialized item: the checkbox line, then any description lines.
pub open spec fn item_block_chars(it: TodoItem) -> Seq<char> {
    repeat_chars("  "@, it.indent_level as nat) + "- ["@ + seq![it.state.char_of()] + "] "@
        + it.content@ + due_annotation_chars(it.due_date) + seq!['\n'] + match it.description {
        Some(d) => desc_block_chars(lines_spec(d@), it.indent_level as nat, 0),
        None => Seq::<char>::empty(),
    }
}

/// The serialized blocks of all items from `i` on.
pub open spec fn items_blocks_chars(s: Seq<TodoItem>, i: int) -> Seq<char>
    decreases s.len() - i,
{
    if i < 0 || i >= s.len() {
        Seq::<char>::empty()
    } else {
        item_block_chars(s[i]) + items_blocks_chars(s, i + 1)
    }
}

/// The whole serialized checklist: a dated header, a blank line, then
/// the item blocks.
pub open spec fn serialize_chars(date: Date, items: Seq<TodoItem>) -> Seq<char> {
    "# Todo List - "@ + long_date_chars(date) + "\n\n"@ + items_blocks_chars(items, 0)
}

/// Whether a date's fields are small enough for the fixed-width renderings.
pub open spec fn date_renderable(d: Date) -> bool {
    1 <= d.month <= 12 && d.day < 100 && 0 <= d.year < 10000
}

/// Serializes the whole checklist to the on-disk text format.
pub fn serialize_todo_list_clean(list: &TodoList) -> (r: String)
    requires
        date_renderable(list.date),
        forall|k: int|
            0 <= k < list.items@.len() ==> ((#[trigger] list.items@[k].due_date) matches Some(d)
                ==> date_renderable(d)),
    ensures
        r@ == serialize_chars(list.date, list.items@),
{
    proof {
        reveal_strlit(" ");
        reveal_strlit("\n");
    }
    let mut out = <String as StringExecFns>::from_str("# Todo List - ");
    out.append(month_name(list.date.month));
    out.append(" ");
    out.append(pad2_u64(list.date.day as u64).as_str());
    out.append(", ");
    out.append(pad4_u64(list.date.year as u64).as_str());
    out.append("\n\n");
    let ghost header = out@;
    proof {
        assert(header =~= "# Todo List - "@ + long_date_chars(list.date) + "\n\n"@);
    }
    let n = list.items.len();
    let mut i: usize = 0;
    while i < n
        invariant
            0 <= i <= n,
            n == list.items@.len(),
            forall|k: int|
                0 <= k < list.items@.len() ==> ((#[trigger] list.items@[k].due_date) matches Some(
                    d,
                ) ==> date_renderable(d)),
            out@ == header + items_blocks_upto(list.items@, 0, i as int),
        decreases n - i,
    {
        let block = item_block(&list.items[i]);
        out.append(block.as_str());
        proof {
            lemma_items_blocks_snoc(list.items@, 0, i as int);
        }
        i += 1;
    }
    proof {
        lemma_items_blocks_upto_full(list.items@, 0);
        assert(out@ =~= serialize_chars(list.date, list.items@));
    }
    out
}

/// Serializes the whole checklist; the clean form is the only form.
pub fn serialize_todo_list(list: &TodoList) -> (r: String)
    requires
        date_renderable(list.date),
        forall|k: int|
            0 <= k < list.items@.len() ==> ((#[trigger] list.items@[k].due_date) matches Some(d)
                ==> date_renderable(d)),
    ensures
        r@ == serialize_chars(list.date, list.items@),
{
    serialize_todo_list_clean(list)
}

fn two_space_indent(n: usize) -> (r: String)
    ensures
        r@ == repeat_chars("  "@, n as nat),
{
    let mut r = String::new();
    let mut i: usize = 0;
    while i < n
        invariant
            0 <= i <= n,
            r@ == repeat_chars("  "@, i as nat),
        decreases n - i,
    {
        r.append("  ");
        proof {
            crate::mcp::lemma_repeat_snoc("  "@, i as nat);
        }
        i += 1;
    }
    r
}

fn state_char_str(s: crate::state::TodoState) -> (r: &'static str)
    ensures
        r@ == seq![s.char_of()],
{
    proof {
        reveal_strlit(" ");
        reveal_strlit("x");
        reveal_strlit("?");
        reveal_strlit("!");
        reveal_strlit("*");
    }
    match s {
        crate::state::TodoState::Empty => " ",
        crate::state::TodoState::Checked => "x",
        crate::state::TodoState::Question => "?",
        crate::state::TodoState::Exclamation => "!",
        crate::state::TodoState::InProgress => "*",
    }
}

fn item_block(it: &TodoItem) -> (r: String)
    requires
        it.due_date matches Some(d) ==> date_renderable(d),
    ensures
        r@ == item_block_chars(*it),
{
    proof {
        reveal_strlit("\n");
    }
    let mut out = two_space_indent(it.indent_level);
    out.append("- [");
    out.append(state_char_str(it.state));
    out.append("] ");
    out.append(it.content.as_str());
    match it.due_date {
        Some(due) => {
            out.append(" @due(");
            out.append(due.format_ymd().as_str());
            out.append(")");
        },
        None => {},
    }
    out.append("\n");
    match &it.description {
        Some(d) => {
            let ls = split_lines(d.as_str());
            let ghost pre = out@;
            let mut j: usize = 0;
            while j < ls.len()
                invariant
                    0 <= j <= ls@.len(),
                    ls@.map_values(|l: String| l@) == lines_spec(it.description.unwrap()@),
                    out@ == pre + desc_block_upto(
                        lines_spec(it.description.unwrap()@),
                        it.indent_level as nat,
                        0,
                        j as int,
                    ),
                decreases ls@.len() - j,
            {
                let ghost out0 = out@;
                let ind = two_space_indent(it.indent_level);
                out.append(ind.as_str());
                out.append("  > ");
                out.append(ls[j].as_str());
                out.append("\n");
                proof {
                    reveal_strlit("\n");
                    let ghost lsv = lines_spec(it.description.unwrap()@);
                    assert(ls@.map_values(|l: String| l@)[j as int] == ls@[j as int]@);
                    assert(ls@[j as int]@ == lsv[j as int]);
                    lemma_desc_block_snoc(lsv, it.indent_level as nat, 0, j as int);
                    assert(out@ =~= out0 + (repeat_chars("  "@, it.indent_level as nat) + "  > "@
                        + lsv[j as int] + seq!['\n']));
                    assert(out@ =~= pre + (desc_block_upto(lsv, it.indent_level as nat, 0, j as int)
                        + (repeat_chars("  "@, it.indent_level as nat) + "  > "@ + lsv[j as int]
                        + seq!['\n'])));
                }
                j += 1;
            }
            proof {
                lemma_desc_block_upto_full(
                    lines_spec(it.description.unwrap()@),
                    it.indent_level as nat,
                    0,
                );
                assert(out@ =~= item_block_chars(*it));
            }
        },
        None => {
            proof {
                assert(out@ =~= item_block_chars(*it));
            }
        },
    }
    out
}

/// Splits text into its lines, as the line-splitting spec says.
pub fn split_lines(s: &str) -> (r: Vec<String>)
    ensures
        r@.map_values(|l: String| l@) == lines_spec(s@),
{
    let n = s.unicode_len();
    let mut r: Vec<String> = Vec::new();
    let mut i: usize = 0;
    proof {
        assert(r@.map_values(|l: String| l@) =~= Seq::<Seq<char>>::empty());
    }
    while i < n
        invariant
            0 <= i <= n,
            n == s@.len(),
            lines_from(s@, 0) == r@.map_values(|l: String| l@) + lines_from(s@, i as int),
        decreases n - i,
    {
        let ghost r0 = r@;
        let mut p: usize = i;
        while p < n && s.get_char(p) != '\n'
            invariant
                i <= p <= n,
                n == s@.len(),
                find_char(s@, '\n', i as int) == find_char(s@, '\n', p as int),
            decreases n - p,
        {
            p += 1;
        }
        proof {
            assert(find_char(s@, '\n', i as int) == p);
        }
        let body_end = if p < n && p > i && s.get_char(p - 1) == '\r' {
            p - 1
        } else {
            p
        };
        let body = <String as StringExecFns>::from_str(s.substring_char(i, body_end));
        r.push(body);
        proof {
            assert(r@.map_values(|l: String| l@) =~= r0.map_values(|l: String| l@) + seq![
                s@.subrange(i as int, body_end as int),
            ]);
            assert(lines_from(s@, i as int) == seq![s@.subrange(i as int, body_end as int)]
                + lines_from(s@, p + 1));
        }
        if p >= n {
            i = n;
            proof {
                assert(lines_from(s@, p + 1) =~= Seq::<Seq<char>>::empty());
                assert(lines_from(s@, n as int) =~= Seq::<Seq<char>>::empty());
                assert(lines_from(s@, 0) =~= r@.map_values(|l: String| l@) + lines_from(
                    s@,
                    i as int,
                ));
            }
        } else {
            i = p + 1;
            proof {
                assert(lines_from(s@, 0) =~= r@.map_values(|l: String| l@) + lines_from(
                    s@,
                    i as int,
                ));
            }
        }
    }
    proof {
        assert(lines_from(s@, i as int) =~= Seq::<Seq<char>>::empty());
        assert(r@.map_values(|l: String| l@) =~= lines_from(s@, 0));
    }
    r
}

/// The deterministic content of one parsed checkbox line: everything the
/// text pins down.  Fresh identifiers and timestamps are the only parts
/// the text leaves open.
pub struct LineShape {
    pub content: Seq<char>,
    pub state: crate::state::TodoState,
    pub indent: nat,
    pub due: Option<Date>,
    pub id_override: Option<u128>,
    pub desc: Option<Seq<char>>,
}

/// The line without its leading white space.
pub open spec fn trim_start_spec(l: Seq<char>) -> Seq<char> {
    l.subrange(ws_run_end(l, 0), l.len() as int)
}

/// Lines the parser passes over: blank ones and headings.
pub open spec fn skip_line(l: Seq<char>) -> bool {
    crate::textscan::trim_spec(l).len() == 0 || crate::textscan::trim_spec(l)[0] == '#'
}

/// Lines that extend the pending description of the preceding item.
pub open spec fn desc_line(l: Seq<char>) -> bool {
    !skip_line(l) && trim_start_spec(l).len() > 0 && trim_start_spec(l)[0] == '>'
}

/// The text a description line contributes.
pub open spec fn desc_payload(l: Seq<char>) -> Seq<char> {
    crate::textscan::trim_spec(
        trim_start_spec(l).subrange(1, trim_start_spec(l).len() as int),
    )
}

/// First position at or after `i` where a non-empty `pat` occurs in `s`
/// (negative if nowhere).
pub open spec fn find_sub(s: Seq<char>, pat: Seq<char>, i: int) -> int
    decreases s.len() - i,
    when 0 <= i <= s.len()
{
    if pat.len() == 0 || i < 0 || i + pat.len() > s.len() {
        -1
    } else if s.subrange(i, i + pat.len() as int) == pat {
        i
    } else {
        find_sub(s, pat, i + 1)
    }
}

pub proof fn lemma_find_sub_bounds(s: Seq<char>, pat: Seq<char>, i: int)
    requires
        0 <= i <= s.len(),
    ensures
        find_sub(s, pat, i) >= 0 ==> i <= find_sub(s, pat, i) && find_sub(s, pat, i) + pat.len()
            <= s.len() && s.subrange(find_sub(s, pat, i), find_sub(s, pat, i) + pat.len() as int)
            == pat,
    decreases s.len() - i,
{
    if pat.len() > 0 && !(i + pat.len() > s.len()) && !(s.subrange(i, i + pat.len() as int)
        == pat) {
        lemma_find_sub_bounds(s, pat, i + 1);
    }
}

/// An annotation `pat …)` cut out of the text: the text without it (with
/// the pieces re-joined by a single space) and the annotation's inside,
/// when both the marker and a closing parenthesis are present.
pub open spec fn extract_marker(c: Seq<char>, pat: Seq<char>) -> (Seq<char>, Option<Seq<char>>) {
    let st = find_sub(c, pat, 0);
    if st < 0 {
        (c, None)
    } else {
        let e = find_char(c, ')', st);
        if e >= c.len() {
            (c, None)
        } else {
            let inner = c.subrange(st + pat.len() as int, e);
            let prefix = crate::textscan::trim_spec(c.subrange(0, st));
            let suffix = if e + 1 < c.len() {
                crate::textscan::trim_spec(c.subrange(e + 1, c.len() as int))
            } else {
                Seq::<char>::empty()
            };
            let cleaned = if suffix.len() > 0 {
                if prefix.len() > 0 {
                    prefix + seq![' '] + suffix
                } else {
                    suffix
                }
            } else {
                prefix
            };
            (cleaned, Some(inner))
        }
    }
}

/// What one line means: not an item line, a parse failure, or the shape
/// of an item.
pub open spec fn line_shape(l: Seq<char>) -> Result<Option<LineShape>, ()> {
    let t = trim_start_spec(l);
    if !(t.len() >= 3 && t.subrange(0, 3) == "- ["@) {
        Ok(None)
    } else if t.len() < 5 {
        Err(())
    } else {
        match crate::state::TodoState::spec_from_char(t[3]) {
            None => Err(()),
            Some(st) => {
                let raw = if t.len() > 5 {
                    crate::textscan::trim_spec(t.subrange(5, t.len() as int))
                } else {
                    Seq::<char>::empty()
                };
                let r1 = extract_marker(raw, "@id("@);
                let id_override = match r1.1 {
                    Some(inner) => crate::mcp::uuid_parse(inner),
                    None => None,
                };
                let r2 = extract_marker(r1.0, "@due("@);
                let due = match r2.1 {
                    Some(inner) => crate::dates::chrono_ymd_parse(inner),
                    None => None,
                };
                Ok(
                    Some(
                        LineShape {
                            content: r2.0,
                            state: st,
                            indent: (ws_run_end(l, 0) / 2) as nat,
                            due,
                            id_override,
                            desc: None,
                        },
                    ),
                )
            },
        }
    }
}

/// The ghost view of the pending description.
pub open spec fn pend_view(p: Option<String>) -> Option<Seq<char>> {
    match p {
        Some(d) => Some(d@),
        None => None,
    }
}

/// A pending description attached to the last item parsed so far.
pub open spec fn attach_desc(acc: Seq<LineShape>, pending: Option<Seq<char>>) -> Seq<LineShape> {
    match pending {
        None => acc,
        Some(d) => if acc.len() == 0 {
            acc
        } else {
            acc.update(acc.len() - 1, LineShape { desc: Some(d), ..acc.last() })
        },
    }
}

/// The whole parse, folded line by line: the shapes of the parsed items,
/// or nothing on a malformed checkbox line.
pub open spec fn shapes_fold(
    lines: Seq<Seq<char>>,
    i: int,
    acc: Seq<LineShape>,
    pending: Option<Seq<char>>,
) -> Option<Seq<LineShape>>
    decreases lines.len() - i,
{
    if i < 0 || i >= lines.len() {
        Some(attach_desc(acc, pending))
    } else {
        let l = lines[i];
        if skip_line(l) {
            shapes_fold(lines, i + 1, acc, pending)
        } else if desc_line(l) {
            let np = match pending {
                Some(d) => d + seq!['\n'] + desc_payload(l),
                None => desc_payload(l),
            };
            shapes_fold(lines, i + 1, acc, Some(np))
        } else {
            let acc1 = attach_desc(acc, pending);
            match line_shape(l) {
                Err(_) => None,
                Ok(None) => shapes_fold(lines, i + 1, acc1, None),
                Ok(Some(sh)) => shapes_fold(lines, i + 1, acc1.push(sh), None),
            }
        }
    }
}

/// Whether an item realizes a parsed shape: all text-determined fields
/// agree, and the identifier too where the text carried one.
pub open spec fn matches_shape(it: TodoItem, sh: LineShape) -> bool {
    &&& it.content@ == sh.content
    &&& it.state == sh.state
    &&& it.indent_level as nat == sh.indent
    &&& (match sh.id_override {
        Some(id) => it.id == id,
        None => true,
    })
    &&& it.due_date == sh.due
    &&& (match sh.desc {
        Some(d) => it.description matches Some(x) && x@ == d,
        None => it.description is None,
    })
    &&& !it.collapsed
    &&& (it.completed_at is Some <==> sh.state is Checked)
    &&& it.deleted_at is None
}

fn str_trim_start<'a>(s: &'a str) -> (r: &'a str)
    ensures
        r@ == trim_start_spec(s@),
        0 <= ws_run_end(s@, 0) <= s@.len(),
        r@.len() == s@.len() - ws_run_end(s@, 0),
{
    let n = s.unicode_len();
    let mut a: usize = 0;
    while a < n && crate::textscan::is_ws(s.get_char(a))
        invariant
            0 <= a <= n,
            n == s@.len(),
            ws_run_end(s@, 0) == ws_run_end(s@, a as int),
        decreases n - a,
    {
        a += 1;
    }
    proof {
        assert(ws_run_end(s@, a as int) == a);
    }
    s.substring_char(a, n)
}

fn find_sub_str(s: &str, pat: &str) -> (r: Option<usize>)
    ensures
        match r {
            Some(i) => find_sub(s@, pat@, 0) == i,
            None => find_sub(s@, pat@, 0) < 0,
        },
{
    let n = s.unicode_len();
    let m = pat.unicode_len();
    if m == 0 || m > n {
        return None;
    }
    let mut i: usize = 0;
    while i <= n - m
        invariant
            0 <= i <= n - m + 1,
            1 <= m <= n,
            n == s@.len(),
            m == pat@.len(),
            find_sub(s@, pat@, 0) == find_sub(s@, pat@, i as int),
        decreases n - i,
    {
        let mut j: usize = 0;
        while j < m && s.get_char(i + j) == pat.get_char(j)
            invariant
                0 <= j <= m,
                i + m <= n,
                n == s@.len(),
                m == pat@.len(),
                forall|k: int| 0 <= k < j ==> s@[i + k] == #[trigger] pat@[k],
            decreases m - j,
        {
            j += 1;
        }
        if j == m {
            proof {
                assert(s@.subrange(i as int, i as int + m as int) =~= pat@);
            }
            return Some(i);
        }
        proof {
            assert(s@.subrange(i as int, i as int + m as int)[j as int] == s@[i as int + j]);
            assert(s@.subrange(i as int, i as int + m as int) != pat@);
        }
        i += 1;
    }
    proof {
        assert(find_sub(s@, pat@, i as int) == -1);
    }
    None
}

fn extract_marker_str(c: &str, pat: &str) -> (r: (String, Option<String>))
    requires
        forall|k: int| 0 <= k < pat@.len() ==> pat@[k] != ')',
    ensures
        ({
            let sp = extract_marker(c@, pat@);
            &&& r.0@ == sp.0
            &&& (match sp.1 {
                Some(x) => r.1 matches Some(y) && y@ == x,
                None => r.1 is None,
            })
        }),
{
    proof {
        reveal_strlit(" ");
    }
    let n = c.unicode_len();
    let m = pat.unicode_len();
    match find_sub_str(c, pat) {
        None => (<String as StringExecFns>::from_str(c), None),
        Some(st) => {
            proof {
                lemma_find_sub_bounds(c@, pat@, 0);
            }
            let mut e: usize = st;
            while e < n && c.get_char(e) != ')'
                invariant
                    st <= e <= n,
                    n == c@.len(),
                    find_char(c@, ')', st as int) == find_char(c@, ')', e as int),
                decreases n - e,
            {
                e += 1;
            }
            proof {
                assert(find_char(c@, ')', e as int) == if e < n {
                    e as int
                } else {
                    n as int
                });
            }
            if e >= n {
                (<String as StringExecFns>::from_str(c), None)
            } else {
                proof {
                    assert(c@.subrange(st as int, st as int + m as int) =~= pat@);
                    if e < st + m {
                        assert(c@[e as int] == c@.subrange(st as int, st as int + m as int)[e
                            - st]);
                        assert(false);
                    }
                }
                let inner = <String as StringExecFns>::from_str(c.substring_char(st + m, e));
                let prefix_s = str_trim(c.substring_char(0, st));
                let cleaned: String = if e + 1 < n {
                    let suffix_s = str_trim(c.substring_char(e + 1, n));
                    if suffix_s.unicode_len() > 0 {
                        if prefix_s.unicode_len() > 0 {
                            <String as StringExecFns>::from_str(prefix_s).concat(" ").concat(
                                suffix_s,
                            )
                        } else {
                            <String as StringExecFns>::from_str(suffix_s)
                        }
                    } else {
                        <String as StringExecFns>::from_str(prefix_s)
                    }
                } else {
                    <String as StringExecFns>::from_str(prefix_s)
                };
                (cleaned, Some(inner))
            }
        },
    }
}

/// Parses one line: `Ok(None)` for a line that is no checkbox line, the
/// parsed item for one that is, and an error for a malformed one.  The
/// returned item carries a fresh identifier unless the line named one,
/// and no parent reference yet.
pub fn parse_todo_line(line: &str) -> (r: Result<Option<TodoItem>, String>)
    ensures
        match r {
            Ok(opt) => match opt {
                None => line_shape(line@) == Ok::<Option<LineShape>, ()>(None),
                Some(it) => line_shape(line@) matches Ok(Some(sh)) && matches_shape(it, sh)
                    && it.parent_id is None,
            },
            Err(_) => line_shape(line@) is Err,
        },
{
    proof {
        reveal_strlit("- [");
        reveal_strlit("");
    }
    let t = str_trim_start(line);
    let tn = t.unicode_len();
    let has_prefix = tn >= 3 && t.get_char(0) == '-' && t.get_char(1) == ' ' && t.get_char(2)
        == '[';
    proof {
        if has_prefix {
            assert(t@.subrange(0, 3) =~= "- ["@);
        } else if tn >= 3 {
            assert(t@.subrange(0, 3)[0] == t@[0]);
            assert(t@.subrange(0, 3)[1] == t@[1]);
            assert(t@.subrange(0, 3)[2] == t@[2]);
            assert(t@.subrange(0, 3) != "- ["@);
        }
    }
    if !has_prefix {
        return Ok(None);
    }
    if tn < 5 {
        return Err(<String as StringExecFns>::from_str("Invalid checkbox format"));
    }
    let sc = t.get_char(3);
    let state = match crate::state::TodoState::from_char(sc) {
        None => {
            return Err(
                <String as StringExecFns>::from_str("Invalid state character: ").concat(
                    t.substring_char(3, 4),
                ),
            );
        },
        Some(st) => st,
    };
    let raw: String = if tn > 5 {
        <String as StringExecFns>::from_str(str_trim(t.substring_char(5, tn)))
    } else {
        <String as StringExecFns>::from_str("")
    };
    proof {
        reveal_strlit("@id(");
        reveal_strlit("@due(");
        assert(forall|k: int| 0 <= k < "@id("@.len() ==> "@id("@[k] != ')');
        assert(forall|k: int| 0 <= k < "@due("@.len() ==> "@due("@[k] != ')');
    }
    let (c1, id_inner) = extract_marker_str(raw.as_str(), "@id(");
    let id_override: Option<u128> = match id_inner {
        Some(x) => crate::mcp::uuid_from_str(x.as_str()),
        None => None,
    };
    let (c2, due_inner) = extract_marker_str(c1.as_str(), "@due(");
    let due: Option<Date> = match due_inner {
        Some(x) => crate::dates::parse_date_ymd(x.as_str()),
        None => None,
    };
    let indent = (line.unicode_len() - tn) / 2;
    let mut item = TodoItem::full(c2, state, indent, None, due, None, false);
    match id_override {
        Some(idv) => {
            item.id = idv;
        },
        None => {},
    }
    proof {
        let l = line@;
        let tspec = trim_start_spec(l);
        assert(t@ == tspec);
        assert(tspec.len() >= 3 && tspec.subrange(0, 3) == "- ["@);
        assert(tspec.len() >= 5);
        assert(crate::state::TodoState::spec_from_char(tspec[3]) == Some(state));
        let rawspec = if tspec.len() > 5 {
            crate::textscan::trim_spec(tspec.subrange(5, tspec.len() as int))
        } else {
            Seq::<char>::empty()
        };
        assert(raw@ == rawspec);
        let r1 = extract_marker(rawspec, "@id("@);
        assert(c1@ == r1.0);
        let sh = line_shape(l).unwrap().unwrap();
        assert(sh.content == extract_marker(r1.0, "@due("@).0);
        assert(item.content@ == sh.content);
        assert(item.state == sh.state);
        assert(item.indent_level as nat == sh.indent);
        assert(item.due_date == sh.due);
        assert(match sh.id_override {
            Some(id) => item.id == id,
            None => true,
        });
        assert(matches_shape(item, sh));
    }
    Ok(Some(item))
}

proof fn lemma_parent_index_push(s: Seq<TodoItem>, x: TodoItem, i: int, j: int)
    requires
        0 <= i < s.len(),
        0 <= j <= s.len(),
    ensures
        crate::model::parent_index(s.push(x), i, j) == crate::model::parent_index(s, i, j),
    decreases j,
{
    if j > 0 {
        assert(s.push(x)[j - 1] == s[j - 1]);
        assert(s.push(x)[i] == s[i]);
        if !(s[j - 1].indent_level < s[i].indent_level) {
            lemma_parent_index_push(s, x, i, j - 1);
        }
    }
}

proof fn lemma_parent_id_push(s: Seq<TodoItem>, x: TodoItem, i: int)
    requires
        0 <= i < s.len(),
    ensures
        crate::model::parent_id_spec(s.push(x), i) == crate::model::parent_id_spec(s, i),
{
    lemma_parent_index_push(s, x, i, i);
    crate::model::lemma_parent_index_bounds(s, i, i);
    assert(s.push(x)[i] == s[i]);
}

fn parent_for_new(items: &Vec<TodoItem>, indent: usize, Ghost(x): Ghost<TodoItem>) -> (r: Option<
    u128,
>)
    requires
        x.indent_level == indent,
    ensures
        r == crate::model::parent_id_spec(items@.push(x), items@.len() as int),
{
    let ghost s2 = items@.push(x);
    let ghost big = items@.len() as int;
    proof {
        assert(s2[big] == x);
    }
    if indent == 0 {
        return None;
    }
    let mut j: usize = items.len();
    while j > 0
        invariant
            0 <= j <= items@.len(),
            s2 == items@.push(x),
            big == items@.len() as int,
            x.indent_level == indent,
            crate::model::parent_index(s2, big, big) == crate::model::parent_index(
                s2,
                big,
                j as int,
            ),
        decreases j,
    {
        if items[j - 1].indent_level < indent {
            proof {
                assert(s2[j as int - 1] == items@[j as int - 1]);
                assert(crate::model::parent_index(s2, big, j as int) == Some(j as int - 1));
            }
            return Some(items[j - 1].id);
        }
        proof {
            assert(s2[j as int - 1] == items@[j as int - 1]);
        }
        j -= 1;
    }
    None
}

/// Parses the on-disk text into a checklist: checkbox lines become items
/// (with parent references derived from their depths as they are read),
/// quoted lines extend the preceding item's description, blank lines and
/// headings are passed over, and a malformed checkbox line fails the
/// whole parse.
pub fn parse_todo_list(content: &str, date: Date, file_path: String) -> (r: Result<
    TodoList,
    String,
>)
    ensures
        ({
            let sf = shapes_fold(lines_spec(content@), 0, Seq::empty(), None);
            match r {
                Ok(list) => {
                    &&& sf matches Some(shs) && list.items@.len() == shs.len() && (forall|k: int|
                        0 <= k < shs.len() ==> matches_shape(#[trigger] list.items@[k], shs[k]))
                    &&& (forall|k: int|
                        0 <= k < list.items@.len() ==> (#[trigger] list.items@[k]).parent_id
                            == crate::model::parent_id_spec(list.items@, k))
                    &&& list.date == date
                    &&& list.file_path == file_path
                },
                Err(_) => sf is None,
            }
        }),
{
    let lines = split_lines(content);
    let ghost lv = lines_spec(content@);
    let mut items: Vec<TodoItem> = Vec::new();
    let mut pending: Option<String> = None;
    let ghost mut gacc: Seq<LineShape> = Seq::empty();
    let mut i: usize = 0;
    while i < lines.len()
        invariant
            0 <= i <= lines@.len(),
            lv == lines_spec(content@),
            lines@.map_values(|l2: String| l2@) == lv,
            lv.len() == lines@.len(),
            shapes_fold(lv, 0, Seq::empty(), None) == shapes_fold(
                lv,
                i as int,
                gacc,
                pend_view(pending),
            ),
            items@.len() == gacc.len(),
            forall|k: int| 0 <= k < gacc.len() ==> matches_shape(#[trigger] items@[k], gacc[k]),
            forall|k: int|
                0 <= k < items@.len() ==> (#[trigger] items@[k]).parent_id
                    == crate::model::parent_id_spec(items@, k),
        decreases lines@.len() - i,
    {
        let ghost l = lv[i as int];
        let ghost gacc_in = gacc;
        let ghost pend_in = pend_view(pending);
        proof {
            assert(lines@.map_values(|l2: String| l2@)[i as int] == lines@[i as int]@);
        }
        let lt = str_trim(lines[i].as_str());
        let skip = lt.unicode_len() == 0 || lt.get_char(0) == '#';
        proof {
            assert(skip == skip_line(l));
        }
        if skip {
            proof {
                assert(shapes_fold(lv, i as int, gacc_in, pend_in) == shapes_fold(
                    lv,
                    i as int + 1,
                    gacc_in,
                    pend_in,
                ));
            }
            i += 1;
            continue ;
        }
        let ts = str_trim_start(lines[i].as_str());
        let tsn = ts.unicode_len();
        if tsn > 0 && ts.get_char(0) == '>' {
            proof {
                assert(desc_line(l));
            }
            let payload = <String as StringExecFns>::from_str(str_trim(ts.substring_char(1, tsn)));
            proof {
                assert(payload@ == desc_payload(l));
            }
            let newp: String = match pending {
                Some(d) => {
                    proof {
                        reveal_strlit("\n");
                    }
                    d.concat("\n").concat(payload.as_str())
                },
                None => payload,
            };
            proof {
                assert(newp@ == match pend_in {
                    Some(dv) => dv + seq!['\n'] + desc_payload(l),
                    None => desc_payload(l),
                });
                assert(shapes_fold(lv, i as int, gacc_in, pend_in) == shapes_fold(
                    lv,
                    i as int + 1,
                    gacc_in,
                    Some(newp@),
                ));
            }
            pending = Some(newp);
            i += 1;
            continue ;
        }
        proof {
            assert(!skip_line(l) && !desc_line(l));
        }
        match pending {
            Some(d) => {
                let ghost items0 = items@;
                if items.len() > 0 {
                    let li = items.len() - 1;
                    let mut it = items[li].clone();
                    it.description = Some(d);
                    items.set(li, it);
                }
                proof {
                    gacc = attach_desc(gacc_in, pend_in);
                    assert(items@.len() == gacc.len());
                    assert forall|k: int| 0 <= k < gacc.len() implies matches_shape(
                        #[trigger] items@[k],
                        gacc[k],
                    ) by {
                        assert(matches_shape(items0[k], gacc_in[k]));
                    }
                    assert(crate::model::same_shape(items0, items@));
                    assert forall|k: int| 0 <= k < items@.len() implies (
                    #[trigger] items@[k]).parent_id == crate::model::parent_id_spec(items@, k) by {
                        crate::model::lemma_parent_id_same_shape(items0, items@, k);
                    }
                }
            },
            None => {
                proof {
                    assert(gacc == attach_desc(gacc_in, pend_in));
                }
            },
        }
        pending = None;
        match parse_todo_line(lines[i].as_str()) {
            Err(e) => {
                proof {
                    assert(line_shape(l) is Err);
                    assert(shapes_fold(lv, i as int, gacc_in, pend_in) is None);
                }
                return Err(e);
            },
            Ok(None) => {
                proof {
                    assert(shapes_fold(lv, i as int, gacc_in, pend_in) == shapes_fold(
                        lv,
                        i as int + 1,
                        gacc,
                        None,
                    ));
                }
            },
            Ok(Some(item_parsed)) => {
                let mut item = item_parsed;
                let ghost x = item;
                let ghost items1 = items@;
                let pid = parent_for_new(&items, item.indent_level, Ghost(x));
                item.parent_id = pid;
                items.push(item);
                proof {
                    let sh = line_shape(l).unwrap().unwrap();
                    assert(shapes_fold(lv, i as int, gacc_in, pend_in) == shapes_fold(
                        lv,
                        i as int + 1,
                        gacc.push(sh),
                        None,
                    ));
                    gacc = gacc.push(sh);
                    assert(items@ == items1.push(item));
                    assert(crate::model::same_shape(items1.push(x), items@));
                    assert forall|k: int| 0 <= k < items@.len() implies (
                    #[trigger] items@[k]).parent_id == crate::model::parent_id_spec(items@, k) by {
                        if k < items1.len() {
                            assert(items@[k] == items1[k]);
                            lemma_parent_id_push(items1, item, k);
                        } else {
                            crate::model::lemma_parent_id_same_shape(
                                items1.push(x),
                                items@,
                                items1.len() as int,
                            );
                        }
                    }
                    assert(matches_shape(item, sh));
                }
            },
        }
        i += 1;
    }
    let ghost gacc_fin = gacc;
    let ghost pend_fin = pend_view(pending);
    proof {
        assert(shapes_fold(lv, i as int, gacc_fin, pend_fin) == Some(
            attach_desc(gacc_fin, pend_fin),
        ));
    }
    match pending {
        Some(d) => {
            let ghost items0 = items@;
            if items.len() > 0 {
                let li = items.len() - 1;
                let mut it = items[li].clone();
                it.description = Some(d);
                items.set(li, it);
            }
            proof {
                gacc = attach_desc(gacc_fin, pend_fin);
                assert(items@.len() == gacc.len());
                assert forall|k: int| 0 <= k < gacc.len() implies matches_shape(
                    #[trigger] items@[k],
                    gacc[k],
                ) by {
                    assert(matches_shape(items0[k], gacc_fin[k]));
                }
                assert(crate::model::same_shape(items0, items@));
                assert forall|k: int| 0 <= k < items@.len() implies (#[trigger] items@[k]).parent_id
                    == crate::model::parent_id_spec(items@, k) by {
                    crate::model::lemma_parent_id_same_shape(items0, items@, k);
                }
            }
        },
        None => {
            proof {
                assert(gacc == attach_desc(gacc_fin, pend_fin));
            }
        },
    }
    proof {
        assert(shapes_fold(lv, 0, Seq::empty(), None) == Some(gacc));
    }
    Ok(TodoList::with_items(date, file_path, items))
}

/// The description lines `[i, k)`, indented and quoted.
pub open spec fn desc_block_upto(ls: Seq<Seq<char>>, indent: nat, i: int, k: int) -> Seq<char>
    decreases k - i,
{
    if i < 0 || i >= k || i >= ls.len() {
        Seq::<char>::empty()
    } else {
        repeat_chars("  "@, indent) + "  > "@ + ls[i] + seq!['\n'] + desc_block_upto(
            ls,
            indent,
            i + 1,
            k,
        )
    }
}

proof fn lemma_desc_block_snoc(ls: Seq<Seq<char>>, indent: nat, i: int, k: int)
    requires
        0 <= i <= k < ls.len(),
    ensures
        desc_block_upto(ls, indent, i, k) + (repeat_chars("  "@, indent) + "  > "@ + ls[k] + seq![
            '\n',
        ]) =~= desc_block_upto(ls, indent, i, k + 1),
    decreases k - i,
{
    if i < k {
        lemma_desc_block_snoc(ls, indent, i + 1, k);
        assert(desc_block_upto(ls, indent, i, k) + (repeat_chars("  "@, indent) + "  > "@ + ls[k]
            + seq!['\n']) =~= repeat_chars("  "@, indent) + "  > "@ + ls[i] + seq!['\n']
            + (desc_block_upto(ls, indent, i + 1, k) + (repeat_chars("  "@, indent) + "  > "@
            + ls[k] + seq!['\n'])));
    } else {
        assert(desc_block_upto(ls, indent, i, k) =~= Seq::<char>::empty());
        assert(desc_block_upto(ls, indent, i + 1, k + 1) =~= Seq::<char>::empty());
    }
}

proof fn lemma_desc_block_upto_full(ls: Seq<Seq<char>>, indent: nat, i: int)
    requires
        0 <= i,
    ensures
        desc_block_upto(ls, indent, i, ls.len() as int) =~= desc_block_chars(ls, indent, i),
    decreases ls.len() - i,
{
    if i < ls.len() {
        lemma_desc_block_upto_full(ls, indent, i + 1);
    }
}

/// The serialized blocks of the items in `[i, k)`.
pub open spec fn items_blocks_upto(s: Seq<TodoItem>, i: int, k: int) -> Seq<char>
    decreases k - i,
{
    if i < 0 || i >= k || i >= s.len() {
        Seq::<char>::empty()
    } else {
        item_block_chars(s[i]) + items_blocks_upto(s, i + 1, k)
    }
}

proof fn lemma_items_blocks_snoc(s: Seq<TodoItem>, i: int, k: int)
    requires
        0 <= i <= k < s.len(),
    ensures
        items_blocks_upto(s, i, k) + item_block_chars(s[k]) =~= items_blocks_upto(s, i, k + 1),
    decreases k - i,
{
    if i < k {
        lemma_items_blocks_snoc(s, i + 1, k);
        assert(items_blocks_upto(s, i, k) + item_block_chars(s[k]) =~= item_block_chars(s[i])
            + (items_blocks_upto(s, i + 1, k) + item_block_chars(s[k])));
    } else {
        assert(items_blocks_upto(s, i, k) =~= Seq::<char>::empty());
        assert(items_blocks_upto(s, i + 1, k + 1) =~= Seq::<char>::empty());
    }
}

proof fn lemma_items_blocks_upto_full(s: Seq<TodoItem>, i: int)
    requires
        0 <= i,
    ensures
        items_blocks_upto(s, i, s.len() as int) =~= items_blocks_chars(s, i),
    decreases s.len() - i,
{
    if i < s.len() {
        lemma_items_blocks_upto_full(s, i + 1);
    }
}

} // verus!
