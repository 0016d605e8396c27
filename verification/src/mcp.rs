//! The agent-facing control surface: request and response shapes, their
//! validation, and the pre-formatted list rendering.  The transport that
//! carries them lives outside the library.

use vstd::prelude::*;

use vstd::string::StrSliceExecFns;
use vstd::string::StringExecFns;

use crate::dates::Date;
use crate::dates::chrono_ymd_parse;
use crate::dates::parse_date_ymd;
use crate::dates::today_date;
use crate::item::TodoItem;
use crate::state::TodoState;
use crate::textnum::dec_digits;
use crate::textnum::u64_to_string;
use crate::textscan::str_eq;
use crate::textscan::str_trim;
use crate::textscan::trim_spec;

verus! {

/// A structured error detail handed back over the tool protocol.
#[derive(Debug)]
pub struct McpErrorDetail {
    pub code: String,
    pub message: String,
    pub retryable: bool,
    pub suggestion: Option<String>,
}

impl McpErrorDetail {
    /// A rejected input, with a hint at what would be accepted.
    pub fn invalid_input(message: String, suggestion: String) -> (r: McpErrorDetail)
        ensures
            r.code@ == "INVALID_INPUT"@,
            r.message == message,
            r.retryable,
            r.suggestion matches Some(s) && s == suggestion,
    {
        McpErrorDetail {
            code: <String as StringExecFns>::from_str("INVALID_INPUT"),
            message,
            retryable: true,
            suggestion: Some(suggestion),
        }
    }

    /// A reference to something that does not exist.
    pub fn not_found(message: String, suggestion: String) -> (r: McpErrorDetail)
        ensures
            r.code@ == "NOT_FOUND"@,
            r.message == message,
            r.retryable,
            r.suggestion matches Some(s) && s == suggestion,
    {
        McpErrorDetail {
            code: <String as StringExecFns>::from_str("NOT_FOUND"),
            message,
            retryable: true,
            suggestion: Some(suggestion),
        }
    }

    /// An unrecognized completion state.
    pub fn invalid_state(message: String) -> (r: McpErrorDetail)
        ensures
            r.code@ == "INVALID_STATE"@,
            r.message == message,
            r.retryable,
            r.suggestion matches Some(s) && s@
                == "Valid states: ' ' (empty), 'x' (done), '?' (question), '!' (important)"@,
    {
        McpErrorDetail {
            code: <String as StringExecFns>::from_str("INVALID_STATE"),
            message,
            retryable: true,
            suggestion: Some(
                <String as StringExecFns>::from_str(
                    "Valid states: ' ' (empty), 'x' (done), '?' (question), '!' (important)",
                ),
            ),
        }
    }

    /// A request that failed validation.
    pub fn validation_error(message: String, suggestion: String) -> (r: McpErrorDetail)
        ensures
            r.code@ == "VALIDATION_ERROR"@,
            r.message == message,
            r.retryable,
            r.suggestion matches Some(s) && s == suggestion,
    {
        McpErrorDetail {
            code: <String as StringExecFns>::from_str("VALIDATION_ERROR"),
            message,
            retryable: true,
            suggestion: Some(suggestion),
        }
    }

    /// A failure in the backing store; retrying will not help.
    pub fn storage_error(message: String) -> (r: McpErrorDetail)
        ensures
            r.code@ == "STORAGE_ERROR"@,
            r.message == message,
            !r.retryable,
            r.suggestion is None,
    {
        McpErrorDetail {
            code: <String as StringExecFns>::from_str("STORAGE_ERROR"),
            message,
            retryable: false,
            suggestion: None,
        }
    }
}

/// A request to list the items of one day.
#[derive(Debug)]
pub struct ListTodosRequest {
    pub date: Option<String>,
}

/// A request to create an item.
#[derive(Debug)]
pub struct CreateTodoRequest {
    pub content: String,
    pub date: Option<String>,
    pub parent_id: Option<String>,
    pub due_date: Option<String>,
    pub description: Option<String>,
}

/// A request to update an item's fields.
#[derive(Debug)]
pub struct UpdateTodoRequest {
    pub id: String,
    pub date: Option<String>,
    pub content: Option<String>,
    pub state: Option<String>,
    pub due_date: Option<String>,
    pub description: Option<String>,
}

/// A request to delete an item and its subtree.
#[derive(Debug)]
pub struct DeleteTodoRequest {
    pub id: String,
    pub date: Option<String>,
}

/// A request to toggle an item's completion.
#[derive(Debug)]
pub struct MarkCompleteRequest {
    pub id: String,
    pub date: Option<String>,
}

/// One item, rendered to plain strings for the wire.
#[derive(Debug)]
pub struct TodoItemResponse {
    pub id: String,
    pub content: String,
    pub state: String,
    pub state_description: String,
    pub indent_level: usize,
    pub parent_id: Option<String>,
    pub due_date: Option<String>,
    pub description: Option<String>,
}

/// The outcome of a deletion.
#[derive(Debug)]
pub struct DeleteTodoResponse {
    pub deleted_count: usize,
    pub message: String,
}

/// The hexadecimal character for one nibble.
pub open spec fn hex_digit(d: int) -> char {
    if d < 10 {
        crate::textnum::digit_char(d)
    } else if d == 10 {
        'a'
    } else if d == 11 {
        'b'
    } else if d == 12 {
        'c'
    } else if d == 13 {
        'd'
    } else if d == 14 {
        'e'
    } else {
        'f'
    }
}

/// The lowest `width` hexadecimal digits of `n`, most significant first.
pub open spec fn hex_digits_fixed(n: nat, width: nat) -> Seq<char>
    decreases width,
{
    if width == 0 {
        Seq::empty()
    } else {
        hex_digits_fixed(n / 16, (width - 1) as nat).push(hex_digit((n % 16) as int))
    }
}

/// The canonical hyphenated rendering of a 128-bit identifier:
/// 8-4-4-4-12 lower-case hexadecimal digits.
pub open spec fn uuid_chars(id: u128) -> Seq<char> {
    let h = hex_digits_fixed(id as nat, 32);
    h.subrange(0, 8) + seq!['-'] + h.subrange(8, 12) + seq!['-'] + h.subrange(12, 16) + seq!['-']
        + h.subrange(16, 20) + seq!['-'] + h.subrange(20, 32)
}

fn hex_digit_str(d: u128) -> (r: &'static str)
    requires
        d < 16,
    ensures
        r@ == seq![hex_digit(d as int)],
{
    proof {
        reveal_strlit("0");
        reveal_strlit("1");
        reveal_strlit("2");
        reveal_strlit("3");
        reveal_strlit("4");
        reveal_strlit("5");
        reveal_strlit("6");
        reveal_strlit("7");
        reveal_strlit("8");
        reveal_strlit("9");
        reveal_strlit("a");
        reveal_strlit("b");
        reveal_strlit("c");
        reveal_strlit("d");
        reveal_strlit("e");
        reveal_strlit("f");
    }
    if d == 0 {
        "0"
    } else if d == 1 {
        "1"
    } else if d == 2 {
        "2"
    } else if d == 3 {
        "3"
    } else if d == 4 {
        "4"
    } else if d == 5 {
        "5"
    } else if d == 6 {
        "6"
    } else if d == 7 {
        "7"
    } else if d == 8 {
        "8"
    } else if d == 9 {
        "9"
    } else if d == 10 {
        "a"
    } else if d == 11 {
        "b"
    } else if d == 12 {
        "c"
    } else if d == 13 {
        "d"
    } else if d == 14 {
        "e"
    } else {
        "f"
    }
}

fn hex_fixed(n: u128, width: usize) -> (r: String)
    ensures
        r@ == hex_digits_fixed(n as nat, width as nat),
    decreases width,
{
    if width == 0 {
        let r = String::new();
        proof {
            assert(r@ =~= hex_digits_fixed(n as nat, 0));
        }
        r
    } else {
        let prefix = hex_fixed(n / 16, width - 1);
        let r = prefix.concat(hex_digit_str(n % 16));
        proof {
            assert(r@ =~= hex_digits_fixed(n as nat, width as nat));
        }
        r
    }
}

/// Renders a 128-bit identifier in the canonical hyphenated form.
pub fn uuid_to_string(id: u128) -> (r: String)
    ensures
        r@ == uuid_chars(id),
{
    proof {
        reveal_strlit("-");
    }
    let h = hex_fixed(id, 32);
    proof {
        lemma_hex_digits_fixed_len(id as nat, 32);
    }
    let hs = h.as_str();
    let r = <String as StringExecFns>::from_str(hs.substring_char(0, 8)).concat("-").concat(
        hs.substring_char(8, 12),
    ).concat("-").concat(hs.substring_char(12, 16)).concat("-").concat(
        hs.substring_char(16, 20),
    ).concat("-").concat(hs.substring_char(20, 32));
    proof {
        lemma_hex_digits_fixed_len(id as nat, 32);
        assert(r@ =~= uuid_chars(id));
    }
    r
}

proof fn lemma_hex_digits_fixed_len(n: nat, width: nat)
    ensures
        hex_digits_fixed(n, width).len() == width,
    decreases width,
{
    if width > 0 {
        lemma_hex_digits_fixed_len(n / 16, (width - 1) as nat);
    }
}

/// The result of parsing a given text as a 128-bit identifier: a function
/// of the text alone.
pub uninterp spec fn uuid_parse(s: Seq<char>) -> Option<u128>;

/// Relies on uuid::Uuid::parse_str and Uuid::as_u128: which identifier, if
/// any, a text denotes depends on the text alone.
#[verifier::external_body]
pub(crate) fn uuid_from_str(s: &str) -> (r: Option<u128>)
    ensures
        r == uuid_parse(s@),
{
    match uuid::Uuid::parse_str(s) {
        Ok(u) => Some(u.as_u128()),
        Err(_) => None,
    }
}

/// Parses an item identifier, with the tool protocol's error message for
/// anything unrecognizable.
pub fn parse_uuid(id_str: &str) -> (r: Result<u128, String>)
    ensures
        match r {
            Ok(id) => uuid_parse(id_str@) == Some(id),
            Err(e) => uuid_parse(id_str@) is None && e@ == "Invalid UUID format '"@ + id_str@
                + "'. Use list_todos to get valid IDs."@,
        },
{
    match uuid_from_str(id_str) {
        Some(id) => Ok(id),
        None => Err(
            <String as StringExecFns>::from_str("Invalid UUID format '").concat(id_str).concat(
                "'. Use list_todos to get valid IDs.",
            ),
        ),
    }
}

/// Parses a `YYYY-MM-DD` date, defaulting to today when none is given,
/// with the tool protocol's error message for anything unrecognizable.
pub fn parse_date(date_str: Option<&str>) -> (r: Result<Date, String>)
    ensures
        match date_str {
            Some(s) => match r {
                Ok(d) => chrono_ymd_parse(s@) == Some(d) && d.wf(),
                Err(e) => chrono_ymd_parse(s@) is None && e@ == "Invalid date format '"@ + s@
                    + "'. Use YYYY-MM-DD format."@,
            },
            None => r matches Ok(d) && d.wf(),
        },
{
    match date_str {
        Some(s) => match parse_date_ymd(s) {
            Some(d) => Ok(d),
            None => Err(
                <String as StringExecFns>::from_str("Invalid date format '").concat(s).concat(
                    "'. Use YYYY-MM-DD format.",
                ),
            ),
        },
        None => Ok(today_date()),
    }
}

/// The completion state denoted over the tool protocol, which does not
/// expose the in-progress marker.
pub open spec fn spec_parse_state(s: Seq<char>) -> Option<TodoState> {
    let t = trim_spec(s);
    if t.len() == 0 {
        Some(TodoState::Empty)
    } else if t =~= seq!['x'] || t =~= seq!['X'] {
        Some(TodoState::Checked)
    } else if t =~= seq!['?'] {
        Some(TodoState::Question)
    } else if t =~= seq!['!'] {
        Some(TodoState::Exclamation)
    } else {
        None
    }
}

/// Parses a completion state from the tool protocol's four markers.
pub fn parse_state(state_str: &str) -> (r: Option<TodoState>)
    ensures
        r == spec_parse_state(state_str@),
{
    let t = str_trim(state_str);
    let n = t.unicode_len();
    if n == 0 {
        Some(TodoState::Empty)
    } else if n == 1 {
        let c = t.get_char(0);
        if c == 'x' || c == 'X' {
            proof {
                assert(t@ =~= seq![c]);
            }
            Some(TodoState::Checked)
        } else if c == '?' {
            proof {
                assert(t@ =~= seq![c]);
            }
            Some(TodoState::Question)
        } else if c == '!' {
            proof {
                assert(t@ =~= seq![c]);
            }
            Some(TodoState::Exclamation)
        } else {
            proof {
                assert(t@ =~= seq![c]);
            }
            None
        }
    } else {
        None
    }
}

/// `s` repeated `n` times.
pub open spec fn repeat_chars(s: Seq<char>, n: nat) -> Seq<char>
    decreases n,
{
    if n == 0 {
        Seq::empty()
    } else {
        s + repeat_chars(s, (n - 1) as nat)
    }
}

/// The one-character string for a state's checkbox marker.
pub open spec fn state_char_chars(s: TodoState) -> Seq<char> {
    seq![s.char_of()]
}

/// The state's long description on the wire.
pub open spec fn state_description_chars(s: TodoState) -> Seq<char> {
    match s {
        TodoState::Empty => "pending"@,
        TodoState::Checked => "done"@,
        TodoState::Question => "question"@,
        TodoState::Exclamation => "important"@,
        TodoState::InProgress => "in progress"@,
    }
}

/// The emoji checkbox used in the pre-formatted rendering.
pub open spec fn checkbox_chars(state: Seq<char>) -> Seq<char> {
    if state == "x"@ {
        "\u{2705}"@
    } else if state == "?"@ {
        "\u{2754}"@
    } else if state == "!"@ {
        "\u{2757}"@
    } else {
        "\u{2B1C}"@
    }
}

/// The due-date suffix of a rendered line.
pub open spec fn due_chars(d: Option<String>) -> Seq<char> {
    match d {
        Some(s) => " (due: "@ + s@ + ")"@,
        None => Seq::<char>::empty(),
    }
}

/// One rendered item line: indentation, checkbox, text, due date.
pub open spec fn item_line_chars(it: TodoItemResponse) -> Seq<char> {
    repeat_chars("  "@, it.indent_level as nat) + checkbox_chars(it.state@) + seq![' ']
        + it.content@ + due_chars(it.due_date)
}

/// The rendered lines of all items from `i` on, each preceded by a line
/// break.
pub open spec fn items_lines(items: Seq<TodoItemResponse>, i: int) -> Seq<char>
    decreases items.len() - i,
{
    if i < 0 || i >= items.len() {
        Seq::<char>::empty()
    } else {
        seq!['\n'] + item_line_chars(items[i]) + items_lines(items, i + 1)
    }
}

/// How many of the first `i` items are rendered as done.
pub open spec fn count_done(items: Seq<TodoItemResponse>, i: int) -> int
    decreases i,
{
    if i <= 0 {
        0
    } else {
        count_done(items, i - 1) + if items[i - 1].state@ == "x"@ {
            1int
        } else {
            0int
        }
    }
}

/// The whole pre-formatted list: a summary header, a blank line, then one
/// line per item — or a short notice when there are no items.
pub open spec fn formatted_chars(date: Seq<char>, items: Seq<TodoItemResponse>) -> Seq<char> {
    if items.len() == 0 {
        "No todos for "@ + date
    } else {
        "## Todos for "@ + date + " ("@ + dec_digits(count_done(items, items.len() as int) as nat)
            + "/"@ + dec_digits(items.len() as nat) + ")"@ + seq!['\n'] + items_lines(items, 0)
    }
}

/// The whole checklist of one day, rendered for the wire.
#[derive(Debug)]
pub struct TodoListResponse {
    pub date: String,
    pub item_count: usize,
    pub formatted: String,
    pub items: Vec<TodoItemResponse>,
}

fn two_spaces_repeated(n: usize) -> (r: String)
    ensures
        r@ == repeat_chars("  "@, n as nat),
{
    let mut r = String::new();
    let mut i: usize = 0;
    while i < n
        invariant
            0 <= i <= n,
            r@ == repeat_chars("  "@, i as nat),
        decreases n - i,
    {
        r.append("  ");
        proof {
            lemma_repeat_snoc("  "@, i as nat);
        }
        i += 1;
    }
    r
}

pub proof fn lemma_repeat_snoc(s: Seq<char>, n: nat)
    ensures
        repeat_chars(s, n) + s =~= repeat_chars(s, n + 1),
    decreases n,
{
    if n > 0 {
        lemma_repeat_snoc(s, (n - 1) as nat);
        assert(repeat_chars(s, n) + s =~= s + (repeat_chars(s, (n - 1) as nat) + s));
    }
}

impl TodoListResponse {
    /// Builds the response: the items, their count, and the
    /// pre-formatted rendering.
    pub fn new(date: String, items: Vec<TodoItemResponse>) -> (r: TodoListResponse)
        ensures
            r.date == date,
            r.item_count == items@.len(),
            r.items == items,
            r.formatted@ == formatted_chars(date@, items@),
    {
        let formatted = TodoListResponse::format_list(date.as_str(), &items);
        let item_count = items.len();
        TodoListResponse { date, item_count, formatted, items }
    }

    /// Renders the list: a summary header and one line per item, or a
    /// short notice when the list is empty.
    fn format_list(date: &str, items: &Vec<TodoItemResponse>) -> (r: String)
        ensures
            r@ == formatted_chars(date@, items@),
    {
        if items.len() == 0 {
            let r = <String as StringExecFns>::from_str("No todos for ").concat(date);
            proof {
                assert(r@ =~= formatted_chars(date@, items@));
            }
            return r;
        }
        let total = items.len();
        let mut done: usize = 0;
        let mut i: usize = 0;
        while i < total
            invariant
                0 <= i <= total,
                total == items@.len(),
                done == count_done(items@, i as int),
                done <= i,
            decreases total - i,
        {
            if str_eq(items[i].state.as_str(), "x") {
                done += 1;
            }
            i += 1;
        }
        let mut out = <String as StringExecFns>::from_str("## Todos for ");
        out.append(date);
        out.append(" (");
        out.append(u64_to_string(done as u64).as_str());
        out.append("/");
        out.append(u64_to_string(total as u64).as_str());
        out.append(")");
        out.append("\n");
        let ghost header = out@;
        proof {
            reveal_strlit("\n");
            assert(done as u64 as nat == done as nat);
            assert(total as u64 as nat == total as nat);
            assert(header =~= "## Todos for "@ + date@ + " ("@ + dec_digits(done as nat) + "/"@
                + dec_digits(total as nat) + ")"@ + seq!['\n']);
        }
        let mut k: usize = 0;
        while k < total
            invariant
                0 <= k <= total,
                total == items@.len(),
                out@ == header + items_lines_upto(items@, 0, k as int),
            decreases total - k,
        {
            out.append("\n");
            let line = TodoListResponse::render_line(&items[k]);
            out.append(line.as_str());
            proof {
                reveal_strlit("\n");
                lemma_items_lines_snoc(items@, 0, k as int);
            }
            k += 1;
        }
        proof {
            lemma_items_lines_upto_full(items@, 0);
            assert(out@ =~= formatted_chars(date@, items@));
        }
        out
    }

    fn render_line(it: &TodoItemResponse) -> (r: String)
        ensures
            r@ == item_line_chars(*it),
    {
        let mut out = two_spaces_repeated(it.indent_level);
        if str_eq(it.state.as_str(), "x") {
            out.append("\u{2705}");
        } else if str_eq(it.state.as_str(), "?") {
            out.append("\u{2754}");
        } else if str_eq(it.state.as_str(), "!") {
            out.append("\u{2757}");
        } else {
            out.append("\u{2B1C}");
        }
        out.append(" ");
        out.append(it.content.as_str());
        match &it.due_date {
            Some(d) => {
                out.append(" (due: ");
                out.append(d.as_str());
                out.append(")");
            },
            None => {},
        }
        proof {
            reveal_strlit(" ");
            assert(out@ =~= item_line_chars(*it));
        }
        out
    }
}

impl TodoItemResponse {
    /// Renders one checklist item to plain wire strings.
    pub fn from_item(item: &TodoItem) -> (r: TodoItemResponse)
        requires
            item.due_date matches Some(d) ==> 0 <= d.year < 10000 && d.month < 100 && d.day
                < 100,
        ensures
            r.id@ == uuid_chars(item.id),
            r.content == item.content,
            r.state@ == state_char_chars(item.state),
            r.state_description@ == state_description_chars(item.state),
            r.indent_level == item.indent_level,
            r.parent_id matches Some(p) <==> item.parent_id is Some,
            item.parent_id matches Some(pid) ==> r.parent_id matches Some(p) && p@ == uuid_chars(
                pid,
            ),
            r.due_date matches Some(d2) <==> item.due_date is Some,
            item.due_date matches Some(d) ==> r.due_date matches Some(d2) && d2@
                == crate::dates::ymd_chars(d),
            r.description == item.description,
    {
        proof {
            reveal_strlit(" ");
            reveal_strlit("x");
            reveal_strlit("?");
            reveal_strlit("!");
            reveal_strlit("*");
        }
        let state = match item.state {
            TodoState::Empty => <String as StringExecFns>::from_str(" "),
            TodoState::Checked => <String as StringExecFns>::from_str("x"),
            TodoState::Question => <String as StringExecFns>::from_str("?"),
            TodoState::Exclamation => <String as StringExecFns>::from_str("!"),
            TodoState::InProgress => <String as StringExecFns>::from_str("*"),
        };
        proof {
            assert(state@ =~= state_char_chars(item.state));
        }
        let state_description = match item.state {
            TodoState::Empty => <String as StringExecFns>::from_str("pending"),
            TodoState::Checked => <String as StringExecFns>::from_str("done"),
            TodoState::Question => <String as StringExecFns>::from_str("question"),
            TodoState::Exclamation => <String as StringExecFns>::from_str("important"),
            TodoState::InProgress => <String as StringExecFns>::from_str("in progress"),
        };
        let parent_id = match item.parent_id {
            Some(pid) => Some(uuid_to_string(pid)),
            None => None,
        };
        let due_date = match item.due_date {
            Some(d) => Some(d.format_ymd()),
            None => None,
        };
        let description = match &item.description {
            Some(d) => Some(d.clone()),
            None => None,
        };
        TodoItemResponse {
            id: uuid_to_string(item.id),
            content: item.content.clone(),
            state,
            state_description,
            indent_level: item.indent_level,
            parent_id,
            due_date,
            description,
        }
    }
}

/// The rendered lines of the items in `[i, k)`, each preceded by a line
/// break.
pub open spec fn items_lines_upto(items: Seq<TodoItemResponse>, i: int, k: int) -> Seq<char>
    decreases k - i,
{
    if i < 0 || i >= k || i >= items.len() {
        Seq::<char>::empty()
    } else {
        seq!['\n'] + item_line_chars(items[i]) + items_lines_upto(items, i + 1, k)
    }
}

proof fn lemma_items_lines_snoc(items: Seq<TodoItemResponse>, i: int, k: int)
    requires
        0 <= i <= k < items.len(),
    ensures
        items_lines_upto(items, i, k) + seq!['\n'] + item_line_chars(items[k])
            =~= items_lines_upto(items, i, k + 1),
    decreases k - i,
{
    if i < k {
        lemma_items_lines_snoc(items, i + 1, k);
        let li = item_line_chars(items[i]);
        let lk = item_line_chars(items[k]);
        assert(items_lines_upto(items, i + 1, k) + seq!['\n'] + lk == items_lines_upto(
            items,
            i + 1,
            k + 1,
        ));
        assert(items_lines_upto(items, i, k) + seq!['\n'] + lk =~= seq!['\n'] + li
            + (items_lines_upto(items, i + 1, k) + seq!['\n'] + lk));
        assert(items_lines_upto(items, i, k + 1) == seq!['\n'] + li + items_lines_upto(
            items,
            i + 1,
            k + 1,
        ));
    } else {
        assert(items_lines_upto(items, i, k) =~= Seq::<char>::empty());
        assert(items_lines_upto(items, i + 1, k + 1) =~= Seq::<char>::empty());
        assert(items_lines_upto(items, i, k + 1) == seq!['\n'] + item_line_chars(items[i])
            + items_lines_upto(items, i + 1, k + 1));
    }
}

proof fn lemma_items_lines_upto_full(items: Seq<TodoItemResponse>, i: int)
    requires
        0 <= i,
    ensures
        items_lines_upto(items, i, items.len() as int) =~= items_lines(items, i),
    decreases items.len() - i,
{
    if i < items.len() {
        lemma_items_lines_upto_full(items, i + 1);
    }
}

} // verus!
