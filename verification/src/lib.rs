//! A hierarchical checklist library.
//!
//! A checklist is a flat, ordered sequence of items; the tree structure is
//! implicit in each item's indentation depth.  The library provides the
//! structural queries and mutations that keep that encoding consistent:
//! subtree span computation, single-item and whole-subtree indent and
//! outdent, subtree relocation, range-based bulk edits, parent-reference
//! recomputation, and snapshot-based undo.

use vstd::prelude::*;

mod appstate;
mod config;
mod dates;
mod editing;
mod errors;
mod hierarchy;
mod item;
mod keybindings;
mod list;
mod markdown;
mod mcp;
mod mode;
mod model;
mod paths;
mod state;
mod textnum;
mod textscan;
mod unicode;

pub use appstate::AppState;
pub use appstate::MAX_UNDO_HISTORY;
pub use config::Config;
pub use dates::Date;
pub use dates::days_in_month;
pub use dates::is_leap_year;
pub use dates::today_date;
pub use dates::parse_date_ymd;
pub use paths::create_rolled_over_list;
pub use paths::get_config_path;
pub use paths::get_daily_file_path;
pub use paths::get_dailies_dir;
pub use paths::get_database_path;
pub use paths::get_pid_file_path;
pub use paths::get_to_tui_dir;
pub use unicode::after_first_char;
pub use unicode::first_char_as_str;
pub use unicode::next_char_boundary;
pub use unicode::prev_char_boundary;
pub use keybindings::Action;
pub use keybindings::KeyBinding;
pub use keybindings::KeyCode;
pub use keybindings::KeyLookupResult;
pub use keybindings::KeySequence;
pub use keybindings::KeybindingCache;
pub use keybindings::KeybindingsConfig;
pub use keybindings::MOD_ALT;
pub use keybindings::MOD_CONTROL;
pub use keybindings::MOD_SHIFT;
pub use markdown::parse_todo_line;
pub use markdown::parse_todo_list;
pub use markdown::serialize_todo_list;
pub use markdown::serialize_todo_list_clean;
pub use markdown::split_lines;
pub use mcp::CreateTodoRequest;
pub use mcp::DeleteTodoRequest;
pub use mcp::DeleteTodoResponse;
pub use mcp::ListTodosRequest;
pub use mcp::MarkCompleteRequest;
pub use mcp::McpErrorDetail;
pub use mcp::TodoItemResponse;
pub use mcp::TodoListResponse;
pub use mcp::UpdateTodoRequest;
pub use mcp::parse_date;
pub use mcp::parse_state;
pub use mcp::parse_uuid;
pub use mcp::uuid_to_string;
pub use mode::Mode;
pub use errors::TodoError;
pub use item::TodoItem;
pub use list::TodoList;
pub use state::TodoState;

verus! {

} // verus!
