//! Where the application keeps its files, computed from the home
//! directory.

use vstd::prelude::*;

use vstd::string::StrSliceExecFns;
use vstd::string::StringExecFns;

use crate::dates::Date;
use crate::dates::ymd_chars;

verus! {

/// A path extended by one component, with a separator added unless the
/// base already ends in one.
pub open spec fn path_join(base: Seq<char>, component: Seq<char>) -> Seq<char> {
    if base.len() > 0 && base.last() == '/' {
        base + component
    } else {
        base + seq!['/'] + component
    }
}

/// Relies on dirs::home_dir: the user's home directory, if the platform
/// reports one, converted to a string.
#[verifier::external_body]
fn home_dir_string() -> Option<String> {
    dirs::home_dir().map(|p| p.to_string_lossy().into_owned())
}

fn join_component(base: &str, component: &str) -> (r: String)
    ensures
        r@ == path_join(base@, component@),
{
    proof {
        reveal_strlit("/");
    }
    let n = base.unicode_len();
    if n > 0 && base.get_char(n - 1) == '/' {
        let r = String::from_str(base).concat(component);
        proof {
            assert(r@ =~= path_join(base@, component@));
        }
        r
    } else {
        let r = String::from_str(base).concat("/").concat(component);
        proof {
            assert(r@ =~= path_join(base@, component@));
        }
        r
    }
}

/// The application's own directory under the user's home.
pub fn get_to_tui_dir() -> (r: Result<String, String>)
    ensures
        r matches Ok(p) ==> exists|h: Seq<char>| p@ == path_join(h, ".to-tui"@),
        r matches Err(e) ==> e@ == "Could not find home directory"@,
{
    match home_dir_string() {
        Some(home) => {
            let dir = join_component(home.as_str(), ".to-tui");
            proof {
                assert(dir@ == path_join(home@, ".to-tui"@));
            }
            Ok(dir)
        },
        None => Err(String::from_str("Could not find home directory")),
    }
}

/// Where the per-day checklist files live.
pub fn get_dailies_dir() -> (r: Result<String, String>)
    ensures
        r matches Ok(p) ==> exists|h: Seq<char>|
            p@ == path_join(path_join(h, ".to-tui"@), "dailies"@),
        r matches Err(e) ==> e@ == "Could not find home directory"@,
{
    match get_to_tui_dir() {
        Ok(dir) => Ok(join_component(dir.as_str(), "dailies")),
        Err(e) => Err(e),
    }
}

/// Where the configuration file lives.
pub fn get_config_path() -> (r: Result<String, String>)
    ensures
        r matches Ok(p) ==> exists|h: Seq<char>|
            p@ == path_join(path_join(h, ".to-tui"@), "config.toml"@),
        r matches Err(e) ==> e@ == "Could not find home directory"@,
{
    match get_to_tui_dir() {
        Ok(dir) => Ok(join_component(dir.as_str(), "config.toml")),
        Err(e) => Err(e),
    }
}

/// Where the task database lives.
pub fn get_database_path() -> (r: Result<String, String>)
    ensures
        r matches Ok(p) ==> exists|h: Seq<char>|
            p@ == path_join(path_join(h, ".to-tui"@), "todos.db"@),
        r matches Err(e) ==> e@ == "Could not find home directory"@,
{
    match get_to_tui_dir() {
        Ok(dir) => Ok(join_component(dir.as_str(), "todos.db")),
        Err(e) => Err(e),
    }
}

/// Where the background server records its process id.
pub fn get_pid_file_path() -> (r: Result<String, String>)
    ensures
        r matches Ok(p) ==> exists|h: Seq<char>|
            p@ == path_join(path_join(h, ".to-tui"@), "server.pid"@),
        r matches Err(e) ==> e@ == "Could not find home directory"@,
{
    match get_to_tui_dir() {
        Ok(dir) => Ok(join_component(dir.as_str(), "server.pid")),
        Err(e) => Err(e),
    }
}

/// The checklist file for one calendar day: `YYYY-MM-DD.md` under the
/// dailies directory.
pub fn get_daily_file_path(date: Date) -> (r: Result<String, String>)
    requires
        0 <= date.year < 10000,
        date.month < 100,
        date.day < 100,
    ensures
        r matches Ok(p) ==> exists|h: Seq<char>|
            p@ == path_join(path_join(path_join(h, ".to-tui"@), "dailies"@), ymd_chars(date) + ".md"@),
        r matches Err(e) ==> e@ == "Could not find home directory"@,
{
    match get_dailies_dir() {
        Ok(dir) => {
            let name = date.format_ymd().concat(".md");
            Ok(join_component(dir.as_str(), name.as_str()))
        },
        Err(e) => Err(e),
    }
}

/// A fresh checklist for `date` over carried-over items, backed by the
/// day's file.
pub fn create_rolled_over_list(date: Date, items: Vec<crate::item::TodoItem>) -> (r: Result<
    crate::list::TodoList,
    String,
>)
    requires
        0 <= date.year < 10000,
        date.month < 100,
        date.day < 100,
    ensures
        match r {
            Ok(list) => list.date == date && list.items == items,
            Err(e) => e@ == "Could not find home directory"@,
        },
{
    match get_daily_file_path(date) {
        Ok(p) => Ok(crate::list::TodoList::with_items(date, p, items)),
        Err(e) => Err(e),
    }
}

} // verus!
