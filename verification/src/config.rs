//! User configuration.

use vstd::prelude::*;

use vstd::string::StringExecFns;

verus! {

/// The user's settings.  Reading and writing the configuration file is
/// the shell's business; the library only defines the settings and their
/// defaults.
#[derive(Debug)]
pub struct Config {
    pub theme: String,
}

impl Clone for Config {
    fn clone(&self) -> (r: Self)
        ensures
            r.theme@ == self.theme@,
    {
        Config { theme: self.theme.clone() }
    }
}

impl Default for Config {
    fn default() -> (r: Self)
        ensures
            r.theme@ == "default"@,
    {
        Config { theme: String::from_str("default") }
    }
}

} // verus!
