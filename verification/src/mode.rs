//! The editor's interaction modes.

use vstd::prelude::*;

verus! {

/// Which input mode the editor is in.
#[derive(Debug, Clone, Copy, PartialEq, Eq, Structural)]
pub enum Mode {
    Navigate,
    Edit,
    Visual,
    ConfirmDelete,
    Plugin,
}

impl Default for Mode {
    fn default() -> (m: Mode)
        ensures
            m is Navigate,
    {
        Mode::Navigate
    }
}

impl Mode {
    /// The mode's display name, as shown in the status bar.
    pub fn name(self) -> (m: &'static str)
        ensures
            self is Navigate ==> m@ == "NAVIGATE"@,
            self is Edit ==> m@ == "INSERT"@,
            self is Visual ==> m@ == "VISUAL"@,
            self is ConfirmDelete ==> m@ == "CONFIRM"@,
            self is Plugin ==> m@ == "PLUGIN"@,
    {
        match self {
            Mode::Navigate => "NAVIGATE",
            Mode::Edit => "INSERT",
            Mode::Visual => "VISUAL",
            Mode::ConfirmDelete => "CONFIRM",
            Mode::Plugin => "PLUGIN",
        }
    }
}

} // verus!
