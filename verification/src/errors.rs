//! The typed failures of container operations.

use vstd::prelude::*;

verus! {

/// Why a structural operation was refused.  Every operation fails locally
/// and leaves the container unchanged; none of these is fatal.
#[derive(Debug, Clone, Copy, PartialEq, Eq, Structural)]
pub enum TodoError {
    /// An index or range reaches outside the current sequence.
    OutOfRange,
    /// A deletion or extraction range is empty or inverted.
    InvalidRange,
    /// The first item can never be indented.
    IndentFirstItem,
    /// Indenting would nest the item more than one level below its
    /// predecessor.
    IndentBeyondParent,
    /// A root-level item cannot be outdented.
    OutdentTopLevel,
    /// The first item cannot move up.
    MoveFirstItemUp,
    /// The subtree already occupies the last position.
    MoveLastItemDown,
    /// The depth of the item would no longer fit in a machine word.
    DepthOverflow,
}

impl TodoError {
    /// The human-readable description of the failure.
    pub fn message(self) -> (m: &'static str)
        ensures
            self is OutOfRange ==> m@ == "Index out of bounds"@,
            self is InvalidRange ==> m@ == "Invalid range"@,
            self is IndentFirstItem ==> m@ == "Cannot indent first item"@,
            self is IndentBeyondParent ==> m@ == "Cannot indent beyond parent level"@,
            self is OutdentTopLevel ==> m@ == "Cannot outdent top-level item"@,
            self is MoveFirstItemUp ==> m@ == "Cannot move first item up"@,
            self is MoveLastItemDown ==> m@ == "Cannot move last item down"@,
            self is DepthOverflow ==> m@ == "Nesting depth limit reached"@,
    {
        match self {
            TodoError::OutOfRange => "Index out of bounds",
            TodoError::InvalidRange => "Invalid range",
            TodoError::IndentFirstItem => "Cannot indent first item",
            TodoError::IndentBeyondParent => "Cannot indent beyond parent level",
            TodoError::OutdentTopLevel => "Cannot outdent top-level item",
            TodoError::MoveFirstItemUp => "Cannot move first item up",
            TodoError::MoveLastItemDown => "Cannot move last item down",
            TodoError::DepthOverflow => "Nesting depth limit reached",
        }
    }
}

} // verus!
