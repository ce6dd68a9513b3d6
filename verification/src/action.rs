//! The staged action recorded against one orphan candidate.

use vstd::prelude::*;

verus! {

/// An operator-chosen intent for one candidate package, recorded but not yet
/// executed. Every candidate starts at `Nothing`; staging unconditionally
/// overwrites the previous intent.
#[derive(Clone, Copy, Debug, PartialEq, Eq, Structural)]
pub enum DedepAction {
    /// Convert the package's install reason to explicitly installed.
    Explicit,
    /// No change requested.
    Nothing,
    /// Uninstall the package.
    Remove,
}

/// The single-character tag that the display form uses for an action.
pub open spec fn action_char(a: DedepAction) -> char {
    match a {
        DedepAction::Explicit => 'E',
        DedepAction::Nothing => ' ',
        DedepAction::Remove => 'R',
    }
}

impl DedepAction {
    /// The single-character tag shown for this action in a display line.
    pub fn as_char(&self) -> (c: char)
        ensures
            c == action_char(*self),
    {
        match self {
            DedepAction::Explicit => 'E',
            DedepAction::Nothing => ' ',
            DedepAction::Remove => 'R',
        }
    }
}

} // verus!
