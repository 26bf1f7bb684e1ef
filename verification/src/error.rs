use vstd::prelude::*;

verus! {

/// Failure taxonomy of the navigation core.
///
/// `Cancelled` is the user-initiated abort of an iteration; `MissingSelection`
/// marks an action that required exactly one selected item but received none;
/// `SelectorFailed` is an internal failure of the interactive selector;
/// `Storage` and `Io` carry failures propagated from the storage interface and
/// from note-file rewrites.  None of these is retried or masked inside the
/// core: they all propagate to the orchestrator.
#[derive(Clone, Copy, Debug, PartialEq, Eq, Structural)]
pub enum CoreError {
    Cancelled,
    MissingSelection,
    SelectorFailed,
    Storage,
    Io,
}

impl CoreError {
    /// A short description, in place of a `Display` implementation.
    pub fn describe(&self) -> (r: &'static str)
        ensures
            r@ == self.spec_describe(),
    {
        match self {
            CoreError::Cancelled => "user chose to abort current iteration",
            CoreError::MissingSelection => "no item selected",
            CoreError::SelectorFailed => "selector internal errors",
            CoreError::Storage => "storage failure",
            CoreError::Io => "file write failure",
        }
    }

    pub open spec fn spec_describe(self) -> Seq<char> {
        match self {
            CoreError::Cancelled => "user chose to abort current iteration"@,
            CoreError::MissingSelection => "no item selected"@,
            CoreError::SelectorFailed => "selector internal errors"@,
            CoreError::Storage => "storage failure"@,
            CoreError::Io => "file write failure"@,
        }
    }
}

} // verus!
