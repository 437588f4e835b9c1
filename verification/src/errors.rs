//! The error kinds that session and dispatcher operations surface.

use vstd::prelude::*;

verus! {

/// The recoverable failure kinds of the tracker.
///
/// `Validation`: a required input was empty. `Persistence`: the state file
/// could not be written or its contents could not be produced.
/// `Initialization`: the state file could not be created at all.
/// `Clear`: the state file could not be deleted during a clear.
/// `Report`: the report export failed; the session is preserved.
#[derive(Clone, Copy, Debug, PartialEq, Eq, Structural)]
pub enum AppError {
    Validation,
    Persistence,
    Initialization,
    Clear,
    Report,
}

impl AppError {
    /// The user-facing description of this error.
    pub open spec fn spec_message(self) -> Seq<char> {
        match self {
            AppError::Validation => "You should enter new task name!"@,
            AppError::Persistence => "Could not save state to file"@,
            AppError::Initialization => "Initialization fault"@,
            AppError::Clear => "Could not clear today's state"@,
            AppError::Report => "Could not save workbook"@,
        }
    }

    /// A user-facing description of the error.
    pub fn message(&self) -> (r: String)
        ensures
            r@ == self.spec_message(),
    {
        let s: &str = match self {
            AppError::Validation => "You should enter new task name!",
            AppError::Persistence => "Could not save state to file",
            AppError::Initialization => "Initialization fault",
            AppError::Clear => "Could not clear today's state",
            AppError::Report => "Could not save workbook",
        };
        s.to_owned()
    }
}

} // verus!
