//! Validation errors raised by the action flows.

use vstd::prelude::*;

verus! {

/// Error state of an action flow. `NONE` means no error is being shown;
/// the other variants are validation failures raised by `attempt`-style
/// operations and dismissed by the user.
#[derive(Debug, PartialEq, Eq, Structural, Clone, Copy)]
pub enum ErrorType {
    NONE,
    FileNotFound,
    FileExists,
}

impl ErrorType {
    /// The message shown to the user while this error is displayed.
    pub fn message(&self) -> (r: String)
        ensures
            *self is FileNotFound ==> r@ == "File not found"@,
            *self is FileExists ==> r@ == "File already exists"@,
            *self is NONE ==> r@ == ""@,
    {
        match self {
            ErrorType::FileNotFound => "File not found".to_owned(),
            ErrorType::FileExists => "File already exists".to_owned(),
            ErrorType::NONE => "".to_owned(),
        }
    }
}

} // verus!
