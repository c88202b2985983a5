//! The lines that report warnings and errors to the user.

use vstd::prelude::*;

verus! {

/// What opens a warning line.
pub const WARNING_LABEL: &'static str = "Warning: ";

/// What opens an error line.
pub const ERROR_LABEL: &'static str = "Error: ";

/// The line that reports the warning `s`.
pub fn warn(s: &str) -> (r: String)
    ensures
        r@ == WARNING_LABEL@ + s@,
{
    String::from_str(WARNING_LABEL).concat(s)
}

/// The line that reports the error `s`.
pub fn error(s: &str) -> (r: String)
    ensures
        r@ == ERROR_LABEL@ + s@,
{
    String::from_str(ERROR_LABEL).concat(s)
}

} // verus!
