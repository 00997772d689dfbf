//! The errors that declaration and dispatch report.
use vstd::prelude::*;

verus! {

/// What went wrong while declaring or dispatching an option.
#[derive(Debug, Clone, Copy, PartialEq, Eq, Structural)]
pub enum CommandError {
    /// A prefix declaration is not `short`, `long`, `short,long` or `long,short`.
    InvalidPrefix,
    /// Too few argument tokens, or a boolean value that is neither `true` nor `false`.
    InvalidArg,
    /// A value for an integer option is not a signed 64-bit decimal.
    ParseError,
    /// The flag token names no declared option.
    UnknownOption,
}

} // verus!
