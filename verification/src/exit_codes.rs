//! Defines the application's constant exit codes.

use vstd::prelude::*;

verus! {

/// The program ran successfully.
pub const SUCCESS: u8 = 0;

/// A generic error was encountered.
pub const ERROR_GENERIC: u8 = 1;

/// An invalid argument or number of arguments were provided.
pub const ERROR_CLI_USAGE: u8 = 2;

} // verus!
