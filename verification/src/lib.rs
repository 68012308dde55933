//! The core of a directory lister: composable entry filters and comparators, directory snapshots,
//! a depth-first walker that threads an explicit parent chain, and the option model that selects
//! them.

pub mod files;
pub mod section;
pub mod arguments;
pub mod exit_codes;
