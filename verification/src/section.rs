//! Provides the sections that make up one line of a listing.

pub mod color;
pub mod mode;
pub mod name;
pub mod size;
pub mod time;
pub mod tree;
pub mod user;
