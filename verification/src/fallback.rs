//! Content that is laid out as it would be on paper: its text, its tags, and the
//! images it is embedded as.

pub mod layout;
pub mod text;
pub mod tiles;
