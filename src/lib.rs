//! A batch file-rename engine: list the regular files of a directory, then apply
//! user-chosen names one by one, stopping at the first failure.
pub mod entry;
pub mod error;
pub mod listing;
pub mod rename;
pub mod text;
