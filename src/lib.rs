//! In-place search and replace over the lines of text files.
//!
//! The verified part holds the decisions: which files and directories a walk
//! takes, how each line is matched and rewritten, what a file's fate is, and
//! how a run's counters move. Walking the file system and touching files is
//! left to the caller.
pub mod filter;
pub mod pattern;
pub mod engine;
pub mod summary;
pub mod template;
pub mod laws;
