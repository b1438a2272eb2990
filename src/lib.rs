//! Turns a repository's commit history into a changelog grouped by release
//! and by kind of change.
pub mod cli;
pub mod conf;
pub mod grammar;
pub mod laws;
pub mod parser;
