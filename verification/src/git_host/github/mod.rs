//! GitHub.
pub mod cli;
pub mod comments;
