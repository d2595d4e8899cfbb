//! The logic of a host for coding agents: talking to git hosting platforms through their command
//! line tools, and running an OpenCode agent and reading what it does.
//!
//! Programs, files and connections are the caller's: the functions here say what to run or send,
//! and take what came back.
use vstd::prelude::*;

pub mod decimal;
pub mod git_host;
pub mod json;
pub mod model;
pub mod opencode;
pub mod process;
pub mod text;
pub mod time;

verus! {

} // verus!
