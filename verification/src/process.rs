//! Commands: what is handed to a program and what comes back from it.
use vstd::prelude::*;

use crate::text;

verus! {

/// What a program left behind.
pub struct CommandOutput {
    /// Whether it ended without an error.
    pub success: bool,
    /// Its exit code, where it has one.
    pub code: Option<i32>,
    /// What it wrote to its standard output.
    pub stdout: Vec<u8>,
    /// What it wrote to its standard error.
    pub stderr: Vec<u8>,
}

/// What came of starting a program.
pub enum Launch {
    /// The program was not found.
    NotFound,
    /// It could not be run, for the reason given.
    NotRun(String),
    /// It ran to its end.
    Ended(CommandOutput),
}

/// Whether a value stands among arguments directly after its flag.
pub open spec fn flagged(args: Seq<Seq<char>>, flag: Seq<char>, value: Seq<char>) -> bool {
    exists|i: int| 0 <= i < args.len() - 1 && #[trigger] args[i] == flag && args[i + 1] == value
}

/// What stands after an argument is flagged by it.
pub proof fn lemma_flagged(args: Seq<Seq<char>>, i: int)
    requires
        0 <= i < args.len() - 1,
    ensures
        flagged(args, args[i], args[i + 1]),
{
}

/// Command line arguments of their own from borrowed ones.
pub fn arguments(parts: &Vec<&str>) -> (res: Vec<String>)
    ensures
        res.deep_view() == parts.deep_view(),
{
    let mut out: Vec<String> = Vec::new();
    for i in 0..parts.len()
        invariant
            out.deep_view() == parts.deep_view().take(i as int),
    {
        let ghost before = out.deep_view();
        out.push(text::owned(parts[i]));
        assert(out.deep_view() == before.push(parts@[i as int]@));
        assert(parts.deep_view().take(i + 1) == before.push(parts@[i as int]@));
    }
    assert(parts.deep_view().take(parts@.len() as int) == parts.deep_view());
    out
}

/// A copy of an optional string.
pub fn copy_opt(s: &Option<String>) -> (res: Option<String>)
    ensures
        res == *s,
{
    match s {
        Some(s) => Some(s.clone()),
        None => None,
    }
}

/// The string slice of an optional string.
pub fn borrow_opt<'a>(s: &'a Option<String>) -> (res: Option<&'a str>)
    ensures
        res.deep_view() == s.deep_view(),
{
    match s {
        Some(s) => Some(s.as_str()),
        None => None,
    }
}

} // verus!
