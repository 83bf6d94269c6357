//! What a caller reports of a utility that it ran.

use vstd::prelude::*;

verus! {

/// What became of running a utility once, with no input.
#[derive(Debug, Clone)]
pub enum CommandRun {
    /// The utility could not be launched; `reason` says why.
    NotStarted { reason: String },
    /// The utility ran to its end. `success` tells whether its exit status
    /// was zero; `stdout` and `stderr` hold what it printed, as text.
    Finished { success: bool, stdout: String, stderr: String },
}

/// A string that holds the characters of `s`.
pub fn owned(s: &str) -> (r: String)
    ensures
        r@ == s@,
{
    s.to_owned()
}

/// `head` followed by `tail`.
pub fn followed(head: &str, tail: &str) -> (r: String)
    ensures
        r@ == head@ + tail@,
{
    let mut r = head.to_owned();
    r.append(tail);
    r
}

} // verus!
