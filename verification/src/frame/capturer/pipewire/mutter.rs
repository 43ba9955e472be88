//! Waiting for the stream of a desktop.

use vstd::prelude::*;

verus! {

/// How long an answer may take, in nanoseconds.
pub const TIMEOUT: u128 = 5_000_000_000;

/// What to do while a stream is waited for.
#[derive(Clone, Copy, Debug, PartialEq, Eq, Structural)]
pub enum Wait {
    Found(u32),
    /// Wait for so many nanoseconds at most.
    For(u128),
    TimedOut,
}

/// What to do while a stream is waited for until the deadline.
pub fn wait(node: Option<u32>, deadline: u128, now: u128) -> (r: Wait)
    ensures
        r == match node {
            Some(node) => Wait::Found(node),
            None => if now < deadline {
                Wait::For((deadline - now) as u128)
            } else {
                Wait::TimedOut
            },
        },
{
    match node {
        Some(node) => Wait::Found(node),
        None => if now < deadline {
            Wait::For(deadline - now)
        } else {
            Wait::TimedOut
        },
    }
}

} // verus!
