//! Actors: components that own their state and take messages one at a time.
use vstd::prelude::*;
use vstd::string::*;

verus! {

/// An actor's task has stopped: its inbox is closed, or it dropped the reply channel before it
/// answered.
#[derive(Debug, Clone, Copy, PartialEq, Eq)]
pub struct Stopped;

impl Stopped {
    /// The error in words.
    pub fn message(&self) -> (r: String)
        ensures
            r@ == "actor has stopped"@,
    {
        "actor has stopped".to_owned()
    }
}

} // verus!
