use vstd::prelude::*;

pub use super::gate::IntentType;

verus! {

/// A shape of request that a message can follow.
#[derive(Debug, Clone, Copy, PartialEq, Eq, Hash, Structural)]
pub enum IntentPattern {
    HowTo,
    Create,
    Find,
    Fix,
    Evaluate,
}

/// The library of request shapes.
pub struct IntentPatternLibrary;

impl IntentPatternLibrary {
    /// The shape that `message` follows: the library holds none yet, so no
    /// message matches.
    pub fn match_pattern(message: &str) -> (p: Option<IntentPattern>)
        ensures
            p is None,
    {
        None
    }
}

} // verus!
