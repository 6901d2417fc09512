use vstd::prelude::*;

verus! {

/// The fallback parser of intents. Its `parse`, which reports a confidence
/// as a floating-point number, stands outside the verified library.
pub struct IntentParser;

} // verus!
