use vstd::prelude::*;

verus! {

/// The default bound on the tokens of one answer.
pub fn default_max_tokens() -> (n: u32)
    ensures
        n == 4096,
{
    4096
}

/// Agents are enabled unless their configuration says otherwise.
pub fn default_enabled() -> (b: bool)
    ensures
        b,
{
    true
}

} // verus!
