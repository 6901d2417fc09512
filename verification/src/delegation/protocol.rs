use vstd::prelude::*;

use super::types::{DelegationRequest, DelegationResult};
use crate::message::types::{is_v4_uuid_text, random_uuid_string};

verus! {

/// The protocol by which one agent hands a task to another.
pub struct DelegationProtocol;

impl DelegationProtocol {
    /// The protocol.
    pub fn new() -> (p: Self) {
        DelegationProtocol
    }

    /// Delegates `request`: every delegation currently succeeds at once, in
    /// a fresh session, with no output.
    pub fn delegate(&self, request: DelegationRequest) -> (r: DelegationResult)
        ensures
            r.success,
            is_v4_uuid_text(r.session_id@),
            r.output is None,
    {
        DelegationResult { success: true, session_id: random_uuid_string(), output: None }
    }
}

impl Default for DelegationProtocol {
    fn default() -> (p: Self) {
        Self::new()
    }
}

} // verus!
