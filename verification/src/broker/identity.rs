//! The identities under which sandboxes act.
use vstd::prelude::*;

use crate::error::Error;
use crate::id::SandboxId;

verus! {

/// Gives out SPIFFE identities.
pub struct SvidManager;

impl SvidManager {
    /// A manager. It always comes about.
    pub fn new() -> (r: Result<Self, Error>)
        ensures
            r is Ok,
    {
        Ok(SvidManager)
    }

    /// The identity of a sandbox.
    pub fn request_svid(&self, sandbox_id: &SandboxId) -> (r: Result<String, Error>)
        ensures
            r matches Ok(s) && s@ == "spiffe://aivisor/agent/"@ + sandbox_id.shown(),
    {
        let mut s = "spiffe://aivisor/agent/".to_owned();
        s.append(sandbox_id.to_string().as_str());
        Ok(s)
    }
}

} // verus!
