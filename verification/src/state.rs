//! The states of a sandbox.
use vstd::prelude::*;

verus! {

/// Where a sandbox stands in its life.
#[derive(Debug, Clone, Copy, PartialEq, Eq, Structural)]
pub enum SandboxState {
    Provisioning,
    Ready,
    Running,
    Paused,
    Checkpointing,
    Restoring,
    Terminating,
    Terminated,
}

} // verus!
