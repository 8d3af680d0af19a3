//! References to policies, and the identity of executables.
use vstd::prelude::*;

use crate::policy::yaml::Yaml;

verus! {

/// A policy by name, with overrides.
#[derive(Debug)]
pub struct PolicyRef {
    pub name: String,
    pub overrides: Option<Yaml>,
}

/// The identity of an executable as the exec hook sees it: the kernel's number of the device of
/// the mount that holds the file, as `mountinfo` gives it, and the inode.
#[derive(Debug, Clone, Copy, PartialEq, Eq, Structural)]
pub struct ExecIdentity {
    pub dev: u64,
    pub inode: u64,
}

} // verus!
