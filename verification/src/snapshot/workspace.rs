//! Snapshots of workspaces.
use vstd::prelude::*;

use crate::error::Error;
use crate::error::ErrorModel;

verus! {

/// Snapshots of workspaces, which this build cannot make. Both operations are refused, so that no
/// caller takes an empty workspace for a restored one.
#[derive(Debug)]
pub struct WorkspaceSnapshot;

/// A snapshot.
#[derive(Debug)]
pub struct SnapshotRef {
    pub id: String,
}

impl WorkspaceSnapshot {
    /// Making a snapshot is refused.
    pub fn create(_upper_dir: &str) -> (r: Result<SnapshotRef, Error>)
        ensures
            r matches Err(e) && e@ == ErrorModel::Unsupported(
                "workspace snapshot creation not implemented in this build"@,
            ),
    {
        Err(Error::Unsupported("workspace snapshot creation not implemented in this build".to_owned()))
    }

    /// Restoring a snapshot is refused.
    pub fn restore(_snap: &SnapshotRef, _target: &str) -> (r: Result<(), Error>)
        ensures
            r matches Err(e) && e@ == ErrorModel::Unsupported(
                "workspace snapshot restore not implemented in this build"@,
            ),
    {
        Err(Error::Unsupported("workspace snapshot restore not implemented in this build".to_owned()))
    }
}

} // verus!
