//! Checkpoints of running processes.
use vstd::prelude::*;

use crate::error::Error;
use crate::error::ErrorModel;

verus! {

/// Checkpoint and restore, which this build cannot do.
#[derive(Debug)]
pub struct CriuHandle;

impl CriuHandle {
    /// A handle, which can always be had.
    pub fn new() -> (r: Result<Self, Error>)
        ensures
            r is Ok,
    {
        Ok(CriuHandle)
    }

    /// Checkpoints are refused.
    pub fn checkpoint(&self, _pid: i32, _image_dir: &str) -> (r: Result<(), Error>)
        ensures
            r matches Err(e) && e@ == ErrorModel::Unsupported("CRIU checkpoint in Phase 4"@),
    {
        Err(Error::Unsupported("CRIU checkpoint in Phase 4".to_owned()))
    }

    /// Restores are refused.
    pub fn restore(&self, _image_dir: &str) -> (r: Result<i32, Error>)
        ensures
            r matches Err(e) && e@ == ErrorModel::Unsupported("CRIU restore in Phase 4"@),
    {
        Err(Error::Unsupported("CRIU restore in Phase 4".to_owned()))
    }

    /// Whether checkpoints can be had: they cannot.
    pub fn check_available() -> (r: Result<bool, Error>)
        ensures
            r == Ok::<bool, Error>(false),
    {
        Ok(false)
    }
}

} // verus!
