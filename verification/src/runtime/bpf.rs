//! In-kernel enforcement, without which nothing is launched.
use vstd::prelude::*;

use crate::error::Error;
use crate::error::ErrorModel;
use crate::text;

verus! {

/// Whether enforcement is there, from how loading it went. The answer is the same for as long as
/// the process lives, since it is loaded once.
pub fn enforcement(loaded: &Result<(), String>) -> (r: Result<(), Error>)
    ensures
        match *loaded {
            Ok(_) => r is Ok,
            Err(m) => r matches Err(e) && e@ == ErrorModel::LaunchFailed(
                "BPF LSM enforcement unavailable: "@ + m@
                    + " — the sandbox would run without in-kernel policy, so the launch is refused"@,
            ),
        },
{
    match loaded {
        Ok(_) => Ok(()),
        Err(m) => Err(
            Error::LaunchFailed(
                text::cat3(
                    "BPF LSM enforcement unavailable: ",
                    m.as_str(),
                    " — the sandbox would run without in-kernel policy, so the launch is refused",
                ),
            ),
        ),
    }
}

} // verus!
