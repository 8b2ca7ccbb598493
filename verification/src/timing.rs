use vstd::prelude::*;

use crate::errors::EngineError;

verus! {

/// The build duration derived from a log file's creation and modification
/// times, in microseconds: `modified - created` when both are known and
/// modification does not precede creation, and nothing otherwise.
pub open spec fn spec_build_time(created_usec: Option<u64>, modified_usec: Option<u64>) -> Option<
    u64,
> {
    match (created_usec, modified_usec) {
        (Some(c), Some(m)) => if m >= c {
            Some((m - c) as u64)
        } else {
            None
        },
        _ => None,
    }
}

/// Resolves a build's duration from the timestamps of its on-disk log file,
/// each in microseconds since the epoch and absent when the file or the
/// respective time is unavailable. Fails with `TimingUnavailable` exactly
/// when either time is missing or modification precedes creation.
pub fn get_build_time(created_usec: Option<u64>, modified_usec: Option<u64>) -> (r: Result<
    u64,
    EngineError,
>)
    ensures
        match r {
            Ok(d) => spec_build_time(created_usec, modified_usec) == Some(d),
            Err(e) => e == EngineError::TimingUnavailable && spec_build_time(
                created_usec,
                modified_usec,
            ) is None,
        },
{
    match (created_usec, modified_usec) {
        (Some(c), Some(m)) => {
            if m >= c {
                Ok(m - c)
            } else {
                Err(EngineError::TimingUnavailable)
            }
        },
        _ => Err(EngineError::TimingUnavailable),
    }
}

} // verus!
