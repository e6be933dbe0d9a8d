//! The LMDB engine: how its environment is opened and what a lookup answers.
//! The reads and writes themselves happen on disk, in the host.

use vstd::prelude::*;
use crate::proto::{BackendError, BackendResult, Str};

verus! {

/// The size of the memory map that the environment is opened with: 100 MiB.
pub const MAP_SIZE: usize = 1024 * 1024 * 100;

/// How to open the environment: where, with which map size, and whether
/// to create the directory where it is missing.
pub struct EnvPlan {
    pub path: String,
    pub map_size: usize,
    pub make_dir_if_needed: bool,
}

/// How the single unnamed store of the environment is opened.
#[derive(Debug, Clone, Copy, PartialEq, Eq, Structural)]
pub enum StoreAttempt {
    /// Open the store as it stands.
    Existing,
    /// Open the store, creating it where it is missing.
    Create,
}

/// What the LMDB store holds under a key, as far as a lookup cares: a
/// string, or a value of another kind.
pub enum LmdbValue {
    Str(String),
    Other,
}

/// The plan to open the environment at `path`: a map of [`MAP_SIZE`]
/// bytes, with the directory made where needed.
pub fn plan(path: String) -> (p: EnvPlan)
    ensures
        p.path@ == path@,
        p.map_size == MAP_SIZE,
        p.map_size == 104857600,
        p.make_dir_if_needed,
{
    EnvPlan { path, map_size: MAP_SIZE, make_dir_if_needed: true }
}

/// The next way to open the store after `failed` (or first, where nothing
/// was tried): the store as it stands first, then with creation; after
/// that the open fails.
pub fn next_attempt(failed: Option<StoreAttempt>) -> (next: Option<StoreAttempt>)
    ensures
        failed is None ==> next == Some(StoreAttempt::Existing),
        failed == Some(StoreAttempt::Existing) ==> next == Some(StoreAttempt::Create),
        failed == Some(StoreAttempt::Create) ==> next is None,
{
    match failed {
        None => Some(StoreAttempt::Existing),
        Some(StoreAttempt::Existing) => Some(StoreAttempt::Create),
        Some(StoreAttempt::Create) => None,
    }
}

/// The answer to a lookup, from what the store held under the key: a
/// string is the value; anything else, or nothing, is an error.
pub fn answer(found: Option<LmdbValue>) -> (r: BackendResult<Str>)
    ensures
        match found {
            Some(LmdbValue::Str(s)) => r matches Ok(v) && v.val@ == s@,
            _ => r matches Err(BackendError::NotExists),
        },
{
    match found {
        Some(LmdbValue::Str(s)) => Ok(Str { val: s }),
        _ => Err(BackendError::NotExists),
    }
}

} // verus!
