//! The commands: what each decides from its arguments and from what the
//! file system and the user say.

pub mod decrypt;
pub mod encrypt;
pub mod unpack;

use crate::actions::{ActionError, Failure};
use crate::batch::PathState;
use vstd::prelude::*;
use vstd::string::*;

verus! {

/// What the `i`-th input path leads to; a path that nothing is known of
/// counts as missing.
pub open spec fn spec_state_at(states: Seq<PathState>, i: int) -> PathState {
    if 0 <= i < states.len() {
        states[i]
    } else {
        PathState::Missing
    }
}

/// One of the first `n` input paths is missing.
pub open spec fn spec_any_missing(states: Seq<PathState>, n: int) -> bool {
    exists|i: int| 0 <= i < n && #[trigger] spec_state_at(states, i) == PathState::Missing
}

/// The error of a key that cannot be used, if it is one: a key that
/// differs from its confirmation, or an empty key.
pub open spec fn spec_key_failure(key: Seq<char>, confirm: Seq<char>) -> Option<Failure> {
    if key != confirm {
        Some(Failure::KeysDiffer)
    } else if key.len() < 1 {
        Some(Failure::EmptyKey)
    } else {
        None
    }
}

/// What the `i`-th input path leads to.
pub fn state_at(states: &Vec<PathState>, i: usize) -> (state: PathState)
    ensures
        state == spec_state_at(states@, i as int),
{
    if i < states.len() {
        states[i]
    } else {
        PathState::Missing
    }
}

/// Whether one of the first `n` input paths is missing.
pub fn any_missing(states: &Vec<PathState>, n: usize) -> (missing: bool)
    ensures
        missing == spec_any_missing(states@, n as int),
{
    let mut i: usize = 0;
    while i < n
        invariant
            i <= n,
            forall|k: int| 0 <= k < i ==> #[trigger] spec_state_at(states@, k) != PathState::Missing,
        decreases n - i,
    {
        if state_at(states, i) == PathState::Missing {
            return true;
        }
        i += 1;
    }
    false
}

/// Checks the key of a decryption: it must not be empty.
pub fn check_key(key: &str) -> (r: Result<(), ActionError>)
    ensures
        match r {
            Ok(_) => key@.len() >= 1,
            Err(e) => key@.len() == 0 && e.failure == Failure::EmptyKey && e.detail is None,
        },
{
    if key.is_empty() {
        Err(ActionError::new(Failure::EmptyKey))
    } else {
        Ok(())
    }
}

/// Checks the key of an encryption: it must be the same as its
/// confirmation, and not empty.
pub fn check_keys(key: &String, confirm: &String) -> (r: Result<(), ActionError>)
    ensures
        match r {
            Ok(_) => spec_key_failure(key@, confirm@) is None,
            Err(e) => spec_key_failure(key@, confirm@) == Some(e.failure) && e.detail is None,
        },
{
    if !(*key == *confirm) {
        Err(ActionError::new(Failure::KeysDiffer))
    } else if key.as_str().is_empty() {
        Err(ActionError::new(Failure::EmptyKey))
    } else {
        Ok(())
    }
}

} // verus!
