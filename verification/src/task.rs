//! Counting the tasks that panic.
use vstd::prelude::*;

verus! {

/// How a spawned task ended, and by how much its panic counter goes up.
#[derive(Debug, PartialEq, Eq)]
pub struct Joined<T, E> {
    pub result: Result<T, E>,
    pub panics: u64,
}

/// Looks at what waiting for a task has given. A task that gave no value has panicked.
pub fn join<T, E>(result: Result<T, E>) -> (r: Joined<T, E>)
    ensures
        r.result == result,
        r.panics == (if result is Err {
            1u64
        } else {
            0u64
        }),
{
    let panics: u64 = match &result {
        Ok(_) => 0,
        Err(_) => 1,
    };
    Joined { result, panics }
}

} // verus!
