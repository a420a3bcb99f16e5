//! The progress that a running search shares with whoever watches it: the
//! number of candidates tested so far and the text of the latest one.
//!
//! Both values are written by the search alone. Nothing is known here about
//! what a reader sees in them at a given moment.

use vstd::prelude::*;
use std::sync::{Arc, Mutex};
use std::sync::atomic::{AtomicUsize, Ordering};

verus! {

#[verifier::external_type_specification]
#[verifier::external_body]
#[verifier::reject_recursive_types(T)]
pub struct ExMutex<T: ?Sized>(Mutex<T>);

/// Counts one more tested candidate.
pub(crate) fn count_guess(guess_counter: &Arc<AtomicUsize>) {
    guess_counter.fetch_add(1, Ordering::Relaxed);
}

/// Stores `candidate` as the latest candidate tested, through
/// `std::sync::Mutex::lock`. The lock is held for the copy only. Nothing is
/// claimed of the outcome: a lock that a panicking holder poisoned is left
/// as it is.
#[verifier::external_body]
pub(crate) fn publish_guess(latest_function_guess: &Arc<Mutex<String>>, candidate: &str) {
    if let Ok(mut slot) = latest_function_guess.lock() {
        *slot = candidate.to_string();
    }
}

} // verus!
