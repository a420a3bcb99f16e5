//! Brute-force search for function signatures whose Keccak-256 selector
//! collides with a given four-byte selector.

pub mod alphabet;
pub mod enumerator;
pub mod progress;
pub mod collision_finder;
pub mod target;
pub mod cli;
