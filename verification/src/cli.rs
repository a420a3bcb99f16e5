//! The configuration of one run, as the command line gives it.

use vstd::prelude::*;
use std::sync::{Arc, Mutex};
use std::sync::atomic::AtomicUsize;
use crate::collision_finder::{CollisionFinder, SearchError, SearchOutcome, search_result};
use crate::target::{parse_target_hash, target_of};

verus! {

/// The length of the variable segment where none is given.
pub const DEFAULT_LENGTH: usize = 6;

/// What a run is asked to do.
pub struct Cli {
    /// The target selector as hexadecimal text, with or without `0x` before it.
    pub target_hash: String,
    /// Text that every candidate starts with.
    pub prefix: Option<String>,
    /// Text that every candidate ends with, in place of `()`.
    pub suffix: Option<String>,
    /// Length of the variable segment.
    pub length: Option<usize>,
}

impl Cli {
    /// The prefix of the candidates: empty where none is given.
    pub open spec fn prefix_text(&self) -> Seq<char> {
        match self.prefix {
            Some(p) => p@,
            None => Seq::empty(),
        }
    }

    /// The suffix of the candidates, if one is given.
    pub open spec fn suffix_text(&self) -> Option<Seq<char>> {
        match self.suffix {
            Some(s) => Some(s@),
            None => None,
        }
    }

    /// The length of the variable segment: the one given, or the default.
    pub open spec fn segment_length(&self) -> nat {
        match self.length {
            Some(l) => l as nat,
            None => 6,
        }
    }

    /// The length of the variable segment: the one given, or 6.
    pub fn variable_length(&self) -> (length: usize)
        ensures
            length as nat == self.segment_length(),
    {
        match self.length {
            Some(l) => l,
            None => DEFAULT_LENGTH,
        }
    }
}

/// Runs the search that `cli` asks for. The target is read first: where it
/// is not hexadecimal text for four bytes, nothing is searched. The
/// candidates then start with the prefix, if one is given, and end with the
/// suffix, or with `()` where none is given.
pub fn run(
    cli: &Cli,
    guess_counter: &Arc<AtomicUsize>,
    latest_function_guess: &Arc<Mutex<String>>,
) -> (result: Result<SearchOutcome, SearchError>)
    ensures
        match target_of(cli.target_hash@) {
            Ok(target) => result matches Ok(outcome) && search_result(
                outcome,
                target,
                cli.prefix_text(),
                cli.segment_length(),
                cli.suffix_text(),
            ),
            Err(e) => result == Err::<SearchOutcome, SearchError>(e),
        },
{
    let target_hash = match parse_target_hash(cli.target_hash.as_str()) {
        Ok(bytes) => bytes,
        Err(e) => {
            return Err(e);
        },
    };
    let length = cli.variable_length();
    let finder = CollisionFinder::new();
    match &cli.prefix {
        Some(prefix) => match &cli.suffix {
            Some(suffix) => finder.find_matching_signature_with_prefix_and_suffix(
                target_hash.as_slice(),
                prefix.as_str(),
                length,
                suffix.as_str(),
                guess_counter,
                latest_function_guess,
            ),
            None => finder.find_matching_signature(
                target_hash.as_slice(),
                prefix.as_str(),
                length,
                None,
                guess_counter,
                latest_function_guess,
            ),
        },
        None => match &cli.suffix {
            Some(suffix) => finder.find_matching_signature_with_suffix(
                target_hash.as_slice(),
                length,
                suffix.as_str(),
                guess_counter,
                latest_function_guess,
            ),
            None => finder.find_matching_signature_with_length(
                target_hash.as_slice(),
                length,
                guess_counter,
                latest_function_guess,
            ),
        },
    }
}

} // verus!
