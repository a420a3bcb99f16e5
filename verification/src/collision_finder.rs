//! The search engine: candidate shaping, hashing, comparison and the
//! exhaustive loop over the variable segment.

use vstd::prelude::*;
use vstd::utf8::{valid_utf8, decode_utf8, encode_utf8, is_ascii_chars_encode_utf8,
    encode_utf8_valid_utf8, encode_utf8_decode_utf8};
use vstd::string::StringExecFns;
use std::string::FromUtf8Error;
use std::sync::{Arc, Mutex};
use std::sync::atomic::AtomicUsize;
use tiny_keccak::{Hasher, Keccak};
use crate::alphabet::{symbol, position, is_symbol};
use crate::enumerator::{is_segment, segment_value, space_size, successor, initial_segment,
    nth_segment, carried_into, carried_out, lemma_carry_is_successor, lemma_wrap_is_successor,
    lemma_initial_segment, lemma_nth_segment, lemma_space_size_positive};
use crate::progress::{count_guess, publish_guess};

verus! {

#[verifier::external_type_specification]
#[verifier::external_body]
pub struct ExFromUtf8Error(FromUtf8Error);

/// The Keccak-256 digest of the UTF-8 bytes of `text`.
pub uninterp spec fn keccak256_digest(text: Seq<char>) -> Seq<u8>;

/// The selector of `text`: the first four bytes of its digest.
pub open spec fn selector_of(text: Seq<char>) -> Seq<u8> {
    keccak256_digest(text).subrange(0, 4)
}

/// A segment read as text, one character for each byte.
pub open spec fn segment_text(segment: Seq<u8>) -> Seq<char> {
    Seq::new(segment.len(), |i: int| segment[i] as char)
}

/// What closes a candidate: the suffix, or an empty parameter list where
/// there is none.
pub open spec fn closing_text(suffix: Option<Seq<char>>) -> Seq<char> {
    match suffix {
        Some(s) => s,
        None => seq!['(', ')'],
    }
}

/// The candidate built from a prefix, a segment and an optional suffix.
pub open spec fn candidate_text(
    prefix: Seq<char>,
    segment: Seq<u8>,
    suffix: Option<Seq<char>>,
) -> Seq<char> {
    prefix + segment_text(segment) + closing_text(suffix)
}

/// The view of an optional suffix.
pub open spec fn suffix_view(suffix: Option<&str>) -> Option<Seq<char>> {
    match suffix {
        Some(s) => Some(s@),
        None => None,
    }
}

/// Whether the `n`-th candidate of the search has the target selector.
pub open spec fn hits(
    target: Seq<u8>,
    prefix: Seq<char>,
    len: nat,
    suffix: Option<Seq<char>>,
    n: nat,
) -> bool {
    selector_of(candidate_text(prefix, nth_segment(len, n), suffix)) == target
}

/// The number of the first candidate at or after `n` that has the target
/// selector, if there is one.
pub open spec fn first_hit_from(
    target: Seq<u8>,
    prefix: Seq<char>,
    len: nat,
    suffix: Option<Seq<char>>,
    n: nat,
) -> Option<nat>
    decreases space_size(len) - n,
{
    if n >= space_size(len) {
        None
    } else if hits(target, prefix, len, suffix, n) {
        Some(n)
    } else {
        first_hit_from(target, prefix, len, suffix, n + 1)
    }
}

/// A count of `n` tests as a `usize` holds it: `n` itself where it fits, and
/// else what is left of it after counting has wrapped around.
pub open spec fn wrapped_count(n: nat) -> usize {
    if n <= usize::MAX {
        n as usize
    } else {
        (n % (usize::MAX as nat + 1)) as usize
    }
}

/// How a search ended.
#[derive(Debug, PartialEq, Eq)]
pub enum SearchOutcome {
    /// A candidate with the target selector, and the number of candidates
    /// tested, this one included.
    Found { candidate: String, guesses: usize },
    /// Every segment was tested and none matched.
    Exhausted { guesses: usize },
}

/// Why a search did not start.
#[derive(Debug, Clone, Copy, PartialEq, Eq)]
pub enum SearchError {
    /// The target is not hexadecimal text for whole bytes.
    InvalidFormat,
    /// The target is not four bytes long.
    InvalidTarget,
}

impl SearchOutcome {
    /// The text of the candidate that was found, if one was.
    pub open spec fn found_text(self) -> Option<Seq<char>> {
        match self {
            SearchOutcome::Found { candidate, guesses } => Some(candidate@),
            SearchOutcome::Exhausted { guesses } => None,
        }
    }

    /// The number of candidates tested.
    pub open spec fn tested(self) -> usize {
        match self {
            SearchOutcome::Found { candidate, guesses } => guesses,
            SearchOutcome::Exhausted { guesses } => guesses,
        }
    }
}

/// What a search over the segments of length `len` returns: the first
/// candidate in enumeration order that has the target selector, with the
/// number of candidates tested up to it, or exhaustion after all of them.
pub open spec fn search_result(
    outcome: SearchOutcome,
    target: Seq<u8>,
    prefix: Seq<char>,
    len: nat,
    suffix: Option<Seq<char>>,
) -> bool {
    match first_hit_from(target, prefix, len, suffix, 0) {
        Some(n) => {
            &&& outcome.found_text() == Some(candidate_text(prefix, nth_segment(len, n), suffix))
            &&& outcome.tested() == wrapped_count(n + 1)
        },
        None => {
            &&& outcome.found_text() is None
            &&& outcome.tested() == wrapped_count(space_size(len))
        },
    }
}

/// A candidate is its three parts laid end to end: the prefix, then one
/// character for each byte of the segment, then the closing text.
pub proof fn lemma_candidate_layout(prefix: Seq<char>, segment: Seq<u8>, suffix: Option<Seq<char>>)
    ensures
        ({
            let candidate = candidate_text(prefix, segment, suffix);
            let start = prefix.len() as int;
            let end = start + segment.len();
            &&& candidate.len() == prefix.len() + segment.len() + closing_text(suffix).len()
            &&& candidate.subrange(0, start) == prefix
            &&& candidate.subrange(start, end) == segment_text(segment)
            &&& candidate.subrange(end, candidate.len() as int) == closing_text(suffix)
        }),
        suffix is None ==> closing_text(suffix).len() == 2,
{
    let candidate = candidate_text(prefix, segment, suffix);
    let start = prefix.len() as int;
    let end = start + segment.len();
    assert(candidate.subrange(0, start) =~= prefix);
    assert(candidate.subrange(start, end) =~= segment_text(segment));
    assert(candidate.subrange(end, candidate.len() as int) =~= closing_text(suffix));
}

/// In one search no candidate is built twice: with the same prefix and
/// suffix, two different segments of one length give two different
/// candidates.
pub proof fn lemma_candidates_distinct(
    prefix: Seq<char>,
    first: Seq<u8>,
    second: Seq<u8>,
    suffix: Option<Seq<char>>,
)
    requires
        first.len() == second.len(),
        first != second,
    ensures
        candidate_text(prefix, first, suffix) != candidate_text(prefix, second, suffix),
{
    lemma_candidate_layout(prefix, first, suffix);
    lemma_candidate_layout(prefix, second, suffix);
    if segment_text(first) == segment_text(second) {
        assert forall|i: int| 0 <= i < first.len() implies first[i] == second[i] by {
            assert(segment_text(first)[i] == first[i] as char);
            assert(segment_text(second)[i] == second[i] as char);
        }
        assert(first =~= second);
    }
}

/// A segment is valid UTF-8, and decodes to one character for each byte.
pub proof fn lemma_segment_decodes(segment: Seq<u8>)
    requires
        is_segment(segment),
    ensures
        valid_utf8(segment),
        decode_utf8(segment) == segment_text(segment),
{
    let chars = segment_text(segment);
    assert forall|i: int| 0 <= i < chars.len() implies '\0' <= #[trigger] chars[i] <= '\u{7f}' by {
        assert(is_symbol(segment[i]));
    }
    is_ascii_chars_encode_utf8(chars);
    assert(encode_utf8(chars) =~= segment) by {
        assert forall|i: int| 0 <= i < chars.len() implies encode_utf8(chars)[i] == segment[i] by {
            assert(is_symbol(segment[i]));
            assert(chars[i] as u8 == segment[i]);
        }
    }
    encode_utf8_valid_utf8(chars);
    encode_utf8_decode_utf8(chars);
}

/// `String::from_utf8`: succeeds exactly on valid UTF-8, and then gives the
/// text that the bytes encode.
#[verifier::external_body]
fn string_from_utf8(bytes: Vec<u8>) -> (text: Result<String, FromUtf8Error>)
    ensures
        text.is_ok() == valid_utf8(bytes@),
        text matches Ok(s) ==> s@ == decode_utf8(bytes@),
{
    String::from_utf8(bytes)
}

/// The first segment of length `length`.
pub fn first_segment(length: usize) -> (buffer: Vec<u8>)
    ensures
        buffer@ == initial_segment(length as nat),
{
    let mut buffer: Vec<u8> = Vec::new();
    let mut i: usize = 0;
    while i < length
        invariant
            i <= length,
            buffer@ == initial_segment(i as nat),
        decreases length - i,
    {
        buffer.push(symbol(0));
        i += 1;
        assert(buffer@ =~= initial_segment(i as nat));
    }
    buffer
}

/// The text of a segment.
pub fn decode_segment(segment: &Vec<u8>) -> (text: String)
    requires
        is_segment(segment@),
    ensures
        text@ == segment_text(segment@),
{
    proof {
        lemma_segment_decodes(segment@);
    }
    match string_from_utf8(segment.clone()) {
        Ok(text) => text,
        Err(_) => vstd::pervasive::unreached(),
    }
}

/// Whether the first four bytes of `digest` are exactly `target_hash`.
pub fn selector_matches(digest: &[u8], target_hash: &[u8]) -> (matched: bool)
    requires
        digest@.len() >= 4,
    ensures
        matched == (digest@.subrange(0, 4) == target_hash@),
{
    if target_hash.len() != 4 {
        return false;
    }
    let mut i: usize = 0;
    while i < 4
        invariant
            i <= 4,
            digest@.len() >= 4,
            target_hash@.len() == 4,
            forall|j: int| 0 <= j < i ==> digest@[j] == target_hash@[j],
        decreases 4 - i,
    {
        if digest[i] != target_hash[i] {
            assert(digest@.subrange(0, 4)[i as int] != target_hash@[i as int]);
            return false;
        }
        i += 1;
    }
    assert(digest@.subrange(0, 4) =~= target_hash@);
    true
}

/// Finds signatures whose selector equals a target selector.
pub struct CollisionFinder;

impl CollisionFinder {
    /// A finder. It holds no state: each search is told all it needs.
    pub fn new() -> (finder: Self) {
        Self
    }

    /// Keccak-256 of the bytes of `input`, through `tiny_keccak::Keccak::v256`,
    /// `update` and `finalize` into 32 bytes: the digest is that of the input,
    /// and 32 bytes long.
    #[verifier::external_body]
    fn keccak256(&self, input: &str) -> (digest: Vec<u8>)
        ensures
            digest@ == keccak256_digest(input@),
            digest@.len() == 32,
    {
        let mut hasher = Keccak::v256();
        let mut output = [0u8; 32];
        hasher.update(input.as_bytes());
        hasher.finalize(&mut output);
        output.to_vec()
    }

    /// Builds the candidate for `segment`: the prefix, the segment's text,
    /// then the suffix, or `()` where there is none.
    pub fn compose_candidate(
        &self,
        prefix: &str,
        segment: &Vec<u8>,
        suffix: Option<&str>,
    ) -> (candidate: String)
        requires
            is_segment(segment@),
        ensures
            candidate@ == candidate_text(prefix@, segment@, suffix_view(suffix)),
    {
        let mut candidate = String::from_str(prefix);
        let name = decode_segment(segment);
        candidate.append(name.as_str());
        match suffix {
            Some(s) => candidate.append(s),
            None => {
                proof {
                    reveal_strlit("()");
                }
                assert("()"@ =~= seq!['(', ')']);
                candidate.append("()");
            },
        }
        candidate
    }

    /// Tests one candidate: counts it, publishes it as the latest one, and
    /// says whether its selector is the target.
    pub fn check_hash(
        &self,
        function_name: &str,
        target_hash: &[u8],
        guess_counter: &Arc<AtomicUsize>,
        latest_function_guess: &Arc<Mutex<String>>,
    ) -> (matched: bool)
        ensures
            matched == (selector_of(function_name@) == target_hash@),
    {
        let hash = self.keccak256(function_name);
        count_guess(guess_counter);
        publish_guess(latest_function_guess, function_name);
        selector_matches(hash.as_slice(), target_hash)
    }

    /// Advances `buffer` to the next segment, as an odometer does: from the
    /// right, the first position that does not hold the last symbol takes the
    /// next symbol, and the positions to its right go back to the first.
    /// Returns `false` when there was no next segment; the buffer then holds
    /// the first segment again.
    pub fn increment_buffer(&self, buffer: &mut Vec<u8>) -> (advanced: bool)
        requires
            is_segment(old(buffer)@),
        ensures
            final(buffer)@.len() == old(buffer)@.len(),
            final(buffer)@ == successor(old(buffer)@),
            advanced == (segment_value(old(buffer)@) + 1 < space_size(old(buffer)@.len())),
            advanced ==> exists|i: int| carried_into(old(buffer)@, final(buffer)@, i),
            !advanced ==> carried_out(old(buffer)@, final(buffer)@),
            !advanced ==> segment_value(old(buffer)@) + 1 == space_size(old(buffer)@.len()),
    {
        let ghost before = buffer@;
        let mut i: usize = buffer.len();
        while i > 0
            invariant
                before == old(buffer)@,
                is_segment(before),
                i <= before.len(),
                buffer@.len() == before.len(),
                forall|j: int| 0 <= j < i ==> buffer@[j] == before[j],
                forall|j: int| i <= j < before.len() ==> before[j] == 57u8,
                forall|j: int| i <= j < before.len() ==> buffer@[j] == 97u8,
            decreases i,
        {
            i -= 1;
            assert(is_symbol(before[i as int]));
            let current = match position(buffer[i]) {
                Some(p) => p,
                None => vstd::pervasive::unreached(),
            };
            if current < 61 {
                buffer.set(i, symbol(current + 1));
                proof {
                    assert(carried_into(before, buffer@, i as int));
                    lemma_carry_is_successor(before, buffer@, i as int);
                }
                return true;
            } else {
                assert(before[i as int] == 57u8);
                buffer.set(i, symbol(0));
            }
        }
        proof {
            lemma_wrap_is_successor(before, buffer@);
        }
        false
    }

    /// Searches the segments of length `length` for a candidate with the
    /// selector `target_hash`. A candidate is the prefix, a segment and the
    /// suffix, or `()` where no suffix is given. The candidates are tested in
    /// enumeration order; the first that matches ends the search. With
    /// `length` 0 the only segment is the empty one, and one candidate is
    /// tested. A target that is not four bytes long is refused before
    /// anything is tested.
    pub fn find_matching_signature(
        &self,
        target_hash: &[u8],
        prefix: &str,
        length: usize,
        suffix: Option<&str>,
        guess_counter: &Arc<AtomicUsize>,
        latest_function_guess: &Arc<Mutex<String>>,
    ) -> (result: Result<SearchOutcome, SearchError>)
        ensures
            result is Err <==> target_hash@.len() != 4,
            result matches Err(e) ==> e == SearchError::InvalidTarget,
            result matches Ok(outcome) ==> search_result(
                outcome,
                target_hash@,
                prefix@,
                length as nat,
                suffix_view(suffix),
            ),
    {
        if target_hash.len() != 4 {
            return Err(SearchError::InvalidTarget);
        }
        let outcome = if !prefix.is_empty() {
            match suffix {
                Some(s) => self.find_with_prefix_and_suffix(
                    target_hash,
                    prefix,
                    length,
                    s,
                    guess_counter,
                    latest_function_guess,
                ),
                None => self.find_with_prefix(
                    target_hash,
                    prefix,
                    length,
                    guess_counter,
                    latest_function_guess,
                ),
            }
        } else {
            assert(prefix@ =~= Seq::<char>::empty());
            match suffix {
                Some(s) => self.find_with_suffix(
                    target_hash,
                    length,
                    s,
                    guess_counter,
                    latest_function_guess,
                ),
                None => self.find_without_prefix_and_suffix(
                    target_hash,
                    length,
                    guess_counter,
                    latest_function_guess,
                ),
            }
        };
        Ok(outcome)
    }

    /// The search with a suffix and no prefix.
    pub fn find_matching_signature_with_suffix(
        &self,
        target_hash: &[u8],
        length: usize,
        suffix: &str,
        guess_counter: &Arc<AtomicUsize>,
        latest_function_guess: &Arc<Mutex<String>>,
    ) -> (result: Result<SearchOutcome, SearchError>)
        ensures
            result is Err <==> target_hash@.len() != 4,
            result matches Err(e) ==> e == SearchError::InvalidTarget,
            result matches Ok(outcome) ==> search_result(
                outcome,
                target_hash@,
                Seq::empty(),
                length as nat,
                Some(suffix@),
            ),
    {
        proof {
            reveal_strlit("");
        }
        assert(""@ =~= Seq::<char>::empty());
        self.find_matching_signature(
            target_hash,
            "",
            length,
            Some(suffix),
            guess_counter,
            latest_function_guess,
        )
    }

    /// The search with neither prefix nor suffix: each candidate is a segment
    /// followed by `()`.
    pub fn find_matching_signature_with_length(
        &self,
        target_hash: &[u8],
        length: usize,
        guess_counter: &Arc<AtomicUsize>,
        latest_function_guess: &Arc<Mutex<String>>,
    ) -> (result: Result<SearchOutcome, SearchError>)
        ensures
            result is Err <==> target_hash@.len() != 4,
            result matches Err(e) ==> e == SearchError::InvalidTarget,
            result matches Ok(outcome) ==> search_result(
                outcome,
                target_hash@,
                Seq::empty(),
                length as nat,
                None,
            ),
    {
        proof {
            reveal_strlit("");
        }
        assert(""@ =~= Seq::<char>::empty());
        self.find_matching_signature(
            target_hash,
            "",
            length,
            None,
            guess_counter,
            latest_function_guess,
        )
    }

    /// The search with a prefix and a suffix.
    pub fn find_matching_signature_with_prefix_and_suffix(
        &self,
        target_hash: &[u8],
        prefix: &str,
        length: usize,
        suffix: &str,
        guess_counter: &Arc<AtomicUsize>,
        latest_function_guess: &Arc<Mutex<String>>,
    ) -> (result: Result<SearchOutcome, SearchError>)
        ensures
            result is Err <==> target_hash@.len() != 4,
            result matches Err(e) ==> e == SearchError::InvalidTarget,
            result matches Ok(outcome) ==> search_result(
                outcome,
                target_hash@,
                prefix@,
                length as nat,
                Some(suffix@),
            ),
    {
        self.find_matching_signature(
            target_hash,
            prefix,
            length,
            Some(suffix),
            guess_counter,
            latest_function_guess,
        )
    }

    /// Candidates of the shape prefix, segment, suffix.
    fn find_with_prefix_and_suffix(
        &self,
        target_hash: &[u8],
        prefix: &str,
        length: usize,
        suffix: &str,
        guess_counter: &Arc<AtomicUsize>,
        latest_function_guess: &Arc<Mutex<String>>,
    ) -> (outcome: SearchOutcome)
        ensures
            search_result(outcome, target_hash@, prefix@, length as nat, Some(suffix@)),
    {
        self.search(
            target_hash,
            prefix,
            length,
            Some(suffix),
            guess_counter,
            latest_function_guess,
        )
    }

    /// Candidates of the shape prefix, segment, `()`.
    fn find_with_prefix(
        &self,
        target_hash: &[u8],
        prefix: &str,
        length: usize,
        guess_counter: &Arc<AtomicUsize>,
        latest_function_guess: &Arc<Mutex<String>>,
    ) -> (outcome: SearchOutcome)
        ensures
            search_result(outcome, target_hash@, prefix@, length as nat, None),
    {
        self.search(target_hash, prefix, length, None, guess_counter, latest_function_guess)
    }

    /// Candidates of the shape segment, suffix.
    fn find_with_suffix(
        &self,
        target_hash: &[u8],
        length: usize,
        suffix: &str,
        guess_counter: &Arc<AtomicUsize>,
        latest_function_guess: &Arc<Mutex<String>>,
    ) -> (outcome: SearchOutcome)
        ensures
            search_result(outcome, target_hash@, Seq::empty(), length as nat, Some(suffix@)),
    {
        proof {
            reveal_strlit("");
        }
        assert(""@ =~= Seq::<char>::empty());
        self.search(target_hash, "", length, Some(suffix), guess_counter, latest_function_guess)
    }

    /// Candidates of the shape segment, `()`.
    fn find_without_prefix_and_suffix(
        &self,
        target_hash: &[u8],
        length: usize,
        guess_counter: &Arc<AtomicUsize>,
        latest_function_guess: &Arc<Mutex<String>>,
    ) -> (outcome: SearchOutcome)
        ensures
            search_result(outcome, target_hash@, Seq::empty(), length as nat, None),
    {
        proof {
            reveal_strlit("");
        }
        assert(""@ =~= Seq::<char>::empty());
        self.search(target_hash, "", length, None, guess_counter, latest_function_guess)
    }

    /// Tests the candidates of every segment of length `length`, in
    /// enumeration order, until one has the target selector.
    fn search(
        &self,
        target_hash: &[u8],
        prefix: &str,
        length: usize,
        suffix: Option<&str>,
        guess_counter: &Arc<AtomicUsize>,
        latest_function_guess: &Arc<Mutex<String>>,
    ) -> (outcome: SearchOutcome)
        ensures
            search_result(outcome, target_hash@, prefix@, length as nat, suffix_view(suffix)),
    {
        let ghost target = target_hash@;
        let ghost closing = suffix_view(suffix);
        let ghost len = length as nat;
        let mut buffer = first_segment(length);
        let mut guesses: usize = 0;
        let ghost mut n: nat = 0;
        proof {
            lemma_initial_segment(len);
            lemma_space_size_positive(len);
        }
        loop
            invariant
                target == target_hash@,
                closing == suffix_view(suffix),
                len == length as nat,
                n < space_size(len),
                buffer@ == nth_segment(len, n),
                guesses == wrapped_count(n),
                first_hit_from(target, prefix@, len, closing, 0) == first_hit_from(
                    target,
                    prefix@,
                    len,
                    closing,
                    n,
                ),
            decreases space_size(len) - n,
        {
            proof {
                lemma_nth_segment(len, n);
            }
            let candidate = self.compose_candidate(prefix, &buffer, suffix);
            guesses = guesses.wrapping_add(1);
            proof {
                lemma_count_next(n);
            }
            if self.check_hash(candidate.as_str(), target_hash, guess_counter, latest_function_guess) {
                return SearchOutcome::Found { candidate, guesses };
            }
            assert(first_hit_from(target, prefix@, len, closing, n) == first_hit_from(
                target,
                prefix@,
                len,
                closing,
                n + 1,
            ));
            if !self.increment_buffer(&mut buffer) {
                assert(first_hit_from(target, prefix@, len, closing, n + 1) is None);
                return SearchOutcome::Exhausted { guesses };
            }
            proof {
                let m = space_size(len) as int;
                let v = (n + 1) as int;
                assert(v % m == v) by (nonlinear_arith)
                    requires
                        0 <= v < m,
                ;
                n = n + 1;
            }
        }
    }
}

/// Counting one more test moves the wrapped count on by one, wrapping.
pub proof fn lemma_count_next(n: nat)
    ensures
        wrapped_count(n + 1) == if wrapped_count(n) == usize::MAX {
            0
        } else {
            wrapped_count(n) + 1
        },
{
    let m = usize::MAX as int + 1;
    let k = n as int;
    assert((k + 1) % m == if k % m + 1 == m { 0 } else { k % m + 1 }) by (nonlinear_arith)
        requires
            m > 0,
            k >= 0,
    ;
    assert(k < m ==> k % m == k) by (nonlinear_arith)
        requires
            m > 0,
            k >= 0,
    ;
    assert(m % m == 0) by (nonlinear_arith)
        requires
            m > 0,
    ;
}

/// What the first hit is: a candidate at or after `from` that has the target
/// selector, with none between `from` and it that has. Where there is no
/// first hit, no candidate from `from` on has the target selector.
pub proof fn lemma_first_hit(
    target: Seq<u8>,
    prefix: Seq<char>,
    len: nat,
    suffix: Option<Seq<char>>,
    from: nat,
)
    ensures
        match first_hit_from(target, prefix, len, suffix, from) {
            Some(n) => from <= n < space_size(len) && hits(target, prefix, len, suffix, n)
                && forall|m: nat| from <= m < n ==> !hits(target, prefix, len, suffix, m),
            None => forall|m: nat|
                from <= m < space_size(len) ==> !hits(target, prefix, len, suffix, m),
        },
    decreases space_size(len) - from,
{
    if from < space_size(len) && !hits(target, prefix, len, suffix, from) {
        lemma_first_hit(target, prefix, len, suffix, from + 1);
    }
}

/// A search depends on its arguments alone: two outcomes of the same search
/// name the same candidate, or both none, and the same number of guesses.
pub proof fn lemma_search_deterministic(
    first: SearchOutcome,
    second: SearchOutcome,
    target: Seq<u8>,
    prefix: Seq<char>,
    len: nat,
    suffix: Option<Seq<char>>,
)
    requires
        search_result(first, target, prefix, len, suffix),
        search_result(second, target, prefix, len, suffix),
    ensures
        first.found_text() == second.found_text(),
        first.tested() == second.tested(),
{
}

} // verus!
