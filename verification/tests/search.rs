use sigcrack::cli::{run, Cli, DEFAULT_LENGTH};
use sigcrack::collision_finder::{
    decode_segment, first_segment, selector_matches, CollisionFinder, SearchError, SearchOutcome,
};
use sigcrack::target::parse_target_hash;
use std::sync::atomic::{AtomicUsize, Ordering};
use std::sync::{Arc, Mutex};
use tiny_keccak::{Hasher, Keccak};

const TRANSFER: [u8; 4] = [0xa9, 0x05, 0x9c, 0xbb];

fn progress() -> (Arc<AtomicUsize>, Arc<Mutex<String>>) {
    (Arc::new(AtomicUsize::new(0)), Arc::new(Mutex::new(String::new())))
}

fn selector(text: &str) -> Vec<u8> {
    let mut hasher = Keccak::v256();
    let mut output = [0u8; 32];
    hasher.update(text.as_bytes());
    hasher.finalize(&mut output);
    output[..4].to_vec()
}

#[test]
fn first_candidate_with_prefix() {
    let finder = CollisionFinder::new();
    let candidate = finder.compose_candidate("get", &first_segment(3), None);
    assert_eq!(candidate, "getaaa()");
}

#[test]
fn first_candidate_without_prefix() {
    let finder = CollisionFinder::new();
    let candidate = finder.compose_candidate("", &first_segment(3), None);
    assert_eq!(candidate, "aaa()");
}

#[test]
fn first_candidate_is_the_first_tested() {
    let finder = CollisionFinder::new();
    let (counter, latest) = progress();
    let target = selector("getaaa()");
    let result = finder.find_matching_signature(&target, "get", 3, None, &counter, &latest);
    assert_eq!(
        result,
        Ok(SearchOutcome::Found { candidate: "getaaa()".to_string(), guesses: 1 })
    );
    let (counter, latest) = progress();
    let target = selector("aaa()");
    let result = finder.find_matching_signature_with_length(&target, 3, &counter, &latest);
    assert_eq!(result, Ok(SearchOutcome::Found { candidate: "aaa()".to_string(), guesses: 1 }));
}

#[test]
fn candidate_shapes() {
    let finder = CollisionFinder::new();
    let segment = b"aaa".to_vec();
    assert_eq!(finder.compose_candidate("set", &segment, Some("(uint256)")), "setaaa(uint256)");
    assert_eq!(finder.compose_candidate("set", &segment, None), "setaaa()");
    assert_eq!(finder.compose_candidate("", &segment, Some("(uint256)")), "aaa(uint256)");
    assert_eq!(finder.compose_candidate("", &segment, None), "aaa()");
}

#[test]
fn candidate_with_empty_segment() {
    let finder = CollisionFinder::new();
    let segment: Vec<u8> = Vec::new();
    assert_eq!(finder.compose_candidate("transfer", &segment, Some("(address,uint256)")),
        "transfer(address,uint256)");
    assert_eq!(finder.compose_candidate("", &segment, None), "()");
}

#[test]
fn decode_segment_gives_one_character_per_byte() {
    assert_eq!(decode_segment(&b"aZ9".to_vec()), "aZ9");
    assert_eq!(decode_segment(&Vec::new()), "");
}

#[test]
fn selector_matches_compares_the_first_four_bytes() {
    let digest = [1u8, 2, 3, 4, 5, 6];
    assert!(selector_matches(&digest, &[1, 2, 3, 4]));
    assert!(!selector_matches(&digest, &[1, 2, 3, 5]));
    assert!(!selector_matches(&digest, &[0, 2, 3, 4]));
    assert!(!selector_matches(&digest, &[1, 2, 3]));
    assert!(!selector_matches(&digest, &[1, 2, 3, 4, 5]));
    assert!(!selector_matches(&digest, &[]));
}

#[test]
fn check_hash_knows_the_transfer_selector() {
    let finder = CollisionFinder::new();
    let (counter, latest) = progress();
    assert!(finder.check_hash("transfer(address,uint256)", &TRANSFER, &counter, &latest));
    assert_eq!(counter.load(Ordering::Relaxed), 1);
    assert_eq!(*latest.lock().unwrap(), "transfer(address,uint256)");
    assert!(!finder.check_hash("transfer(address,uint255)", &TRANSFER, &counter, &latest));
    assert_eq!(counter.load(Ordering::Relaxed), 2);
    assert_eq!(*latest.lock().unwrap(), "transfer(address,uint255)");
    assert!(!finder.check_hash("transfer(address,uint256)", &[0xa9, 0x05, 0x9c], &counter, &latest));
}

#[test]
fn known_preimage_matches_on_the_first_test() {
    let finder = CollisionFinder::new();
    let (counter, latest) = progress();
    let result = finder.find_matching_signature_with_prefix_and_suffix(
        &TRANSFER,
        "transfer",
        0,
        "(address,uint256)",
        &counter,
        &latest,
    );
    assert_eq!(
        result,
        Ok(SearchOutcome::Found { candidate: "transfer(address,uint256)".to_string(), guesses: 1 })
    );
    assert_eq!(counter.load(Ordering::Relaxed), 1);
}

#[test]
fn unreachable_target_exhausts_the_space() {
    let finder = CollisionFinder::new();
    let (counter, latest) = progress();
    let result = finder.find_matching_signature_with_length(&TRANSFER, 1, &counter, &latest);
    assert_eq!(result, Ok(SearchOutcome::Exhausted { guesses: 62 }));
    assert_eq!(counter.load(Ordering::Relaxed), 62);
    assert_eq!(*latest.lock().unwrap(), "9()");
}

#[test]
fn exhaustion_counts_segments_in_every_shape() {
    let finder = CollisionFinder::new();
    let (counter, latest) = progress();
    let result = finder.find_matching_signature(&TRANSFER, "get", 1, Some("(bool)"), &counter, &latest);
    assert_eq!(result, Ok(SearchOutcome::Exhausted { guesses: 62 }));
    assert_eq!(*latest.lock().unwrap(), "get9(bool)");
    let (counter, latest) = progress();
    let result = finder.find_matching_signature_with_suffix(&TRANSFER, 0, "(bool)", &counter, &latest);
    assert_eq!(result, Ok(SearchOutcome::Exhausted { guesses: 1 }));
    assert_eq!(counter.load(Ordering::Relaxed), 1);
    assert_eq!(*latest.lock().unwrap(), "(bool)");
}

#[test]
fn search_finds_the_first_match_in_order() {
    let finder = CollisionFinder::new();
    let (counter, latest) = progress();
    let target = selector("getbc(bool)");
    let result = finder.find_matching_signature(&target, "get", 2, Some("(bool)"), &counter, &latest);
    assert_eq!(
        result,
        Ok(SearchOutcome::Found { candidate: "getbc(bool)".to_string(), guesses: 62 + 2 + 1 })
    );
    assert_eq!(counter.load(Ordering::Relaxed), 65);
    assert_eq!(*latest.lock().unwrap(), "getbc(bool)");
}

#[test]
fn search_is_repeatable() {
    let finder = CollisionFinder::new();
    let target = selector("Z9()");
    let (counter, latest) = progress();
    let first = finder.find_matching_signature_with_length(&target, 2, &counter, &latest);
    let (counter, latest) = progress();
    let second = finder.find_matching_signature_with_length(&target, 2, &counter, &latest);
    assert_eq!(first, second);
    assert_eq!(
        first,
        Ok(SearchOutcome::Found { candidate: "Z9()".to_string(), guesses: 51 * 62 + 61 + 1 })
    );
}

#[test]
fn counter_never_runs_ahead_of_the_search() {
    let finder = CollisionFinder::new();
    let (counter, latest) = progress();
    let mut last = 0;
    for (tested, name) in ["a()", "b()", "c()"].iter().enumerate() {
        finder.check_hash(name, &TRANSFER, &counter, &latest);
        let seen = counter.load(Ordering::Relaxed);
        assert!(seen >= last);
        assert_eq!(seen, tested + 1);
        last = seen;
    }
}

#[test]
fn target_of_wrong_length_is_refused() {
    let finder = CollisionFinder::new();
    let (counter, latest) = progress();
    assert_eq!(
        finder.find_matching_signature(&[0xa9, 0x05, 0x9c], "", 1, None, &counter, &latest),
        Err(SearchError::InvalidTarget)
    );
    assert_eq!(
        finder.find_matching_signature_with_length(&[1, 2, 3, 4, 5], 1, &counter, &latest),
        Err(SearchError::InvalidTarget)
    );
    assert_eq!(
        finder.find_matching_signature_with_suffix(&[], 1, "()", &counter, &latest),
        Err(SearchError::InvalidTarget)
    );
    assert_eq!(
        finder.find_matching_signature_with_prefix_and_suffix(&[1], "a", 1, "()", &counter, &latest),
        Err(SearchError::InvalidTarget)
    );
    assert_eq!(counter.load(Ordering::Relaxed), 0);
}

#[test]
fn parse_target_hash_reads_hexadecimal() {
    assert_eq!(parse_target_hash("64d98f6e"), Ok(vec![0x64, 0xd9, 0x8f, 0x6e]));
    assert_eq!(parse_target_hash("0x64d98f6e"), Ok(vec![0x64, 0xd9, 0x8f, 0x6e]));
    assert_eq!(parse_target_hash("0xA9059CBB"), Ok(vec![0xa9, 0x05, 0x9c, 0xbb]));
    assert_eq!(parse_target_hash("0xa9059Cbb"), Ok(vec![0xa9, 0x05, 0x9c, 0xbb]));
    assert_eq!(parse_target_hash("0x0x00ff10fe"), Ok(vec![0x00, 0xff, 0x10, 0xfe]));
}

#[test]
fn parse_target_hash_refuses_what_is_not_hexadecimal() {
    assert_eq!(parse_target_hash("0x64d98f6g"), Err(SearchError::InvalidFormat));
    assert_eq!(parse_target_hash("64d98f6"), Err(SearchError::InvalidFormat));
    assert_eq!(parse_target_hash("0X64d98f6e"), Err(SearchError::InvalidFormat));
    assert_eq!(parse_target_hash("64d98f6e0x"), Err(SearchError::InvalidFormat));
    assert_eq!(parse_target_hash("é4d98f6"), Err(SearchError::InvalidFormat));
}

#[test]
fn parse_target_hash_refuses_other_lengths() {
    assert_eq!(parse_target_hash(""), Err(SearchError::InvalidTarget));
    assert_eq!(parse_target_hash("0x"), Err(SearchError::InvalidTarget));
    assert_eq!(parse_target_hash("0x64d98f"), Err(SearchError::InvalidTarget));
    assert_eq!(parse_target_hash("64d98f6e00"), Err(SearchError::InvalidTarget));
}

#[test]
fn default_length_is_six() {
    assert_eq!(DEFAULT_LENGTH, 6);
    let cli = Cli { target_hash: "a9059cbb".to_string(), prefix: None, suffix: None, length: None };
    assert_eq!(cli.variable_length(), 6);
    let cli = Cli { target_hash: "a9059cbb".to_string(), prefix: None, suffix: None, length: Some(8) };
    assert_eq!(cli.variable_length(), 8);
}

#[test]
fn run_searches_what_the_configuration_asks() {
    let (counter, latest) = progress();
    let cli = Cli {
        target_hash: "0xa9059cbb".to_string(),
        prefix: Some("transfer".to_string()),
        suffix: Some("(address,uint256)".to_string()),
        length: Some(0),
    };
    assert_eq!(
        run(&cli, &counter, &latest),
        Ok(SearchOutcome::Found { candidate: "transfer(address,uint256)".to_string(), guesses: 1 })
    );
    let (counter, latest) = progress();
    let cli = Cli {
        target_hash: "a9059cbb".to_string(),
        prefix: Some("get".to_string()),
        suffix: None,
        length: Some(1),
    };
    assert_eq!(run(&cli, &counter, &latest), Ok(SearchOutcome::Exhausted { guesses: 62 }));
    assert_eq!(*latest.lock().unwrap(), "get9()");
    let (counter, latest) = progress();
    let cli = Cli {
        target_hash: "a9059cbb".to_string(),
        prefix: None,
        suffix: Some("(bool)".to_string()),
        length: Some(1),
    };
    assert_eq!(run(&cli, &counter, &latest), Ok(SearchOutcome::Exhausted { guesses: 62 }));
    assert_eq!(*latest.lock().unwrap(), "9(bool)");
    let (counter, latest) = progress();
    let cli = Cli { target_hash: "a9059cbb".to_string(), prefix: None, suffix: None, length: Some(1) };
    assert_eq!(run(&cli, &counter, &latest), Ok(SearchOutcome::Exhausted { guesses: 62 }));
    assert_eq!(*latest.lock().unwrap(), "9()");
}

#[test]
fn run_refuses_a_bad_target_before_searching() {
    let (counter, latest) = progress();
    let cli = Cli { target_hash: "0xnothex!".to_string(), prefix: None, suffix: None, length: Some(1) };
    assert_eq!(run(&cli, &counter, &latest), Err(SearchError::InvalidFormat));
    let cli = Cli { target_hash: "0xa9059c".to_string(), prefix: None, suffix: None, length: Some(1) };
    assert_eq!(run(&cli, &counter, &latest), Err(SearchError::InvalidTarget));
    assert_eq!(counter.load(Ordering::Relaxed), 0);
    assert_eq!(*latest.lock().unwrap(), "");
}
