use sigcrack::alphabet::{position, symbol, ALPHABET_SIZE};
use sigcrack::collision_finder::{first_segment, CollisionFinder};
use std::collections::HashSet;

const CHARSET: &[u8] = b"abcdefghijklmnopqrstuvwxyzABCDEFGHIJKLMNOPQRSTUVWXYZ0123456789";

fn rank(segment: &[u8]) -> usize {
    let mut value = 0usize;
    for &c in segment {
        value = value * 62 + position(c).unwrap();
    }
    value
}

fn traverse(length: usize) -> Vec<Vec<u8>> {
    let finder = CollisionFinder::new();
    let mut buffer = first_segment(length);
    let mut seen = vec![buffer.clone()];
    while finder.increment_buffer(&mut buffer) {
        seen.push(buffer.clone());
    }
    seen
}

#[test]
fn alphabet_is_letters_then_digits() {
    assert_eq!(ALPHABET_SIZE, 62);
    assert_eq!(CHARSET.len(), 62);
    for i in 0..62 {
        assert_eq!(symbol(i), CHARSET[i]);
        assert_eq!(position(CHARSET[i]), Some(i));
    }
}

#[test]
fn position_rejects_other_bytes() {
    assert_eq!(position(b'('), None);
    assert_eq!(position(b'_'), None);
    assert_eq!(position(0), None);
    assert_eq!(position(b'{'), None);
    assert_eq!(position(b'@'), None);
    assert_eq!(position(b'['), None);
    assert_eq!(position(b'/'), None);
    assert_eq!(position(b':'), None);
    assert_eq!(position(255), None);
}

#[test]
fn first_segment_is_all_first_symbol() {
    assert_eq!(first_segment(0), Vec::<u8>::new());
    assert_eq!(first_segment(3), b"aaa".to_vec());
    assert_eq!(first_segment(6), b"aaaaaa".to_vec());
}

#[test]
fn increment_steps_the_last_position() {
    let finder = CollisionFinder::new();
    let mut buffer = b"aaa".to_vec();
    assert!(finder.increment_buffer(&mut buffer));
    assert_eq!(buffer, b"aab".to_vec());
}

#[test]
fn increment_moves_through_the_alphabet_order() {
    let finder = CollisionFinder::new();
    let mut buffer = b"az".to_vec();
    assert!(finder.increment_buffer(&mut buffer));
    assert_eq!(buffer, b"aA".to_vec());
    let mut buffer = b"aZ".to_vec();
    assert!(finder.increment_buffer(&mut buffer));
    assert_eq!(buffer, b"a0".to_vec());
    let mut buffer = b"a8".to_vec();
    assert!(finder.increment_buffer(&mut buffer));
    assert_eq!(buffer, b"a9".to_vec());
}

#[test]
fn increment_carries_to_the_left() {
    let finder = CollisionFinder::new();
    let mut buffer = b"a9".to_vec();
    assert!(finder.increment_buffer(&mut buffer));
    assert_eq!(buffer, b"ba".to_vec());
    let mut buffer = b"Zz99".to_vec();
    assert!(finder.increment_buffer(&mut buffer));
    assert_eq!(buffer, b"ZAaa".to_vec());
}

#[test]
fn increment_fails_on_the_last_segment() {
    let finder = CollisionFinder::new();
    let mut buffer = b"999".to_vec();
    assert!(!finder.increment_buffer(&mut buffer));
    assert_eq!(buffer, b"aaa".to_vec());
}

#[test]
fn increment_of_the_empty_segment_fails() {
    let finder = CollisionFinder::new();
    let mut buffer: Vec<u8> = Vec::new();
    assert!(!finder.increment_buffer(&mut buffer));
    assert!(buffer.is_empty());
}

#[test]
fn traversal_of_length_one_is_the_alphabet() {
    let seen = traverse(1);
    assert_eq!(seen.len(), 62);
    for (i, segment) in seen.iter().enumerate() {
        assert_eq!(segment, &vec![CHARSET[i]]);
    }
}

#[test]
fn traversal_of_length_two_is_exhaustive() {
    let seen = traverse(2);
    assert_eq!(seen.len(), 62 * 62);
    let distinct: HashSet<Vec<u8>> = seen.iter().cloned().collect();
    assert_eq!(distinct.len(), 62 * 62);
    assert_eq!(seen[0], b"aa".to_vec());
    assert_eq!(seen[62], b"ba".to_vec());
    assert_eq!(seen[62 * 62 - 1], b"99".to_vec());
}

#[test]
fn traversal_of_length_three_is_exhaustive() {
    let seen = traverse(3);
    assert_eq!(seen.len(), 238328);
    let distinct: HashSet<Vec<u8>> = seen.iter().cloned().collect();
    assert_eq!(distinct.len(), 238328);
}

#[test]
fn traversal_is_strictly_increasing() {
    let seen = traverse(2);
    for (i, segment) in seen.iter().enumerate() {
        assert_eq!(segment.len(), 2);
        assert_eq!(rank(segment), i);
    }
}

#[test]
fn traversal_is_the_same_every_time() {
    assert_eq!(traverse(2), traverse(2));
    assert_eq!(traverse(0), vec![Vec::<u8>::new()]);
}
