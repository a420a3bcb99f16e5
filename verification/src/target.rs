//! Reading the target selector from hexadecimal text.

use vstd::prelude::*;
use hex::FromHexError;
use crate::collision_finder::SearchError;

verus! {

#[verifier::external_type_specification]
#[verifier::external_body]
pub struct ExFromHexError(FromHexError);

/// Whether `c` is a hexadecimal digit, in either case.
pub open spec fn is_hex_digit(c: char) -> bool {
    ('0' <= c <= '9') || ('a' <= c <= 'f') || ('A' <= c <= 'F')
}

/// The value of the hexadecimal digit `c`.
pub open spec fn hex_digit_value(c: char) -> int {
    if '0' <= c <= '9' {
        c as int - 48
    } else if 'a' <= c <= 'f' {
        c as int - 97 + 10
    } else {
        c as int - 65 + 10
    }
}

/// Whether `text` is hexadecimal text for whole bytes: an even number of
/// hexadecimal digits.
pub open spec fn is_hex_text(text: Seq<char>) -> bool {
    text.len() % 2 == 0 && forall|i: int| 0 <= i < text.len() ==> is_hex_digit(#[trigger] text[i])
}

/// The bytes that hexadecimal text stands for: two digits for each byte,
/// the high one first.
pub open spec fn hex_bytes(text: Seq<char>) -> Seq<u8> {
    Seq::new(
        text.len() / 2,
        |i: int| (16 * hex_digit_value(text[2 * i]) + hex_digit_value(text[2 * i + 1])) as u8,
    )
}

/// `text` without any `0x` at its start, however often it is repeated.
pub open spec fn without_markers(text: Seq<char>) -> Seq<char>
    decreases text.len(),
{
    if text.len() >= 2 && text[0] == '0' && text[1] == 'x' {
        without_markers(text.skip(2))
    } else {
        text
    }
}

/// The target that `text` gives: the bytes of its hexadecimal digits after
/// any `0x`, where they are hexadecimal text for exactly four bytes.
pub open spec fn target_of(text: Seq<char>) -> Result<Seq<u8>, SearchError> {
    let digits = without_markers(text);
    if !is_hex_text(digits) {
        Err(SearchError::InvalidFormat)
    } else if hex_bytes(digits).len() != 4 {
        Err(SearchError::InvalidTarget)
    } else {
        Ok(hex_bytes(digits))
    }
}

/// `str::trim_start_matches` with the pattern `0x`: every `0x` at the start
/// is removed, repeatedly.
#[verifier::external_body]
fn trim_markers(text: &str) -> (rest: &str)
    ensures
        rest@ == without_markers(text@),
{
    text.trim_start_matches("0x")
}

/// `hex::decode`: succeeds exactly on an even number of hexadecimal digits,
/// and then gives one byte for each pair of digits, the high digit first.
#[verifier::external_body]
fn hex_decode(text: &str) -> (decoded: Result<Vec<u8>, FromHexError>)
    ensures
        decoded.is_ok() == is_hex_text(text@),
        decoded matches Ok(bytes) ==> bytes@ == hex_bytes(text@),
{
    hex::decode(text)
}

/// Reads a target selector from hexadecimal text, with or without `0x`
/// before it. The text must stand for exactly four bytes.
pub fn parse_target_hash(text: &str) -> (result: Result<Vec<u8>, SearchError>)
    ensures
        match target_of(text@) {
            Ok(bytes) => result matches Ok(target) && target@ == bytes,
            Err(e) => result == Err::<Vec<u8>, SearchError>(e),
        },
{
    let digits = trim_markers(text);
    match hex_decode(digits) {
        Ok(bytes) => {
            if bytes.len() != 4 {
                Err(SearchError::InvalidTarget)
            } else {
                Ok(bytes)
            }
        },
        Err(_) => Err(SearchError::InvalidFormat),
    }
}

} // verus!
