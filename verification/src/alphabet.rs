//! The ordered set of symbols that a variable segment is made of:
//! `a`..`z`, then `A`..`Z`, then `0`..`9`.

use vstd::prelude::*;

verus! {

/// Number of symbols in the alphabet.
pub const ALPHABET_SIZE: usize = 62;

/// Whether `c` is one of the alphabet's symbols.
pub open spec fn is_symbol(c: u8) -> bool {
    (97 <= c <= 122) || (65 <= c <= 90) || (48 <= c <= 57)
}

/// The symbol at position `i` of the alphabet, for `0 <= i < 62`.
pub open spec fn symbol_at(i: int) -> u8 {
    if i < 26 {
        (97 + i) as u8
    } else if i < 52 {
        (65 + (i - 26)) as u8
    } else {
        (48 + (i - 52)) as u8
    }
}

/// The position of the symbol `c` in the alphabet.
pub open spec fn symbol_index(c: u8) -> int {
    if 97 <= c <= 122 {
        c - 97
    } else if 65 <= c <= 90 {
        c - 65 + 26
    } else {
        c - 48 + 52
    }
}

/// The alphabet as a sequence, in its order.
pub open spec fn alphabet() -> Seq<u8> {
    Seq::new(62, |i: int| symbol_at(i))
}

/// Every position below 62 holds a symbol, and `symbol_index` finds it again.
pub proof fn lemma_symbol_at_index(i: int)
    requires
        0 <= i < 62,
    ensures
        is_symbol(symbol_at(i)),
        symbol_index(symbol_at(i)) == i,
{
}

/// Every symbol stands at exactly the position that `symbol_index` gives.
pub proof fn lemma_index_of_symbol(c: u8)
    requires
        is_symbol(c),
    ensures
        0 <= symbol_index(c) < 62,
        symbol_at(symbol_index(c)) == c,
{
}

/// No symbol occurs twice in the alphabet.
pub proof fn lemma_alphabet_distinct(i: int, j: int)
    requires
        0 <= i < 62,
        0 <= j < 62,
        i != j,
    ensures
        alphabet()[i] != alphabet()[j],
{
}

/// The symbol at position `i`.
pub fn symbol(i: usize) -> (c: u8)
    requires
        i < 62,
    ensures
        c == symbol_at(i as int),
        is_symbol(c),
{
    if i < 26 {
        97u8 + (i as u8)
    } else if i < 52 {
        65u8 + ((i - 26) as u8)
    } else {
        48u8 + ((i - 52) as u8)
    }
}

/// The position of `c` in the alphabet, or `None` where `c` is no symbol of it.
pub fn position(c: u8) -> (found: Option<usize>)
    ensures
        found.is_some() == is_symbol(c),
        found matches Some(i) ==> i < 62 && i as int == symbol_index(c),
{
    if 97 <= c && c <= 122 {
        Some((c - 97) as usize)
    } else if 65 <= c && c <= 90 {
        Some((c - 65) as usize + 26)
    } else if 48 <= c && c <= 57 {
        Some((c - 48) as usize + 52)
    } else {
        None
    }
}

} // verus!
