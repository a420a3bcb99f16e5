//! Odometer enumeration of the fixed-length segments over the alphabet.
//!
//! A segment is read as a number in base 62, most significant symbol first.
//! Advancing a segment adds one to that number, so a traversal from the
//! all-`a` segment visits every segment once, in increasing order.

use vstd::prelude::*;
use crate::alphabet::{is_symbol, symbol_at, symbol_index, lemma_index_of_symbol,
    lemma_symbol_at_index};

verus! {

/// A segment: every position holds a symbol of the alphabet.
pub open spec fn is_segment(s: Seq<u8>) -> bool {
    forall|i: int| 0 <= i < s.len() ==> is_symbol(#[trigger] s[i])
}

/// Number of segments of length `len`: 62 to the power `len`.
pub open spec fn space_size(len: nat) -> nat
    decreases len,
{
    if len == 0 {
        1
    } else {
        62 * space_size((len - 1) as nat)
    }
}

/// The number that a segment stands for in base 62.
pub open spec fn segment_value(s: Seq<u8>) -> nat
    decreases s.len(),
{
    if s.len() == 0 {
        0
    } else {
        (segment_value(s.drop_last()) * 62 + symbol_index(s.last())) as nat
    }
}

/// The segment of length `len` that stands for `n`, for `n < space_size(len)`.
pub open spec fn nth_segment(len: nat, n: nat) -> Seq<u8>
    decreases len,
{
    if len == 0 {
        Seq::empty()
    } else {
        nth_segment((len - 1) as nat, n / 62).push(symbol_at((n % 62) as int))
    }
}

/// The segment that a traversal starts from: the first symbol at every position.
pub open spec fn initial_segment(len: nat) -> Seq<u8> {
    Seq::new(len, |i: int| 97u8)
}

/// The segment that follows `s` in the traversal; after the last one, the
/// first again.
pub open spec fn successor(s: Seq<u8>) -> Seq<u8> {
    nth_segment(s.len(), (segment_value(s) + 1) % space_size(s.len()))
}

pub proof fn lemma_space_size_positive(len: nat)
    ensures
        space_size(len) >= 1,
    decreases len,
{
    if len > 0 {
        lemma_space_size_positive((len - 1) as nat);
    }
}

/// A segment's number is below the number of segments of its length.
pub proof fn lemma_value_bounded(s: Seq<u8>)
    requires
        is_segment(s),
    ensures
        segment_value(s) < space_size(s.len()),
    decreases s.len(),
{
    if s.len() > 0 {
        lemma_value_bounded(s.drop_last());
        lemma_index_of_symbol(s.last());
    }
}

/// Each number below `space_size(len)` has a segment of length `len`, and
/// that segment stands for the number.
pub proof fn lemma_nth_segment(len: nat, n: nat)
    requires
        n < space_size(len),
    ensures
        nth_segment(len, n).len() == len,
        is_segment(nth_segment(len, n)),
        segment_value(nth_segment(len, n)) == n,
    decreases len,
{
    if len > 0 {
        let rest = nth_segment((len - 1) as nat, n / 62);
        lemma_nth_segment((len - 1) as nat, n / 62);
        lemma_symbol_at_index((n % 62) as int);
        let s = nth_segment(len, n);
        assert(s.drop_last() =~= rest);
        assert(s.last() == symbol_at((n % 62) as int));
    }
}

/// A segment is the one that its own number names.
pub proof fn lemma_segment_is_nth(s: Seq<u8>)
    requires
        is_segment(s),
    ensures
        nth_segment(s.len(), segment_value(s)) == s,
    decreases s.len(),
{
    if s.len() > 0 {
        lemma_segment_is_nth(s.drop_last());
        lemma_index_of_symbol(s.last());
        let v = segment_value(s.drop_last());
        let d = symbol_index(s.last());
        assert((v * 62 + d) / 62 == v && (v * 62 + d) % 62 == d) by (nonlinear_arith)
            requires
                0 <= d < 62,
                0 <= v,
        ;
        assert(nth_segment(s.len(), segment_value(s)) =~= s);
    } else {
        assert(nth_segment(s.len(), segment_value(s)) =~= s);
    }
}

/// The traversal starts at number 0.
pub proof fn lemma_initial_segment(len: nat)
    ensures
        is_segment(initial_segment(len)),
        segment_value(initial_segment(len)) == 0,
        initial_segment(len) == nth_segment(len, 0),
    decreases len,
{
    let s = initial_segment(len);
    if len > 0 {
        lemma_initial_segment((len - 1) as nat);
        assert(s.drop_last() =~= initial_segment((len - 1) as nat));
    }
    lemma_space_size_positive(len);
    lemma_segment_is_nth(s);
}

/// `after` is `before` with one added at position `i`: the positions to the
/// left are kept, position `i` holds the next symbol, and the positions to
/// the right, which all held the last symbol, hold the first.
pub open spec fn carried_into(before: Seq<u8>, after: Seq<u8>, i: int) -> bool {
    &&& before.len() == after.len()
    &&& 0 <= i < before.len()
    &&& forall|j: int| 0 <= j < i ==> after[j] == before[j]
    &&& symbol_index(before[i]) < 61
    &&& after[i] == symbol_at(symbol_index(before[i]) + 1)
    &&& forall|j: int| i < j < before.len() ==> before[j] == 57u8
    &&& forall|j: int| i < j < after.len() ==> after[j] == 97u8
}

/// `after` is `before` carried out of its leftmost position: every position
/// held the last symbol and holds the first.
pub open spec fn carried_out(before: Seq<u8>, after: Seq<u8>) -> bool {
    &&& before.len() == after.len()
    &&& forall|j: int| 0 <= j < before.len() ==> before[j] == 57u8
    &&& forall|j: int| 0 <= j < after.len() ==> after[j] == 97u8
}

/// A carry that stops at some position adds exactly one to the number.
pub proof fn lemma_carry_adds_one(before: Seq<u8>, after: Seq<u8>, i: int)
    requires
        is_segment(before),
        carried_into(before, after, i),
    ensures
        is_segment(after),
        segment_value(after) == segment_value(before) + 1,
    decreases before.len(),
{
    lemma_index_of_symbol(before[i]);
    lemma_symbol_at_index(symbol_index(before[i]) + 1);
    assert forall|j: int| 0 <= j < after.len() implies is_symbol(#[trigger] after[j]) by {
        if j < i {
            assert(is_symbol(before[j]));
        }
    }
    if i == before.len() - 1 {
        assert(after.drop_last() =~= before.drop_last());
    } else {
        lemma_carry_adds_one(before.drop_last(), after.drop_last(), i);
    }
}

/// A carry out of the leftmost position happens at the last segment only, and
/// leaves the first one.
pub proof fn lemma_carry_wraps(before: Seq<u8>, after: Seq<u8>)
    requires
        carried_out(before, after),
    ensures
        segment_value(before) + 1 == space_size(before.len()),
        after == initial_segment(before.len()),
    decreases before.len(),
{
    assert(after =~= initial_segment(before.len()));
    if before.len() > 0 {
        lemma_carry_wraps(before.drop_last(), after.drop_last());
    }
}

/// Advancing is adding one: where a carry stops inside the segment, the
/// result is the successor, and the number stays below the size of the space.
pub proof fn lemma_carry_is_successor(before: Seq<u8>, after: Seq<u8>, i: int)
    requires
        is_segment(before),
        carried_into(before, after, i),
    ensures
        after == successor(before),
        segment_value(before) + 1 < space_size(before.len()),
{
    lemma_carry_adds_one(before, after, i);
    lemma_value_bounded(after);
    lemma_segment_is_nth(after);
    let v = (segment_value(before) + 1) as int;
    let m = space_size(before.len()) as int;
    assert(v % m == v) by (nonlinear_arith)
        requires
            0 <= v < m,
    ;
}

/// Advancing the last segment gives the first one again.
pub proof fn lemma_wrap_is_successor(before: Seq<u8>, after: Seq<u8>)
    requires
        carried_out(before, after),
    ensures
        after == successor(before),
        segment_value(before) + 1 == space_size(before.len()),
{
    lemma_carry_wraps(before, after);
    lemma_initial_segment(before.len());
    let m = space_size(before.len()) as int;
    assert(m % m == 0) by (nonlinear_arith)
        requires
            m > 0,
    ;
}

/// The segment that a traversal holds after `k` advances from the initial
/// segment of length `len`.
pub open spec fn segment_after(len: nat, k: nat) -> Seq<u8>
    decreases k,
{
    if k == 0 {
        initial_segment(len)
    } else {
        successor(segment_after(len, (k - 1) as nat))
    }
}

/// After `k` advances, with `k` below the size of the space, the traversal
/// holds the segment that stands for `k`: the order is that of the numbers.
pub proof fn lemma_traversal_in_order(len: nat, k: nat)
    requires
        k < space_size(len),
    ensures
        segment_after(len, k) == nth_segment(len, k),
        segment_after(len, k).len() == len,
        is_segment(segment_after(len, k)),
        segment_value(segment_after(len, k)) == k,
    decreases k,
{
    if k == 0 {
        lemma_initial_segment(len);
    } else {
        lemma_traversal_in_order(len, (k - 1) as nat);
        let m = space_size(len) as int;
        let v = k as int;
        assert(v % m == v) by (nonlinear_arith)
            requires
                0 <= v < m,
        ;
    }
    lemma_nth_segment(len, k);
}

/// No segment comes twice in a traversal: two different numbers of advances,
/// both below the size of the space, give two different segments.
pub proof fn lemma_traversal_no_repeats(len: nat, j: nat, k: nat)
    requires
        j < k < space_size(len),
    ensures
        segment_after(len, j) != segment_after(len, k),
{
    lemma_traversal_in_order(len, j);
    lemma_traversal_in_order(len, k);
}

/// Every segment comes in the traversal of its length, after as many
/// advances as its number says, which is fewer than the size of the space.
pub proof fn lemma_traversal_reaches(s: Seq<u8>)
    requires
        is_segment(s),
    ensures
        segment_value(s) < space_size(s.len()),
        segment_after(s.len(), segment_value(s)) == s,
{
    lemma_value_bounded(s);
    lemma_segment_is_nth(s);
    lemma_traversal_in_order(s.len(), segment_value(s));
}

/// The traversal ends after exactly `space_size(len)` segments: the segment
/// held after `k` advances has a next one if and only if `k + 1` is below the
/// size of the space, and after the last one the first comes again.
pub proof fn lemma_traversal_ends(len: nat, k: nat)
    requires
        k < space_size(len),
    ensures
        segment_value(segment_after(len, k)) + 1 < space_size(len) <==> k + 1 < space_size(len),
        k + 1 == space_size(len) ==> successor(segment_after(len, k)) == initial_segment(len),
{
    lemma_traversal_in_order(len, k);
    lemma_initial_segment(len);
    if k + 1 == space_size(len) {
        let m = space_size(len) as int;
        assert(m % m == 0) by (nonlinear_arith)
            requires
                m > 0,
        ;
    }
}

} // verus!
