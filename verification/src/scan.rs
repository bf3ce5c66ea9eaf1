//! What scanning means, as mathematics on sequences of characters.
//!
//! A scan reads the input from a position: it passes over whitespace, then
//! takes the longest lexeme that starts there.

use crate::chars::{char_class, class_of, CharClass};
use crate::token::{token_type_of, TokenView};
use vstd::prelude::*;
use vstd::slice::slice_index_get;

verus! {

/// The end of the longest run of characters of class `class` that starts at
/// `from`: the first position at or after `from` whose character is not of
/// that class, or the end of `s`.
pub open spec fn run_end(s: Seq<char>, from: int, class: CharClass) -> int
    decreases s.len() - from,
{
    if 0 <= from < s.len() && class_of(s[from]) == class {
        run_end(s, from + 1, class)
    } else {
        from
    }
}

/// `to` ends the longest run of characters of class `class` from `from`.
pub open spec fn is_longest_run(s: Seq<char>, from: int, to: int, class: CharClass) -> bool {
    &&& from <= to <= s.len()
    &&& forall|i: int| from <= i < to ==> class_of(#[trigger] s[i]) == class
    &&& to < s.len() ==> class_of(s[to]) != class
}

/// Where the next lexeme starts when scanning from `position`: after the
/// whitespace there. It is the length of `input` when only whitespace is left.
pub open spec fn lexeme_start(input: Seq<char>, position: int) -> int {
    run_end(input, position, CharClass::Whitespace)
}

/// Where the lexeme that starts at `start` ends: a letter starts the longest
/// run of letters, a digit the longest run of digits, and any other
/// character stands alone.
pub open spec fn lexeme_end(input: Seq<char>, start: int) -> int {
    match class_of(input[start]) {
        CharClass::Letter => run_end(input, start, CharClass::Letter),
        CharClass::Digit => run_end(input, start, CharClass::Digit),
        _ => start + 1,
    }
}

/// The text of the token that a scan from `position` produces: the next
/// lexeme, or nothing at the end of the input.
pub open spec fn scan_literal(input: Seq<char>, position: int) -> Option<Seq<char>> {
    let start = lexeme_start(input, position);
    if start < input.len() {
        Some(input.subrange(start, lexeme_end(input, start)))
    } else {
        None
    }
}

/// The token that a scan from `position` produces.
pub open spec fn scan_token(input: Seq<char>, position: int) -> TokenView {
    let literal = scan_literal(input, position);
    TokenView { token_type: token_type_of(literal), literal }
}

/// The position after a scan from `position`: the end of the lexeme that
/// was read, or the end of the input.
pub open spec fn scan_position(input: Seq<char>, position: int) -> int {
    let start = lexeme_start(input, position);
    if start < input.len() {
        lexeme_end(input, start)
    } else {
        start
    }
}

/// Finds the end of the longest run of characters of class `class` that
/// starts at `from`. From the end of `chars` or beyond it, the run is empty.
pub fn end_of_run(chars: &[char], from: usize, class: CharClass) -> (to: usize)
    ensures
        to == run_end(chars@, from as int, class),
        from <= to,
        from <= chars@.len() ==> to <= chars@.len(),
{
    let mut to: usize = from;
    while to < chars.len() && char_class(*slice_index_get(chars, to)) == class
        invariant
            from <= to,
            from <= chars@.len() ==> to <= chars@.len(),
            run_end(chars@, from as int, class) == run_end(chars@, to as int, class),
        decreases chars@.len() - to,
    {
        to += 1;
    }
    to
}

/// `run_end` is the end of the longest run.
pub proof fn lemma_run_end(s: Seq<char>, from: int, class: CharClass)
    requires
        0 <= from <= s.len(),
    ensures
        is_longest_run(s, from, run_end(s, from, class), class),
    decreases s.len() - from,
{
    if from < s.len() && class_of(s[from]) == class {
        lemma_run_end(s, from + 1, class);
    }
}

/// The longest run has one end only: what [`is_longest_run`] says of a
/// position holds of `run_end` and of no other.
pub proof fn lemma_longest_run_unique(s: Seq<char>, from: int, to: int, class: CharClass)
    requires
        0 <= from,
        is_longest_run(s, from, to, class),
    ensures
        to == run_end(s, from, class),
    decreases to - from,
{
    if from < to {
        lemma_longest_run_unique(s, from + 1, to, class);
    }
}

/// A scan moves forward, stays inside the input, and reads at least one
/// character unless it is at the end.
pub proof fn lemma_scan_bounds(input: Seq<char>, position: int)
    requires
        0 <= position <= input.len(),
    ensures
        position <= lexeme_start(input, position) <= scan_position(input, position) <= input.len(),
        lexeme_start(input, position) < input.len() ==> lexeme_start(input, position)
            < scan_position(input, position),
        is_longest_run(input, position, lexeme_start(input, position), CharClass::Whitespace),
{
    let start = lexeme_start(input, position);
    lemma_run_end(input, position, CharClass::Whitespace);
    if start < input.len() {
        lemma_run_end(input, start, CharClass::Letter);
        lemma_run_end(input, start, CharClass::Digit);
    }
}

} // verus!
