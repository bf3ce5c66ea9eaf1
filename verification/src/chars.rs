//! Character classes of the language, and decoding of text into characters.

use vstd::prelude::*;
use vstd::slice::slice_index_get;

verus! {

/// `String::push` appends one character to the end of the text.
pub assume_specification[ String::push ](text: &mut String, ch: char)
    ensures
        final(text)@ == old(text)@.push(ch),
;

/// The class of a character, which decides how a lexeme that starts with it
/// is read.
#[derive(PartialEq, Eq, Structural, Clone, Copy, Debug)]
pub enum CharClass {
    /// Space, tab, newline, carriage return.
    Whitespace,
    /// An ASCII letter or the underscore.
    Letter,
    /// An ASCII digit.
    Digit,
    /// Anything else: a symbol of the language or an illegal character.
    Other,
}

/// Space, tab, newline and carriage return are whitespace, and nothing else.
pub open spec fn is_whitespace(c: char) -> bool {
    c == ' ' || c == '\t' || c == '\n' || c == '\r'
}

/// The ASCII letters and the underscore are letters.
pub open spec fn is_letter(c: char) -> bool {
    ('a' <= c && c <= 'z') || ('A' <= c && c <= 'Z') || c == '_'
}

/// The ASCII digits are digits.
pub open spec fn is_digit(c: char) -> bool {
    '0' <= c && c <= '9'
}

/// The class of `c`. The four classes are disjoint.
pub open spec fn class_of(c: char) -> CharClass {
    if is_whitespace(c) {
        CharClass::Whitespace
    } else if is_letter(c) {
        CharClass::Letter
    } else if is_digit(c) {
        CharClass::Digit
    } else {
        CharClass::Other
    }
}

/// Every character of `s` is of class `class`.
pub open spec fn all_of_class(s: Seq<char>, class: CharClass) -> bool {
    forall|i: int| 0 <= i < s.len() ==> class_of(#[trigger] s[i]) == class
}

/// Computes the class of a character.
pub fn char_class(c: char) -> (class: CharClass)
    ensures
        class == class_of(c),
{
    if c == ' ' || c == '\t' || c == '\n' || c == '\r' {
        CharClass::Whitespace
    } else if (c >= 'a' && c <= 'z') || (c >= 'A' && c <= 'Z') || c == '_' {
        CharClass::Letter
    } else if c >= '0' && c <= '9' {
        CharClass::Digit
    } else {
        CharClass::Other
    }
}

/// Tells whether every character of `chars` is of class `class`.
pub fn all_chars_of_class(chars: &[char], class: CharClass) -> (all: bool)
    ensures
        all == all_of_class(chars@, class),
{
    let mut i: usize = 0;
    while i < chars.len()
        invariant
            i <= chars.len(),
            forall|j: int| 0 <= j < i ==> class_of(#[trigger] chars@[j]) == class,
        decreases chars.len() - i,
    {
        if char_class(*slice_index_get(chars, i)) != class {
            return false;
        }
        i += 1;
    }
    true
}

/// Decodes text into its characters, so that they can be reached by index.
pub fn decode(text: &str) -> (chars: Vec<char>)
    ensures
        chars@ == text@,
{
    let mut chars: Vec<char> = Vec::new();
    for c in it: text.chars()
        invariant
            it.seq() == text@,
            chars@ == text@.take(it.index()),
    {
        chars.push(c);
    }
    chars
}

/// Encodes characters as text: the inverse of [`decode`].
pub fn encode(chars: &[char]) -> (text: String)
    ensures
        text@ == chars@,
{
    let mut text = String::new();
    let mut i: usize = 0;
    while i < chars.len()
        invariant
            i <= chars@.len(),
            text@ == chars@.take(i as int),
        decreases chars@.len() - i,
    {
        text.push(*slice_index_get(chars, i));
        i += 1;
    }
    text
}

} // verus!
