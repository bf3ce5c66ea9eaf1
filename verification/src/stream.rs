//! The token stream of an input as a whole, and what holds of it.

use crate::chars::{all_of_class, class_of, is_whitespace, CharClass};
use crate::scan::{
    is_longest_run, lemma_run_end, lemma_scan_bounds, lexeme_start, scan_literal, scan_position,
    scan_token,
};
use crate::token::{symbol_type, Token, TokenType, TokenView};
use vstd::prelude::*;

verus! {

/// The tokens that repeated scans produce in turn, from `position` up to
/// and including the end-of-input token.
pub open spec fn scan_all(input: Seq<char>, position: int) -> Seq<TokenView>
    decreases input.len() - position,
{
    let token = scan_token(input, position);
    if 0 <= position <= input.len() && token.literal is Some {
        proof {
            lemma_scan_bounds(input, position);
        }
        seq![token] + scan_all(input, scan_position(input, position))
    } else {
        seq![token]
    }
}

/// The stretches of input that those scans pass over without making them
/// part of a token: one before each token of [`scan_all`], the last of
/// them before the end-of-input token.
pub open spec fn scan_gaps(input: Seq<char>, position: int) -> Seq<Seq<char>>
    decreases input.len() - position,
{
    let gap = input.subrange(position, lexeme_start(input, position));
    if 0 <= position <= input.len() && scan_literal(input, position) is Some {
        proof {
            lemma_scan_bounds(input, position);
        }
        seq![gap] + scan_gaps(input, scan_position(input, position))
    } else {
        seq![gap]
    }
}

/// The text of a token: empty for the end-of-input token.
pub open spec fn text_of(token: TokenView) -> Seq<char> {
    match token.literal {
        Some(text) => text,
        None => Seq::empty(),
    }
}

/// The texts of `tokens` in order, each with its gap put before it.
pub open spec fn weave(gaps: Seq<Seq<char>>, tokens: Seq<TokenView>) -> Seq<char>
    decreases tokens.len(),
{
    if tokens.len() == 0 {
        Seq::empty()
    } else {
        gaps[0] + text_of(tokens[0]) + weave(gaps.drop_first(), tokens.drop_first())
    }
}

/// The texts of `tokens` in order, one after the other.
pub open spec fn texts(tokens: Seq<TokenView>) -> Seq<char>
    decreases tokens.len(),
{
    if tokens.len() == 0 {
        Seq::empty()
    } else {
        text_of(tokens[0]) + texts(tokens.drop_first())
    }
}

/// `s` with its whitespace taken out.
pub open spec fn without_whitespace(s: Seq<char>) -> Seq<char> {
    s.filter(|c: char| !is_whitespace(c))
}

/// The kind of a word, a lexeme of letters and underscores: one of the two
/// keywords, or an identifier.
pub open spec fn word_type(word: Seq<char>) -> TokenType {
    if word =~= seq!['f', 'n'] {
        TokenType::Function
    } else if word =~= seq!['l', 'e', 't'] {
        TokenType::Let
    } else {
        TokenType::Identifier
    }
}

/// The position after `count` scans from `position`.
pub open spec fn position_after(input: Seq<char>, position: int, count: nat) -> int
    decreases count,
{
    if count == 0 {
        position
    } else {
        scan_position(input, position_after(input, position, (count - 1) as nat))
    }
}

/// The views of a sequence of tokens.
pub open spec fn views(tokens: Seq<Token>) -> Seq<TokenView> {
    Seq::new(tokens.len(), |i: int| tokens[i]@)
}

/// Round trip: the texts of all tokens of an input, in order, with the
/// whitespace that was passed over put back before each, are the input
/// again. Every gap holds whitespace only, and there is one gap for each
/// token.
pub proof fn lemma_round_trip(input: Seq<char>, position: int)
    requires
        0 <= position <= input.len(),
    ensures
        scan_gaps(input, position).len() == scan_all(input, position).len(),
        forall|i: int|
            0 <= i < scan_gaps(input, position).len() ==> all_of_class(
                #[trigger] scan_gaps(input, position)[i],
                CharClass::Whitespace,
            ),
        weave(scan_gaps(input, position), scan_all(input, position)) == input.subrange(
            position,
            input.len() as int,
        ),
    decreases input.len() - position,
{
    let gaps = scan_gaps(input, position);
    let tokens = scan_all(input, position);
    let start = lexeme_start(input, position);
    let gap = input.subrange(position, start);
    lemma_scan_bounds(input, position);
    if scan_literal(input, position) is Some {
        let next = scan_position(input, position);
        let text = input.subrange(start, next);
        lemma_round_trip(input, next);
        let rest_gaps = scan_gaps(input, next);
        let rest_tokens = scan_all(input, next);
        assert(gaps.drop_first() =~= rest_gaps);
        assert(tokens.drop_first() =~= rest_tokens);
        assert(gap + text + input.subrange(next, input.len() as int) =~= input.subrange(
            position,
            input.len() as int,
        ));
    } else {
        assert(weave(gaps.drop_first(), tokens.drop_first()) =~= Seq::<char>::empty());
        assert(gap + Seq::<char>::empty() + Seq::<char>::empty() =~= input.subrange(
            position,
            input.len() as int,
        ));
    }
}

/// Longest match: a token that starts with a letter is the longest run of
/// letters there, and a keyword only if that whole run spells it; one that
/// starts with a digit is the longest run of digits, an integer; any other
/// character is a token by itself, a symbol or illegal. The token's text is
/// the stretch of input that was read.
pub proof fn lemma_longest_match(input: Seq<char>, position: int)
    requires
        0 <= position <= input.len(),
        lexeme_start(input, position) < input.len(),
    ensures
        ({
            let start = lexeme_start(input, position);
            let end = scan_position(input, position);
            let token = scan_token(input, position);
            &&& token.literal == Some(input.subrange(start, end))
            &&& match class_of(input[start]) {
                CharClass::Letter => {
                    &&& is_longest_run(input, start, end, CharClass::Letter)
                    &&& token.token_type == word_type(input.subrange(start, end))
                },
                CharClass::Digit => {
                    &&& is_longest_run(input, start, end, CharClass::Digit)
                    &&& token.token_type == TokenType::Integer
                },
                CharClass::Other => {
                    &&& end == start + 1
                    &&& token.token_type == symbol_type(input[start])
                },
                CharClass::Whitespace => false,
            }
        }),
{
    let start = lexeme_start(input, position);
    lemma_scan_bounds(input, position);
    lemma_run_end(input, start, CharClass::Letter);
    lemma_run_end(input, start, CharClass::Digit);
}

/// No token's text holds whitespace, and only the end-of-input token has
/// no text: every other token has at least one character.
pub proof fn lemma_token_text(input: Seq<char>, position: int)
    requires
        0 <= position <= input.len(),
    ensures
        ({
            let token = scan_token(input, position);
            &&& forall|i: int|
                0 <= i < text_of(token).len() ==> !is_whitespace(#[trigger] text_of(token)[i])
            &&& token.token_type == TokenType::EOF <==> token.literal is None
            &&& token.literal is Some ==> text_of(token).len() >= 1
        }),
{
    lemma_scan_bounds(input, position);
    if lexeme_start(input, position) < input.len() {
        lemma_longest_match(input, position);
    }
}

/// A filter that keeps no element of `s` leaves nothing.
proof fn lemma_filter_none(s: Seq<char>, keep: spec_fn(char) -> bool)
    requires
        forall|i: int| 0 <= i < s.len() ==> !keep(#[trigger] s[i]),
    ensures
        s.filter(keep) == Seq::<char>::empty(),
    decreases s.len(),
{
    reveal(Seq::filter);
    if s.len() > 0 {
        lemma_filter_none(s.drop_last(), keep);
    }
}

/// A filter that keeps every element of `s` leaves `s` as it is.
proof fn lemma_filter_all(s: Seq<char>, keep: spec_fn(char) -> bool)
    requires
        forall|i: int| 0 <= i < s.len() ==> keep(#[trigger] s[i]),
    ensures
        s.filter(keep) == s,
    decreases s.len(),
{
    reveal(Seq::filter);
    if s.len() > 0 {
        lemma_filter_all(s.drop_last(), keep);
    }
}

/// Nothing but whitespace is lost: the texts of all tokens of an input,
/// one after the other, are the input with its whitespace taken out.
pub proof fn lemma_texts_are_input_without_whitespace(input: Seq<char>, position: int)
    requires
        0 <= position <= input.len(),
    ensures
        texts(scan_all(input, position)) == without_whitespace(
            input.subrange(position, input.len() as int),
        ),
    decreases input.len() - position,
{
    let keep = |c: char| !is_whitespace(c);
    let tokens = scan_all(input, position);
    let start = lexeme_start(input, position);
    let gap = input.subrange(position, start);
    let tail = input.subrange(position, input.len() as int);
    lemma_scan_bounds(input, position);
    lemma_token_text(input, position);
    lemma_filter_none(gap, keep);
    if scan_literal(input, position) is Some {
        let next = scan_position(input, position);
        let text = input.subrange(start, next);
        let rest = input.subrange(next, input.len() as int);
        lemma_texts_are_input_without_whitespace(input, next);
        assert(tokens.drop_first() =~= scan_all(input, next));
        lemma_filter_all(text, keep);
        assert(tail =~= gap + text + rest);
    } else {
        assert(texts(tokens.drop_first()) =~= Seq::<char>::empty());
    }
}

/// The token stream ends with the end-of-input token and holds no other.
pub proof fn lemma_stream_ends_once(input: Seq<char>, position: int)
    requires
        0 <= position <= input.len(),
    ensures
        scan_all(input, position).len() >= 1,
        scan_all(input, position).last() == (TokenView {
            token_type: TokenType::EOF,
            literal: None,
        }),
        forall|i: int|
            0 <= i < scan_all(input, position).len() - 1 ==> (#[trigger] scan_all(
                input,
                position,
            )[i]).token_type != TokenType::EOF,
    decreases input.len() - position,
{
    lemma_scan_bounds(input, position);
    if scan_literal(input, position) is Some {
        lemma_stream_ends_once(input, scan_position(input, position));
    }
}

/// The end of the input is a terminal state: once a scan has produced the
/// end-of-input token, every later scan produces it again, and the cursor
/// rests at the end of the input.
pub proof fn lemma_end_of_input_is_terminal(input: Seq<char>, position: int, count: nat)
    requires
        0 <= position <= input.len(),
        scan_token(input, position).token_type == TokenType::EOF,
    ensures
        scan_token(input, position_after(input, position, count)) == (TokenView {
            token_type: TokenType::EOF,
            literal: None,
        }),
        count >= 1 ==> position_after(input, position, count) == input.len(),
    decreases count,
{
    if count > 0 {
        lemma_end_of_input_is_terminal(input, position, (count - 1) as nat);
        let before = position_after(input, position, (count - 1) as nat);
        lemma_scan_bounds(input, before);
    }
}

} // verus!
