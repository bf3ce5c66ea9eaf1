//! The lexer: the input text and a cursor into it.

use crate::chars::{char_class, decode, encode, CharClass};
use crate::scan::{end_of_run, lemma_scan_bounds, scan_position, scan_token};
use crate::stream::{
    lemma_texts_are_input_without_whitespace, scan_all, texts, views, without_whitespace,
};
use crate::token::{Token, TokenType};
use vstd::prelude::*;
use vstd::slice::slice_subrange;

verus! {

/// A lexer over one input text. Each request reads the next token and moves
/// the cursor past it; nothing else changes.
pub struct Lexer {
    chars: Vec<char>,
    read_position: usize,
}

/// The mathematical value of a [`Lexer`]: the characters of its input and
/// the position of its cursor among them.
pub struct LexerView {
    pub input: Seq<char>,
    pub position: int,
}

impl View for Lexer {
    type V = LexerView;

    closed spec fn view(&self) -> LexerView {
        LexerView { input: self.chars@, position: self.read_position as int }
    }
}

impl Lexer {
    #[verifier::type_invariant]
    spec fn cursor_in_input(self) -> bool {
        self.read_position <= self.chars@.len()
    }

    /// A lexer at the start of `input`.
    pub fn new(input: String) -> (lexer: Lexer)
        ensures
            lexer@.input == input@,
            lexer@.position == 0,
    {
        Lexer { chars: decode(input.as_str()), read_position: 0 }
    }

    /// The position of the cursor: the number of characters read so far.
    /// It never lies beyond the end of the input.
    pub fn position(&self) -> (position: usize)
        ensures
            position == self@.position,
            position <= self@.input.len(),
    {
        proof {
            use_type_invariant(self);
        }
        self.read_position
    }

    /// Reads the next token: passes over whitespace, then takes the longest
    /// lexeme that starts there and moves the cursor to its end. At the end
    /// of the input the token is the end-of-input token, which has no text,
    /// and the cursor stays at the end.
    pub fn next_token(&mut self) -> (token: Token)
        ensures
            final(self)@.input == old(self)@.input,
            final(self)@.position == scan_position(old(self)@.input, old(self)@.position),
            token@ == scan_token(old(self)@.input, old(self)@.position),
            old(self)@.position <= final(self)@.position <= final(self)@.input.len(),
    {
        proof {
            use_type_invariant(&*self);
        }
        let chars = self.chars.as_slice();
        let start = end_of_run(chars, self.read_position, CharClass::Whitespace);
        if start >= chars.len() {
            self.read_position = start;
            return Token::new(TokenType::EOF, None);
        }
        let end = match char_class(chars[start]) {
            CharClass::Letter => end_of_run(chars, start, CharClass::Letter),
            CharClass::Digit => end_of_run(chars, start, CharClass::Digit),
            _ => start + 1,
        };
        let lexeme = slice_subrange(chars, start, end);
        let token = Token::new(TokenType::of_lexeme(lexeme), Some(encode(lexeme)));
        self.read_position = end;
        token
    }

    /// Reads the next token as [`Lexer::next_token`] does, and gives `None`
    /// in place of the end-of-input token.
    pub fn next(&mut self) -> (item: Option<Token>)
        ensures
            final(self)@.input == old(self)@.input,
            final(self)@.position == scan_position(old(self)@.input, old(self)@.position),
            old(self)@.position <= final(self)@.position <= final(self)@.input.len(),
            match item {
                Some(token) => token@ == scan_token(old(self)@.input, old(self)@.position)
                    && token@.token_type != TokenType::EOF,
                None => scan_token(old(self)@.input, old(self)@.position).token_type
                    == TokenType::EOF,
            },
    {
        let token = self.next_token();
        if token.token_type == TokenType::EOF {
            None
        } else {
            Some(token)
        }
    }

    /// Reads all the tokens that are left, up to and including the
    /// end-of-input token, and leaves the cursor at the end of the input.
    pub fn tokenize(&mut self) -> (tokens: Vec<Token>)
        ensures
            final(self)@.input == old(self)@.input,
            final(self)@.position == final(self)@.input.len(),
            views(tokens@) == scan_all(old(self)@.input, old(self)@.position),
            texts(views(tokens@)) == without_whitespace(
                old(self)@.input.subrange(old(self)@.position, old(self)@.input.len() as int),
            ),
    {
        let mut tokens: Vec<Token> = Vec::new();
        let ghost input = self@.input;
        proof {
            use_type_invariant(&*self);
            lemma_texts_are_input_without_whitespace(input, self@.position);
        }
        loop
            invariant_except_break
                0 <= self@.position <= input.len(),
                views(tokens@) + scan_all(input, self@.position) == scan_all(
                    input,
                    old(self)@.position,
                ),
            invariant
                self@.input == input,
            ensures
                self@.input == input,
                self@.position == input.len(),
                views(tokens@) == scan_all(input, old(self)@.position),
            decreases input.len() - self@.position,
        {
            let ghost read = tokens@;
            proof {
                lemma_scan_bounds(input, self@.position);
            }
            let token = self.next_token();
            let done = token.token_type == TokenType::EOF;
            tokens.push(token);
            proof {
                assert(views(read) + (seq![token@] + scan_all(input, self@.position)) =~= (views(
                    read,
                ) + seq![token@]) + scan_all(input, self@.position));
            }
            if done {
                break ;
            }
        }
        tokens
    }
}

} // verus!
