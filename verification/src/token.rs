//! Tokens and their kinds.

use crate::chars::{all_chars_of_class, all_of_class, decode, CharClass};
use vstd::prelude::*;
use vstd::slice::slice_index_get;
use vstd::std_specs::convert::FromSpecImpl;

verus! {

/// The kind of a token. The set is closed.
#[derive(PartialEq, Eq, Structural, Clone, Copy, Debug)]
pub enum TokenType {
    Illegal,
    EOF,
    // Identifiers and literals
    Identifier,
    Integer,
    // Operators
    Assign,
    Plus,
    // Delimiters
    Comma,
    Semicolon,
    LeftParenthesis,
    RightParenthesis,
    LeftBrace,
    RightBrace,
    // Keywords
    Function,
    Let,
}

/// The kind of the lexeme that consists of the single character `c`, where
/// `c` is one of the eight symbols of the language; `Illegal` for every
/// other character.
pub open spec fn symbol_type(c: char) -> TokenType {
    if c == '=' {
        TokenType::Assign
    } else if c == '+' {
        TokenType::Plus
    } else if c == '(' {
        TokenType::LeftParenthesis
    } else if c == ')' {
        TokenType::RightParenthesis
    } else if c == '{' {
        TokenType::LeftBrace
    } else if c == '}' {
        TokenType::RightBrace
    } else if c == ',' {
        TokenType::Comma
    } else if c == ';' {
        TokenType::Semicolon
    } else {
        TokenType::Illegal
    }
}

/// The kind of a lexeme, taken as a whole: a symbol, a keyword, an
/// identifier (letters and underscores only), an integer (digits only), or
/// else illegal. The empty lexeme, which has no character that is not a
/// letter, counts as an identifier.
pub open spec fn lexeme_type(lexeme: Seq<char>) -> TokenType {
    if lexeme.len() == 1 && symbol_type(lexeme[0]) != TokenType::Illegal {
        symbol_type(lexeme[0])
    } else if lexeme =~= seq!['f', 'n'] {
        TokenType::Function
    } else if lexeme =~= seq!['l', 'e', 't'] {
        TokenType::Let
    } else if all_of_class(lexeme, CharClass::Letter) {
        TokenType::Identifier
    } else if all_of_class(lexeme, CharClass::Digit) {
        TokenType::Integer
    } else {
        TokenType::Illegal
    }
}

/// The kind of a token with the given text: `EOF` where there is no text.
pub open spec fn token_type_of(literal: Option<Seq<char>>) -> TokenType {
    match literal {
        Some(lexeme) => lexeme_type(lexeme),
        None => TokenType::EOF,
    }
}

impl TokenType {
    /// The kind of the one-character lexeme `c`, if `c` is a symbol of the
    /// language, and `Illegal` if it is not.
    pub fn of_symbol(c: char) -> (token_type: TokenType)
        ensures
            token_type == symbol_type(c),
    {
        match c {
            '=' => TokenType::Assign,
            '+' => TokenType::Plus,
            '(' => TokenType::LeftParenthesis,
            ')' => TokenType::RightParenthesis,
            '{' => TokenType::LeftBrace,
            '}' => TokenType::RightBrace,
            ',' => TokenType::Comma,
            ';' => TokenType::Semicolon,
            _ => TokenType::Illegal,
        }
    }

    /// The kind of a lexeme given as characters.
    pub fn of_lexeme(lexeme: &[char]) -> (token_type: TokenType)
        ensures
            token_type == lexeme_type(lexeme@),
    {
        let n: usize = lexeme.len();
        if n == 1 {
            let symbol = TokenType::of_symbol(*slice_index_get(lexeme, 0));
            if symbol != TokenType::Illegal {
                return symbol;
            }
        }
        if n == 2 && *slice_index_get(lexeme, 0) == 'f' && *slice_index_get(lexeme, 1) == 'n' {
            return TokenType::Function;
        }
        if n == 3 && *slice_index_get(lexeme, 0) == 'l' && *slice_index_get(lexeme, 1) == 'e'
            && *slice_index_get(lexeme, 2) == 't' {
            return TokenType::Let;
        }
        if all_chars_of_class(lexeme, CharClass::Letter) {
            TokenType::Identifier
        } else if all_chars_of_class(lexeme, CharClass::Digit) {
            TokenType::Integer
        } else {
            TokenType::Illegal
        }
    }
}

impl<'a> From<Option<&'a str>> for TokenType {
    /// The kind of a token with the given text.
    fn from(value: Option<&'a str>) -> (token_type: TokenType) {
        match value {
            Some(text) => {
                let chars = decode(text);
                TokenType::of_lexeme(chars.as_slice())
            },
            None => TokenType::EOF,
        }
    }
}

impl<'a> FromSpecImpl<Option<&'a str>> for TokenType {
    open spec fn obeys_from_spec() -> bool {
        true
    }

    open spec fn from_spec(value: Option<&'a str>) -> TokenType {
        token_type_of(
            match value {
                Some(text) => Some(text@),
                None => None,
            },
        )
    }
}

/// A token: its kind and the source text that produced it. Among the
/// tokens that a lexer gives, the end-of-input token and no other is
/// without text.
#[derive(Debug)]
pub struct Token {
    pub token_type: TokenType,
    pub literal: Option<String>,
}

/// The mathematical value of a [`Token`]: its text as a sequence of characters.
pub struct TokenView {
    pub token_type: TokenType,
    pub literal: Option<Seq<char>>,
}

impl View for Token {
    type V = TokenView;

    open spec fn view(&self) -> TokenView {
        TokenView {
            token_type: self.token_type,
            literal: match self.literal {
                Some(s) => Some(s@),
                None => None,
            },
        }
    }
}

impl Token {
    /// Builds a token from its kind and its text.
    pub fn new(token_type: TokenType, literal: Option<String>) -> (token: Token)
        ensures
            token.token_type == token_type,
            token.literal == literal,
    {
        Token { token_type, literal }
    }
}

} // verus!
