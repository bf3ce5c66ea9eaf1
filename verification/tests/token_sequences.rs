use lexer::{Lexer, Token, TokenType};

fn assert_tokens(input: &str, expected: &[(TokenType, Option<&str>)]) {
    let mut lexer = Lexer::new(input.to_string());
    for (index, (token_type, literal)) in expected.iter().enumerate() {
        let token: Token = lexer.next_token();
        assert_eq!(token.token_type, *token_type, "kind of token {index}");
        assert_eq!(token.literal.as_deref(), *literal, "text of token {index}");
    }
}

#[test]
fn symbols_in_a_row() {
    assert_tokens(
        "=+(){},;",
        &[
            (TokenType::Assign, Some("=")),
            (TokenType::Plus, Some("+")),
            (TokenType::LeftParenthesis, Some("(")),
            (TokenType::RightParenthesis, Some(")")),
            (TokenType::LeftBrace, Some("{")),
            (TokenType::RightBrace, Some("}")),
            (TokenType::Comma, Some(",")),
            (TokenType::Semicolon, Some(";")),
            (TokenType::EOF, None),
        ],
    );
}

#[test]
fn let_statement() {
    assert_tokens(
        "let five = 5;",
        &[
            (TokenType::Let, Some("let")),
            (TokenType::Identifier, Some("five")),
            (TokenType::Assign, Some("=")),
            (TokenType::Integer, Some("5")),
            (TokenType::Semicolon, Some(";")),
            (TokenType::EOF, None),
        ],
    );
}

#[test]
fn empty_input_is_end_of_input_at_once() {
    let mut lexer = Lexer::new(String::new());
    let token = lexer.next_token();
    assert_eq!(token.token_type, TokenType::EOF);
    assert_eq!(token.literal, None);
    assert_eq!(lexer.position(), 0);
}

#[test]
fn illegal_character_is_a_token() {
    assert_tokens("@", &[(TokenType::Illegal, Some("@")), (TokenType::EOF, None)]);
}

#[test]
fn keyword_is_not_cut_from_a_longer_word() {
    assert_tokens("letx", &[(TokenType::Identifier, Some("letx")), (TokenType::EOF, None)]);
    assert_tokens("letter", &[(TokenType::Identifier, Some("letter")), (TokenType::EOF, None)]);
    assert_tokens("fnx", &[(TokenType::Identifier, Some("fnx")), (TokenType::EOF, None)]);
    assert_tokens("f", &[(TokenType::Identifier, Some("f")), (TokenType::EOF, None)]);
    assert_tokens("le", &[(TokenType::Identifier, Some("le")), (TokenType::EOF, None)]);
    assert_tokens(
        "let x",
        &[
            (TokenType::Let, Some("let")),
            (TokenType::Identifier, Some("x")),
            (TokenType::EOF, None),
        ],
    );
}

#[test]
fn whole_program() {
    let input = "let five = 5;
let ten = 10;

let add = fn(x, y) {
x + y;
};

let result = add(five, ten);
";
    assert_tokens(
        input,
        &[
            (TokenType::Let, Some("let")),
            (TokenType::Identifier, Some("five")),
            (TokenType::Assign, Some("=")),
            (TokenType::Integer, Some("5")),
            (TokenType::Semicolon, Some(";")),
            (TokenType::Let, Some("let")),
            (TokenType::Identifier, Some("ten")),
            (TokenType::Assign, Some("=")),
            (TokenType::Integer, Some("10")),
            (TokenType::Semicolon, Some(";")),
            (TokenType::Let, Some("let")),
            (TokenType::Identifier, Some("add")),
            (TokenType::Assign, Some("=")),
            (TokenType::Function, Some("fn")),
            (TokenType::LeftParenthesis, Some("(")),
            (TokenType::Identifier, Some("x")),
            (TokenType::Comma, Some(",")),
            (TokenType::Identifier, Some("y")),
            (TokenType::RightParenthesis, Some(")")),
            (TokenType::LeftBrace, Some("{")),
            (TokenType::Identifier, Some("x")),
            (TokenType::Plus, Some("+")),
            (TokenType::Identifier, Some("y")),
            (TokenType::Semicolon, Some(";")),
            (TokenType::RightBrace, Some("}")),
            (TokenType::Semicolon, Some(";")),
            (TokenType::Let, Some("let")),
            (TokenType::Identifier, Some("result")),
            (TokenType::Assign, Some("=")),
            (TokenType::Identifier, Some("add")),
            (TokenType::LeftParenthesis, Some("(")),
            (TokenType::Identifier, Some("five")),
            (TokenType::Comma, Some(",")),
            (TokenType::Identifier, Some("ten")),
            (TokenType::RightParenthesis, Some(")")),
            (TokenType::Semicolon, Some(";")),
            (TokenType::EOF, None),
        ],
    );
}

#[test]
fn digits_and_letters_part_without_whitespace() {
    assert_tokens(
        "12ab34",
        &[
            (TokenType::Integer, Some("12")),
            (TokenType::Identifier, Some("ab")),
            (TokenType::Integer, Some("34")),
            (TokenType::EOF, None),
        ],
    );
    assert_tokens(
        "x1",
        &[
            (TokenType::Identifier, Some("x")),
            (TokenType::Integer, Some("1")),
            (TokenType::EOF, None),
        ],
    );
}

#[test]
fn underscore_is_a_letter() {
    assert_tokens(
        "_a_b __ let_",
        &[
            (TokenType::Identifier, Some("_a_b")),
            (TokenType::Identifier, Some("__")),
            (TokenType::Identifier, Some("let_")),
            (TokenType::EOF, None),
        ],
    );
}

#[test]
fn all_four_kinds_of_whitespace_are_passed_over() {
    assert_tokens(
        " \t\r\n a \n\t\r 1 \r\n",
        &[
            (TokenType::Identifier, Some("a")),
            (TokenType::Integer, Some("1")),
            (TokenType::EOF, None),
        ],
    );
}

#[test]
fn whitespace_only_is_end_of_input() {
    let mut lexer = Lexer::new("  \n\t ".to_string());
    let token = lexer.next_token();
    assert_eq!(token.token_type, TokenType::EOF);
    assert_eq!(token.literal, None);
    assert_eq!(lexer.position(), 5);
}

#[test]
fn scan_goes_on_after_an_illegal_character() {
    assert_tokens(
        "a @ 1 # -x",
        &[
            (TokenType::Identifier, Some("a")),
            (TokenType::Illegal, Some("@")),
            (TokenType::Integer, Some("1")),
            (TokenType::Illegal, Some("#")),
            (TokenType::Illegal, Some("-")),
            (TokenType::Identifier, Some("x")),
            (TokenType::EOF, None),
        ],
    );
}

#[test]
fn characters_beyond_ascii_are_illegal_one_by_one() {
    assert_tokens(
        "h\u{e9}llo \u{4e16}\u{754c}",
        &[
            (TokenType::Identifier, Some("h")),
            (TokenType::Illegal, Some("\u{e9}")),
            (TokenType::Identifier, Some("llo")),
            (TokenType::Illegal, Some("\u{4e16}")),
            (TokenType::Illegal, Some("\u{754c}")),
            (TokenType::EOF, None),
        ],
    );
}

#[test]
fn other_whitespace_than_the_four_is_illegal() {
    assert_tokens(
        "a\u{b}b\u{a0}",
        &[
            (TokenType::Identifier, Some("a")),
            (TokenType::Illegal, Some("\u{b}")),
            (TokenType::Identifier, Some("b")),
            (TokenType::Illegal, Some("\u{a0}")),
            (TokenType::EOF, None),
        ],
    );
}

#[test]
fn last_character_is_read_once() {
    assert_tokens("ab", &[(TokenType::Identifier, Some("ab")), (TokenType::EOF, None)]);
    assert_tokens("7", &[(TokenType::Integer, Some("7")), (TokenType::EOF, None)]);
    assert_tokens(
        "a;",
        &[
            (TokenType::Identifier, Some("a")),
            (TokenType::Semicolon, Some(";")),
            (TokenType::EOF, None),
        ],
    );
}
