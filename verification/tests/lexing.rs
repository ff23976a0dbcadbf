use yapl::lexer::Lexer;
use yapl::token::{Token, TokenType, Tokens};

fn lex(src: &str) -> Vec<Token> {
    let mut lexer = Lexer::new(src.chars().collect());
    lexer.tokenize()
}

fn kinds(src: &str) -> Vec<TokenType> {
    lex(src).into_iter().map(|t| t.token_type).collect()
}

#[test]
fn whitespace_only_lexes_empty() {
    assert_eq!(lex(""), vec![]);
    assert_eq!(lex(" \t  "), vec![]);
    assert_eq!(lex(" \t\n\n   \r\n "), vec![]);
}

#[test]
fn integer_literal() {
    assert_eq!(kinds("123"), vec![TokenType::Int("123".to_string())]);
}

#[test]
fn float_literal() {
    assert_eq!(kinds("1.5"), vec![TokenType::Float("1.5".to_string())]);
}

#[test]
fn float_literal_trailing_f() {
    assert_eq!(kinds("1f"), vec![TokenType::Float("1".to_string())]);
    assert_eq!(kinds("2.5f"), vec![TokenType::Float("2.5".to_string())]);
}

#[test]
fn second_dot_makes_number_illegal() {
    // the second dot joins the text and ends the literal; the rest of the
    // input lexes on
    assert_eq!(
        kinds("1.2.3"),
        vec![
            TokenType::Illegal("1.2.".to_string()),
            TokenType::Int("3".to_string()),
        ]
    );
}

#[test]
fn closed_string_literal() {
    assert_eq!(kinds("\"hello\""), vec![TokenType::String("hello".to_string())]);
    assert_eq!(kinds("\"\""), vec![TokenType::String("".to_string())]);
}

#[test]
fn string_with_raw_newline_is_illegal() {
    let ks = kinds("\"he\nllo\"");
    assert_eq!(ks[0], TokenType::Illegal("he".to_string()));
}

#[test]
fn string_unterminated_at_end_of_input_is_illegal() {
    assert_eq!(kinds("\"abc"), vec![TokenType::Illegal("abc".to_string())]);
}

#[test]
fn implicit_semicolon_after_each_line() {
    // token for token, the two-line input matches the explicitly terminated
    // one, apart from position metadata
    let a = kinds("val x = 1\nval y = 2\n");
    let b = kinds("val x = 1; val y = 2;");
    assert_eq!(a, b);
    assert_eq!(a[4], TokenType::Semicolon);
    assert_eq!(a[9], TokenType::Semicolon);
}

#[test]
fn no_semicolon_after_operator_at_line_end() {
    assert_eq!(
        kinds("val x = 1 +\n2"),
        vec![
            TokenType::Val,
            TokenType::Identifier("x".to_string()),
            TokenType::Equal,
            TokenType::Int("1".to_string()),
            TokenType::Plus,
            TokenType::Int("2".to_string()),
        ]
    );
}

#[test]
fn stray_character_is_illegal() {
    assert_eq!(kinds("@"), vec![TokenType::Illegal("@".to_string())]);
}

#[test]
fn keywords_and_identifiers() {
    assert_eq!(
        kinds("true false fun loop if else print return val var break continue truthy"),
        vec![
            TokenType::True,
            TokenType::False,
            TokenType::Fun,
            TokenType::Loop,
            TokenType::If,
            TokenType::Else,
            TokenType::Print,
            TokenType::Return,
            TokenType::Val,
            TokenType::Var,
            TokenType::Break,
            TokenType::Continue,
            TokenType::Identifier("truthy".to_string()),
        ]
    );
}

#[test]
fn identifier_with_underscore_and_digits() {
    assert_eq!(
        kinds("_a1_b2"),
        vec![TokenType::Identifier("_a1_b2".to_string())]
    );
}

#[test]
fn one_and_two_character_operators() {
    assert_eq!(
        kinds("< <= > >= = == ! != - + * / ; ( ) { } ,"),
        vec![
            TokenType::Less,
            TokenType::LessEqual,
            TokenType::Greater,
            TokenType::GreaterEqual,
            TokenType::Equal,
            TokenType::EqualEqual,
            TokenType::Bang,
            TokenType::BangEqual,
            TokenType::Minus,
            TokenType::Plus,
            TokenType::Star,
            TokenType::Slash,
            TokenType::Semicolon,
            TokenType::LeftParen,
            TokenType::RightParen,
            TokenType::LeftBrace,
            TokenType::RightBrace,
            TokenType::Comma,
        ]
    );
}

#[test]
fn line_comment_is_discarded() {
    assert_eq!(
        kinds("1 // a comment / with * stuff\n2\n"),
        vec![
            TokenType::Int("1".to_string()),
            TokenType::Semicolon,
            TokenType::Int("2".to_string()),
            TokenType::Semicolon,
        ]
    );
}

#[test]
fn lone_slash_is_division() {
    assert_eq!(
        kinds("4/2"),
        vec![
            TokenType::Int("4".to_string()),
            TokenType::Slash,
            TokenType::Int("2".to_string()),
        ]
    );
}

#[test]
fn positions_count_lines_from_one_and_columns_from_zero() {
    let ts = lex("ab c\nd");
    // `ab` ends at column 1 of line 1; `c` sits at column 3; the implicit
    // semicolon carries the newline's position; `d` starts line 2 at column 0
    assert_eq!(ts[0].line, 1);
    assert_eq!(ts[0].char, 1);
    assert_eq!(ts[1].line, 1);
    assert_eq!(ts[1].char, 3);
    assert_eq!(ts[2].token_type, TokenType::Semicolon);
    assert_eq!(ts[3].token_type, TokenType::Identifier("d".to_string()));
    assert_eq!(ts[3].line, 2);
    assert_eq!(ts[3].char, 0);
}

#[test]
fn only_one_semicolon_for_consecutive_newlines() {
    assert_eq!(
        kinds("1\n\n\n2\n"),
        vec![
            TokenType::Int("1".to_string()),
            TokenType::Semicolon,
            TokenType::Int("2".to_string()),
            TokenType::Semicolon,
        ]
    );
}

#[test]
fn semicolon_inserted_inside_unterminated_string_line() {
    // the newline that kills the string still terminates the previous
    // statement: the semicolon is delivered before the illegal token
    let ks = kinds("1\n\"ab\nc");
    assert_eq!(
        ks,
        vec![
            TokenType::Int("1".to_string()),
            TokenType::Semicolon,
            TokenType::Illegal("ab".to_string()),
            TokenType::Identifier("c".to_string()),
        ]
    );
}

#[test]
fn pull_based_next_token() {
    let mut lexer = Lexer::new("val x".chars().collect());
    let t1 = lexer.next_token().unwrap();
    assert_eq!(t1.token_type, TokenType::Val);
    let t2 = lexer.next_token().unwrap();
    assert_eq!(t2.token_type, TokenType::Identifier("x".to_string()));
    assert!(lexer.next_token().is_none());
    assert!(lexer.next_token().is_none());
}

#[test]
fn tokens_wrapper_keeps_order() {
    let ts = Tokens::new(lex("1 2"));
    assert_eq!(ts.len(), 2);
    assert_eq!(ts.get(0).token_type, TokenType::Int("1".to_string()));
    assert_eq!(ts.get(1).token_type, TokenType::Int("2".to_string()));
}
