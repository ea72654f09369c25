use langfront::diag::DiagPrinter;
use langfront::lexer::{get_keyword, is_identifier, is_whitespace, Lexer};
use langfront::token::TokenType;

fn lexer_for(src: &str) -> Lexer {
    let diag = DiagPrinter::new(false, false, String::from("t"));
    Lexer::new(String::from(src), diag)
}

#[test]
fn eof_is_idempotent_past_end_of_input() {
    let mut lx = lexer_for("x ");
    let t = lx.next_token().unwrap();
    assert!(matches!(t.get_type(), TokenType::Identifier));
    for _ in 0..5 {
        let t = lx.next_token().unwrap();
        assert!(matches!(t.get_type(), TokenType::Eof));
    }
}

#[test]
fn keywords_and_identifiers_classify() {
    for (w, k) in [
        ("func", TokenType::Func),
        ("int", TokenType::Int),
        ("string", TokenType::String),
        ("return", TokenType::Return),
        ("as", TokenType::As),
    ] {
        let t = get_keyword(String::from(w));
        assert_eq!(t.get_type().code(), k.code());
    }
    let t = get_keyword(String::from("funcs"));
    assert!(matches!(t.get_type(), TokenType::Identifier));
    let t = get_keyword(String::from("main"));
    assert!(matches!(t.get_type(), TokenType::Identifier));
}

#[test]
fn punctuation_and_lookahead() {
    let mut lx = lexer_for("( ) { } ; : :: + ++ +=");
    let kinds = [
        TokenType::OpenParen,
        TokenType::CloseParen,
        TokenType::OpenCurly,
        TokenType::CloseCurly,
        TokenType::Semicolon,
        TokenType::Colon,
        TokenType::ColonColon,
        TokenType::Plus,
        TokenType::PlusPlus,
        TokenType::PlusEqual,
    ];
    for k in kinds {
        let t = lx.next_token().unwrap();
        assert_eq!(t.get_type().code(), k.code());
    }
    assert!(matches!(lx.next_token().unwrap().get_type(), TokenType::Eof));
}

#[test]
fn string_literal_data_regains_quotes() {
    let mut lx = lexer_for("\"hi\" x");
    let t = lx.next_token().unwrap();
    assert!(matches!(t.get_type(), TokenType::StringLiteral));
    assert_eq!(t.get_data(), "\"hi\"");
    assert_eq!(t.value, "hi");
}

#[test]
fn numeric_literal_maximal_munch() {
    let mut lx = lexer_for("1234+5");
    let t = lx.next_token().unwrap();
    assert_eq!(t.get_data(), "1234");
    let t = lx.next_token().unwrap();
    assert!(matches!(t.get_type(), TokenType::Plus));
    let t = lx.next_token().unwrap();
    assert_eq!(t.get_data(), "5");
}

#[test]
fn char_classes() {
    assert!(is_whitespace(' ') && is_whitespace('\n'));
    assert!(!is_whitespace('\t'));
    assert!(is_identifier('a') && is_identifier('Z') && is_identifier('0') && is_identifier('_'));
    assert!(!is_identifier('-'));
}
