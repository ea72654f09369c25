use langfront::diag::{CompileError, DiagPrinter, DiagType};
use langfront::token::{Token, TokenType};

#[test]
fn error_messages_render_like_the_diagnostics() {
    let e = CompileError::ExpectedToken {
        expected: TokenType::Semicolon,
        got: Token::new(TokenType::Identifier, String::from("x")),
    };
    assert_eq!(e.message(), "Expected `7` but got `x` instead");
    assert!(matches!(e.severity(), DiagType::Error));

    let e = CompileError::UnexpectedReturnType {
        declared: TypeSpec::String,
        actual: TypeSpec::Int,
    };
    assert_eq!(e.message(), "Unexpected return type, expected `String` but got `Int`");

    let e = CompileError::UnhandledDecleration {
        got: Token::new(TokenType::StringLiteral, String::from("ab")),
    };
    assert_eq!(e.message(), "Unhandeld decleration token: `\"ab\"`");
    assert!(matches!(e.severity(), DiagType::Ice));
}

#[test]
fn severity_labels_and_colors() {
    let plain = DiagPrinter::new(false, false, String::from("f"));
    assert_eq!(plain.get_name(&DiagType::Error), "Error");
    assert_eq!(plain.get_name(&DiagType::Ice), "Ice");
    assert_eq!(plain.get_color(&DiagType::Error), "\x1b[0m");
    let colored = DiagPrinter::new(false, true, String::from("f"));
    assert_eq!(colored.get_color(&DiagType::Error), "\x1b[1m\x1b[31m");
    assert_eq!(colored.get_color(&DiagType::Debug), "\x1b[1m\x1b[32m");
}

#[test]
fn format_line_suppresses_debug_unless_verbose() {
    let quiet = DiagPrinter::new(false, false, String::from("f"));
    assert!(quiet.format_line(DiagType::Debug, &String::from("hi")).is_none());
    let line = quiet.format_line(DiagType::Error, &String::from("boom")).unwrap();
    assert_eq!(line, "\x1b[0mError: \x1b[0mboom");
    let verbose = DiagPrinter::new(true, false, String::from("f"));
    let line = verbose.format_line(DiagType::Debug, &String::from("hi")).unwrap();
    assert_eq!(line, "\x1b[0mDebug: \x1b[0mhi");
}

#[test]
fn token_print_shows_kind_code_and_text() {
    let tok = Token::new(TokenType::Func, String::from("func"));
    let verbose = DiagPrinter::new(true, false, String::from("f"));
    let line = tok.print(&verbose).unwrap();
    assert_eq!(line, "\x1b[0mDebug: \x1b[0m256 (`func`)");
    let quiet = DiagPrinter::new(false, false, String::from("f"));
    assert!(tok.print(&quiet).is_none());
}

use langfront::ast::TypeSpec;
