use langfront::ast::{Ast, DeclerationType, ExprType, StatementType, TypeSpec};
use langfront::context::Context;
use langfront::lexer::Lexer;
use langfront::parser::Parser;
use langfront::diag::{CompileError, DiagPrinter, DiagType};

fn run(src: &str) -> Result<Ast, CompileError> {
    let diag = DiagPrinter::new(false, false, String::from("test.lang"));
    let ctx = Context::new(diag, String::from(src));
    ctx.run()
}

#[test]
fn round_trip_minimal_program() {
    let ast = run("func main(): int { return 1; }").unwrap();
    assert_eq!(ast.body.len(), 1);
    match &ast.body[0] {
        StatementType::Decleration(DeclerationType::Function(f)) => {
            assert_eq!(f.name.value, "main");
            assert!(matches!(f.return_type, TypeSpec::Int));
            match &f.body {
                StatementType::Block(b) => {
                    assert_eq!(b.body.len(), 1);
                    match &b.body[0] {
                        StatementType::Return(ExprType::NumericLiteral(t)) => {
                            assert_eq!(t.value, "1");
                        }
                        other => panic!("unexpected statement {:?}", other),
                    }
                }
                other => panic!("unexpected body {:?}", other),
            }
        }
        other => panic!("unexpected top statement {:?}", other),
    }
}

#[test]
fn type_mismatch_is_fatal_error() {
    let e = run("func main(): string { return 1; }").unwrap_err();
    match &e {
        CompileError::UnexpectedReturnType { declared, actual } => {
            assert!(matches!(declared, TypeSpec::String));
            assert!(matches!(actual, TypeSpec::Int));
        }
        other => panic!("unexpected error {:?}", other),
    }
    assert!(matches!(e.severity(), DiagType::Error));
    assert_eq!(
        e.message(),
        "Unexpected return type, expected `String` but got `Int`"
    );
}

#[test]
fn undeclared_identifier_in_return_is_internal_error() {
    // return-type evaluation sees the identifier before resolution does, so
    // the internal-error path fires, not the undeclared-identifier error.
    let e = run("func main(): int { return x; }").unwrap_err();
    assert!(matches!(e, CompileError::UnhandledExprType));
    assert!(matches!(e.severity(), DiagType::Ice));
}

#[test]
fn undeclared_identifier_in_expression_statement() {
    let e = run("func main(): int { x; }").unwrap_err();
    match &e {
        CompileError::UndeclaredIdentifier { name } => assert_eq!(name, "x"),
        other => panic!("unexpected error {:?}", other),
    }
}

#[test]
fn redefinition_is_fatal() {
    let e = run("func main(): int { } func main(): int { }").unwrap_err();
    match &e {
        CompileError::RedefinitionOfFunction { name } => assert_eq!(name, "main"),
        other => panic!("unexpected error {:?}", other),
    }
    assert_eq!(e.message(), "Redefinition of function `main`");
}

#[test]
fn unterminated_string_is_fatal() {
    let e = run("func main(): string { return \"abc").unwrap_err();
    assert!(matches!(e, CompileError::UnterminatedString));
    assert_eq!(e.message(), "Unterminated string");
}

#[test]
fn unknown_token_is_fatal() {
    let e = run("func main(): int { return 1 % 2; }").unwrap_err();
    assert!(matches!(e, CompileError::UnknownToken { ch: '%' }));
    assert_eq!(e.message(), "Unknown token `%`");
}

#[test]
fn member_access_of_function_is_not_a_namespace() {
    let e = run("func a(): int { } func main(): int { a::b; }").unwrap_err();
    match &e {
        CompileError::NotANamespace { name } => assert_eq!(name, "a"),
        other => panic!("unexpected error {:?}", other),
    }
}

#[test]
fn unexpected_top_level_token() {
    let e = run("return 1;").unwrap_err();
    match &e {
        CompileError::UnexpectedToken { got } => assert_eq!(got.value, "return"),
        other => panic!("unexpected error {:?}", other),
    }
}

fn parse(src: &str) -> Ast {
    let diag = DiagPrinter::new(false, false, String::from("test.lang"));
    let lexer = Lexer::new(String::from(src), diag.clone());
    let mut parser = Parser::new(lexer, diag).unwrap();
    parser.parse_to_ast().unwrap()
}

#[test]
fn binary_chain_and_cast_parse() {
    let ast = parse("func main(): int { return 1 + 2 + 3 as int; }");
    match &ast.body[0] {
        StatementType::Decleration(DeclerationType::Function(f)) => match &f.body {
            StatementType::Block(b) => match &b.body[0] {
                StatementType::Return(ExprType::Binary(l, op, _r)) => {
                    assert_eq!(op.value, "+");
                    match &**l {
                        ExprType::Binary(_, op2, _) => assert_eq!(op2.value, "+"),
                        other => panic!("not left-associative: {:?}", other),
                    }
                }
                other => panic!("unexpected {:?}", other),
            },
            _ => unreachable!(),
        },
        _ => unreachable!(),
    }
}
