use langfront::ast::{Ast, TypeSpec};
use langfront::diag::DiagPrinter;
use langfront::numfmt::dec_string;
use langfront::sema::{SemaChecker, SymbolKind, SymbolTable};

fn checker() -> SemaChecker {
    let diag = DiagPrinter::new(false, false, String::from("t"));
    SemaChecker::new(Ast { body: Vec::new() }, diag)
}

#[test]
fn nested_scope_resolution_and_shadowing() {
    let mut sc = checker();
    // outer declares `x`; inner block shadows it with another kind.
    let mut outer = SymbolTable::new(Some(String::from("__top_scope__")));
    outer.append(String::from("x"), SymbolKind::Variable(TypeSpec::Int));
    sc.add_table(String::from("outer"), outer);
    let inner = SymbolTable::new(Some(String::from("outer")));
    sc.add_table(String::from("inner"), inner);
    // `x` resolves from the inner scope through the parent chain.
    assert!(sc.contains_name(String::from("inner"), String::from("x")));
    // shadow it in the inner scope; the inner declaration wins there and
    // the outer one is untouched.
    let mut inner2 = SymbolTable::new(Some(String::from("outer")));
    inner2.append(String::from("x"), SymbolKind::Variable(TypeSpec::String));
    sc.add_table(String::from("inner"), inner2);
    let inner_scope = sc.get_scope("inner").unwrap();
    match inner_scope.get_symbol_by_name(&sc, &String::from("x")).unwrap() {
        SymbolKind::Variable(t) => assert!(matches!(t, TypeSpec::String)),
        other => panic!("unexpected symbol {:?}", other),
    }
    let outer_scope = sc.get_scope("outer").unwrap();
    match outer_scope.get_symbol_by_name(&sc, &String::from("x")).unwrap() {
        SymbolKind::Variable(t) => assert!(matches!(t, TypeSpec::Int)),
        other => panic!("unexpected symbol {:?}", other),
    }
    // a name nowhere in the chain resolves to nothing.
    assert!(!sc.contains_name(String::from("inner"), String::from("y")));
}

#[test]
fn dec_string_renders_decimal() {
    assert_eq!(dec_string(0), "0");
    assert_eq!(dec_string(7), "7");
    assert_eq!(dec_string(1203), "1203");
}
