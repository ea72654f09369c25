use vstd::prelude::*;
use vstd::string::*;
use crate::ast::{Ast, AstV};
use crate::diag::{DiagPrinter, DiagType, CompileError, ErrV, formatted_line, info_lines};
use crate::lexer::{Lexer, spec_next_token};
use crate::parser::Parser;
use crate::analyzer::Sema;
use crate::grammar::{prem, p_wf, parse_fuel, sp_program_items, sp_parser_new, spec_parse_program};
use crate::sema::sp_check;

verus! {

broadcast use vstd::seq::group_seq_axioms;

/// What one whole run yields for input `s`: the validated syntax tree, or
/// the single diagnostic at which scanning, parsing or analysis stopped.
pub open spec fn spec_compile(s: Seq<char>) -> Result<AstV, ErrV> {
    match spec_parse_program(s) {
        Err(e) => Err(e),
        Ok(ast) => match sp_check(ast.body) {
            Ok(_) => Ok(ast),
            Err(e) => Err(e),
        },
    }
}

/// One compilation: a diagnostic printer and one file's text.
pub struct Context {
    pub diagnostic_printer: DiagPrinter,
    pub file_data: String,
}

impl Context {
    pub fn new(diagnostic_printer: DiagPrinter, file_data: String) -> (r: Self)
        ensures
            r.diagnostic_printer == diagnostic_printer,
            r.file_data@ == file_data@,
    {
        Context { diagnostic_printer, file_data }
    }

    /// The informational lines this run would print: the printer's settings
    /// and, when asked, the file's text (shown only when verbose).
    pub fn print_info(&self, file_data: bool) -> (r: Vec<String>)
        ensures
            ({
                let base = info_lines(self.diagnostic_printer);
                let extra = if file_data {
                    formatted_line(
                        self.diagnostic_printer,
                        DiagType::Debug,
                        "File data: `"@ + self.file_data@ + "`"@,
                    )
                } else {
                    Option::None
                };
                match extra {
                    Option::Some(line) => r@.len() == base.len() + 1 && (forall|i: int|
                        0 <= i < base.len() ==> r@[i]@ == base[i]) && r@.last()@ == line,
                    Option::None => r@.len() == base.len() && (forall|i: int|
                        0 <= i < base.len() ==> r@[i]@ == base[i]),
                }
            }),
    {
        let mut r = self.diagnostic_printer.print_info();
        if file_data {
            let mut text = String::from_str("File data: `");
            text.append(self.file_data.as_str());
            text.append("`");
            match self.diagnostic_printer.format_line(DiagType::Debug, &text) {
                Option::Some(line) => {
                    r.push(line);
                },
                Option::None => {},
            }
        }
        r
    }

    /// The whole pipeline over this file: scan, parse, analyze.
    pub fn run(&self) -> (r: Result<Ast, CompileError>)
        requires
            self.file_data@.len() + 1 <= usize::MAX,
        ensures
            match r {
                Ok(a) => spec_compile(self.file_data@) == Ok::<AstV, ErrV>(a@),
                Err(e) => spec_compile(self.file_data@) == Err::<AstV, ErrV>(e@),
            },
    {
        let ghost s = self.file_data@;
        let lexer = Lexer::new(self.file_data.clone(), self.diagnostic_printer.clone());
        let ghost lxv = lexer@;
        proof {
            assert(lxv == (crate::lexer::LexV { s, i: 0, c: '\0', started: false }));
        }
        let mut parser = match Parser::new(lexer, self.diagnostic_printer.clone()) {
            Ok(p) => p,
            Err(e) => {
                proof {
                    assert(sp_parser_new(s) == Err::<crate::grammar::PSt, ErrV>(e@));
                }
                return Err(e);
            },
        };
        let ghost st0 = parser@;
        proof {
            crate::lexer::lemma_spec_next_token(lxv);
            assert(st0.lx.s == s);
            assert(spec_next_token(lxv) matches Ok((t, lx1)) && st0 == (crate::grammar::PSt {
                lx: lx1,
                cur: t,
                next_id: 1,
            }));
            assert(sp_parser_new(s) == Ok::<crate::grammar::PSt, ErrV>(st0));
            assert(p_wf(st0));
        }
        let ast = match parser.parse_to_ast() {
            Ok(a) => a,
            Err(e) => {
                proof {
                    assert(parse_fuel(s) >= 16 * prem(st0) + 7);
                    assert(sp_program_items(st0, parse_fuel(s)) == Some(
                        Err::<(Seq<crate::ast::StmtV>, crate::grammar::PSt), ErrV>(e@),
                    ));
                }
                return Err(e);
            },
        };
        proof {
            assert(parse_fuel(s) >= 16 * prem(st0) + 7);
            assert(spec_parse_program(s) == Ok::<AstV, ErrV>(AstV { body: ast@.body }));
            assert(ast@ =~= (AstV { body: ast@.body }));
        }
        let sema = Sema::new(ast, self.diagnostic_printer.clone());
        sema.run()
    }
}

} // verus!
