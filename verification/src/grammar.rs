use vstd::prelude::*;
use crate::token::{TokenType, TokV, token_code};
use crate::ast::{TypeSpec, ExprV, StmtV, DeclV, FuncV, BlockV, AstV};
use crate::diag::ErrV;
use crate::lexer::{LexV, lex_wf, spec_next_token};
use crate::lexer::{lx_start, ws_skip};

verus! {

// ---------------------------------------------------------------------------
// The mathematical model of the parser: a state is the scanner's state, the
// one token of lookahead, and the id the next block will receive. The
// functions below define exactly which tree, or which first diagnostic, a
// given input yields. They take a fuel bound so that each is total; any
// fuel at least `16 * prem(st) + 16` is enough, and past that bound the
// result no longer depends on the fuel.
// ---------------------------------------------------------------------------

pub struct PSt {
    pub lx: LexV,
    pub cur: TokV,
    pub next_id: int,
}

/// How much input can still influence the parse: the unread characters plus
/// the lookahead token, unless that token is already `Eof`.
pub open spec fn prem(st: PSt) -> int {
    (st.lx.s.len() + 1 - st.lx.i) + if st.cur.kind == TokenType::Eof {
        0int
    } else {
        1int
    }
}

/// Well-formedness of a parser state.
pub open spec fn p_wf(st: PSt) -> bool {
    &&& lex_wf(st.lx)
    &&& st.lx.started
    &&& (st.cur.kind == TokenType::Eof ==> st.lx.c == '\0')
    &&& 1 <= st.next_id
    &&& st.next_id + prem(st) <= st.lx.s.len() + 1
}

/// Advancing the lookahead: the old lookahead is handed out and the scanner
/// yields its successor.
pub open spec fn sp_consume(st: PSt) -> Result<(TokV, PSt), ErrV> {
    match spec_next_token(st.lx) {
        Ok((t, lx1)) => Ok((st.cur, PSt { lx: lx1, cur: t, next_id: st.next_id })),
        Err(e) => Err(e),
    }
}

/// Checking the lookahead against an expected kind, optionally consuming it.
pub open spec fn sp_expect(st: PSt, consume: bool, kind: TokenType) -> Result<(TokV, PSt), ErrV> {
    if st.cur.kind == kind {
        if consume {
            sp_consume(st)
        } else {
            Ok((st.cur, st))
        }
    } else {
        Err(ErrV::ExpectedToken { expected: kind, got: st.cur })
    }
}

/// A type annotation: one of the type keywords, which sit above
/// `__TYPESSTART` in the kind numbering.
pub open spec fn sp_type_annotation(st: PSt) -> Result<(TypeSpec, PSt), ErrV> {
    if token_code(st.cur.kind) > token_code(TokenType::__TYPESSTART) {
        if st.cur.kind == TokenType::Int {
            match sp_consume(st) {
                Ok((_, st1)) => Ok((TypeSpec::Int, st1)),
                Err(e) => Err(e),
            }
        } else if st.cur.kind == TokenType::String {
            match sp_consume(st) {
                Ok((_, st1)) => Ok((TypeSpec::String, st1)),
                Err(e) => Err(e),
            }
        } else {
            Err(ErrV::ExpectedTypeSpecifier { got: st.cur })
        }
    } else {
        Err(ErrV::ExpectedTypeSpecifier { got: st.cur })
    }
}

/// The binding strength of a binary operator: only `+` has one.
pub open spec fn prec_of(t: TokenType) -> u8 {
    if t == TokenType::Plus {
        1
    } else {
        0
    }
}

/// A primary expression: an identifier, a literal, or a parenthesized
/// sub-expression.
pub open spec fn sp_primary(st: PSt, f: int) -> Option<Result<(ExprV, PSt), ErrV>>
    decreases f,
{
    if f <= 0 {
        None
    } else {
        match st.cur.kind {
            TokenType::Identifier => match sp_consume(st) {
                Ok((_, st1)) => Some(Ok((ExprV::Identifier(st.cur), st1))),
                Err(e) => Some(Err(e)),
            },
            TokenType::StringLiteral => match sp_consume(st) {
                Ok((_, st1)) => Some(Ok((ExprV::StringLiteral(st.cur), st1))),
                Err(e) => Some(Err(e)),
            },
            TokenType::NumericLiteral => match sp_consume(st) {
                Ok((_, st1)) => Some(Ok((ExprV::NumericLiteral(st.cur), st1))),
                Err(e) => Some(Err(e)),
            },
            TokenType::OpenParen => match sp_consume(st) {
                Ok((_, st1)) => match sp_expr(st1, 0, f - 1) {
                    None => None,
                    Some(Ok((e, st2))) => match sp_expect(st2, true, TokenType::CloseParen) {
                        Ok((_, st3)) => Some(Ok((e, st3))),
                        Err(er) => Some(Err(er)),
                    },
                    Some(Err(er)) => Some(Err(er)),
                },
                Err(e) => Some(Err(e)),
            },
            _ => Some(Err(ErrV::UnexpectedToken { got: st.cur })),
        }
    }
}

/// The left-associative postfix chain after a primary expression: member
/// accesses with `::` and call argument lists.
pub open spec fn sp_postfix_tail(st: PSt, e: ExprV, f: int) -> Option<Result<(ExprV, PSt), ErrV>>
    decreases f,
{
    if f <= 0 {
        None
    } else if st.cur.kind == TokenType::ColonColon {
        match sp_consume(st) {
            Ok((_, st1)) => match sp_primary(st1, f - 1) {
                None => None,
                Some(Ok((p, st2))) => sp_postfix_tail(
                    st2,
                    ExprV::MemberAccess(Box::new(e), Box::new(p)),
                    f - 1,
                ),
                Some(Err(er)) => Some(Err(er)),
            },
            Err(er) => Some(Err(er)),
        }
    } else if st.cur.kind == TokenType::OpenParen {
        match sp_consume(st) {
            Ok((_, st1)) => if st1.cur.kind != TokenType::CloseParen {
                match sp_call_args(st1, f - 1) {
                    None => None,
                    Some(Ok((args, st2))) => match sp_consume(st2) {
                        Ok((t2, st3)) => if t2.kind != TokenType::CloseParen {
                            Some(Err(ErrV::ExpectedCloseParen { got: st3.cur }))
                        } else {
                            sp_postfix_tail(
                                st3,
                                ExprV::Call(Box::new(e), args),
                                f - 1,
                            )
                        },
                        Err(er) => Some(Err(er)),
                    },
                    Some(Err(er)) => Some(Err(er)),
                }
            } else {
                match sp_consume(st1) {
                    Ok((t2, st2)) => if t2.kind != TokenType::CloseParen {
                        Some(Err(ErrV::ExpectedCloseParen { got: st2.cur }))
                    } else {
                        sp_postfix_tail(st2, ExprV::Call(Box::new(e), Seq::empty()), f - 1)
                    },
                    Err(er) => Some(Err(er)),
                }
            },
            Err(er) => Some(Err(er)),
        }
    } else {
        Some(Ok((e, st)))
    }
}

/// A non-empty, comma-separated call argument list.
pub open spec fn sp_call_args(st: PSt, f: int) -> Option<Result<(Seq<ExprV>, PSt), ErrV>>
    decreases f,
{
    if f <= 0 {
        None
    } else {
        match sp_expr(st, 0, f - 1) {
            None => None,
            Some(Ok((e, st1))) => if st1.cur.kind == TokenType::Comma {
                match sp_consume(st1) {
                    Ok((_, st2)) => match sp_call_args(st2, f - 1) {
                        None => None,
                        Some(Ok((rest, st3))) => Some(Ok((seq![e] + rest, st3))),
                        Some(Err(er)) => Some(Err(er)),
                    },
                    Err(er) => Some(Err(er)),
                }
            } else {
                Some(Ok((seq![e], st1)))
            },
            Some(Err(er)) => Some(Err(er)),
        }
    }
}

/// A postfix expression: a primary followed by its postfix chain.
pub open spec fn sp_postfix(st: PSt, f: int) -> Option<Result<(ExprV, PSt), ErrV>>
    decreases f,
{
    if f <= 0 {
        None
    } else {
        match sp_primary(st, f - 1) {
            None => None,
            Some(Ok((e, st1))) => sp_postfix_tail(st1, e, f - 1),
            Some(Err(er)) => Some(Err(er)),
        }
    }
}

/// The precedence-climbing additive chain: while the lookahead is `+` or
/// `-` and binds at least as strongly as `min_prec`, fold a `Binary` node,
/// parsing the right-hand side with the threshold one above the operator.
pub open spec fn sp_expr_tail(st: PSt, lhs: ExprV, min_prec: u8, f: int) -> Option<
    Result<(ExprV, PSt), ErrV>,
>
    decreases f,
{
    if f <= 0 {
        None
    } else if st.cur.kind == TokenType::Plus || st.cur.kind == TokenType::Minus {
        let prec = prec_of(st.cur.kind);
        if prec < min_prec {
            Some(Ok((lhs, st)))
        } else {
            let op = st.cur;
            match sp_consume(st) {
                Ok((_, st1)) => match sp_expr(st1, (prec + 1) as u8, f - 1) {
                    None => None,
                    Some(Ok((rhs, st2))) => sp_expr_tail(
                        st2,
                        ExprV::Binary(Box::new(lhs), op, Box::new(rhs)),
                        min_prec,
                        f - 1,
                    ),
                    Some(Err(er)) => Some(Err(er)),
                },
                Err(er) => Some(Err(er)),
            }
        }
    } else {
        Some(Ok((lhs, st)))
    }
}

/// A full expression: the additive chain above a postfix expression, then
/// an optional trailing `as` cast (casts do not chain).
pub open spec fn sp_expr(st: PSt, min_prec: u8, f: int) -> Option<Result<(ExprV, PSt), ErrV>>
    decreases f,
{
    if f <= 0 {
        None
    } else {
        match sp_postfix(st, f - 1) {
            None => None,
            Some(Ok((lhs, st1))) => match sp_expr_tail(st1, lhs, min_prec, f - 1) {
                None => None,
                Some(Ok((e2, st2))) => if st2.cur.kind == TokenType::As {
                    match sp_consume(st2) {
                        Ok((_, st3)) => match sp_type_annotation(st3) {
                            Ok((ts, st4)) => Some(Ok((ExprV::Cast(Box::new(e2), ts), st4))),
                            Err(er) => Some(Err(er)),
                        },
                        Err(er) => Some(Err(er)),
                    }
                } else {
                    Some(Ok((e2, st2)))
                },
                Some(Err(er)) => Some(Err(er)),
            },
            Some(Err(er)) => Some(Err(er)),
        }
    }
}

/// A statement: a block, a return statement, or an expression statement.
pub open spec fn sp_stmt(st: PSt, f: int) -> Option<Result<(StmtV, PSt), ErrV>>
    decreases f,
{
    if f <= 0 {
        None
    } else if st.cur.kind == TokenType::OpenCurly {
        match sp_consume(st) {
            Ok((_, st1)) => match sp_block_stmt(st1, f - 1) {
                None => None,
                Some(Ok((b, st2))) => Some(Ok((StmtV::Block(b), st2))),
                Some(Err(er)) => Some(Err(er)),
            },
            Err(er) => Some(Err(er)),
        }
    } else if st.cur.kind == TokenType::Return {
        match sp_consume(st) {
            Ok((_, st1)) => match sp_expr(st1, 0, f - 1) {
                None => None,
                Some(Ok((e, st2))) => match sp_expect(st2, true, TokenType::Semicolon) {
                    Ok((_, st3)) => Some(Ok((StmtV::Return(e), st3))),
                    Err(er) => Some(Err(er)),
                },
                Some(Err(er)) => Some(Err(er)),
            },
            Err(er) => Some(Err(er)),
        }
    } else {
        match sp_expr(st, 0, f - 1) {
            None => None,
            Some(Ok((e, st1))) => match sp_expect(st1, true, TokenType::Semicolon) {
                Ok((_, st2)) => Some(Ok((StmtV::Expr(e), st2))),
                Err(er) => Some(Err(er)),
            },
            Some(Err(er)) => Some(Err(er)),
        }
    }
}

/// The statements of a block, up to but not including the closing brace.
pub open spec fn sp_block_items(st: PSt, f: int) -> Option<Result<(Seq<StmtV>, PSt), ErrV>>
    decreases f,
{
    if f <= 0 {
        None
    } else if st.cur.kind == TokenType::CloseCurly {
        Some(Ok((Seq::empty(), st)))
    } else {
        match sp_stmt(st, f - 1) {
            None => None,
            Some(Ok((s, st1))) => match sp_block_items(st1, f - 1) {
                None => None,
                Some(Ok((rest, st2))) => Some(Ok((seq![s] + rest, st2))),
                Some(Err(er)) => Some(Err(er)),
            },
            Some(Err(er)) => Some(Err(er)),
        }
    }
}

/// A block body, entered after its opening brace: the statements, the
/// closing brace, and a fresh id for the block.
pub open spec fn sp_block_stmt(st: PSt, f: int) -> Option<Result<(BlockV, PSt), ErrV>>
    decreases f,
{
    if f <= 0 {
        None
    } else {
        match sp_block_items(st, f - 1) {
            None => None,
            Some(Ok((items, st1))) => match sp_expect(st1, true, TokenType::CloseCurly) {
                Ok((_, st2)) => Some(
                    Ok(
                        (
                            BlockV { body: items, id: st2.next_id },
                            PSt { lx: st2.lx, cur: st2.cur, next_id: st2.next_id + 1 },
                        ),
                    ),
                ),
                Err(er) => Some(Err(er)),
            },
            Some(Err(er)) => Some(Err(er)),
        }
    }
}

/// A function declaration, entered after the `func` keyword: name, an empty
/// parameter list, `:`, the return type, and one body statement.
pub open spec fn sp_func_decleration(st: PSt, f: int) -> Option<Result<(FuncV, PSt), ErrV>>
    decreases f,
{
    if f <= 0 {
        None
    } else {
        match sp_expect(st, true, TokenType::Identifier) {
            Err(er) => Some(Err(er)),
            Ok((name, st1)) => match sp_expect(st1, true, TokenType::OpenParen) {
                Err(er) => Some(Err(er)),
                Ok((_, st2)) => match sp_expect(st2, true, TokenType::CloseParen) {
                    Err(er) => Some(Err(er)),
                    Ok((_, st3)) => match sp_expect(st3, true, TokenType::Colon) {
                        Err(er) => Some(Err(er)),
                        Ok((_, st4)) => match sp_type_annotation(st4) {
                            Err(er) => Some(Err(er)),
                            Ok((rt, st5)) => match sp_stmt(st5, f - 1) {
                                None => None,
                                Some(Ok((body, st6))) => Some(
                                    Ok((FuncV { name, return_type: rt, body }, st6)),
                                ),
                                Some(Err(er)) => Some(Err(er)),
                            },
                        },
                    },
                },
            },
        }
    }
}

/// A declaration: only the `func` keyword opens one.
pub open spec fn sp_decleration(st: PSt, f: int) -> Option<Result<(DeclV, PSt), ErrV>>
    decreases f,
{
    if f <= 0 {
        None
    } else if st.cur.kind == TokenType::Func {
        match sp_consume(st) {
            Ok((_, st1)) => match sp_func_decleration(st1, f - 1) {
                None => None,
                Some(Ok((fd, st2))) => Some(Ok((DeclV::Function(Box::new(fd)), st2))),
                Some(Err(er)) => Some(Err(er)),
            },
            Err(er) => Some(Err(er)),
        }
    } else {
        Some(Err(ErrV::UnhandledDecleration { got: st.cur }))
    }
}

/// A top-level statement: only function declarations are legal.
pub open spec fn sp_top_stmt(st: PSt, f: int) -> Option<Result<(StmtV, PSt), ErrV>>
    decreases f,
{
    if f <= 0 {
        None
    } else if st.cur.kind == TokenType::Func {
        match sp_decleration(st, f - 1) {
            None => None,
            Some(Ok((d, st1))) => Some(Ok((StmtV::Decleration(d), st1))),
            Some(Err(er)) => Some(Err(er)),
        }
    } else {
        Some(Err(ErrV::UnexpectedToken { got: st.cur }))
    }
}

/// The top-level statements, until the lookahead is `Eof`.
pub open spec fn sp_program_items(st: PSt, f: int) -> Option<Result<(Seq<StmtV>, PSt), ErrV>>
    decreases f,
{
    if f <= 0 {
        None
    } else if st.cur.kind == TokenType::Eof {
        Some(Ok((Seq::empty(), st)))
    } else {
        match sp_top_stmt(st, f - 1) {
            None => None,
            Some(Ok((s, st1))) => match sp_program_items(st1, f - 1) {
                None => None,
                Some(Ok((rest, st2))) => Some(Ok((seq![s] + rest, st2))),
                Some(Err(er)) => Some(Err(er)),
            },
            Some(Err(er)) => Some(Err(er)),
        }
    }
}

/// The parser's state over a fresh scanner for `s`, after fetching the one
/// token of lookahead; block ids start at 1.
pub open spec fn sp_parser_new(s: Seq<char>) -> Result<PSt, ErrV> {
    match spec_next_token(LexV { s, i: 0, c: '\0', started: false }) {
        Ok((t, lx1)) => Ok(PSt { lx: lx1, cur: t, next_id: 1 }),
        Err(e) => Err(e),
    }
}

/// Fuel that is ample for any parse of `s`.
pub open spec fn parse_fuel(s: Seq<char>) -> int {
    16 * (s.len() as int) + 160
}

/// The syntax tree of `s`, or the single diagnostic its parse stops at:
/// what `Parser::parse_to_ast` yields over a fresh lexer for `s`.
pub open spec fn spec_parse_program(s: Seq<char>) -> Result<AstV, ErrV> {
    match sp_parser_new(s) {
        Err(e) => Err(e),
        Ok(st) => match sp_program_items(st, parse_fuel(s)) {
            Some(Ok((items, _))) => Ok(AstV { body: items }),
            Some(Err(e)) => Err(e),
            None => arbitrary(),
        },
    }
}

// ---------------------------------------------------------------------------
// Facts about the model.
// ---------------------------------------------------------------------------

/// Consuming preserves well-formedness, never grows the remaining input,
/// and shrinks it strictly unless the lookahead was already `Eof`.
pub proof fn lemma_sp_consume(st: PSt)
    requires
        p_wf(st),
    ensures
        match sp_consume(st) {
            Ok((t, st1)) => {
                &&& t == st.cur
                &&& p_wf(st1)
                &&& st1.lx.s == st.lx.s
                &&& st1.next_id == st.next_id
                &&& prem(st1) >= 0
                &&& prem(st1) + (if st.cur.kind == TokenType::Eof {
                    0int
                } else {
                    1int
                }) <= prem(st)
                &&& (st.cur.kind == TokenType::Eof ==> st1.lx == st.lx && st1.cur.kind
                    == TokenType::Eof)
            },
            Err(_) => true,
        },
{
    crate::lexer::lemma_spec_next_token(st.lx);
    if st.cur.kind == TokenType::Eof {
        assert(lx_start(st.lx) == st.lx);
        assert(ws_skip(st.lx) == st.lx);
    }
}

} // verus!
