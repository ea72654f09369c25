use vstd::prelude::*;
use crate::token::{Token, TokenType, TokV};
use crate::ast::{
    Ast, AstV, BlockStatement, BlockV, DeclerationType, DeclV, ExprType, ExprV,
    FunctionDeclerationStatement, FuncV, StatementType, StmtV, TypeSpec, exprs_view, stmts_view,
    lemma_exprs_view_push, lemma_stmts_view_push,
};
use crate::diag::{DiagPrinter, CompileError, ErrV};
use crate::lexer::{Lexer, lex_wf, spec_next_token};
use crate::grammar::{
    PSt, prem, p_wf, sp_consume, sp_expect, sp_type_annotation, prec_of, sp_primary,
    sp_postfix_tail, sp_call_args, sp_postfix, sp_expr_tail, sp_expr, sp_stmt, sp_block_items,
    sp_block_stmt, sp_func_decleration, sp_decleration, sp_top_stmt, sp_program_items,
    lemma_sp_consume,
};

verus! {

broadcast use vstd::seq::group_seq_axioms, vstd::std_specs::control_flow::group_control_flow_axioms;

/// The binding strength of a binary operator token.
pub fn get_precedency(token: TokenType) -> (r: u8)
    ensures
        r == prec_of(token),
{
    match token {
        TokenType::Plus => 1,
        _ => 0,
    }
}

/// The recursive-descent parser: it owns the scanner, one token of
/// lookahead, and the counter that numbers the blocks it builds.
pub struct Parser {
    lexer: Lexer,
    pub diag: DiagPrinter,
    pub current_token: Token,
    next_block_id: usize,
}

impl View for Parser {
    type V = PSt;

    closed spec fn view(&self) -> PSt {
        PSt { lx: self.lexer@, cur: self.current_token@, next_id: self.next_block_id as int }
    }
}

impl Parser {
    /// Builds a parser over `lexer`, fetching the one token of lookahead;
    /// the fetch itself can already fail on a malformed first lexeme.
    pub fn new(lexer: Lexer, diag: DiagPrinter) -> (r: Result<Parser, CompileError>)
        requires
            lex_wf(lexer@),
        ensures
            match r {
                Ok(p) => {
                    &&& spec_next_token(lexer@) matches Ok((t, lx1)) && p@ == (PSt {
                        lx: lx1,
                        cur: t,
                        next_id: 1,
                    })
                    &&& p_wf(p@)
                },
                Err(e) => spec_next_token(lexer@) matches Err(ev) && ev == e@,
            },
    {
        let ghost lv = lexer@;
        proof {
            crate::lexer::lemma_spec_next_token(lv);
        }
        let mut lexer = lexer;
        let current_token = lexer.next_token()?;
        Ok(Parser { lexer, diag, current_token, next_block_id: 1 })
    }

    /// Hands out the lookahead and replaces it with the scanner's next
    /// token.
    pub fn consume(&mut self) -> (r: Result<Token, CompileError>)
        requires
            p_wf(old(self)@),
        ensures
            p_wf(final(self)@),
            final(self)@.lx.s == old(self)@.lx.s,
            final(self)@.next_id == old(self)@.next_id,
            prem(final(self)@) <= prem(old(self)@),
            match r {
                Ok(t) => {
                    &&& sp_consume(old(self)@) == Ok::<(TokV, PSt), ErrV>((t@, final(self)@))
                    &&& t@ == old(self)@.cur
                    &&& (old(self)@.cur.kind != TokenType::Eof ==> prem(final(self)@) < prem(
                        old(self)@,
                    ))
                },
                Err(e) => sp_consume(old(self)@) == Err::<(TokV, PSt), ErrV>(e@),
            },
    {
        let ghost st0 = self@;
        proof {
            lemma_sp_consume(st0);
            crate::lexer::lemma_spec_next_token(st0.lx);
        }
        let t = self.lexer.next_token();
        match t {
            Err(e) => Err(e),
            Ok(tok) => {
                let prev = self.current_token.clone();
                self.current_token = tok;
                Ok(prev)
            },
        }
    }

    /// Checks the lookahead against `token_type`; on a match it returns the
    /// token (consuming it when asked to), otherwise the parse stops with
    /// an "expected … but got …" diagnostic.
    pub fn expect(&mut self, consume: bool, token_type: TokenType) -> (r: Result<
        Token,
        CompileError,
    >)
        requires
            p_wf(old(self)@),
        ensures
            p_wf(final(self)@),
            final(self)@.lx.s == old(self)@.lx.s,
            final(self)@.next_id == old(self)@.next_id,
            prem(final(self)@) <= prem(old(self)@),
            match r {
                Ok(t) => {
                    &&& sp_expect(old(self)@, consume, token_type) == Ok::<(TokV, PSt), ErrV>(
                        (t@, final(self)@),
                    )
                    &&& (consume && token_type != TokenType::Eof ==> prem(final(self)@) < prem(
                        old(self)@,
                    ))
                },
                Err(e) => sp_expect(old(self)@, consume, token_type) == Err::<
                    (TokV, PSt),
                    ErrV,
                >(e@),
            },
    {
        if self.current_token.get_type() == token_type {
            let ret_token = self.current_token.clone();
            if consume {
                let c = self.consume()?;
                return Ok(c);
            }
            return Ok(ret_token);
        }
        Err(
            CompileError::ExpectedToken {
                expected: token_type,
                got: self.current_token.clone(),
            },
        )
    }

    /// A type annotation: a token above `__TYPESSTART` in the kind
    /// numbering, looked up in the kind-to-type table.
    pub fn parse_type_annotation(&mut self) -> (r: Result<TypeSpec, CompileError>)
        requires
            p_wf(old(self)@),
        ensures
            p_wf(final(self)@),
            final(self)@.lx.s == old(self)@.lx.s,
            final(self)@.next_id == old(self)@.next_id,
            prem(final(self)@) <= prem(old(self)@),
            match r {
                Ok(ts) => sp_type_annotation(old(self)@) == Ok::<(TypeSpec, PSt), ErrV>(
                    (ts, final(self)@),
                ) && prem(final(self)@) < prem(old(self)@),
                Err(e) => sp_type_annotation(old(self)@) == Err::<(TypeSpec, PSt), ErrV>(e@),
            },
    {
        if self.current_token.get_type().code() > TokenType::__TYPESSTART.code() {
            if self.current_token.get_type() == TokenType::Int {
                self.consume()?;
                return Ok(TypeSpec::Int);
            }
            if self.current_token.get_type() == TokenType::String {
                self.consume()?;
                return Ok(TypeSpec::String);
            }
        }
        Err(CompileError::ExpectedTypeSpecifier { got: self.current_token.clone() })
    }

    /// A primary expression: an identifier, a literal, or a parenthesized
    /// sub-expression.
    #[verifier::rlimit(100)]
    pub fn parse_primary_expr(&mut self) -> (r: Result<ExprType, CompileError>)
        requires
            p_wf(old(self)@),
        ensures
            p_wf(final(self)@),
            final(self)@.lx.s == old(self)@.lx.s,
            final(self)@.next_id == old(self)@.next_id,
            prem(final(self)@) <= prem(old(self)@),
            match r {
                Ok(e) => prem(final(self)@) < prem(old(self)@) && forall|f: int|
                    f >= 16 * prem(old(self)@) + 1 ==> sp_primary(old(self)@, f) == Some(
                        Ok::<(ExprV, PSt), ErrV>((e@, final(self)@)),
                    ),
                Err(er) => forall|f: int|
                    f >= 16 * prem(old(self)@) + 1 ==> sp_primary(old(self)@, f) == Some(
                        Err::<(ExprV, PSt), ErrV>(er@),
                    ),
            },
        decreases prem(old(self)@), 1int,
    {
        let ghost st0 = self@;
        let t = self.current_token.get_type();
        if t == TokenType::Identifier {
            let ret = ExprType::Identifier(self.current_token.clone());
            self.consume()?;
            Ok(ret)
        } else if t == TokenType::StringLiteral {
            let ret = ExprType::StringLiteral(self.current_token.clone());
            self.consume()?;
            Ok(ret)
        } else if t == TokenType::NumericLiteral {
            let ret = ExprType::NumericLiteral(self.current_token.clone());
            self.consume()?;
            Ok(ret)
        } else if t == TokenType::OpenParen {
            self.consume()?;
            let ghost st1 = self@;
            let expr = match self.parse_expr(0) {
                Ok(v) => v,
                Err(e) => {
                    proof {
                        assert forall|f: int| f >= 16 * prem(st0) + 1 implies sp_primary(st0, f)
                            == Some(Err::<(ExprV, PSt), ErrV>(e@)) by {
                            assert(f - 1 >= 16 * prem(st1) + 3);
                            assert(sp_expr(st1, 0, f - 1) == Some(
                                Err::<(ExprV, PSt), ErrV>(e@),
                            ));
                        }
                    }
                    return Err(e);
                },
            };
            let ghost st2 = self@;
            match self.expect(true, TokenType::CloseParen) {
                Ok(_) => {},
                Err(e) => {
                    proof {
                        assert forall|f: int| f >= 16 * prem(st0) + 1 implies sp_primary(st0, f)
                            == Some(Err::<(ExprV, PSt), ErrV>(e@)) by {
                            assert(f - 1 >= 16 * prem(st1) + 3);
                            assert(sp_expr(st1, 0, f - 1) == Some(
                                Ok::<(ExprV, PSt), ErrV>((expr@, st2)),
                            ));
                        }
                    }
                    return Err(e);
                },
            }
            proof {
                assert forall|f: int| f >= 16 * prem(st0) + 1 implies sp_primary(st0, f) == Some(
                    Ok::<(ExprV, PSt), ErrV>((expr@, final(self)@)),
                ) by {
                    assert(f - 1 >= 16 * prem(st1) + 3);
                    assert(sp_expr(st1, 0, f - 1) == Some(Ok::<(ExprV, PSt), ErrV>((expr@, st2))));
                }
            }
            Ok(expr)
        } else {
            Err(CompileError::UnexpectedToken { got: self.current_token.clone() })
        }
    }

    /// The postfix chain after `member`: left-associative `::` member
    /// accesses and call argument lists.
    #[verifier::rlimit(100)]
    fn parse_postfix_tail(&mut self, member: ExprType) -> (r: Result<ExprType, CompileError>)
        requires
            p_wf(old(self)@),
        ensures
            p_wf(final(self)@),
            final(self)@.lx.s == old(self)@.lx.s,
            final(self)@.next_id == old(self)@.next_id,
            prem(final(self)@) <= prem(old(self)@),
            match r {
                Ok(e) => forall|f: int|
                    f >= 16 * prem(old(self)@) + 1 ==> sp_postfix_tail(old(self)@, member@, f)
                        == Some(Ok::<(ExprV, PSt), ErrV>((e@, final(self)@))),
                Err(er) => forall|f: int|
                    f >= 16 * prem(old(self)@) + 1 ==> sp_postfix_tail(old(self)@, member@, f)
                        == Some(Err::<(ExprV, PSt), ErrV>(er@)),
            },
        decreases prem(old(self)@), 1int,
    {
        let ghost st0 = self@;
        let ghost mv = member@;
        let t = self.current_token.get_type();
        if t == TokenType::ColonColon {
            self.consume()?;
            let ghost st1 = self@;
            let property = match self.parse_primary_expr() {
                Ok(v) => v,
                Err(e) => {
                    proof {
                        assert forall|f: int| f >= 16 * prem(st0) + 1 implies sp_postfix_tail(
                            st0,
                            mv,
                            f,
                        ) == Some(Err::<(ExprV, PSt), ErrV>(e@)) by {
                            assert(f - 1 >= 16 * prem(st1) + 1);
                            assert(sp_primary(st1, f - 1) == Some(Err::<(ExprV, PSt), ErrV>(e@)));
                        }
                    }
                    return Err(e);
                },
            };
            let ghost pv = property@;
            let ghost st2 = self@;
            let m2 = ExprType::MemberAccess(Box::new(member), Box::new(property));
            let ghost m2v = m2@;
            let res = match self.parse_postfix_tail(m2) {
                Ok(v) => v,
                Err(e) => {
                    proof {
                        assert forall|f: int| f >= 16 * prem(st0) + 1 implies sp_postfix_tail(
                            st0,
                            mv,
                            f,
                        ) == Some(Err::<(ExprV, PSt), ErrV>(e@)) by {
                            assert(f - 1 >= 16 * prem(st1) + 1);
                            assert(f - 1 >= 16 * prem(st2) + 1);
                            assert(sp_primary(st1, f - 1) == Some(
                                Ok::<(ExprV, PSt), ErrV>((pv, st2)),
                            ));
                            assert(sp_postfix_tail(st2, m2v, f - 1) == Some(
                                Err::<(ExprV, PSt), ErrV>(e@),
                            ));
                        }
                    }
                    return Err(e);
                },
            };
            proof {
                assert forall|f: int| f >= 16 * prem(st0) + 1 implies sp_postfix_tail(
                    st0,
                    mv,
                    f,
                ) == Some(Ok::<(ExprV, PSt), ErrV>((res@, final(self)@))) by {
                    assert(f - 1 >= 16 * prem(st1) + 1);
                    assert(f - 1 >= 16 * prem(st2) + 1);
                    assert(sp_primary(st1, f - 1) == Some(Ok::<(ExprV, PSt), ErrV>((pv, st2))));
                    assert(sp_postfix_tail(st2, m2v, f - 1) == Some(
                        Ok::<(ExprV, PSt), ErrV>((res@, final(self)@)),
                    ));
                }
            }
            Ok(res)
        } else if t == TokenType::OpenParen {
            self.consume()?;
            let ghost st1 = self@;
            let ghost had_args = self@.cur.kind != TokenType::CloseParen;
            let mut args: Vec<ExprType> = Vec::new();
            if self.current_token.get_type() != TokenType::CloseParen {
                match self.parse_call_args(&mut args) {
                    Ok(_) => {},
                    Err(e) => {
                        proof {
                            assert forall|f: int| f >= 16 * prem(st0) + 1 implies sp_postfix_tail(
                                st0,
                                mv,
                                f,
                            ) == Some(Err::<(ExprV, PSt), ErrV>(e@)) by {
                                assert(f - 1 >= 16 * prem(st1) + 4);
                                assert(sp_call_args(st1, f - 1) == Some(
                                    Err::<(Seq<ExprV>, PSt), ErrV>(e@),
                                ));
                            }
                        }
                        return Err(e);
                    },
                }
            }
            let ghost st2 = self@;
            let ghost items: Seq<ExprV> = if had_args {
                choose|items: Seq<ExprV>|
                    {
                        &&& exprs_view(args@) == exprs_view(Seq::<ExprType>::empty()) + items
                        &&& forall|f2: int|
                            f2 >= 16 * prem(st1) + 4 ==> #[trigger] sp_call_args(st1, f2) == Some(
                                Ok::<(Seq<ExprV>, PSt), ErrV>((items, st2)),
                            )
                    }
            } else {
                Seq::empty()
            };
            proof {
                assert(exprs_view(args@) =~= items);
            }
            let closing = match self.consume() {
                Ok(v) => v,
                Err(e) => {
                    proof {
                        assert forall|f: int| f >= 16 * prem(st0) + 1 implies sp_postfix_tail(
                            st0,
                            mv,
                            f,
                        ) == Some(Err::<(ExprV, PSt), ErrV>(e@)) by {
                            assert(f - 1 >= 16 * prem(st1) + 4);
                            if had_args {
                                assert(sp_call_args(st1, f - 1) == Some(
                                    Ok::<(Seq<ExprV>, PSt), ErrV>((items, st2)),
                                ));
                            }
                        }
                    }
                    return Err(e);
                },
            };
            let ghost st3 = self@;
            if closing.get_type() != TokenType::CloseParen {
                let err = CompileError::ExpectedCloseParen { got: self.current_token.clone() };
                proof {
                    assert forall|f: int| f >= 16 * prem(st0) + 1 implies sp_postfix_tail(
                        st0,
                        mv,
                        f,
                    ) == Some(Err::<(ExprV, PSt), ErrV>(err@)) by {
                        assert(f - 1 >= 16 * prem(st1) + 4);
                        if had_args {
                            assert(sp_call_args(st1, f - 1) == Some(
                                Ok::<(Seq<ExprV>, PSt), ErrV>((items, st2)),
                            ));
                        }
                    }
                }
                return Err(err);
            }
            let m2 = ExprType::Call(Box::new(member), args);
            let ghost m2v = m2@;
            proof {
                assert(m2v == ExprV::Call(Box::new(mv), items));
            }
            let res = match self.parse_postfix_tail(m2) {
                Ok(v) => v,
                Err(e) => {
                    proof {
                        assert forall|f: int| f >= 16 * prem(st0) + 1 implies sp_postfix_tail(
                            st0,
                            mv,
                            f,
                        ) == Some(Err::<(ExprV, PSt), ErrV>(e@)) by {
                            assert(f - 1 >= 16 * prem(st1) + 4);
                            assert(f - 1 >= 16 * prem(st3) + 1);
                            if had_args {
                                assert(sp_call_args(st1, f - 1) == Some(
                                    Ok::<(Seq<ExprV>, PSt), ErrV>((items, st2)),
                                ));
                            }
                            assert(sp_postfix_tail(st3, m2v, f - 1) == Some(
                                Err::<(ExprV, PSt), ErrV>(e@),
                            ));
                        }
                    }
                    return Err(e);
                },
            };
            proof {
                assert forall|f: int| f >= 16 * prem(st0) + 1 implies sp_postfix_tail(
                    st0,
                    mv,
                    f,
                ) == Some(Ok::<(ExprV, PSt), ErrV>((res@, final(self)@))) by {
                    assert(f - 1 >= 16 * prem(st1) + 4);
                    assert(f - 1 >= 16 * prem(st3) + 1);
                    if had_args {
                        assert(sp_call_args(st1, f - 1) == Some(
                            Ok::<(Seq<ExprV>, PSt), ErrV>((items, st2)),
                        ));
                    }
                    assert(sp_postfix_tail(st3, m2v, f - 1) == Some(
                        Ok::<(ExprV, PSt), ErrV>((res@, final(self)@)),
                    ));
                }
            }
            Ok(res)
        } else {
            Ok(member)
        }
    }

    /// A non-empty, comma-separated call argument list, appended to `args`.
    #[verifier::rlimit(100)]
    fn parse_call_args(&mut self, args: &mut Vec<ExprType>) -> (r: Result<(), CompileError>)
        requires
            p_wf(old(self)@),
        ensures
            p_wf(final(self)@),
            final(self)@.lx.s == old(self)@.lx.s,
            final(self)@.next_id == old(self)@.next_id,
            prem(final(self)@) <= prem(old(self)@),
            match r {
                Ok(_) => prem(final(self)@) < prem(old(self)@) && exists|items: Seq<ExprV>|
                    {
                        &&& exprs_view(final(args)@) == exprs_view(old(args)@) + items
                        &&& forall|f: int|
                            f >= 16 * prem(old(self)@) + 4 ==> #[trigger] sp_call_args(
                                old(self)@,
                                f,
                            ) == Some(Ok::<(Seq<ExprV>, PSt), ErrV>((items, final(self)@)))
                    },
                Err(er) => forall|f: int|
                    f >= 16 * prem(old(self)@) + 4 ==> sp_call_args(old(self)@, f) == Some(
                        Err::<(Seq<ExprV>, PSt), ErrV>(er@),
                    ),
            },
        decreases prem(old(self)@), 4int,
    {
        let ghost st0 = self@;
        let ghost args0 = args@;
        let e = match self.parse_expr(0) {
            Ok(v) => v,
            Err(er) => {
                proof {
                    assert forall|f: int| f >= 16 * prem(st0) + 4 implies sp_call_args(st0, f)
                        == Some(Err::<(Seq<ExprV>, PSt), ErrV>(er@)) by {
                        assert(f - 1 >= 16 * prem(st0) + 3);
                        assert(sp_expr(st0, 0, f - 1) == Some(Err::<(ExprV, PSt), ErrV>(er@)));
                    }
                }
                return Err(er);
            },
        };
        let ghost st1 = self@;
        let ghost ev = e@;
        proof {
            lemma_exprs_view_push(args@, e);
        }
        args.push(e);
        if self.current_token.get_type() == TokenType::Comma {
            match self.consume() {
                Ok(_) => {},
                Err(er) => {
                    proof {
                        assert forall|f: int| f >= 16 * prem(st0) + 4 implies sp_call_args(st0, f)
                            == Some(Err::<(Seq<ExprV>, PSt), ErrV>(er@)) by {
                            assert(f - 1 >= 16 * prem(st0) + 3);
                            assert(sp_expr(st0, 0, f - 1) == Some(
                                Ok::<(ExprV, PSt), ErrV>((ev, st1)),
                            ));
                        }
                    }
                    return Err(er);
                },
            }
            let ghost st2 = self@;
            match self.parse_call_args(args) {
                Ok(_) => {},
                Err(er) => {
                    proof {
                        assert forall|f: int| f >= 16 * prem(st0) + 4 implies sp_call_args(st0, f)
                            == Some(Err::<(Seq<ExprV>, PSt), ErrV>(er@)) by {
                            assert(f - 1 >= 16 * prem(st0) + 3);
                            assert(f - 1 >= 16 * prem(st2) + 4);
                            assert(sp_expr(st0, 0, f - 1) == Some(
                                Ok::<(ExprV, PSt), ErrV>((ev, st1)),
                            ));
                            assert(sp_call_args(st2, f - 1) == Some(
                                Err::<(Seq<ExprV>, PSt), ErrV>(er@),
                            ));
                        }
                    }
                    return Err(er);
                },
            }
            proof {
                let rest = choose|rest: Seq<ExprV>|
                    {
                        &&& exprs_view(final(args)@) == exprs_view(args0.push(e)) + rest
                        &&& forall|f2: int|
                            f2 >= 16 * prem(st2) + 4 ==> #[trigger] sp_call_args(st2, f2) == Some(
                                Ok::<(Seq<ExprV>, PSt), ErrV>((rest, final(self)@)),
                            )
                    };
                let items = seq![ev] + rest;
                assert(exprs_view(final(args)@) =~= exprs_view(args0) + items);
                assert forall|f: int| f >= 16 * prem(st0) + 4 implies sp_call_args(st0, f) == Some(
                    Ok::<(Seq<ExprV>, PSt), ErrV>((items, final(self)@)),
                ) by {
                    assert(f - 1 >= 16 * prem(st0) + 3);
                    assert(f - 1 >= 16 * prem(st2) + 4);
                    assert(sp_expr(st0, 0, f - 1) == Some(Ok::<(ExprV, PSt), ErrV>((ev, st1))));
                    assert(sp_call_args(st2, f - 1) == Some(
                        Ok::<(Seq<ExprV>, PSt), ErrV>((rest, final(self)@)),
                    ));
                }
            }
            Ok(())
        } else {
            proof {
                let items = seq![ev];
                assert(exprs_view(final(args)@) =~= exprs_view(args0) + items);
                assert forall|f: int| f >= 16 * prem(st0) + 4 implies sp_call_args(st0, f) == Some(
                    Ok::<(Seq<ExprV>, PSt), ErrV>((items, final(self)@)),
                ) by {
                    assert(f - 1 >= 16 * prem(st0) + 3);
                    assert(sp_expr(st0, 0, f - 1) == Some(Ok::<(ExprV, PSt), ErrV>((ev, st1))));
                }
            }
            Ok(())
        }
    }

    /// A postfix expression: a primary expression and its postfix chain.
    #[verifier::rlimit(100)]
    pub fn parse_postfix_expr(&mut self) -> (r: Result<ExprType, CompileError>)
        requires
            p_wf(old(self)@),
        ensures
            p_wf(final(self)@),
            final(self)@.lx.s == old(self)@.lx.s,
            final(self)@.next_id == old(self)@.next_id,
            prem(final(self)@) <= prem(old(self)@),
            match r {
                Ok(e) => prem(final(self)@) < prem(old(self)@) && forall|f: int|
                    f >= 16 * prem(old(self)@) + 2 ==> sp_postfix(old(self)@, f) == Some(
                        Ok::<(ExprV, PSt), ErrV>((e@, final(self)@)),
                    ),
                Err(er) => forall|f: int|
                    f >= 16 * prem(old(self)@) + 2 ==> sp_postfix(old(self)@, f) == Some(
                        Err::<(ExprV, PSt), ErrV>(er@),
                    ),
            },
        decreases prem(old(self)@), 2int,
    {
        let ghost st0 = self@;
        let member = match self.parse_primary_expr() {
            Ok(v) => v,
            Err(er) => {
                proof {
                    assert forall|f: int| f >= 16 * prem(st0) + 2 implies sp_postfix(st0, f)
                        == Some(Err::<(ExprV, PSt), ErrV>(er@)) by {
                        assert(f - 1 >= 16 * prem(st0) + 1);
                        assert(sp_primary(st0, f - 1) == Some(Err::<(ExprV, PSt), ErrV>(er@)));
                    }
                }
                return Err(er);
            },
        };
        let ghost mv = member@;
        let ghost st1 = self@;
        let res = match self.parse_postfix_tail(member) {
            Ok(v) => v,
            Err(er) => {
                proof {
                    assert forall|f: int| f >= 16 * prem(st0) + 2 implies sp_postfix(st0, f)
                        == Some(Err::<(ExprV, PSt), ErrV>(er@)) by {
                        assert(f - 1 >= 16 * prem(st0) + 1);
                        assert(f - 1 >= 16 * prem(st1) + 1);
                        assert(sp_primary(st0, f - 1) == Some(Ok::<(ExprV, PSt), ErrV>((mv, st1))));
                        assert(sp_postfix_tail(st1, mv, f - 1) == Some(
                            Err::<(ExprV, PSt), ErrV>(er@),
                        ));
                    }
                }
                return Err(er);
            },
        };
        proof {
            assert forall|f: int| f >= 16 * prem(st0) + 2 implies sp_postfix(st0, f) == Some(
                Ok::<(ExprV, PSt), ErrV>((res@, final(self)@)),
            ) by {
                assert(f - 1 >= 16 * prem(st0) + 1);
                assert(f - 1 >= 16 * prem(st1) + 1);
                assert(sp_primary(st0, f - 1) == Some(Ok::<(ExprV, PSt), ErrV>((mv, st1))));
                assert(sp_postfix_tail(st1, mv, f - 1) == Some(
                    Ok::<(ExprV, PSt), ErrV>((res@, final(self)@)),
                ));
            }
        }
        Ok(res)
    }

    /// The precedence-climbing additive chain above `lhs`.
    #[verifier::rlimit(100)]
    fn parse_expr_tail(&mut self, lhs: ExprType, min_prec: u8) -> (r: Result<
        ExprType,
        CompileError,
    >)
        requires
            p_wf(old(self)@),
        ensures
            p_wf(final(self)@),
            final(self)@.lx.s == old(self)@.lx.s,
            final(self)@.next_id == old(self)@.next_id,
            prem(final(self)@) <= prem(old(self)@),
            match r {
                Ok(e) => forall|f: int|
                    f >= 16 * prem(old(self)@) + 1 ==> sp_expr_tail(old(self)@, lhs@, min_prec, f)
                        == Some(Ok::<(ExprV, PSt), ErrV>((e@, final(self)@))),
                Err(er) => forall|f: int|
                    f >= 16 * prem(old(self)@) + 1 ==> sp_expr_tail(old(self)@, lhs@, min_prec, f)
                        == Some(Err::<(ExprV, PSt), ErrV>(er@)),
            },
        decreases prem(old(self)@), 1int,
    {
        let ghost st0 = self@;
        let ghost lv = lhs@;
        let t = self.current_token.get_type();
        if t == TokenType::Plus || t == TokenType::Minus {
            let operation = self.current_token.clone();
            let ghost opv = operation@;
            let precedency = get_precedency(t);
            if precedency < min_prec {
                return Ok(lhs);
            }
            self.consume()?;
            let ghost st1 = self@;
            let rhs = match self.parse_expr(precedency + 1) {
                Ok(v) => v,
                Err(er) => {
                    proof {
                        assert forall|f: int| f >= 16 * prem(st0) + 1 implies sp_expr_tail(
                            st0,
                            lv,
                            min_prec,
                            f,
                        ) == Some(Err::<(ExprV, PSt), ErrV>(er@)) by {
                            assert(f - 1 >= 16 * prem(st1) + 3);
                            assert(sp_expr(st1, (prec_of(st0.cur.kind) + 1) as u8, f - 1) == Some(
                                Err::<(ExprV, PSt), ErrV>(er@),
                            ));
                        }
                    }
                    return Err(er);
                },
            };
            let ghost rv = rhs@;
            let ghost st2 = self@;
            let folded = ExprType::Binary(Box::new(lhs), operation, Box::new(rhs));
            let ghost fv = folded@;
            let res = match self.parse_expr_tail(folded, min_prec) {
                Ok(v) => v,
                Err(er) => {
                    proof {
                        assert forall|f: int| f >= 16 * prem(st0) + 1 implies sp_expr_tail(
                            st0,
                            lv,
                            min_prec,
                            f,
                        ) == Some(Err::<(ExprV, PSt), ErrV>(er@)) by {
                            assert(f - 1 >= 16 * prem(st1) + 3);
                            assert(f - 1 >= 16 * prem(st2) + 1);
                            assert(sp_expr(st1, (prec_of(st0.cur.kind) + 1) as u8, f - 1) == Some(
                                Ok::<(ExprV, PSt), ErrV>((rv, st2)),
                            ));
                            assert(sp_expr_tail(st2, fv, min_prec, f - 1) == Some(
                                Err::<(ExprV, PSt), ErrV>(er@),
                            ));
                        }
                    }
                    return Err(er);
                },
            };
            proof {
                assert forall|f: int| f >= 16 * prem(st0) + 1 implies sp_expr_tail(
                    st0,
                    lv,
                    min_prec,
                    f,
                ) == Some(Ok::<(ExprV, PSt), ErrV>((res@, final(self)@))) by {
                    assert(f - 1 >= 16 * prem(st1) + 3);
                    assert(f - 1 >= 16 * prem(st2) + 1);
                    assert(sp_expr(st1, (prec_of(st0.cur.kind) + 1) as u8, f - 1) == Some(
                        Ok::<(ExprV, PSt), ErrV>((rv, st2)),
                    ));
                    assert(sp_expr_tail(st2, fv, min_prec, f - 1) == Some(
                        Ok::<(ExprV, PSt), ErrV>((res@, final(self)@)),
                    ));
                }
            }
            Ok(res)
        } else {
            Ok(lhs)
        }
    }

    /// A full expression: the additive chain over a postfix expression,
    /// then an optional trailing `as` cast.
    #[verifier::rlimit(100)]
    pub fn parse_expr(&mut self, min_prec: u8) -> (r: Result<ExprType, CompileError>)
        requires
            p_wf(old(self)@),
        ensures
            p_wf(final(self)@),
            final(self)@.lx.s == old(self)@.lx.s,
            final(self)@.next_id == old(self)@.next_id,
            prem(final(self)@) <= prem(old(self)@),
            match r {
                Ok(e) => prem(final(self)@) < prem(old(self)@) && forall|f: int|
                    f >= 16 * prem(old(self)@) + 3 ==> sp_expr(old(self)@, min_prec, f) == Some(
                        Ok::<(ExprV, PSt), ErrV>((e@, final(self)@)),
                    ),
                Err(er) => forall|f: int|
                    f >= 16 * prem(old(self)@) + 3 ==> sp_expr(old(self)@, min_prec, f) == Some(
                        Err::<(ExprV, PSt), ErrV>(er@),
                    ),
            },
        decreases prem(old(self)@), 3int,
    {
        let ghost st0 = self@;
        let lhs = match self.parse_postfix_expr() {
            Ok(v) => v,
            Err(er) => {
                proof {
                    assert forall|f: int| f >= 16 * prem(st0) + 3 implies sp_expr(
                        st0,
                        min_prec,
                        f,
                    ) == Some(Err::<(ExprV, PSt), ErrV>(er@)) by {
                        assert(f - 1 >= 16 * prem(st0) + 2);
                        assert(sp_postfix(st0, f - 1) == Some(Err::<(ExprV, PSt), ErrV>(er@)));
                    }
                }
                return Err(er);
            },
        };
        let ghost lv = lhs@;
        let ghost st1 = self@;
        let e2 = match self.parse_expr_tail(lhs, min_prec) {
            Ok(v) => v,
            Err(er) => {
                proof {
                    assert forall|f: int| f >= 16 * prem(st0) + 3 implies sp_expr(
                        st0,
                        min_prec,
                        f,
                    ) == Some(Err::<(ExprV, PSt), ErrV>(er@)) by {
                        assert(f - 1 >= 16 * prem(st0) + 2);
                        assert(f - 1 >= 16 * prem(st1) + 1);
                        assert(sp_postfix(st0, f - 1) == Some(Ok::<(ExprV, PSt), ErrV>((lv, st1))));
                        assert(sp_expr_tail(st1, lv, min_prec, f - 1) == Some(
                            Err::<(ExprV, PSt), ErrV>(er@),
                        ));
                    }
                }
                return Err(er);
            },
        };
        let ghost e2v = e2@;
        let ghost st2 = self@;
        if self.current_token.get_type() == TokenType::As {
            match self.consume() {
                Ok(_) => {},
                Err(er) => {
                    proof {
                        assert forall|f: int| f >= 16 * prem(st0) + 3 implies sp_expr(
                            st0,
                            min_prec,
                            f,
                        ) == Some(Err::<(ExprV, PSt), ErrV>(er@)) by {
                            assert(f - 1 >= 16 * prem(st0) + 2);
                            assert(f - 1 >= 16 * prem(st1) + 1);
                            assert(sp_postfix(st0, f - 1) == Some(
                                Ok::<(ExprV, PSt), ErrV>((lv, st1)),
                            ));
                            assert(sp_expr_tail(st1, lv, min_prec, f - 1) == Some(
                                Ok::<(ExprV, PSt), ErrV>((e2v, st2)),
                            ));
                        }
                    }
                    return Err(er);
                },
            }
            let ts = match self.parse_type_annotation() {
                Ok(v) => v,
                Err(er) => {
                    proof {
                        assert forall|f: int| f >= 16 * prem(st0) + 3 implies sp_expr(
                            st0,
                            min_prec,
                            f,
                        ) == Some(Err::<(ExprV, PSt), ErrV>(er@)) by {
                            assert(f - 1 >= 16 * prem(st0) + 2);
                            assert(f - 1 >= 16 * prem(st1) + 1);
                            assert(sp_postfix(st0, f - 1) == Some(
                                Ok::<(ExprV, PSt), ErrV>((lv, st1)),
                            ));
                            assert(sp_expr_tail(st1, lv, min_prec, f - 1) == Some(
                                Ok::<(ExprV, PSt), ErrV>((e2v, st2)),
                            ));
                        }
                    }
                    return Err(er);
                },
            };
            let res = ExprType::Cast(Box::new(e2), ts);
            proof {
                assert forall|f: int| f >= 16 * prem(st0) + 3 implies sp_expr(
                    st0,
                    min_prec,
                    f,
                ) == Some(Ok::<(ExprV, PSt), ErrV>((res@, final(self)@))) by {
                    assert(f - 1 >= 16 * prem(st0) + 2);
                    assert(f - 1 >= 16 * prem(st1) + 1);
                    assert(sp_postfix(st0, f - 1) == Some(Ok::<(ExprV, PSt), ErrV>((lv, st1))));
                    assert(sp_expr_tail(st1, lv, min_prec, f - 1) == Some(
                        Ok::<(ExprV, PSt), ErrV>((e2v, st2)),
                    ));
                }
            }
            Ok(res)
        } else {
            proof {
                assert forall|f: int| f >= 16 * prem(st0) + 3 implies sp_expr(
                    st0,
                    min_prec,
                    f,
                ) == Some(Ok::<(ExprV, PSt), ErrV>((e2v, final(self)@))) by {
                    assert(f - 1 >= 16 * prem(st0) + 2);
                    assert(f - 1 >= 16 * prem(st1) + 1);
                    assert(sp_postfix(st0, f - 1) == Some(Ok::<(ExprV, PSt), ErrV>((lv, st1))));
                    assert(sp_expr_tail(st1, lv, min_prec, f - 1) == Some(
                        Ok::<(ExprV, PSt), ErrV>((e2v, st2)),
                    ));
                }
            }
            Ok(e2)
        }
    }

    /// A statement: a block, a `return expr;`, or an expression statement.
    #[verifier::rlimit(100)]
    pub fn parse_stmt(&mut self) -> (r: Result<StatementType, CompileError>)
        requires
            p_wf(old(self)@),
        ensures
            p_wf(final(self)@),
            final(self)@.lx.s == old(self)@.lx.s,
            prem(final(self)@) <= prem(old(self)@),
            match r {
                Ok(s) => prem(final(self)@) < prem(old(self)@) && forall|f: int|
                    f >= 16 * prem(old(self)@) + 5 ==> sp_stmt(old(self)@, f) == Some(
                        Ok::<(StmtV, PSt), ErrV>((s@, final(self)@)),
                    ),
                Err(er) => forall|f: int|
                    f >= 16 * prem(old(self)@) + 5 ==> sp_stmt(old(self)@, f) == Some(
                        Err::<(StmtV, PSt), ErrV>(er@),
                    ),
            },
        decreases prem(old(self)@), 5int,
    {
        let ghost st0 = self@;
        let t = self.current_token.get_type();
        if t == TokenType::OpenCurly {
            self.consume()?;
            let ghost st1 = self@;
            let b = match self.parse_block_stmt() {
                Ok(v) => v,
                Err(er) => {
                    proof {
                        assert forall|f: int| f >= 16 * prem(st0) + 5 implies sp_stmt(st0, f)
                            == Some(Err::<(StmtV, PSt), ErrV>(er@)) by {
                            assert(f - 1 >= 16 * prem(st1) + 7);
                            assert(sp_block_stmt(st1, f - 1) == Some(
                                Err::<(BlockV, PSt), ErrV>(er@),
                            ));
                        }
                    }
                    return Err(er);
                },
            };
            let ghost bv = b@;
            let res = StatementType::Block(b);
            proof {
                assert forall|f: int| f >= 16 * prem(st0) + 5 implies sp_stmt(st0, f) == Some(
                    Ok::<(StmtV, PSt), ErrV>((res@, final(self)@)),
                ) by {
                    assert(f - 1 >= 16 * prem(st1) + 7);
                    assert(sp_block_stmt(st1, f - 1) == Some(
                        Ok::<(BlockV, PSt), ErrV>((bv, final(self)@)),
                    ));
                }
            }
            Ok(res)
        } else if t == TokenType::Return {
            self.consume()?;
            let ghost st1 = self@;
            let e = match self.parse_expr(0) {
                Ok(v) => v,
                Err(er) => {
                    proof {
                        assert forall|f: int| f >= 16 * prem(st0) + 5 implies sp_stmt(st0, f)
                            == Some(Err::<(StmtV, PSt), ErrV>(er@)) by {
                            assert(f - 1 >= 16 * prem(st1) + 3);
                            assert(sp_expr(st1, 0, f - 1) == Some(Err::<(ExprV, PSt), ErrV>(er@)));
                        }
                    }
                    return Err(er);
                },
            };
            let ghost ev = e@;
            let ghost st2 = self@;
            let stmt = StatementType::Return(e);
            match self.expect(true, TokenType::Semicolon) {
                Ok(_) => {},
                Err(er) => {
                    proof {
                        assert forall|f: int| f >= 16 * prem(st0) + 5 implies sp_stmt(st0, f)
                            == Some(Err::<(StmtV, PSt), ErrV>(er@)) by {
                            assert(f - 1 >= 16 * prem(st1) + 3);
                            assert(sp_expr(st1, 0, f - 1) == Some(
                                Ok::<(ExprV, PSt), ErrV>((ev, st2)),
                            ));
                        }
                    }
                    return Err(er);
                },
            }
            proof {
                assert forall|f: int| f >= 16 * prem(st0) + 5 implies sp_stmt(st0, f) == Some(
                    Ok::<(StmtV, PSt), ErrV>((stmt@, final(self)@)),
                ) by {
                    assert(f - 1 >= 16 * prem(st1) + 3);
                    assert(sp_expr(st1, 0, f - 1) == Some(Ok::<(ExprV, PSt), ErrV>((ev, st2))));
                }
            }
            Ok(stmt)
        } else {
            let e = match self.parse_expr(0) {
                Ok(v) => v,
                Err(er) => {
                    proof {
                        assert forall|f: int| f >= 16 * prem(st0) + 5 implies sp_stmt(st0, f)
                            == Some(Err::<(StmtV, PSt), ErrV>(er@)) by {
                            assert(f - 1 >= 16 * prem(st0) + 3);
                            assert(sp_expr(st0, 0, f - 1) == Some(Err::<(ExprV, PSt), ErrV>(er@)));
                        }
                    }
                    return Err(er);
                },
            };
            let ghost ev = e@;
            let ghost st1 = self@;
            let stmt = StatementType::Expr(e);
            match self.expect(true, TokenType::Semicolon) {
                Ok(_) => {},
                Err(er) => {
                    proof {
                        assert forall|f: int| f >= 16 * prem(st0) + 5 implies sp_stmt(st0, f)
                            == Some(Err::<(StmtV, PSt), ErrV>(er@)) by {
                            assert(f - 1 >= 16 * prem(st0) + 3);
                            assert(sp_expr(st0, 0, f - 1) == Some(
                                Ok::<(ExprV, PSt), ErrV>((ev, st1)),
                            ));
                        }
                    }
                    return Err(er);
                },
            }
            proof {
                assert forall|f: int| f >= 16 * prem(st0) + 5 implies sp_stmt(st0, f) == Some(
                    Ok::<(StmtV, PSt), ErrV>((stmt@, final(self)@)),
                ) by {
                    assert(f - 1 >= 16 * prem(st0) + 3);
                    assert(sp_expr(st0, 0, f - 1) == Some(Ok::<(ExprV, PSt), ErrV>((ev, st1))));
                }
            }
            Ok(stmt)
        }
    }

    /// The statements of a block, appended to `body`, up to but not
    /// including the closing brace.
    #[verifier::rlimit(100)]
    fn parse_block_items(&mut self, body: &mut Vec<StatementType>) -> (r: Result<
        (),
        CompileError,
    >)
        requires
            p_wf(old(self)@),
        ensures
            p_wf(final(self)@),
            final(self)@.lx.s == old(self)@.lx.s,
            prem(final(self)@) <= prem(old(self)@),
            match r {
                Ok(_) => exists|items: Seq<StmtV>|
                    {
                        &&& stmts_view(final(body)@) == stmts_view(old(body)@) + items
                        &&& forall|f: int|
                            f >= 16 * prem(old(self)@) + 6 ==> #[trigger] sp_block_items(
                                old(self)@,
                                f,
                            ) == Some(Ok::<(Seq<StmtV>, PSt), ErrV>((items, final(self)@)))
                    },
                Err(er) => forall|f: int|
                    f >= 16 * prem(old(self)@) + 6 ==> sp_block_items(old(self)@, f) == Some(
                        Err::<(Seq<StmtV>, PSt), ErrV>(er@),
                    ),
            },
        decreases prem(old(self)@), 6int,
    {
        let ghost st0 = self@;
        let ghost body0 = body@;
        if self.current_token.get_type() == TokenType::CloseCurly {
            proof {
                let items = Seq::<StmtV>::empty();
                assert(stmts_view(body@) =~= stmts_view(body0) + items);
                assert forall|f: int| f >= 16 * prem(st0) + 6 implies sp_block_items(st0, f)
                    == Some(Ok::<(Seq<StmtV>, PSt), ErrV>((items, st0))) by {
                }
            }
            return Ok(());
        }
        let s = match self.parse_stmt() {
            Ok(v) => v,
            Err(er) => {
                proof {
                    assert forall|f: int| f >= 16 * prem(st0) + 6 implies sp_block_items(st0, f)
                        == Some(Err::<(Seq<StmtV>, PSt), ErrV>(er@)) by {
                        assert(f - 1 >= 16 * prem(st0) + 5);
                        assert(sp_stmt(st0, f - 1) == Some(Err::<(StmtV, PSt), ErrV>(er@)));
                    }
                }
                return Err(er);
            },
        };
        let ghost sv = s@;
        let ghost st1 = self@;
        proof {
            lemma_stmts_view_push(body@, s);
        }
        body.push(s);
        match self.parse_block_items(body) {
            Ok(_) => {},
            Err(er) => {
                proof {
                    assert forall|f: int| f >= 16 * prem(st0) + 6 implies sp_block_items(st0, f)
                        == Some(Err::<(Seq<StmtV>, PSt), ErrV>(er@)) by {
                        assert(f - 1 >= 16 * prem(st0) + 5);
                        assert(f - 1 >= 16 * prem(st1) + 6);
                        assert(sp_stmt(st0, f - 1) == Some(Ok::<(StmtV, PSt), ErrV>((sv, st1))));
                        assert(sp_block_items(st1, f - 1) == Some(
                            Err::<(Seq<StmtV>, PSt), ErrV>(er@),
                        ));
                    }
                }
                return Err(er);
            },
        }
        proof {
            let rest = choose|rest: Seq<StmtV>|
                {
                    &&& stmts_view(final(body)@) == stmts_view(body0.push(s)) + rest
                    &&& forall|f2: int|
                        f2 >= 16 * prem(st1) + 6 ==> #[trigger] sp_block_items(st1, f2) == Some(
                            Ok::<(Seq<StmtV>, PSt), ErrV>((rest, final(self)@)),
                        )
                };
            let items = seq![sv] + rest;
            assert(stmts_view(final(body)@) =~= stmts_view(body0) + items);
            assert forall|f: int| f >= 16 * prem(st0) + 6 implies sp_block_items(st0, f) == Some(
                Ok::<(Seq<StmtV>, PSt), ErrV>((items, final(self)@)),
            ) by {
                assert(f - 1 >= 16 * prem(st0) + 5);
                assert(f - 1 >= 16 * prem(st1) + 6);
                assert(sp_stmt(st0, f - 1) == Some(Ok::<(StmtV, PSt), ErrV>((sv, st1))));
                assert(sp_block_items(st1, f - 1) == Some(
                    Ok::<(Seq<StmtV>, PSt), ErrV>((rest, final(self)@)),
                ));
            }
        }
        Ok(())
    }

    /// A block body, entered after its opening brace: the statements up to
    /// the closing brace, which numbers the block.
    #[verifier::rlimit(100)]
    pub fn parse_block_stmt(&mut self) -> (r: Result<BlockStatement, CompileError>)
        requires
            p_wf(old(self)@),
        ensures
            p_wf(final(self)@),
            final(self)@.lx.s == old(self)@.lx.s,
            prem(final(self)@) <= prem(old(self)@),
            match r {
                Ok(b) => prem(final(self)@) < prem(old(self)@) && forall|f: int|
                    f >= 16 * prem(old(self)@) + 7 ==> sp_block_stmt(old(self)@, f) == Some(
                        Ok::<(BlockV, PSt), ErrV>((b@, final(self)@)),
                    ),
                Err(er) => forall|f: int|
                    f >= 16 * prem(old(self)@) + 7 ==> sp_block_stmt(old(self)@, f) == Some(
                        Err::<(BlockV, PSt), ErrV>(er@),
                    ),
            },
        decreases prem(old(self)@), 7int,
    {
        let ghost st0 = self@;
        let mut body: Vec<StatementType> = Vec::new();
        match self.parse_block_items(&mut body) {
            Ok(_) => {},
            Err(er) => {
                proof {
                    assert forall|f: int| f >= 16 * prem(st0) + 7 implies sp_block_stmt(st0, f)
                        == Some(Err::<(BlockV, PSt), ErrV>(er@)) by {
                        assert(f - 1 >= 16 * prem(st0) + 6);
                        assert(sp_block_items(st0, f - 1) == Some(
                            Err::<(Seq<StmtV>, PSt), ErrV>(er@),
                        ));
                    }
                }
                return Err(er);
            },
        }
        let ghost st1 = self@;
        let ghost items: Seq<StmtV> = choose|items: Seq<StmtV>|
            {
                &&& stmts_view(body@) == stmts_view(Seq::<StatementType>::empty()) + items
                &&& forall|f2: int|
                    f2 >= 16 * prem(st0) + 6 ==> #[trigger] sp_block_items(st0, f2) == Some(
                        Ok::<(Seq<StmtV>, PSt), ErrV>((items, st1)),
                    )
            };
        proof {
            assert(stmts_view(body@) =~= items);
        }
        match self.expect(true, TokenType::CloseCurly) {
            Ok(_) => {},
            Err(er) => {
                proof {
                    assert forall|f: int| f >= 16 * prem(st0) + 7 implies sp_block_stmt(st0, f)
                        == Some(Err::<(BlockV, PSt), ErrV>(er@)) by {
                        assert(f - 1 >= 16 * prem(st0) + 6);
                        assert(sp_block_items(st0, f - 1) == Some(
                            Ok::<(Seq<StmtV>, PSt), ErrV>((items, st1)),
                        ));
                    }
                }
                return Err(er);
            },
        }
        let ghost st2 = self@;
        let id = self.next_block_id;
        proof {
            assert(prem(st2) < prem(st1));
            assert(id + prem(st2) <= st2.lx.s.len());
            assert(id + 1 <= usize::MAX);
        }
        self.next_block_id = id + 1;
        let b = BlockStatement::new(body, id);
        proof {
            assert(final(self)@ == (PSt { lx: st2.lx, cur: st2.cur, next_id: st2.next_id + 1 }));
            assert(p_wf(final(self)@));
            assert forall|f: int| f >= 16 * prem(st0) + 7 implies sp_block_stmt(st0, f) == Some(
                Ok::<(BlockV, PSt), ErrV>((b@, final(self)@)),
            ) by {
                assert(f - 1 >= 16 * prem(st0) + 6);
                assert(sp_block_items(st0, f - 1) == Some(
                    Ok::<(Seq<StmtV>, PSt), ErrV>((items, st1)),
                ));
            }
        }
        Ok(b)
    }

    /// A function declaration, entered after the `func` keyword: name, empty
    /// parameter list, `:`, return type, and one body statement.
    #[verifier::rlimit(100)]
    pub fn parse_func_decleration(&mut self) -> (r: Result<
        FunctionDeclerationStatement,
        CompileError,
    >)
        requires
            p_wf(old(self)@),
        ensures
            p_wf(final(self)@),
            final(self)@.lx.s == old(self)@.lx.s,
            prem(final(self)@) <= prem(old(self)@),
            match r {
                Ok(fd) => prem(final(self)@) < prem(old(self)@) && forall|f: int|
                    f >= 16 * prem(old(self)@) + 1 ==> sp_func_decleration(old(self)@, f) == Some(
                        Ok::<(FuncV, PSt), ErrV>((fd@, final(self)@)),
                    ),
                Err(er) => forall|f: int|
                    f >= 16 * prem(old(self)@) + 1 ==> sp_func_decleration(old(self)@, f) == Some(
                        Err::<(FuncV, PSt), ErrV>(er@),
                    ),
            },
        decreases prem(old(self)@), 1int,
    {
        let ghost st0 = self@;
        let name = self.expect(true, TokenType::Identifier)?;
        self.expect(true, TokenType::OpenParen)?;
        self.expect(true, TokenType::CloseParen)?;
        self.expect(true, TokenType::Colon)?;
        let return_type = self.parse_type_annotation()?;
        let ghost st5 = self@;
        let body = match self.parse_stmt() {
            Ok(v) => v,
            Err(er) => {
                proof {
                    assert forall|f: int| f >= 16 * prem(st0) + 1 implies sp_func_decleration(
                        st0,
                        f,
                    ) == Some(Err::<(FuncV, PSt), ErrV>(er@)) by {
                        assert(f - 1 >= 16 * prem(st5) + 5);
                        assert(sp_stmt(st5, f - 1) == Some(Err::<(StmtV, PSt), ErrV>(er@)));
                    }
                }
                return Err(er);
            },
        };
        let ghost bv = body@;
        let fd = FunctionDeclerationStatement::new(name, return_type, body);
        proof {
            assert forall|f: int| f >= 16 * prem(st0) + 1 implies sp_func_decleration(st0, f)
                == Some(Ok::<(FuncV, PSt), ErrV>((fd@, final(self)@))) by {
                assert(f - 1 >= 16 * prem(st5) + 5);
                assert(sp_stmt(st5, f - 1) == Some(Ok::<(StmtV, PSt), ErrV>((bv, final(self)@))));
            }
        }
        Ok(fd)
    }

    /// A declaration: only the `func` keyword opens one.
    pub fn parse_decleration(&mut self) -> (r: Result<DeclerationType, CompileError>)
        requires
            p_wf(old(self)@),
        ensures
            p_wf(final(self)@),
            final(self)@.lx.s == old(self)@.lx.s,
            prem(final(self)@) <= prem(old(self)@),
            match r {
                Ok(d) => prem(final(self)@) < prem(old(self)@) && forall|f: int|
                    f >= 16 * prem(old(self)@) + 2 ==> sp_decleration(old(self)@, f) == Some(
                        Ok::<(DeclV, PSt), ErrV>((d@, final(self)@)),
                    ),
                Err(er) => forall|f: int|
                    f >= 16 * prem(old(self)@) + 2 ==> sp_decleration(old(self)@, f) == Some(
                        Err::<(DeclV, PSt), ErrV>(er@),
                    ),
            },
        decreases prem(old(self)@), 2int,
    {
        let ghost st0 = self@;
        if self.current_token.get_type() == TokenType::Func {
            self.consume()?;
            let ghost st1 = self@;
            let fd = match self.parse_func_decleration() {
                Ok(v) => v,
                Err(er) => {
                    proof {
                        assert forall|f: int| f >= 16 * prem(st0) + 2 implies sp_decleration(
                            st0,
                            f,
                        ) == Some(Err::<(DeclV, PSt), ErrV>(er@)) by {
                            assert(f - 1 >= 16 * prem(st1) + 1);
                            assert(sp_func_decleration(st1, f - 1) == Some(
                                Err::<(FuncV, PSt), ErrV>(er@),
                            ));
                        }
                    }
                    return Err(er);
                },
            };
            let d = DeclerationType::Function(Box::new(fd));
            proof {
                assert forall|f: int| f >= 16 * prem(st0) + 2 implies sp_decleration(st0, f)
                    == Some(Ok::<(DeclV, PSt), ErrV>((d@, final(self)@))) by {
                    assert(f - 1 >= 16 * prem(st1) + 1);
                }
            }
            Ok(d)
        } else {
            Err(CompileError::UnhandledDecleration { got: self.current_token.clone() })
        }
    }

    /// A top-level statement: only function declarations are legal here.
    pub fn parse_top_stmt(&mut self) -> (r: Result<StatementType, CompileError>)
        requires
            p_wf(old(self)@),
        ensures
            p_wf(final(self)@),
            final(self)@.lx.s == old(self)@.lx.s,
            prem(final(self)@) <= prem(old(self)@),
            match r {
                Ok(s) => prem(final(self)@) < prem(old(self)@) && forall|f: int|
                    f >= 16 * prem(old(self)@) + 3 ==> sp_top_stmt(old(self)@, f) == Some(
                        Ok::<(StmtV, PSt), ErrV>((s@, final(self)@)),
                    ),
                Err(er) => forall|f: int|
                    f >= 16 * prem(old(self)@) + 3 ==> sp_top_stmt(old(self)@, f) == Some(
                        Err::<(StmtV, PSt), ErrV>(er@),
                    ),
            },
        decreases prem(old(self)@), 3int,
    {
        let ghost st0 = self@;
        if self.current_token.get_type() == TokenType::Func {
            let d = match self.parse_decleration() {
                Ok(v) => v,
                Err(er) => {
                    proof {
                        assert forall|f: int| f >= 16 * prem(st0) + 3 implies sp_top_stmt(st0, f)
                            == Some(Err::<(StmtV, PSt), ErrV>(er@)) by {
                            assert(f - 1 >= 16 * prem(st0) + 2);
                            assert(sp_decleration(st0, f - 1) == Some(
                                Err::<(DeclV, PSt), ErrV>(er@),
                            ));
                        }
                    }
                    return Err(er);
                },
            };
            let s = StatementType::Decleration(d);
            proof {
                assert forall|f: int| f >= 16 * prem(st0) + 3 implies sp_top_stmt(st0, f) == Some(
                    Ok::<(StmtV, PSt), ErrV>((s@, final(self)@)),
                ) by {
                    assert(f - 1 >= 16 * prem(st0) + 2);
                }
            }
            Ok(s)
        } else {
            Err(CompileError::UnexpectedToken { got: self.current_token.clone() })
        }
    }

    /// The top-level statements, appended to `body`, until the lookahead is
    /// `Eof`.
    #[verifier::rlimit(100)]
    fn parse_program_items(&mut self, body: &mut Vec<StatementType>) -> (r: Result<
        (),
        CompileError,
    >)
        requires
            p_wf(old(self)@),
        ensures
            p_wf(final(self)@),
            final(self)@.lx.s == old(self)@.lx.s,
            prem(final(self)@) <= prem(old(self)@),
            match r {
                Ok(_) => exists|items: Seq<StmtV>|
                    {
                        &&& stmts_view(final(body)@) == stmts_view(old(body)@) + items
                        &&& forall|f: int|
                            f >= 16 * prem(old(self)@) + 7 ==> #[trigger] sp_program_items(
                                old(self)@,
                                f,
                            ) == Some(Ok::<(Seq<StmtV>, PSt), ErrV>((items, final(self)@)))
                    },
                Err(er) => forall|f: int|
                    f >= 16 * prem(old(self)@) + 7 ==> sp_program_items(old(self)@, f) == Some(
                        Err::<(Seq<StmtV>, PSt), ErrV>(er@),
                    ),
            },
        decreases prem(old(self)@), 7int,
    {
        let ghost st0 = self@;
        let ghost body0 = body@;
        if self.current_token.get_type() == TokenType::Eof {
            proof {
                let items = Seq::<StmtV>::empty();
                assert(stmts_view(body@) =~= stmts_view(body0) + items);
                assert forall|f: int| f >= 16 * prem(st0) + 7 implies sp_program_items(st0, f)
                    == Some(Ok::<(Seq<StmtV>, PSt), ErrV>((items, st0))) by {
                }
            }
            return Ok(());
        }
        let s = match self.parse_top_stmt() {
            Ok(v) => v,
            Err(er) => {
                proof {
                    assert forall|f: int| f >= 16 * prem(st0) + 7 implies sp_program_items(st0, f)
                        == Some(Err::<(Seq<StmtV>, PSt), ErrV>(er@)) by {
                        assert(f - 1 >= 16 * prem(st0) + 3);
                        assert(sp_top_stmt(st0, f - 1) == Some(Err::<(StmtV, PSt), ErrV>(er@)));
                    }
                }
                return Err(er);
            },
        };
        let ghost sv = s@;
        let ghost st1 = self@;
        proof {
            lemma_stmts_view_push(body@, s);
        }
        body.push(s);
        match self.parse_program_items(body) {
            Ok(_) => {},
            Err(er) => {
                proof {
                    assert forall|f: int| f >= 16 * prem(st0) + 7 implies sp_program_items(st0, f)
                        == Some(Err::<(Seq<StmtV>, PSt), ErrV>(er@)) by {
                        assert(f - 1 >= 16 * prem(st0) + 3);
                        assert(f - 1 >= 16 * prem(st1) + 7);
                        assert(sp_top_stmt(st0, f - 1) == Some(Ok::<(StmtV, PSt), ErrV>((sv, st1))));
                        assert(sp_program_items(st1, f - 1) == Some(
                            Err::<(Seq<StmtV>, PSt), ErrV>(er@),
                        ));
                    }
                }
                return Err(er);
            },
        }
        proof {
            let rest = choose|rest: Seq<StmtV>|
                {
                    &&& stmts_view(final(body)@) == stmts_view(body0.push(s)) + rest
                    &&& forall|f2: int|
                        f2 >= 16 * prem(st1) + 7 ==> #[trigger] sp_program_items(st1, f2) == Some(
                            Ok::<(Seq<StmtV>, PSt), ErrV>((rest, final(self)@)),
                        )
                };
            let items = seq![sv] + rest;
            assert(stmts_view(final(body)@) =~= stmts_view(body0) + items);
            assert forall|f: int| f >= 16 * prem(st0) + 7 implies sp_program_items(st0, f) == Some(
                Ok::<(Seq<StmtV>, PSt), ErrV>((items, final(self)@)),
            ) by {
                assert(f - 1 >= 16 * prem(st0) + 3);
                assert(f - 1 >= 16 * prem(st1) + 7);
                assert(sp_top_stmt(st0, f - 1) == Some(Ok::<(StmtV, PSt), ErrV>((sv, st1))));
                assert(sp_program_items(st1, f - 1) == Some(
                    Ok::<(Seq<StmtV>, PSt), ErrV>((rest, final(self)@)),
                ));
            }
        }
        Ok(())
    }

    /// The whole program: top-level statements until end-of-input.
    pub fn parse_to_ast(&mut self) -> (r: Result<Ast, CompileError>)
        requires
            p_wf(old(self)@),
        ensures
            p_wf(final(self)@),
            final(self)@.lx.s == old(self)@.lx.s,
            match r {
                Ok(ast) => forall|f: int|
                    f >= 16 * prem(old(self)@) + 7 ==> sp_program_items(old(self)@, f) == Some(
                        Ok::<(Seq<StmtV>, PSt), ErrV>((ast@.body, final(self)@)),
                    ),
                Err(er) => forall|f: int|
                    f >= 16 * prem(old(self)@) + 7 ==> sp_program_items(old(self)@, f) == Some(
                        Err::<(Seq<StmtV>, PSt), ErrV>(er@),
                    ),
            },
    {
        let ghost st0 = self@;
        let mut body: Vec<StatementType> = Vec::new();
        match self.parse_program_items(&mut body) {
            Ok(_) => {},
            Err(er) => {
                return Err(er);
            },
        }
        proof {
            let items = choose|items: Seq<StmtV>|
                {
                    &&& stmts_view(body@) == stmts_view(Seq::<StatementType>::empty()) + items
                    &&& forall|f2: int|
                        f2 >= 16 * prem(st0) + 7 ==> #[trigger] sp_program_items(st0, f2) == Some(
                            Ok::<(Seq<StmtV>, PSt), ErrV>((items, final(self)@)),
                        )
                };
            assert(stmts_view(body@) =~= items);
        }
        Ok(Ast::new(body))
    }
}

} // verus!
