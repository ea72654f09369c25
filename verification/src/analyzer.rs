use vstd::prelude::*;
use crate::ast::{Ast, AstV};
use crate::diag::{DiagPrinter, CompileError, ErrV};
use crate::sema::{SemaChecker, SemaV, sp_check};

verus! {

/// The semantic analyzer: runs both checking passes over an owned tree and
/// hands the tree back unchanged on success.
pub struct Sema {
    ast: Ast,
    diag: DiagPrinter,
}

impl View for Sema {
    type V = AstV;

    closed spec fn view(&self) -> AstV {
        self.ast@
    }
}

impl Sema {
    pub fn new(ast: Ast, diag: DiagPrinter) -> (r: Self)
        ensures
            r@ == ast@,
    {
        Sema { ast, diag }
    }

    /// Runs the checker; the tree comes back untouched, or the run ends
    /// with the first diagnostic.
    pub fn run(&self) -> (r: Result<Ast, CompileError>)
        ensures
            match r {
                Ok(a) => a@ == self@ && sp_check(self@.body) is Ok,
                Err(e) => sp_check(self@.body) == Err::<SemaV, ErrV>(e@),
            },
    {
        let mut sema_checker = SemaChecker::new(self.ast.clone(), self.diag.clone());
        match sema_checker.check() {
            Ok(_) => Ok(self.ast.clone()),
            Err(e) => Err(e),
        }
    }
}

} // verus!
