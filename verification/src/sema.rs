use vstd::prelude::*;
use vstd::string::*;
use crate::token::tok_data;
use crate::ast::{
    Ast, BlockStatement, DeclerationType, DeclV, ExprType, ExprV, FunctionDeclerationStatement,
    FuncV, StatementType, StmtV, TypeSpec, stmts_view, exprs_view, stmt_view, expr_view,
    lemma_stmts_view_index, lemma_exprs_view_index,
};
use crate::diag::{DiagPrinter, CompileError, ErrV};
use crate::numfmt::{dec_str, dec_string};

verus! {

broadcast use vstd::seq::group_seq_axioms, vstd::set::group_set_axioms,
    vstd::set::axiom_set_insert_len, vstd::std_specs::control_flow::group_control_flow_axioms;

// ---------------------------------------------------------------------------
// The mathematical model of the analyzer. A scope is a table of symbols with
// an optional parent link; the scope tree is a map from scope name to table;
// lookups chase parent links, bounded by the number of scopes so that even a
// malformed tree gives every lookup an answer.
// ---------------------------------------------------------------------------

/// What a name denotes.
#[derive(Debug)]
pub enum SymbolKind {
    Variable(TypeSpec),
    Function(Vec<TypeSpec>, TypeSpec),
    Namespace,
}

/// The mathematical value of a symbol.
pub enum SymKindV {
    Variable(TypeSpec),
    Function(Seq<TypeSpec>, TypeSpec),
    Namespace,
}

impl View for SymbolKind {
    type V = SymKindV;

    open spec fn view(&self) -> SymKindV {
        match self {
            SymbolKind::Variable(t) => SymKindV::Variable(*t),
            SymbolKind::Function(args, ret) => SymKindV::Function(args@, *ret),
            SymbolKind::Namespace => SymKindV::Namespace,
        }
    }
}

impl Clone for SymbolKind {
    fn clone(&self) -> (r: Self)
        ensures
            r@ == self@,
    {
        match self {
            SymbolKind::Variable(t) => SymbolKind::Variable(*t),
            SymbolKind::Function(args, ret) => {
                let mut a2: Vec<TypeSpec> = Vec::new();
                let mut i: usize = 0;
                while i < args.len()
                    invariant
                        i <= args.len(),
                        a2@ =~= args@.subrange(0, i as int),
                    decreases args.len() - i,
                {
                    a2.push(args[i]);
                    i += 1;
                }
                proof {
                    assert(a2@ =~= args@);
                }
                SymbolKind::Function(a2, *ret)
            },
            SymbolKind::Namespace => SymbolKind::Namespace,
        }
    }
}

/// The mathematical value of a symbol table.
#[verifier::ext_equal]
pub struct TableV {
    pub symbols: Map<Seq<char>, SymKindV>,
    pub parent: Option<Seq<char>>,
}

/// One scope's symbols, with an optional parent scope name.
#[derive(Debug)]
pub struct SymbolTable {
    symbols: Vec<(String, SymbolKind)>,
    parent: Option<String>,
}

/// The map an association list denotes; a repeated key keeps its last entry.
pub open spec fn assoc_map(entries: Seq<(String, SymbolKind)>) -> Map<Seq<char>, SymKindV>
    decreases entries.len(),
{
    if entries.len() == 0 {
        Map::empty()
    } else {
        assoc_map(entries.drop_last()).insert(entries.last().0@, entries.last().1@)
    }
}

/// Keys of an association list are pairwise distinct.
pub open spec fn keys_unique(entries: Seq<(String, SymbolKind)>) -> bool {
    forall|i: int, j: int|
        0 <= i < j < entries.len() ==> entries[i].0@ != entries[j].0@
}

impl View for SymbolTable {
    type V = TableV;

    closed spec fn view(&self) -> TableV {
        TableV {
            symbols: assoc_map(self.symbols@),
            parent: match self.parent {
                Option::Some(ref p) => Option::Some(p@),
                Option::None => Option::None,
            },
        }
    }
}

impl SymbolTable {
    pub closed spec fn wf(&self) -> bool {
        keys_unique(self.symbols@)
    }
}

proof fn lemma_assoc_map_props(entries: Seq<(String, SymbolKind)>)
    requires
        keys_unique(entries),
    ensures
        forall|k: Seq<char>|
            #[trigger] assoc_map(entries).contains_key(k) <==> exists|i: int|
                0 <= i < entries.len() && entries[i].0@ == k,
        forall|i: int|
            0 <= i < entries.len() ==> #[trigger] assoc_map(entries)[entries[i].0@]
                == entries[i].1@,
    decreases entries.len(),
{
    if entries.len() > 0 {
        assert(keys_unique(entries.drop_last()));
        lemma_assoc_map_props(entries.drop_last());
        assert forall|i: int| 0 <= i < entries.len() implies #[trigger] assoc_map(
            entries,
        )[entries[i].0@] == entries[i].1@ by {
            if i < entries.len() - 1 {
                assert(entries.drop_last()[i] == entries[i]);
                assert(assoc_map(entries.drop_last())[entries.drop_last()[i].0@]
                    == entries.drop_last()[i].1@);
                assert(entries[i].0@ != entries.last().0@);
            }
        }
        assert forall|k: Seq<char>| #[trigger] assoc_map(entries).contains_key(k) implies exists|
            i: int,
        | 0 <= i < entries.len() && entries[i].0@ == k by {
            if k == entries.last().0@ {
                assert(entries[entries.len() - 1].0@ == k);
            } else {
                assert(assoc_map(entries.drop_last()).contains_key(k));
                let i = choose|i: int|
                    0 <= i < entries.drop_last().len() && entries.drop_last()[i].0@ == k;
                assert(entries.drop_last()[i] == entries[i]);
                assert(entries[i].0@ == k);
            }
        }
        assert forall|k: Seq<char>|
            (exists|i: int| 0 <= i < entries.len() && entries[i].0@ == k) implies #[trigger] assoc_map(
            entries,
        ).contains_key(k) by {
            let i = choose|i: int| 0 <= i < entries.len() && entries[i].0@ == k;
            if i < entries.len() - 1 {
                assert(entries.drop_last()[i].0@ == k);
                assert(assoc_map(entries.drop_last()).contains_key(k));
            }
        }
    }
}

proof fn lemma_assoc_map_update(entries: Seq<(String, SymbolKind)>, i: int, v: (String, SymbolKind))
    requires
        keys_unique(entries),
        0 <= i < entries.len(),
        v.0@ == entries[i].0@,
    ensures
        keys_unique(entries.update(i, v)),
        assoc_map(entries.update(i, v)) == assoc_map(entries).insert(v.0@, v.1@),
    decreases entries.len(),
{
    lemma_assoc_map_props(entries);
    let upd = entries.update(i, v);
    assert(keys_unique(upd));
    if i == entries.len() - 1 {
        assert(upd.drop_last() =~= entries.drop_last());
        assert(assoc_map(upd) =~= assoc_map(entries).insert(v.0@, v.1@));
    } else {
        assert(upd.drop_last() =~= entries.drop_last().update(i, v));
        assert(keys_unique(entries.drop_last()));
        lemma_assoc_map_update(entries.drop_last(), i, v);
        assert(upd.last() == entries.last());
        assert(v.0@ != entries.last().0@);
        assert(assoc_map(upd) =~= assoc_map(entries).insert(v.0@, v.1@));
    }
}

impl SymbolTable {
    /// A fresh, empty scope with the given parent link.
    pub fn new(parent: Option<String>) -> (r: Self)
        ensures
            r@.symbols == Map::<Seq<char>, SymKindV>::empty(),
            r@.parent == (match parent {
                Option::Some(p) => Option::Some(p@),
                Option::None => Option::<Seq<char>>::None,
            }),
            r.wf(),
    {
        SymbolTable { symbols: Vec::new(), parent }
    }

    /// This scope's own entry for `name`, if it has one.
    fn get_local(&self, name: &String) -> (r: Option<SymbolKind>)
        requires
            self.wf(),
        ensures
            match r {
                Option::Some(k) => self@.symbols.contains_key(name@) && k@
                    == self@.symbols[name@],
                Option::None => !self@.symbols.contains_key(name@),
            },
    {
        proof {
            lemma_assoc_map_props(self.symbols@);
        }
        let mut i: usize = 0;
        while i < self.symbols.len()
            invariant
                self.wf(),
                i <= self.symbols.len(),
                forall|j: int| 0 <= j < i ==> self.symbols@[j].0@ != name@,
                forall|k: Seq<char>|
                    #[trigger] assoc_map(self.symbols@).contains_key(k) <==> exists|j: int|
                        0 <= j < self.symbols@.len() && self.symbols@[j].0@ == k,
                forall|j: int|
                    0 <= j < self.symbols@.len() ==> #[trigger] assoc_map(
                        self.symbols@,
                    )[self.symbols@[j].0@] == self.symbols@[j].1@,
            decreases self.symbols.len() - i,
        {
            if self.symbols[i].0 == *name {
                let k = self.symbols[i].1.clone();
                return Some(k);
            }
            i += 1;
        }
        None
    }

    /// Registers `name` in this scope, replacing any previous entry.
    pub fn append(&mut self, name: String, kind: SymbolKind)
        requires
            old(self).wf(),
        ensures
            final(self).wf(),
            final(self)@.symbols == old(self)@.symbols.insert(name@, kind@),
            final(self)@.parent == old(self)@.parent,
    {
        proof {
            lemma_assoc_map_props(self.symbols@);
        }
        let ghost entries0 = self.symbols@;
        let mut i: usize = 0;
        while i < self.symbols.len()
            invariant
                keys_unique(self.symbols@),
                self.symbols@ == entries0,
                entries0 == old(self).symbols@,
                self.parent == old(self).parent,
                i <= self.symbols.len(),
                forall|j: int| 0 <= j < i ==> self.symbols@[j].0@ != name@,
            decreases self.symbols.len() - i,
        {
            if self.symbols[i].0 == name {
                let key = self.symbols[i].0.clone();
                let ghost keyv = key@;
                let ghost kv = kind@;
                proof {
                    lemma_assoc_map_update(self.symbols@, i as int, (key, kind));
                }
                self.symbols.set(i, (key, kind));
                proof {
                    assert(self.symbols@ == entries0.update(i as int, (key, kind)));
                    assert(assoc_map(self.symbols@) == assoc_map(entries0).insert(keyv, kv));
                    assert(keyv == name@);
                }
                return ;
            }
            i += 1;
        }
        proof {
            assert(self.symbols@.push((name, kind)).drop_last() =~= self.symbols@);
            assert forall|a: int, b: int|
                0 <= a < b < self.symbols@.push((name, kind)).len() implies self.symbols@.push(
                (name, kind),
            )[a].0@ != self.symbols@.push((name, kind))[b].0@ by {
                lemma_assoc_map_props(entries0);
            }
        }
        self.symbols.push((name, kind));
    }
}

// ---------------------------------------------------------------------------
// The scope tree and chained lookup.
// ---------------------------------------------------------------------------

/// The map a scope list denotes.
pub open spec fn scopes_map(entries: Seq<(String, SymbolTable)>) -> Map<Seq<char>, TableV>
    decreases entries.len(),
{
    if entries.len() == 0 {
        Map::empty()
    } else {
        scopes_map(entries.drop_last()).insert(entries.last().0@, entries.last().1@)
    }
}

pub open spec fn scope_keys_unique(entries: Seq<(String, SymbolTable)>) -> bool {
    forall|i: int, j: int|
        0 <= i < j < entries.len() ==> entries[i].0@ != entries[j].0@
}

/// Chained lookup of `name`, starting at table `t`: the local symbols first,
/// then the parent chain, chasing at most `fuel` parent links.
pub open spec fn chain_lookup(
    scopes: Map<Seq<char>, TableV>,
    t: TableV,
    name: Seq<char>,
    fuel: nat,
) -> Option<SymKindV>
    decreases fuel, 1int,
{
    if t.symbols.contains_key(name) {
        Some(t.symbols[name])
    } else {
        chain_from(scopes, t.parent, name, fuel)
    }
}

/// The parent-chain part of a lookup.
pub open spec fn chain_from(
    scopes: Map<Seq<char>, TableV>,
    parent: Option<Seq<char>>,
    name: Seq<char>,
    fuel: nat,
) -> Option<SymKindV>
    decreases fuel, 0int,
{
    match parent {
        Option::None => None,
        Option::Some(p) => if fuel > 0 && scopes.contains_key(p) {
            chain_lookup(scopes, scopes[p], name, (fuel - 1) as nat)
        } else {
            None
        },
    }
}

/// The fuel every lookup runs with: one step per scope in the tree.
pub open spec fn lookup_fuel(scopes: Map<Seq<char>, TableV>) -> nat {
    scopes.dom().len()
}

/// Nested-scope resolution: a name that a scope does not bind itself
/// resolves through its parent link, to exactly what the enclosing scope
/// resolves with one chase fewer.
pub proof fn lemma_nested_scope_resolution(
    scopes: Map<Seq<char>, TableV>,
    inner: TableV,
    parent: Seq<char>,
    name: Seq<char>,
    fuel: nat,
)
    requires
        !inner.symbols.contains_key(name),
        inner.parent == Some(parent),
        scopes.contains_key(parent),
        fuel > 0,
    ensures
        chain_lookup(scopes, inner, name, fuel) == chain_lookup(
            scopes,
            scopes[parent],
            name,
            (fuel - 1) as nat,
        ),
{
}

/// Shadowing: a name bound by the scope itself resolves to that binding,
/// whatever any enclosing scope holds and however much fuel the lookup has;
/// enclosing scopes are not consulted, so they are unaffected.
pub proof fn lemma_shadowing(
    scopes: Map<Seq<char>, TableV>,
    inner: TableV,
    name: Seq<char>,
    fuel: nat,
)
    requires
        inner.symbols.contains_key(name),
    ensures
        chain_lookup(scopes, inner, name, fuel) == Some(inner.symbols[name]),
{
}

/// The name of the distinguished top-level scope.
pub open spec fn top_name() -> Seq<char> {
    "__top_scope__"@
}

/// The scope name a block mints from its id.
pub open spec fn block_scope_name(id: int) -> Seq<char> {
    "__block_"@ + dec_str(id as nat) + "__"@
}

/// Whether `name` resolves from scope `table` by chained lookup.
pub open spec fn sem_contains_name(
    scopes: Map<Seq<char>, TableV>,
    table: Seq<char>,
    name: Seq<char>,
) -> bool {
    if scopes.contains_key(table) {
        chain_lookup(scopes, scopes[table], name, lookup_fuel(scopes)) is Some
    } else {
        false
    }
}

/// What `get_symbol` yields: the scope named `name` must exist, and `name`
/// must resolve from it.
pub open spec fn sem_get_symbol(scopes: Map<Seq<char>, TableV>, name: Seq<char>) -> Result<
    SymKindV,
    ErrV,
> {
    if scopes.contains_key(name) {
        match chain_lookup(scopes, scopes[name], name, lookup_fuel(scopes)) {
            Some(k) => Ok(k),
            None => Err(ErrV::MissingSymbol),
        }
    } else {
        Err(ErrV::ImproperScopeCheck)
    }
}

/// The analyzer's mutable state: the scope tree, the active scope, and the
/// stack of scopes to restore; `prog` is the program under analysis.
#[verifier::ext_equal]
pub struct SemaV {
    pub prog: Seq<StmtV>,
    pub scopes: Map<Seq<char>, TableV>,
    pub cur: Seq<char>,
    pub stack: Seq<Seq<char>>,
}

/// Adding a symbol to the top-level scope, which is always present; a tree
/// without it is left unchanged.
pub open spec fn insert_top(
    scopes: Map<Seq<char>, TableV>,
    name: Seq<char>,
    kind: SymKindV,
) -> Map<Seq<char>, TableV> {
    if scopes.contains_key(top_name()) {
        scopes.insert(
            top_name(),
            TableV {
                symbols: scopes[top_name()].symbols.insert(name, kind),
                parent: scopes[top_name()].parent,
            },
        )
    } else {
        scopes
    }
}

// ---------------------------------------------------------------------------
// Pass 1 — collect: build the scope tree and register declarations.
// ---------------------------------------------------------------------------

pub open spec fn sp_collect_func(st: SemaV, func: FuncV) -> Result<SemaV, ErrV>
    decreases func,
{
    let name = tok_data(func.name);
    if sem_contains_name(st.scopes, top_name(), name) {
        Err(ErrV::RedefinitionOfFunction { name })
    } else {
        let scopes1 = insert_top(st.scopes, name, SymKindV::Function(Seq::empty(), func.return_type));
        let st1 = SemaV {
            prog: st.prog,
            scopes: scopes1.insert(name, TableV { symbols: Map::empty(), parent: Some(st.cur) }),
            cur: name,
            stack: st.stack.push(st.cur),
        };
        match sp_collect_stmt(st1, func.body) {
            Ok(st2) => Ok(
                SemaV {
                    prog: st2.prog,
                    scopes: st2.scopes,
                    cur: st2.stack.last(),
                    stack: st2.stack.drop_last(),
                },
            ),
            Err(e) => Err(e),
        }
    }
}

pub open spec fn sp_collect_stmt(st: SemaV, s: StmtV) -> Result<SemaV, ErrV>
    decreases s,
{
    match s {
        StmtV::Decleration(d) => match d {
            DeclV::Function(func) => sp_collect_func(st, *func),
            _ => Ok(st),
        },
        StmtV::Block(b) => {
            let bname = block_scope_name(b.id);
            let st1 = SemaV {
                prog: st.prog,
                scopes: st.scopes.insert(
                    bname,
                    TableV { symbols: Map::empty(), parent: Some(st.cur) },
                ),
                cur: bname,
                stack: st.stack.push(st.cur),
            };
            match sp_collect_stmts(st1, b.body) {
                Ok(st2) => Ok(
                    SemaV {
                        prog: st2.prog,
                        scopes: st2.scopes,
                        cur: st2.stack.last(),
                        stack: st2.stack.drop_last(),
                    },
                ),
                Err(e) => Err(e),
            }
        },
        _ => Ok(st),
    }
}

pub open spec fn sp_collect_stmts(st: SemaV, ss: Seq<StmtV>) -> Result<SemaV, ErrV>
    decreases ss,
{
    if ss.len() == 0 {
        Ok(st)
    } else {
        match sp_collect_stmt(st, ss[0]) {
            Ok(st1) => sp_collect_stmts(st1, ss.drop_first()),
            Err(e) => Err(e),
        }
    }
}

// ---------------------------------------------------------------------------
// Pass 2 — validate: evaluate types, resolve identifiers, check returns.
// The active scope does not change during this pass.
// ---------------------------------------------------------------------------

/// The type of an expression: literals have their type, a binary node
/// requires equally-typed operands; anything else is an implementation gap.
pub open spec fn sp_eval_type(e: ExprV) -> Result<TypeSpec, ErrV>
    decreases e,
{
    match e {
        ExprV::NumericLiteral(_) => Ok(TypeSpec::Int),
        ExprV::StringLiteral(_) => Ok(TypeSpec::String),
        ExprV::Binary(l, op, r) => match sp_eval_type(*l) {
            Err(er) => Err(er),
            Ok(lt) => match sp_eval_type(*r) {
                Err(er) => Err(er),
                Ok(rt) => if lt != rt {
                    Err(ErrV::InvalidOperands { left: lt, right: rt, op })
                } else {
                    Ok(lt)
                },
            },
        },
        _ => Err(ErrV::UnhandledExprType),
    }
}

/// The types of the expressions returned by the direct statements of a
/// function body, which must be a block; returns nested deeper are not seen.
pub open spec fn sp_returns_of(ss: Seq<StmtV>) -> Result<Seq<TypeSpec>, ErrV>
    decreases ss,
{
    if ss.len() == 0 {
        Ok(Seq::empty())
    } else {
        match ss[0] {
            StmtV::Return(e) => match sp_eval_type(e) {
                Err(er) => Err(er),
                Ok(t) => match sp_returns_of(ss.drop_first()) {
                    Ok(ts) => Ok(seq![t] + ts),
                    Err(er) => Err(er),
                },
            },
            _ => sp_returns_of(ss.drop_first()),
        }
    }
}

pub open spec fn sp_return_types(body: StmtV) -> Result<Seq<TypeSpec>, ErrV> {
    match body {
        StmtV::Block(b) => sp_returns_of(b.body),
        _ => Err(ErrV::UnhandledFunctionBody),
    }
}

/// Every actual return type must equal the declared one; the first mismatch
/// is the diagnostic.
pub open spec fn sp_check_returns(declared: TypeSpec, ts: Seq<TypeSpec>) -> Result<(), ErrV>
    decreases ts,
{
    if ts.len() == 0 {
        Ok(())
    } else if ts[0] != declared {
        Err(ErrV::UnexpectedReturnType { declared, actual: ts[0] })
    } else {
        sp_check_returns(declared, ts.drop_first())
    }
}

pub open spec fn sp_validate_expr(
    scopes: Map<Seq<char>, TableV>,
    cur: Seq<char>,
    e: ExprV,
) -> Result<(), ErrV>
    decreases e, 1int,
{
    match e {
        ExprV::Identifier(id) => if !sem_contains_name(scopes, cur, tok_data(id)) {
            Err(ErrV::UndeclaredIdentifier { name: tok_data(id) })
        } else {
            Ok(())
        },
        ExprV::Call(callee, args) => match sp_validate_expr(scopes, cur, *callee) {
            Err(er) => Err(er),
            Ok(_) => sp_validate_exprs(scopes, cur, args),
        },
        ExprV::MemberAccess(m, p) => match sp_validate_expr(scopes, cur, *m) {
            Err(er) => Err(er),
            Ok(_) => match *m {
                ExprV::Identifier(mi) => match *p {
                    ExprV::Identifier(pi) => match sem_get_symbol(scopes, tok_data(mi)) {
                        Err(er) => Err(er),
                        Ok(sym) => if !(sym is Namespace) {
                            Err(ErrV::NotANamespace { name: tok_data(mi) })
                        } else if !sem_contains_name(scopes, tok_data(mi), tok_data(pi)) {
                            Err(ErrV::NoProperty { scope: tok_data(mi), name: tok_data(pi) })
                        } else {
                            Ok(())
                        },
                    },
                    _ => Err(ErrV::ImproperMemberAccess),
                },
                _ => Err(ErrV::ImproperMemberAccess),
            },
        },
        _ => Err(ErrV::UnhandledValidateExpr),
    }
}

pub open spec fn sp_validate_exprs(
    scopes: Map<Seq<char>, TableV>,
    cur: Seq<char>,
    es: Seq<ExprV>,
) -> Result<(), ErrV>
    decreases es, 0int,
{
    if es.len() == 0 {
        Ok(())
    } else {
        match sp_validate_expr(scopes, cur, es[0]) {
            Err(er) => Err(er),
            Ok(_) => sp_validate_exprs(scopes, cur, es.drop_first()),
        }
    }
}

pub open spec fn sp_validate_func(
    scopes: Map<Seq<char>, TableV>,
    cur: Seq<char>,
    func: FuncV,
) -> Result<(), ErrV>
    decreases func,
{
    match sp_return_types(func.body) {
        Err(er) => Err(er),
        Ok(actuals) => match sp_check_returns(func.return_type, actuals) {
            Err(er) => Err(er),
            Ok(_) => sp_validate_stmt(scopes, cur, func.body),
        },
    }
}

/// A return statement validates to nothing here; its expression is already
/// examined by the return-type scan of the enclosing function.
pub open spec fn sp_validate_stmt(
    scopes: Map<Seq<char>, TableV>,
    cur: Seq<char>,
    s: StmtV,
) -> Result<(), ErrV>
    decreases s, 1int,
{
    match s {
        StmtV::Decleration(d) => match d {
            DeclV::Function(func) => sp_validate_func(scopes, cur, *func),
            _ => Err(ErrV::UnhandledValidateStmt),
        },
        StmtV::Block(b) => sp_validate_stmts(scopes, cur, b.body),
        StmtV::Expr(e) => sp_validate_expr(scopes, cur, e),
        StmtV::Return(_) => Ok(()),
        _ => Err(ErrV::UnhandledValidateStmt),
    }
}

pub open spec fn sp_validate_stmts(
    scopes: Map<Seq<char>, TableV>,
    cur: Seq<char>,
    ss: Seq<StmtV>,
) -> Result<(), ErrV>
    decreases ss, 0int,
{
    if ss.len() == 0 {
        Ok(())
    } else {
        match sp_validate_stmt(scopes, cur, ss[0]) {
            Err(er) => Err(er),
            Ok(_) => sp_validate_stmts(scopes, cur, ss.drop_first()),
        }
    }
}

// ---------------------------------------------------------------------------
// The two passes over a whole program.
// ---------------------------------------------------------------------------

/// The analyzer's initial state: only the top-level scope exists.
pub open spec fn initial_sema(prog: Seq<StmtV>) -> SemaV {
    SemaV {
        prog,
        scopes: Map::empty().insert(top_name(), TableV { symbols: Map::empty(), parent: None }),
        cur: top_name(),
        stack: Seq::empty(),
    }
}

/// What `check` does: pass 1 builds the scope tree, pass 2 validates the
/// program against it; the first diagnostic of either pass is the result.
pub open spec fn sp_check(prog: Seq<StmtV>) -> Result<SemaV, ErrV> {
    match sp_collect_stmts(initial_sema(prog), prog) {
        Err(e) => Err(e),
        Ok(st) => match sp_validate_stmts(st.scopes, st.cur, prog) {
            Ok(_) => Ok(st),
            Err(e) => Err(e),
        },
    }
}

// ---------------------------------------------------------------------------
// The executable analyzer.
// ---------------------------------------------------------------------------

impl SymbolTable {
    /// Chained lookup: this scope's own symbols first, then the parent
    /// chain through `semacheck`'s scope tree.
    pub fn get_symbol_by_name(&self, semacheck: &SemaChecker, name: &String) -> (r: Option<
        SymbolKind,
    >)
        requires
            self.wf(),
            semacheck.wf(),
        ensures
            match r {
                Option::Some(k) => chain_lookup(
                    semacheck@.scopes,
                    self@,
                    name@,
                    lookup_fuel(semacheck@.scopes),
                ) == Some(k@),
                Option::None => chain_lookup(
                    semacheck@.scopes,
                    self@,
                    name@,
                    lookup_fuel(semacheck@.scopes),
                ) is None,
            },
    {
        let ghost m = semacheck@.scopes;
        let ghost fuel0 = lookup_fuel(m);
        if let Some(k) = self.get_local(name) {
            return Some(k);
        }
        let mut cur_parent: Option<String> = match self.parent {
            Some(ref p) => Some(p.clone()),
            None => None,
        };
        let mut fuel: usize = semacheck.scopes.len();
        proof {
            semacheck.lemma_wf_props();
        }
        while fuel > 0
            invariant
                semacheck.wf(),
                fuel <= lookup_fuel(m),
                m == semacheck@.scopes,
                fuel0 == lookup_fuel(m),
                chain_from(
                    m,
                    match cur_parent {
                        Option::Some(ref p) => Option::Some(p@),
                        Option::None => Option::<Seq<char>>::None,
                    },
                    name@,
                    fuel as nat,
                ) == chain_lookup(m, self@, name@, fuel0),
            decreases fuel,
        {
            let p = match cur_parent {
                Some(ref p) => p.clone(),
                None => {
                    return None;
                },
            };
            let table = match semacheck.get_scope(p.as_str()) {
                Some(t) => t,
                None => {
                    proof {
                        assert(!m.contains_key(p@));
                        assert(chain_from(m, Option::Some(p@), name@, fuel as nat) is None);
                    }
                    return None;
                },
            };
            proof {
                assert(table@ == m[p@]);
                assert(chain_from(m, Option::Some(p@), name@, fuel as nat) == chain_lookup(
                    m,
                    m[p@],
                    name@,
                    (fuel - 1) as nat,
                ));
            }
            if let Some(k) = table.get_local(name) {
                proof {
                    assert(chain_lookup(m, m[p@], name@, (fuel - 1) as nat) == Some(k@));
                }
                return Some(k);
            }
            proof {
                assert(chain_lookup(m, m[p@], name@, (fuel - 1) as nat) == chain_from(
                    m,
                    table@.parent,
                    name@,
                    (fuel - 1) as nat,
                ));
            }
            cur_parent = match table.parent {
                Some(ref q) => Some(q.clone()),
                None => None,
            };
            fuel = fuel - 1;
        }
        match cur_parent {
            Some(_) => None,
            None => None,
        }
    }

    /// Whether `name` resolves from this scope by chained lookup.
    pub fn contains(&self, semacheck: &SemaChecker, name: &String) -> (r: bool)
        requires
            self.wf(),
            semacheck.wf(),
        ensures
            r == (chain_lookup(semacheck@.scopes, self@, name@, lookup_fuel(semacheck@.scopes))
                is Some),
    {
        match self.get_symbol_by_name(semacheck, name) {
            Some(_) => true,
            None => false,
        }
    }
}

/// The semantic analyzer's state machine over the two passes.
#[derive(Debug)]
pub struct SemaChecker {
    ast: Ast,
    diag: DiagPrinter,
    pub scopes: Vec<(String, SymbolTable)>,
    pub current_scope: String,
    pub scope_names: Vec<String>,
}

pub open spec fn stack_view(ss: Seq<String>) -> Seq<Seq<char>>
    decreases ss,
{
    if ss.len() == 0 {
        Seq::empty()
    } else {
        stack_view(ss.drop_last()).push(ss.last()@)
    }
}

impl View for SemaChecker {
    type V = SemaV;

    closed spec fn view(&self) -> SemaV {
        SemaV {
            prog: stmts_view(self.ast.body@),
            scopes: scopes_map(self.scopes@),
            cur: self.current_scope@,
            stack: stack_view(self.scope_names@),
        }
    }
}

impl SemaChecker {
    pub closed spec fn wf(&self) -> bool {
        &&& scope_keys_unique(self.scopes@)
        &&& (forall|i: int| 0 <= i < self.scopes@.len() ==> #[trigger] self.scopes@[i].1.wf())
        &&& scopes_map(self.scopes@).contains_key(top_name())
    }

    proof fn lemma_wf_props(&self)
        requires
            self.wf(),
        ensures
            self@.scopes.dom().finite(),
            lookup_fuel(self@.scopes) == self.scopes@.len(),
            forall|k: Seq<char>|
                #[trigger] self@.scopes.contains_key(k) <==> exists|i: int|
                    0 <= i < self.scopes@.len() && self.scopes@[i].0@ == k,
            forall|i: int|
                0 <= i < self.scopes@.len() ==> #[trigger] self@.scopes[self.scopes@[i].0@]
                    == self.scopes@[i].1@,
    {
        lemma_scopes_map_props(self.scopes@);
    }
}

proof fn lemma_scopes_map_props(entries: Seq<(String, SymbolTable)>)
    requires
        scope_keys_unique(entries),
    ensures
        scopes_map(entries).dom().finite(),
        scopes_map(entries).dom().len() == entries.len(),
        forall|k: Seq<char>|
            #[trigger] scopes_map(entries).contains_key(k) <==> exists|i: int|
                0 <= i < entries.len() && entries[i].0@ == k,
        forall|i: int|
            0 <= i < entries.len() ==> #[trigger] scopes_map(entries)[entries[i].0@]
                == entries[i].1@,
    decreases entries.len(),
{
    if entries.len() > 0 {
        assert(scope_keys_unique(entries.drop_last()));
        lemma_scopes_map_props(entries.drop_last());
        assert(!scopes_map(entries.drop_last()).contains_key(entries.last().0@));
        assert forall|i: int| 0 <= i < entries.len() implies #[trigger] scopes_map(
            entries,
        )[entries[i].0@] == entries[i].1@ by {
            if i < entries.len() - 1 {
                assert(entries.drop_last()[i] == entries[i]);
                assert(scopes_map(entries.drop_last())[entries.drop_last()[i].0@]
                    == entries.drop_last()[i].1@);
                assert(entries[i].0@ != entries.last().0@);
            }
        }
        assert forall|k: Seq<char>| #[trigger] scopes_map(entries).contains_key(k) implies exists|
            i: int,
        | 0 <= i < entries.len() && entries[i].0@ == k by {
            if k == entries.last().0@ {
                assert(entries[entries.len() - 1].0@ == k);
            } else {
                assert(scopes_map(entries.drop_last()).contains_key(k));
                let i = choose|i: int|
                    0 <= i < entries.drop_last().len() && entries.drop_last()[i].0@ == k;
                assert(entries.drop_last()[i] == entries[i]);
                assert(entries[i].0@ == k);
            }
        }
        assert forall|k: Seq<char>|
            (exists|i: int| 0 <= i < entries.len() && entries[i].0@ == k) implies #[trigger] scopes_map(
            entries,
        ).contains_key(k) by {
            let i = choose|i: int| 0 <= i < entries.len() && entries[i].0@ == k;
            if i < entries.len() - 1 {
                assert(entries.drop_last()[i].0@ == k);
                assert(scopes_map(entries.drop_last()).contains_key(k));
            }
        }
    }
}

proof fn lemma_scopes_map_update(
    entries: Seq<(String, SymbolTable)>,
    i: int,
    v: (String, SymbolTable),
)
    requires
        scope_keys_unique(entries),
        0 <= i < entries.len(),
        v.0@ == entries[i].0@,
    ensures
        scope_keys_unique(entries.update(i, v)),
        scopes_map(entries.update(i, v)) == scopes_map(entries).insert(v.0@, v.1@),
    decreases entries.len(),
{
    lemma_scopes_map_props(entries);
    let upd = entries.update(i, v);
    assert(scope_keys_unique(upd));
    if i == entries.len() - 1 {
        assert(upd.drop_last() =~= entries.drop_last());
        assert(scopes_map(upd) =~= scopes_map(entries).insert(v.0@, v.1@));
    } else {
        assert(upd.drop_last() =~= entries.drop_last().update(i, v));
        assert(scope_keys_unique(entries.drop_last()));
        lemma_scopes_map_update(entries.drop_last(), i, v);
        assert(upd.last() == entries.last());
        assert(v.0@ != entries.last().0@);
        assert(scopes_map(upd) =~= scopes_map(entries).insert(v.0@, v.1@));
    }
}

impl SemaChecker {
    /// A fresh analyzer over `ast`: only the top-level scope exists.
    pub fn new(ast: Ast, diag: DiagPrinter) -> (r: Self)
        ensures
            r.wf(),
            r@ == initial_sema(ast@.body),
    {
        let table = SymbolTable::new(None);
        let mut scopes: Vec<(String, SymbolTable)> = Vec::new();
        scopes.push((String::from_str("__top_scope__"), table));
        let r = SemaChecker {
            ast,
            diag,
            scopes,
            current_scope: String::from_str("__top_scope__"),
            scope_names: Vec::new(),
        };
        proof {
            assert(r.scopes@.drop_last() =~= Seq::<(String, SymbolTable)>::empty());
            assert(r.scopes@.last().1@.symbols =~= Map::<Seq<char>, SymKindV>::empty());
            assert(r.scopes@.last().1@ =~~= (TableV {
                symbols: Map::<Seq<char>, SymKindV>::empty(),
                parent: Option::<Seq<char>>::None,
            }));
            assert(r.scopes@.last().0@ == top_name());
            assert(scopes_map(r.scopes@.drop_last()) =~= Map::<Seq<char>, TableV>::empty());
            assert(r@.scopes == scopes_map(r.scopes@.drop_last()).insert(
                r.scopes@.last().0@,
                r.scopes@.last().1@,
            ));
            assert(r.scopes@.last().1@ == (TableV {
                symbols: Map::<Seq<char>, SymKindV>::empty(),
                parent: Option::<Seq<char>>::None,
            }));
            assert(r@.scopes == initial_sema(r@.prog).scopes);
            assert(r@.stack =~= initial_sema(r@.prog).stack);
        }
        r
    }

    /// The scope named `name`, if it exists.
    pub fn get_scope(&self, name: &str) -> (r: Option<SymbolTable>)
        requires
            self.wf(),
        ensures
            match r {
                Option::Some(t) => self@.scopes.contains_key(name@) && t@ == self@.scopes[name@]
                    && t.wf(),
                Option::None => !self@.scopes.contains_key(name@),
            },
    {
        proof {
            self.lemma_wf_props();
        }
        let key: String = name.to_owned();
        let mut i: usize = 0;
        while i < self.scopes.len()
            invariant
                self.wf(),
                key@ == name@,
                i <= self.scopes.len(),
                forall|j: int| 0 <= j < i ==> self.scopes@[j].0@ != name@,
                forall|k: Seq<char>|
                    #[trigger] self@.scopes.contains_key(k) <==> exists|j: int|
                        0 <= j < self.scopes@.len() && self.scopes@[j].0@ == k,
                forall|j: int|
                    0 <= j < self.scopes@.len() ==> #[trigger] self@.scopes[self.scopes@[j].0@]
                        == self.scopes@[j].1@,
            decreases self.scopes.len() - i,
        {
            if self.scopes[i].0 == key {
                let t = clone_table(&self.scopes[i].1);
                return Some(t);
            }
            i += 1;
        }
        None
    }
}

/// A structural copy of a symbol table, keeping its view.
fn clone_table(t: &SymbolTable) -> (r: SymbolTable)
    ensures
        r@ == t@,
        t.wf() ==> r.wf(),
{
    let mut symbols: Vec<(String, SymbolKind)> = Vec::new();
    let mut i: usize = 0;
    while i < t.symbols.len()
        invariant
            i <= t.symbols.len(),
            symbols@.len() == i,
            forall|j: int|
                0 <= j < i ==> #[trigger] symbols@[j].0@ == t.symbols@[j].0@ && symbols@[j].1@
                    == t.symbols@[j].1@,
        decreases t.symbols.len() - i,
    {
        let name = t.symbols[i].0.clone();
        let kind = t.symbols[i].1.clone();
        symbols.push((name, kind));
        i += 1;
    }
    let parent: Option<String> = match t.parent {
        Some(ref p) => Some(p.clone()),
        None => None,
    };
    let r = SymbolTable { symbols, parent };
    proof {
        lemma_assoc_map_congruence(r.symbols@, t.symbols@);
    }
    r
}

proof fn lemma_assoc_map_congruence(a: Seq<(String, SymbolKind)>, b: Seq<(String, SymbolKind)>)
    requires
        a.len() == b.len(),
        forall|j: int| 0 <= j < a.len() ==> #[trigger] a[j].0@ == b[j].0@ && a[j].1@ == b[j].1@,
    ensures
        assoc_map(a) == assoc_map(b),
        keys_unique(b) ==> keys_unique(a),
    decreases a.len(),
{
    if a.len() > 0 {
        assert forall|j: int| 0 <= j < a.drop_last().len() implies #[trigger] a.drop_last()[j].0@
            == b.drop_last()[j].0@ && a.drop_last()[j].1@ == b.drop_last()[j].1@ by {
            assert(a[j].0@ == b[j].0@);
        }
        lemma_assoc_map_congruence(a.drop_last(), b.drop_last());
        assert(assoc_map(a) =~= assoc_map(b));
    }
}


// ---------------------------------------------------------------------------
// Pass 1 and pass 2, executable.
// ---------------------------------------------------------------------------

/// The collect pass leaves the scope stack and the program as it found them.
proof fn lemma_collect_stmt_stack(st: SemaV, s: StmtV)
    ensures
        sp_collect_stmt(st, s) matches Ok(st2) ==> st2.stack == st.stack && st2.prog == st.prog,
    decreases s, 1int,
{
    match s {
        StmtV::Decleration(d) => match d {
            DeclV::Function(func) => {
                lemma_collect_func_stack(st, *func);
            },
            _ => {},
        },
        StmtV::Block(b) => {
            let bname = block_scope_name(b.id);
            let st1 = SemaV {
                prog: st.prog,
                scopes: st.scopes.insert(
                    bname,
                    TableV { symbols: Map::empty(), parent: Some(st.cur) },
                ),
                cur: bname,
                stack: st.stack.push(st.cur),
            };
            lemma_collect_stmts_stack(st1, b.body);
        },
        _ => {},
    }
}

proof fn lemma_collect_func_stack(st: SemaV, func: FuncV)
    ensures
        sp_collect_func(st, func) matches Ok(st2) ==> st2.stack == st.stack && st2.prog
            == st.prog,
    decreases func, 0int,
{
    let name = tok_data(func.name);
    if !sem_contains_name(st.scopes, top_name(), name) {
        let scopes1 = insert_top(st.scopes, name, SymKindV::Function(Seq::empty(), func.return_type));
        let st1 = SemaV {
            prog: st.prog,
            scopes: scopes1.insert(name, TableV { symbols: Map::empty(), parent: Some(st.cur) }),
            cur: name,
            stack: st.stack.push(st.cur),
        };
        lemma_collect_stmt_stack(st1, func.body);
    }
}

proof fn lemma_collect_stmts_stack(st: SemaV, ss: Seq<StmtV>)
    ensures
        sp_collect_stmts(st, ss) matches Ok(st2) ==> st2.stack == st.stack && st2.prog
            == st.prog,
    decreases ss, 2int,
{
    if ss.len() > 0 {
        lemma_collect_stmt_stack(st, ss[0]);
        match sp_collect_stmt(st, ss[0]) {
            Ok(st1) => {
                lemma_collect_stmts_stack(st1, ss.drop_first());
            },
            Err(_) => {},
        }
    }
}

proof fn lemma_stack_view_props(ss: Seq<String>)
    ensures
        stack_view(ss).len() == ss.len(),
        ss.len() > 0 ==> stack_view(ss).last() == ss.last()@ && stack_view(ss).drop_last()
            == stack_view(ss.drop_last()),
    decreases ss.len(),
{
    if ss.len() > 0 {
        lemma_stack_view_props(ss.drop_last());
    }
}

proof fn lemma_stack_view_push(ss: Seq<String>, x: String)
    ensures
        stack_view(ss.push(x)) == stack_view(ss).push(x@),
{
    assert(ss.push(x).drop_last() =~= ss);
}

impl SemaChecker {
    /// Adds (or replaces) the scope named `name`.
    pub fn add_table(&mut self, name: String, table: SymbolTable)
        requires
            old(self).wf(),
            table.wf(),
        ensures
            final(self).wf(),
            final(self)@ == (SemaV {
                prog: old(self)@.prog,
                scopes: old(self)@.scopes.insert(name@, table@),
                cur: old(self)@.cur,
                stack: old(self)@.stack,
            }),
    {
        proof {
            self.lemma_wf_props();
        }
        let ghost entries0 = self.scopes@;
        let ghost tbl0 = table;
        let mut i: usize = 0;
        while i < self.scopes.len()
            invariant
                self.wf(),
                self.scopes@ == entries0,
                entries0 == old(self).scopes@,
                self.current_scope == old(self).current_scope,
                self.scope_names == old(self).scope_names,
                self.ast == old(self).ast,
                tbl0 == table,
                tbl0.wf(),
                i <= self.scopes.len(),
                forall|j: int| 0 <= j < i ==> self.scopes@[j].0@ != name@,
            decreases self.scopes.len() - i,
        {
            if self.scopes[i].0 == name {
                let key = self.scopes[i].0.clone();
                let ghost keyv = key@;
                let ghost tv = table@;
                proof {
                    lemma_scopes_map_update(self.scopes@, i as int, (key, table));
                }
                self.scopes.set(i, (key, table));
                proof {
                    assert(self.scopes@ == entries0.update(i as int, (key, table)));
                    assert(scopes_map(self.scopes@) == scopes_map(entries0).insert(keyv, tv));
                    assert(keyv == name@);
                    assert forall|j: int| 0 <= j < self.scopes@.len() implies #[trigger] self
                        .scopes@[j].1.wf() by {
                        if j != i as int {
                            assert(self.scopes@[j] == entries0[j]);
                            assert(entries0[j].1.wf());
                        } else {
                            assert(self.scopes@[j].1 == tbl0);
                        }
                    }
                    assert(scopes_map(self.scopes@).contains_key(top_name()));
                    assert(self@ =~~= (SemaV {
                        prog: old(self)@.prog,
                        scopes: old(self)@.scopes.insert(name@, table@),
                        cur: old(self)@.cur,
                        stack: old(self)@.stack,
                    }));
                    lemma_scopes_map_props(self.scopes@);
                }
                return ;
            }
            i += 1;
        }
        proof {
            assert(self.scopes@.push((name, table)).drop_last() =~= self.scopes@);
            lemma_scopes_map_props(entries0);
        }
        self.scopes.push((name, table));
        proof {
            assert forall|j: int| 0 <= j < self.scopes@.len() implies #[trigger] self.scopes@[j]
                .1.wf() by {
                if j < self.scopes@.len() - 1 {
                    assert(self.scopes@[j] == entries0[j]);
                    assert(entries0[j].1.wf());
                } else {
                    assert(self.scopes@[j].1 == tbl0);
                }
            }
            assert(scopes_map(self.scopes@).contains_key(top_name()));
            assert(self@ =~~= (SemaV {
                prog: old(self)@.prog,
                scopes: old(self)@.scopes.insert(name@, table@),
                cur: old(self)@.cur,
                stack: old(self)@.stack,
            }));
            lemma_scopes_map_props(self.scopes@);
        }
    }

    /// Registers a symbol in the top-level scope.
    fn append_top(&mut self, name: String, kind: SymbolKind)
        requires
            old(self).wf(),
        ensures
            final(self).wf(),
            final(self)@ == (SemaV {
                prog: old(self)@.prog,
                scopes: insert_top(old(self)@.scopes, name@, kind@),
                cur: old(self)@.cur,
                stack: old(self)@.stack,
            }),
    {
        proof {
            self.lemma_wf_props();
        }
        let ghost entries0 = self.scopes@;
        let mut i: usize = 0;
        let top = String::from_str("__top_scope__");
        while i < self.scopes.len()
            invariant
                self.wf(),
                self.scopes@ == entries0,
                entries0 == old(self).scopes@,
                self.current_scope == old(self).current_scope,
                self.scope_names == old(self).scope_names,
                self.ast == old(self).ast,
                top@ == top_name(),
                i <= self.scopes.len(),
                forall|j: int| 0 <= j < i ==> self.scopes@[j].0@ != top_name(),
            decreases self.scopes.len() - i,
        {
            if self.scopes[i].0 == top {
                let key = self.scopes[i].0.clone();
                proof {
                    lemma_scopes_map_props(entries0);
                    assert(self.scopes@[i as int].1.wf());
                }
                let mut t = clone_table(&self.scopes[i].1);
                t.append(name, kind);
                let ghost keyv = key@;
                let ghost tv = t@;
                proof {
                    lemma_scopes_map_update(self.scopes@, i as int, (key, t));
                }
                self.scopes.set(i, (key, t));
                proof {
                    assert(self.scopes@ == entries0.update(i as int, (key, t)));
                    assert(scopes_map(self.scopes@) == scopes_map(entries0).insert(keyv, tv));
                    assert forall|j: int| 0 <= j < self.scopes@.len() implies #[trigger] self
                        .scopes@[j].1.wf() by {
                        if j != i as int {
                            assert(self.scopes@[j] == entries0[j]);
                            assert(entries0[j].1.wf());
                        } else {
                            assert(self.scopes@[j].1 == t);
                        }
                    }
                    assert(scopes_map(self.scopes@).contains_key(top_name()));
                    assert(self@ =~~= (SemaV {
                        prog: old(self)@.prog,
                        scopes: insert_top(old(self)@.scopes, name@, kind@),
                        cur: old(self)@.cur,
                        stack: old(self)@.stack,
                    }));
                    lemma_scopes_map_props(self.scopes@);
                }
                return ;
            }
            i += 1;
        }
        proof {
            lemma_scopes_map_props(entries0);
            assert(!scopes_map(entries0).contains_key(top_name()));
            assert(false);
        }
    }

    /// Whether `name` resolves by chained lookup from the scope named
    /// `table`; a missing scope resolves nothing.
    pub fn contains_name(&self, table: String, name: String) -> (r: bool)
        requires
            self.wf(),
        ensures
            r == sem_contains_name(self@.scopes, table@, name@),
    {
        if let Some(sym_table) = self.get_scope(table.as_str()) {
            sym_table.contains(self, &name)
        } else {
            false
        }
    }

    /// The symbol that the scope named `name` resolves for `name` itself; a
    /// missing scope, or a scope that cannot resolve it, is an internal
    /// error.
    fn get_symbol(&self, name: String) -> (r: Result<SymbolKind, CompileError>)
        requires
            self.wf(),
        ensures
            match r {
                Ok(k) => sem_get_symbol(self@.scopes, name@) == Ok::<SymKindV, ErrV>(k@),
                Err(e) => sem_get_symbol(self@.scopes, name@) == Err::<SymKindV, ErrV>(e@),
            },
    {
        if let Some(sym_table) = self.get_scope(name.as_str()) {
            match sym_table.get_symbol_by_name(self, &name) {
                Some(k) => Ok(k),
                None => Err(CompileError::MissingSymbol),
            }
        } else {
            Err(CompileError::ImproperScopeCheck)
        }
    }

    /// Pass 1 for one function declaration: register it in the top-level
    /// scope (a second registration of the same name is a fatal
    /// redefinition), create its scope, and walk its body with that scope
    /// active.
    pub fn collect_func_decl(&mut self, func: &FunctionDeclerationStatement) -> (r: Result<
        (),
        CompileError,
    >)
        requires
            old(self).wf(),
        ensures
            final(self).wf(),
            match r {
                Ok(_) => sp_collect_func(old(self)@, func@) == Ok::<SemaV, ErrV>(final(self)@),
                Err(e) => sp_collect_func(old(self)@, func@) == Err::<SemaV, ErrV>(e@),
            },
        decreases *func, 0int,
    {
        let ghost st0 = self@;
        let name: String = func.name().get_data();
        let ghost nv = name@;
        if self.contains_name(String::from_str("__top_scope__"), name.clone()) {
            return Err(CompileError::RedefinitionOfFunction { name });
        }
        self.append_top(name.clone(), SymbolKind::Function(Vec::new(), func.return_type()));
        let func_scope = SymbolTable::new(Some(self.current_scope.clone()));
        let ghost sn0 = self.scope_names@;
        let pushed = self.current_scope.clone();
        proof {
            lemma_stack_view_push(sn0, pushed);
        }
        self.scope_names.push(pushed);
        self.current_scope = name.clone();
        self.add_table(name, func_scope);
        let ghost st1 = self@;
        proof {
            assert(st1.stack =~= st0.stack.push(st0.cur));
            assert(st1 =~~= (SemaV {
                prog: st0.prog,
                scopes: insert_top(st0.scopes, nv, SymKindV::Function(Seq::empty(), func@.return_type)).insert(
                    nv,
                    TableV { symbols: Map::empty(), parent: Some(st0.cur) },
                ),
                cur: nv,
                stack: st0.stack.push(st0.cur),
            }));
            lemma_collect_stmt_stack(st1, func@.body);
        }
        match self.collect_symbols(&func.body) {
            Ok(_) => {},
            Err(e) => {
                return Err(e);
            },
        }
        let ghost st2 = self@;
        let ghost sn2 = self.scope_names@;
        proof {
            lemma_stack_view_props(sn2);
            assert(st2.stack == st1.stack);
            assert(sn2.len() > 0);
        }
        match self.scope_names.pop() {
            Some(s) => {
                self.current_scope = s;
            },
            None => {},
        }
        proof {
            lemma_stack_view_props(sn2);
            assert(self@ =~~= (SemaV {
                prog: st2.prog,
                scopes: st2.scopes,
                cur: st2.stack.last(),
                stack: st2.stack.drop_last(),
            }));
        }
        Ok(())
    }

    /// Pass 1 for one statement: function declarations and blocks create
    /// scopes, everything else contributes nothing.
    pub fn collect_symbols(&mut self, stmt: &StatementType) -> (r: Result<(), CompileError>)
        requires
            old(self).wf(),
        ensures
            final(self).wf(),
            match r {
                Ok(_) => sp_collect_stmt(old(self)@, stmt@) == Ok::<SemaV, ErrV>(final(self)@),
                Err(e) => sp_collect_stmt(old(self)@, stmt@) == Err::<SemaV, ErrV>(e@),
            },
        decreases *stmt, 1int,
    {
        let ghost st0 = self@;
        match stmt {
            StatementType::Decleration(d) => match d {
                DeclerationType::Function(func) => {
                    let r = self.collect_func_decl(&**func);
                    r
                },
                DeclerationType::Invalid => Ok(()),
            },
            StatementType::Block(block) => {
                let mut block_scope_str = String::from_str("__block_");
                block_scope_str.append(dec_string(block.get_id() as u64).as_str());
                block_scope_str.append("__");
                let ghost bname = block_scope_name(block@.id);
                proof {
                    assert(block_scope_str@ == bname);
                }
                let block_scope = SymbolTable::new(Some(self.current_scope.clone()));
                self.add_table(block_scope_str.clone(), block_scope);
                let ghost sn0 = self.scope_names@;
                let pushed = self.current_scope.clone();
                proof {
                    lemma_stack_view_push(sn0, pushed);
                }
                self.scope_names.push(pushed);
                self.current_scope = block_scope_str;
                let ghost st1 = self@;
                proof {
                    assert(st1.stack =~= st0.stack.push(st0.cur));
                    assert(st1 =~~= (SemaV {
                        prog: st0.prog,
                        scopes: st0.scopes.insert(
                            bname,
                            TableV { symbols: Map::empty(), parent: Some(st0.cur) },
                        ),
                        cur: bname,
                        stack: st0.stack.push(st0.cur),
                    }));
                    lemma_collect_stmts_stack(st1, stmt@->Block_0.body);
                    lemma_stmts_view_index(block.body@);
                    assert(stmts_view(block.body@).subrange(0, block.body@.len() as int)
                        =~= stmt@->Block_0.body);
                }
                match self.collect_stmts(&block.body, 0) {
                    Ok(_) => {},
                    Err(e) => {
                        return Err(e);
                    },
                }
                let ghost st2 = self@;
                let ghost sn2 = self.scope_names@;
                proof {
                    lemma_stack_view_props(sn2);
                    assert(st2.stack == st1.stack);
                    assert(sn2.len() > 0);
                }
                match self.scope_names.pop() {
                    Some(s) => {
                        self.current_scope = s;
                    },
                    None => {},
                }
                proof {
                    lemma_stack_view_props(sn2);
                    assert(self@ =~~= (SemaV {
                        prog: st2.prog,
                        scopes: st2.scopes,
                        cur: st2.stack.last(),
                        stack: st2.stack.drop_last(),
                    }));
                }
                Ok(())
            },
            _ => Ok(()),
        }
    }

    /// Pass 1 for the statements of one block, from index `i` on.
    fn collect_stmts(&mut self, stmts: &Vec<StatementType>, i: usize) -> (r: Result<
        (),
        CompileError,
    >)
        requires
            old(self).wf(),
            i <= stmts.len(),
        ensures
            final(self).wf(),
            match r {
                Ok(_) => sp_collect_stmts(
                    old(self)@,
                    stmts_view(stmts@).subrange(i as int, stmts@.len() as int),
                ) == Ok::<SemaV, ErrV>(final(self)@),
                Err(e) => sp_collect_stmts(
                    old(self)@,
                    stmts_view(stmts@).subrange(i as int, stmts@.len() as int),
                ) == Err::<SemaV, ErrV>(e@),
            },
        decreases *stmts, stmts.len() - i,
    {
        let ghost st0 = self@;
        let ghost items = stmts_view(stmts@).subrange(i as int, stmts@.len() as int);
        proof {
            lemma_stmts_view_index(stmts@);
        }
        if i == stmts.len() {
            proof {
                assert(items.len() == 0);
            }
            return Ok(());
        }
        proof {
            assert(items[0] == stmt_view(stmts@[i as int]));
        }
        match self.collect_symbols(&stmts[i]) {
            Ok(_) => {},
            Err(e) => {
                return Err(e);
            },
        }
        let ghost st1 = self@;
        let r = self.collect_stmts(stmts, i + 1);
        proof {
            assert(items.drop_first() =~= stmts_view(stmts@).subrange(
                i + 1 as int,
                stmts@.len() as int,
            ));
        }
        r
    }

    /// Pass 1 over the whole program.
    pub fn first_pass(&mut self) -> (r: Result<(), CompileError>)
        requires
            old(self).wf(),
        ensures
            final(self).wf(),
            match r {
                Ok(_) => sp_collect_stmts(old(self)@, old(self)@.prog) == Ok::<SemaV, ErrV>(
                    final(self)@,
                ),
                Err(e) => sp_collect_stmts(old(self)@, old(self)@.prog) == Err::<SemaV, ErrV>(e@),
            },
    {
        let ghost st0 = self@;
        let prog = self.ast.clone();
        proof {
            assert(prog@.body == st0.prog);
            lemma_stmts_view_index(prog.body@);
            assert(stmts_view(prog.body@).subrange(0, prog.body@.len() as int) =~= st0.prog);
            lemma_collect_stmts_stack(st0, st0.prog);
        }
        self.collect_stmts(&prog.body, 0)
    }

    /// The type an expression evaluates to, for return-type checking.
    pub fn evaluate_expr_to_type(&self, expr: &ExprType) -> (r: Result<TypeSpec, CompileError>)
        ensures
            match r {
                Ok(t) => sp_eval_type(expr@) == Ok::<TypeSpec, ErrV>(t),
                Err(e) => sp_eval_type(expr@) == Err::<TypeSpec, ErrV>(e@),
            },
        decreases *expr,
    {
        match expr {
            ExprType::NumericLiteral(_) => Ok(TypeSpec::Int),
            ExprType::StringLiteral(_) => Ok(TypeSpec::String),
            ExprType::Binary(left, op, right) => {
                let left_type = self.evaluate_expr_to_type(&**left)?;
                let right_type = self.evaluate_expr_to_type(&**right)?;
                if left_type != right_type {
                    return Err(
                        CompileError::InvalidOperands {
                            left: left_type,
                            right: right_type,
                            op: op.clone(),
                        },
                    );
                }
                Ok(left_type)
            },
            _ => Err(CompileError::UnhandledExprType),
        }
    }

    /// The return types found among the direct statements of a function
    /// body, which must be a block.
    pub fn get_return_types_in_block(&self, body: &StatementType) -> (r: Result<
        Vec<TypeSpec>,
        CompileError,
    >)
        ensures
            match r {
                Ok(ts) => sp_return_types(body@) == Ok::<Seq<TypeSpec>, ErrV>(ts@),
                Err(e) => sp_return_types(body@) == Err::<Seq<TypeSpec>, ErrV>(e@),
            },
    {
        match body {
            StatementType::Block(block) => {
                let mut out: Vec<TypeSpec> = Vec::new();
                match self.returns_from(&block.body, 0, &mut out) {
                    Err(e) => {
                        proof {
                            lemma_stmts_view_index(block.body@);
                            assert(stmts_view(block.body@).subrange(
                                0,
                                block.body@.len() as int,
                            ) =~= stmts_view(block.body@));
                        }
                        Err(e)
                    },
                    Ok(_) => {
                        proof {
                            lemma_stmts_view_index(block.body@);
                            assert(stmts_view(block.body@).subrange(
                                0,
                                block.body@.len() as int,
                            ) =~= stmts_view(block.body@));
                            assert(out@ =~= sp_returns_of(stmts_view(block.body@))->Ok_0);
                        }
                        Ok(out)
                    },
                }
            },
            _ => Err(CompileError::UnhandledFunctionBody),
        }
    }

    /// Collects return types from `stmts[i..]` into `out`.
    fn returns_from(&self, stmts: &Vec<StatementType>, i: usize, out: &mut Vec<TypeSpec>) -> (r:
        Result<(), CompileError>)
        requires
            i <= stmts.len(),
        ensures
            match r {
                Ok(_) => sp_returns_of(stmts_view(stmts@).subrange(i as int, stmts@.len() as int))
                    matches Ok(ts) && final(out)@ == old(out)@ + ts,
                Err(e) => sp_returns_of(
                    stmts_view(stmts@).subrange(i as int, stmts@.len() as int),
                ) == Err::<Seq<TypeSpec>, ErrV>(e@),
            },
        decreases stmts.len() - i,
    {
        let ghost items = stmts_view(stmts@).subrange(i as int, stmts@.len() as int);
        proof {
            lemma_stmts_view_index(stmts@);
        }
        if i == stmts.len() {
            proof {
                assert(items.len() == 0);
                assert(out@ =~= old(out)@ + Seq::<TypeSpec>::empty());
            }
            return Ok(());
        }
        proof {
            assert(items[0] == stmt_view(stmts@[i as int]));
            assert(items.drop_first() =~= stmts_view(stmts@).subrange(
                i + 1 as int,
                stmts@.len() as int,
            ));
        }
        match &stmts[i] {
            StatementType::Return(e) => {
                let t = self.evaluate_expr_to_type(e)?;
                out.push(t);
                let r = self.returns_from(stmts, i + 1, out);
                proof {
                    if r is Ok {
                        let ts = sp_returns_of(items.drop_first())->Ok_0;
                        assert(out@ =~= old(out)@ + (seq![t] + ts));
                    }
                }
                r
            },
            _ => self.returns_from(stmts, i + 1, out),
        }
    }

    /// Pass 2 for one function: its declared return type must match every
    /// return in its body block, then the body is validated.
    pub fn validate_func(&self, func: &FunctionDeclerationStatement) -> (r: Result<
        (),
        CompileError,
    >)
        requires
            self.wf(),
        ensures
            match r {
                Ok(_) => sp_validate_func(self@.scopes, self@.cur, func@) == Ok::<(), ErrV>(()),
                Err(e) => sp_validate_func(self@.scopes, self@.cur, func@) == Err::<(), ErrV>(e@),
            },
        decreases *func, 0int,
    {
        proof {
            assert(func@ == (FuncV {
                name: func.name@,
                return_type: func.return_type,
                body: func.body@,
            }));
        }
        let return_type_expected = func.return_type();
        let body = &func.body;
        let return_type_actual = self.get_return_types_in_block(body)?;
        let ghost actuals = return_type_actual@;
        proof {
            assert(actuals.subrange(0, actuals.len() as int) =~= actuals);
        }
        let mut i: usize = 0;
        while i < return_type_actual.len()
            invariant
                i <= return_type_actual.len(),
                actuals == return_type_actual@,
                return_type_expected == func@.return_type,
                sp_return_types(func@.body) == Ok::<Seq<TypeSpec>, ErrV>(actuals),
                sp_check_returns(func@.return_type, actuals) == sp_check_returns(
                    func@.return_type,
                    actuals.subrange(i as int, actuals.len() as int),
                ),
            decreases return_type_actual.len() - i,
        {
            let actual_type = return_type_actual[i];
            proof {
                assert(actuals.subrange(i as int, actuals.len() as int)[0] == actuals[i as int]);
                assert(actuals.subrange(i as int, actuals.len() as int).drop_first()
                    =~= actuals.subrange(i + 1 as int, actuals.len() as int));
            }
            if return_type_expected != actual_type {
                return Err(
                    CompileError::UnexpectedReturnType {
                        declared: return_type_expected,
                        actual: actual_type,
                    },
                );
            }
            i += 1;
        }
        proof {
            assert(actuals.subrange(actuals.len() as int, actuals.len() as int).len() == 0);
        }
        self.validate_stmt(&func.body)
    }

    /// Pass 2 for one expression: identifiers must resolve from the active
    /// scope, calls validate callee and arguments, member accesses must
    /// name a namespace scope and a property inside it.
    pub fn validate_expr(&self, expr: &ExprType) -> (r: Result<(), CompileError>)
        requires
            self.wf(),
        ensures
            match r {
                Ok(_) => sp_validate_expr(self@.scopes, self@.cur, expr@) == Ok::<(), ErrV>(()),
                Err(e) => sp_validate_expr(self@.scopes, self@.cur, expr@) == Err::<(), ErrV>(e@),
            },
        decreases *expr, 1int,
    {
        match expr {
            ExprType::Identifier(identifier) => {
                if !self.contains_name(self.current_scope.clone(), identifier.get_data()) {
                    return Err(
                        CompileError::UndeclaredIdentifier { name: identifier.get_data() },
                    );
                }
                Ok(())
            },
            ExprType::Call(callee, args) => {
                proof {
                    assert(expr@ == ExprV::Call(Box::new((&**callee)@), exprs_view(args@)));
                    lemma_exprs_view_index(args@);
                    assert(exprs_view(args@).subrange(0, args@.len() as int) =~= exprs_view(
                        args@,
                    ));
                }
                self.validate_expr(&**callee)?;
                self.validate_exprs(args, 0)
            },
            ExprType::MemberAccess(member, property) => {
                proof {
                    assert(expr@ matches ExprV::MemberAccess(m, p) && *m == (&**member)@ && *p
                        == (&**property)@);
                }
                self.validate_expr(&**member)?;
                let member_ident = match &**member {
                    ExprType::Identifier(t) => {
                        proof {
                            assert((&**member)@ == ExprV::Identifier(t@));
                        }
                        t
                    },
                    _ => {
                        proof {
                            assert(!((&**member)@ is Identifier));
                        }
                        return Err(CompileError::ImproperMemberAccess);
                    },
                };
                let property_ident = match &**property {
                    ExprType::Identifier(t) => {
                        proof {
                            assert((&**property)@ == ExprV::Identifier(t@));
                        }
                        t
                    },
                    _ => {
                        proof {
                            assert(!((&**property)@ is Identifier));
                        }
                        return Err(CompileError::ImproperMemberAccess);
                    },
                };
                let symbol = self.get_symbol(member_ident.get_data())?;
                match symbol {
                    SymbolKind::Namespace => {},
                    _ => {
                        return Err(
                            CompileError::NotANamespace { name: member_ident.get_data() },
                        );
                    },
                }
                if !self.contains_name(member_ident.get_data(), property_ident.get_data()) {
                    return Err(
                        CompileError::NoProperty {
                            scope: member_ident.get_data(),
                            name: property_ident.get_data(),
                        },
                    );
                }
                Ok(())
            },
            _ => Err(CompileError::UnhandledValidateExpr),
        }
    }

    /// Pass 2 for the arguments of a call, from index `i` on.
    fn validate_exprs(&self, es: &Vec<ExprType>, i: usize) -> (r: Result<(), CompileError>)
        requires
            self.wf(),
            i <= es.len(),
        ensures
            match r {
                Ok(_) => sp_validate_exprs(
                    self@.scopes,
                    self@.cur,
                    exprs_view(es@).subrange(i as int, es@.len() as int),
                ) == Ok::<(), ErrV>(()),
                Err(e) => sp_validate_exprs(
                    self@.scopes,
                    self@.cur,
                    exprs_view(es@).subrange(i as int, es@.len() as int),
                ) == Err::<(), ErrV>(e@),
            },
        decreases *es, es.len() - i,
    {
        let ghost items = exprs_view(es@).subrange(i as int, es@.len() as int);
        proof {
            lemma_exprs_view_index(es@);
        }
        if i == es.len() {
            return Ok(());
        }
        proof {
            assert(items[0] == expr_view(es@[i as int]));
            assert(items.drop_first() =~= exprs_view(es@).subrange(
                i + 1 as int,
                es@.len() as int,
            ));
        }
        self.validate_expr(&es[i])?;
        self.validate_exprs(es, i + 1)
    }

    /// Pass 2 for one statement. A return statement contributes nothing
    /// here: its expression was already examined by the return-type scan.
    pub fn validate_stmt(&self, stmt: &StatementType) -> (r: Result<(), CompileError>)
        requires
            self.wf(),
        ensures
            match r {
                Ok(_) => sp_validate_stmt(self@.scopes, self@.cur, stmt@) == Ok::<(), ErrV>(()),
                Err(e) => sp_validate_stmt(self@.scopes, self@.cur, stmt@) == Err::<(), ErrV>(e@),
            },
        decreases *stmt, 1int,
    {
        match stmt {
            StatementType::Decleration(d) => match d {
                DeclerationType::Function(func) => self.validate_func(&**func),
                DeclerationType::Invalid => Err(CompileError::UnhandledValidateStmt),
            },
            StatementType::Block(block) => {
                proof {
                    lemma_stmts_view_index(block.body@);
                    assert(stmts_view(block.body@).subrange(0, block.body@.len() as int)
                        =~= stmts_view(block.body@));
                }
                self.validate_stmts(&block.body, 0)
            },
            StatementType::Expr(e) => self.validate_expr(e),
            StatementType::Return(_) => Ok(()),
            _ => Err(CompileError::UnhandledValidateStmt),
        }
    }

    /// Pass 2 for a statement list, from index `i` on.
    fn validate_stmts(&self, ss: &Vec<StatementType>, i: usize) -> (r: Result<(), CompileError>)
        requires
            self.wf(),
            i <= ss.len(),
        ensures
            match r {
                Ok(_) => sp_validate_stmts(
                    self@.scopes,
                    self@.cur,
                    stmts_view(ss@).subrange(i as int, ss@.len() as int),
                ) == Ok::<(), ErrV>(()),
                Err(e) => sp_validate_stmts(
                    self@.scopes,
                    self@.cur,
                    stmts_view(ss@).subrange(i as int, ss@.len() as int),
                ) == Err::<(), ErrV>(e@),
            },
        decreases *ss, ss.len() - i,
    {
        let ghost items = stmts_view(ss@).subrange(i as int, ss@.len() as int);
        proof {
            lemma_stmts_view_index(ss@);
        }
        if i == ss.len() {
            return Ok(());
        }
        proof {
            assert(items[0] == stmt_view(ss@[i as int]));
            assert(items.drop_first() =~= stmts_view(ss@).subrange(i + 1 as int, ss@.len() as int));
        }
        self.validate_stmt(&ss[i])?;
        self.validate_stmts(ss, i + 1)
    }

    /// Pass 2 over the whole program.
    pub fn second_pass(&self) -> (r: Result<(), CompileError>)
        requires
            self.wf(),
        ensures
            match r {
                Ok(_) => sp_validate_stmts(self@.scopes, self@.cur, self@.prog) == Ok::<
                    (),
                    ErrV,
                >(()),
                Err(e) => sp_validate_stmts(self@.scopes, self@.cur, self@.prog) == Err::<
                    (),
                    ErrV,
                >(e@),
            },
    {
        proof {
            lemma_stmts_view_index(self.ast.body@);
            assert(stmts_view(self.ast.body@).subrange(0, self.ast.body@.len() as int)
                =~= self@.prog);
        }
        self.validate_stmts(&self.ast.body, 0)
    }

    /// Both passes, in order; the first diagnostic of either pass stops the
    /// run.
    pub fn check(&mut self) -> (r: Result<(), CompileError>)
        requires
            old(self).wf(),
            old(self)@ == initial_sema(old(self)@.prog),
        ensures
            final(self).wf(),
            match r {
                Ok(_) => sp_check(old(self)@.prog) == Ok::<SemaV, ErrV>(final(self)@),
                Err(e) => sp_check(old(self)@.prog) == Err::<SemaV, ErrV>(e@),
            },
    {
        let ghost st0 = self@;
        proof {
            lemma_collect_stmts_stack(st0, st0.prog);
        }
        match self.first_pass() {
            Ok(_) => {},
            Err(e) => {
                return Err(e);
            },
        }
        proof {
            assert(self@.prog == st0.prog);
        }
        match self.second_pass() {
            Ok(_) => {},
            Err(e) => {
                return Err(e);
            },
        }
        Ok(())
    }
}


} // verus!
