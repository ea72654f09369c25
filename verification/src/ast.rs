use vstd::prelude::*;
use crate::token::{TokV, Token};

verus! {

broadcast use vstd::seq::group_seq_axioms;

/// A type specifier, compared by value; there are no structural or alias
/// types.
#[derive(Debug, Clone, Copy, PartialEq, Eq, Structural)]
pub enum TypeSpec {
    Invalid,
    Int,
    String,
}

/// The name a type specifier shows in diagnostics.
pub open spec fn type_spec_name(t: TypeSpec) -> Seq<char> {
    match t {
        TypeSpec::Invalid => "Invalid"@,
        TypeSpec::Int => "Int"@,
        TypeSpec::String => "String"@,
    }
}

// ---------------------------------------------------------------------------
// The mathematical model of the syntax tree. Token text is a `Seq<char>`,
// statement lists are `Seq`s; block ids are unbounded integers.
// ---------------------------------------------------------------------------

pub enum ExprV {
    Invalid,
    Identifier(TokV),
    StringLiteral(TokV),
    NumericLiteral(TokV),
    Binary(Box<ExprV>, TokV, Box<ExprV>),
    MemberAccess(Box<ExprV>, Box<ExprV>),
    Call(Box<ExprV>, Seq<ExprV>),
    Cast(Box<ExprV>, TypeSpec),
}

pub enum StmtV {
    Invalid,
    Decleration(DeclV),
    Expr(ExprV),
    Block(BlockV),
    Return(ExprV),
}

pub enum DeclV {
    Invalid,
    Function(Box<FuncV>),
}

pub struct FuncV {
    pub name: TokV,
    pub return_type: TypeSpec,
    pub body: StmtV,
}

pub struct BlockV {
    pub body: Seq<StmtV>,
    pub id: int,
}

pub struct AstV {
    pub body: Seq<StmtV>,
}

// ---------------------------------------------------------------------------
// The executable syntax tree.
// ---------------------------------------------------------------------------

/// An expression, as produced by the precedence-climbing expression parser.
#[derive(Debug)]
pub enum ExprType {
    Invalid,
    Identifier(Token),
    StringLiteral(Token),
    NumericLiteral(Token),
    Binary(Box<ExprType>, Token, Box<ExprType>),
    MemberAccess(Box<ExprType>, Box<ExprType>),
    Call(Box<ExprType>, Vec<ExprType>),
    Cast(Box<ExprType>, TypeSpec),
}

/// A statement: the unit the parser emits at top level and inside blocks.
#[derive(Debug)]
pub enum StatementType {
    Invalid,
    Decleration(DeclerationType),
    Expr(ExprType),
    Block(BlockStatement),
    Return(ExprType),
}

/// A declaration; functions are the only kind there is.
#[derive(Debug)]
pub enum DeclerationType {
    Invalid,
    Function(Box<FunctionDeclerationStatement>),
}

/// A function declaration: name, declared return type, and a body statement
/// (normally a block).
#[derive(Debug)]
pub struct FunctionDeclerationStatement {
    pub name: Token,
    pub return_type: TypeSpec,
    pub body: StatementType,
}

/// A braced sequence of statements. The id is unique per parse and serves
/// only to mint a scope name for the block.
#[derive(Debug)]
pub struct BlockStatement {
    pub body: Vec<StatementType>,
    pub id: usize,
}

/// The whole program: the ordered top-level statements.
#[derive(Debug)]
pub struct Ast {
    pub body: Vec<StatementType>,
}

// ---------------------------------------------------------------------------
// Views: each executable node maps to its mathematical model.
// ---------------------------------------------------------------------------

pub open spec fn expr_view(e: ExprType) -> ExprV
    decreases e,
{
    match e {
        ExprType::Invalid => ExprV::Invalid,
        ExprType::Identifier(t) => ExprV::Identifier(t@),
        ExprType::StringLiteral(t) => ExprV::StringLiteral(t@),
        ExprType::NumericLiteral(t) => ExprV::NumericLiteral(t@),
        ExprType::Binary(l, op, r) => ExprV::Binary(
            Box::new(expr_view(*l)),
            op@,
            Box::new(expr_view(*r)),
        ),
        ExprType::MemberAccess(m, p) => ExprV::MemberAccess(
            Box::new(expr_view(*m)),
            Box::new(expr_view(*p)),
        ),
        ExprType::Call(f, args) => ExprV::Call(Box::new(expr_view(*f)), exprs_view(args@)),
        ExprType::Cast(e0, t) => ExprV::Cast(Box::new(expr_view(*e0)), t),
    }
}

pub open spec fn exprs_view(es: Seq<ExprType>) -> Seq<ExprV>
    decreases es,
{
    if es.len() == 0 {
        Seq::empty()
    } else {
        seq![expr_view(es[0])] + exprs_view(es.drop_first())
    }
}

pub open spec fn stmt_view(s: StatementType) -> StmtV
    decreases s,
{
    match s {
        StatementType::Invalid => StmtV::Invalid,
        StatementType::Decleration(d) => StmtV::Decleration(decl_view(d)),
        StatementType::Expr(e) => StmtV::Expr(expr_view(e)),
        StatementType::Block(b) => StmtV::Block(block_view(b)),
        StatementType::Return(e) => StmtV::Return(expr_view(e)),
    }
}

pub open spec fn stmts_view(ss: Seq<StatementType>) -> Seq<StmtV>
    decreases ss,
{
    if ss.len() == 0 {
        Seq::empty()
    } else {
        seq![stmt_view(ss[0])] + stmts_view(ss.drop_first())
    }
}

pub open spec fn decl_view(d: DeclerationType) -> DeclV
    decreases d,
{
    match d {
        DeclerationType::Invalid => DeclV::Invalid,
        DeclerationType::Function(f) => DeclV::Function(Box::new(func_view(*f))),
    }
}

pub open spec fn func_view(f: FunctionDeclerationStatement) -> FuncV
    decreases f,
{
    FuncV { name: f.name@, return_type: f.return_type, body: stmt_view(f.body) }
}

pub open spec fn block_view(b: BlockStatement) -> BlockV
    decreases b,
{
    BlockV { body: stmts_view(b.body@), id: b.id as int }
}

impl View for ExprType {
    type V = ExprV;

    open spec fn view(&self) -> ExprV {
        expr_view(*self)
    }
}

impl View for StatementType {
    type V = StmtV;

    open spec fn view(&self) -> StmtV {
        stmt_view(*self)
    }
}

impl View for DeclerationType {
    type V = DeclV;

    open spec fn view(&self) -> DeclV {
        decl_view(*self)
    }
}

impl View for FunctionDeclerationStatement {
    type V = FuncV;

    open spec fn view(&self) -> FuncV {
        func_view(*self)
    }
}

impl View for BlockStatement {
    type V = BlockV;

    open spec fn view(&self) -> BlockV {
        block_view(*self)
    }
}

impl View for Ast {
    type V = AstV;

    open spec fn view(&self) -> AstV {
        AstV { body: stmts_view(self.body@) }
    }
}

/// `stmts_view` distributes over indexing and push.
pub proof fn lemma_stmts_view_index(ss: Seq<StatementType>)
    ensures
        stmts_view(ss).len() == ss.len(),
        forall|i: int| 0 <= i < ss.len() ==> stmts_view(ss)[i] == stmt_view(ss[i]),
    decreases ss,
{
    if ss.len() > 0 {
        lemma_stmts_view_index(ss.drop_first());
    }
}

pub proof fn lemma_stmts_view_push(ss: Seq<StatementType>, s: StatementType)
    ensures
        stmts_view(ss.push(s)) == stmts_view(ss) + seq![stmt_view(s)],
    decreases ss,
{
    if ss.len() == 0 {
        assert(ss.push(s).drop_first() =~= ss);
        assert(stmts_view(ss.push(s)) =~= stmts_view(ss) + seq![stmt_view(s)]);
    } else {
        assert(ss.push(s).drop_first() =~= ss.drop_first().push(s));
        lemma_stmts_view_push(ss.drop_first(), s);
        assert(stmts_view(ss.push(s)) =~= stmts_view(ss) + seq![stmt_view(s)]);
    }
}

/// `exprs_view` distributes over indexing and push.
pub proof fn lemma_exprs_view_index(es: Seq<ExprType>)
    ensures
        exprs_view(es).len() == es.len(),
        forall|i: int| 0 <= i < es.len() ==> exprs_view(es)[i] == expr_view(es[i]),
    decreases es,
{
    if es.len() > 0 {
        lemma_exprs_view_index(es.drop_first());
    }
}

pub proof fn lemma_exprs_view_push(es: Seq<ExprType>, e: ExprType)
    ensures
        exprs_view(es.push(e)) == exprs_view(es) + seq![expr_view(e)],
    decreases es,
{
    if es.len() == 0 {
        assert(es.push(e).drop_first() =~= es);
        assert(exprs_view(es.push(e)) =~= exprs_view(es) + seq![expr_view(e)]);
    } else {
        assert(es.push(e).drop_first() =~= es.drop_first().push(e));
        lemma_exprs_view_push(es.drop_first(), e);
        assert(exprs_view(es.push(e)) =~= exprs_view(es) + seq![expr_view(e)]);
    }
}

// ---------------------------------------------------------------------------
// Cloning; every clone keeps the view.
// ---------------------------------------------------------------------------

impl Clone for ExprType {
    fn clone(&self) -> (r: Self)
        ensures
            r@ == self@,
        decreases *self,
    {
        match self {
            ExprType::Invalid => ExprType::Invalid,
            ExprType::Identifier(t) => ExprType::Identifier(t.clone()),
            ExprType::StringLiteral(t) => ExprType::StringLiteral(t.clone()),
            ExprType::NumericLiteral(t) => ExprType::NumericLiteral(t.clone()),
            ExprType::Binary(l, op, r) => ExprType::Binary(
                Box::new((**l).clone()),
                op.clone(),
                Box::new((**r).clone()),
            ),
            ExprType::MemberAccess(m, p) => ExprType::MemberAccess(
                Box::new((**m).clone()),
                Box::new((**p).clone()),
            ),
            ExprType::Call(f, args) => ExprType::Call(Box::new((**f).clone()), clone_exprs(args)),
            ExprType::Cast(e0, t) => ExprType::Cast(Box::new((**e0).clone()), *t),
        }
    }
}

fn clone_exprs(es: &Vec<ExprType>) -> (r: Vec<ExprType>)
    ensures
        exprs_view(r@) == exprs_view(es@),
    decreases *es,
{
    let mut r: Vec<ExprType> = Vec::new();
    let mut i: usize = 0;
    proof {
        lemma_exprs_view_index(es@);
    }
    while i < es.len()
        invariant
            i <= es.len(),
            exprs_view(r@).len() == i,
            forall|j: int| 0 <= j < i ==> exprs_view(r@)[j] == expr_view(es@[j]),
            exprs_view(es@).len() == es@.len(),
            forall|j: int| 0 <= j < es@.len() ==> exprs_view(es@)[j] == expr_view(es@[j]),
        decreases es.len() - i,
    {
        let e = es[i].clone();
        proof {
            lemma_exprs_view_push(r@, e);
        }
        r.push(e);
        i += 1;
        proof {
            lemma_exprs_view_index(r@);
        }
    }
    proof {
        assert(exprs_view(r@) =~= exprs_view(es@));
    }
    r
}

impl Clone for StatementType {
    fn clone(&self) -> (r: Self)
        ensures
            r@ == self@,
        decreases *self,
    {
        match self {
            StatementType::Invalid => StatementType::Invalid,
            StatementType::Decleration(d) => StatementType::Decleration(d.clone()),
            StatementType::Expr(e) => StatementType::Expr(e.clone()),
            StatementType::Block(b) => StatementType::Block(b.clone()),
            StatementType::Return(e) => StatementType::Return(e.clone()),
        }
    }
}

fn clone_stmts(ss: &Vec<StatementType>) -> (r: Vec<StatementType>)
    ensures
        stmts_view(r@) == stmts_view(ss@),
    decreases *ss,
{
    let mut r: Vec<StatementType> = Vec::new();
    let mut i: usize = 0;
    proof {
        lemma_stmts_view_index(ss@);
    }
    while i < ss.len()
        invariant
            i <= ss.len(),
            stmts_view(r@).len() == i,
            forall|j: int| 0 <= j < i ==> stmts_view(r@)[j] == stmt_view(ss@[j]),
            stmts_view(ss@).len() == ss@.len(),
            forall|j: int| 0 <= j < ss@.len() ==> stmts_view(ss@)[j] == stmt_view(ss@[j]),
        decreases ss.len() - i,
    {
        let s = ss[i].clone();
        proof {
            lemma_stmts_view_push(r@, s);
        }
        r.push(s);
        i += 1;
        proof {
            lemma_stmts_view_index(r@);
        }
    }
    proof {
        assert(stmts_view(r@) =~= stmts_view(ss@));
    }
    r
}

impl Clone for DeclerationType {
    fn clone(&self) -> (r: Self)
        ensures
            r@ == self@,
        decreases *self,
    {
        match self {
            DeclerationType::Invalid => DeclerationType::Invalid,
            DeclerationType::Function(f) => DeclerationType::Function(Box::new((**f).clone())),
        }
    }
}

impl Clone for FunctionDeclerationStatement {
    fn clone(&self) -> (r: Self)
        ensures
            r@ == self@,
        decreases *self,
    {
        FunctionDeclerationStatement {
            name: self.name.clone(),
            return_type: self.return_type,
            body: self.body.clone(),
        }
    }
}

impl Clone for BlockStatement {
    fn clone(&self) -> (r: Self)
        ensures
            r@ == self@,
        decreases *self,
    {
        BlockStatement { body: clone_stmts(&self.body), id: self.id }
    }
}

impl Clone for Ast {
    fn clone(&self) -> (r: Self)
        ensures
            r@ == self@,
    {
        Ast { body: clone_stmts(&self.body) }
    }
}

// ---------------------------------------------------------------------------
// Constructors and accessors.
// ---------------------------------------------------------------------------

impl Ast {
    pub fn new(body: Vec<StatementType>) -> (r: Self)
        ensures
            r@.body == stmts_view(body@),
    {
        Ast { body }
    }
}

impl FunctionDeclerationStatement {
    pub fn new(name: Token, return_type: TypeSpec, body: StatementType) -> (r: Self)
        ensures
            r@ == (FuncV { name: name@, return_type, body: body@ }),
    {
        FunctionDeclerationStatement { name, return_type, body }
    }

    pub fn name(&self) -> (r: Token)
        ensures
            r@ == self@.name,
    {
        self.name.clone()
    }

    pub fn return_type(&self) -> (r: TypeSpec)
        ensures
            r == self@.return_type,
    {
        self.return_type
    }

    pub fn body(&self) -> (r: StatementType)
        ensures
            r@ == self@.body,
    {
        self.body.clone()
    }
}

impl BlockStatement {
    /// The parser owns the id counter; it passes each new block its id.
    pub fn new(body: Vec<StatementType>, id: usize) -> (r: Self)
        ensures
            r@ == (BlockV { body: stmts_view(body@), id: id as int }),
    {
        BlockStatement { body, id }
    }

    pub fn get_id(&self) -> (r: usize)
        ensures
            r == self@.id,
    {
        self.id
    }
}

} // verus!
