//! The syntax tree of the source language, and its mathematical view.
use vstd::prelude::*;

verus! {

#[derive(Debug)]
pub struct Program {
    pub functions: Vec<Function>,
    pub structs: Vec<StructDef>,
    pub traits: Vec<TraitDef>,
    pub impls: Vec<ImplDef>,
}

#[derive(Debug)]
pub struct Function {
    pub name: String,
    pub params: Vec<Param>,
    pub body: Vec<Stmt>,
    pub return_type: Option<String>,
}

#[derive(Debug)]
pub struct Param {
    pub name: String,
    pub ty: String,
}

#[derive(Debug)]
pub enum Expr {
    Ident(String),
    StrLiteral(Vec<u8>),
    IntLiteral(i64),
    BoolLiteral(bool),
    Call { name: String, args: Vec<Expr> },
    Binary { left: Box<Expr>, op: BinOp, right: Box<Expr> },
    Loop(LoopExpr),
    Match(MatchExpr),
    Block(Block),
}

#[derive(Debug, Clone, Copy, PartialEq, Eq)]
pub enum BinOp {
    Add,
    Sub,
    Mul,
    Div,
    Mod,
    Eq,
    Ne,
    Lt,
    Gt,
    Le,
    Ge,
}

#[derive(Debug)]
pub enum Stmt {
    Call { name: String, args: Vec<Expr> },
    ReactorStdout { arg: Expr },
    Let { name: String, ty: String, expr: Expr },
    Assign { name: String, expr: Expr },
    Break { label: Option<String>, expr: Expr },
    ExprStmt(Expr),
}

#[derive(Debug)]
pub struct Block {
    pub stmts: Vec<Stmt>,
    pub tail: Option<Box<Expr>>,
}

#[derive(Debug)]
pub struct LoopExpr {
    pub label: Option<String>,
    pub body: Block,
}

#[derive(Debug)]
pub struct MatchExpr {
    pub scrutinee: Box<Expr>,
    pub arms: Vec<MatchArm>,
}

#[derive(Debug)]
pub struct MatchArm {
    pub pattern: MatchPattern,
    pub body: Block,
}

#[derive(Debug, Clone, Copy, PartialEq, Eq)]
pub enum MatchPattern {
    LessThan(i64),
    LessEqual(i64),
    Equal(i64),
    NotEqual(i64),
    GreaterThan(i64),
    GreaterEqual(i64),
    Wildcard,
}

#[derive(Debug)]
pub struct StructDef {
    pub name: String,
    pub fields: Vec<StructField>,
}

#[derive(Debug)]
pub struct StructField {
    pub name: String,
    pub ty: String,
}

#[derive(Debug)]
pub struct TraitDef {
    pub name: String,
    pub methods: Vec<TraitMethod>,
}

#[derive(Debug)]
pub struct TraitMethod {
    pub name: String,
    pub params: Vec<Param>,
    pub return_type: Option<String>,
}

#[derive(Debug)]
pub struct ImplDef {
    pub name: String,
    pub methods: Vec<Function>,
}

// ---------------------------------------------------------------------------
// The view of the tree: texts as char sequences, lists as sequences.
// ---------------------------------------------------------------------------
pub struct SParam {
    pub name: Seq<char>,
    pub ty: Seq<char>,
}

pub enum SExpr {
    Ident(Seq<char>),
    StrLiteral(Seq<u8>),
    IntLiteral(i64),
    BoolLiteral(bool),
    Call { name: Seq<char>, args: Seq<SExpr> },
    Binary { left: Box<SExpr>, op: BinOp, right: Box<SExpr> },
    Loop(SLoop),
    Match(SMatch),
    Block(SBlock),
}

pub enum SStmt {
    Call { name: Seq<char>, args: Seq<SExpr> },
    ReactorStdout { arg: SExpr },
    Let { name: Seq<char>, ty: Seq<char>, expr: SExpr },
    Assign { name: Seq<char>, expr: SExpr },
    Break { label: Option<Seq<char>>, expr: SExpr },
    ExprStmt(SExpr),
}

pub struct SBlock {
    pub stmts: Seq<SStmt>,
    pub tail: Option<Box<SExpr>>,
}

pub struct SLoop {
    pub label: Option<Seq<char>>,
    pub body: SBlock,
}

pub struct SMatch {
    pub scrutinee: Box<SExpr>,
    pub arms: Seq<SArm>,
}

pub struct SArm {
    pub pattern: MatchPattern,
    pub body: SBlock,
}

pub struct SFunction {
    pub name: Seq<char>,
    pub params: Seq<SParam>,
    pub body: Seq<SStmt>,
    pub return_type: Option<Seq<char>>,
}

pub struct SField {
    pub name: Seq<char>,
    pub ty: Seq<char>,
}

pub struct SStructDef {
    pub name: Seq<char>,
    pub fields: Seq<SField>,
}

pub struct STraitMethod {
    pub name: Seq<char>,
    pub params: Seq<SParam>,
    pub return_type: Option<Seq<char>>,
}

pub struct STraitDef {
    pub name: Seq<char>,
    pub methods: Seq<STraitMethod>,
}

pub struct SImplDef {
    pub name: Seq<char>,
    pub methods: Seq<SFunction>,
}

pub struct SProgram {
    pub functions: Seq<SFunction>,
    pub structs: Seq<SStructDef>,
    pub traits: Seq<STraitDef>,
    pub impls: Seq<SImplDef>,
}

pub open spec fn opt_text(o: Option<String>) -> Option<Seq<char>> {
    match o {
        Some(s) => Some(s@),
        None => None,
    }
}

pub open spec fn view_expr(e: &Expr) -> SExpr
    decreases e,
{
    match e {
        Expr::Ident(s) => SExpr::Ident(s@),
        Expr::StrLiteral(b) => SExpr::StrLiteral(b@),
        Expr::IntLiteral(n) => SExpr::IntLiteral(*n),
        Expr::BoolLiteral(b) => SExpr::BoolLiteral(*b),
        Expr::Call { name, args } => SExpr::Call { name: name@, args: view_exprs(args@) },
        Expr::Binary { left, op, right } => SExpr::Binary {
            left: Box::new(view_expr(left)),
            op: *op,
            right: Box::new(view_expr(right)),
        },
        Expr::Loop(l) => SExpr::Loop(SLoop { label: opt_text(l.label), body: view_block(&l.body) }),
        Expr::Match(m) => SExpr::Match(
            SMatch { scrutinee: Box::new(view_expr(&m.scrutinee)), arms: view_arms(m.arms@) },
        ),
        Expr::Block(b) => SExpr::Block(view_block(b)),
    }
}

pub open spec fn view_exprs(s: Seq<Expr>) -> Seq<SExpr>
    decreases s,
{
    if s.len() == 0 {
        seq![]
    } else {
        view_exprs(s.drop_last()).push(view_expr(&s.last()))
    }
}

pub open spec fn view_stmt(s: &Stmt) -> SStmt
    decreases s,
{
    match s {
        Stmt::Call { name, args } => SStmt::Call { name: name@, args: view_exprs(args@) },
        Stmt::ReactorStdout { arg } => SStmt::ReactorStdout { arg: view_expr(arg) },
        Stmt::Let { name, ty, expr } => SStmt::Let { name: name@, ty: ty@, expr: view_expr(expr) },
        Stmt::Assign { name, expr } => SStmt::Assign { name: name@, expr: view_expr(expr) },
        Stmt::Break { label, expr } => SStmt::Break { label: opt_text(*label), expr: view_expr(expr) },
        Stmt::ExprStmt(e) => SStmt::ExprStmt(view_expr(e)),
    }
}

pub open spec fn view_stmts(s: Seq<Stmt>) -> Seq<SStmt>
    decreases s,
{
    if s.len() == 0 {
        seq![]
    } else {
        view_stmts(s.drop_last()).push(view_stmt(&s.last()))
    }
}

pub open spec fn view_block(b: &Block) -> SBlock
    decreases b,
{
    SBlock {
        stmts: view_stmts(b.stmts@),
        tail: match &b.tail {
            Some(t) => Some(Box::new(view_expr(t))),
            None => None,
        },
    }
}

pub open spec fn view_arm(a: &MatchArm) -> SArm
    decreases a,
{
    SArm { pattern: a.pattern, body: view_block(&a.body) }
}

pub open spec fn view_arms(s: Seq<MatchArm>) -> Seq<SArm>
    decreases s,
{
    if s.len() == 0 {
        seq![]
    } else {
        view_arms(s.drop_last()).push(view_arm(&s.last()))
    }
}

pub open spec fn view_params(s: Seq<Param>) -> Seq<SParam> {
    s.map_values(|p: Param| SParam { name: p.name@, ty: p.ty@ })
}

pub open spec fn view_function(f: &Function) -> SFunction {
    SFunction {
        name: f.name@,
        params: view_params(f.params@),
        body: view_stmts(f.body@),
        return_type: opt_text(f.return_type),
    }
}

pub open spec fn view_functions(s: Seq<Function>) -> Seq<SFunction> {
    s.map_values(|f: Function| view_function(&f))
}

pub open spec fn view_fields(s: Seq<StructField>) -> Seq<SField> {
    s.map_values(|f: StructField| SField { name: f.name@, ty: f.ty@ })
}

pub open spec fn view_struct(d: &StructDef) -> SStructDef {
    SStructDef { name: d.name@, fields: view_fields(d.fields@) }
}

pub open spec fn view_structs(s: Seq<StructDef>) -> Seq<SStructDef> {
    s.map_values(|d: StructDef| view_struct(&d))
}

pub open spec fn view_trait_method(m: &TraitMethod) -> STraitMethod {
    STraitMethod {
        name: m.name@,
        params: view_params(m.params@),
        return_type: opt_text(m.return_type),
    }
}

pub open spec fn view_trait_methods(s: Seq<TraitMethod>) -> Seq<STraitMethod> {
    s.map_values(|m: TraitMethod| view_trait_method(&m))
}

pub open spec fn view_trait(d: &TraitDef) -> STraitDef {
    STraitDef { name: d.name@, methods: view_trait_methods(d.methods@) }
}

pub open spec fn view_traits(s: Seq<TraitDef>) -> Seq<STraitDef> {
    s.map_values(|d: TraitDef| view_trait(&d))
}

pub open spec fn view_impl(d: &ImplDef) -> SImplDef {
    SImplDef { name: d.name@, methods: view_functions(d.methods@) }
}

pub open spec fn view_impls(s: Seq<ImplDef>) -> Seq<SImplDef> {
    s.map_values(|d: ImplDef| view_impl(&d))
}

pub open spec fn view_program(p: &Program) -> SProgram {
    SProgram {
        functions: view_functions(p.functions@),
        structs: view_structs(p.structs@),
        traits: view_traits(p.traits@),
        impls: view_impls(p.impls@),
    }
}

pub proof fn lemma_view_exprs_push(s: Seq<Expr>, e: Expr)
    ensures
        view_exprs(s.push(e)) == view_exprs(s).push(view_expr(&e)),
{
    assert(s.push(e).drop_last() =~= s);
}

pub proof fn lemma_view_exprs_index(s: Seq<Expr>)
    ensures
        view_exprs(s).len() == s.len(),
        forall|i: int| 0 <= i < s.len() ==> #[trigger] view_exprs(s)[i] == view_expr(&s[i]),
    decreases s.len(),
{
    if s.len() > 0 {
        lemma_view_exprs_index(s.drop_last());
        assert forall|i: int| 0 <= i < s.len() implies #[trigger] view_exprs(s)[i] == view_expr(
            &s[i],
        ) by {
            if i < s.len() - 1 {
                assert(s.drop_last()[i] == s[i]);
            }
        }
    }
}

pub proof fn lemma_view_stmts_push(s: Seq<Stmt>, st: Stmt)
    ensures
        view_stmts(s.push(st)) == view_stmts(s).push(view_stmt(&st)),
{
    assert(s.push(st).drop_last() =~= s);
}

pub proof fn lemma_view_arms_push(s: Seq<MatchArm>, a: MatchArm)
    ensures
        view_arms(s.push(a)) == view_arms(s).push(view_arm(&a)),
{
    assert(s.push(a).drop_last() =~= s);
}

pub proof fn lemma_view_stmts_index(s: Seq<Stmt>)
    ensures
        view_stmts(s).len() == s.len(),
        forall|i: int| 0 <= i < s.len() ==> #[trigger] view_stmts(s)[i] == view_stmt(&s[i]),
    decreases s.len(),
{
    if s.len() > 0 {
        lemma_view_stmts_index(s.drop_last());
        assert forall|i: int| 0 <= i < s.len() implies #[trigger] view_stmts(s)[i] == view_stmt(
            &s[i],
        ) by {
            if i < s.len() - 1 {
                assert(s.drop_last()[i] == s[i]);
            }
        }
    }
}

pub proof fn lemma_view_arms_index(s: Seq<MatchArm>)
    ensures
        view_arms(s).len() == s.len(),
        forall|i: int| 0 <= i < s.len() ==> #[trigger] view_arms(s)[i] == view_arm(&s[i]),
    decreases s.len(),
{
    if s.len() > 0 {
        lemma_view_arms_index(s.drop_last());
        assert forall|i: int| 0 <= i < s.len() implies #[trigger] view_arms(s)[i] == view_arm(
            &s[i],
        ) by {
            if i < s.len() - 1 {
                assert(s.drop_last()[i] == s[i]);
            }
        }
    }
}

} // verus!
