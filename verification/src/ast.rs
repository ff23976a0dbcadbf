//! The abstract syntax tree: a strict tree of owned nodes. Expressions are a
//! chain of binary-operator precedence levels, lowest precedence outermost:
//! assignment, logical or, logical and, equality, comparison, term, factor,
//! unary, primary. A level's `right` field is populated exactly when an
//! operator of that level was consumed; its `left` field grows by rewrapping,
//! which makes every operator chain left-associative.
//!
//! Each node type has a mathematical view (`...V`) in which literal text is a
//! character sequence and node lists are sequences; the `..._view` functions
//! map the tree to its view.

use vstd::prelude::*;

verus! {

// ---------------------------------------------------------------------------
// Declarations
// ---------------------------------------------------------------------------

/// A whole source file: its declarations, in order.
#[derive(Debug, PartialEq, Eq)]
pub struct Program {
    pub declarations: Vec<Declaration>,
}

#[derive(Debug, PartialEq, Eq)]
pub enum Declaration {
    Variable(Variable),
    Statement(Statement),
    Function(Function),
}

/// The parameter names of a function declaration.
#[derive(Debug, PartialEq, Eq)]
pub struct ArgsDecl {
    pub args: Vec<Identifier>,
}

#[derive(Debug, PartialEq, Eq)]
pub struct Function {
    pub ident: Identifier,
    pub args: Option<ArgsDecl>,
    pub block: Block,
}

/// Whether a binding is immutable (`val`) or mutable (`var`).
#[derive(Debug, PartialEq, Eq, Clone, Copy)]
pub enum VariableType {
    Var,
    Val,
}

#[derive(Debug, PartialEq, Eq)]
pub struct Variable {
    pub v_type: VariableType,
    pub ident: Identifier,
    pub value: Expr,
}

#[derive(Debug, PartialEq, Eq)]
pub enum Statement {
    Expression(Expr),
    Loop(Loop),
    Print(Print),
    Return(Return),
    If(If),
}

#[derive(Debug, PartialEq, Eq)]
pub struct Loop {
    pub block: Block,
}

#[derive(Debug, PartialEq, Eq)]
pub struct Print {
    pub expr: Expr,
}

#[derive(Debug, PartialEq, Eq)]
pub struct Return {
    pub expr: Expr,
}

/// A conditional statement. The shape exists as an extension point: no
/// production of the current grammar builds it.
#[derive(Debug, PartialEq, Eq)]
pub struct If {
    pub expr: Expr,
    pub block: Block,
    pub else_block: Option<Block>,
}

// ---------------------------------------------------------------------------
// Misc
// ---------------------------------------------------------------------------

#[derive(Debug, PartialEq, Eq)]
pub struct Block {
    pub declarations: Vec<Declaration>,
}

// ---------------------------------------------------------------------------
// Expressions
// ---------------------------------------------------------------------------

#[derive(Debug, PartialEq, Eq)]
pub enum Expr {
    Assignment(Assignment),
}

#[derive(Debug, PartialEq, Eq)]
pub struct AssignedVal {
    pub ident: Identifier,
    pub expr: Box<Expr>,
}

#[derive(Debug, PartialEq, Eq)]
pub enum Assignment {
    AssignedVal(AssignedVal),
    LogicOr(LogicOr),
}

#[derive(Debug, PartialEq, Eq)]
pub enum LogicOrLeft {
    LogicAnd(LogicAnd),
    LogicOr(Box<LogicOr>),
}

#[derive(Debug, PartialEq, Eq)]
pub struct LogicOr {
    pub left: LogicOrLeft,
    pub right: Option<LogicAnd>,
}

#[derive(Debug, PartialEq, Eq)]
pub enum LogicAndLeft {
    Equality(Equality),
    LogicAnd(Box<LogicAnd>),
}

#[derive(Debug, PartialEq, Eq)]
pub struct LogicAnd {
    pub left: LogicAndLeft,
    pub right: Option<Equality>,
}

#[derive(Debug, PartialEq, Eq, Clone, Copy)]
pub enum EqualityOp {
    NotEqual,
    Equal,
}

#[derive(Debug, PartialEq, Eq)]
pub struct EqualityRight {
    pub op: EqualityOp,
    pub right: Comparison,
}

#[derive(Debug, PartialEq, Eq)]
pub enum EqualityLeft {
    Comparison(Comparison),
    Equality(Box<Equality>),
}

#[derive(Debug, PartialEq, Eq)]
pub struct Equality {
    pub left: EqualityLeft,
    pub right: Option<EqualityRight>,
}

#[derive(Debug, PartialEq, Eq, Clone, Copy)]
pub enum ComparisonOp {
    Greater,
    GreaterEqual,
    Less,
    LessEqual,
}

#[derive(Debug, PartialEq, Eq)]
pub struct ComparisonRight {
    pub op: ComparisonOp,
    pub right: Term,
}

#[derive(Debug, PartialEq, Eq)]
pub enum ComparisonLeft {
    Term(Term),
    Comparison(Box<Comparison>),
}

#[derive(Debug, PartialEq, Eq)]
pub struct Comparison {
    pub left: ComparisonLeft,
    pub right: Option<ComparisonRight>,
}

#[derive(Debug, PartialEq, Eq, Clone, Copy)]
pub enum TermOp {
    Minus,
    Plus,
}

#[derive(Debug, PartialEq, Eq)]
pub struct TermRight {
    pub op: TermOp,
    pub right: Factor,
}

#[derive(Debug, PartialEq, Eq)]
pub enum TermLeft {
    Factor(Factor),
    Term(Box<Term>),
}

#[derive(Debug, PartialEq, Eq)]
pub struct Term {
    pub left: TermLeft,
    pub right: Option<TermRight>,
}

#[derive(Debug, PartialEq, Eq, Clone, Copy)]
pub enum FactorOp {
    Div,
    Mult,
}

#[derive(Debug, PartialEq, Eq)]
pub struct FactorRight {
    pub op: FactorOp,
    pub right: Unary,
}

#[derive(Debug, PartialEq, Eq)]
pub enum FactorLeft {
    Unary(Unary),
    Factor(Box<Factor>),
}

#[derive(Debug, PartialEq, Eq)]
pub struct Factor {
    pub left: FactorLeft,
    pub right: Option<FactorRight>,
}

#[derive(Debug, PartialEq, Eq, Clone, Copy)]
pub enum UnaryOp {
    Not,
    Minus,
}

#[derive(Debug, PartialEq, Eq)]
pub enum UnaryRight {
    Unary(Unary),
    Primary(Primary),
}

#[derive(Debug, PartialEq, Eq)]
pub struct Unary {
    pub op: Option<UnaryOp>,
    pub right: Box<UnaryRight>,
}

#[derive(Debug, PartialEq, Eq)]
pub enum Primary {
    Int(String),
    Float(String),
    String(String),
    Identifier(Identifier),
    True,
    False,
    Grouping(Expr),
}

#[derive(Debug, PartialEq, Eq)]
pub struct Identifier(pub String);

// ---------------------------------------------------------------------------
// Views
// ---------------------------------------------------------------------------

pub struct ProgramV {
    pub declarations: Seq<DeclarationV>,
}

pub enum DeclarationV {
    Variable(VariableV),
    Statement(StatementV),
    Function(FunctionV),
}

pub struct FunctionV {
    pub ident: Seq<char>,
    pub args: Option<Seq<Seq<char>>>,
    pub block: BlockV,
}

pub struct VariableV {
    pub v_type: VariableType,
    pub ident: Seq<char>,
    pub value: ExprV,
}

pub enum StatementV {
    Expression(ExprV),
    Loop(LoopV),
    Print(PrintV),
    Return(ReturnV),
    If(IfV),
}

pub struct LoopV {
    pub block: BlockV,
}

pub struct PrintV {
    pub expr: ExprV,
}

pub struct ReturnV {
    pub expr: ExprV,
}

pub struct IfV {
    pub expr: ExprV,
    pub block: BlockV,
    pub else_block: Option<BlockV>,
}

pub struct BlockV {
    pub declarations: Seq<DeclarationV>,
}

pub enum ExprV {
    Assignment(AssignmentV),
}

pub struct AssignedValV {
    pub ident: Seq<char>,
    pub expr: Box<ExprV>,
}

pub enum AssignmentV {
    AssignedVal(AssignedValV),
    LogicOr(LogicOrV),
}

pub enum LogicOrLeftV {
    LogicAnd(LogicAndV),
    LogicOr(Box<LogicOrV>),
}

pub struct LogicOrV {
    pub left: LogicOrLeftV,
    pub right: Option<LogicAndV>,
}

pub enum LogicAndLeftV {
    Equality(EqualityV),
    LogicAnd(Box<LogicAndV>),
}

pub struct LogicAndV {
    pub left: LogicAndLeftV,
    pub right: Option<EqualityV>,
}

pub struct EqualityRightV {
    pub op: EqualityOp,
    pub right: ComparisonV,
}

pub enum EqualityLeftV {
    Comparison(ComparisonV),
    Equality(Box<EqualityV>),
}

pub struct EqualityV {
    pub left: EqualityLeftV,
    pub right: Option<EqualityRightV>,
}

pub struct ComparisonRightV {
    pub op: ComparisonOp,
    pub right: TermV,
}

pub enum ComparisonLeftV {
    Term(TermV),
    Comparison(Box<ComparisonV>),
}

pub struct ComparisonV {
    pub left: ComparisonLeftV,
    pub right: Option<ComparisonRightV>,
}

pub struct TermRightV {
    pub op: TermOp,
    pub right: FactorV,
}

pub enum TermLeftV {
    Factor(FactorV),
    Term(Box<TermV>),
}

pub struct TermV {
    pub left: TermLeftV,
    pub right: Option<TermRightV>,
}

pub struct FactorRightV {
    pub op: FactorOp,
    pub right: UnaryV,
}

pub enum FactorLeftV {
    Unary(UnaryV),
    Factor(Box<FactorV>),
}

pub struct FactorV {
    pub left: FactorLeftV,
    pub right: Option<FactorRightV>,
}

pub enum UnaryRightV {
    Unary(UnaryV),
    Primary(PrimaryV),
}

pub struct UnaryV {
    pub op: Option<UnaryOp>,
    pub right: Box<UnaryRightV>,
}

pub enum PrimaryV {
    Int(Seq<char>),
    Float(Seq<char>),
    String(Seq<char>),
    Identifier(Seq<char>),
    True,
    False,
    Grouping(ExprV),
}

pub open spec fn program_view(p: Program) -> ProgramV
    decreases p,
{
    ProgramV { declarations: decls_view(p.declarations@) }
}

pub open spec fn decls_view(ds: Seq<Declaration>) -> Seq<DeclarationV>
    decreases ds,
{
    if ds.len() == 0 {
        Seq::empty()
    } else {
        seq![decl_view(ds[0])] + decls_view(ds.subrange(1, ds.len() as int))
    }
}

pub open spec fn decl_view(d: Declaration) -> DeclarationV
    decreases d,
{
    match d {
        Declaration::Variable(v) => DeclarationV::Variable(variable_view(v)),
        Declaration::Statement(s) => DeclarationV::Statement(statement_view(s)),
        Declaration::Function(f) => DeclarationV::Function(function_view(f)),
    }
}

pub open spec fn idents_view(ids: Seq<Identifier>) -> Seq<Seq<char>> {
    ids.map(|k: int, id: Identifier| id.0@)
}

pub open spec fn function_view(f: Function) -> FunctionV
    decreases f,
{
    FunctionV {
        ident: f.ident.0@,
        args: match f.args {
            Some(a) => Some(idents_view(a.args@)),
            None => None,
        },
        block: block_view(f.block),
    }
}

pub open spec fn variable_view(v: Variable) -> VariableV
    decreases v,
{
    VariableV { v_type: v.v_type, ident: v.ident.0@, value: expr_view(v.value) }
}

pub open spec fn statement_view(s: Statement) -> StatementV
    decreases s,
{
    match s {
        Statement::Expression(e) => StatementV::Expression(expr_view(e)),
        Statement::Loop(l) => StatementV::Loop(LoopV { block: block_view(l.block) }),
        Statement::Print(p) => StatementV::Print(PrintV { expr: expr_view(p.expr) }),
        Statement::Return(r) => StatementV::Return(ReturnV { expr: expr_view(r.expr) }),
        Statement::If(i) => StatementV::If(if_view(i)),
    }
}

pub open spec fn if_view(i: If) -> IfV
    decreases i,
{
    IfV {
        expr: expr_view(i.expr),
        block: block_view(i.block),
        else_block: match i.else_block {
            Some(b) => Some(block_view(b)),
            None => None,
        },
    }
}

pub open spec fn block_view(b: Block) -> BlockV
    decreases b,
{
    BlockV { declarations: decls_view(b.declarations@) }
}

pub open spec fn expr_view(e: Expr) -> ExprV
    decreases e,
{
    match e {
        Expr::Assignment(a) => ExprV::Assignment(assignment_view(a)),
    }
}

pub open spec fn assignment_view(a: Assignment) -> AssignmentV
    decreases a,
{
    match a {
        Assignment::AssignedVal(av) => AssignmentV::AssignedVal(
            AssignedValV { ident: av.ident.0@, expr: Box::new(expr_view(*av.expr)) },
        ),
        Assignment::LogicOr(o) => AssignmentV::LogicOr(logic_or_view(o)),
    }
}

pub open spec fn logic_or_view(o: LogicOr) -> LogicOrV
    decreases o,
{
    LogicOrV {
        left: logic_or_left_view(o.left),
        right: match o.right {
            Some(a) => Some(logic_and_view(a)),
            None => None,
        },
    }
}

pub open spec fn logic_and_view(a: LogicAnd) -> LogicAndV
    decreases a,
{
    LogicAndV {
        left: logic_and_left_view(a.left),
        right: match a.right {
            Some(e) => Some(equality_view(e)),
            None => None,
        },
    }
}

pub open spec fn equality_view(e: Equality) -> EqualityV
    decreases e,
{
    EqualityV {
        left: equality_left_view(e.left),
        right: match e.right {
            Some(r) => Some(EqualityRightV { op: r.op, right: comparison_view(r.right) }),
            None => None,
        },
    }
}

pub open spec fn comparison_view(c: Comparison) -> ComparisonV
    decreases c,
{
    ComparisonV {
        left: comparison_left_view(c.left),
        right: match c.right {
            Some(r) => Some(ComparisonRightV { op: r.op, right: term_view(r.right) }),
            None => None,
        },
    }
}

pub open spec fn term_view(t: Term) -> TermV
    decreases t,
{
    TermV {
        left: term_left_view(t.left),
        right: match t.right {
            Some(r) => Some(TermRightV { op: r.op, right: factor_view(r.right) }),
            None => None,
        },
    }
}

pub open spec fn factor_view(f: Factor) -> FactorV
    decreases f,
{
    FactorV {
        left: factor_left_view(f.left),
        right: match f.right {
            Some(r) => Some(FactorRightV { op: r.op, right: unary_view(r.right) }),
            None => None,
        },
    }
}

pub open spec fn unary_view(u: Unary) -> UnaryV
    decreases u,
{
    UnaryV {
        op: u.op,
        right: Box::new(
            match *u.right {
                UnaryRight::Unary(v) => UnaryRightV::Unary(unary_view(v)),
                UnaryRight::Primary(p) => UnaryRightV::Primary(primary_view(p)),
            },
        ),
    }
}

pub open spec fn primary_view(p: Primary) -> PrimaryV
    decreases p,
{
    match p {
        Primary::Int(s) => PrimaryV::Int(s@),
        Primary::Float(s) => PrimaryV::Float(s@),
        Primary::String(s) => PrimaryV::String(s@),
        Primary::Identifier(id) => PrimaryV::Identifier(id.0@),
        Primary::True => PrimaryV::True,
        Primary::False => PrimaryV::False,
        Primary::Grouping(e) => PrimaryV::Grouping(expr_view(e)),
    }
}

pub open spec fn logic_or_left_view(l: LogicOrLeft) -> LogicOrLeftV
    decreases l,
{
    match l {
        LogicOrLeft::LogicAnd(a) => LogicOrLeftV::LogicAnd(logic_and_view(a)),
        LogicOrLeft::LogicOr(b) => LogicOrLeftV::LogicOr(Box::new(logic_or_view(*b))),
    }
}

pub open spec fn logic_and_left_view(l: LogicAndLeft) -> LogicAndLeftV
    decreases l,
{
    match l {
        LogicAndLeft::Equality(e) => LogicAndLeftV::Equality(equality_view(e)),
        LogicAndLeft::LogicAnd(b) => LogicAndLeftV::LogicAnd(Box::new(logic_and_view(*b))),
    }
}

pub open spec fn equality_left_view(l: EqualityLeft) -> EqualityLeftV
    decreases l,
{
    match l {
        EqualityLeft::Comparison(c) => EqualityLeftV::Comparison(comparison_view(c)),
        EqualityLeft::Equality(b) => EqualityLeftV::Equality(Box::new(equality_view(*b))),
    }
}

pub open spec fn comparison_left_view(l: ComparisonLeft) -> ComparisonLeftV
    decreases l,
{
    match l {
        ComparisonLeft::Term(t) => ComparisonLeftV::Term(term_view(t)),
        ComparisonLeft::Comparison(b) => ComparisonLeftV::Comparison(Box::new(comparison_view(*b))),
    }
}

pub open spec fn term_left_view(l: TermLeft) -> TermLeftV
    decreases l,
{
    match l {
        TermLeft::Factor(f) => TermLeftV::Factor(factor_view(f)),
        TermLeft::Term(b) => TermLeftV::Term(Box::new(term_view(*b))),
    }
}

pub open spec fn factor_left_view(l: FactorLeft) -> FactorLeftV
    decreases l,
{
    match l {
        FactorLeft::Unary(u) => FactorLeftV::Unary(unary_view(u)),
        FactorLeft::Factor(b) => FactorLeftV::Factor(Box::new(factor_view(*b))),
    }
}

} // verus!
