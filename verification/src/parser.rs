//! The recursive-descent parser: it consumes the token sequence the lexer
//! produced (never characters) and builds a `Program` tree, or fails with the
//! first structural error. Binary-operator levels are built iteratively by
//! rewrapping the accumulated left operand, which makes every chain
//! left-associative; `unary` is the one genuinely recursive production.
//!
//! The whole parse is specified by the `spec_...` functions below, a
//! mathematical recursive-descent over the token views; each parsing method is
//! proved to return exactly what its specification function says, error cases
//! included.

use vstd::prelude::*;

use crate::ast::{
    assignment_view, decl_view, decls_view, equality_left_view, equality_view, expr_view, factor_left_view,
    factor_view, function_view, idents_view, primary_view, program_view, statement_view,
    term_left_view, term_view, unary_view, variable_view, block_view, comparison_left_view,
    comparison_view, logic_and_view, logic_or_view, ArgsDecl, AssignedVal, AssignedValV,
    Assignment, AssignmentV, Block, BlockV, Comparison, ComparisonLeft, ComparisonLeftV,
    ComparisonOp, ComparisonRight, ComparisonRightV, Declaration, DeclarationV, Equality,
    EqualityLeft, EqualityLeftV, EqualityOp, EqualityRight, EqualityRightV, Expr, ExprV, Factor,
    FactorLeft, FactorLeftV, FactorOp, FactorRight, FactorRightV, Function, FunctionV, Identifier,
    LogicAnd, LogicAndLeft, LogicAndLeftV, LogicAndV, LogicOr, LogicOrLeft, LogicOrLeftV,
    LogicOrV, Loop, LoopV, Primary, PrimaryV, Print, PrintV, Program, ProgramV, Return, ReturnV,
    Statement, StatementV, Term, TermLeft, TermLeftV, TermOp, TermRight, TermRightV, TermV,
    Unary, UnaryOp, UnaryRight, UnaryRightV, UnaryV, Variable, VariableType, VariableV, EqualityV,
    FactorV, ComparisonV, IfV,
};
use crate::token::{Token, TokenType, TokenTypeV, TokenV};

verus! {

/// A structural parse error: the first offending token, or an exhausted
/// stream where a token was required. Fatal: no partial tree is returned.
#[derive(Debug, PartialEq, Eq)]
pub enum ParseError {
    UnexpectedToken(Token),
    EndOfFile,
}

/// Mathematical view of a parse error.
pub enum ParseErrorV {
    UnexpectedToken(TokenV),
    EndOfFile,
}

impl DeepView for ParseError {
    type V = ParseErrorV;

    open spec fn deep_view(&self) -> ParseErrorV {
        match self {
            ParseError::UnexpectedToken(t) => ParseErrorV::UnexpectedToken(t.deep_view()),
            ParseError::EndOfFile => ParseErrorV::EndOfFile,
        }
    }
}

// ---------------------------------------------------------------------------
// The specification-level parser
// ---------------------------------------------------------------------------
//
// Each function takes the token views and the position of its first token and
// returns the node it derives together with the position just past it, or the
// error the parser raises there. Every successful parse consumes at least one
// token; `step_to` clamps a continuation position into `(i, len]`, which keeps
// the recursion well-founded without a separate bounds proof (the parsing
// methods establish that the clamp never moves a real position).

/// Tokens left from position `i` on, clamped at zero: the recursion measure
/// of the specification parser.
pub open spec fn parse_rem(ts: Seq<TokenV>, i: int) -> int {
    if i <= ts.len() {
        ts.len() - i
    } else {
        0
    }
}

pub open spec fn step_to(len: int, i: int, j: int) -> int {
    if j <= i {
        i + 1
    } else if j > len {
        len
    } else {
        j
    }
}

pub open spec fn spec_primary(ts: Seq<TokenV>, i: int) -> Result<(PrimaryV, int), ParseErrorV>
    decreases parse_rem(ts, i), 3int,
{
    if i < 0 || i >= ts.len() {
        Err(ParseErrorV::EndOfFile)
    } else {
        match ts[i].token_type {
            TokenTypeV::Int(s) => Ok((PrimaryV::Int(s), i + 1)),
            TokenTypeV::Float(s) => Ok((PrimaryV::Float(s), i + 1)),
            TokenTypeV::String(s) => Ok((PrimaryV::String(s), i + 1)),
            TokenTypeV::True => Ok((PrimaryV::True, i + 1)),
            TokenTypeV::False => Ok((PrimaryV::False, i + 1)),
            TokenTypeV::Identifier(s) => Ok((PrimaryV::Identifier(s), i + 1)),
            TokenTypeV::LeftParen => match spec_expr(ts, i + 1) {
                Ok((e, j)) => {
                    let j1 = step_to(ts.len() as int, i + 1, j);
                    if j1 >= ts.len() {
                        Err(ParseErrorV::EndOfFile)
                    } else if ts[j1].token_type is RightParen {
                        Ok((PrimaryV::Grouping(e), j1 + 1))
                    } else {
                        Err(ParseErrorV::UnexpectedToken(ts[j1]))
                    }
                },
                Err(e) => Err(e),
            },
            _ => Err(ParseErrorV::UnexpectedToken(ts[i])),
        }
    }
}

pub open spec fn spec_unary(ts: Seq<TokenV>, i: int) -> Result<(UnaryV, int), ParseErrorV>
    decreases parse_rem(ts, i), 4int,
{
    if i < 0 || i >= ts.len() {
        Err(ParseErrorV::EndOfFile)
    } else if ts[i].token_type is Bang || ts[i].token_type is Minus {
        let op = if ts[i].token_type is Bang {
            UnaryOp::Not
        } else {
            UnaryOp::Minus
        };
        match spec_unary(ts, i + 1) {
            Ok((u, j)) => Ok(
                (UnaryV { op: Some(op), right: Box::new(UnaryRightV::Unary(u)) }, j),
            ),
            Err(e) => Err(e),
        }
    } else {
        match spec_primary(ts, i) {
            Ok((p, j)) => Ok((UnaryV { op: None, right: Box::new(UnaryRightV::Primary(p)) }, j)),
            Err(e) => Err(e),
        }
    }
}

pub open spec fn spec_factor(ts: Seq<TokenV>, i: int) -> Result<(FactorV, int), ParseErrorV>
    decreases parse_rem(ts, i), 5int,
{
    if i < 0 || i >= ts.len() {
        Err(ParseErrorV::EndOfFile)
    } else {
        match spec_unary(ts, i) {
            Ok((u, j)) => spec_factor_rest(
                ts,
                step_to(ts.len() as int, i, j),
                FactorLeftV::Unary(u),
            ),
            Err(e) => Err(e),
        }
    }
}

pub open spec fn spec_factor_rest(ts: Seq<TokenV>, i: int, left: FactorLeftV) -> Result<
    (FactorV, int),
    ParseErrorV,
>
    decreases parse_rem(ts, i), 5int,
{
    if i < 0 || i >= ts.len() {
        Ok((FactorV { left, right: None }, i))
    } else if ts[i].token_type is Slash || ts[i].token_type is Star {
        let op = if ts[i].token_type is Slash {
            FactorOp::Div
        } else {
            FactorOp::Mult
        };
        match spec_unary(ts, i + 1) {
            Ok((u, j)) => spec_factor_rest(
                ts,
                step_to(ts.len() as int, i + 1, j),
                FactorLeftV::Factor(
                    Box::new(
                        FactorV { left, right: Some(FactorRightV { op, right: u }) },
                    ),
                ),
            ),
            Err(e) => Err(e),
        }
    } else {
        Ok((FactorV { left, right: None }, i))
    }
}

pub open spec fn spec_term(ts: Seq<TokenV>, i: int) -> Result<(TermV, int), ParseErrorV>
    decreases parse_rem(ts, i), 6int,
{
    if i < 0 || i >= ts.len() {
        Err(ParseErrorV::EndOfFile)
    } else {
        match spec_factor(ts, i) {
            Ok((f, j)) => spec_term_rest(ts, step_to(ts.len() as int, i, j), TermLeftV::Factor(f)),
            Err(e) => Err(e),
        }
    }
}

pub open spec fn spec_term_rest(ts: Seq<TokenV>, i: int, left: TermLeftV) -> Result<
    (TermV, int),
    ParseErrorV,
>
    decreases parse_rem(ts, i), 6int,
{
    if i < 0 || i >= ts.len() {
        Ok((TermV { left, right: None }, i))
    } else if ts[i].token_type is Minus || ts[i].token_type is Plus {
        let op = if ts[i].token_type is Minus {
            TermOp::Minus
        } else {
            TermOp::Plus
        };
        match spec_factor(ts, i + 1) {
            Ok((f, j)) => spec_term_rest(
                ts,
                step_to(ts.len() as int, i + 1, j),
                TermLeftV::Term(
                    Box::new(TermV { left, right: Some(TermRightV { op, right: f }) }),
                ),
            ),
            Err(e) => Err(e),
        }
    } else {
        Ok((TermV { left, right: None }, i))
    }
}

pub open spec fn spec_comparison(ts: Seq<TokenV>, i: int) -> Result<(ComparisonV, int), ParseErrorV>
    decreases parse_rem(ts, i), 7int,
{
    if i < 0 || i >= ts.len() {
        Err(ParseErrorV::EndOfFile)
    } else {
        match spec_term(ts, i) {
            Ok((t, j)) => spec_comparison_rest(
                ts,
                step_to(ts.len() as int, i, j),
                ComparisonLeftV::Term(t),
            ),
            Err(e) => Err(e),
        }
    }
}

pub open spec fn spec_comparison_rest(ts: Seq<TokenV>, i: int, left: ComparisonLeftV) -> Result<
    (ComparisonV, int),
    ParseErrorV,
>
    decreases parse_rem(ts, i), 7int,
{
    if i < 0 || i >= ts.len() {
        Ok((ComparisonV { left, right: None }, i))
    } else if ts[i].token_type is Greater || ts[i].token_type is GreaterEqual || ts[i].token_type
        is Less || ts[i].token_type is LessEqual {
        let op = if ts[i].token_type is Greater {
            ComparisonOp::Greater
        } else if ts[i].token_type is GreaterEqual {
            ComparisonOp::GreaterEqual
        } else if ts[i].token_type is Less {
            ComparisonOp::Less
        } else {
            ComparisonOp::LessEqual
        };
        match spec_term(ts, i + 1) {
            Ok((t, j)) => spec_comparison_rest(
                ts,
                step_to(ts.len() as int, i + 1, j),
                ComparisonLeftV::Comparison(
                    Box::new(
                        ComparisonV { left, right: Some(ComparisonRightV { op, right: t }) },
                    ),
                ),
            ),
            Err(e) => Err(e),
        }
    } else {
        Ok((ComparisonV { left, right: None }, i))
    }
}

pub open spec fn spec_equality(ts: Seq<TokenV>, i: int) -> Result<(EqualityV, int), ParseErrorV>
    decreases parse_rem(ts, i), 8int,
{
    if i < 0 || i >= ts.len() {
        Err(ParseErrorV::EndOfFile)
    } else {
        match spec_comparison(ts, i) {
            Ok((c, j)) => spec_equality_rest(
                ts,
                step_to(ts.len() as int, i, j),
                EqualityLeftV::Comparison(c),
            ),
            Err(e) => Err(e),
        }
    }
}

pub open spec fn spec_equality_rest(ts: Seq<TokenV>, i: int, left: EqualityLeftV) -> Result<
    (EqualityV, int),
    ParseErrorV,
>
    decreases parse_rem(ts, i), 8int,
{
    if i < 0 || i >= ts.len() {
        Ok((EqualityV { left, right: None }, i))
    } else if ts[i].token_type is EqualEqual || ts[i].token_type is BangEqual {
        let op = if ts[i].token_type is EqualEqual {
            EqualityOp::Equal
        } else {
            EqualityOp::NotEqual
        };
        match spec_comparison(ts, i + 1) {
            Ok((c, j)) => spec_equality_rest(
                ts,
                step_to(ts.len() as int, i + 1, j),
                EqualityLeftV::Equality(
                    Box::new(
                        EqualityV { left, right: Some(EqualityRightV { op, right: c }) },
                    ),
                ),
            ),
            Err(e) => Err(e),
        }
    } else {
        Ok((EqualityV { left, right: None }, i))
    }
}

/// Logical conjunction is an extension point: the lexer spells no token for
/// `and`, so this level passes through to equality and never iterates.
pub open spec fn spec_logic_and(ts: Seq<TokenV>, i: int) -> Result<(LogicAndV, int), ParseErrorV>
    decreases parse_rem(ts, i), 9int,
{
    match spec_equality(ts, i) {
        Ok((e, j)) => Ok((LogicAndV { left: LogicAndLeftV::Equality(e), right: None }, j)),
        Err(e) => Err(e),
    }
}

/// Logical disjunction is an extension point: the lexer spells no token for
/// `or`, so this level passes through to conjunction and never iterates.
pub open spec fn spec_logic_or(ts: Seq<TokenV>, i: int) -> Result<(LogicOrV, int), ParseErrorV>
    decreases parse_rem(ts, i), 10int,
{
    match spec_logic_and(ts, i) {
        Ok((a, j)) => Ok((LogicOrV { left: LogicOrLeftV::LogicAnd(a), right: None }, j)),
        Err(e) => Err(e),
    }
}

pub open spec fn spec_assignment(ts: Seq<TokenV>, i: int) -> Result<(AssignmentV, int), ParseErrorV>
    decreases parse_rem(ts, i), 11int,
{
    if i < 0 || i >= ts.len() {
        Err(ParseErrorV::EndOfFile)
    } else {
        match ts[i].token_type {
            TokenTypeV::Identifier(s) => if i + 1 < ts.len() && ts[i + 1].token_type
                is Equal {
                match spec_expr(ts, i + 2) {
                    Ok((e, j)) => Ok(
                        (
                            AssignmentV::AssignedVal(
                                AssignedValV { ident: s, expr: Box::new(e) },
                            ),
                            j,
                        ),
                    ),
                    Err(e) => Err(e),
                }
            } else {
                match spec_logic_or(ts, i) {
                    Ok((o, j)) => Ok((AssignmentV::LogicOr(o), j)),
                    Err(e) => Err(e),
                }
            },
            _ => match spec_logic_or(ts, i) {
                Ok((o, j)) => Ok((AssignmentV::LogicOr(o), j)),
                Err(e) => Err(e),
            },
        }
    }
}

pub open spec fn spec_expr(ts: Seq<TokenV>, i: int) -> Result<(ExprV, int), ParseErrorV>
    decreases parse_rem(ts, i), 12int,
{
    match spec_assignment(ts, i) {
        Ok((a, j)) => Ok((ExprV::Assignment(a), j)),
        Err(e) => Err(e),
    }
}

pub open spec fn spec_args_rest(ts: Seq<TokenV>, i: int) -> Result<
    (Seq<Seq<char>>, int),
    ParseErrorV,
>
    decreases parse_rem(ts, i), 16int,
{
    if i < 0 || i >= ts.len() {
        Ok((Seq::empty(), i))
    } else if !(ts[i].token_type is Comma) {
        Ok((Seq::empty(), i))
    } else if i + 1 >= ts.len() {
        Err(ParseErrorV::EndOfFile)
    } else {
        match ts[i + 1].token_type {
            TokenTypeV::Identifier(s) => match spec_args_rest(ts, i + 2) {
                Ok((more, j)) => Ok((seq![s] + more, j)),
                Err(e) => Err(e),
            },
            _ => Err(ParseErrorV::UnexpectedToken(ts[i + 1])),
        }
    }
}

pub open spec fn spec_args_decl(ts: Seq<TokenV>, i: int) -> Result<
    (Seq<Seq<char>>, int),
    ParseErrorV,
>
    decreases parse_rem(ts, i), 17int,
{
    if i < 0 || i >= ts.len() {
        Err(ParseErrorV::EndOfFile)
    } else {
        match ts[i].token_type {
            TokenTypeV::Identifier(s) => match spec_args_rest(ts, i + 1) {
                Ok((more, j)) => Ok((seq![s] + more, j)),
                Err(e) => Err(e),
            },
            _ => Err(ParseErrorV::UnexpectedToken(ts[i])),
        }
    }
}

pub open spec fn spec_block(ts: Seq<TokenV>, i: int) -> Result<(BlockV, int), ParseErrorV>
    decreases parse_rem(ts, i), 17int,
{
    if i < 0 || i >= ts.len() {
        Err(ParseErrorV::EndOfFile)
    } else if ts[i].token_type is LeftBrace {
        match spec_block_rest(ts, i + 1) {
            Ok((ds, j)) => Ok((BlockV { declarations: ds }, j)),
            Err(e) => Err(e),
        }
    } else {
        Err(ParseErrorV::UnexpectedToken(ts[i]))
    }
}

/// Declarations inside a block, up to the closing brace, which is consumed;
/// a stream exhausted before the closing brace is missing a required token.
pub open spec fn spec_block_rest(ts: Seq<TokenV>, i: int) -> Result<
    (Seq<DeclarationV>, int),
    ParseErrorV,
>
    decreases parse_rem(ts, i), 21int,
{
    if i < 0 || i >= ts.len() {
        Err(ParseErrorV::EndOfFile)
    } else if ts[i].token_type is RightBrace {
        Ok((Seq::empty(), i + 1))
    } else {
        match spec_declaration(ts, i) {
            Ok((d, j)) => match spec_block_rest(ts, step_to(ts.len() as int, i, j)) {
                Ok((ds, j2)) => Ok((seq![d] + ds, j2)),
                Err(e) => Err(e),
            },
            Err(e) => Err(e),
        }
    }
}

pub open spec fn spec_loop_stmt(ts: Seq<TokenV>, i: int) -> Result<(LoopV, int), ParseErrorV>
    decreases parse_rem(ts, i), 18int,
{
    if i < 0 || i >= ts.len() {
        Err(ParseErrorV::EndOfFile)
    } else if ts[i].token_type is Loop {
        match spec_block(ts, i + 1) {
            Ok((b, j)) => Ok((LoopV { block: b }, j)),
            Err(e) => Err(e),
        }
    } else {
        Err(ParseErrorV::UnexpectedToken(ts[i]))
    }
}

pub open spec fn spec_print_stmt(ts: Seq<TokenV>, i: int) -> Result<(PrintV, int), ParseErrorV>
    decreases parse_rem(ts, i), 18int,
{
    if i < 0 || i >= ts.len() {
        Err(ParseErrorV::EndOfFile)
    } else if !(ts[i].token_type is Print) {
        Err(ParseErrorV::UnexpectedToken(ts[i]))
    } else if i + 1 >= ts.len() {
        Err(ParseErrorV::EndOfFile)
    } else if !(ts[i + 1].token_type is LeftParen) {
        Err(ParseErrorV::UnexpectedToken(ts[i + 1]))
    } else {
        match spec_expr(ts, i + 2) {
            Ok((e, j)) => {
                let j1 = step_to(ts.len() as int, i + 2, j);
                if j1 >= ts.len() {
                    Err(ParseErrorV::EndOfFile)
                } else if ts[j1].token_type is RightParen {
                    Ok((PrintV { expr: e }, j1 + 1))
                } else {
                    Err(ParseErrorV::UnexpectedToken(ts[j1]))
                }
            },
            Err(e) => Err(e),
        }
    }
}

pub open spec fn spec_return_stmt(ts: Seq<TokenV>, i: int) -> Result<(ReturnV, int), ParseErrorV>
    decreases parse_rem(ts, i), 18int,
{
    if i < 0 || i >= ts.len() {
        Err(ParseErrorV::EndOfFile)
    } else if ts[i].token_type is Return {
        match spec_expr(ts, i + 1) {
            Ok((e, j)) => Ok((ReturnV { expr: e }, j)),
            Err(e) => Err(e),
        }
    } else {
        Err(ParseErrorV::UnexpectedToken(ts[i]))
    }
}

pub open spec fn spec_statement(ts: Seq<TokenV>, i: int) -> Result<(StatementV, int), ParseErrorV>
    decreases parse_rem(ts, i), 19int,
{
    if i < 0 || i >= ts.len() {
        Err(ParseErrorV::EndOfFile)
    } else {
        match ts[i].token_type {
            TokenTypeV::Loop => match spec_loop_stmt(ts, i) {
                Ok((l, j)) => Ok((StatementV::Loop(l), j)),
                Err(e) => Err(e),
            },
            TokenTypeV::Print => match spec_print_stmt(ts, i) {
                Ok((p, j)) => Ok((StatementV::Print(p), j)),
                Err(e) => Err(e),
            },
            TokenTypeV::Return => match spec_return_stmt(ts, i) {
                Ok((r, j)) => Ok((StatementV::Return(r), j)),
                Err(e) => Err(e),
            },
            _ => match spec_expr(ts, i) {
                Ok((e, j)) => Ok((StatementV::Expression(e), j)),
                Err(e) => Err(e),
            },
        }
    }
}

pub open spec fn spec_variable(ts: Seq<TokenV>, i: int) -> Result<(VariableV, int), ParseErrorV>
    decreases parse_rem(ts, i), 19int,
{
    if i < 0 || i >= ts.len() {
        Err(ParseErrorV::EndOfFile)
    } else if !(ts[i].token_type is Val || ts[i].token_type is Var) {
        Err(ParseErrorV::UnexpectedToken(ts[i]))
    } else {
        let vt = if ts[i].token_type is Val {
            VariableType::Val
        } else {
            VariableType::Var
        };
        if i + 1 >= ts.len() {
            Err(ParseErrorV::EndOfFile)
        } else {
            match ts[i + 1].token_type {
                TokenTypeV::Identifier(s) => if i + 2 >= ts.len() {
                    Err(ParseErrorV::EndOfFile)
                } else if !(ts[i + 2].token_type is Equal) {
                    Err(ParseErrorV::UnexpectedToken(ts[i + 2]))
                } else {
                    match spec_expr(ts, i + 3) {
                        Ok((e, j)) => Ok((VariableV { v_type: vt, ident: s, value: e }, j)),
                        Err(e) => Err(e),
                    }
                },
                _ => Err(ParseErrorV::UnexpectedToken(ts[i + 1])),
            }
        }
    }
}

pub open spec fn spec_function(ts: Seq<TokenV>, i: int) -> Result<(FunctionV, int), ParseErrorV>
    decreases parse_rem(ts, i), 19int,
{
    if i < 0 || i >= ts.len() {
        Err(ParseErrorV::EndOfFile)
    } else if !(ts[i].token_type is Fun) {
        Err(ParseErrorV::UnexpectedToken(ts[i]))
    } else if i + 1 >= ts.len() {
        Err(ParseErrorV::EndOfFile)
    } else {
        match ts[i + 1].token_type {
            TokenTypeV::Identifier(name) => if i + 2 >= ts.len() {
                Err(ParseErrorV::EndOfFile)
            } else if !(ts[i + 2].token_type is LeftParen) {
                Err(ParseErrorV::UnexpectedToken(ts[i + 2]))
            } else if i + 3 >= ts.len() {
                Err(ParseErrorV::EndOfFile)
            } else if ts[i + 3].token_type is RightParen {
                match spec_block(ts, i + 4) {
                    Ok((b, j)) => Ok((FunctionV { ident: name, args: None, block: b }, j)),
                    Err(e) => Err(e),
                }
            } else {
                match spec_args_decl(ts, i + 3) {
                    Ok((args, j)) => {
                        let j1 = step_to(ts.len() as int, i + 3, j);
                        if j1 >= ts.len() {
                            Err(ParseErrorV::EndOfFile)
                        } else if ts[j1].token_type is RightParen {
                            match spec_block(ts, j1 + 1) {
                                Ok((b, j2)) => Ok(
                                    (
                                        FunctionV { ident: name, args: Some(args), block: b },
                                        j2,
                                    ),
                                ),
                                Err(e) => Err(e),
                            }
                        } else {
                            Err(ParseErrorV::UnexpectedToken(ts[j1]))
                        }
                    },
                    Err(e) => Err(e),
                }
            },
            _ => Err(ParseErrorV::UnexpectedToken(ts[i + 1])),
        }
    }
}

pub open spec fn spec_declaration(ts: Seq<TokenV>, i: int) -> Result<
    (DeclarationV, int),
    ParseErrorV,
>
    decreases parse_rem(ts, i), 20int,
{
    if i < 0 || i >= ts.len() {
        Err(ParseErrorV::EndOfFile)
    } else {
        match ts[i].token_type {
            TokenTypeV::Fun => match spec_function(ts, i) {
                Ok((f, j)) => Ok((DeclarationV::Function(f), j)),
                Err(e) => Err(e),
            },
            TokenTypeV::Val => match spec_variable(ts, i) {
                Ok((v, j)) => Ok((DeclarationV::Variable(v), j)),
                Err(e) => Err(e),
            },
            TokenTypeV::Var => match spec_variable(ts, i) {
                Ok((v, j)) => Ok((DeclarationV::Variable(v), j)),
                Err(e) => Err(e),
            },
            _ => match spec_statement(ts, i) {
                Ok((s, j)) => Ok((DeclarationV::Statement(s), j)),
                Err(e) => Err(e),
            },
        }
    }
}

/// Declarations from `i` to the end of the token stream.
pub open spec fn spec_program_rest(ts: Seq<TokenV>, i: int) -> Result<
    (Seq<DeclarationV>, int),
    ParseErrorV,
>
    decreases parse_rem(ts, i), 21int,
{
    if i < 0 || i >= ts.len() {
        Ok((Seq::empty(), i))
    } else {
        match spec_declaration(ts, i) {
            Ok((d, j)) => match spec_program_rest(ts, step_to(ts.len() as int, i, j)) {
                Ok((ds, j2)) => Ok((seq![d] + ds, j2)),
                Err(e) => Err(e),
            },
            Err(e) => Err(e),
        }
    }
}

/// What parsing a whole token stream yields: the program's declarations, or
/// the first structural error. This is the parser's full specification.
pub open spec fn spec_program(ts: Seq<TokenV>) -> Result<ProgramV, ParseErrorV> {
    match spec_program_rest(ts, 0) {
        Ok((ds, j)) => Ok(ProgramV { declarations: ds }),
        Err(e) => Err(e),
    }
}

// ---------------------------------------------------------------------------
// The executable parser
// ---------------------------------------------------------------------------

/// Sequence-view push distributes over the head-recursive `decls_view`.
proof fn lemma_decls_view_push(s: Seq<Declaration>, d: Declaration)
    ensures
        decls_view(s.push(d)) == decls_view(s).push(decl_view(d)),
    decreases s.len(),
{
    let sp = s.push(d);
    if s.len() == 0 {
        assert(sp.subrange(1, sp.len() as int) =~= Seq::<Declaration>::empty());
        assert(decls_view(sp.subrange(1, sp.len() as int)) =~= Seq::<DeclarationV>::empty());
        assert(sp[0] == d);
        assert(decls_view(sp) =~= seq![decl_view(d)]);
        assert(decls_view(s) =~= Seq::<DeclarationV>::empty());
        assert(decls_view(s).push(decl_view(d)) =~= seq![decl_view(d)]);
    } else {
        let st = s.subrange(1, s.len() as int);
        assert(sp.subrange(1, sp.len() as int) =~= st.push(d));
        lemma_decls_view_push(st, d);
        assert(sp[0] == s[0]);
        assert(decls_view(sp) == seq![decl_view(s[0])] + decls_view(st.push(d)));
        assert(seq![decl_view(s[0])] + decls_view(st).push(decl_view(d)) =~= (seq![
            decl_view(s[0]),
        ] + decls_view(st)).push(decl_view(d)));
        assert(decls_view(s) == seq![decl_view(s[0])] + decls_view(st));
    }
}

/// Outcome of one iteration of a binary-operator level: the finished node,
/// or the rewrapped left operand the chain continues with.
enum LevelStep<N, L> {
    Done(N),
    More(L),
}

/// The recursive-descent parser over a token sequence. It consumes tokens
/// strictly left to right; lookahead is a position, never a re-read.
pub struct Parser {
    tokens: Vec<Token>,
    pos: usize,
}

impl Parser {
    /// The position never runs past the token sequence.
    pub closed spec fn wf(&self) -> bool {
        self.pos <= self.tokens@.len()
    }

    /// The views of the tokens this parser was created over.
    pub closed spec fn toks(&self) -> Seq<TokenV> {
        self.tokens.deep_view()
    }

    /// The position of the next token to be consumed.
    pub closed spec fn at(&self) -> int {
        self.pos as int
    }

    pub fn new(tokens: Vec<Token>) -> (r: Parser)
        ensures
            r.wf(),
            r.toks() == tokens.deep_view(),
            r.at() == 0,
    {
        Parser { tokens, pos: 0 }
    }

    /// Parses the token sequence to its end and returns the resulting tree,
    /// or the first structural error; no partial tree is returned.
    pub fn parse(&mut self) -> (r: Result<Program, ParseError>)
        requires
            old(self).wf(),
        ensures
            final(self).wf(),
            final(self).toks() == old(self).toks(),
            match r {
                Ok(p) => spec_program_rest(old(self).toks(), old(self).at()) == Ok::<
                    (Seq<DeclarationV>, int),
                    ParseErrorV,
                >((decls_view(p.declarations@), old(self).toks().len() as int)),
                Err(e) => spec_program_rest(old(self).toks(), old(self).at()) == Err::<
                    (Seq<DeclarationV>, int),
                    ParseErrorV,
                >(e.deep_view()),
            },
            old(self).at() == 0 ==> match r {
                Ok(p) => spec_program(old(self).toks()) == Ok::<ProgramV, ParseErrorV>(
                    program_view(p),
                ),
                Err(e) => spec_program(old(self).toks()) == Err::<ProgramV, ParseErrorV>(
                    e.deep_view(),
                ),
            },
        decreases self.toks().len() - self.at(), 23int,
    {
        self.program()
    }

    /// Top-level program parsing: declarations until the stream is exhausted.
    #[verifier::loop_isolation(false)]
    fn program(&mut self) -> (r: Result<Program, ParseError>)
        requires
            old(self).wf(),
        ensures
            final(self).wf(),
            final(self).toks() == old(self).toks(),
            match r {
                Ok(p) => spec_program_rest(old(self).toks(), old(self).at()) == Ok::<
                    (Seq<DeclarationV>, int),
                    ParseErrorV,
                >((decls_view(p.declarations@), final(self).at())) && final(self).at()
                    == old(self).toks().len(),
                Err(e) => spec_program_rest(old(self).toks(), old(self).at()) == Err::<
                    (Seq<DeclarationV>, int),
                    ParseErrorV,
                >(e.deep_view()),
            },
        decreases self.tokens@.len() - self.pos, 22int,
    {
        let ghost ts = self.toks();
        let ghost i0 = self.at();
        let mut declarations: Vec<Declaration> = Vec::new();
        proof {
            assert(decls_view(declarations@) =~= Seq::<DeclarationV>::empty());
        }
        loop
            invariant
                self.wf(),
                self.toks() == ts,
                i0 <= self.at() <= ts.len(),
                spec_program_rest(ts, i0) == (match spec_program_rest(ts, self.at()) {
                    Ok((ds, j)) => Ok::<(Seq<DeclarationV>, int), ParseErrorV>(
                        (decls_view(declarations@) + ds, j),
                    ),
                    Err(e) => Err(e),
                }),
            decreases ts.len() - self.at(),
        {
            let ghost p = self.at();
            let ghost acc = decls_view(declarations@);
            if self.pos == self.tokens.len() {
                proof {
                    assert(acc + Seq::<DeclarationV>::empty() =~= acc);
                }
                return Ok(Program { declarations });
            }
            let d = match self.declaration() {
                Ok(d) => d,
                Err(e) => {
                    return Err(e);
                },
            };
            let ghost before = declarations@;
            declarations.push(d);
            proof {
                lemma_decls_view_push(before, d);
                assert(declarations@ == before.push(d));
                assert(decls_view(declarations@) == acc.push(decl_view(d)));
                assert(acc.push(decl_view(d)) =~= acc + seq![decl_view(d)]);
                match spec_program_rest(ts, self.at()) {
                    Ok(pair) => {
                        assert(acc + (seq![decl_view(d)] + pair.0) =~= (acc + seq![decl_view(d)])
                            + pair.0);
                    },
                    Err(_) => {},
                }
            }
        }
    }

    fn declaration(&mut self) -> (r: Result<Declaration, ParseError>)
        requires
            old(self).wf(),
        ensures
            final(self).wf(),
            final(self).toks() == old(self).toks(),
            match r {
                Ok(node) => spec_declaration(old(self).toks(), old(self).at()) == Ok::<
                    (DeclarationV, int),
                    ParseErrorV,
                >((decl_view(node), final(self).at())) && old(self).at() < final(self).at()
                    <= old(self).toks().len(),
                Err(e) => spec_declaration(old(self).toks(), old(self).at()) == Err::<
                    (DeclarationV, int),
                    ParseErrorV,
                >(e.deep_view()),
            },
        decreases self.tokens@.len() - self.pos, 20int,
    {
        if self.pos == self.tokens.len() {
            return Err(ParseError::EndOfFile);
        }
        if matches!(&self.tokens[self.pos].token_type, TokenType::Fun) {
            match self.function() {
                Ok(f) => Ok(Declaration::Function(f)),
                Err(e) => Err(e),
            }
        } else if matches!(&self.tokens[self.pos].token_type, TokenType::Val | TokenType::Var) {
            match self.variable() {
                Ok(v) => Ok(Declaration::Variable(v)),
                Err(e) => Err(e),
            }
        } else {
            match self.statement() {
                Ok(s) => Ok(Declaration::Statement(s)),
                Err(e) => Err(e),
            }
        }
    }

    fn variable(&mut self) -> (r: Result<Variable, ParseError>)
        requires
            old(self).wf(),
        ensures
            final(self).wf(),
            final(self).toks() == old(self).toks(),
            match r {
                Ok(node) => spec_variable(old(self).toks(), old(self).at()) == Ok::<
                    (VariableV, int),
                    ParseErrorV,
                >((variable_view(node), final(self).at())) && old(self).at() < final(self).at()
                    <= old(self).toks().len(),
                Err(e) => spec_variable(old(self).toks(), old(self).at()) == Err::<
                    (VariableV, int),
                    ParseErrorV,
                >(e.deep_view()),
            },
        decreases self.tokens@.len() - self.pos, 19int,
    {
        if self.pos == self.tokens.len() {
            return Err(ParseError::EndOfFile);
        }
        let v_type = if matches!(&self.tokens[self.pos].token_type, TokenType::Val) {
            VariableType::Val
        } else if matches!(&self.tokens[self.pos].token_type, TokenType::Var) {
            VariableType::Var
        } else {
            let t = self.tokens[self.pos].clone();
            return Err(ParseError::UnexpectedToken(t));
        };
        if self.pos + 1 == self.tokens.len() {
            return Err(ParseError::EndOfFile);
        }
        let name = match &self.tokens[self.pos + 1].token_type {
            TokenType::Identifier(s) => s.clone(),
            _ => {
                let t = self.tokens[self.pos + 1].clone();
                return Err(ParseError::UnexpectedToken(t));
            },
        };
        if self.pos + 2 == self.tokens.len() {
            return Err(ParseError::EndOfFile);
        }
        if !matches!(&self.tokens[self.pos + 2].token_type, TokenType::Equal) {
            let t = self.tokens[self.pos + 2].clone();
            return Err(ParseError::UnexpectedToken(t));
        }
        self.pos = self.pos + 3;
        let value = match self.expr() {
            Ok(e) => e,
            Err(e) => {
                return Err(e);
            },
        };
        Ok(Variable { v_type, ident: Identifier(name), value })
    }

    fn function(&mut self) -> (r: Result<Function, ParseError>)
        requires
            old(self).wf(),
        ensures
            final(self).wf(),
            final(self).toks() == old(self).toks(),
            match r {
                Ok(node) => spec_function(old(self).toks(), old(self).at()) == Ok::<
                    (FunctionV, int),
                    ParseErrorV,
                >((function_view(node), final(self).at())) && old(self).at() < final(self).at()
                    <= old(self).toks().len(),
                Err(e) => spec_function(old(self).toks(), old(self).at()) == Err::<
                    (FunctionV, int),
                    ParseErrorV,
                >(e.deep_view()),
            },
        decreases self.tokens@.len() - self.pos, 19int,
    {
        if self.pos == self.tokens.len() {
            return Err(ParseError::EndOfFile);
        }
        if !matches!(&self.tokens[self.pos].token_type, TokenType::Fun) {
            let t = self.tokens[self.pos].clone();
            return Err(ParseError::UnexpectedToken(t));
        }
        if self.pos + 1 == self.tokens.len() {
            return Err(ParseError::EndOfFile);
        }
        let name = match &self.tokens[self.pos + 1].token_type {
            TokenType::Identifier(s) => s.clone(),
            _ => {
                let t = self.tokens[self.pos + 1].clone();
                return Err(ParseError::UnexpectedToken(t));
            },
        };
        if self.pos + 2 == self.tokens.len() {
            return Err(ParseError::EndOfFile);
        }
        if !matches!(&self.tokens[self.pos + 2].token_type, TokenType::LeftParen) {
            let t = self.tokens[self.pos + 2].clone();
            return Err(ParseError::UnexpectedToken(t));
        }
        if self.pos + 3 == self.tokens.len() {
            return Err(ParseError::EndOfFile);
        }
        if matches!(&self.tokens[self.pos + 3].token_type, TokenType::RightParen) {
            self.pos = self.pos + 4;
            let block = match self.block() {
                Ok(b) => b,
                Err(e) => {
                    return Err(e);
                },
            };
            return Ok(Function { ident: Identifier(name), args: None, block });
        }
        self.pos = self.pos + 3;
        let args = match self.args_decl() {
            Ok(a) => a,
            Err(e) => {
                return Err(e);
            },
        };
        if self.pos == self.tokens.len() {
            return Err(ParseError::EndOfFile);
        }
        if !matches!(&self.tokens[self.pos].token_type, TokenType::RightParen) {
            let t = self.tokens[self.pos].clone();
            return Err(ParseError::UnexpectedToken(t));
        }
        self.pos = self.pos + 1;
        let block = match self.block() {
            Ok(b) => b,
            Err(e) => {
                return Err(e);
            },
        };
        Ok(Function { ident: Identifier(name), args: Some(args), block })
    }

    fn statement(&mut self) -> (r: Result<Statement, ParseError>)
        requires
            old(self).wf(),
        ensures
            final(self).wf(),
            final(self).toks() == old(self).toks(),
            match r {
                Ok(node) => spec_statement(old(self).toks(), old(self).at()) == Ok::<
                    (StatementV, int),
                    ParseErrorV,
                >((statement_view(node), final(self).at())) && old(self).at() < final(self).at()
                    <= old(self).toks().len(),
                Err(e) => spec_statement(old(self).toks(), old(self).at()) == Err::<
                    (StatementV, int),
                    ParseErrorV,
                >(e.deep_view()),
            },
        decreases self.tokens@.len() - self.pos, 19int,
    {
        if self.pos == self.tokens.len() {
            return Err(ParseError::EndOfFile);
        }
        if matches!(&self.tokens[self.pos].token_type, TokenType::Loop) {
            match self.loop_stmt() {
                Ok(l) => Ok(Statement::Loop(l)),
                Err(e) => Err(e),
            }
        } else if matches!(&self.tokens[self.pos].token_type, TokenType::Print) {
            match self.print_stmt() {
                Ok(p) => Ok(Statement::Print(p)),
                Err(e) => Err(e),
            }
        } else if matches!(&self.tokens[self.pos].token_type, TokenType::Return) {
            match self.return_stmt() {
                Ok(ret) => Ok(Statement::Return(ret)),
                Err(e) => Err(e),
            }
        } else {
            match self.expr() {
                Ok(e) => Ok(Statement::Expression(e)),
                Err(e) => Err(e),
            }
        }
    }

    fn loop_stmt(&mut self) -> (r: Result<Loop, ParseError>)
        requires
            old(self).wf(),
        ensures
            final(self).wf(),
            final(self).toks() == old(self).toks(),
            match r {
                Ok(node) => spec_loop_stmt(old(self).toks(), old(self).at()) == Ok::<
                    (LoopV, int),
                    ParseErrorV,
                >((LoopV { block: block_view(node.block) }, final(self).at())) && old(self).at()
                    < final(self).at() <= old(self).toks().len(),
                Err(e) => spec_loop_stmt(old(self).toks(), old(self).at()) == Err::<
                    (LoopV, int),
                    ParseErrorV,
                >(e.deep_view()),
            },
        decreases self.tokens@.len() - self.pos, 18int,
    {
        if self.pos == self.tokens.len() {
            return Err(ParseError::EndOfFile);
        }
        if !matches!(&self.tokens[self.pos].token_type, TokenType::Loop) {
            let t = self.tokens[self.pos].clone();
            return Err(ParseError::UnexpectedToken(t));
        }
        self.pos = self.pos + 1;
        match self.block() {
            Ok(b) => Ok(Loop { block: b }),
            Err(e) => Err(e),
        }
    }

    fn print_stmt(&mut self) -> (r: Result<Print, ParseError>)
        requires
            old(self).wf(),
        ensures
            final(self).wf(),
            final(self).toks() == old(self).toks(),
            match r {
                Ok(node) => spec_print_stmt(old(self).toks(), old(self).at()) == Ok::<
                    (PrintV, int),
                    ParseErrorV,
                >((PrintV { expr: expr_view(node.expr) }, final(self).at())) && old(self).at()
                    < final(self).at() <= old(self).toks().len(),
                Err(e) => spec_print_stmt(old(self).toks(), old(self).at()) == Err::<
                    (PrintV, int),
                    ParseErrorV,
                >(e.deep_view()),
            },
        decreases self.tokens@.len() - self.pos, 18int,
    {
        if self.pos == self.tokens.len() {
            return Err(ParseError::EndOfFile);
        }
        if !matches!(&self.tokens[self.pos].token_type, TokenType::Print) {
            let t = self.tokens[self.pos].clone();
            return Err(ParseError::UnexpectedToken(t));
        }
        if self.pos + 1 == self.tokens.len() {
            return Err(ParseError::EndOfFile);
        }
        if !matches!(&self.tokens[self.pos + 1].token_type, TokenType::LeftParen) {
            let t = self.tokens[self.pos + 1].clone();
            return Err(ParseError::UnexpectedToken(t));
        }
        self.pos = self.pos + 2;
        let expr = match self.expr() {
            Ok(e) => e,
            Err(e) => {
                return Err(e);
            },
        };
        if self.pos == self.tokens.len() {
            return Err(ParseError::EndOfFile);
        }
        if !matches!(&self.tokens[self.pos].token_type, TokenType::RightParen) {
            let t = self.tokens[self.pos].clone();
            return Err(ParseError::UnexpectedToken(t));
        }
        self.pos = self.pos + 1;
        Ok(Print { expr })
    }

    fn return_stmt(&mut self) -> (r: Result<Return, ParseError>)
        requires
            old(self).wf(),
        ensures
            final(self).wf(),
            final(self).toks() == old(self).toks(),
            match r {
                Ok(node) => spec_return_stmt(old(self).toks(), old(self).at()) == Ok::<
                    (ReturnV, int),
                    ParseErrorV,
                >((ReturnV { expr: expr_view(node.expr) }, final(self).at())) && old(self).at()
                    < final(self).at() <= old(self).toks().len(),
                Err(e) => spec_return_stmt(old(self).toks(), old(self).at()) == Err::<
                    (ReturnV, int),
                    ParseErrorV,
                >(e.deep_view()),
            },
        decreases self.tokens@.len() - self.pos, 18int,
    {
        if self.pos == self.tokens.len() {
            return Err(ParseError::EndOfFile);
        }
        if !matches!(&self.tokens[self.pos].token_type, TokenType::Return) {
            let t = self.tokens[self.pos].clone();
            return Err(ParseError::UnexpectedToken(t));
        }
        self.pos = self.pos + 1;
        match self.expr() {
            Ok(e) => Ok(Return { expr: e }),
            Err(e) => Err(e),
        }
    }

    #[verifier::loop_isolation(false)]
    fn block(&mut self) -> (r: Result<Block, ParseError>)
        requires
            old(self).wf(),
        ensures
            final(self).wf(),
            final(self).toks() == old(self).toks(),
            match r {
                Ok(node) => spec_block(old(self).toks(), old(self).at()) == Ok::<
                    (BlockV, int),
                    ParseErrorV,
                >((block_view(node), final(self).at())) && old(self).at() < final(self).at()
                    <= old(self).toks().len(),
                Err(e) => spec_block(old(self).toks(), old(self).at()) == Err::<
                    (BlockV, int),
                    ParseErrorV,
                >(e.deep_view()),
            },
        decreases self.tokens@.len() - self.pos, 17int,
    {
        let ghost ts = self.toks();
        let ghost i0 = self.at();
        if self.pos == self.tokens.len() {
            return Err(ParseError::EndOfFile);
        }
        if !matches!(&self.tokens[self.pos].token_type, TokenType::LeftBrace) {
            let t = self.tokens[self.pos].clone();
            return Err(ParseError::UnexpectedToken(t));
        }
        self.pos = self.pos + 1;
        let mut declarations: Vec<Declaration> = Vec::new();
        proof {
            assert(decls_view(declarations@) =~= Seq::<DeclarationV>::empty());
        }
        loop
            invariant
                self.wf(),
                self.toks() == ts,
                i0 < self.at() <= ts.len(),
                spec_block_rest(ts, i0 + 1) == (match spec_block_rest(ts, self.at()) {
                    Ok((ds, j)) => Ok::<(Seq<DeclarationV>, int), ParseErrorV>(
                        (decls_view(declarations@) + ds, j),
                    ),
                    Err(e) => Err(e),
                }),
            decreases ts.len() - self.at(),
        {
            let ghost acc = decls_view(declarations@);
            if self.pos == self.tokens.len() {
                // the closing brace is a required token: exhaustion is an error
                return Err(ParseError::EndOfFile);
            }
            if matches!(&self.tokens[self.pos].token_type, TokenType::RightBrace) {
                self.pos = self.pos + 1;
                proof {
                    assert(acc + Seq::<DeclarationV>::empty() =~= acc);
                }
                return Ok(Block { declarations });
            }
            let d = match self.declaration() {
                Ok(d) => d,
                Err(e) => {
                    return Err(e);
                },
            };
            let ghost before = declarations@;
            declarations.push(d);
            proof {
                lemma_decls_view_push(before, d);
                assert(declarations@ == before.push(d));
                assert(decls_view(declarations@) == acc.push(decl_view(d)));
                assert(acc.push(decl_view(d)) =~= acc + seq![decl_view(d)]);
                match spec_block_rest(ts, self.at()) {
                    Ok(pair) => {
                        assert(acc + (seq![decl_view(d)] + pair.0) =~= (acc + seq![decl_view(d)])
                            + pair.0);
                    },
                    Err(_) => {},
                }
            }
        }
    }

    #[verifier::loop_isolation(false)]
    fn args_decl(&mut self) -> (r: Result<ArgsDecl, ParseError>)
        requires
            old(self).wf(),
        ensures
            final(self).wf(),
            final(self).toks() == old(self).toks(),
            match r {
                Ok(node) => spec_args_decl(old(self).toks(), old(self).at()) == Ok::<
                    (Seq<Seq<char>>, int),
                    ParseErrorV,
                >((idents_view(node.args@), final(self).at())) && old(self).at() < final(self).at()
                    <= old(self).toks().len(),
                Err(e) => spec_args_decl(old(self).toks(), old(self).at()) == Err::<
                    (Seq<Seq<char>>, int),
                    ParseErrorV,
                >(e.deep_view()),
            },
        decreases self.tokens@.len() - self.pos, 17int,
    {
        let ghost ts = self.toks();
        let ghost i0 = self.at();
        if self.pos == self.tokens.len() {
            return Err(ParseError::EndOfFile);
        }
        let first = match &self.tokens[self.pos].token_type {
            TokenType::Identifier(s) => s.clone(),
            _ => {
                let t = self.tokens[self.pos].clone();
                return Err(ParseError::UnexpectedToken(t));
            },
        };
        self.pos = self.pos + 1;
        let mut args: Vec<Identifier> = Vec::new();
        args.push(Identifier(first));
        proof {
            assert(idents_view(args@) =~= seq![ts[i0].token_type->Identifier_0]);
        }
        loop
            invariant
                self.wf(),
                self.toks() == ts,
                i0 < self.at() <= ts.len(),
                spec_args_decl(ts, i0) == (match spec_args_rest(ts, self.at()) {
                    Ok((more, j)) => Ok::<(Seq<Seq<char>>, int), ParseErrorV>(
                        (idents_view(args@) + more, j),
                    ),
                    Err(e) => Err(e),
                }),
            decreases ts.len() - self.at(),
        {
            let ghost acc = idents_view(args@);
            if self.pos == self.tokens.len() {
                proof {
                    assert(acc + Seq::<Seq<char>>::empty() =~= acc);
                }
                return Ok(ArgsDecl { args });
            }
            if !matches!(&self.tokens[self.pos].token_type, TokenType::Comma) {
                proof {
                    assert(acc + Seq::<Seq<char>>::empty() =~= acc);
                }
                return Ok(ArgsDecl { args });
            }
            if self.pos + 1 == self.tokens.len() {
                return Err(ParseError::EndOfFile);
            }
            let name = match &self.tokens[self.pos + 1].token_type {
                TokenType::Identifier(s) => s.clone(),
                _ => {
                    let t = self.tokens[self.pos + 1].clone();
                    return Err(ParseError::UnexpectedToken(t));
                },
            };
            let ghost p = self.at();
            self.pos = self.pos + 2;
            args.push(Identifier(name));
            proof {
                assert(idents_view(args@) =~= acc.push(ts[p + 1].token_type->Identifier_0));
                assert(acc.push(ts[p + 1].token_type->Identifier_0) =~= acc + seq![
                    ts[p + 1].token_type->Identifier_0,
                ]);
                match spec_args_rest(ts, self.at()) {
                    Ok(pair) => {
                        assert(acc + (seq![ts[p + 1].token_type->Identifier_0] + pair.0) =~= (acc
                            + seq![ts[p + 1].token_type->Identifier_0]) + pair.0);
                    },
                    Err(_) => {},
                }
            }
        }
    }

    fn expr(&mut self) -> (r: Result<Expr, ParseError>)
        requires
            old(self).wf(),
        ensures
            final(self).wf(),
            final(self).toks() == old(self).toks(),
            match r {
                Ok(node) => spec_expr(old(self).toks(), old(self).at()) == Ok::<
                    (ExprV, int),
                    ParseErrorV,
                >((expr_view(node), final(self).at())) && old(self).at() < final(self).at()
                    <= old(self).toks().len(),
                Err(e) => spec_expr(old(self).toks(), old(self).at()) == Err::<
                    (ExprV, int),
                    ParseErrorV,
                >(e.deep_view()),
            },
        decreases self.tokens@.len() - self.pos, 12int,
    {
        match self.assignment() {
            Ok(a) => Ok(Expr::Assignment(a)),
            Err(e) => Err(e),
        }
    }

    fn assignment(&mut self) -> (r: Result<Assignment, ParseError>)
        requires
            old(self).wf(),
        ensures
            final(self).wf(),
            final(self).toks() == old(self).toks(),
            match r {
                Ok(node) => spec_assignment(old(self).toks(), old(self).at()) == Ok::<
                    (AssignmentV, int),
                    ParseErrorV,
                >((assignment_view(node), final(self).at())) && old(self).at() < final(self).at()
                    <= old(self).toks().len(),
                Err(e) => spec_assignment(old(self).toks(), old(self).at()) == Err::<
                    (AssignmentV, int),
                    ParseErrorV,
                >(e.deep_view()),
            },
        decreases self.tokens@.len() - self.pos, 11int,
    {
        if self.pos == self.tokens.len() {
            return Err(ParseError::EndOfFile);
        }
        let name_opt: Option<String> = match &self.tokens[self.pos].token_type {
            TokenType::Identifier(s) => Some(s.clone()),
            _ => None,
        };
        match name_opt {
            Some(name) => {
                if self.pos + 1 < self.tokens.len() && matches!(
                    &self.tokens[self.pos + 1].token_type,
                    TokenType::Equal,
                ) {
                    self.pos = self.pos + 2;
                    match self.expr() {
                        Ok(e) => Ok(
                            Assignment::AssignedVal(
                                AssignedVal { ident: Identifier(name), expr: Box::new(e) },
                            ),
                        ),
                        Err(e) => Err(e),
                    }
                } else {
                    match self.logic_or() {
                        Ok(o) => Ok(Assignment::LogicOr(o)),
                        Err(e) => Err(e),
                    }
                }
            },
            None => {
                match self.logic_or() {
                    Ok(o) => Ok(Assignment::LogicOr(o)),
                    Err(e) => Err(e),
                }
            },
        }
    }

    /// Logical disjunction is an extension point: the lexer spells no token
    /// for `or`, so this level passes through and never iterates.
    fn logic_or(&mut self) -> (r: Result<LogicOr, ParseError>)
        requires
            old(self).wf(),
        ensures
            final(self).wf(),
            final(self).toks() == old(self).toks(),
            match r {
                Ok(node) => spec_logic_or(old(self).toks(), old(self).at()) == Ok::<
                    (LogicOrV, int),
                    ParseErrorV,
                >((logic_or_view(node), final(self).at())) && old(self).at() < final(self).at()
                    <= old(self).toks().len(),
                Err(e) => spec_logic_or(old(self).toks(), old(self).at()) == Err::<
                    (LogicOrV, int),
                    ParseErrorV,
                >(e.deep_view()),
            },
        decreases self.tokens@.len() - self.pos, 10int,
    {
        match self.logic_and() {
            Ok(a) => Ok(LogicOr { left: LogicOrLeft::LogicAnd(a), right: None }),
            Err(e) => Err(e),
        }
    }

    /// Logical conjunction is an extension point: the lexer spells no token
    /// for `and`, so this level passes through and never iterates.
    #[verifier::rlimit(100)]
    fn logic_and(&mut self) -> (r: Result<LogicAnd, ParseError>)
        requires
            old(self).wf(),
        ensures
            final(self).wf(),
            final(self).toks() == old(self).toks(),
            match r {
                Ok(node) => spec_logic_and(old(self).toks(), old(self).at()) == Ok::<
                    (LogicAndV, int),
                    ParseErrorV,
                >((logic_and_view(node), final(self).at())) && old(self).at() < final(self).at()
                    <= old(self).toks().len(),
                Err(e) => spec_logic_and(old(self).toks(), old(self).at()) == Err::<
                    (LogicAndV, int),
                    ParseErrorV,
                >(e.deep_view()),
            },
        decreases self.tokens@.len() - self.pos, 9int,
    {
        let ghost ts = self.toks();
        let ghost i0 = self.at();
        match self.equality() {
            Ok(e) => {
                let node = LogicAnd { left: LogicAndLeft::Equality(e), right: None };
                proof {
                    assert(logic_and_view(node) == LogicAndV {
                        left: LogicAndLeftV::Equality(equality_view(e)),
                        right: None,
                    });
                    assert(spec_logic_and(ts, i0) == Ok::<(LogicAndV, int), ParseErrorV>(
                        (logic_and_view(node), self.at()),
                    ));
                }
                Ok(node)
            },
            Err(e) => {
                proof {
                    assert(spec_logic_and(ts, i0) == Err::<(LogicAndV, int), ParseErrorV>(
                        e.deep_view(),
                    ));
                }
                Err(e)
            },
        }
    }

    #[verifier::loop_isolation(false)]
    fn equality(&mut self) -> (r: Result<Equality, ParseError>)
        requires
            old(self).wf(),
        ensures
            final(self).wf(),
            final(self).toks() == old(self).toks(),
            match r {
                Ok(node) => spec_equality(old(self).toks(), old(self).at()) == Ok::<
                    (EqualityV, int),
                    ParseErrorV,
                >((equality_view(node), final(self).at())) && old(self).at() < final(self).at()
                    <= old(self).toks().len(),
                Err(e) => spec_equality(old(self).toks(), old(self).at()) == Err::<
                    (EqualityV, int),
                    ParseErrorV,
                >(e.deep_view()),
            },
        decreases self.tokens@.len() - self.pos, 8int,
    {
        let ghost ts = self.toks();
        let ghost i0 = self.at();
        if self.pos == self.tokens.len() {
            return Err(ParseError::EndOfFile);
        }
        let c = match self.comparison() {
            Ok(c) => c,
            Err(e) => {
                return Err(e);
            },
        };
        let mut state = EqualityLeft::Comparison(c);
        proof {
            assert(step_to(ts.len() as int, i0, self.at()) == self.at());
            assert(equality_left_view(state) == EqualityLeftV::Comparison(comparison_view(c)));
            assert(spec_equality(ts, i0) == spec_equality_rest(
                ts,
                self.at(),
                equality_left_view(state),
            ));
        }
        loop
            invariant
                self.wf(),
                self.toks() == ts,
                i0 < self.at() <= ts.len(),
                spec_equality(ts, i0) == spec_equality_rest(
                    ts,
                    self.at(),
                    equality_left_view(state),
                ),
            decreases ts.len() - self.at(),
        {
            match self.equality_step(state) {
                Ok(LevelStep::Done(node)) => {
                    return Ok(node);
                },
                Ok(LevelStep::More(l2)) => {
                    state = l2;
                },
                Err(e) => {
                    return Err(e);
                },
            }
        }
    }

    /// One step of the equality chain: ends it, or consumes one operator with
    /// its right operand and rewraps the accumulated left operand.
    #[verifier::rlimit(100)]
    #[verifier::loop_isolation(false)]
    fn equality_step(&mut self, left: EqualityLeft) -> (r: Result<
        LevelStep<Equality, EqualityLeft>,
        ParseError,
    >)
        requires
            old(self).wf(),
        ensures
            final(self).wf(),
            final(self).toks() == old(self).toks(),
            match r {
                Ok(LevelStep::Done(node)) => spec_equality_rest(
                    old(self).toks(),
                    old(self).at(),
                    equality_left_view(left),
                ) == Ok::<(EqualityV, int), ParseErrorV>((equality_view(node), final(self).at()))
                    && old(self).at() <= final(self).at() <= old(self).toks().len(),
                Ok(LevelStep::More(l2)) => spec_equality_rest(
                    old(self).toks(),
                    old(self).at(),
                    equality_left_view(left),
                ) == spec_equality_rest(old(self).toks(), final(self).at(), equality_left_view(l2))
                    && old(self).at() < final(self).at() <= old(self).toks().len(),
                Err(e) => spec_equality_rest(
                    old(self).toks(),
                    old(self).at(),
                    equality_left_view(left),
                ) == Err::<(EqualityV, int), ParseErrorV>(e.deep_view()),
            },
        decreases self.tokens@.len() - self.pos, 8int,
    {
        let ghost ts = self.toks();
        let ghost i0 = self.at();
        let ghost lv = equality_left_view(left);
        if self.pos == self.tokens.len() {
            let node = Equality { left, right: None };
            proof {
                assert(equality_view(node) == EqualityV { left: lv, right: None });
            }
            return Ok(LevelStep::Done(node));
        }
        let op = if matches!(&self.tokens[self.pos].token_type, TokenType::EqualEqual) {
            EqualityOp::Equal
        } else if matches!(&self.tokens[self.pos].token_type, TokenType::BangEqual) {
            EqualityOp::NotEqual
        } else {
            let node = Equality { left, right: None };
            proof {
                assert(equality_view(node) == EqualityV { left: lv, right: None });
            }
            return Ok(LevelStep::Done(node));
        };
        self.pos = self.pos + 1;
        let right = match self.comparison() {
            Ok(c2) => c2,
            Err(e) => {
                return Err(e);
            },
        };
        let l2 = EqualityLeft::Equality(
            Box::new(Equality { left, right: Some(EqualityRight { op, right }) }),
        );
        proof {
            assert(step_to(ts.len() as int, i0 + 1, self.at()) == self.at());
            assert(equality_left_view(l2) == EqualityLeftV::Equality(
                Box::new(
                    EqualityV {
                        left: lv,
                        right: Some(EqualityRightV { op, right: comparison_view(right) }),
                    },
                ),
            ));
        }
        Ok(LevelStep::More(l2))
    }

    #[verifier::loop_isolation(false)]
    fn comparison(&mut self) -> (r: Result<Comparison, ParseError>)
        requires
            old(self).wf(),
        ensures
            final(self).wf(),
            final(self).toks() == old(self).toks(),
            match r {
                Ok(node) => spec_comparison(old(self).toks(), old(self).at()) == Ok::<
                    (ComparisonV, int),
                    ParseErrorV,
                >((comparison_view(node), final(self).at())) && old(self).at() < final(self).at()
                    <= old(self).toks().len(),
                Err(e) => spec_comparison(old(self).toks(), old(self).at()) == Err::<
                    (ComparisonV, int),
                    ParseErrorV,
                >(e.deep_view()),
            },
        decreases self.tokens@.len() - self.pos, 7int,
    {
        let ghost ts = self.toks();
        let ghost i0 = self.at();
        if self.pos == self.tokens.len() {
            return Err(ParseError::EndOfFile);
        }
        let t = match self.term() {
            Ok(t) => t,
            Err(e) => {
                return Err(e);
            },
        };
        let mut state = ComparisonLeft::Term(t);
        proof {
            assert(step_to(ts.len() as int, i0, self.at()) == self.at());
            assert(comparison_left_view(state) == ComparisonLeftV::Term(term_view(t)));
            assert(spec_comparison(ts, i0) == spec_comparison_rest(
                ts,
                self.at(),
                comparison_left_view(state),
            ));
        }
        loop
            invariant
                self.wf(),
                self.toks() == ts,
                i0 < self.at() <= ts.len(),
                spec_comparison(ts, i0) == spec_comparison_rest(
                    ts,
                    self.at(),
                    comparison_left_view(state),
                ),
            decreases ts.len() - self.at(),
        {
            match self.comparison_step(state) {
                Ok(LevelStep::Done(node)) => {
                    return Ok(node);
                },
                Ok(LevelStep::More(l2)) => {
                    state = l2;
                },
                Err(e) => {
                    return Err(e);
                },
            }
        }
    }

    /// One step of the comparison chain: ends it, or consumes one operator
    /// with its right operand and rewraps the accumulated left operand.
    #[verifier::rlimit(100)]
    #[verifier::loop_isolation(false)]
    fn comparison_step(&mut self, left: ComparisonLeft) -> (r: Result<
        LevelStep<Comparison, ComparisonLeft>,
        ParseError,
    >)
        requires
            old(self).wf(),
        ensures
            final(self).wf(),
            final(self).toks() == old(self).toks(),
            match r {
                Ok(LevelStep::Done(node)) => spec_comparison_rest(
                    old(self).toks(),
                    old(self).at(),
                    comparison_left_view(left),
                ) == Ok::<(ComparisonV, int), ParseErrorV>(
                    (comparison_view(node), final(self).at()),
                ) && old(self).at() <= final(self).at() <= old(self).toks().len(),
                Ok(LevelStep::More(l2)) => spec_comparison_rest(
                    old(self).toks(),
                    old(self).at(),
                    comparison_left_view(left),
                ) == spec_comparison_rest(
                    old(self).toks(),
                    final(self).at(),
                    comparison_left_view(l2),
                ) && old(self).at() < final(self).at() <= old(self).toks().len(),
                Err(e) => spec_comparison_rest(
                    old(self).toks(),
                    old(self).at(),
                    comparison_left_view(left),
                ) == Err::<(ComparisonV, int), ParseErrorV>(e.deep_view()),
            },
        decreases self.tokens@.len() - self.pos, 7int,
    {
        let ghost ts = self.toks();
        let ghost i0 = self.at();
        let ghost lv = comparison_left_view(left);
        if self.pos == self.tokens.len() {
            let node = Comparison { left, right: None };
            proof {
                assert(comparison_view(node) == ComparisonV { left: lv, right: None });
            }
            return Ok(LevelStep::Done(node));
        }
        let op = if matches!(&self.tokens[self.pos].token_type, TokenType::Greater) {
            ComparisonOp::Greater
        } else if matches!(&self.tokens[self.pos].token_type, TokenType::GreaterEqual) {
            ComparisonOp::GreaterEqual
        } else if matches!(&self.tokens[self.pos].token_type, TokenType::Less) {
            ComparisonOp::Less
        } else if matches!(&self.tokens[self.pos].token_type, TokenType::LessEqual) {
            ComparisonOp::LessEqual
        } else {
            let node = Comparison { left, right: None };
            proof {
                assert(comparison_view(node) == ComparisonV { left: lv, right: None });
            }
            return Ok(LevelStep::Done(node));
        };
        self.pos = self.pos + 1;
        let right = match self.term() {
            Ok(t2) => t2,
            Err(e) => {
                return Err(e);
            },
        };
        let l2 = ComparisonLeft::Comparison(
            Box::new(Comparison { left, right: Some(ComparisonRight { op, right }) }),
        );
        proof {
            assert(step_to(ts.len() as int, i0 + 1, self.at()) == self.at());
            assert(comparison_left_view(l2) == ComparisonLeftV::Comparison(
                Box::new(
                    ComparisonV {
                        left: lv,
                        right: Some(ComparisonRightV { op, right: term_view(right) }),
                    },
                ),
            ));
        }
        Ok(LevelStep::More(l2))
    }

    #[verifier::rlimit(100)]
    #[verifier::loop_isolation(false)]
    fn term(&mut self) -> (r: Result<Term, ParseError>)
        requires
            old(self).wf(),
        ensures
            final(self).wf(),
            final(self).toks() == old(self).toks(),
            match r {
                Ok(node) => spec_term(old(self).toks(), old(self).at()) == Ok::<
                    (TermV, int),
                    ParseErrorV,
                >((term_view(node), final(self).at())) && old(self).at() < final(self).at()
                    <= old(self).toks().len(),
                Err(e) => spec_term(old(self).toks(), old(self).at()) == Err::<
                    (TermV, int),
                    ParseErrorV,
                >(e.deep_view()),
            },
        decreases self.tokens@.len() - self.pos, 6int,
    {
        let ghost ts = self.toks();
        let ghost i0 = self.at();
        if self.pos == self.tokens.len() {
            return Err(ParseError::EndOfFile);
        }
        let f = match self.factor() {
            Ok(f) => f,
            Err(e) => {
                return Err(e);
            },
        };
        let mut left = TermLeft::Factor(f);
        loop
            invariant
                self.wf(),
                self.toks() == ts,
                i0 < self.at() <= ts.len(),
                spec_term(ts, i0) == spec_term_rest(ts, self.at(), term_left_view(left)),
            decreases ts.len() - self.at(),
        {
            if self.pos == self.tokens.len() {
                return Ok(Term { left, right: None });
            }
            let op = if matches!(&self.tokens[self.pos].token_type, TokenType::Minus) {
                TermOp::Minus
            } else if matches!(&self.tokens[self.pos].token_type, TokenType::Plus) {
                TermOp::Plus
            } else {
                return Ok(Term { left, right: None });
            };
            self.pos = self.pos + 1;
            let right = match self.factor() {
                Ok(f2) => f2,
                Err(e) => {
                    return Err(e);
                },
            };
            left = TermLeft::Term(Box::new(Term { left, right: Some(TermRight { op, right }) }));
        }
    }

    #[verifier::rlimit(100)]
    #[verifier::loop_isolation(false)]
    fn factor(&mut self) -> (r: Result<Factor, ParseError>)
        requires
            old(self).wf(),
        ensures
            final(self).wf(),
            final(self).toks() == old(self).toks(),
            match r {
                Ok(node) => spec_factor(old(self).toks(), old(self).at()) == Ok::<
                    (FactorV, int),
                    ParseErrorV,
                >((factor_view(node), final(self).at())) && old(self).at() < final(self).at()
                    <= old(self).toks().len(),
                Err(e) => spec_factor(old(self).toks(), old(self).at()) == Err::<
                    (FactorV, int),
                    ParseErrorV,
                >(e.deep_view()),
            },
        decreases self.tokens@.len() - self.pos, 5int,
    {
        let ghost ts = self.toks();
        let ghost i0 = self.at();
        if self.pos == self.tokens.len() {
            return Err(ParseError::EndOfFile);
        }
        let u = match self.unary() {
            Ok(u) => u,
            Err(e) => {
                return Err(e);
            },
        };
        let mut left = FactorLeft::Unary(u);
        loop
            invariant
                self.wf(),
                self.toks() == ts,
                i0 < self.at() <= ts.len(),
                spec_factor(ts, i0) == spec_factor_rest(ts, self.at(), factor_left_view(left)),
            decreases ts.len() - self.at(),
        {
            if self.pos == self.tokens.len() {
                return Ok(Factor { left, right: None });
            }
            let op = if matches!(&self.tokens[self.pos].token_type, TokenType::Slash) {
                FactorOp::Div
            } else if matches!(&self.tokens[self.pos].token_type, TokenType::Star) {
                FactorOp::Mult
            } else {
                return Ok(Factor { left, right: None });
            };
            self.pos = self.pos + 1;
            let right = match self.unary() {
                Ok(u2) => u2,
                Err(e) => {
                    return Err(e);
                },
            };
            left = FactorLeft::Factor(
                Box::new(Factor { left, right: Some(FactorRight { op, right }) }),
            );
        }
    }

    /// The one genuinely recursive production: `!`/`-` nest right-associatively.
    fn unary(&mut self) -> (r: Result<Unary, ParseError>)
        requires
            old(self).wf(),
        ensures
            final(self).wf(),
            final(self).toks() == old(self).toks(),
            match r {
                Ok(node) => spec_unary(old(self).toks(), old(self).at()) == Ok::<
                    (UnaryV, int),
                    ParseErrorV,
                >((unary_view(node), final(self).at())) && old(self).at() < final(self).at()
                    <= old(self).toks().len(),
                Err(e) => spec_unary(old(self).toks(), old(self).at()) == Err::<
                    (UnaryV, int),
                    ParseErrorV,
                >(e.deep_view()),
            },
        decreases self.tokens@.len() - self.pos, 4int,
    {
        if self.pos == self.tokens.len() {
            return Err(ParseError::EndOfFile);
        }
        let op: Option<UnaryOp> = if matches!(&self.tokens[self.pos].token_type, TokenType::Bang) {
            Some(UnaryOp::Not)
        } else if matches!(&self.tokens[self.pos].token_type, TokenType::Minus) {
            Some(UnaryOp::Minus)
        } else {
            None
        };
        match op {
            Some(o) => {
                self.pos = self.pos + 1;
                match self.unary() {
                    Ok(u) => Ok(
                        Unary { op: Some(o), right: Box::new(UnaryRight::Unary(u)) },
                    ),
                    Err(e) => Err(e),
                }
            },
            None => {
                match self.primary() {
                    Ok(p) => Ok(Unary { op: None, right: Box::new(UnaryRight::Primary(p)) }),
                    Err(e) => Err(e),
                }
            },
        }
    }

    fn primary(&mut self) -> (r: Result<Primary, ParseError>)
        requires
            old(self).wf(),
        ensures
            final(self).wf(),
            final(self).toks() == old(self).toks(),
            match r {
                Ok(node) => spec_primary(old(self).toks(), old(self).at()) == Ok::<
                    (PrimaryV, int),
                    ParseErrorV,
                >((primary_view(node), final(self).at())) && old(self).at() < final(self).at()
                    <= old(self).toks().len(),
                Err(e) => spec_primary(old(self).toks(), old(self).at()) == Err::<
                    (PrimaryV, int),
                    ParseErrorV,
                >(e.deep_view()),
            },
        decreases self.tokens@.len() - self.pos, 3int,
    {
        if self.pos == self.tokens.len() {
            return Err(ParseError::EndOfFile);
        }
        let kind = self.tokens[self.pos].token_type.clone();
        match kind {
            TokenType::Int(lit) => {
                self.pos = self.pos + 1;
                Ok(Primary::Int(lit))
            },
            TokenType::Float(lit) => {
                self.pos = self.pos + 1;
                Ok(Primary::Float(lit))
            },
            TokenType::String(lit) => {
                self.pos = self.pos + 1;
                Ok(Primary::String(lit))
            },
            TokenType::True => {
                self.pos = self.pos + 1;
                Ok(Primary::True)
            },
            TokenType::False => {
                self.pos = self.pos + 1;
                Ok(Primary::False)
            },
            TokenType::Identifier(lit) => {
                self.pos = self.pos + 1;
                Ok(Primary::Identifier(Identifier(lit)))
            },
            TokenType::LeftParen => {
                self.pos = self.pos + 1;
                let e = match self.expr() {
                    Ok(e) => e,
                    Err(err) => {
                        return Err(err);
                    },
                };
                if self.pos == self.tokens.len() {
                    return Err(ParseError::EndOfFile);
                }
                if matches!(&self.tokens[self.pos].token_type, TokenType::RightParen) {
                    self.pos = self.pos + 1;
                    Ok(Primary::Grouping(e))
                } else {
                    let t = self.tokens[self.pos].clone();
                    Err(ParseError::UnexpectedToken(t))
                }
            },
            _ => {
                let t = self.tokens[self.pos].clone();
                Err(ParseError::UnexpectedToken(t))
            },
        }
    }
}

} // verus!
