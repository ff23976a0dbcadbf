use yapl::ast::{
    Assignment, AssignedVal, Comparison, ComparisonLeft, Declaration, Equality,
    EqualityLeft, Expr, Factor, FactorLeft, FactorOp, FactorRight, Identifier, LogicAnd,
    LogicAndLeft, LogicOr, LogicOrLeft, Primary, Program, Statement, Term, TermLeft, TermOp,
    TermRight, Unary, UnaryOp, UnaryRight, Variable, VariableType,
};
use yapl::lexer::Lexer;
use yapl::parser::{ParseError, Parser};
use yapl::token::{Token, TokenType};

fn parse(src: &str) -> Result<Program, ParseError> {
    let mut lexer = Lexer::new(src.chars().collect());
    let tokens = lexer.tokenize();
    let mut parser = Parser::new(tokens);
    parser.parse()
}

// --- expected-tree building helpers -----------------------------------------

fn prim(p: Primary) -> Unary {
    Unary { op: None, right: Box::new(UnaryRight::Primary(p)) }
}

fn int_lit(text: &str) -> Unary {
    prim(Primary::Int(text.to_string()))
}

fn factor_one(u: Unary) -> Factor {
    Factor { left: FactorLeft::Unary(u), right: None }
}

fn term_one(f: Factor) -> Term {
    Term { left: TermLeft::Factor(f), right: None }
}

fn expr_of(t: Term) -> Expr {
    Expr::Assignment(Assignment::LogicOr(LogicOr {
        left: LogicOrLeft::LogicAnd(LogicAnd {
            left: LogicAndLeft::Equality(Equality {
                left: EqualityLeft::Comparison(Comparison {
                    left: ComparisonLeft::Term(t),
                    right: None,
                }),
                right: None,
            }),
            right: None,
        }),
        right: None,
    }))
}

fn expr_stmt(t: Term) -> Declaration {
    Declaration::Statement(Statement::Expression(expr_of(t)))
}

// -----------------------------------------------------------------------------

#[test]
fn multiplication_binds_tighter_than_addition() {
    // 1 + 2 * 3: the multiplication is the right operand of the addition
    let two_times_three = Factor {
        left: FactorLeft::Factor(Box::new(Factor {
            left: FactorLeft::Unary(int_lit("2")),
            right: Some(FactorRight { op: FactorOp::Mult, right: int_lit("3") }),
        })),
        right: None,
    };
    let expected = Term {
        left: TermLeft::Term(Box::new(Term {
            left: TermLeft::Factor(factor_one(int_lit("1"))),
            right: Some(TermRight { op: TermOp::Plus, right: two_times_three }),
        })),
        right: None,
    };
    let program = parse("1 + 2 * 3").unwrap();
    assert_eq!(
        program,
        Program { declarations: vec![expr_stmt(expected)] }
    );
}

#[test]
fn subtraction_is_left_associative() {
    // 1 - 2 - 3 parses as (1 - 2) - 3
    let one_minus_two = Term {
        left: TermLeft::Factor(factor_one(int_lit("1"))),
        right: Some(TermRight { op: TermOp::Minus, right: factor_one(int_lit("2")) }),
    };
    let expected = Term {
        left: TermLeft::Term(Box::new(Term {
            left: TermLeft::Term(Box::new(one_minus_two)),
            right: Some(TermRight { op: TermOp::Minus, right: factor_one(int_lit("3")) }),
        })),
        right: None,
    };
    let program = parse("1 - 2 - 3").unwrap();
    assert_eq!(
        program,
        Program { declarations: vec![expr_stmt(expected)] }
    );
}

#[test]
fn function_declaration_with_parameters() {
    let program = parse("fun f(a, b) { return a + b }").unwrap();
    assert_eq!(program.declarations.len(), 1);
    match &program.declarations[0] {
        Declaration::Function(f) => {
            assert_eq!(f.ident, Identifier("f".to_string()));
            let args = f.args.as_ref().unwrap();
            assert_eq!(
                args.args,
                vec![Identifier("a".to_string()), Identifier("b".to_string())]
            );
            assert_eq!(f.block.declarations.len(), 1);
            assert!(matches!(
                f.block.declarations[0],
                Declaration::Statement(Statement::Return(_))
            ));
        },
        other => panic!("expected a function declaration, got {:?}", other),
    }
}

#[test]
fn unbalanced_grouping_hits_end_of_file() {
    let err = parse("(1 + 2").unwrap_err();
    assert_eq!(err, ParseError::EndOfFile);
}

#[test]
fn variable_declarations() {
    let program = parse("val x = 1").unwrap();
    assert_eq!(
        program,
        Program {
            declarations: vec![Declaration::Variable(Variable {
                v_type: VariableType::Val,
                ident: Identifier("x".to_string()),
                value: expr_of(term_one(factor_one(int_lit("1")))),
            })],
        }
    );
    let program = parse("var y = 2").unwrap();
    match &program.declarations[0] {
        Declaration::Variable(v) => {
            assert!(matches!(v.v_type, VariableType::Var));
            assert_eq!(v.ident, Identifier("y".to_string()));
        },
        other => panic!("expected a variable declaration, got {:?}", other),
    }
}

#[test]
fn assignment_expression() {
    let program = parse("x = 5").unwrap();
    match &program.declarations[0] {
        Declaration::Statement(Statement::Expression(Expr::Assignment(
            Assignment::AssignedVal(AssignedVal { ident, expr }),
        ))) => {
            assert_eq!(*ident, Identifier("x".to_string()));
            assert_eq!(**expr, expr_of(term_one(factor_one(int_lit("5")))));
        },
        other => panic!("expected an assignment, got {:?}", other),
    }
}

#[test]
fn grouping_and_unary() {
    let program = parse("-(1)").unwrap();
    let grouped = expr_of(term_one(factor_one(prim(Primary::Grouping(expr_of(
        term_one(factor_one(int_lit("1"))),
    ))))));
    let expected = expr_of(term_one(factor_one(Unary {
        op: Some(UnaryOp::Minus),
        right: Box::new(UnaryRight::Unary(match grouped {
            Expr::Assignment(Assignment::LogicOr(o)) => match o.left {
                LogicOrLeft::LogicAnd(a) => match a.left {
                    LogicAndLeft::Equality(e) => match e.left {
                        EqualityLeft::Comparison(c) => match c.left {
                            ComparisonLeft::Term(t) => match t.left {
                                TermLeft::Factor(f) => match f.left {
                                    FactorLeft::Unary(u) => u,
                                    _ => panic!("unexpected factor shape"),
                                },
                                _ => panic!("unexpected term shape"),
                            },
                            _ => panic!("unexpected comparison shape"),
                        },
                        _ => panic!("unexpected equality shape"),
                    },
                    _ => panic!("unexpected conjunction shape"),
                },
                _ => panic!("unexpected disjunction shape"),
            },
            _ => panic!("unexpected expression shape"),
        })),
    })));
    let program2 = parse("-(1)").unwrap();
    assert_eq!(program, program2);
    match &program.declarations[0] {
        Declaration::Statement(Statement::Expression(e)) => assert_eq!(*e, expected),
        other => panic!("expected an expression statement, got {:?}", other),
    }
}

#[test]
fn loop_print_return_statements() {
    let program = parse("loop { print(1) }").unwrap();
    match &program.declarations[0] {
        Declaration::Statement(Statement::Loop(l)) => {
            assert_eq!(l.block.declarations.len(), 1);
            assert!(matches!(
                l.block.declarations[0],
                Declaration::Statement(Statement::Print(_))
            ));
        },
        other => panic!("expected a loop statement, got {:?}", other),
    }
    let program = parse("return 1").unwrap();
    assert!(matches!(
        program.declarations[0],
        Declaration::Statement(Statement::Return(_))
    ));
}

#[test]
fn comparison_chain_parses() {
    let program = parse("1 < 2").unwrap();
    match &program.declarations[0] {
        Declaration::Statement(Statement::Expression(Expr::Assignment(
            Assignment::LogicOr(o),
        ))) => {
            let LogicOrLeft::LogicAnd(a) = &o.left else {
                panic!("unexpected disjunction shape")
            };
            let LogicAndLeft::Equality(e) = &a.left else {
                panic!("unexpected conjunction shape")
            };
            let EqualityLeft::Comparison(c) = &e.left else {
                panic!("unexpected equality shape")
            };
            assert!(matches!(c.left, ComparisonLeft::Comparison(_)));
        },
        other => panic!("expected an expression statement, got {:?}", other),
    }
}

#[test]
fn unexpected_token_is_reported_with_the_token() {
    let err = parse("val 1 = 2").unwrap_err();
    match err {
        ParseError::UnexpectedToken(t) => {
            assert_eq!(t.token_type, TokenType::Int("1".to_string()));
        },
        other => panic!("expected an unexpected-token error, got {:?}", other),
    }
}

#[test]
fn print_requires_parentheses() {
    let err = parse("print 1").unwrap_err();
    assert!(matches!(err, ParseError::UnexpectedToken(_)));
}

#[test]
fn empty_input_parses_to_empty_program() {
    let program = parse("").unwrap();
    assert_eq!(program, Program { declarations: vec![] });
}

#[test]
fn function_without_parameters() {
    let program = parse("fun main() { return 0 }").unwrap();
    match &program.declarations[0] {
        Declaration::Function(f) => {
            assert_eq!(f.ident, Identifier("main".to_string()));
            assert!(f.args.is_none());
        },
        other => panic!("expected a function declaration, got {:?}", other),
    }
}

#[test]
fn parser_accepts_hand_built_tokens() {
    // the parser never touches characters: hand-built tokens work alone
    let tokens = vec![
        Token { token_type: TokenType::Val, char: 0, line: 1 },
        Token { token_type: TokenType::Identifier("n".to_string()), char: 4, line: 1 },
        Token { token_type: TokenType::Equal, char: 6, line: 1 },
        Token { token_type: TokenType::Int("7".to_string()), char: 8, line: 1 },
    ];
    let mut parser = Parser::new(tokens);
    let program = parser.parse().unwrap();
    assert!(matches!(program.declarations[0], Declaration::Variable(_)));
}

#[test]
fn missing_initializer_hits_end_of_file() {
    let err = parse("val x").unwrap_err();
    assert_eq!(err, ParseError::EndOfFile);
}

#[test]
fn unclosed_block_hits_end_of_file() {
    // the closing brace is a required token of every block
    assert_eq!(parse("loop {").unwrap_err(), ParseError::EndOfFile);
    assert_eq!(parse("fun f() { return 1").unwrap_err(), ParseError::EndOfFile);
    assert_eq!(parse("loop { val x = 1").unwrap_err(), ParseError::EndOfFile);
}

#[test]
fn trailing_identifier_is_an_expression() {
    // no `=` follows, so the lone identifier falls through to the
    // pass-through expression chain
    let program = parse("x").unwrap();
    assert_eq!(
        program,
        Program {
            declarations: vec![expr_stmt(term_one(factor_one(prim(Primary::Identifier(
                Identifier("x".to_string())
            )))))],
        }
    );
}
