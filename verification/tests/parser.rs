use rrain::ast::{
    AAssnPrefix, ABinexpr, ABlock, ACompound, ACompoundFBody, AElseStmt, AFnargs, AFnparams,
    APrefix, APrimary, APrimaryBody, ASimple, AStatement, AUnexpr, AVarPrefix, Op, AST,
};
use rrain::lexer::lex;
use rrain::parser::parse;

/// Lex and parse a whole program, expecting success with no unread tokens.
fn program(src: &str) -> Vec<AStatement> {
    let toks = lex(src).expect("lexing should succeed");
    let n = toks.len();
    let mut pos = 0usize;
    let ast = parse(&toks, &mut pos).expect("parsing should succeed");
    assert_eq!(pos, n, "a successful top-level parse reads every token");
    let AST::AStatements(stmts) = ast;
    stmts
}

/// The single identifier an expression consists of, if it is one.
fn expr_name(be: &ABinexpr) -> &str {
    let ABinexpr::ABinexpr(u, tail) = be;
    assert!(tail.is_empty(), "expected a bare name, found an operator chain");
    unexpr_name(u)
}

fn unexpr_name(u: &AUnexpr) -> &str {
    match u {
        AUnexpr::AUnexprS(ASimple::ASimpleP(APrimary::APrimary(APrefix::APrefixN(n), bodies)))
            if bodies.is_empty() => n,
        _ => panic!("expected a bare name"),
    }
}

fn unexpr_int(u: &AUnexpr) -> i64 {
    match u {
        AUnexpr::AUnexprS(ASimple::ASimpleP(APrimary::APrimary(APrefix::APrefixI(i), bodies)))
            if bodies.is_empty() => *i,
        _ => panic!("expected a bare integer literal"),
    }
}

fn expr_int(be: &ABinexpr) -> i64 {
    let ABinexpr::ABinexpr(u, tail) = be;
    assert!(tail.is_empty());
    unexpr_int(u)
}

#[test]
fn assignment_with_operator_chain() {
    let stmts = program("a = b + c\n");
    assert_eq!(stmts.len(), 1);
    match &stmts[0] {
        AStatement::AAssign(lhs, rhs) => {
            match lhs {
                AAssnPrefix::AAssnPrefixB(be) => assert_eq!(expr_name(be), "a"),
                _ => panic!("left side should be a bare expression prefix"),
            }
            match rhs {
                ACompound::ACompoundB(ABinexpr::ABinexpr(u, tail)) => {
                    assert_eq!(unexpr_name(u), "b");
                    assert_eq!(tail.len(), 1);
                    assert_eq!(tail[0].0, Op::Op("+".to_string()));
                    assert_eq!(unexpr_name(&tail[0].1), "c");
                },
                _ => panic!("right side should be an expression"),
            }
        },
        _ => panic!("expected an assignment"),
    }
}

#[test]
fn flat_operator_chain_has_no_precedence_levels() {
    let stmts = program("x = a + b * c\n");
    match &stmts[0] {
        AStatement::AAssign(_, ACompound::ACompoundB(ABinexpr::ABinexpr(u, tail))) => {
            assert_eq!(unexpr_name(u), "a");
            assert_eq!(tail.len(), 2);
            assert_eq!(tail[0].0, Op::Op("+".to_string()));
            assert_eq!(unexpr_name(&tail[0].1), "b");
            assert_eq!(tail[1].0, Op::Op("*".to_string()));
            assert_eq!(unexpr_name(&tail[1].1), "c");
        },
        _ => panic!("expected an assignment to an expression"),
    }
}

#[test]
fn destructuring_assignment_with_call() {
    let stmts = program("[a, b] = f(1, 2)\n");
    assert_eq!(stmts.len(), 1);
    match &stmts[0] {
        AStatement::AAssign(lhs, rhs) => {
            match lhs {
                AAssnPrefix::AAssnPrefix(head, tail) => {
                    match head.as_ref() {
                        AAssnPrefix::AAssnPrefixB(be) => assert_eq!(expr_name(be), "a"),
                        _ => panic!("head should be a bare name"),
                    }
                    assert_eq!(tail.len(), 1);
                    match &tail[0] {
                        AAssnPrefix::AAssnPrefixB(be) => assert_eq!(expr_name(be), "b"),
                        _ => panic!("tail element should be a bare name"),
                    }
                },
                _ => panic!("left side should be a destructuring list"),
            }
            match rhs {
                ACompound::ACompoundB(ABinexpr::ABinexpr(u, tail)) => {
                    assert!(tail.is_empty());
                    match u {
                        AUnexpr::AUnexprS(ASimple::ASimpleP(APrimary::APrimary(
                            APrefix::APrefixN(f),
                            bodies,
                        ))) => {
                            assert_eq!(f, "f");
                            assert_eq!(bodies.len(), 1);
                            match &bodies[0] {
                                APrimaryBody::AFnargs(AFnargs::AFnargs(args)) => {
                                    assert_eq!(args.len(), 2);
                                    assert_eq!(expr_int(&args[0]), 1);
                                    assert_eq!(expr_int(&args[1]), 2);
                                },
                                _ => panic!("expected a call"),
                            }
                        },
                        _ => panic!("expected a call on a name"),
                    }
                },
                _ => panic!("right side should be an expression"),
            }
        },
        _ => panic!("expected an assignment"),
    }
}

#[test]
fn bare_if_fails_with_end_of_input() {
    let toks = lex("if").expect("lexing should succeed");
    let mut pos = 0usize;
    let e = parse(&toks, &mut pos).expect_err("nothing follows the keyword");
    assert_eq!(e, "unexpected end of input");
}

#[test]
fn if_statement_with_block() {
    // under the marker order of the lexer (block end before line end), the
    // last statement of a block is not followed by a line end, so the
    // block's repetition stops before collecting it
    let stmts = program("if x\n  y = 1\n  z\n");
    assert_eq!(stmts.len(), 1);
    match &stmts[0] {
        AStatement::AIf(rrain::ast::AIfStmt::AIfStmt(cond, ABlock::ABlock(body))) => {
            assert_eq!(expr_name(cond), "x");
            assert_eq!(body.len(), 1);
            match &body[0] {
                AStatement::AAssign(AAssnPrefix::AAssnPrefixB(be), ACompound::ACompoundB(v)) => {
                    assert_eq!(expr_name(be), "y");
                    assert_eq!(expr_int(v), 1);
                },
                _ => panic!("block should hold the assignment"),
            }
        },
        _ => panic!("expected an if statement"),
    }
}

#[test]
fn block_repetition_stops_at_missing_line_end() {
    // the single body statement is directly followed by the block-end
    // marker, so the (statement, line end) repetition keeps nothing
    let stmts = program("if x\n  y = 1\n");
    match &stmts[0] {
        AStatement::AIf(rrain::ast::AIfStmt::AIfStmt(cond, ABlock::ABlock(body))) => {
            assert_eq!(expr_name(cond), "x");
            assert_eq!(body.len(), 0);
        },
        _ => panic!("expected an if statement"),
    }
}

#[test]
fn for_statement_with_destructuring_target() {
    let stmts = program("for [i, j] in ps\n  x = 1\n  y\n");
    match &stmts[0] {
        AStatement::AFor(vp, be, ABlock::ABlock(body)) => {
            match vp {
                AVarPrefix::AVarPrefix(head, tail) => {
                    assert_eq!(**head, AVarPrefix::AVarPrefixN("i".to_string()));
                    assert_eq!(tail.len(), 1);
                    assert_eq!(tail[0], AVarPrefix::AVarPrefixN("j".to_string()));
                },
                _ => panic!("expected a destructuring target"),
            }
            assert_eq!(expr_name(be), "ps");
            assert_eq!(body.len(), 1);
        },
        _ => panic!("expected a for statement"),
    }
}

#[test]
fn else_if_and_else_block() {
    let stmts = program("else if x\n  y = 1\n  z\n");
    assert!(matches!(
        &stmts[0],
        AStatement::AElse(AElseStmt::AElseStmtI(_))
    ));
    let stmts = program("else\n  y = 1\n  z\n");
    assert!(matches!(
        &stmts[0],
        AStatement::AElse(AElseStmt::AElseStmtB(_))
    ));
}

#[test]
fn break_and_continue_statements() {
    let stmts = program("break\ncontinue\n");
    assert_eq!(stmts, vec![AStatement::ABreak, AStatement::AContinue]);
}

#[test]
fn function_literal_with_arrow_body() {
    let stmts = program("f = func (a, b) -> a + b\n");
    match &stmts[0] {
        AStatement::AAssign(_, ACompound::ACompoundF(AFnparams::AFnparams(ps), body)) => {
            assert_eq!(ps, &vec!["a".to_string(), "b".to_string()]);
            match body {
                ACompoundFBody::ABinexpr(ABinexpr::ABinexpr(u, tail)) => {
                    assert_eq!(unexpr_name(u), "a");
                    assert_eq!(tail.len(), 1);
                },
                _ => panic!("expected an arrow body"),
            }
        },
        _ => panic!("expected a function literal assignment"),
    }
}

#[test]
fn function_literal_with_empty_parameters_and_block_body() {
    let stmts = program("f = func ()\n  x = 1\n  y\n");
    match &stmts[0] {
        AStatement::AAssign(_, ACompound::ACompoundF(AFnparams::AFnparams(ps), body)) => {
            assert!(ps.is_empty());
            match body {
                ACompoundFBody::ABlock(ABlock::ABlock(b)) => assert_eq!(b.len(), 1),
                _ => panic!("expected a block body"),
            }
        },
        _ => panic!("expected a function literal assignment"),
    }
}

#[test]
fn catch_compound() {
    let stmts = program("x = catch\n  y = 1\n  z\n");
    match &stmts[0] {
        AStatement::AAssign(_, ACompound::ACompoundC(ABlock::ABlock(b))) => {
            assert_eq!(b.len(), 1);
        },
        _ => panic!("expected a catch assignment"),
    }
}

#[test]
fn unary_operators_nest_to_the_right() {
    let stmts = program("x = !!a\n");
    match &stmts[0] {
        AStatement::AAssign(_, ACompound::ACompoundB(ABinexpr::ABinexpr(u, tail))) => {
            assert!(tail.is_empty());
            match u {
                AUnexpr::AUnexpr(o1, inner) => {
                    assert_eq!(*o1, Op::Op("!".to_string()));
                    match inner.as_ref() {
                        AUnexpr::AUnexpr(o2, innermost) => {
                            assert_eq!(*o2, Op::Op("!".to_string()));
                            assert_eq!(unexpr_name(innermost), "a");
                        },
                        _ => panic!("expected a nested unary expression"),
                    }
                },
                _ => panic!("expected a unary expression"),
            }
        },
        _ => panic!("expected an assignment"),
    }
}

#[test]
fn postfix_chain_field_index_and_named_call() {
    let stmts = program("v = x.y[i]:m(a)\n");
    match &stmts[0] {
        AStatement::AAssign(_, ACompound::ACompoundB(ABinexpr::ABinexpr(u, _))) => match u {
            AUnexpr::AUnexprS(ASimple::ASimpleP(APrimary::APrimary(
                APrefix::APrefixN(x),
                bodies,
            ))) => {
                assert_eq!(x, "x");
                assert_eq!(bodies.len(), 3);
                assert!(matches!(&bodies[0], APrimaryBody::AName(n) if n == "y"));
                assert!(matches!(&bodies[1], APrimaryBody::ABinexpr(_)));
                assert!(
                    matches!(&bodies[2], APrimaryBody::ANameFnargs(n, _) if n == "m")
                );
            },
            _ => panic!("expected a postfix chain on a name"),
        },
        _ => panic!("expected an assignment"),
    }
}

#[test]
fn parenthesized_expression_atom() {
    let stmts = program("v = (a + b) * c\n");
    match &stmts[0] {
        AStatement::AAssign(_, ACompound::ACompoundB(ABinexpr::ABinexpr(u, tail))) => {
            assert_eq!(tail.len(), 1);
            assert_eq!(tail[0].0, Op::Op("*".to_string()));
            match u {
                AUnexpr::AUnexprS(ASimple::ASimpleP(APrimary::APrimary(
                    APrefix::APrefixP(inner),
                    bodies,
                ))) => {
                    assert!(bodies.is_empty());
                    let ABinexpr::ABinexpr(iu, itail) = inner.as_ref();
                    assert_eq!(unexpr_name(iu), "a");
                    assert_eq!(itail.len(), 1);
                },
                _ => panic!("expected a parenthesized atom"),
            }
        },
        _ => panic!("expected an assignment"),
    }
}

#[test]
fn literal_atoms() {
    let stmts = program("v = null\nw = true\nx = 42\ny = 4.5\nz = \"s\"\n");
    assert_eq!(stmts.len(), 5);
    let atom_is = |s: &AStatement, want: &APrefix| -> bool {
        match s {
            AStatement::AAssign(_, ACompound::ACompoundB(ABinexpr::ABinexpr(u, _))) => match u {
                AUnexpr::AUnexprS(ASimple::ASimpleP(APrimary::APrimary(p, _))) => p == want,
                _ => panic!("expected an atom"),
            },
            _ => panic!("expected an assignment"),
        }
    };
    assert!(atom_is(&stmts[0], &APrefix::APrefixNull));
    assert!(atom_is(&stmts[1], &APrefix::APrefixB(true)));
    assert!(atom_is(&stmts[2], &APrefix::APrefixI(42)));
    assert!(atom_is(&stmts[3], &APrefix::APrefixF("4.5".to_string())));
    assert!(atom_is(&stmts[4], &APrefix::APrefixS("s".to_string())));
}

#[test]
fn bare_expression_statement() {
    let stmts = program("a\n");
    match &stmts[0] {
        AStatement::AAssignPrefix(AAssnPrefix::AAssnPrefixB(be)) => {
            assert_eq!(expr_name(be), "a");
        },
        _ => panic!("expected a bare expression statement"),
    }
}

#[test]
fn empty_input_parses_to_empty_program() {
    let stmts = program("");
    assert!(stmts.is_empty());
}

#[test]
fn statement_not_fitting_the_grammar_is_an_error() {
    let toks = lex("= x\n").expect("lexing should succeed");
    let mut pos = 0usize;
    let e = parse(&toks, &mut pos).expect_err("no statement starts with `=`");
    assert!(e.starts_with("unexpected "));
    assert_eq!(pos, 0, "a rejected first token is not consumed");
}

#[test]
fn keyword_without_a_statement_form_is_an_error() {
    // `while` is a keyword of the lexer, but no statement production
    // accepts it, and a keyword is no expression atom either
    let toks = lex("while x\n").expect("lexing should succeed");
    let mut pos = 0usize;
    let e = parse(&toks, &mut pos).expect_err("no production accepts it");
    assert!(e.starts_with("unexpected keyword `while`"));
}

#[test]
fn statement_without_line_end_is_an_error() {
    let toks = lex("a = 1").expect("lexing should succeed");
    let mut pos = 0usize;
    let e = parse(&toks, &mut pos).expect_err("the pair needs its line end");
    assert_eq!(e, "unexpected end of input");
    assert_eq!(pos, toks.len());
}
