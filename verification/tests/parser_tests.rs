use beatsaber::ast1::{parse_expr, parse_ops, parser, AssignTarget, AssignValue, Behaviour, Expr};
use beatsaber::lexer::{lexer, ParseError};

#[test]
fn double_dot_parses_to_nested_unops() {
    // `a..` closed by the behaviour separator is UnOp(UnOp(a)).
    let src = b"a.. //";
    let mut lex = lexer(src);
    let e = parse_expr(&mut lex).unwrap();
    match e {
        Expr::Unop { expr: outer, .. } => match *outer {
            Expr::Unop { expr: inner, .. } => match *inner {
                Expr::Ident(sp) => assert_eq!(&src[sp.start..sp.end], b"a"),
                other => panic!("expected identifier leaf, got {:?}", other),
            },
            other => panic!("expected inner unary op, got {:?}", other),
        },
        other => panic!("expected unary op, got {:?}", other),
    }
}

#[test]
fn dot_between_operands_parses_to_binop() {
    let src = b"a.b //";
    let mut lex = lexer(src);
    let e = parse_expr(&mut lex).unwrap();
    match e {
        Expr::Binop { lhs, rhs, .. } => {
            match *lhs {
                Expr::Ident(sp) => assert_eq!(&src[sp.start..sp.end], b"a"),
                other => panic!("expected identifier lhs, got {:?}", other),
            }
            match *rhs {
                Expr::Ident(sp) => assert_eq!(&src[sp.start..sp.end], b"b"),
                other => panic!("expected identifier rhs, got {:?}", other),
            }
        },
        other => panic!("expected binary op, got {:?}", other),
    }
}

#[test]
fn parenthesised_binop_with_trailing_dot_is_unop_of_paren() {
    let src = b"(a.b). //";
    let mut lex = lexer(src);
    let e = parse_expr(&mut lex).unwrap();
    match e {
        Expr::Unop { expr: inner, .. } => match *inner {
            Expr::Paren { expr: grouped, .. } => match *grouped {
                Expr::Binop { .. } => {},
                other => panic!("expected binary op inside parens, got {:?}", other),
            },
            other => panic!("expected parenthesised group, got {:?}", other),
        },
        other => panic!("expected unary op, got {:?}", other),
    }
}

#[test]
fn op_chain_marks_then_on_all_but_the_last() {
    let src = b"f then g then h\n";
    let mut lex = lexer(src);
    let ops = parse_ops(&mut lex).unwrap();
    assert_eq!(ops.len(), 3);
    assert!(ops[0].then.is_some());
    assert!(ops[1].then.is_some());
    assert!(ops[2].then.is_none());
    assert_eq!(&src[ops[0].ident.start..ops[0].ident.end], b"f");
    assert_eq!(&src[ops[1].ident.start..ops[1].ident.end], b"g");
    assert_eq!(&src[ops[2].ident.start..ops[2].ident.end], b"h");
}

#[test]
fn statement_without_expression_carries_its_line() {
    let src = b"\n\n// x is 42\n";
    let mut p = parser(lexer(src));
    let stmt = p.next().unwrap().unwrap();
    assert_eq!(stmt.line, 3);
    assert!(stmt.expr.is_none());
    match stmt.behaviour {
        Behaviour::Assign { target, value, .. } => {
            match target {
                AssignTarget::Ident(sp) => assert_eq!(&src[sp.start..sp.end], b"x"),
                other => panic!("expected identifier target, got {:?}", other),
            }
            match value {
                AssignValue::Number(_, n) => assert_eq!(n, 42),
                other => panic!("expected number value, got {:?}", other),
            }
        },
        other => panic!("expected assignment, got {:?}", other),
    }
    assert!(p.next().unwrap().is_none());
}

#[test]
fn statement_with_expression_expects_separator() {
    let src = b"a is b\n";
    let mut p = parser(lexer(src));
    assert!(p.next().is_err());
}

#[test]
fn behaviour_wrappers_nest() {
    let src = b"x // still in f if c return is\n";
    let mut p = parser(lexer(src));
    let stmt = p.next().unwrap().unwrap();
    match stmt.behaviour {
        Behaviour::StillIn { ident, behaviour, .. } => {
            assert_eq!(&src[ident.start..ident.end], b"f");
            match *behaviour {
                Behaviour::Cond { cond, behaviour: inner, .. } => {
                    assert_eq!(&src[cond.start..cond.end], b"c");
                    match *inner {
                        Behaviour::Assign { target: AssignTarget::Return(_), .. } => {},
                        other => panic!("expected return assignment, got {:?}", other),
                    }
                },
                other => panic!("expected conditional wrapper, got {:?}", other),
            }
        },
        other => panic!("expected still-in wrapper, got {:?}", other),
    }
}

#[test]
fn function_literal_parses_params_and_ops() {
    let src = b"// f is with a and b g then h\n";
    let mut p = parser(lexer(src));
    let stmt = p.next().unwrap().unwrap();
    match stmt.behaviour {
        Behaviour::Assign { value: AssignValue::Fn(f), .. } => {
            assert_eq!(&src[f.params.p1.start..f.params.p1.end], b"a");
            let p2 = f.params.p2.unwrap();
            assert_eq!(&src[p2.start..p2.end], b"b");
            assert_eq!(f.ops.len(), 2);
            assert_eq!(&src[f.ops[0].ident.start..f.ops[0].ident.end], b"g");
            assert_eq!(&src[f.ops[1].ident.start..f.ops[1].ident.end], b"h");
        },
        other => panic!("expected function literal, got {:?}", other),
    }
}

#[test]
fn blank_lines_advance_the_line_counter() {
    let src = b"// x is 1\n\n\n// y is 2\n";
    let mut p = parser(lexer(src));
    assert_eq!(p.next().unwrap().unwrap().line, 1);
    assert_eq!(p.next().unwrap().unwrap().line, 4);
}

#[test]
fn expression_at_end_of_input_is_an_error() {
    let src = b"";
    let mut lex = lexer(src);
    assert!(matches!(parse_expr(&mut lex), Err(ParseError::UnexpectedEof)));
}
