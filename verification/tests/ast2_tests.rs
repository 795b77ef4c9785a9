use beatsaber::ast1::parser;
use beatsaber::ast2::{
    create_identifier, create_or_shadow_ident_opt, parse, Callable, DecoratedExpr, DecoratedStmt,
    SemError,
};
use beatsaber::lexer::{lexer, Span};

#[test]
fn literal_line_becomes_load_literal_number() {
    let src = b"// x is 42";
    let out = parse(parser(lexer(src)), src).unwrap();
    assert_eq!(out.len(), 1);
    match &out[0] {
        DecoratedStmt::LoadLiteralNumber(l) => {
            assert_eq!(l.line, 1);
            assert_eq!(l.ident.id, 0);
            assert_eq!(l.value, 42);
        },
        other => panic!("expected literal load, got {:?}", other),
    }
}

#[test]
fn declarations_fill_the_function_table() {
    let src = b"// add is with a and b\n// malloc is not here\n";
    let out = parse(parser(lexer(src)), src).unwrap();
    // No top-level statements: only the two callables, in insertion order.
    assert_eq!(out.len(), 2);
    match &out[0] {
        DecoratedStmt::Callable(Callable::FuncBlock(fb)) => {
            assert_eq!(fb.decl.id.id, 0);
            assert_eq!(fb.decl.p1.id, 1);
            assert_eq!(fb.decl.p2.unwrap().id, 2);
            assert!(fb.block.is_empty());
        },
        other => panic!("expected function block, got {:?}", other),
    }
    match &out[1] {
        DecoratedStmt::Callable(Callable::ExternFunction(e)) => {
            assert_eq!(e.name, b"malloc".to_vec());
            assert_eq!(e.ident.id, 3);
        },
        other => panic!("expected extern, got {:?}", other),
    }
}

#[test]
fn discarded_op_chain_becomes_anonymous_call() {
    let src = b"// a is 5\n// add is not here\na. // yeet is add\n";
    let out = parse(parser(lexer(src)), src).unwrap();
    assert_eq!(out.len(), 3);
    match &out[1] {
        DecoratedStmt::Assignment(asn) => {
            assert_eq!(asn.line, 3);
            assert!(asn.name.is_none());
            match &asn.value {
                DecoratedExpr::CallExpr(ce) => {
                    assert_eq!(ce.function.id, 1);
                    match ce.p1.as_ref() {
                        DecoratedExpr::Identifier(i) => assert_eq!(i.id, 0),
                        other => panic!("expected identifier argument, got {:?}", other),
                    }
                    assert!(ce.p2.is_none());
                },
                other => panic!("expected call, got {:?}", other),
            }
        },
        other => panic!("expected assignment, got {:?}", other),
    }
    match &out[2] {
        DecoratedStmt::Callable(Callable::ExternFunction(e)) => {
            assert_eq!(e.name, b"add".to_vec());
        },
        other => panic!("expected extern, got {:?}", other),
    }
}

#[test]
fn undeclared_operand_is_fatal() {
    // Every reference within an expression must resolve.
    let src = b"// add is not here\na. // yeet is add\n";
    match parse(parser(lexer(src)), src) {
        Err(SemError::Undefined { name }) => {
            assert_eq!(&src[name.start..name.end], b"a");
        },
        other => panic!("expected undefined-name error, got {:?}", other),
    }
}

#[test]
fn redeclaring_a_literal_name_is_fatal() {
    let src = b"// foo is 1\n// foo is 1\n";
    match parse(parser(lexer(src)), src) {
        Err(SemError::Redeclared { name }) => {
            assert_eq!(&src[name.start..name.end], b"foo");
        },
        other => panic!("expected redeclaration error, got {:?}", other),
    }
}

#[test]
fn reassigning_a_name_shadows_silently() {
    let src = b"// x is 1\nx // y is\nx // y is\n";
    let out = parse(parser(lexer(src)), src).unwrap();
    assert_eq!(out.len(), 3);
    let first = match &out[1] {
        DecoratedStmt::Assignment(a) => a.name.unwrap().id,
        other => panic!("expected assignment, got {:?}", other),
    };
    let second = match &out[2] {
        DecoratedStmt::Assignment(a) => a.name.unwrap().id,
        other => panic!("expected assignment, got {:?}", other),
    };
    assert_eq!(first, 1);
    assert_eq!(second, 1);
}

#[test]
fn op_chain_longer_than_operand_tree_is_fatal() {
    let src = b"// f is not here\n// x is 1\nx. // yeet is f then f\n";
    match parse(parser(lexer(src)), src) {
        Err(SemError::OpCountMismatch { line }) => assert_eq!(line, 3),
        other => panic!("expected op-count error, got {:?}", other),
    }
}

#[test]
fn op_chain_shorter_than_operand_tree_is_fatal() {
    let src = b"// f is not here\n// x is 1\nx.. // yeet is f\n";
    match parse(parser(lexer(src)), src) {
        Err(SemError::OpCountMismatch { line }) => assert_eq!(line, 3),
        other => panic!("expected op-count error, got {:?}", other),
    }
}

#[test]
fn return_without_expression_is_fatal() {
    let src = b"// return is\n";
    match parse(parser(lexer(src)), src) {
        Err(SemError::MissingExpr { line }) => assert_eq!(line, 1),
        other => panic!("expected missing-expression error, got {:?}", other),
    }
}

#[test]
fn return_with_number_value_is_fatal() {
    let src = b"// x is 1\nx // return is 7\n";
    match parse(parser(lexer(src)), src) {
        Err(SemError::BadAssignValue { line }) => assert_eq!(line, 2),
        other => panic!("expected bad-value error, got {:?}", other),
    }
}

#[test]
fn discarding_a_literal_is_fatal() {
    let src = b"// yeet is 42\n";
    match parse(parser(lexer(src)), src) {
        Err(SemError::MissingName { line }) => assert_eq!(line, 1),
        other => panic!("expected missing-name error, got {:?}", other),
    }
}

#[test]
fn still_in_attaches_to_the_named_function_and_the_output() {
    let src = b"// f is with n\n// still in f one is 1\n";
    let out = parse(parser(lexer(src)), src).unwrap();
    // The attached literal appears at top level and inside f's body.
    assert_eq!(out.len(), 2);
    match &out[0] {
        DecoratedStmt::LoadLiteralNumber(l) => {
            assert_eq!(l.line, 2);
            assert_eq!(l.value, 1);
        },
        other => panic!("expected literal load, got {:?}", other),
    }
    match &out[1] {
        DecoratedStmt::Callable(Callable::FuncBlock(fb)) => {
            assert_eq!(fb.block.len(), 1);
            match &fb.block[0] {
                DecoratedStmt::LoadLiteralNumber(l) => assert_eq!(l.value, 1),
                other => panic!("expected literal load in body, got {:?}", other),
            }
        },
        other => panic!("expected function block, got {:?}", other),
    }
}

#[test]
fn still_in_an_extern_is_fatal() {
    let src = b"// f is not here\n// still in f x is 1\n";
    match parse(parser(lexer(src)), src) {
        Err(SemError::ExternHasBody { name }) => {
            assert_eq!(&src[name.start..name.end], b"f");
        },
        other => panic!("expected extern-has-body error, got {:?}", other),
    }
}

#[test]
fn still_in_an_unknown_name_is_fatal() {
    let src = b"// still in f x is 1\n";
    match parse(parser(lexer(src)), src) {
        Err(SemError::Undefined { name }) => {
            assert_eq!(&src[name.start..name.end], b"f");
        },
        other => panic!("expected undefined-name error, got {:?}", other),
    }
}

#[test]
fn conditional_wraps_the_guarded_statement() {
    let src = b"// x is 1\n// flag is 2\nx // if flag return is\n";
    let out = parse(parser(lexer(src)), src).unwrap();
    assert_eq!(out.len(), 3);
    match &out[2] {
        DecoratedStmt::Conditional(c) => {
            assert_eq!(c.condition.id, 1);
            match c.success.as_ref() {
                DecoratedStmt::ReturnStmt(r) => {
                    assert_eq!(r.line, 3);
                    match &r.expr {
                        DecoratedExpr::Identifier(i) => assert_eq!(i.id, 0),
                        other => panic!("expected identifier, got {:?}", other),
                    }
                },
                other => panic!("expected return under conditional, got {:?}", other),
            }
        },
        other => panic!("expected conditional, got {:?}", other),
    }
}

#[test]
fn line_number_reports_the_guarded_line() {
    let src = b"// x is 1\n// flag is 2\nx // if flag return is\n";
    let out = parse(parser(lexer(src)), src).unwrap();
    assert_eq!(out[0].line_number(), 1);
    assert_eq!(out[1].line_number(), 2);
    assert_eq!(out[2].line_number(), 3);
}

#[test]
fn create_identifier_is_fresh_only() {
    let src = b"foo bar";
    let mut ids: Vec<Vec<u8>> = Vec::new();
    let foo = Span { start: 0, end: 3 };
    let bar = Span { start: 4, end: 7 };
    let a = create_identifier(&mut ids, src, Some(foo), 1).unwrap();
    assert_eq!(a.id, 0);
    let b = create_identifier(&mut ids, src, Some(bar), 1).unwrap();
    assert_eq!(b.id, 1);
    assert!(matches!(
        create_identifier(&mut ids, src, Some(foo), 2),
        Err(SemError::Redeclared { .. })
    ));
    assert!(matches!(
        create_identifier(&mut ids, src, None, 3),
        Err(SemError::MissingName { line: 3 })
    ));
}

#[test]
fn create_or_shadow_reuses_existing_ids() {
    let src = b"foo bar";
    let mut ids: Vec<Vec<u8>> = Vec::new();
    let foo = Span { start: 0, end: 3 };
    let bar = Span { start: 4, end: 7 };
    assert_eq!(create_or_shadow_ident_opt(&mut ids, src, Some(foo)).unwrap().id, 0);
    assert_eq!(create_or_shadow_ident_opt(&mut ids, src, Some(bar)).unwrap().id, 1);
    assert_eq!(create_or_shadow_ident_opt(&mut ids, src, Some(foo)).unwrap().id, 0);
    assert_eq!(ids.len(), 2);
    assert!(create_or_shadow_ident_opt(&mut ids, src, None).is_none());
}

#[test]
fn still_in_a_non_function_name_is_fatal() {
    let src = b"// x is 1\n// still in x y is 2\n";
    match parse(parser(lexer(src)), src) {
        Err(SemError::NotAFunction { name }) => {
            assert_eq!(&src[name.start..name.end], b"x");
        },
        other => panic!("expected not-a-function error, got {:?}", other),
    }
}

#[test]
fn still_in_around_a_declaration_is_fatal() {
    let src = b"// f is with n\n// still in f g is not here\n";
    match parse(parser(lexer(src)), src) {
        Err(SemError::NothingToAttach { line }) => assert_eq!(line, 2),
        other => panic!("expected nothing-to-attach error, got {:?}", other),
    }
}

#[test]
fn a_syntax_error_surfaces_from_the_semantic_pass() {
    let src = b"%";
    match parse(parser(lexer(src)), src) {
        Err(SemError::Syntax(_)) => {},
        other => panic!("expected syntax error, got {:?}", other),
    }
}
