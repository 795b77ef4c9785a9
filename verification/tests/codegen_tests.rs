use beatsaber::ast1::parser;
use beatsaber::ast2::{parse, Assignment, CallExpr, DecoratedExpr, DecoratedStmt, Identifier};
use beatsaber::codegen::{Codegen, CodegenError, FuncName, Instr, Linkage, Operand};
use beatsaber::lexer::lexer;

#[test]
fn literal_program_exports_main() {
    let src = b"// x is 42";
    let ast = parse(parser(lexer(src)), src).unwrap();
    let m = Codegen::compile(ast).unwrap();
    assert_eq!(m.funcs.len(), 1);
    let main = &m.funcs[0];
    assert!(matches!(main.name, FuncName::Main));
    assert_eq!(main.linkage, Linkage::External);
    assert!(main.returns_i32);
    assert!(!main.is_declaration);
    assert_eq!(main.n_params, 0);
    // One block for the one statement: the slot, then the constant store.
    assert_eq!(main.blocks.len(), 1);
    assert_eq!(
        main.blocks[0].instrs,
        vec![
            Instr::Alloca { dst: 0 },
            Instr::Store { ptr: 0, value: Operand::Const(42) },
        ]
    );
}

#[test]
fn declarations_get_their_signatures() {
    let src = b"// add is with a and b\n// malloc is not here\n";
    let ast = parse(parser(lexer(src)), src).unwrap();
    let m = Codegen::compile(ast).unwrap();
    // The two callables in order, then main; main has no blocks.
    assert_eq!(m.funcs.len(), 3);
    match &m.funcs[0].name {
        FuncName::Id(id) => assert_eq!(*id, 0),
        other => panic!("expected ID-named function, got {:?}", other),
    }
    assert_eq!(m.funcs[0].n_params, 2);
    assert_eq!(m.funcs[0].linkage, Linkage::Internal);
    assert!(!m.funcs[0].is_declaration);
    match &m.funcs[1].name {
        FuncName::External(name) => assert_eq!(name, &b"malloc".to_vec()),
        other => panic!("expected extern, got {:?}", other),
    }
    assert_eq!(m.funcs[1].n_params, 2);
    assert_eq!(m.funcs[1].linkage, Linkage::External);
    assert!(m.funcs[1].is_declaration);
    assert_eq!(m.funcs[2].blocks.len(), 0);
}

#[test]
fn anonymous_call_lowers_to_a_call_instruction() {
    let src = b"// a is 5\n// add is not here\na. // yeet is add\n";
    let ast = parse(parser(lexer(src)), src).unwrap();
    let m = Codegen::compile(ast).unwrap();
    // Functions: the extern add, then main with two line blocks.
    assert_eq!(m.funcs.len(), 2);
    let main = &m.funcs[1];
    assert_eq!(main.blocks.len(), 2);
    // Block 0: a's slot is allocated at the front, 5 stored, fall-through.
    assert_eq!(
        main.blocks[0].instrs,
        vec![
            Instr::Alloca { dst: 0 },
            Instr::Store { ptr: 0, value: Operand::Const(5) },
            Instr::Br { target: 1 },
        ]
    );
    // Block 1: load a, call add with it.
    assert_eq!(
        main.blocks[1].instrs,
        vec![
            Instr::Load { dst: 1, ptr: 0 },
            Instr::Call { dst: 2, callee: 0, arg1: 1, arg2: None },
        ]
    );
}

#[test]
fn conditional_branches_into_a_then_block() {
    let src = b"// x is 1\n// flag is 2\nx // if flag return is\n// y is 3\n";
    let ast = parse(parser(lexer(src)), src).unwrap();
    let m = Codegen::compile(ast).unwrap();
    assert_eq!(m.funcs.len(), 1);
    let main = &m.funcs[0];
    // Four line blocks plus the then block.
    assert_eq!(main.blocks.len(), 5);
    // The guarded line loads the flag, then branches: true into the then
    // block, false into the natural next block.
    let guard = &main.blocks[2].instrs;
    assert!(matches!(guard[0], Instr::Load { .. }));
    let (then_t, else_t) = match guard[1] {
        Instr::CondBr { then_target, else_target, .. } => (then_target, else_target),
        other => panic!("expected conditional branch, got {:?}", other),
    };
    assert_eq!(then_t, 4);
    assert_eq!(else_t, 3);
    // The then block holds the lowered return.
    let then_instrs = &main.blocks[4].instrs;
    assert!(matches!(then_instrs[0], Instr::Load { .. }));
    assert!(matches!(then_instrs[1], Instr::Ret { .. }));
}

#[test]
fn conditional_on_the_last_line_falls_into_its_then_block() {
    // With no following line, the natural successor of the guarded block
    // is the then block itself, so both branch targets coincide.
    let src = b"// x is 1\n// flag is 2\nx // if flag return is\n";
    let ast = parse(parser(lexer(src)), src).unwrap();
    let m = Codegen::compile(ast).unwrap();
    let main = &m.funcs[0];
    assert_eq!(main.blocks.len(), 4);
    let guard = &main.blocks[2].instrs;
    match guard[1] {
        Instr::CondBr { then_target, else_target, .. } => {
            assert_eq!(then_target, 3);
            assert_eq!(else_target, 3);
        },
        other => panic!("expected conditional branch, got {:?}", other),
    }
}

#[test]
fn goto_lowering_is_a_fatal_stub() {
    let src = b"// f is not here\n// x is 1\nx. // goto is f\n";
    let ast = parse(parser(lexer(src)), src).unwrap();
    match Codegen::compile(ast) {
        Err(CodegenError::GotoUnsupported { line }) => assert_eq!(line, 3),
        other => panic!("expected goto stub error, got {:?}", other),
    }
}

#[test]
fn fibonacci_program_compiles_through_all_stages() {
    let src = b"* Recursive fibonacci to get the nth number in the sequence ****
// less is not here
// sub is not here
// add is not here
// malloc is not here
// fib is with n and m
// still in fib one is 1
// still in fib two is 2
n.two // still in fib cond is less
n // still in fib if cond return is
(n.one)..(n.two). // still in fib return is sub then fib then sub then fib then add
// multiply is with a and b
";
    let ast = parse(parser(lexer(src)), src).unwrap();
    let m = Codegen::compile(ast).unwrap();
    // Four externs, fib, multiply, then main.
    assert_eq!(m.funcs.len(), 7);
    match &m.funcs[3].name {
        FuncName::External(name) => assert_eq!(name, &b"malloc".to_vec()),
        other => panic!("expected extern malloc, got {:?}", other),
    }
    assert!(m.funcs[3].is_declaration);
    // fib takes two parameters and has a lowered body.
    let fib = &m.funcs[4];
    match fib.name {
        FuncName::Id(id) => assert_eq!(id, 4),
        _ => panic!("expected ID-named fib"),
    }
    assert_eq!(fib.n_params, 2);
    assert_eq!(fib.linkage, Linkage::Internal);
    assert!(fib.blocks.len() >= 6);
    // The entry block ends by spilling both parameters and falling into
    // the body; locals allocated later sit in front of the spills.
    let entry = &fib.blocks[0].instrs;
    let n = entry.len();
    assert!(matches!(entry[n - 1], Instr::Br { target: 1 }));
    assert!(matches!(entry[n - 2], Instr::Store { value: Operand::Value(1), .. }));
    assert!(matches!(entry[n - 4], Instr::Store { value: Operand::Value(0), .. }));
    assert!(matches!(entry[0], Instr::Alloca { .. }));
    // multiply has an empty body: just its entry block.
    let multiply = &m.funcs[5];
    assert_eq!(multiply.n_params, 2);
    assert_eq!(multiply.blocks.len(), 1);
}

#[test]
fn a_call_to_an_undeclared_function_is_fatal() {
    let ast = vec![DecoratedStmt::Assignment(Assignment {
        line: 1,
        name: None,
        value: DecoratedExpr::CallExpr(CallExpr {
            function: Identifier { id: 7 },
            p1: Box::new(DecoratedExpr::Identifier(Identifier { id: 7 })),
            p2: None,
        }),
    })];
    match Codegen::compile(ast) {
        Err(CodegenError::UnknownFunction { id }) => assert_eq!(id, 7),
        other => panic!("expected unknown-function error, got {:?}", other),
    }
}
