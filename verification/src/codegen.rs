//! Code generator: lowers the decorated statement list into a relocatable
//! IR module for a native backend.
//!
//! Every callable is declared up front — externs with external linkage and
//! two integer parameters, user functions with internal linkage named by
//! their numeric ID. `main` is built with one basic block per non-callable
//! top-level statement and implicit fall-through branches between them;
//! each user function gets an entry block that spills its parameters into
//! stack slots, then one block per body statement. Locals live in stack
//! slots allocated on first use at the front of the entry block, so every
//! allocation dominates its uses.
//!
//! The lowering is specified by reference functions over a ghost image of
//! the generator state (`spec_declare`, `spec_build_main`, `spec_build_func`,
//! `spec_build_stmt`, `spec_build_expr`, `spec_get_local`, `spec_drain`):
//! each executable function is proved to step the state exactly as its
//! reference says, and the finished module is proved well formed — every
//! value, block and function an instruction names is in range.
use vstd::prelude::*;

use crate::ast2::{Assignment, Callable, CallExpr, Conditional, DecoratedExpr, DecoratedStmt, ExternFunction, FuncBlock, GotoStmt, LoadLiteralNumber, ReturnStmt};

verus! {

/// How a function is named in the emitted module.
#[derive(Debug)]
pub enum FuncName {
    /// The entry function, named `main`.
    Main,
    /// A user function, named by the decimal spelling of its ID.
    Id(usize),
    /// An extern, named by its source lexeme.
    External(Vec<u8>),
}

#[derive(Clone, Copy, PartialEq, Eq, Structural, Debug)]
pub enum Linkage {
    External,
    Internal,
}

/// Something stored or passed: the result of an instruction (or a
/// parameter), or an integer constant.
#[derive(Clone, Copy, PartialEq, Eq, Structural, Debug)]
pub enum Operand {
    Value(usize),
    Const(usize),
}

/// One IR instruction. Values are numbered per function: parameters first,
/// then every instruction result.
#[derive(Clone, Copy, PartialEq, Eq, Structural, Debug)]
pub enum Instr {
    /// A stack slot; `dst` names its address.
    Alloca { dst: usize },
    Store { ptr: usize, value: Operand },
    Load { dst: usize, ptr: usize },
    Call { dst: usize, callee: usize, arg1: usize, arg2: Option<usize> },
    Br { target: usize },
    CondBr { cond: usize, then_target: usize, else_target: usize },
    Ret { val: usize },
}

#[derive(Debug)]
pub struct IrBlock {
    pub instrs: Vec<Instr>,
}

/// A function of the module. `n_values` counts the value IDs in use; the
/// first `n_params` of them are the parameters. A declaration has no body.
#[derive(Debug)]
pub struct IrFunction {
    pub name: FuncName,
    pub n_params: usize,
    pub linkage: Linkage,
    pub returns_i32: bool,
    pub is_declaration: bool,
    pub n_values: usize,
    pub blocks: Vec<IrBlock>,
}

#[derive(Debug)]
pub struct IrModule {
    pub funcs: Vec<IrFunction>,
}

/// The error the code generator stops with.
#[derive(Clone, Copy, PartialEq, Eq, Structural, Debug)]
pub enum CodegenError {
    /// `goto` lowering is deliberately unimplemented.
    GotoUnsupported { line: usize },
    /// A call names an ID that no declared function carries.
    UnknownFunction { id: usize },
    /// A statement's line has no block to lower into.
    MissingBlock { line: usize },
    /// Defensive: a guarded block without a successor to fall into; the
    /// then block appended just before keeps this from arising.
    NoNextBlock { line: usize },
    /// A statement was lowered with no current function or entry block.
    NoCurrentFunction { line: usize },
    /// A per-function counter ran out of IDs.
    CapacityExceeded,
}

pub open spec fn instr_wf(ins: Instr, n_values: int, n_blocks: int, n_funcs: int) -> bool {
    match ins {
        Instr::Alloca { dst } => dst < n_values,
        Instr::Store { ptr, value } => ptr < n_values && (value matches Operand::Value(v) ==> v
            < n_values),
        Instr::Load { dst, ptr } => dst < n_values && ptr < n_values,
        Instr::Call { dst, callee, arg1, arg2 } => dst < n_values && callee < n_funcs && arg1
            < n_values && (arg2 matches Some(a) ==> a < n_values),
        Instr::Br { target } => target < n_blocks,
        Instr::CondBr { cond, then_target, else_target } => cond < n_values && then_target
            < n_blocks && else_target < n_blocks,
        Instr::Ret { val } => val < n_values,
    }
}

pub open spec fn func_wf(f: IrFunction, n_funcs: int) -> bool {
    &&& f.n_params <= f.n_values
    &&& forall|b: int, i: int|
        0 <= b < f.blocks@.len() && 0 <= i < f.blocks@[b].instrs@.len() ==> instr_wf(
            #[trigger] f.blocks@[b].instrs@[i],
            f.n_values as int,
            f.blocks@.len() as int,
            n_funcs,
        )
}

/// Every value, block and function an instruction of the module names is
/// in range.
pub open spec fn module_wf(m: IrModule) -> bool {
    forall|k: int|
        0 <= k < m.funcs@.len() ==> func_wf(#[trigger] m.funcs@[k], m.funcs@.len() as int)
}

/// Ghost view of a function's name.
pub enum NameM {
    Main,
    Id(usize),
    External(Seq<u8>),
}

/// Ghost signature of a declared function: what the declaration pass is
/// proved to produce, one entry per callable.
pub struct FuncSig {
    pub name: NameM,
    pub n_params: usize,
    pub linkage: Linkage,
    pub returns_i32: bool,
    pub is_declaration: bool,
}

pub open spec fn func_sig(f: IrFunction) -> FuncSig {
    FuncSig {
        name: match f.name {
            FuncName::Main => NameM::Main,
            FuncName::Id(n) => NameM::Id(n),
            FuncName::External(v) => NameM::External(v@),
        },
        n_params: f.n_params,
        linkage: f.linkage,
        returns_i32: f.returns_i32,
        is_declaration: f.is_declaration,
    }
}

pub open spec fn sigs_of(funcs: Seq<IrFunction>) -> Seq<FuncSig> {
    funcs.map_values(|f: IrFunction| func_sig(f))
}

/// The signature an extern declaration gets: external linkage and two
/// integer parameters, whatever its arity at the call sites.
pub open spec fn extern_sig(e: ExternFunction) -> FuncSig {
    FuncSig {
        name: NameM::External(e.name@),
        n_params: 2,
        linkage: Linkage::External,
        returns_i32: false,
        is_declaration: true,
    }
}

/// The signature a user function gets: internal linkage, named by its ID,
/// with one parameter or two.
pub open spec fn funcblock_sig(fb: FuncBlock) -> FuncSig {
    FuncSig {
        name: NameM::Id(fb.decl.id.id),
        n_params: if fb.decl.p2 is Some {
            2
        } else {
            1
        },
        linkage: Linkage::Internal,
        returns_i32: false,
        is_declaration: false,
    }
}

pub open spec fn main_sig() -> FuncSig {
    FuncSig {
        name: NameM::Main,
        n_params: 0,
        linkage: Linkage::External,
        returns_i32: true,
        is_declaration: false,
    }
}

/// Ghost image of one function of the module: its blocks as plain
/// instruction sequences.
#[verifier::ext_equal]
pub struct FuncM {
    pub name: NameM,
    pub n_params: usize,
    pub linkage: Linkage,
    pub returns_i32: bool,
    pub is_declaration: bool,
    pub n_values: usize,
    pub blocks: Seq<Seq<Instr>>,
}

pub open spec fn func_m(f: IrFunction) -> FuncM {
    FuncM {
        name: match f.name {
            FuncName::Main => NameM::Main,
            FuncName::Id(n) => NameM::Id(n),
            FuncName::External(v) => NameM::External(v@),
        },
        n_params: f.n_params,
        linkage: f.linkage,
        returns_i32: f.returns_i32,
        is_declaration: f.is_declaration,
        n_values: f.n_values,
        blocks: f.blocks@.map_values(|b: IrBlock| b.instrs@),
    }
}

pub open spec fn funcs_m(s: Seq<IrFunction>) -> Seq<FuncM> {
    s.map_values(|f: IrFunction| func_m(f))
}

// The four edits the generator makes to a function, at the ghost level.
pub open spec fn fm_push_instr(fs: Seq<FuncM>, f: int, b: int, ins: Instr) -> Seq<FuncM> {
    fs.update(f, FuncM { blocks: fs[f].blocks.update(b, fs[f].blocks[b].push(ins)), ..fs[f] })
}

pub open spec fn fm_append_block(fs: Seq<FuncM>, f: int) -> Seq<FuncM> {
    fs.update(f, FuncM { blocks: fs[f].blocks.push(Seq::empty()), ..fs[f] })
}

pub open spec fn fm_new_value(fs: Seq<FuncM>, f: int) -> Seq<FuncM> {
    fs.update(f, FuncM { n_values: (fs[f].n_values + 1) as usize, ..fs[f] })
}

pub open spec fn fm_alloca_front(fs: Seq<FuncM>, f: int) -> Seq<FuncM> {
    fs.update(
        f,
        FuncM {
            n_values: (fs[f].n_values + 1) as usize,
            blocks: fs[f].blocks.update(
                0,
                seq![Instr::Alloca { dst: fs[f].n_values }] + fs[f].blocks[0],
            ),
            ..fs[f]
        },
    )
}

/// Ghost image of the whole generator state.
#[verifier::ext_equal]
pub struct CgM {
    pub funcs: Seq<FuncM>,
    pub functions: Seq<(usize, usize)>,
    pub queue: Seq<FuncBlock>,
    pub locals: Seq<(usize, usize)>,
    pub cur_func: Option<usize>,
    pub line_map: Seq<(usize, usize)>,
}

pub open spec fn cgm_push_instr(m: CgM, f: int, b: int, ins: Instr) -> CgM {
    CgM { funcs: fm_push_instr(m.funcs, f, b, ins), ..m }
}

pub open spec fn cgm_append_block(m: CgM, f: int) -> CgM {
    CgM { funcs: fm_append_block(m.funcs, f), ..m }
}

pub open spec fn cgm_new_value(m: CgM, f: int) -> CgM {
    CgM { funcs: fm_new_value(m.funcs, f), ..m }
}

pub open spec fn cgm_alloca_front(m: CgM, f: int) -> CgM {
    CgM { funcs: fm_alloca_front(m.funcs, f), ..m }
}

/// Reference allocation of a local slot: a mapped ID resolves to its
/// slot unchanged; a fresh one gets a new value whose `Alloca` goes to the
/// very front of the current function's entry block — before every
/// existing instruction, so all allocations dominate all uses — and is
/// recorded in the local map. Equal IDs always yield equal slots.
pub open spec fn spec_get_local(m: CgM, id: usize) -> Option<(CgM, usize)> {
    match m.cur_func {
        None => None,
        Some(c) => match spec_assoc(m.locals, id) {
            Some(v) => Some((m, v)),
            None => if m.funcs[c as int].n_values == usize::MAX {
                None
            } else {
                let v = m.funcs[c as int].n_values;
                let m1 = cgm_alloca_front(m, c as int);
                Some((CgM { locals: m1.locals.push((id, v)), ..m1 }, v))
            },
        },
    }
}

/// Reference lowering of an operand into block `blk` of the current
/// function: an identifier loads from its slot; a call lowers its operands
/// left to right, then calls the function mapped to its ID — one argument
/// when the second operand is absent, two otherwise. An unmapped function
/// ID is fatal. The result is the value holding the outcome.
pub open spec fn spec_build_expr(m: CgM, e: DecoratedExpr, blk: usize) -> Option<(CgM, usize)>
    decreases e,
{
    match m.cur_func {
        None => None,
        Some(c) => match e {
            DecoratedExpr::CallExpr(ce) => match spec_assoc(m.functions, ce.function.id) {
                None => None,
                Some(fidx) => match spec_build_expr(m, *ce.p1, blk) {
                    None => None,
                    Some((m1, a1)) => {
                        let step2 = match ce.p2 {
                            Some(b2) => match spec_build_expr(m1, *b2, blk) {
                                None => None,
                                Some((m2, a2)) => Some((m2, Some(a2))),
                            },
                            None => Some((m1, None)),
                        };
                        match step2 {
                            None => None,
                            Some((m2, a2)) => if m2.funcs[c as int].n_values == usize::MAX {
                                None
                            } else {
                                let dst = m2.funcs[c as int].n_values;
                                Some(
                                    (
                                        cgm_push_instr(
                                            cgm_new_value(m2, c as int),
                                            c as int,
                                            blk as int,
                                            Instr::Call { dst, callee: fidx, arg1: a1, arg2: a2 },
                                        ),
                                        dst,
                                    ),
                                )
                            },
                        }
                    },
                },
            },
            DecoratedExpr::Identifier(i) => match spec_get_local(m, i.id) {
                None => None,
                Some((m1, ptr)) => if m1.funcs[c as int].n_values == usize::MAX {
                    None
                } else {
                    let dst = m1.funcs[c as int].n_values;
                    Some(
                        (
                            cgm_push_instr(
                                cgm_new_value(m1, c as int),
                                c as int,
                                blk as int,
                                Instr::Load { dst, ptr },
                            ),
                            dst,
                        ),
                    )
                },
            },
        },
    }
}

/// Reference lowering of one plain (non-callable) statement into block
/// `blk` of function `c`: a literal stores its constant into the target's
/// slot; a named assignment stores the lowered value into the target's
/// slot, an anonymous one lowers for effect only; a return lowers and
/// emits `Ret`; a conditional appends a fresh then-block, lowers the
/// guarded statement into it under a retargeted line map, restores the
/// map, and ends the original block with a branch on the flag's loaded
/// value — true into the then-block, false into the natural successor;
/// `goto` is a fatal stub.
pub open spec fn spec_build_plain(
    m: CgM,
    stmt: DecoratedStmt,
    c: int,
    line: usize,
    blk: usize,
) -> Option<CgM>
    decreases stmt, 0int,
{
    match stmt {
        DecoratedStmt::LoadLiteralNumber(l) => match spec_get_local(m, l.ident.id) {
            None => None,
            Some((m1, ptr)) => Some(
                cgm_push_instr(
                    m1,
                    c,
                    blk as int,
                    Instr::Store { ptr, value: Operand::Const(l.value) },
                ),
            ),
        },
        DecoratedStmt::Conditional(cd) => match spec_build_expr(
            m,
            DecoratedExpr::Identifier(cd.condition),
            blk,
        ) {
            None => None,
            Some((m1, cond)) => {
                let then_block = m1.funcs[c].blocks.len() as usize;
                let m2 = cgm_append_block(m1, c);
                let m3 = CgM { line_map: m2.line_map.push((line, then_block)), ..m2 };
                match spec_build_stmt(m3, *cd.success) {
                    None => None,
                    Some(m4) => {
                        let m5 = CgM { line_map: m4.line_map.push((line, blk)), ..m4 };
                        if blk + 1 >= m5.funcs[c].blocks.len() {
                            None
                        } else {
                            Some(
                                cgm_push_instr(
                                    m5,
                                    c,
                                    blk as int,
                                    Instr::CondBr {
                                        cond,
                                        then_target: then_block,
                                        else_target: (blk + 1) as usize,
                                    },
                                ),
                            )
                        }
                    },
                }
            },
        },
        DecoratedStmt::Assignment(a) => match a.name {
            Some(ident) => match spec_get_local(m, ident.id) {
                None => None,
                Some((m1, ptr)) => match spec_build_expr(m1, a.value, blk) {
                    None => None,
                    Some((m2, v)) => Some(
                        cgm_push_instr(
                            m2,
                            c,
                            blk as int,
                            Instr::Store { ptr, value: Operand::Value(v) },
                        ),
                    ),
                },
            },
            None => match spec_build_expr(m, a.value, blk) {
                None => None,
                Some((m1, _)) => Some(m1),
            },
        },
        DecoratedStmt::ReturnStmt(rs) => match spec_build_expr(m, rs.expr, blk) {
            None => None,
            Some((m1, v)) => Some(cgm_push_instr(m1, c, blk as int, Instr::Ret { val: v })),
        },
        DecoratedStmt::GotoStmt(_) => None,
        DecoratedStmt::Callable(_) => None,
    }
}

/// Reference lowering of one statement: a user function is pushed on the
/// compile queue and nothing else changes; an extern is a complete no-op;
/// any other statement lowers into the block its line is mapped to, and —
/// unless it is a terminator (a return or a conditional) — the block then
/// falls through to the next block in order, where one exists.
pub open spec fn spec_build_stmt(m: CgM, stmt: DecoratedStmt) -> Option<CgM>
    decreases stmt, 1int,
{
    match m.cur_func {
        None => None,
        Some(c) => match stmt {
            DecoratedStmt::Callable(Callable::FuncBlock(fb)) => Some(
                CgM { queue: m.queue.push(fb), ..m },
            ),
            DecoratedStmt::Callable(Callable::ExternFunction(_)) => Some(m),
            _ => {
                let line = stmt.spec_line_number();
                let is_terminator = (stmt matches DecoratedStmt::ReturnStmt(_)) || (
                stmt matches DecoratedStmt::Conditional(_));
                match spec_assoc(m.line_map, line) {
                    None => None,
                    Some(blk) => match spec_build_plain(m, stmt, c as int, line, blk) {
                        None => None,
                        Some(ma) => if !is_terminator && blk + 1 < ma.funcs[c as int].blocks.len() {
                            Some(
                                cgm_push_instr(
                                    ma,
                                    c as int,
                                    blk as int,
                                    Instr::Br { target: (blk + 1) as usize },
                                ),
                            )
                        } else {
                            Some(ma)
                        },
                    },
                }
            },
        },
    }
}

/// Reference block layout: one fresh block per non-callable statement of
/// `b` from `i` on, appended to function `c` in statement order, each
/// recorded in the line map under its statement's line.
pub open spec fn spec_layout_blocks(m: CgM, c: int, b: Seq<DecoratedStmt>, i: int) -> CgM
    decreases b.len() - i,
{
    if i < 0 || i >= b.len() {
        m
    } else {
        let m1 = if b[i] is Callable {
            m
        } else {
            let nb = m.funcs[c].blocks.len() as usize;
            let ma = cgm_append_block(m, c);
            CgM { line_map: ma.line_map.push((b[i].spec_line_number(), nb)), ..ma }
        };
        spec_layout_blocks(m1, c, b, i + 1)
    }
}

/// Reference lowering of the statements of `b` from `i` on, in order.
pub open spec fn spec_build_stmts(m: CgM, b: Seq<DecoratedStmt>, i: int) -> Option<CgM>
    decreases b, b.len() - i,
{
    if i < 0 || i >= b.len() {
        Some(m)
    } else {
        match spec_build_stmt(m, b[i]) {
            None => None,
            Some(m1) => spec_build_stmts(m1, b, i + 1),
        }
    }
}

/// Reference lowering of a queued function body: the per-function local
/// and line maps are cleared; the declared function becomes current; an
/// entry block is appended that allocates a slot for each parameter and
/// stores the incoming parameter value into it (value 0 under `p1`, and
/// value 1 under `p2` where present); one block is laid out per
/// non-callable body statement; the entry falls through into the first of
/// them where one exists; and the body is lowered in order.
pub open spec fn spec_build_func(
    m: CgM,
    body: Seq<DecoratedStmt>,
    id: usize,
    p1: usize,
    p2: Option<usize>,
) -> Option<CgM> {
    let m0 = CgM { locals: Seq::empty(), line_map: Seq::empty(), ..m };
    match spec_assoc(m0.functions, id) {
        None => None,
        Some(fidx) => {
            let c = fidx as int;
            let m1 = CgM { cur_func: Some(fidx), ..m0 };
            let entry = m1.funcs[c].blocks.len() as usize;
            let m2 = cgm_append_block(m1, c);
            if m2.funcs[c].n_values == usize::MAX {
                None
            } else {
                let s1 = m2.funcs[c].n_values;
                let m3 = cgm_push_instr(
                    cgm_push_instr(
                        cgm_new_value(m2, c),
                        c,
                        entry as int,
                        Instr::Alloca { dst: s1 },
                    ),
                    c,
                    entry as int,
                    Instr::Store { ptr: s1, value: Operand::Value(0) },
                );
                let m4 = CgM { locals: m3.locals.push((p1, s1)), ..m3 };
                let after_params = match p2 {
                    Some(p2id) => if m4.funcs[c].n_values == usize::MAX {
                        None
                    } else {
                        let s2 = m4.funcs[c].n_values;
                        let m5 = cgm_push_instr(
                            cgm_push_instr(
                                cgm_new_value(m4, c),
                                c,
                                entry as int,
                                Instr::Alloca { dst: s2 },
                            ),
                            c,
                            entry as int,
                            Instr::Store { ptr: s2, value: Operand::Value(1) },
                        );
                        Some(CgM { locals: m5.locals.push((p2id, s2)), ..m5 })
                    },
                    None => Some(m4),
                };
                match after_params {
                    None => None,
                    Some(m6) => {
                        let m7 = spec_layout_blocks(m6, c, body, 0);
                        let m8 = if entry + 1 < m7.funcs[c].blocks.len() {
                            cgm_push_instr(
                                m7,
                                c,
                                entry as int,
                                Instr::Br { target: (entry + 1) as usize },
                            )
                        } else {
                            m7
                        };
                        spec_build_stmts(m8, body, 0)
                    },
                }
            }
        },
    }
}

/// Reference draining of the compile queue, most recent first, to a
/// fixpoint: each popped function body is built, and function blocks
/// queued while building are built in turn.
pub open spec fn spec_drain(m: CgM) -> Option<CgM>
    decreases queue_size(m.queue),
{
    if m.queue.len() == 0 {
        Some(m)
    } else {
        let fb = m.queue.last();
        let m1 = CgM { queue: m.queue.drop_last(), ..m };
        match spec_build_func(
            m1,
            fb.block@,
            fb.decl.id.id,
            fb.decl.p1.id,
            match fb.decl.p2 {
                Some(ident) => Some(ident.id),
                None => None,
            },
        ) {
            None => None,
            Some(m2) => if queue_size(m2.queue) < queue_size(m.queue) {
                spec_drain(m2)
            } else {
                None
            },
        }
    }
}

pub open spec fn main_func_m() -> FuncM {
    FuncM {
        name: NameM::Main,
        n_params: 0,
        linkage: Linkage::External,
        returns_i32: true,
        is_declaration: false,
        n_values: 0,
        blocks: Seq::empty(),
    }
}

/// Reference construction of the entry function: `main` of type
/// `() -> i32` with external linkage is added after the declarations and
/// becomes current with fresh maps; one block is laid out per non-callable
/// top-level statement; every statement is lowered in source order; and
/// the compile queue is drained to a fixpoint.
pub open spec fn spec_build_main(m: CgM, body: Seq<DecoratedStmt>) -> Option<CgM> {
    let main_idx = m.funcs.len() as usize;
    let m1 = CgM {
        funcs: m.funcs.push(main_func_m()),
        cur_func: Some(main_idx),
        locals: Seq::empty(),
        line_map: Seq::empty(),
        ..m
    };
    let m2 = spec_layout_blocks(m1, main_idx as int, body, 0);
    match spec_build_stmts(m2, body, 0) {
        None => None,
        Some(m3) => spec_drain(m3),
    }
}

pub open spec fn extern_func_m(e: ExternFunction) -> FuncM {
    FuncM {
        name: NameM::External(e.name@),
        n_params: 2,
        linkage: Linkage::External,
        returns_i32: false,
        is_declaration: true,
        n_values: 2,
        blocks: Seq::empty(),
    }
}

pub open spec fn funcblock_func_m(fb: FuncBlock) -> FuncM {
    FuncM {
        name: NameM::Id(fb.decl.id.id),
        n_params: if fb.decl.p2 is Some {
            2
        } else {
            1
        },
        linkage: Linkage::Internal,
        returns_i32: false,
        is_declaration: false,
        n_values: if fb.decl.p2 is Some {
            2
        } else {
            1
        },
        blocks: Seq::empty(),
    }
}

/// Reference declaration pass over the statements of `b` from `i` on: an
/// extern adds a bodyless external function under its lexeme; a user
/// function adds a bodyless internal function under its numeric ID, then
/// declares its nested callables; both record their identifier in the
/// function map. Nothing else changes.
pub open spec fn spec_declare(m: CgM, b: Seq<DecoratedStmt>, i: int) -> CgM
    decreases b, b.len() - i, 0int,
{
    if i < 0 || i >= b.len() {
        m
    } else {
        spec_declare(spec_declare_stmt(m, b[i]), b, i + 1)
    }
}

pub open spec fn spec_declare_stmt(m: CgM, s: DecoratedStmt) -> CgM
    decreases s, 0int, 1int,
{
    match s {
        DecoratedStmt::Callable(Callable::ExternFunction(e)) => CgM {
            funcs: m.funcs.push(extern_func_m(e)),
            functions: m.functions.push((e.ident.id, m.funcs.len() as usize)),
            ..m
        },
        DecoratedStmt::Callable(Callable::FuncBlock(fb)) => {
            let m1 = CgM {
                funcs: m.funcs.push(funcblock_func_m(fb)),
                functions: m.functions.push((fb.decl.id.id, m.funcs.len() as usize)),
                ..m
            };
            spec_declare(m1, fb.block@, 0)
        },
        _ => m,
    }
}

pub open spec fn cgm_init() -> CgM {
    CgM {
        funcs: Seq::empty(),
        functions: Seq::empty(),
        queue: Seq::empty(),
        locals: Seq::empty(),
        cur_func: None,
        line_map: Seq::empty(),
    }
}

/// The reference compilation: declare every callable, then build `main`
/// and every user function. The result is the functions of the module.
pub open spec fn spec_compile(ast: Seq<DecoratedStmt>) -> Option<Seq<FuncM>> {
    match spec_build_main(spec_declare(cgm_init(), ast, 0), ast) {
        None => None,
        Some(m) => Some(m.funcs),
    }
}

/// The signatures the declaration pass produces for the statements of `b`
/// from index `i` on: one per callable, externs and user functions in
/// statement order, each user function followed by its nested callables.
pub open spec fn decls_of_block(b: Seq<DecoratedStmt>, i: int) -> Seq<FuncSig>
    decreases b, b.len() - i, 0int,
{
    if i < 0 || i >= b.len() {
        Seq::empty()
    } else {
        decls_of_stmt(b[i]) + decls_of_block(b, i + 1)
    }
}

pub open spec fn decls_of_stmt(s: DecoratedStmt) -> Seq<FuncSig>
    decreases s, 0int, 1int,
{
    match s {
        DecoratedStmt::Callable(Callable::ExternFunction(e)) => seq![extern_sig(e)],
        DecoratedStmt::Callable(Callable::FuncBlock(fb)) => seq![funcblock_sig(fb)]
            + decls_of_block(fb.block@, 0),
        _ => Seq::empty(),
    }
}

/// Size of a statement, counting through function bodies; the measure that
/// bounds the compile queue.
pub open spec fn stmt_size(s: DecoratedStmt) -> nat
    decreases s, 0int, 1int,
{
    match s {
        DecoratedStmt::Callable(Callable::FuncBlock(fb)) => 2 + block_size(fb.block@, 0),
        DecoratedStmt::Conditional(c) => 1 + stmt_size(*c.success),
        _ => 1,
    }
}

pub open spec fn block_size(b: Seq<DecoratedStmt>, i: int) -> nat
    decreases b, b.len() - i, 0int,
{
    if i < 0 || i >= b.len() {
        0
    } else {
        stmt_size(b[i]) + block_size(b, i + 1)
    }
}

/// Total size of the function bodies waiting in the compile queue.
pub open spec fn queue_size(q: Seq<FuncBlock>) -> nat
    decreases q.len(),
{
    if q.len() == 0 {
        0
    } else {
        queue_size(q.drop_last()) + 1 + block_size(q.last().block@, 0)
    }
}

/// Number of statements of `b` (from `i` on) that are not callables: the
/// statements that get a basic block of their own.
pub open spec fn count_non_callable(b: Seq<DecoratedStmt>, i: int) -> nat
    decreases b.len() - i,
{
    if i < 0 || i >= b.len() {
        0
    } else {
        (if b[i] is Callable {
            0nat
        } else {
            1nat
        }) + count_non_callable(b, i + 1)
    }
}

/// Value of an association list: the entry pushed last wins, as an
/// overwriting map insert would.
pub open spec fn spec_assoc(m: Seq<(usize, usize)>, k: usize) -> Option<usize>
    decreases m.len(),
{
    if m.len() == 0 {
        None
    } else if m.last().0 == k {
        Some(m.last().1)
    } else {
        spec_assoc(m.drop_last(), k)
    }
}

fn assoc_get(m: &Vec<(usize, usize)>, k: usize) -> (r: Option<usize>)
    ensures
        r == spec_assoc(m@, k),
{
    let mut i: usize = m.len();
    proof {
        assert(m@.subrange(0, m@.len() as int) =~= m@);
    }
    loop
        invariant
            0 <= i <= m@.len(),
            spec_assoc(m@, k) == spec_assoc(m@.subrange(0, i as int), k),
        decreases i,
    {
        if i == 0 {
            proof {
                assert(m@.subrange(0, 0) =~= Seq::empty());
            }
            return None;
        }
        let (key, value) = m[i - 1];
        proof {
            assert(m@.subrange(0, i as int).last() == m@[i - 1]);
            assert(m@.subrange(0, i as int).drop_last() =~= m@.subrange(0, i as int - 1));
        }
        if key == k {
            return Some(value);
        }
        i = i - 1;
    }
}

fn assoc_set(m: &mut Vec<(usize, usize)>, k: usize, v: usize)
    ensures
        final(m)@ == old(m)@.push((k, v)),
        spec_assoc(final(m)@, k) == Some(v),
        forall|k2: usize| k2 != k ==> spec_assoc(final(m)@, k2) == spec_assoc(old(m)@, k2),
{
    m.push((k, v));
    proof {
        assert(m@.drop_last() =~= old(m)@);
    }
}

/// A found association value stands in some entry of the list.
proof fn lemma_assoc_found(m: Seq<(usize, usize)>, k: usize)
    ensures
        spec_assoc(m, k) matches Some(v) ==> exists|i: int| 0 <= i < m.len() && m[i] == (k, v),
    decreases m.len(),
{
    if m.len() > 0 {
        if m.last().0 == k {
            assert(m[m.len() - 1] == (k, m.last().1));
        } else {
            lemma_assoc_found(m.drop_last(), k);
            if spec_assoc(m, k) is Some {
                let v = spec_assoc(m, k)->Some_0;
                let i = choose|i: int| 0 <= i < m.drop_last().len() && m.drop_last()[i] == (k, v);
                assert(m[i] == (k, v));
            }
        }
    }
}

proof fn lemma_queue_size_push(q: Seq<FuncBlock>, fb: FuncBlock)
    ensures
        queue_size(q.push(fb)) == queue_size(q) + 1 + block_size(fb.block@, 0),
{
    assert(q.push(fb).drop_last() =~= q);
    assert(q.push(fb).last() == fb);
}

/// Appending a function with no body and as many values as parameters
/// keeps the module well formed.
fn add_function(m: &mut IrModule, f: IrFunction) -> (idx: usize)
    requires
        module_wf(*old(m)),
        f.n_params <= f.n_values,
        f.blocks@.len() == 0,
    ensures
        module_wf(*final(m)),
        final(m).funcs@ == old(m).funcs@.push(f),
        funcs_m(final(m).funcs@) == funcs_m(old(m).funcs@).push(func_m(f)),
        idx == old(m).funcs@.len(),
{
    let idx = m.funcs.len();
    m.funcs.push(f);
    proof {
        assert(funcs_m(m.funcs@) =~= funcs_m(old(m).funcs@).push(func_m(f)));
        assert forall|k: int| 0 <= k < m.funcs@.len() implies func_wf(
            #[trigger] m.funcs@[k],
            m.funcs@.len() as int,
        ) by {
            if k < idx {
                assert(m.funcs@[k] == old(m).funcs@[k]);
                assert(func_wf(old(m).funcs@[k], old(m).funcs@.len() as int));
            } else {
                assert(m.funcs@[k] == f);
            }
        }
    }
    idx
}

/// Append `ins` at the end of block `b` of function `f`.
fn push_instr(m: &mut IrModule, f: usize, b: usize, ins: Instr)
    requires
        module_wf(*old(m)),
        f < old(m).funcs@.len(),
        b < old(m).funcs@[f as int].blocks@.len(),
        instr_wf(
            ins,
            old(m).funcs@[f as int].n_values as int,
            old(m).funcs@[f as int].blocks@.len() as int,
            old(m).funcs@.len() as int,
        ),
    ensures
        module_wf(*final(m)),
        final(m).funcs@.len() == old(m).funcs@.len(),
        sigs_of(final(m).funcs@) == sigs_of(old(m).funcs@),
        final(m).funcs@[f as int].blocks@.len() == old(m).funcs@[f as int].blocks@.len(),
        final(m).funcs@[f as int].n_values == old(m).funcs@[f as int].n_values,
        final(m).funcs@[f as int].blocks@[b as int].instrs@ == old(m).funcs@[f as int].blocks@[b as int].instrs@.push(ins),
        forall|k: int|
            0 <= k < old(m).funcs@.len() && k != f ==> final(m).funcs@[k] == old(m).funcs@[k],
        forall|b2: int|
            0 <= b2 < old(m).funcs@[f as int].blocks@.len() && b2 != b ==> final(m).funcs@[f as int].blocks@[b2] == old(m).funcs@[f as int].blocks@[b2],
        funcs_m(final(m).funcs@) == fm_push_instr(funcs_m(old(m).funcs@), f as int, b as int, ins),
{
    let mut func = m.funcs.remove(f);
    let mut blk = func.blocks.remove(b);
    blk.instrs.push(ins);
    func.blocks.insert(b, blk);
    m.funcs.insert(f, func);
    proof {
        let oldf = old(m).funcs@[f as int];
        let newf = m.funcs@[f as int];
        assert(m.funcs@ =~= old(m).funcs@.update(f as int, newf));
        assert(newf.blocks@ =~= oldf.blocks@.update(
            b as int,
            newf.blocks@[b as int],
        ));
        assert(func_sig(newf) == func_sig(oldf));
        assert(sigs_of(m.funcs@) =~= sigs_of(old(m).funcs@));
        assert(func_m(newf).blocks =~= func_m(oldf).blocks.update(
            b as int,
            func_m(oldf).blocks[b as int].push(ins),
        ));
        assert(funcs_m(m.funcs@) =~~= fm_push_instr(funcs_m(old(m).funcs@), f as int, b as int, ins));
        assert forall|k: int| 0 <= k < m.funcs@.len() implies func_wf(
            #[trigger] m.funcs@[k],
            m.funcs@.len() as int,
        ) by {
            if k != f {
                assert(m.funcs@[k] == old(m).funcs@[k]);
            } else {
                assert forall|b2: int, i: int|
                    0 <= b2 < newf.blocks@.len() && 0 <= i
                        < newf.blocks@[b2].instrs@.len() implies instr_wf(
                    #[trigger] newf.blocks@[b2].instrs@[i],
                    newf.n_values as int,
                    newf.blocks@.len() as int,
                    m.funcs@.len() as int,
                ) by {
                    if b2 == b {
                        if i < oldf.blocks@[b2].instrs@.len() {
                            assert(newf.blocks@[b2].instrs@[i] == oldf.blocks@[b2].instrs@[i]);
                        } else {
                            assert(newf.blocks@[b2].instrs@[i] == ins);
                        }
                    } else {
                        assert(newf.blocks@[b2] == oldf.blocks@[b2]);
                    }
                }
            }
        }
    }
}

/// Append an empty block to function `f`; its index comes back.
fn append_block(m: &mut IrModule, f: usize) -> (b: usize)
    requires
        module_wf(*old(m)),
        f < old(m).funcs@.len(),
    ensures
        module_wf(*final(m)),
        final(m).funcs@.len() == old(m).funcs@.len(),
        sigs_of(final(m).funcs@) == sigs_of(old(m).funcs@),
        b == old(m).funcs@[f as int].blocks@.len(),
        final(m).funcs@[f as int].blocks@.len() == b + 1,
        final(m).funcs@[f as int].n_values == old(m).funcs@[f as int].n_values,
        forall|b2: int|
            0 <= b2 < old(m).funcs@[f as int].blocks@.len() ==> final(m).funcs@[f as int].blocks@[b2] == old(m).funcs@[f as int].blocks@[b2],
        final(m).funcs@[f as int].blocks@[b as int].instrs@ == Seq::<Instr>::empty(),
        forall|k: int|
            0 <= k < old(m).funcs@.len() && k != f ==> final(m).funcs@[k] == old(m).funcs@[k],
        funcs_m(final(m).funcs@) == fm_append_block(funcs_m(old(m).funcs@), f as int),
{
    let mut func = m.funcs.remove(f);
    let b = func.blocks.len();
    func.blocks.push(IrBlock { instrs: Vec::new() });
    m.funcs.insert(f, func);
    proof {
        let oldf = old(m).funcs@[f as int];
        let newf = m.funcs@[f as int];
        assert(m.funcs@ =~= old(m).funcs@.update(f as int, newf));
        assert(func_sig(newf) == func_sig(oldf));
        assert(sigs_of(m.funcs@) =~= sigs_of(old(m).funcs@));
        assert(func_m(newf).blocks =~= func_m(oldf).blocks.push(Seq::empty()));
        assert(funcs_m(m.funcs@) =~~= fm_append_block(funcs_m(old(m).funcs@), f as int));
        assert forall|k: int| 0 <= k < m.funcs@.len() implies func_wf(
            #[trigger] m.funcs@[k],
            m.funcs@.len() as int,
        ) by {
            if k != f {
                assert(m.funcs@[k] == old(m).funcs@[k]);
            } else {
                assert forall|b2: int, i: int|
                    0 <= b2 < newf.blocks@.len() && 0 <= i
                        < newf.blocks@[b2].instrs@.len() implies instr_wf(
                    #[trigger] newf.blocks@[b2].instrs@[i],
                    newf.n_values as int,
                    newf.blocks@.len() as int,
                    m.funcs@.len() as int,
                ) by {
                    assert(b2 < oldf.blocks@.len());
                    assert(newf.blocks@[b2] == oldf.blocks@[b2]);
                    assert(instr_wf(
                        oldf.blocks@[b2].instrs@[i],
                        oldf.n_values as int,
                        oldf.blocks@.len() as int,
                        m.funcs@.len() as int,
                    ));
                }
            }
        }
    }
    b
}

/// Allocate a fresh value ID in function `f`.
fn new_value(m: &mut IrModule, f: usize) -> (r: Result<usize, CodegenError>)
    requires
        module_wf(*old(m)),
        f < old(m).funcs@.len(),
    ensures
        module_wf(*final(m)),
        final(m).funcs@.len() == old(m).funcs@.len(),
        sigs_of(final(m).funcs@) == sigs_of(old(m).funcs@),
        match r {
            Ok(v) => v == old(m).funcs@[f as int].n_values && final(m).funcs@[f as int].n_values
                == v + 1 && final(m).funcs@[f as int].blocks == old(m).funcs@[f as int].blocks && (forall|k: int|
                0 <= k < old(m).funcs@.len() && k != f ==> final(m).funcs@[k] == old(m).funcs@[k])
                && funcs_m(final(m).funcs@) == fm_new_value(funcs_m(old(m).funcs@), f as int),
            Err(_) => *final(m) == *old(m) && old(m).funcs@[f as int].n_values == usize::MAX,
        },
{
    if m.funcs[f].n_values == usize::MAX {
        return Err(CodegenError::CapacityExceeded);
    }
    let mut func = m.funcs.remove(f);
    let v = func.n_values;
    func.n_values = v + 1;
    m.funcs.insert(f, func);
    proof {
        let oldf = old(m).funcs@[f as int];
        let newf = m.funcs@[f as int];
        assert(m.funcs@ =~= old(m).funcs@.update(f as int, newf));
        assert(func_sig(newf) == func_sig(oldf));
        assert(sigs_of(m.funcs@) =~= sigs_of(old(m).funcs@));
        assert(func_m(newf).blocks =~= func_m(oldf).blocks);
        assert(funcs_m(m.funcs@) =~~= fm_new_value(funcs_m(old(m).funcs@), f as int));
        assert forall|k: int| 0 <= k < m.funcs@.len() implies func_wf(
            #[trigger] m.funcs@[k],
            m.funcs@.len() as int,
        ) by {
            if k != f {
                assert(m.funcs@[k] == old(m).funcs@[k]);
            } else {
                assert forall|b2: int, i: int|
                    0 <= b2 < newf.blocks@.len() && 0 <= i
                        < newf.blocks@[b2].instrs@.len() implies instr_wf(
                    #[trigger] newf.blocks@[b2].instrs@[i],
                    newf.n_values as int,
                    newf.blocks@.len() as int,
                    m.funcs@.len() as int,
                ) by {
                    assert(instr_wf(
                        oldf.blocks@[b2].instrs@[i],
                        oldf.n_values as int,
                        oldf.blocks@.len() as int,
                        m.funcs@.len() as int,
                    ));
                }
            }
        }
    }
    Ok(v)
}

/// Allocate a fresh value and a stack slot for it at the very front of
/// function `f`'s entry block, before every existing instruction, so that
/// the allocation dominates all uses.
fn alloca_front(m: &mut IrModule, f: usize) -> (r: Result<usize, CodegenError>)
    requires
        module_wf(*old(m)),
        f < old(m).funcs@.len(),
        old(m).funcs@[f as int].blocks@.len() >= 1,
    ensures
        module_wf(*final(m)),
        final(m).funcs@.len() == old(m).funcs@.len(),
        sigs_of(final(m).funcs@) == sigs_of(old(m).funcs@),
        r matches Ok(v) ==> v == old(m).funcs@[f as int].n_values && final(m).funcs@[f as int].n_values == v + 1 && final(m).funcs@[f as int].blocks@.len() == old(m).funcs@[f as int].blocks@.len() && (forall|k: int|
            0 <= k < old(m).funcs@.len() && k != f ==> final(m).funcs@[k] == old(m).funcs@[k]) && (
        forall|b2: int|
            1 <= b2 < old(m).funcs@[f as int].blocks@.len() ==> final(m).funcs@[f as int].blocks@[b2] == old(m).funcs@[f as int].blocks@[b2]) && funcs_m(
            final(m).funcs@,
        ) == fm_alloca_front(funcs_m(old(m).funcs@), f as int),
        r is Err ==> *final(m) == *old(m) && old(m).funcs@[f as int].n_values == usize::MAX,
{
    let v = match new_value(m, f) {
        Ok(v) => v,
        Err(e) => {
            return Err(e);
        },
    };
    let ghost mid = *m;
    let mut func = m.funcs.remove(f);
    let mut blk = func.blocks.remove(0);
    blk.instrs.insert(0, Instr::Alloca { dst: v });
    func.blocks.insert(0, blk);
    m.funcs.insert(f, func);
    proof {
        let oldf = mid.funcs@[f as int];
        let newf = m.funcs@[f as int];
        assert(m.funcs@ =~= mid.funcs@.update(f as int, newf));
        assert(newf.blocks@ =~= oldf.blocks@.update(0, newf.blocks@[0]));
        assert(func_sig(newf) == func_sig(oldf));
        assert(sigs_of(m.funcs@) =~= sigs_of(mid.funcs@));
        let origs = funcs_m(old(m).funcs@);
        let origf = origs[f as int];
        assert(funcs_m(mid.funcs@) == fm_new_value(origs, f as int));
        assert(func_m(oldf) == fm_new_value(origs, f as int)[f as int]);
        assert(func_m(oldf).blocks == origf.blocks);
        assert(v == origf.n_values);
        assert(func_m(newf).blocks[0] =~= seq![Instr::Alloca { dst: v }] + origf.blocks[0]);
        assert(func_m(newf).blocks =~= origf.blocks.update(
            0,
            seq![Instr::Alloca { dst: v }] + origf.blocks[0],
        ));
        assert(func_m(newf) =~~= FuncM {
            n_values: (origf.n_values + 1) as usize,
            blocks: origf.blocks.update(0, seq![Instr::Alloca { dst: origf.n_values }] + origf.blocks[0]),
            ..origf
        });
        assert(funcs_m(m.funcs@) =~~= fm_alloca_front(origs, f as int));
        assert forall|k: int| 0 <= k < m.funcs@.len() implies func_wf(
            #[trigger] m.funcs@[k],
            m.funcs@.len() as int,
        ) by {
            if k != f {
                assert(m.funcs@[k] == mid.funcs@[k]);
            } else {
                assert forall|b2: int, i: int|
                    0 <= b2 < newf.blocks@.len() && 0 <= i
                        < newf.blocks@[b2].instrs@.len() implies instr_wf(
                    #[trigger] newf.blocks@[b2].instrs@[i],
                    newf.n_values as int,
                    newf.blocks@.len() as int,
                    m.funcs@.len() as int,
                ) by {
                    if b2 == 0 {
                        if i == 0 {
                            assert(newf.blocks@[0].instrs@[0] == Instr::Alloca { dst: v });
                        } else {
                            assert(newf.blocks@[0].instrs@[i] == oldf.blocks@[0].instrs@[i - 1]);
                            assert(instr_wf(
                                oldf.blocks@[0].instrs@[i - 1],
                                oldf.n_values as int,
                                oldf.blocks@.len() as int,
                                m.funcs@.len() as int,
                            ));
                        }
                    } else {
                        assert(newf.blocks@[b2] == oldf.blocks@[b2]);
                        assert(instr_wf(
                            oldf.blocks@[b2].instrs@[i],
                            oldf.n_values as int,
                            oldf.blocks@.len() as int,
                            m.funcs@.len() as int,
                        ));
                    }
                }
            }
        }
    }
    Ok(v)
}

/// No function of `b` has fewer blocks than it has in `a`.
pub open spec fn blocks_monotone(a: IrModule, b: IrModule) -> bool {
    &&& a.funcs@.len() == b.funcs@.len()
    &&& forall|k: int|
        0 <= k < a.funcs@.len() ==> (#[trigger] a.funcs@[k]).blocks@.len()
            <= b.funcs@[k].blocks@.len() && a.funcs@[k].n_values <= b.funcs@[k].n_values
}

proof fn lemma_block_size_shift(b: Seq<DecoratedStmt>, i: int)
    requires
        0 <= i,
        b.len() > 0,
    ensures
        block_size(b, i + 1) == block_size(b.drop_first(), i),
    decreases b.len() - i,
{
    if i + 1 < b.len() {
        lemma_block_size_shift(b, i + 1);
        assert(b.drop_first()[i] == b[i + 1]);
    }
}

proof fn lemma_build_stmts_shift(m: CgM, b: Seq<DecoratedStmt>, i: int)
    requires
        0 <= i,
        b.len() > 0,
    ensures
        spec_build_stmts(m, b, i + 1) == spec_build_stmts(m, b.drop_first(), i),
    decreases b.len() - i,
{
    if i + 1 < b.len() {
        assert(b.drop_first()[i] == b[i + 1]);
        match spec_build_stmt(m, b[i + 1]) {
            None => {},
            Some(m1) => {
                lemma_build_stmts_shift(m1, b, i + 1);
            },
        }
    }
}

/// The code generator: the module being built, the map from identifier IDs
/// to declared functions, the queue of function bodies awaiting lowering,
/// and the per-function local-slot and line-to-block maps.
pub struct Codegen {
    pub module: IrModule,
    pub functions: Vec<(usize, usize)>,
    pub func_compile_queue: Vec<FuncBlock>,
    pub cur_locals: Vec<(usize, usize)>,
    pub cur_func: Option<usize>,
    pub cur_line_map: Vec<(usize, usize)>,
}

impl Codegen {
    /// The generator's state as one ghost value, the thing the reference
    /// lowering functions (`spec_get_local`, `spec_build_stmt`, ...) step.
    pub open spec fn model(self) -> CgM {
        CgM {
            funcs: funcs_m(self.module.funcs@),
            functions: self.functions@,
            queue: self.func_compile_queue@,
            locals: self.cur_locals@,
            cur_func: self.cur_func,
            line_map: self.cur_line_map@,
        }
    }

    /// The generator's running invariant: the module is well formed, every
    /// mapped function index, local slot and line block is in range.
    pub open spec fn inv(self) -> bool {
        &&& module_wf(self.module)
        &&& (self.cur_func matches Some(c) ==> c < self.module.funcs@.len() && (forall|i: int|
            0 <= i < self.cur_locals@.len() ==> (#[trigger] self.cur_locals@[i]).1
                < self.module.funcs@[c as int].n_values) && (forall|i: int|
            0 <= i < self.cur_line_map@.len() ==> (#[trigger] self.cur_line_map@[i]).1
                < self.module.funcs@[c as int].blocks@.len()))
        &&& forall|i: int|
            0 <= i < self.functions@.len() ==> (#[trigger] self.functions@[i]).1
                < self.module.funcs@.len()
    }

    /// What statement lowering keeps fixed.
    pub open spec fn same_frame(self, o: Codegen) -> bool {
        &&& self.functions == o.functions
        &&& self.cur_func == o.cur_func
        &&& sigs_of(self.module.funcs@) == sigs_of(o.module.funcs@)
        &&& blocks_monotone(o.module, self.module)
    }

    /// The local slot of `id`, allocated at the front of the current
    /// function's entry block on first use.
    fn get_local(&mut self, id: usize) -> (r: Result<usize, CodegenError>)
        requires
            old(self).inv(),
            old(self).cur_func matches Some(c) && old(self).module.funcs@[c as int].blocks@.len()
                >= 1,
        ensures
            final(self).inv(),
            final(self).same_frame(*old(self)),
            final(self).func_compile_queue == old(self).func_compile_queue,
            final(self).cur_line_map == old(self).cur_line_map,
            r matches Ok(v) ==> v < final(self).module.funcs@[final(self).cur_func->Some_0 as int].n_values,
            match r {
                Ok(v) => spec_get_local(old(self).model(), id) == Some((final(self).model(), v)),
                Err(_) => spec_get_local(old(self).model(), id) is None,
            },
    {
        let ghost m0 = self.model();
        let c = match self.cur_func {
            Some(c) => c,
            None => {
                return Err(CodegenError::NoCurrentFunction { line: 0 });
            },
        };
        match assoc_get(&self.cur_locals, id) {
            Some(v) => {
                proof {
                    lemma_assoc_found(self.cur_locals@, id);
                    assert(self.model() =~~= m0);
                }
                Ok(v)
            },
            None => {
                let v = match alloca_front(&mut self.module, c) {
                    Ok(v) => v,
                    Err(e) => {
                        return Err(e);
                    },
                };
                assoc_set(&mut self.cur_locals, id, v);
                proof {
                    let m1 = cgm_alloca_front(m0, c as int);
                    assert(self.model() =~~= (CgM { locals: m1.locals.push((id, v)), ..m1 }));
                }
                Ok(v)
            },
        }
    }

    /// Lower an operand into block `blk` of the current function: a load
    /// from the identifier's slot, or the calls of a call graph; the value
    /// holding the result comes back.
    fn build_expr(&mut self, expr: &DecoratedExpr, blk: usize) -> (r: Result<usize, CodegenError>)
        requires
            old(self).inv(),
            old(self).cur_func matches Some(c) && blk < old(self).module.funcs@[c as int].blocks@.len(),
        ensures
            final(self).inv(),
            final(self).same_frame(*old(self)),
            final(self).func_compile_queue == old(self).func_compile_queue,
            final(self).cur_line_map == old(self).cur_line_map,
            r matches Ok(v) ==> v < final(self).module.funcs@[final(self).cur_func->Some_0 as int].n_values,
            match r {
                Ok(v) => spec_build_expr(old(self).model(), *expr, blk) == Some(
                    (final(self).model(), v),
                ),
                Err(_) => spec_build_expr(old(self).model(), *expr, blk) is None,
            },
        decreases expr,
    {
        let ghost m0 = self.model();
        let c = match self.cur_func {
            Some(c) => c,
            None => {
                return Err(CodegenError::NoCurrentFunction { line: 0 });
            },
        };
        match expr {
            DecoratedExpr::CallExpr(ce) => {
                let fidx = match assoc_get(&self.functions, ce.function.id) {
                    Some(f) => f,
                    None => {
                        return Err(CodegenError::UnknownFunction { id: ce.function.id });
                    },
                };
                proof {
                    lemma_assoc_found(self.functions@, ce.function.id);
                }
                let a1 = match self.build_expr(&ce.p1, blk) {
                    Ok(v) => v,
                    Err(e) => {
                        return Err(e);
                    },
                };
                let a2 = match &ce.p2 {
                    Some(b2) => {
                        match self.build_expr(b2, blk) {
                            Ok(v) => Some(v),
                            Err(e) => {
                                return Err(e);
                            },
                        }
                    },
                    None => None,
                };
                let ghost m2 = self.model();
                let dst = match new_value(&mut self.module, c) {
                    Ok(v) => v,
                    Err(e) => {
                        return Err(e);
                    },
                };
                push_instr(
                    &mut self.module,
                    c,
                    blk,
                    Instr::Call { dst, callee: fidx, arg1: a1, arg2: a2 },
                );
                proof {
                    assert(self.model() =~~= cgm_push_instr(
                        cgm_new_value(m2, c as int),
                        c as int,
                        blk as int,
                        Instr::Call { dst, callee: fidx, arg1: a1, arg2: a2 },
                    ));
                }
                Ok(dst)
            },
            DecoratedExpr::Identifier(i) => {
                let ptr = match self.get_local(i.id) {
                    Ok(p) => p,
                    Err(e) => {
                        return Err(e);
                    },
                };
                let ghost m1 = self.model();
                let dst = match new_value(&mut self.module, c) {
                    Ok(v) => v,
                    Err(e) => {
                        return Err(e);
                    },
                };
                push_instr(&mut self.module, c, blk, Instr::Load { dst, ptr });
                proof {
                    assert(self.model() =~~= cgm_push_instr(
                        cgm_new_value(m1, c as int),
                        c as int,
                        blk as int,
                        Instr::Load { dst, ptr },
                    ));
                }
                Ok(dst)
            },
        }
    }

    /// Lower one statement into its line's block: a literal stores a
    /// constant, an assignment stores its lowered value (or lowers it for
    /// effect alone), a return lowers and returns, a conditional lowers its
    /// body into a fresh block and branches on the flag, a user function is
    /// queued for later lowering, and a fall-through branch is added where
    /// a next block exists. `goto` is deliberately a fatal stub.
    #[verifier::rlimit(100)]
    fn build_stmt(&mut self, stmt: DecoratedStmt) -> (r: Result<(), CodegenError>)
        requires
            old(self).inv(),
            old(self).cur_func is Some,
        ensures
            final(self).inv(),
            final(self).same_frame(*old(self)),
            queue_size(final(self).func_compile_queue@) <= queue_size(
                old(self).func_compile_queue@,
            ) + stmt_size(stmt),
            match r {
                Ok(_) => spec_build_stmt(old(self).model(), stmt) == Some(final(self).model()),
                Err(_) => spec_build_stmt(old(self).model(), stmt) is None,
            },
        decreases stmt,
    {
        let ghost m0 = self.model();
        let ghost stmt0 = stmt;
        let c = match self.cur_func {
            Some(c) => c,
            None => {
                return Err(CodegenError::NoCurrentFunction { line: 0 });
            },
        };
        match stmt {
            DecoratedStmt::Callable(callable) => {
                match callable {
                    Callable::FuncBlock(fb) => {
                        let ghost fbg = fb;
                        proof {
                            lemma_queue_size_push(self.func_compile_queue@, fb);
                        }
                        self.func_compile_queue.push(fb);
                        proof {
                            assert(self.model() =~~= (CgM { queue: m0.queue.push(fbg), ..m0 }));
                        }
                        Ok(())
                    },
                    Callable::ExternFunction(_) => {
                        proof {
                            assert(self.model() =~~= m0);
                        }
                        Ok(())
                    },
                }
            },
            stmt => {
                let ghost stmt1 = stmt;
                let line = stmt.line_number();
                let is_terminator = match &stmt {
                    DecoratedStmt::ReturnStmt(_) | DecoratedStmt::Conditional(_) => true,
                    _ => false,
                };
                let blk = match assoc_get(&self.cur_line_map, line) {
                    Some(b) => b,
                    None => {
                        return Err(CodegenError::MissingBlock { line });
                    },
                };
                proof {
                    lemma_assoc_found(self.cur_line_map@, line);
                }
                match stmt {
                    DecoratedStmt::LoadLiteralNumber(l) => {
                        let ptr = match self.get_local(l.ident.id) {
                            Ok(p) => p,
                            Err(e) => {
                                return Err(e);
                            },
                        };
                        let ghost ma = self.model();
                        push_instr(
                            &mut self.module,
                            c,
                            blk,
                            Instr::Store { ptr, value: Operand::Const(l.value) },
                        );
                        proof {
                            assert(self.model() =~~= cgm_push_instr(
                                ma,
                                c as int,
                                blk as int,
                                Instr::Store { ptr, value: Operand::Const(l.value) },
                            ));
                            assert(spec_build_plain(m0, stmt1, c as int, line, blk) == Some(
                                self.model(),
                            ));
                        }
                    },
                    DecoratedStmt::Conditional(cd) => {
                        let ghost cdg = cd;
                        let cond_expr = DecoratedExpr::Identifier(cd.condition);
                        let cond = match self.build_expr(&cond_expr, blk) {
                            Ok(v) => v,
                            Err(e) => {
                                return Err(e);
                            },
                        };
                        let ghost m1 = self.model();
                        let then_block = append_block(&mut self.module, c);
                        proof {
                            assert(then_block == m1.funcs[c as int].blocks.len());
                            assert(self.model() =~~= cgm_append_block(m1, c as int));
                        }
                        assoc_set(&mut self.cur_line_map, line, then_block);
                        let ghost m3 = self.model();
                        proof {
                            assert(m3 =~~= (CgM {
                                line_map: cgm_append_block(m1, c as int).line_map.push(
                                    (line, then_block),
                                ),
                                ..cgm_append_block(m1, c as int)
                            }));
                        }
                        match self.build_stmt(*cd.success) {
                            Ok(()) => {},
                            Err(e) => {
                                return Err(e);
                            },
                        }
                        let ghost m4 = self.model();
                        assoc_set(&mut self.cur_line_map, line, blk);
                        let ghost m5 = self.model();
                        proof {
                            assert(m5 =~~= (CgM { line_map: m4.line_map.push((line, blk)), ..m4 }));
                        }
                        let n_blocks = self.module.funcs[c].blocks.len();
                        if blk + 1 >= n_blocks {
                            return Err(CodegenError::NoNextBlock { line });
                        }
                        push_instr(
                            &mut self.module,
                            c,
                            blk,
                            Instr::CondBr { cond, then_target: then_block, else_target: blk + 1 },
                        );
                        proof {
                            assert(self.model() =~~= cgm_push_instr(
                                m5,
                                c as int,
                                blk as int,
                                Instr::CondBr {
                                    cond,
                                    then_target: then_block,
                                    else_target: (blk + 1) as usize,
                                },
                            ));
                            assert(spec_build_plain(m0, stmt1, c as int, line, blk) == Some(
                                self.model(),
                            ));
                        }
                    },
                    DecoratedStmt::Assignment(a) => {
                        match a.name {
                            Some(ident) => {
                                let ptr = match self.get_local(ident.id) {
                                    Ok(p) => p,
                                    Err(e) => {
                                        return Err(e);
                                    },
                                };
                                let v = match self.build_expr(&a.value, blk) {
                                    Ok(v) => v,
                                    Err(e) => {
                                        return Err(e);
                                    },
                                };
                                let ghost m2 = self.model();
                                push_instr(
                                    &mut self.module,
                                    c,
                                    blk,
                                    Instr::Store { ptr, value: Operand::Value(v) },
                                );
                                proof {
                                    assert(self.model() =~~= cgm_push_instr(
                                        m2,
                                        c as int,
                                        blk as int,
                                        Instr::Store { ptr, value: Operand::Value(v) },
                                    ));
                                    assert(spec_build_plain(m0, stmt1, c as int, line, blk)
                                        == Some(self.model()));
                                }
                            },
                            None => {
                                // An anonymous target: lower for effect only.
                                match self.build_expr(&a.value, blk) {
                                    Ok(_) => {},
                                    Err(e) => {
                                        return Err(e);
                                    },
                                }
                                proof {
                                    assert(spec_build_plain(m0, stmt1, c as int, line, blk)
                                        == Some(self.model()));
                                }
                            },
                        }
                    },
                    DecoratedStmt::ReturnStmt(rs) => {
                        let v = match self.build_expr(&rs.expr, blk) {
                            Ok(v) => v,
                            Err(e) => {
                                return Err(e);
                            },
                        };
                        let ghost m1 = self.model();
                        push_instr(&mut self.module, c, blk, Instr::Ret { val: v });
                        proof {
                            assert(self.model() =~~= cgm_push_instr(
                                m1,
                                c as int,
                                blk as int,
                                Instr::Ret { val: v },
                            ));
                            assert(spec_build_plain(m0, stmt1, c as int, line, blk) == Some(
                                self.model(),
                            ));
                        }
                    },
                    DecoratedStmt::GotoStmt(_) => {
                        return Err(CodegenError::GotoUnsupported { line });
                    },
                    _ => {
                        return Err(CodegenError::MissingBlock { line });
                    },
                }
                let ghost ma = self.model();
                // Implicit fall-through wiring to the next block in order;
                // a return or a conditional already ends its block.
                if !is_terminator {
                    let n_blocks = self.module.funcs[c].blocks.len();
                    if blk + 1 < n_blocks {
                        push_instr(&mut self.module, c, blk, Instr::Br { target: blk + 1 });
                        proof {
                            assert(self.model() =~~= cgm_push_instr(
                                ma,
                                c as int,
                                blk as int,
                                Instr::Br { target: (blk + 1) as usize },
                            ));
                        }
                    }
                }
                proof {
                    assert(spec_build_stmt(m0, stmt0) == Some(self.model()));
                }
                Ok(())
            },
        }
    }

    /// Lower a queued function body: spill the parameters into slots in the
    /// entry block, give each non-callable body statement a block of its
    /// own, branch from the entry into the first of them, and lower each
    /// statement in order.
    fn build_func(
        &mut self,
        body: Vec<DecoratedStmt>,
        id: usize,
        p1: usize,
        p2: Option<usize>,
    ) -> (r: Result<(), CodegenError>)
        requires
            old(self).inv(),
        ensures
            final(self).inv(),
            final(self).functions == old(self).functions,
            sigs_of(final(self).module.funcs@) == sigs_of(old(self).module.funcs@),
            blocks_monotone(old(self).module, final(self).module),
            queue_size(final(self).func_compile_queue@) <= queue_size(
                old(self).func_compile_queue@,
            ) + block_size(body@, 0),
            match r {
                Ok(_) => spec_build_func(old(self).model(), body@, id, p1, p2) == Some(
                    final(self).model(),
                ),
                Err(_) => spec_build_func(old(self).model(), body@, id, p1, p2) is None,
            },
    {
        let ghost m0 = self.model();
        let ghost body0 = body@;
        self.cur_locals = Vec::new();
        self.cur_line_map = Vec::new();
        proof {
            assert(self.model() =~~= (CgM { locals: Seq::empty(), line_map: Seq::empty(), ..m0 }));
        }
        let fidx = match assoc_get(&self.functions, id) {
            Some(f) => f,
            None => {
                return Err(CodegenError::UnknownFunction { id });
            },
        };
        proof {
            lemma_assoc_found(self.functions@, id);
        }
        self.cur_func = Some(fidx);
        let ghost m1 = self.model();
        let entry = append_block(&mut self.module, fidx);
        proof {
            assert(entry == m1.funcs[fidx as int].blocks.len());
            assert(self.model() =~~= cgm_append_block(m1, fidx as int));
        }
        let ghost m2 = self.model();
        let s1 = match new_value(&mut self.module, fidx) {
            Ok(v) => v,
            Err(e) => {
                return Err(e);
            },
        };
        push_instr(&mut self.module, fidx, entry, Instr::Alloca { dst: s1 });
        push_instr(&mut self.module, fidx, entry, Instr::Store {
            ptr: s1,
            value: Operand::Value(0),
        });
        assoc_set(&mut self.cur_locals, p1, s1);
        proof {
            let m3 = cgm_push_instr(
                cgm_push_instr(
                    cgm_new_value(m2, fidx as int),
                    fidx as int,
                    entry as int,
                    Instr::Alloca { dst: s1 },
                ),
                fidx as int,
                entry as int,
                Instr::Store { ptr: s1, value: Operand::Value(0) },
            );
            assert(self.model() =~~= (CgM { locals: m3.locals.push((p1, s1)), ..m3 }));
        }
        let ghost m4 = self.model();
        match p2 {
            Some(p2id) => {
                let s2 = match new_value(&mut self.module, fidx) {
                    Ok(v) => v,
                    Err(e) => {
                        return Err(e);
                    },
                };
                push_instr(&mut self.module, fidx, entry, Instr::Alloca { dst: s2 });
                push_instr(&mut self.module, fidx, entry, Instr::Store {
                    ptr: s2,
                    value: Operand::Value(1),
                });
                assoc_set(&mut self.cur_locals, p2id, s2);
                proof {
                    let m5 = cgm_push_instr(
                        cgm_push_instr(
                            cgm_new_value(m4, fidx as int),
                            fidx as int,
                            entry as int,
                            Instr::Alloca { dst: s2 },
                        ),
                        fidx as int,
                        entry as int,
                        Instr::Store { ptr: s2, value: Operand::Value(1) },
                    );
                    assert(self.model() =~~= (CgM { locals: m5.locals.push((p2id, s2)), ..m5 }));
                }
            },
            None => {},
        }
        let ghost m6 = self.model();
        // One block per non-callable body statement, mapped by line.
        let n = body.len();
        let mut i: usize = 0;
        while i < n
            invariant
                self.inv(),
                n == body@.len(),
                body0 == body@,
                0 <= i <= n,
                self.cur_func == Some(fidx),
                fidx < self.module.funcs@.len(),
                entry < self.module.funcs@[fidx as int].blocks@.len(),
                self.functions == old(self).functions,
                sigs_of(self.module.funcs@) == sigs_of(old(self).module.funcs@),
                blocks_monotone(old(self).module, self.module),
                self.func_compile_queue == old(self).func_compile_queue,
                spec_layout_blocks(m6, fidx as int, body0, 0) == spec_layout_blocks(
                    self.model(),
                    fidx as int,
                    body0,
                    i as int,
                ),
            decreases n - i,
        {
            let ghost mp = self.model();
            let is_callable = match &body[i] {
                DecoratedStmt::Callable(_) => true,
                _ => false,
            };
            if !is_callable {
                let line = body[i].line_number();
                let b = append_block(&mut self.module, fidx);
                assoc_set(&mut self.cur_line_map, line, b);
                proof {
                    assert(b == mp.funcs[fidx as int].blocks.len());
                    assert(self.model() =~~= (CgM {
                        line_map: cgm_append_block(mp, fidx as int).line_map.push((line, b)),
                        ..cgm_append_block(mp, fidx as int)
                    }));
                }
            }
            i = i + 1;
        }
        let ghost m7 = self.model();
        proof {
            assert(m7 == spec_layout_blocks(m6, fidx as int, body0, 0));
        }
        // Fall into the first body block, where one exists.
        let n_blocks = self.module.funcs[fidx].blocks.len();
        if entry + 1 < n_blocks {
            push_instr(&mut self.module, fidx, entry, Instr::Br { target: entry + 1 });
            proof {
                assert(self.model() =~~= cgm_push_instr(
                    m7,
                    fidx as int,
                    entry as int,
                    Instr::Br { target: (entry + 1) as usize },
                ));
            }
        }
        proof {
            assert(spec_build_func(m0, body0, id, p1, p2) == spec_build_stmts(
                self.model(),
                body0,
                0,
            ));
        }
        // Lower the body in order.
        let mut rest = body;
        #[verifier::loop_isolation(false)]
        while rest.len() > 0
            invariant
                self.inv(),
                self.cur_func is Some,
                self.functions == old(self).functions,
                sigs_of(self.module.funcs@) == sigs_of(old(self).module.funcs@),
                blocks_monotone(old(self).module, self.module),
                queue_size(self.func_compile_queue@) + block_size(rest@, 0) <= queue_size(
                    old(self).func_compile_queue@,
                ) + block_size(body0, 0),
                spec_build_func(m0, body0, id, p1, p2) == spec_build_stmts(
                    self.model(),
                    rest@,
                    0,
                ),
            decreases rest@.len(),
        {
            let ghost pre_rest = rest@;
            let ghost mpre = self.model();
            let s = rest.remove(0);
            proof {
                lemma_block_size_shift(pre_rest, 0);
            }
            match self.build_stmt(s) {
                Ok(()) => {},
                Err(e) => {
                    return Err(e);
                },
            }
            proof {
                lemma_build_stmts_shift(self.model(), pre_rest, 0);
            }
        }
        Ok(())
    }

    /// Build the entry function `main`: one block per non-callable
    /// top-level statement, lower every statement, then drain the compile
    /// queue until every user function body is lowered.
    fn build_main(&mut self, body: Vec<DecoratedStmt>) -> (r: Result<(), CodegenError>)
        requires
            old(self).inv(),
            old(self).func_compile_queue@.len() == 0,
        ensures
            final(self).inv(),
            r matches Ok(()) ==> sigs_of(final(self).module.funcs@) == sigs_of(
                old(self).module.funcs@,
            ).push(main_sig()) && final(self).module.funcs@[old(self).module.funcs@.len() as int].blocks@.len()
                >= count_non_callable(body@, 0),
            match r {
                Ok(_) => spec_build_main(old(self).model(), body@) == Some(final(self).model()),
                Err(_) => spec_build_main(old(self).model(), body@) is None,
            },
    {
        let ghost m0 = self.model();
        let ghost body0 = body@;
        let main_idx = add_function(
            &mut self.module,
            IrFunction {
                name: FuncName::Main,
                n_params: 0,
                linkage: Linkage::External,
                returns_i32: true,
                is_declaration: false,
                n_values: 0,
                blocks: Vec::new(),
            },
        );
        proof {
            assert(sigs_of(self.module.funcs@) =~= sigs_of(old(self).module.funcs@).push(
                main_sig(),
            ));
        }
        self.cur_func = Some(main_idx);
        self.cur_locals = Vec::new();
        self.cur_line_map = Vec::new();
        proof {
            assert(self.model() =~~= (CgM {
                funcs: m0.funcs.push(main_func_m()),
                cur_func: Some(main_idx),
                locals: Seq::empty(),
                line_map: Seq::empty(),
                ..m0
            }));
            assert(main_idx == m0.funcs.len());
        }
        let ghost m1 = self.model();
        let n = body.len();
        let mut i: usize = 0;
        #[verifier::loop_isolation(false)]
        while i < n
            invariant
                self.inv(),
                n == body@.len(),
                0 <= i <= n,
                self.cur_func == Some(main_idx),
                main_idx < self.module.funcs@.len(),
                main_idx == old(self).module.funcs@.len(),
                sigs_of(self.module.funcs@) == sigs_of(old(self).module.funcs@).push(main_sig()),
                self.functions == old(self).functions,
                self.func_compile_queue == old(self).func_compile_queue,
                count_non_callable(body@, 0) == self.module.funcs@[main_idx as int].blocks@.len()
                    + count_non_callable(body@, i as int),
                spec_layout_blocks(m1, main_idx as int, body0, 0) == spec_layout_blocks(
                    self.model(),
                    main_idx as int,
                    body0,
                    i as int,
                ),
            decreases n - i,
        {
            let ghost mp = self.model();
            let is_callable = match &body[i] {
                DecoratedStmt::Callable(_) => true,
                _ => false,
            };
            if !is_callable {
                let line = body[i].line_number();
                let b = append_block(&mut self.module, main_idx);
                assoc_set(&mut self.cur_line_map, line, b);
                proof {
                    assert(b == mp.funcs[main_idx as int].blocks.len());
                    assert(self.model() =~~= (CgM {
                        line_map: cgm_append_block(mp, main_idx as int).line_map.push((line, b)),
                        ..cgm_append_block(mp, main_idx as int)
                    }));
                }
            }
            i = i + 1;
        }
        proof {
            assert(self.model() == spec_layout_blocks(m1, main_idx as int, body0, 0));
        }
        // Lower every top-level statement in source order.
        let mut rest = body;
        #[verifier::loop_isolation(false)]
        while rest.len() > 0
            invariant
                self.inv(),
                self.cur_func == Some(main_idx),
                main_idx < self.module.funcs@.len(),
                main_idx == old(self).module.funcs@.len(),
                sigs_of(self.module.funcs@) == sigs_of(old(self).module.funcs@).push(main_sig()),
                self.module.funcs@[main_idx as int].blocks@.len() >= count_non_callable(body0, 0)
                    - count_non_callable(body0, body0.len() as int),
                self.functions == old(self).functions,
                spec_build_main(m0, body0) == (match spec_build_stmts(self.model(), rest@, 0) {
                    None => None::<CgM>,
                    Some(mm) => spec_drain(mm),
                }),
            decreases rest@.len(),
        {
            let ghost pre_rest = rest@;
            let s = rest.remove(0);
            match self.build_stmt(s) {
                Ok(()) => {},
                Err(e) => {
                    return Err(e);
                },
            }
            proof {
                lemma_build_stmts_shift(self.model(), pre_rest, 0);
            }
        }
        // Drain the compile queue to a fixpoint, most recent first.
        #[verifier::loop_isolation(false)]
        while self.func_compile_queue.len() > 0
            invariant
                self.inv(),
                main_idx < self.module.funcs@.len(),
                main_idx == old(self).module.funcs@.len(),
                sigs_of(self.module.funcs@) == sigs_of(old(self).module.funcs@).push(main_sig()),
                self.module.funcs@[main_idx as int].blocks@.len() >= count_non_callable(body0, 0)
                    - count_non_callable(body0, body0.len() as int),
                self.functions == old(self).functions,
                spec_build_main(m0, body0) == spec_drain(self.model()),
            decreases queue_size(self.func_compile_queue@),
        {
            let ghost pre_q = self.func_compile_queue@;
            let ghost mq = self.model();
            let fb = match self.func_compile_queue.pop() {
                Some(fb) => fb,
                None => unreached(),
            };
            let ghost fbg = fb;
            let p1 = fb.decl.p1.id;
            let p2 = match fb.decl.p2 {
                Some(ident) => Some(ident.id),
                None => None,
            };
            let fid = fb.decl.id.id;
            proof {
                assert(pre_q.drop_last() == self.func_compile_queue@);
                assert(queue_size(pre_q) == queue_size(self.func_compile_queue@) + 1 + block_size(
                    fb.block@,
                    0,
                ));
                assert(self.model() =~~= (CgM { queue: mq.queue.drop_last(), ..mq }));
            }
            let ghost m1d = self.model();
            match self.build_func(fb.block, fid, p1, p2) {
                Ok(()) => {},
                Err(e) => {
                    return Err(e);
                },
            }
            proof {
                assert(spec_build_func(m1d, fbg.block@, fid, p1, p2) == Some(self.model()));
                assert(queue_size(self.model().queue) < queue_size(mq.queue));
            }
        }
        proof {
            assert(count_non_callable(body0, body0.len() as int) == 0);
            assert(spec_build_main(m0, body0) == Some(self.model()));
        }
        Ok(())
    }

    /// Declare every callable of `stmts` up front, in statement order and
    /// through nested function bodies: externs by their lexeme with two
    /// integer parameters and external linkage, user functions by their
    /// numeric ID with internal linkage, exactly as `decls_of_block` says.
    fn declare_func_children(&mut self, stmts: &Vec<DecoratedStmt>)
        requires
            old(self).inv(),
        ensures
            final(self).inv(),
            sigs_of(final(self).module.funcs@) == sigs_of(old(self).module.funcs@)
                + decls_of_block(stmts@, 0),
            final(self).func_compile_queue == old(self).func_compile_queue,
            final(self).cur_func == old(self).cur_func,
            final(self).cur_locals == old(self).cur_locals,
            final(self).cur_line_map == old(self).cur_line_map,
            old(self).cur_func is None ==> final(self).cur_func is None,
            final(self).model() == spec_declare(old(self).model(), stmts@, 0),
        decreases stmts,
    {
        let ghost m0 = self.model();
        let n = stmts.len();
        let mut i: usize = 0;
        proof {
            assert(sigs_of(self.module.funcs@) + decls_of_block(stmts@, 0) =~= sigs_of(
                old(self).module.funcs@,
            ) + decls_of_block(stmts@, 0));
        }
        #[verifier::loop_isolation(false)]
        while i < n
            invariant
                self.inv(),
                n == stmts@.len(),
                0 <= i <= n,
                self.cur_func == old(self).cur_func,
                self.cur_locals == old(self).cur_locals,
                self.cur_line_map == old(self).cur_line_map,
                self.func_compile_queue == old(self).func_compile_queue,
                sigs_of(self.module.funcs@) + decls_of_block(stmts@, i as int) == sigs_of(
                    old(self).module.funcs@,
                ) + decls_of_block(stmts@, 0),
                spec_declare(m0, stmts@, 0) == spec_declare(self.model(), stmts@, i as int),
            decreases n - i,
        {
            let ghost pre = *self;
            match &stmts[i] {
                DecoratedStmt::Callable(Callable::ExternFunction(e)) => {
                    let name_copy = vstd::slice::slice_to_vec(e.name.as_slice());
                    let fv = IrFunction {
                        name: FuncName::External(name_copy),
                        n_params: 2,
                        linkage: Linkage::External,
                        returns_i32: false,
                        is_declaration: true,
                        n_values: 2,
                        blocks: Vec::new(),
                    };
                    let ghost sig = func_sig(fv);
                    let ghost fm = func_m(fv);
                    let idx = add_function(&mut self.module, fv);
                    assoc_set(&mut self.functions, e.ident.id, idx);
                    proof {
                        assert(sig == extern_sig(*e));
                        assert(fm == extern_func_m(*e));
                        assert(sigs_of(self.module.funcs@) =~= sigs_of(pre.module.funcs@).push(
                            sig,
                        ));
                        assert(decls_of_stmt(stmts@[i as int]) =~= seq![extern_sig(*e)]);
                        assert(sigs_of(self.module.funcs@) + decls_of_block(stmts@, i + 1) =~=
                            sigs_of(pre.module.funcs@) + decls_of_block(stmts@, i as int));
                        assert(self.model() =~~= spec_declare_stmt(pre.model(), stmts@[i as int]));
                    }
                },
                DecoratedStmt::Callable(Callable::FuncBlock(fb)) => {
                    let two = match fb.decl.p2 {
                        Some(_) => true,
                        None => false,
                    };
                    let np: usize = if two {
                        2
                    } else {
                        1
                    };
                    let fv = IrFunction {
                        name: FuncName::Id(fb.decl.id.id),
                        n_params: np,
                        linkage: Linkage::Internal,
                        returns_i32: false,
                        is_declaration: false,
                        n_values: np,
                        blocks: Vec::new(),
                    };
                    let ghost sig = func_sig(fv);
                    let ghost fm = func_m(fv);
                    let idx = add_function(&mut self.module, fv);
                    assoc_set(&mut self.functions, fb.decl.id.id, idx);
                    let ghost mid = *self;
                    proof {
                        assert(fm == funcblock_func_m(*fb));
                        assert(mid.model() =~~= (CgM {
                            funcs: pre.model().funcs.push(funcblock_func_m(*fb)),
                            functions: pre.model().functions.push(
                                (fb.decl.id.id, pre.model().funcs.len() as usize),
                            ),
                            ..pre.model()
                        }));
                    }
                    self.declare_func_children(&fb.block);
                    proof {
                        assert(sig == funcblock_sig(*fb));
                        assert(sigs_of(mid.module.funcs@) =~= sigs_of(pre.module.funcs@).push(
                            sig,
                        ));
                        assert(decls_of_stmt(stmts@[i as int]) =~= seq![funcblock_sig(*fb)]
                            + decls_of_block(fb.block@, 0));
                        assert(sigs_of(self.module.funcs@) + decls_of_block(stmts@, i + 1) =~=
                            sigs_of(pre.module.funcs@) + decls_of_block(stmts@, i as int));
                        assert(self.model() == spec_declare_stmt(pre.model(), stmts@[i as int]));
                    }
                },
                _ => {
                    proof {
                        assert(decls_of_stmt(stmts@[i as int]) =~= Seq::<FuncSig>::empty());
                        assert(sigs_of(self.module.funcs@) + decls_of_block(stmts@, i + 1) =~=
                            sigs_of(pre.module.funcs@) + decls_of_block(stmts@, i as int));
                        assert(self.model() =~~= spec_declare_stmt(pre.model(), stmts@[i as int]));
                    }
                },
            }
            i = i + 1;
        }
        proof {
            assert(decls_of_block(stmts@, n as int) =~= Seq::<FuncSig>::empty());
            assert(sigs_of(self.module.funcs@) + Seq::<FuncSig>::empty() =~= sigs_of(
                self.module.funcs@,
            ));
        }
    }

    /// Compile a decorated program into an IR module: declare every
    /// callable up front, then build `main` and every user function. The
    /// module comes out well formed, its functions exactly the declared
    /// callables followed by `main`.
    pub fn compile(ast: Vec<DecoratedStmt>) -> (r: Result<IrModule, CodegenError>)
        ensures
            r matches Ok(m) ==> module_wf(m) && sigs_of(m.funcs@) == decls_of_block(ast@, 0).push(
                main_sig(),
            ),
            match r {
                Ok(m) => spec_compile(ast@) == Some(funcs_m(m.funcs@)),
                Err(_) => spec_compile(ast@) is None,
            },
    {
        let mut cg = Codegen {
            module: IrModule { funcs: Vec::new() },
            functions: Vec::new(),
            func_compile_queue: Vec::new(),
            cur_locals: Vec::new(),
            cur_func: None,
            cur_line_map: Vec::new(),
        };
        proof {
            assert(sigs_of(cg.module.funcs@) =~= Seq::<FuncSig>::empty());
            assert(cg.model() =~~= cgm_init());
        }
        cg.declare_func_children(&ast);
        match cg.build_main(ast) {
            Ok(()) => {
                proof {
                    assert(decls_of_block(ast@, 0).push(main_sig()) =~= (Seq::<
                        FuncSig,
                    >::empty() + decls_of_block(ast@, 0)).push(main_sig()));
                    assert(spec_compile(ast@) == Some(cg.model().funcs));
                }
                Ok(cg.module)
            },
            Err(e) => Err(e),
        }
    }
}

} // verus!
