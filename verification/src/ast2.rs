//! Semantic pass: lowers the concrete tree to a decorated statement list.
//!
//! Identifiers are interned to stable numeric IDs — the ID is the index of
//! the first occurrence of the name, so functions, externs, literal names,
//! locals and parameters share one namespace. A literal, function or extern
//! declaration demands a fresh name; an assignment target shadows or
//! creates; every reference must resolve. Operator chains are zipped with
//! their operand trees into call expressions, and `still in` attaches a
//! statement to the body of the named function as well as to the output.
use vstd::prelude::*;

use crate::ast1::{behaviour_v_wf, expr_wf, ops_wf, AssignTarget, AssignValue, AssignValueV, Behaviour,
    BehaviourV, Expr, Op, Parser1, Stmt};
use crate::lexer::{lemma_src_len_fits, ParseError, Span};

verus! {

/// A stable numeric name: the index at which the lexeme was first interned.
#[derive(PartialEq, Eq, Structural, Hash, Clone, Copy, Debug)]
pub struct Identifier {
    pub id: usize,
}

/// A call of the function `function` on one or two lowered arguments.
#[derive(Debug)]
pub struct CallExpr {
    pub function: Identifier,
    pub p1: Box<DecoratedExpr>,
    pub p2: Option<Box<DecoratedExpr>>,
}

/// A lowered operand: a call graph or a bare identifier reference.
#[derive(Debug)]
pub enum DecoratedExpr {
    CallExpr(CallExpr),
    Identifier(Identifier),
}

/// A user function: its declaration and the statements attached to its
/// body by `still in`.
#[derive(Debug)]
pub struct FuncBlock {
    pub decl: FuncDecl,
    pub block: Vec<DecoratedStmt>,
}

/// Store the literal `value` into the freshly named `ident`.
#[derive(Clone, Copy, Debug)]
pub struct LoadLiteralNumber {
    pub line: usize,
    pub ident: Identifier,
    pub value: usize,
}

/// A function declaration: its ID and one or two parameter IDs.
#[derive(Clone, Copy, Debug)]
pub struct FuncDecl {
    pub line: usize,
    pub id: Identifier,
    pub p1: Identifier,
    pub p2: Option<Identifier>,
}

/// Run `success` only when the flag `condition` holds.
#[derive(Debug)]
pub struct Conditional {
    pub condition: Identifier,
    pub success: Box<DecoratedStmt>,
}

/// Store `value` into `name`, or evaluate it for effect when anonymous.
#[derive(Debug)]
pub struct Assignment {
    pub line: usize,
    pub name: Option<Identifier>,
    pub value: DecoratedExpr,
}

/// A linker-resolved function; `name` is the source lexeme, which becomes
/// the external linkage name.
#[derive(Debug)]
pub struct ExternFunction {
    pub line: usize,
    pub name: Vec<u8>,
    pub ident: Identifier,
}

#[derive(Debug)]
pub struct ReturnStmt {
    pub line: usize,
    pub expr: DecoratedExpr,
}

#[derive(Debug)]
pub struct GotoStmt {
    pub line: usize,
    pub target: DecoratedExpr,
}

/// An entry of the function table.
#[derive(Debug)]
pub enum Callable {
    ExternFunction(ExternFunction),
    FuncBlock(FuncBlock),
}

/// A decorated statement.
#[derive(Debug)]
pub enum DecoratedStmt {
    LoadLiteralNumber(LoadLiteralNumber),
    Callable(Callable),
    Conditional(Conditional),
    Assignment(Assignment),
    ReturnStmt(ReturnStmt),
    GotoStmt(GotoStmt),
}

/// The error the semantic pass stops with.
#[derive(Clone, Copy, PartialEq, Eq, Structural, Debug)]
pub enum SemError {
    /// The statement stream itself failed.
    Syntax(ParseError),
    /// A literal, function or extern declaration without a nameable target.
    MissingName { line: usize },
    /// A fresh declaration re-uses a name; the span names the lexeme.
    Redeclared { name: Span },
    /// A reference to a name never introduced.
    Undefined { name: Span },
    /// `still in` names something that is not a function.
    NotAFunction { name: Span },
    /// `still in` names an extern, which has no body.
    ExternHasBody { name: Span },
    /// `return` or `goto` without an operand expression, or an op-chain
    /// assignment without one.
    MissingExpr { line: usize },
    /// `return` or `goto` with a value that is not an op-chain.
    BadAssignValue { line: usize },
    /// The op-chain is shorter or longer than the operand tree consumes.
    OpCountMismatch { line: usize },
    /// `still in` around a declaration, which emits no statement to attach.
    NothingToAttach { line: usize },
}

impl DecoratedStmt {
    /// The source line a statement came from; a conditional sits on the
    /// line of the statement it guards.
    pub open spec fn spec_line_number(&self) -> usize
        decreases self,
    {
        match self {
            DecoratedStmt::LoadLiteralNumber(stmt) => stmt.line,
            DecoratedStmt::Callable(c) => match c {
                Callable::FuncBlock(fb) => fb.decl.line,
                Callable::ExternFunction(e) => e.line,
            },
            DecoratedStmt::Conditional(stmt) => stmt.success.spec_line_number(),
            DecoratedStmt::Assignment(stmt) => stmt.line,
            DecoratedStmt::ReturnStmt(stmt) => stmt.line,
            DecoratedStmt::GotoStmt(stmt) => stmt.line,
        }
    }

    pub fn line_number(&self) -> (r: usize)
        ensures
            r == self.spec_line_number(),
        decreases self,
    {
        match self {
            DecoratedStmt::LoadLiteralNumber(stmt) => stmt.line,
            DecoratedStmt::Callable(c) => match c {
                Callable::FuncBlock(fb) => fb.decl.line,
                Callable::ExternFunction(e) => e.line,
            },
            DecoratedStmt::Conditional(stmt) => stmt.success.line_number(),
            DecoratedStmt::Assignment(stmt) => stmt.line,
            DecoratedStmt::ReturnStmt(stmt) => stmt.line,
            DecoratedStmt::GotoStmt(stmt) => stmt.line,
        }
    }
}

/// Ghost model of a `FuncBlock`: the body as a sequence.
pub struct FuncBlockM {
    pub decl: FuncDecl,
    pub block: Seq<DecoratedStmt>,
}

/// Ghost model of a function-table entry.
pub enum CallableM {
    Extern { line: usize, name: Seq<u8>, ident: Identifier },
    Func(FuncBlockM),
}

pub open spec fn callable_view(c: Callable) -> CallableM {
    match c {
        Callable::ExternFunction(e) => CallableM::Extern {
            line: e.line,
            name: e.name@,
            ident: e.ident,
        },
        Callable::FuncBlock(fb) => CallableM::Func(FuncBlockM { decl: fb.decl, block: fb.block@ }),
    }
}

pub open spec fn funcs_view(funcs: Seq<Callable>) -> Seq<CallableM> {
    funcs.map_values(|c: Callable| callable_view(c))
}

/// The identifier a function-table entry is keyed by.
pub open spec fn callable_m_id(c: CallableM) -> usize {
    match c {
        CallableM::Extern { ident, .. } => ident.id,
        CallableM::Func(fb) => fb.decl.id.id,
    }
}

/// The interner as a sequence of interned lexemes, in insertion order.
pub open spec fn names_view(ids: Vec<Vec<u8>>) -> Seq<Seq<u8>> {
    ids@.map_values(|v: Vec<u8>| v@)
}

/// The slice of the source a span names.
pub open spec fn spec_slice(src: Seq<u8>, sp: Span) -> Seq<u8> {
    src.subrange(sp.start as int, sp.end as int)
}

/// Index of the first occurrence of `name` at or after `i`.
pub open spec fn spec_lookup_from(names: Seq<Seq<u8>>, name: Seq<u8>, i: int) -> Option<int>
    decreases names.len() - i,
{
    if i < 0 || i >= names.len() {
        None
    } else if names[i] == name {
        Some(i)
    } else {
        spec_lookup_from(names, name, i + 1)
    }
}

/// Index of the first occurrence of `name` in the interner.
pub open spec fn spec_lookup(names: Seq<Seq<u8>>, name: Seq<u8>) -> Option<int> {
    spec_lookup_from(names, name, 0)
}

/// The statement holds no function-table entry, at any depth. Statements
/// the semantic pass emits always satisfy this: callables reach the output
/// only from the function table.
pub open spec fn stmt_no_callable(s: DecoratedStmt) -> bool
    decreases s,
{
    match s {
        DecoratedStmt::Callable(_) => false,
        DecoratedStmt::Conditional(c) => stmt_no_callable(*c.success),
        _ => true,
    }
}

fn copy_dexpr(e: &DecoratedExpr) -> (r: DecoratedExpr)
    ensures
        r == *e,
    decreases e,
{
    match e {
        DecoratedExpr::CallExpr(c) => DecoratedExpr::CallExpr(
            CallExpr {
                function: c.function,
                p1: Box::new(copy_dexpr(&c.p1)),
                p2: match &c.p2 {
                    Some(b) => Some(Box::new(copy_dexpr(b))),
                    None => None,
                },
            },
        ),
        DecoratedExpr::Identifier(i) => DecoratedExpr::Identifier(*i),
    }
}

fn copy_stmt(s: &DecoratedStmt) -> (r: DecoratedStmt)
    requires
        stmt_no_callable(*s),
    ensures
        r == *s,
    decreases s,
{
    match s {
        DecoratedStmt::LoadLiteralNumber(l) => DecoratedStmt::LoadLiteralNumber(*l),
        DecoratedStmt::Assignment(a) => DecoratedStmt::Assignment(
            Assignment { line: a.line, name: a.name, value: copy_dexpr(&a.value) },
        ),
        DecoratedStmt::ReturnStmt(r0) => DecoratedStmt::ReturnStmt(
            ReturnStmt { line: r0.line, expr: copy_dexpr(&r0.expr) },
        ),
        DecoratedStmt::GotoStmt(g) => DecoratedStmt::GotoStmt(
            GotoStmt { line: g.line, target: copy_dexpr(&g.target) },
        ),
        DecoratedStmt::Conditional(c) => DecoratedStmt::Conditional(
            Conditional { condition: c.condition, success: Box::new(copy_stmt(&c.success)) },
        ),
        DecoratedStmt::Callable(_) => unreached(),
    }
}

fn slice_matches(v: &Vec<u8>, src: &[u8], sp: Span) -> (r: bool)
    requires
        sp.start <= sp.end <= src@.len(),
    ensures
        r == (v@ == spec_slice(src@, sp)),
{
    let n = sp.end - sp.start;
    if v.len() != n {
        proof {
            assert(v@.len() != spec_slice(src@, sp).len());
        }
        return false;
    }
    let mut i: usize = 0;
    while i < n
        invariant
            sp.start <= sp.end <= src@.len(),
            n == sp.end - sp.start,
            v@.len() == n,
            0 <= i <= n,
            forall|k: int| 0 <= k < i ==> v@[k] == spec_slice(src@, sp)[k],
        decreases n - i,
    {
        if v[i] != src[sp.start + i] {
            proof {
                assert(v@[i as int] != spec_slice(src@, sp)[i as int]);
            }
            return false;
        }
        i = i + 1;
    }
    proof {
        assert(v@ =~= spec_slice(src@, sp));
    }
    true
}

/// Find the ID of the lexeme at `sp`, if it has been interned.
fn lookup_name(ids: &Vec<Vec<u8>>, src: &[u8], sp: Span) -> (r: Option<usize>)
    requires
        sp.start <= sp.end <= src@.len(),
    ensures
        match r {
            Some(i) => spec_lookup(names_view(*ids), spec_slice(src@, sp)) == Some(i as int) && i
                < ids@.len(),
            None => spec_lookup(names_view(*ids), spec_slice(src@, sp)) is None,
        },
{
    let n = ids.len();
    let mut i: usize = 0;
    loop
        invariant
            0 <= i <= n,
            n == ids@.len(),
            sp.start <= sp.end <= src@.len(),
            spec_lookup(names_view(*ids), spec_slice(src@, sp)) == spec_lookup_from(
                names_view(*ids),
                spec_slice(src@, sp),
                i as int,
            ),
        decreases n - i,
    {
        if i >= n {
            return None;
        }
        if slice_matches(&ids[i], src, sp) {
            return Some(i);
        }
        i = i + 1;
    }
}

/// Intern a fresh name: fatal if the target is anonymous or the name is
/// already bound. Re-declaring is an error; this is the `fresh` mode used
/// by literal targets, function declarations and extern declarations.
pub fn create_identifier(ids: &mut Vec<Vec<u8>>, src: &[u8], id: Option<Span>, line: usize) -> (r:
    Result<Identifier, SemError>)
    requires
        id matches Some(sp) ==> sp.start <= sp.end <= src@.len(),
    ensures
        match r {
            Ok(ident) => id matches Some(sp) && spec_lookup(
                names_view(*old(ids)),
                spec_slice(src@, sp),
            ) is None && ident.id == old(ids)@.len() && names_view(*final(ids)) == names_view(
                *old(ids),
            ).push(spec_slice(src@, sp)),
            Err(e) => *final(ids) == *old(ids) && match e {
                SemError::MissingName { line: l } => l == line && id is None,
                SemError::Redeclared { name } => id == Some(name) && spec_lookup(
                    names_view(*old(ids)),
                    spec_slice(src@, name),
                ) is Some,
                _ => false,
            },
        },
{
    match id {
        None => Err(SemError::MissingName { line }),
        Some(sp) => {
            match lookup_name(ids, src, sp) {
                Some(_) => Err(SemError::Redeclared { name: sp }),
                None => {
                    let ident = Identifier { id: ids.len() };
                    let name = vstd::slice::slice_to_vec(
                        vstd::slice::slice_subrange(src, sp.start, sp.end),
                    );
                    ids.push(name);
                    proof {
                        assert(names_view(*ids) =~= names_view(*old(ids)).push(
                            spec_slice(src@, sp),
                        ));
                    }
                    Ok(ident)
                },
            }
        },
    }
}

/// Intern in `shadow-or-create` mode: an existing name resolves to its
/// ID unchanged, a new one is interned fresh. This is the mode used by
/// assignment targets, so re-assigning shadows silently.
pub fn create_or_shadow_ident(ids: &mut Vec<Vec<u8>>, src: &[u8], id: Span) -> (r: Identifier)
    requires
        id.start <= id.end <= src@.len(),
    ensures
        match spec_lookup(names_view(*old(ids)), spec_slice(src@, id)) {
            Some(i) => r.id == i && *final(ids) == *old(ids),
            None => r.id == old(ids)@.len() && names_view(*final(ids)) == names_view(
                *old(ids),
            ).push(spec_slice(src@, id)),
        },
{
    match lookup_name(ids, src, id) {
        Some(i) => Identifier { id: i },
        None => {
            let ident = Identifier { id: ids.len() };
            let name = vstd::slice::slice_to_vec(
                vstd::slice::slice_subrange(src, id.start, id.end),
            );
            ids.push(name);
            proof {
                assert(names_view(*ids) =~= names_view(*old(ids)).push(spec_slice(src@, id)));
            }
            ident
        },
    }
}

/// Number of operator nodes — unary and binary together — in an operand
/// tree; parentheses and identifier leaves consume no op.
pub open spec fn count_ops(e: Expr) -> nat
    decreases e,
{
    match e {
        Expr::Binop { lhs, rhs, .. } => 1 + count_ops(*lhs) + count_ops(*rhs),
        Expr::Unop { expr, .. } => 1 + count_ops(*expr),
        Expr::Paren { expr, .. } => count_ops(*expr),
        Expr::Ident(_) => 0,
    }
}

/// Reference zip: walk the operand tree in postorder, resolving identifier
/// leaves and consuming ops from index `i` on — one per operator node.
pub open spec fn spec_zip(e: Expr, ops: Seq<Op>, i: int, names: Seq<Seq<u8>>, src: Seq<u8>) -> Option<
    (DecoratedExpr, int),
>
    decreases e,
{
    match e {
        Expr::Binop { lhs, rhs, .. } => match spec_zip(*lhs, ops, i, names, src) {
            Some((l, i1)) => match spec_zip(*rhs, ops, i1, names, src) {
                Some((r, i2)) => if 0 <= i2 < ops.len() {
                    match spec_lookup(names, spec_slice(src, ops[i2].ident)) {
                        Some(f) => Some(
                            (
                                DecoratedExpr::CallExpr(
                                    CallExpr {
                                        function: Identifier { id: f as usize },
                                        p1: Box::new(l),
                                        p2: Some(Box::new(r)),
                                    },
                                ),
                                i2 + 1,
                            ),
                        ),
                        None => None,
                    }
                } else {
                    None
                },
                None => None,
            },
            None => None,
        },
        Expr::Unop { expr, .. } => match spec_zip(*expr, ops, i, names, src) {
            Some((inner, i1)) => if 0 <= i1 < ops.len() {
                match spec_lookup(names, spec_slice(src, ops[i1].ident)) {
                    Some(f) => Some(
                        (
                            DecoratedExpr::CallExpr(
                                CallExpr {
                                    function: Identifier { id: f as usize },
                                    p1: Box::new(inner),
                                    p2: None,
                                },
                            ),
                            i1 + 1,
                        ),
                    ),
                    None => None,
                }
            } else {
                None
            },
            None => None,
        },
        Expr::Paren { expr, .. } => spec_zip(*expr, ops, i, names, src),
        Expr::Ident(sp) => match spec_lookup(names, spec_slice(src, sp)) {
            Some(id) => Some((DecoratedExpr::Identifier(Identifier { id: id as usize }), i)),
            None => None,
        },
    }
}

/// Reference zip of a whole statement: the op-chain must be exhausted.
pub open spec fn spec_zip_complete(e: Expr, ops: Seq<Op>, names: Seq<Seq<u8>>, src: Seq<u8>) -> Option<
    DecoratedExpr,
> {
    match spec_zip(e, ops, 0, names, src) {
        Some((d, j)) => if j == ops.len() {
            Some(d)
        } else {
            None
        },
        None => None,
    }
}

/// Law: a successful zip starting at op `i` ends exactly at op
/// `i + count_ops(e)` — one op is consumed per operator node.
pub proof fn lemma_zip_consumes_op_count(
    e: Expr,
    ops: Seq<Op>,
    i: int,
    names: Seq<Seq<u8>>,
    src: Seq<u8>,
)
    requires
        i <= ops.len(),
    ensures
        spec_zip(e, ops, i, names, src) matches Some((d, j)) ==> j == i + count_ops(e) && j
            <= ops.len(),
    decreases e,
{
    match e {
        Expr::Binop { lhs, rhs, .. } => {
            lemma_zip_consumes_op_count(*lhs, ops, i, names, src);
            match spec_zip(*lhs, ops, i, names, src) {
                Some((l, i1)) => {
                    lemma_zip_consumes_op_count(*rhs, ops, i1, names, src);
                    assert(i1 == i + count_ops(*lhs));
                    match spec_zip(*rhs, ops, i1, names, src) {
                        Some((r0, i2)) => {
                            assert(i2 == i1 + count_ops(*rhs));
                            assert(count_ops(e) == 1 + count_ops(*lhs) + count_ops(*rhs));
                        },
                        None => {},
                    }
                },
                None => {},
            }
        },
        Expr::Unop { expr, .. } => {
            lemma_zip_consumes_op_count(*expr, ops, i, names, src);
        },
        Expr::Paren { expr, .. } => {
            lemma_zip_consumes_op_count(*expr, ops, i, names, src);
        },
        Expr::Ident(_) => {},
    }
}

/// Law: when a zip succeeds with nothing left over, the op-chain length is
/// exactly `|binops| + |unops|` of the operand tree.
pub proof fn lemma_zip_exhausts_ops(e: Expr, ops: Seq<Op>, names: Seq<Seq<u8>>, src: Seq<u8>)
    ensures
        spec_zip_complete(e, ops, names, src) is Some ==> ops.len() == count_ops(e),
{
    lemma_zip_consumes_op_count(e, ops, 0, names, src);
}

fn zip_expr(
    expr: &Expr,
    ops: &Vec<Op>,
    i: usize,
    ids: &Vec<Vec<u8>>,
    src: &[u8],
    line: usize,
) -> (r: Result<(DecoratedExpr, usize), SemError>)
    requires
        expr_wf(*expr, src@),
        ops_wf(ops@, src@),
        i <= ops@.len(),
    ensures
        match r {
            Ok((d, j)) => spec_zip(*expr, ops@, i as int, names_view(*ids), src@) == Some(
                (d, j as int),
            ) && i <= j <= ops@.len(),
            Err(_) => spec_zip(*expr, ops@, i as int, names_view(*ids), src@) is None,
        },
    decreases expr,
{
    match expr {
        Expr::Binop { lhs, rhs, .. } => {
            let (l, i1) = match zip_expr(lhs, ops, i, ids, src, line) {
                Ok(x) => x,
                Err(e) => return Err(e),
            };
            let (r0, i2) = match zip_expr(rhs, ops, i1, ids, src, line) {
                Ok(x) => x,
                Err(e) => return Err(e),
            };
            if i2 >= ops.len() {
                return Err(SemError::OpCountMismatch { line });
            }
            let op = ops[i2];
            match lookup_name(ids, src, op.ident) {
                Some(f) => Ok(
                    (
                        DecoratedExpr::CallExpr(
                            CallExpr {
                                function: Identifier { id: f },
                                p1: Box::new(l),
                                p2: Some(Box::new(r0)),
                            },
                        ),
                        i2 + 1,
                    ),
                ),
                None => Err(SemError::Undefined { name: op.ident }),
            }
        },
        Expr::Unop { expr: inner, .. } => {
            let (v, i1) = match zip_expr(inner, ops, i, ids, src, line) {
                Ok(x) => x,
                Err(e) => return Err(e),
            };
            if i1 >= ops.len() {
                return Err(SemError::OpCountMismatch { line });
            }
            let op = ops[i1];
            match lookup_name(ids, src, op.ident) {
                Some(f) => Ok(
                    (
                        DecoratedExpr::CallExpr(
                            CallExpr {
                                function: Identifier { id: f },
                                p1: Box::new(v),
                                p2: None,
                            },
                        ),
                        i1 + 1,
                    ),
                ),
                None => Err(SemError::Undefined { name: op.ident }),
            }
        },
        Expr::Paren { expr: inner, .. } => zip_expr(inner, ops, i, ids, src, line),
        Expr::Ident(sp) => match lookup_name(ids, src, *sp) {
            Some(id) => Ok((DecoratedExpr::Identifier(Identifier { id }), i)),
            None => Err(SemError::Undefined { name: *sp }),
        },
    }
}

/// Zip an operand tree with its op-chain: resolve every identifier, apply
/// one op per operator node, and demand that the chain is exhausted.
pub fn zip_ops_with_expr(
    expr: &Expr,
    ops: &Vec<Op>,
    ids: &Vec<Vec<u8>>,
    src: &[u8],
    line: usize,
) -> (r: Result<DecoratedExpr, SemError>)
    requires
        expr_wf(*expr, src@),
        ops_wf(ops@, src@),
    ensures
        match r {
            Ok(d) => spec_zip_complete(*expr, ops@, names_view(*ids), src@) == Some(d) && ops@.len()
                == count_ops(*expr),
            Err(_) => spec_zip_complete(*expr, ops@, names_view(*ids), src@) is None,
        },
{
    proof {
        lemma_zip_consumes_op_count(*expr, ops@, 0, names_view(*ids), src@);
    }
    match zip_expr(expr, ops, 0, ids, src, line) {
        Ok((d, j)) => {
            if j != ops.len() {
                return Err(SemError::OpCountMismatch { line });
            }
            Ok(d)
        },
        Err(e) => Err(e),
    }
}

/// `create_or_shadow_ident` lifted over an optional target: an anonymous
/// target interns nothing.
pub fn create_or_shadow_ident_opt(ids: &mut Vec<Vec<u8>>, src: &[u8], id: Option<Span>) -> (r:
    Option<Identifier>)
    requires
        id matches Some(sp) ==> sp.start <= sp.end <= src@.len(),
    ensures
        match id {
            None => r is None && *final(ids) == *old(ids),
            Some(sp) => r matches Some(ident) && (match spec_lookup(
                names_view(*old(ids)),
                spec_slice(src@, sp),
            ) {
                Some(i) => ident.id == i && *final(ids) == *old(ids),
                None => ident.id == old(ids)@.len() && names_view(*final(ids)) == names_view(
                    *old(ids),
                ).push(spec_slice(src@, sp)),
            }),
        },
{
    match id {
        None => None,
        Some(sp) => Some(create_or_shadow_ident(ids, src, sp)),
    }
}

/// Index of the first function-table entry keyed by `id`, at or after `i`.
pub open spec fn spec_find_from(funcs: Seq<CallableM>, id: usize, i: int) -> Option<int>
    decreases funcs.len() - i,
{
    if i < 0 || i >= funcs.len() {
        None
    } else if callable_m_id(funcs[i]) == id {
        Some(i)
    } else {
        spec_find_from(funcs, id, i + 1)
    }
}

pub open spec fn spec_find(funcs: Seq<CallableM>, id: usize) -> Option<int> {
    spec_find_from(funcs, id, 0)
}

/// Reference decoration of an assignment behaviour. A literal or a
/// declaration demands a fresh, named target; an op-chain assignment
/// shadows or creates its target and zips; `return` and `goto` demand an
/// operand expression and an op-chain value.
pub open spec fn spec_decorate_assign(
    line: usize,
    expr: Option<Expr>,
    target: AssignTarget,
    value: AssignValueV,
    names: Seq<Seq<u8>>,
    funcs: Seq<CallableM>,
    src: Seq<u8>,
) -> Option<(Seq<Seq<u8>>, Seq<CallableM>, Option<DecoratedStmt>)> {
    match target {
        AssignTarget::Ident(_) | AssignTarget::Discard(_) => {
            let id_opt = match target {
                AssignTarget::Ident(sp) => Some(sp),
                _ => None,
            };
            match value {
                AssignValueV::Number(_, n) => match id_opt {
                    None => None,
                    Some(sp) => {
                        let name = spec_slice(src, sp);
                        match spec_lookup(names, name) {
                            Some(_) => None,
                            None => Some(
                                (
                                    names.push(name),
                                    funcs,
                                    Some(
                                        DecoratedStmt::LoadLiteralNumber(
                                            LoadLiteralNumber {
                                                line,
                                                ident: Identifier { id: names.len() as usize },
                                                value: n,
                                            },
                                        ),
                                    ),
                                ),
                            ),
                        }
                    },
                },
                AssignValueV::NotHere(_) => match id_opt {
                    None => None,
                    Some(sp) => {
                        let name = spec_slice(src, sp);
                        match spec_lookup(names, name) {
                            Some(_) => None,
                            None => Some(
                                (
                                    names.push(name),
                                    funcs.push(
                                        CallableM::Extern {
                                            line,
                                            name,
                                            ident: Identifier { id: names.len() as usize },
                                        },
                                    ),
                                    None,
                                ),
                            ),
                        }
                    },
                },
                AssignValueV::Ops(ops) => {
                    let (names2, target_id) = match id_opt {
                        Some(sp) => {
                            let name = spec_slice(src, sp);
                            match spec_lookup(names, name) {
                                Some(i) => (names, Some(Identifier { id: i as usize })),
                                None => (
                                    names.push(name),
                                    Some(Identifier { id: names.len() as usize }),
                                ),
                            }
                        },
                        None => (names, None),
                    };
                    match expr {
                        None => None,
                        Some(e) => match spec_zip_complete(e, ops, names2, src) {
                            Some(d) => Some(
                                (
                                    names2,
                                    funcs,
                                    Some(
                                        DecoratedStmt::Assignment(
                                            Assignment { line, name: target_id, value: d },
                                        ),
                                    ),
                                ),
                            ),
                            None => None,
                        },
                    }
                },
                AssignValueV::Fn(f) => match id_opt {
                    None => None,
                    Some(sp) => {
                        let name = spec_slice(src, sp);
                        match spec_lookup(names, name) {
                            Some(_) => None,
                            None => {
                                let fident = Identifier { id: names.len() as usize };
                                let names1 = names.push(name);
                                let p1name = spec_slice(src, f.params.p1);
                                let (names2, p1) = match spec_lookup(names1, p1name) {
                                    Some(i) => (names1, Identifier { id: i as usize }),
                                    None => (
                                        names1.push(p1name),
                                        Identifier { id: names1.len() as usize },
                                    ),
                                };
                                let (names3, p2) = match f.params.p2 {
                                    Some(sp2) => {
                                        let p2name = spec_slice(src, sp2);
                                        match spec_lookup(names2, p2name) {
                                            Some(i) => (
                                                names2,
                                                Some(Identifier { id: i as usize }),
                                            ),
                                            None => (
                                                names2.push(p2name),
                                                Some(Identifier { id: names2.len() as usize }),
                                            ),
                                        }
                                    },
                                    None => (names2, None),
                                };
                                let decl = FuncDecl { line, id: fident, p1, p2 };
                                match expr {
                                    None => Some(
                                        (
                                            names3,
                                            funcs.push(
                                                CallableM::Func(
                                                    FuncBlockM { decl, block: Seq::empty() },
                                                ),
                                            ),
                                            None,
                                        ),
                                    ),
                                    Some(e) => match spec_zip_complete(e, f.ops, names3, src) {
                                        Some(d) => Some(
                                            (
                                                names3,
                                                funcs.push(
                                                    CallableM::Func(
                                                        FuncBlockM {
                                                            decl,
                                                            block: seq![
                                                                DecoratedStmt::Assignment(
                                                                    Assignment {
                                                                        line,
                                                                        name: None,
                                                                        value: d,
                                                                    },
                                                                ),
                                                            ],
                                                        },
                                                    ),
                                                ),
                                                None,
                                            ),
                                        ),
                                        None => None,
                                    },
                                }
                            },
                        }
                    },
                },
            }
        },
        AssignTarget::Goto(_) => match expr {
            None => None,
            Some(e) => match value {
                AssignValueV::Ops(ops) => match spec_zip_complete(e, ops, names, src) {
                    Some(d) => Some(
                        (
                            names,
                            funcs,
                            Some(DecoratedStmt::GotoStmt(GotoStmt { line, target: d })),
                        ),
                    ),
                    None => None,
                },
                _ => None,
            },
        },
        AssignTarget::Return(_) => match expr {
            None => None,
            Some(e) => match value {
                AssignValueV::Ops(ops) => match spec_zip_complete(e, ops, names, src) {
                    Some(d) => Some(
                        (
                            names,
                            funcs,
                            Some(DecoratedStmt::ReturnStmt(ReturnStmt { line, expr: d })),
                        ),
                    ),
                    None => None,
                },
                _ => None,
            },
        },
    }
}

/// Reference decoration of one behaviour against the interner and function
/// table: the new interner, the new table, and the emitted statement, if
/// any. `still in` attaches the inner statement to the named function's
/// body and passes it through; `if` wraps it in a `Conditional`.
pub open spec fn spec_decorate(
    line: usize,
    expr: Option<Expr>,
    b: BehaviourV,
    names: Seq<Seq<u8>>,
    funcs: Seq<CallableM>,
    src: Seq<u8>,
) -> Option<(Seq<Seq<u8>>, Seq<CallableM>, Option<DecoratedStmt>)>
    decreases b,
{
    match b {
        BehaviourV::Assign { target, value, .. } => spec_decorate_assign(
            line,
            expr,
            target,
            value,
            names,
            funcs,
            src,
        ),
        BehaviourV::StillIn { ident, behaviour, .. } => match spec_lookup(
            names,
            spec_slice(src, ident),
        ) {
            None => None,
            Some(fid) => match spec_decorate(line, expr, *behaviour, names, funcs, src) {
                Some((names2, funcs2, Some(ret))) => match spec_find(funcs2, fid as usize) {
                    Some(idx) => match funcs2[idx] {
                        CallableM::Func(fb) => Some(
                            (
                                names2,
                                funcs2.update(
                                    idx,
                                    CallableM::Func(
                                        FuncBlockM { decl: fb.decl, block: fb.block.push(ret) },
                                    ),
                                ),
                                Some(ret),
                            ),
                        ),
                        CallableM::Extern { .. } => None,
                    },
                    None => None,
                },
                Some((_, _, None)) => None,
                None => None,
            },
        },
        BehaviourV::Cond { cond, behaviour, .. } => match spec_lookup(
            names,
            spec_slice(src, cond),
        ) {
            None => None,
            Some(cid) => match spec_decorate(line, expr, *behaviour, names, funcs, src) {
                Some((names2, funcs2, Some(inner))) => Some(
                    (
                        names2,
                        funcs2,
                        Some(
                            DecoratedStmt::Conditional(
                                Conditional {
                                    condition: Identifier { id: cid as usize },
                                    success: Box::new(inner),
                                },
                            ),
                        ),
                    ),
                ),
                Some((names2, funcs2, None)) => Some((names2, funcs2, None)),
                None => None,
            },
        },
    }
}

fn callable_id(c: &Callable) -> (r: usize)
    ensures
        r == callable_m_id(callable_view(*c)),
{
    match c {
        Callable::ExternFunction(e) => e.ident.id,
        Callable::FuncBlock(fb) => fb.decl.id.id,
    }
}

fn find_callable(funcs: &Vec<Callable>, id: usize) -> (r: Option<usize>)
    ensures
        match r {
            Some(i) => spec_find(funcs_view(funcs@), id) == Some(i as int) && i < funcs@.len(),
            None => spec_find(funcs_view(funcs@), id) is None,
        },
{
    let n = funcs.len();
    let mut i: usize = 0;
    loop
        invariant
            0 <= i <= n,
            n == funcs@.len(),
            spec_find(funcs_view(funcs@), id) == spec_find_from(funcs_view(funcs@), id, i as int),
        decreases n - i,
    {
        if i >= n {
            return None;
        }
        if callable_id(&funcs[i]) == id {
            return Some(i);
        }
        i = i + 1;
    }
}

/// Decorate one behaviour, mutating the interner and the function table,
/// exactly as the reference `spec_decorate` says.
fn parse_behaviour(
    line: usize,
    behaviour: Behaviour,
    expr: Option<Expr>,
    ids: &mut Vec<Vec<u8>>,
    func_ids: &mut Vec<Callable>,
    src: &[u8],
) -> (r: Result<Option<DecoratedStmt>, SemError>)
    requires
        behaviour_v_wf(behaviour@, src@),
        expr matches Some(e) ==> expr_wf(e, src@),
    ensures
        match r {
            Ok(opt) => spec_decorate(
                line,
                expr,
                behaviour@,
                names_view(*old(ids)),
                funcs_view(old(func_ids)@),
                src@,
            ) == Some((names_view(*final(ids)), funcs_view(final(func_ids)@), opt)) && (
            opt matches Some(s) ==> stmt_no_callable(s)),
            Err(_) => spec_decorate(
                line,
                expr,
                behaviour@,
                names_view(*old(ids)),
                funcs_view(old(func_ids)@),
                src@,
            ) is None,
        },
    decreases behaviour,
{
    proof {
        lemma_src_len_fits(src);
    }
    match behaviour {
        Behaviour::Assign { target, value, is: _ } => {
            let id_opt: Option<Span> = match &target {
                AssignTarget::Ident(sp) => Some(*sp),
                _ => None,
            };
            match target {
                AssignTarget::Ident(_) | AssignTarget::Discard(_) => {
                    match value {
                        AssignValue::Number(_, n) => {
                            match create_identifier(ids, src, id_opt, line) {
                                Ok(ident) => Ok(
                                    Some(
                                        DecoratedStmt::LoadLiteralNumber(
                                            LoadLiteralNumber { line, ident, value: n },
                                        ),
                                    ),
                                ),
                                Err(e) => Err(e),
                            }
                        },
                        AssignValue::NotHere(_) => {
                            match id_opt {
                                None => Err(SemError::MissingName { line }),
                                Some(sp) => {
                                    match create_identifier(ids, src, Some(sp), line) {
                                        Ok(ident) => {
                                            let name = vstd::slice::slice_to_vec(
                                                vstd::slice::slice_subrange(
                                                    src,
                                                    sp.start,
                                                    sp.end,
                                                ),
                                            );
                                            func_ids.push(
                                                Callable::ExternFunction(
                                                    ExternFunction { line, name, ident },
                                                ),
                                            );
                                            proof {
                                                assert(funcs_view(func_ids@) =~= funcs_view(
                                                    old(func_ids)@,
                                                ).push(
                                                    CallableM::Extern {
                                                        line,
                                                        name: spec_slice(src@, sp),
                                                        ident,
                                                    },
                                                ));
                                            }
                                            Ok(None)
                                        },
                                        Err(e) => Err(e),
                                    }
                                },
                            }
                        },
                        AssignValue::Ops(ops) => {
                            let ident = create_or_shadow_ident_opt(ids, src, id_opt);
                            match expr {
                                None => Err(SemError::MissingExpr { line }),
                                Some(e) => {
                                    match zip_ops_with_expr(&e, &ops, ids, src, line) {
                                        Ok(d) => Ok(
                                            Some(
                                                DecoratedStmt::Assignment(
                                                    Assignment { line, name: ident, value: d },
                                                ),
                                            ),
                                        ),
                                        Err(er) => Err(er),
                                    }
                                },
                            }
                        },
                        AssignValue::Fn(f) => {
                            match id_opt {
                                None => Err(SemError::MissingName { line }),
                                Some(sp) => {
                                    match create_identifier(ids, src, Some(sp), line) {
                                        Ok(fident) => {
                                            let p1 = create_or_shadow_ident(
                                                ids,
                                                src,
                                                f.params.p1,
                                            );
                                            let p2 = create_or_shadow_ident_opt(
                                                ids,
                                                src,
                                                f.params.p2,
                                            );
                                            let decl = FuncDecl { line, id: fident, p1, p2 };
                                            let mut block: Vec<DecoratedStmt> = Vec::new();
                                            match expr {
                                                None => {},
                                                Some(e) => {
                                                    match zip_ops_with_expr(
                                                        &e,
                                                        &f.ops,
                                                        ids,
                                                        src,
                                                        line,
                                                    ) {
                                                        Ok(d) => {
                                                            block.push(
                                                                DecoratedStmt::Assignment(
                                                                    Assignment {
                                                                        line,
                                                                        name: None,
                                                                        value: d,
                                                                    },
                                                                ),
                                                            );
                                                        },
                                                        Err(er) => {
                                                            return Err(er);
                                                        },
                                                    }
                                                },
                                            }
                                            func_ids.push(
                                                Callable::FuncBlock(FuncBlock { decl, block }),
                                            );
                                            proof {
                                                assert(funcs_view(func_ids@) =~= funcs_view(
                                                    old(func_ids)@,
                                                ).push(callable_view(func_ids@.last())));
                                            }
                                            Ok(None)
                                        },
                                        Err(e) => Err(e),
                                    }
                                },
                            }
                        },
                    }
                },
                AssignTarget::Goto(_) => {
                    match expr {
                        None => Err(SemError::MissingExpr { line }),
                        Some(e) => {
                            match value {
                                AssignValue::Ops(ops) => {
                                    match zip_ops_with_expr(&e, &ops, ids, src, line) {
                                        Ok(d) => Ok(
                                            Some(
                                                DecoratedStmt::GotoStmt(
                                                    GotoStmt { line, target: d },
                                                ),
                                            ),
                                        ),
                                        Err(er) => Err(er),
                                    }
                                },
                                _ => Err(SemError::BadAssignValue { line }),
                            }
                        },
                    }
                },
                AssignTarget::Return(_) => {
                    match expr {
                        None => Err(SemError::MissingExpr { line }),
                        Some(e) => {
                            match value {
                                AssignValue::Ops(ops) => {
                                    match zip_ops_with_expr(&e, &ops, ids, src, line) {
                                        Ok(d) => Ok(
                                            Some(
                                                DecoratedStmt::ReturnStmt(
                                                    ReturnStmt { line, expr: d },
                                                ),
                                            ),
                                        ),
                                        Err(er) => Err(er),
                                    }
                                },
                                _ => Err(SemError::BadAssignValue { line }),
                            }
                        },
                    }
                },
            }
        },
        Behaviour::StillIn { ident, behaviour: inner, still_in: _ } => {
            match lookup_name(ids, src, ident) {
                None => Err(SemError::Undefined { name: ident }),
                Some(fid) => {
                    match parse_behaviour(line, *inner, expr, ids, func_ids, src) {
                        Ok(Some(ret)) => {
                            match find_callable(func_ids, fid) {
                                None => Err(SemError::NotAFunction { name: ident }),
                                Some(idx) => {
                                    let ghost funcs2 = funcs_view(func_ids@);
                                    let c = func_ids.remove(idx);
                                    match c {
                                        Callable::FuncBlock(fb) => {
                                            let mut fb = fb;
                                            let copy = copy_stmt(&ret);
                                            fb.block.push(copy);
                                            func_ids.insert(idx, Callable::FuncBlock(fb));
                                            proof {
                                                assert(funcs_view(func_ids@) =~= funcs2.update(
                                                    idx as int,
                                                    callable_view(func_ids@[idx as int]),
                                                ));
                                            }
                                            Ok(Some(ret))
                                        },
                                        Callable::ExternFunction(e0) => {
                                            func_ids.insert(
                                                idx,
                                                Callable::ExternFunction(e0),
                                            );
                                            Err(SemError::ExternHasBody { name: ident })
                                        },
                                    }
                                },
                            }
                        },
                        Ok(None) => Err(SemError::NothingToAttach { line }),
                        Err(e) => Err(e),
                    }
                },
            }
        },
        Behaviour::Cond { cond, behaviour: inner, if_: _ } => {
            match lookup_name(ids, src, cond) {
                None => Err(SemError::Undefined { name: cond }),
                Some(cid) => {
                    match parse_behaviour(line, *inner, expr, ids, func_ids, src) {
                        Ok(Some(body)) => Ok(
                            Some(
                                DecoratedStmt::Conditional(
                                    Conditional {
                                        condition: Identifier { id: cid },
                                        success: Box::new(body),
                                    },
                                ),
                            ),
                        ),
                        Ok(None) => Ok(None),
                        Err(e) => Err(e),
                    }
                },
            }
        },
    }
}

/// Reference decoration of the whole statement stream from `pos`: the
/// final interner, the final function table, and the emitted top-level
/// statements in source order.
#[verifier::opaque]
pub open spec fn spec_parse_program(
    src: Seq<u8>,
    pos: int,
    line: int,
    names: Seq<Seq<u8>>,
    funcs: Seq<CallableM>,
) -> Option<(Seq<Seq<u8>>, Seq<CallableM>, Seq<DecoratedStmt>)>
    decreases src.len() - pos,
{
    match crate::ast1::spec_parse_stmt(src, pos, line) {
        None => None,
        Some(None) => Some((names, funcs, Seq::empty())),
        Some(Some((sv, p, l))) => if pos < p <= src.len() {
            match spec_decorate(sv.line as usize, sv.expr, sv.behaviour, names, funcs, src) {
                None => None,
                Some((names2, funcs2, opt)) => match spec_parse_program(src, p, l, names2, funcs2) {
                    None => None,
                    Some((n3, f3, rest)) => Some(
                        (
                            n3,
                            f3,
                            (match opt {
                                Some(d) => seq![d],
                                None => Seq::empty(),
                            }) + rest,
                        ),
                    ),
                },
            }
        } else {
            None
        },
    }
}

/// `p` with `done` prepended to its statement list.
pub open spec fn prog_join(
    p: Option<(Seq<Seq<u8>>, Seq<CallableM>, Seq<DecoratedStmt>)>,
    done: Seq<DecoratedStmt>,
) -> Option<(Seq<Seq<u8>>, Seq<CallableM>, Seq<DecoratedStmt>)> {
    match p {
        Some((n, f, rest)) => Some((n, f, done + rest)),
        None => None,
    }
}

/// The output is the top-level statements followed by the function table's
/// entries, each as a `Callable`, in insertion order.
pub open spec fn output_matches(
    out: Seq<DecoratedStmt>,
    top: Seq<DecoratedStmt>,
    funcs: Seq<CallableM>,
) -> bool {
    &&& out.len() == top.len() + funcs.len()
    &&& out.subrange(0, top.len() as int) == top
    &&& forall|k: int|
        0 <= k < funcs.len() ==> ((#[trigger] out[top.len() + k]) matches DecoratedStmt::Callable(c)
            && callable_view(c) == funcs[k])
}

/// Append every function-table entry to `outp`, each as a `Callable`, in
/// insertion order.
fn append_callables(outp: &mut Vec<DecoratedStmt>, funcs: Vec<Callable>)
    ensures
        output_matches(final(outp)@, old(outp)@, funcs_view(funcs@)),
{
    let ghost top = outp@;
    let ghost fv = funcs_view(funcs@);
    let mut rest = funcs;
    while rest.len() > 0
        invariant
            top.len() <= outp@.len(),
            outp@.len() - top.len() + rest@.len() == fv.len(),
            outp@.subrange(0, top.len() as int) =~= top,
            forall|k: int|
                0 <= k < outp@.len() - top.len() ==> ((
                #[trigger] outp@[top.len() + k]) matches DecoratedStmt::Callable(c)
                    && callable_view(c) == fv[k]),
            funcs_view(rest@) =~= fv.subrange(outp@.len() - top.len() as int, fv.len() as int),
        decreases rest@.len(),
    {
        let ghost pre_rest = rest@;
        let ghost pre_o = outp@;
        let c = rest.remove(0);
        proof {
            assert(callable_view(c) == funcs_view(pre_rest)[0]);
            assert(funcs_view(rest@) =~= funcs_view(pre_rest).drop_first());
        }
        outp.push(DecoratedStmt::Callable(c));
        proof {
            assert(outp@.subrange(0, top.len() as int) =~= pre_o.subrange(0, top.len() as int));
            assert(funcs_view(rest@) =~= fv.subrange(outp@.len() - top.len() as int, fv.len() as int));
        }
    }
    proof {
        assert(output_matches(outp@, top, fv));
    }
}

/// A clean end of input ends the program decoration with what was built.
proof fn lemma_program_eof(
    src: Seq<u8>,
    pos: int,
    line: int,
    names: Seq<Seq<u8>>,
    funcs: Seq<CallableM>,
)
    requires
        crate::ast1::spec_parse_stmt(src, pos, line) == Some(None::<(crate::ast1::StmtV, int, int)>),
    ensures
        spec_parse_program(src, pos, line, names, funcs) == Some(
            (names, funcs, Seq::<DecoratedStmt>::empty()),
        ),
{
    reveal(spec_parse_program);
}

/// A failing statement parse fails the whole program decoration.
proof fn lemma_program_syntax_fails(
    src: Seq<u8>,
    pos: int,
    line: int,
    names: Seq<Seq<u8>>,
    funcs: Seq<CallableM>,
)
    requires
        crate::ast1::spec_parse_stmt(src, pos, line) is None,
    ensures
        spec_parse_program(src, pos, line, names, funcs) is None,
{
    reveal(spec_parse_program);
}

/// Joining nothing changes nothing.
proof fn lemma_prog_join_empty(p: Option<(Seq<Seq<u8>>, Seq<CallableM>, Seq<DecoratedStmt>)>)
    ensures
        prog_join(p, Seq::empty()) == p,
{
    match p {
        Some((n, f, rest)) => {
            assert(Seq::<DecoratedStmt>::empty() + rest =~= rest);
        },
        None => {},
    }
}

/// Unfolding one successful statement step of the program decoration.
proof fn lemma_program_step(
    src: Seq<u8>,
    pos: int,
    line: int,
    names: Seq<Seq<u8>>,
    funcs: Seq<CallableM>,
    sv: crate::ast1::StmtV,
    p: int,
    l: int,
    names2: Seq<Seq<u8>>,
    funcs2: Seq<CallableM>,
    opt: Option<DecoratedStmt>,
)
    requires
        crate::ast1::spec_parse_stmt(src, pos, line) == Some(Some((sv, p, l))),
        pos < p <= src.len(),
        spec_decorate(sv.line as usize, sv.expr, sv.behaviour, names, funcs, src) == Some(
            (names2, funcs2, opt),
        ),
    ensures
        spec_parse_program(src, pos, line, names, funcs) == prog_join(
            spec_parse_program(src, p, l, names2, funcs2),
            match opt {
                Some(d) => seq![d],
                None => Seq::empty(),
            },
        ),
{
    reveal(spec_parse_program);
}

/// A failing statement step fails the whole program decoration.
proof fn lemma_program_step_fails(
    src: Seq<u8>,
    pos: int,
    line: int,
    names: Seq<Seq<u8>>,
    funcs: Seq<CallableM>,
    sv: crate::ast1::StmtV,
    p: int,
    l: int,
)
    requires
        crate::ast1::spec_parse_stmt(src, pos, line) == Some(Some((sv, p, l))),
        pos < p <= src.len(),
        spec_decorate(sv.line as usize, sv.expr, sv.behaviour, names, funcs, src) is None,
    ensures
        spec_parse_program(src, pos, line, names, funcs) is None,
{
    reveal(spec_parse_program);
}

/// Joining twice is joining the concatenation.
proof fn lemma_prog_join_assoc(
    p: Option<(Seq<Seq<u8>>, Seq<CallableM>, Seq<DecoratedStmt>)>,
    a: Seq<DecoratedStmt>,
    b: Seq<DecoratedStmt>,
)
    ensures
        prog_join(prog_join(p, b), a) == prog_join(p, a + b),
{
    match p {
        Some((n, f, rest)) => {
            assert(a + (b + rest) =~= (a + b) + rest);
        },
        None => {},
    }
}

/// Fold the statement stream into the decorated output: top-level
/// statements in source order, then every function-table entry as a
/// `Callable`, exactly as the reference `spec_parse_program` says.
#[verifier::rlimit(60)]
pub fn parse<'a>(stmts: Parser1<'a>, src: &[u8]) -> (r: Result<Vec<DecoratedStmt>, SemError>)
    requires
        stmts.wf(),
        stmts.tokens.src@ == src@,
    ensures
        match r {
            Ok(out) => spec_parse_program(
                src@,
                stmts.tokens.pos as int,
                stmts.line as int,
                Seq::empty(),
                Seq::empty(),
            ) matches Some((n, f, top)) && output_matches(out@, top, f),
            Err(_) => spec_parse_program(
                src@,
                stmts.tokens.pos as int,
                stmts.line as int,
                Seq::empty(),
                Seq::empty(),
            ) is None,
        },
{
    let ghost pos0 = stmts.tokens.pos as int;
    let ghost line0 = stmts.line as int;
    let mut parser = Parser1 {
        tokens: crate::lexer::Lexer { src: stmts.tokens.src, pos: stmts.tokens.pos },
        line: stmts.line,
    };
    let mut ids: Vec<Vec<u8>> = Vec::new();
    let mut func_ids: Vec<Callable> = Vec::new();
    let mut outp: Vec<DecoratedStmt> = Vec::new();
    proof {
        lemma_src_len_fits(src);
        assert(names_view(ids) =~= Seq::<Seq<u8>>::empty());
        assert(funcs_view(func_ids@) =~= Seq::<CallableM>::empty());
        lemma_prog_join_empty(spec_parse_program(src@, pos0, line0, Seq::empty(), Seq::empty()));
    }
    loop
        invariant
            parser.wf(),
            parser.tokens.src@ == src@,
            pos0 == stmts.tokens.pos as int,
            line0 == stmts.line as int,
            spec_parse_program(src@, pos0, line0, Seq::empty(), Seq::empty()) == prog_join(
                spec_parse_program(
                    src@,
                    parser.tokens.pos as int,
                    parser.line as int,
                    names_view(ids),
                    funcs_view(func_ids@),
                ),
                outp@,
            ),
        decreases src@.len() - parser.tokens.pos,
    {
        proof {
            lemma_src_len_fits(src);
        }
        let ghost pre_pos = parser.tokens.pos as int;
        let ghost pre_line = parser.line as int;
        let ghost pre_names = names_view(ids);
        let ghost pre_funcs = funcs_view(func_ids@);
        let ghost pre_out = outp@;
        let stmt_opt = match parser.next() {
            Ok(x) => x,
            Err(e) => {
                proof {
                    lemma_program_syntax_fails(src@, pre_pos, pre_line, pre_names, pre_funcs);
                }
                return Err(SemError::Syntax(e));
            },
        };
        match stmt_opt {
            None => {
                // The stream ended cleanly: append the function table.
                proof {
                    lemma_program_eof(src@, pre_pos, pre_line, pre_names, pre_funcs);
                    assert(pre_out + Seq::<DecoratedStmt>::empty() =~= pre_out);
                    assert(spec_parse_program(src@, pos0, line0, Seq::empty(), Seq::empty())
                        == Some((names_view(ids), funcs_view(func_ids@), pre_out)));
                }
                let ghost fv0 = funcs_view(func_ids@);
                append_callables(&mut outp, func_ids);
                proof {
                    assert(output_matches(outp@, pre_out, fv0));
                    assert(spec_parse_program(src@, pos0, line0, Seq::empty(), Seq::empty())
                        == Some((pre_names, fv0, pre_out)));
                }
                return Ok(outp);
            },
            Some(stmt) => {
                proof {
                    crate::ast1::lemma_parse_stmt_wf(src@, pre_pos, pre_line);
                }
                let ghost sv = stmt@;
                let ghost p = parser.tokens.pos as int;
                let ghost l = parser.line as int;
                let Stmt { line, expr, behaviour, sep: _ } = stmt;
                let ghost opt_done: Seq<DecoratedStmt>;
                match parse_behaviour(line, behaviour, expr, &mut ids, &mut func_ids, src) {
                    Ok(opt) => {
                        proof {
                            lemma_program_step(
                                src@,
                                pre_pos,
                                pre_line,
                                pre_names,
                                pre_funcs,
                                sv,
                                p,
                                l,
                                names_view(ids),
                                funcs_view(func_ids@),
                                opt,
                            );
                            opt_done = match &opt {
                                Some(d) => seq![*d],
                                None => Seq::empty(),
                            };
                            lemma_prog_join_assoc(
                                spec_parse_program(src@, p, l, names_view(ids), funcs_view(func_ids@)),
                                pre_out,
                                opt_done,
                            );
                        }
                        match opt {
                            Some(d) => {
                                outp.push(d);
                            },
                            None => {},
                        }
                        proof {
                            assert(outp@ =~= pre_out + opt_done);
                        }
                    },
                    Err(e) => {
                        proof {
                            lemma_program_step_fails(
                                src@,
                                pre_pos,
                                pre_line,
                                pre_names,
                                pre_funcs,
                                sv,
                                p,
                                l,
                            );
                        }
                        return Err(e);
                    },
                }
            },
        }
    }
}

} // verus!
