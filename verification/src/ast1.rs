//! Recursive-descent parser producing the concrete syntax tree.
//!
//! A statement is `<operand-expr> // <behaviour>` or `// <behaviour>` on a
//! line of its own. The operand expression is a right-leaning tree over the
//! single operator `.`, which is unary exactly when another `.`, a closing
//! parenthesis or the behaviour separator follows it. A behaviour is a
//! chain of `still in <name>` and `if <flag>` wrappers around an assignment
//! `<target> is <value>`.
//!
//! Each parsing function is proved to return exactly what its reference
//! spec function (`spec_parse_*`) says on the same input.
use vstd::prelude::*;

use crate::lexer::{lemma_next_bounds, lemma_src_len_fits, spec_next, Lexer, ParseError, Span, Token};

verus! {

/// A concrete statement: its 1-based source line, the optional operand
/// expression, the span of the `//` separator and the behaviour after it.
#[derive(Debug)]
pub struct Stmt {
    pub line: usize,
    pub expr: Option<Expr>,
    pub sep: Span,
    pub behaviour: Behaviour,
}

/// The operand tree. `.` between two operands is `Binop`; `.` after an
/// operand is `Unop`; parentheses group.
#[derive(Debug)]
pub enum Expr {
    Binop { lhs: Box<Expr>, op: Span, rhs: Box<Expr> },
    Unop { expr: Box<Expr>, op: Span },
    Paren { l: Span, expr: Box<Expr>, r: Span },
    Ident(Span),
}

/// The part of a statement after `//`.
#[derive(Debug)]
pub enum Behaviour {
    StillIn { still_in: Span, ident: Span, behaviour: Box<Behaviour> },
    Cond { if_: Span, cond: Span, behaviour: Box<Behaviour> },
    Assign { target: AssignTarget, is: Span, value: AssignValue },
}

/// What stands left of `is`.
#[derive(Debug)]
pub enum AssignTarget {
    Discard(Span),
    Return(Span),
    Goto(Span),
    Ident(Span),
}

/// What stands right of `is`.
#[derive(Debug)]
pub enum AssignValue {
    Ops(Vec<Op>),
    Fn(Fn),
    Number(Span, usize),
    NotHere(Span),
}

/// One element of an op-chain: a function name, and the span of the `then`
/// that follows it unless it is the last op of its chain.
#[derive(Clone, Copy, Debug)]
pub struct Op {
    pub ident: Span,
    pub then: Option<Span>,
}

/// A function literal `with p1 [and p2] <op-chain>`.
#[derive(Debug)]
pub struct Fn {
    pub with: Span,
    pub params: FnParams,
    pub ops: Vec<Op>,
}

/// The parameter list of a function literal.
#[derive(Debug)]
pub struct FnParams {
    pub p1: Span,
    pub and: Option<Span>,
    pub p2: Option<Span>,
}

// Ghost mirrors of the tree types that hold a `Vec`, with `Seq` in its
// place; contracts speak of these through `View`.
pub struct FnV {
    pub with: Span,
    pub params: FnParams,
    pub ops: Seq<Op>,
}

pub enum AssignValueV {
    Ops(Seq<Op>),
    Fn(FnV),
    Number(Span, usize),
    NotHere(Span),
}

pub enum BehaviourV {
    StillIn { still_in: Span, ident: Span, behaviour: Box<BehaviourV> },
    Cond { if_: Span, cond: Span, behaviour: Box<BehaviourV> },
    Assign { target: AssignTarget, is: Span, value: AssignValueV },
}

pub struct StmtV {
    pub line: int,
    pub expr: Option<Expr>,
    pub sep: Span,
    pub behaviour: BehaviourV,
}

impl View for Fn {
    type V = FnV;

    open spec fn view(&self) -> FnV {
        FnV { with: self.with, params: self.params, ops: self.ops@ }
    }
}

impl View for AssignValue {
    type V = AssignValueV;

    open spec fn view(&self) -> AssignValueV {
        match self {
            AssignValue::Ops(ops) => AssignValueV::Ops(ops@),
            AssignValue::Fn(f) => AssignValueV::Fn(f@),
            AssignValue::Number(sp, n) => AssignValueV::Number(*sp, *n),
            AssignValue::NotHere(sp) => AssignValueV::NotHere(*sp),
        }
    }
}

pub open spec fn behaviour_view(b: Behaviour) -> BehaviourV
    decreases b,
{
    match b {
        Behaviour::StillIn { still_in, ident, behaviour } => BehaviourV::StillIn {
            still_in,
            ident,
            behaviour: Box::new(behaviour_view(*behaviour)),
        },
        Behaviour::Cond { if_, cond, behaviour } => BehaviourV::Cond {
            if_,
            cond,
            behaviour: Box::new(behaviour_view(*behaviour)),
        },
        Behaviour::Assign { target, is, value } => BehaviourV::Assign { target, is, value: value@ },
    }
}

impl View for Behaviour {
    type V = BehaviourV;

    open spec fn view(&self) -> BehaviourV {
        behaviour_view(*self)
    }
}

impl View for Stmt {
    type V = StmtV;

    open spec fn view(&self) -> StmtV {
        StmtV {
            line: self.line as int,
            expr: self.expr,
            sep: self.sep,
            behaviour: self.behaviour@,
        }
    }
}

/// The span `[s, e)` as an executable value.
pub open spec fn span_of(s: int, e: int) -> Span {
    Span { start: s as usize, end: e as usize }
}

/// Reference parse of an operand expression starting at `pos`: the tree
/// and the position after it, or `None` where the grammar fails.
pub open spec fn spec_parse_expr(src: Seq<u8>, pos: int) -> Option<(Expr, int)>
    decreases src.len() - pos, 1int,
{
    match spec_next(src, pos) {
        Some((Token::Identifier, s, e)) => if pos < e <= src.len() {
            spec_parse_expr_inner(Expr::Ident(span_of(s, e)), src, e)
        } else {
            None
        },
        Some((Token::ParenLeft, s, e)) => if pos < e <= src.len() {
            match spec_parse_expr(src, e) {
                Some((inner, pos2)) => match spec_next(src, pos2) {
                    Some((Token::ParenRight, s2, e2)) => if pos < e2 <= src.len() {
                        spec_parse_expr_inner(
                            Expr::Paren {
                                l: span_of(s, e),
                                expr: Box::new(inner),
                                r: span_of(s2, e2),
                            },
                            src,
                            e2,
                        )
                    } else {
                        None
                    },
                    _ => None,
                },
                None => None,
            }
        } else {
            None
        },
        _ => None,
    }
}

/// Reference parse of the operator-continuation loop with accumulator
/// `acc`: a `.` whose follower is another `.` makes a unary wrap and goes
/// on; one whose follower closes the expression makes a unary wrap and
/// stops; any other follower makes `acc` the left side of a binary node.
pub open spec fn spec_parse_expr_inner(acc: Expr, src: Seq<u8>, pos: int) -> Option<(Expr, int)>
    decreases src.len() - pos, 0int,
{
    match spec_next(src, pos) {
        Some((Token::Operator, s, e)) => if pos < e <= src.len() {
            match spec_next(src, e) {
                Some((Token::Operator, _, _)) => spec_parse_expr_inner(
                    Expr::Unop { expr: Box::new(acc), op: span_of(s, e) },
                    src,
                    e,
                ),
                Some((Token::ParenRight, _, _)) | Some((Token::BehaviourStart, _, _)) => Some(
                    (Expr::Unop { expr: Box::new(acc), op: span_of(s, e) }, e),
                ),
                Some(_) => match spec_parse_expr(src, e) {
                    Some((rhs, p)) => Some(
                        (
                            Expr::Binop {
                                lhs: Box::new(acc),
                                op: span_of(s, e),
                                rhs: Box::new(rhs),
                            },
                            p,
                        ),
                    ),
                    None => None,
                },
                None => None,
            }
        } else {
            None
        },
        Some(_) => Some((acc, pos)),
        None => None,
    }
}

/// Reference parse of an op-chain: identifiers joined by `then`, ended by
/// a newline (left in the stream) or the end of input.
pub open spec fn spec_parse_ops(src: Seq<u8>, pos: int) -> Option<(Seq<Op>, int)>
    decreases src.len() - pos,
{
    match spec_next(src, pos) {
        None => Some((Seq::empty(), pos)),
        Some((Token::Newline, _, _)) => Some((Seq::empty(), pos)),
        Some((Token::Identifier, s, e)) => if pos < e <= src.len() {
            match spec_next(src, e) {
                Some((Token::Then, s2, e2)) => if pos < e2 <= src.len() {
                    match spec_parse_ops(src, e2) {
                        Some((rest, p)) => Some(
                            (
                                seq![Op { ident: span_of(s, e), then: Some(span_of(s2, e2)) }]
                                    + rest,
                                p,
                            ),
                        ),
                        None => None,
                    }
                } else {
                    None
                },
                Some((Token::Newline, _, _)) | None => Some(
                    (seq![Op { ident: span_of(s, e), then: None }], e),
                ),
                _ => None,
            }
        } else {
            None
        },
        _ => None,
    }
}

/// Reference parse of a function literal `with p1 [and p2] <op-chain>`.
pub open spec fn spec_parse_fn(src: Seq<u8>, pos: int) -> Option<(FnV, int)> {
    match spec_next(src, pos) {
        Some((Token::With, s, e)) => if pos < e <= src.len() {
            match spec_next(src, e) {
                Some((Token::Identifier, s1, e1)) => if pos < e1 <= src.len() {
                    match spec_next(src, e1) {
                        Some((Token::And, s2, e2)) => if pos < e2 <= src.len() {
                            match spec_next(src, e2) {
                                Some((Token::Identifier, s3, e3)) => if pos < e3 <= src.len() {
                                    match spec_parse_ops(src, e3) {
                                        Some((ops, p)) => Some(
                                            (
                                                FnV {
                                                    with: span_of(s, e),
                                                    params: FnParams {
                                                        p1: span_of(s1, e1),
                                                        and: Some(span_of(s2, e2)),
                                                        p2: Some(span_of(s3, e3)),
                                                    },
                                                    ops,
                                                },
                                                p,
                                            ),
                                        ),
                                        None => None,
                                    }
                                } else {
                                    None
                                },
                                _ => None,
                            }
                        } else {
                            None
                        },
                        _ => match spec_parse_ops(src, e1) {
                            Some((ops, p)) => Some(
                                (
                                    FnV {
                                        with: span_of(s, e),
                                        params: FnParams {
                                            p1: span_of(s1, e1),
                                            and: None,
                                            p2: None,
                                        },
                                        ops,
                                    },
                                    p,
                                ),
                            ),
                            None => None,
                        },
                    }
                } else {
                    None
                },
                _ => None,
            }
        } else {
            None
        },
        _ => None,
    }
}

/// Reference parse of an assignment value: an op-chain, a function
/// literal, a number, `not here`, or nothing before the line ends.
pub open spec fn spec_parse_assign_value(src: Seq<u8>, pos: int) -> Option<(AssignValueV, int)> {
    match spec_next(src, pos) {
        Some((Token::Identifier, _, _)) => match spec_parse_ops(src, pos) {
            Some((ops, p)) => Some((AssignValueV::Ops(ops), p)),
            None => None,
        },
        Some((Token::With, _, _)) => match spec_parse_fn(src, pos) {
            Some((f, p)) => Some((AssignValueV::Fn(f), p)),
            None => None,
        },
        Some((Token::Number(n), s, e)) => Some((AssignValueV::Number(span_of(s, e), n), e)),
        Some((Token::NotHere, s, e)) => Some((AssignValueV::NotHere(span_of(s, e)), e)),
        Some((Token::Newline, _, _)) => Some((AssignValueV::Ops(Seq::empty()), pos)),
        None => Some((AssignValueV::Ops(Seq::empty()), pos)),
        _ => None,
    }
}

/// Reference parse of a behaviour: `still in` and `if` wrappers around an
/// assignment `<target> is <value>`.
pub open spec fn spec_parse_behaviour(src: Seq<u8>, pos: int) -> Option<(BehaviourV, int)>
    decreases src.len() - pos,
{
    match spec_next(src, pos) {
        Some((Token::StillIn, s, e)) => if pos < e <= src.len() {
            match spec_next(src, e) {
                Some((Token::Identifier, s1, e1)) => if pos < e1 <= src.len() {
                    match spec_parse_behaviour(src, e1) {
                        Some((b, p)) => Some(
                            (
                                BehaviourV::StillIn {
                                    still_in: span_of(s, e),
                                    ident: span_of(s1, e1),
                                    behaviour: Box::new(b),
                                },
                                p,
                            ),
                        ),
                        None => None,
                    }
                } else {
                    None
                },
                _ => None,
            }
        } else {
            None
        },
        Some((Token::If, s, e)) => if pos < e <= src.len() {
            match spec_next(src, e) {
                Some((Token::Identifier, s1, e1)) => if pos < e1 <= src.len() {
                    match spec_parse_behaviour(src, e1) {
                        Some((b, p)) => Some(
                            (
                                BehaviourV::Cond {
                                    if_: span_of(s, e),
                                    cond: span_of(s1, e1),
                                    behaviour: Box::new(b),
                                },
                                p,
                            ),
                        ),
                        None => None,
                    }
                } else {
                    None
                },
                _ => None,
            }
        } else {
            None
        },
        Some((t, s, e)) => if (t matches Token::Identifier) || (t matches Token::Discard) || (
        t matches Token::Return) || (t matches Token::Goto) {
            if pos < e <= src.len() {
                let target = match t {
                    Token::Identifier => AssignTarget::Ident(span_of(s, e)),
                    Token::Discard => AssignTarget::Discard(span_of(s, e)),
                    Token::Return => AssignTarget::Return(span_of(s, e)),
                    _ => AssignTarget::Goto(span_of(s, e)),
                };
                spec_parse_assign_tail(target, src, e)
            } else {
                None
            }
        } else {
            None
        },
        None => None,
    }
}

/// Reference parse of `is <value>` after an assignment target.
pub open spec fn spec_parse_assign_tail(target: AssignTarget, src: Seq<u8>, pos: int) -> Option<
    (BehaviourV, int),
> {
    match spec_next(src, pos) {
        Some((Token::Is, s1, e1)) => if pos < e1 <= src.len() {
            match spec_parse_assign_value(src, e1) {
                Some((value, p)) => Some(
                    (BehaviourV::Assign { target, is: span_of(s1, e1), value }, p),
                ),
                None => None,
            }
        } else {
            None
        },
        _ => None,
    }
}

/// Reference parse of the next statement at `pos` on line `line`: `None`
/// for a parse error, `Some(None)` for a clean end of input, and otherwise
/// the statement, the position after it and the line it sits on.
pub open spec fn spec_parse_stmt(src: Seq<u8>, pos: int, line: int) -> Option<
    Option<(StmtV, int, int)>,
>
    decreases src.len() - pos,
{
    match spec_next(src, pos) {
        None => Some(None),
        Some((Token::Newline, s, e)) => if pos < e <= src.len() {
            spec_parse_stmt(src, e, line + 1)
        } else {
            None
        },
        Some((Token::BehaviourStart, s, e)) => if pos < e <= src.len() {
            match spec_parse_behaviour(src, e) {
                Some((b, p)) => Some(
                    Some((StmtV { line, expr: None, sep: span_of(s, e), behaviour: b }, p, line)),
                ),
                None => None,
            }
        } else {
            None
        },
        Some((Token::Identifier, _, _)) | Some((Token::ParenLeft, _, _)) => match spec_parse_expr(
            src,
            pos,
        ) {
            Some((ex, p)) => match spec_next(src, p) {
                Some((Token::BehaviourStart, s2, e2)) => if p < e2 <= src.len() {
                    match spec_parse_behaviour(src, e2) {
                        Some((b, p2)) => Some(
                            Some(
                                (
                                    StmtV {
                                        line,
                                        expr: Some(ex),
                                        sep: span_of(s2, e2),
                                        behaviour: b,
                                    },
                                    p2,
                                    line,
                                ),
                            ),
                        ),
                        None => None,
                    }
                } else {
                    None
                },
                _ => None,
            },
            None => None,
        },
        _ => None,
    }
}

fn parse_expr_inner<'a>(acc: Expr, tokens: &mut Lexer<'a>) -> (r: Result<Expr, ParseError>)
    requires
        old(tokens).wf(),
    ensures
        final(tokens).wf(),
        final(tokens).src == old(tokens).src,
        old(tokens).pos <= final(tokens).pos,
        match r {
            Ok(e) => spec_parse_expr_inner(acc, old(tokens).src@, old(tokens).pos as int) == Some(
                (e, final(tokens).pos as int),
            ),
            Err(_) => spec_parse_expr_inner(acc, old(tokens).src@, old(tokens).pos as int) is None,
        },
    decreases tokens.src@.len() - tokens.pos, 0int,
{
    proof {
        lemma_src_len_fits(tokens.src);
        lemma_next_bounds(tokens.src@, tokens.pos as int);
    }
    match tokens.peek() {
        Some((Token::Operator, op)) => {
            let _ = tokens.next();
            proof {
                lemma_src_len_fits(tokens.src);
                lemma_next_bounds(tokens.src@, tokens.pos as int);
            }
            match tokens.peek() {
                Some((Token::Operator, _)) => parse_expr_inner(
                    Expr::Unop { expr: Box::new(acc), op },
                    tokens,
                ),
                Some((Token::ParenRight, _)) | Some((Token::BehaviourStart, _)) => Ok(
                    Expr::Unop { expr: Box::new(acc), op },
                ),
                Some(_) => match parse_expr(tokens) {
                    Ok(rhs) => Ok(Expr::Binop { lhs: Box::new(acc), op, rhs: Box::new(rhs) }),
                    Err(e) => Err(e),
                },
                None => Err(ParseError::UnexpectedEof),
            }
        },
        Some(_) => Ok(acc),
        None => Err(ParseError::UnexpectedEof),
    }
}

/// Parse an operand expression: an identifier or a parenthesised
/// expression, continued by `.` operators.
pub fn parse_expr<'a>(tokens: &mut Lexer<'a>) -> (r: Result<Expr, ParseError>)
    requires
        old(tokens).wf(),
    ensures
        final(tokens).wf(),
        final(tokens).src == old(tokens).src,
        old(tokens).pos <= final(tokens).pos,
        match r {
            Ok(e) => spec_parse_expr(old(tokens).src@, old(tokens).pos as int) == Some(
                (e, final(tokens).pos as int),
            ) && old(tokens).pos < final(tokens).pos,
            Err(_) => spec_parse_expr(old(tokens).src@, old(tokens).pos as int) is None,
        },
    decreases tokens.src@.len() - tokens.pos, 1int,
{
    proof {
        lemma_src_len_fits(tokens.src);
        lemma_next_bounds(tokens.src@, tokens.pos as int);
    }
    match tokens.next() {
        Some((Token::Identifier, sp)) => parse_expr_inner(Expr::Ident(sp), tokens),
        Some((Token::ParenLeft, l)) => {
            match parse_expr(tokens) {
                Ok(inner) => {
                    proof {
                        lemma_src_len_fits(tokens.src);
                        lemma_next_bounds(tokens.src@, tokens.pos as int);
                    }
                    match tokens.monch(Token::ParenRight) {
                        Ok(r_sp) => parse_expr_inner(
                            Expr::Paren { l, expr: Box::new(inner), r: r_sp },
                            tokens,
                        ),
                        Err(e) => Err(e),
                    }
                },
                Err(e) => Err(e),
            }
        },
        Some((t, sp)) => Err(ParseError::UnexpectedToken { token: t, span: sp }),
        None => Err(ParseError::UnexpectedEof),
    }
}

/// Parse an op-chain: identifiers joined by `then`, ended by a newline
/// (which stays in the stream) or by the end of the input.
pub fn parse_ops<'a>(tokens: &mut Lexer<'a>) -> (r: Result<Vec<Op>, ParseError>)
    requires
        old(tokens).wf(),
    ensures
        final(tokens).wf(),
        final(tokens).src == old(tokens).src,
        old(tokens).pos <= final(tokens).pos,
        match r {
            Ok(ops) => spec_parse_ops(old(tokens).src@, old(tokens).pos as int) == Some(
                (ops@, final(tokens).pos as int),
            ),
            Err(_) => spec_parse_ops(old(tokens).src@, old(tokens).pos as int) is None,
        },
    decreases tokens.src@.len() - tokens.pos,
{
    proof {
        lemma_src_len_fits(tokens.src);
        lemma_next_bounds(tokens.src@, tokens.pos as int);
    }
    match tokens.peek() {
        None => Ok(Vec::new()),
        Some((Token::Newline, _)) => Ok(Vec::new()),
        Some((Token::Identifier, idsp)) => {
            let _ = tokens.next();
            proof {
                lemma_src_len_fits(tokens.src);
                lemma_next_bounds(tokens.src@, tokens.pos as int);
            }
            match tokens.peek() {
                Some((Token::Then, thsp)) => {
                    let _ = tokens.next();
                    match parse_ops(tokens) {
                        Ok(rest) => {
                            let mut ops = rest;
                            ops.insert(0, Op { ident: idsp, then: Some(thsp) });
                            proof {
                                assert(ops@ =~= seq![Op { ident: idsp, then: Some(thsp) }]
                                    + ops@.subrange(1, ops@.len() as int));
                            }
                            Ok(ops)
                        },
                        Err(e) => Err(e),
                    }
                },
                Some((Token::Newline, _)) => {
                    let mut ops: Vec<Op> = Vec::new();
                    ops.push(Op { ident: idsp, then: None });
                    proof {
                        assert(ops@ =~= seq![Op { ident: idsp, then: None }]);
                    }
                    Ok(ops)
                },
                None => {
                    let mut ops: Vec<Op> = Vec::new();
                    ops.push(Op { ident: idsp, then: None });
                    proof {
                        assert(ops@ =~= seq![Op { ident: idsp, then: None }]);
                    }
                    Ok(ops)
                },
                Some((t, sp)) => Err(ParseError::UnexpectedToken { token: t, span: sp }),
            }
        },
        Some((t, sp)) => Err(ParseError::UnexpectedToken { token: t, span: sp }),
    }
}

/// Parse a function literal `with p1 [and p2] <op-chain>`.
pub fn parse_fn<'a>(tokens: &mut Lexer<'a>) -> (r: Result<Fn, ParseError>)
    requires
        old(tokens).wf(),
    ensures
        final(tokens).wf(),
        final(tokens).src == old(tokens).src,
        old(tokens).pos <= final(tokens).pos,
        match r {
            Ok(f) => spec_parse_fn(old(tokens).src@, old(tokens).pos as int) == Some(
                (f@, final(tokens).pos as int),
            ),
            Err(_) => spec_parse_fn(old(tokens).src@, old(tokens).pos as int) is None,
        },
{
    proof {
        lemma_src_len_fits(tokens.src);
        lemma_next_bounds(tokens.src@, tokens.pos as int);
    }
    let with = match tokens.monch(Token::With) {
        Ok(s) => s,
        Err(e) => return Err(e),
    };
    proof {
        lemma_src_len_fits(tokens.src);
        lemma_next_bounds(tokens.src@, tokens.pos as int);
    }
    let p1 = match tokens.monch(Token::Identifier) {
        Ok(s) => s,
        Err(e) => return Err(e),
    };
    proof {
        lemma_src_len_fits(tokens.src);
        lemma_next_bounds(tokens.src@, tokens.pos as int);
    }
    let (and, p2) = match tokens.peek() {
        Some((Token::And, and_sp)) => {
            let _ = tokens.next();
            proof {
                lemma_src_len_fits(tokens.src);
                lemma_next_bounds(tokens.src@, tokens.pos as int);
            }
            let p2 = match tokens.monch(Token::Identifier) {
                Ok(s) => s,
                Err(e) => return Err(e),
            };
            (Some(and_sp), Some(p2))
        },
        _ => (None, None),
    };
    let ops = match parse_ops(tokens) {
        Ok(o) => o,
        Err(e) => return Err(e),
    };
    Ok(Fn { with, params: FnParams { p1, and, p2 }, ops })
}

/// Parse an assignment value: an op-chain, a function literal, a number,
/// `not here`, or nothing before the line ends.
pub fn parse_assign_value<'a>(tokens: &mut Lexer<'a>) -> (r: Result<AssignValue, ParseError>)
    requires
        old(tokens).wf(),
    ensures
        final(tokens).wf(),
        final(tokens).src == old(tokens).src,
        old(tokens).pos <= final(tokens).pos,
        match r {
            Ok(v) => spec_parse_assign_value(old(tokens).src@, old(tokens).pos as int) == Some(
                (v@, final(tokens).pos as int),
            ),
            Err(_) => spec_parse_assign_value(old(tokens).src@, old(tokens).pos as int) is None,
        },
{
    proof {
        lemma_src_len_fits(tokens.src);
        lemma_next_bounds(tokens.src@, tokens.pos as int);
    }
    match tokens.peek() {
        Some((Token::Identifier, _)) => match parse_ops(tokens) {
            Ok(ops) => Ok(AssignValue::Ops(ops)),
            Err(e) => Err(e),
        },
        Some((Token::With, _)) => match parse_fn(tokens) {
            Ok(f) => Ok(AssignValue::Fn(f)),
            Err(e) => Err(e),
        },
        Some((Token::Number(n), sp)) => {
            let _ = tokens.next();
            Ok(AssignValue::Number(sp, n))
        },
        Some((Token::NotHere, sp)) => {
            let _ = tokens.next();
            Ok(AssignValue::NotHere(sp))
        },
        Some((Token::Newline, _)) => Ok(AssignValue::Ops(Vec::new())),
        None => Ok(AssignValue::Ops(Vec::new())),
        Some((t, sp)) => Err(ParseError::UnexpectedToken { token: t, span: sp }),
    }
}

fn parse_assign_tail<'a>(target: AssignTarget, tokens: &mut Lexer<'a>) -> (r: Result<
    Behaviour,
    ParseError,
>)
    requires
        old(tokens).wf(),
    ensures
        final(tokens).wf(),
        final(tokens).src == old(tokens).src,
        old(tokens).pos <= final(tokens).pos,
        match r {
            Ok(b) => spec_parse_assign_tail(target, old(tokens).src@, old(tokens).pos as int)
                == Some((b@, final(tokens).pos as int)),
            Err(_) => spec_parse_assign_tail(
                target,
                old(tokens).src@,
                old(tokens).pos as int,
            ) is None,
        },
{
    proof {
        lemma_src_len_fits(tokens.src);
        lemma_next_bounds(tokens.src@, tokens.pos as int);
    }
    let is = match tokens.monch(Token::Is) {
        Ok(s) => s,
        Err(e) => return Err(e),
    };
    match parse_assign_value(tokens) {
        Ok(value) => Ok(Behaviour::Assign { target, is, value }),
        Err(e) => Err(e),
    }
}

/// Parse a behaviour: `still in` and `if` wrappers around an assignment
/// `<target> is <value>`.
pub fn parse_behaviour<'a>(tokens: &mut Lexer<'a>) -> (r: Result<Behaviour, ParseError>)
    requires
        old(tokens).wf(),
    ensures
        final(tokens).wf(),
        final(tokens).src == old(tokens).src,
        old(tokens).pos <= final(tokens).pos,
        match r {
            Ok(b) => spec_parse_behaviour(old(tokens).src@, old(tokens).pos as int) == Some(
                (b@, final(tokens).pos as int),
            ),
            Err(_) => spec_parse_behaviour(old(tokens).src@, old(tokens).pos as int) is None,
        },
    decreases tokens.src@.len() - tokens.pos,
{
    proof {
        lemma_src_len_fits(tokens.src);
        lemma_next_bounds(tokens.src@, tokens.pos as int);
    }
    match tokens.next() {
        Some((Token::StillIn, still_in)) => {
            proof {
                lemma_src_len_fits(tokens.src);
                lemma_next_bounds(tokens.src@, tokens.pos as int);
            }
            let ident = match tokens.monch(Token::Identifier) {
                Ok(s) => s,
                Err(e) => return Err(e),
            };
            match parse_behaviour(tokens) {
                Ok(b) => Ok(Behaviour::StillIn { still_in, ident, behaviour: Box::new(b) }),
                Err(e) => Err(e),
            }
        },
        Some((Token::If, if_)) => {
            proof {
                lemma_src_len_fits(tokens.src);
                lemma_next_bounds(tokens.src@, tokens.pos as int);
            }
            let cond = match tokens.monch(Token::Identifier) {
                Ok(s) => s,
                Err(e) => return Err(e),
            };
            match parse_behaviour(tokens) {
                Ok(b) => Ok(Behaviour::Cond { if_, cond, behaviour: Box::new(b) }),
                Err(e) => Err(e),
            }
        },
        Some((Token::Identifier, sp)) => parse_assign_tail(AssignTarget::Ident(sp), tokens),
        Some((Token::Discard, sp)) => parse_assign_tail(AssignTarget::Discard(sp), tokens),
        Some((Token::Return, sp)) => parse_assign_tail(AssignTarget::Return(sp), tokens),
        Some((Token::Goto, sp)) => parse_assign_tail(AssignTarget::Goto(sp), tokens),
        Some((t, sp)) => Err(ParseError::UnexpectedToken { token: t, span: sp }),
        None => Err(ParseError::UnexpectedEof),
    }
}

/// The statement stream: a lexer plus the 1-based line counter that blank
/// lines advance.
pub struct Parser1<'a> {
    pub tokens: Lexer<'a>,
    pub line: usize,
}

impl<'a> Parser1<'a> {
    pub open spec fn wf(&self) -> bool {
        &&& self.tokens.wf()
        &&& 1 <= self.line
        &&& self.line as int <= self.tokens.pos as int + 1
        &&& self.tokens.src@.len() < usize::MAX
    }

    /// The next statement: `Ok(None)` at a clean end of input, `Err` where
    /// the grammar fails, as the reference `spec_parse_stmt` says.
    pub fn next(&mut self) -> (r: Result<Option<Stmt>, ParseError>)
        requires
            old(self).wf(),
        ensures
            final(self).wf(),
            final(self).tokens.src == old(self).tokens.src,
            old(self).tokens.pos <= final(self).tokens.pos,
            (r matches Ok(Some(s))) ==> old(self).tokens.pos < final(self).tokens.pos,
            match r {
                Ok(Some(stmt)) => spec_parse_stmt(
                    old(self).tokens.src@,
                    old(self).tokens.pos as int,
                    old(self).line as int,
                ) == Some(Some((stmt@, final(self).tokens.pos as int, final(self).line as int))),
                Ok(None) => spec_parse_stmt(
                    old(self).tokens.src@,
                    old(self).tokens.pos as int,
                    old(self).line as int,
                ) == Some(None::<(StmtV, int, int)>),
                Err(_) => spec_parse_stmt(
                    old(self).tokens.src@,
                    old(self).tokens.pos as int,
                    old(self).line as int,
                ) is None,
            },
        decreases self.tokens.src@.len() - self.tokens.pos,
    {
        proof {
            lemma_src_len_fits(self.tokens.src);
            lemma_next_bounds(self.tokens.src@, self.tokens.pos as int);
        }
        match self.tokens.peek() {
            Some((Token::Newline, _)) => {
                let _ = self.tokens.next();
                self.line = self.line + 1;
                self.next()
            },
            Some((Token::BehaviourStart, sep)) => {
                let _ = self.tokens.next();
                match parse_behaviour(&mut self.tokens) {
                    Ok(behaviour) => Ok(
                        Some(Stmt { line: self.line, expr: None, sep, behaviour }),
                    ),
                    Err(e) => Err(e),
                }
            },
            Some((Token::Identifier, _)) | Some((Token::ParenLeft, _)) => {
                let expr = match parse_expr(&mut self.tokens) {
                    Ok(e) => e,
                    Err(e) => return Err(e),
                };
                proof {
                    lemma_src_len_fits(self.tokens.src);
                    lemma_next_bounds(self.tokens.src@, self.tokens.pos as int);
                }
                let sep = match self.tokens.monch(Token::BehaviourStart) {
                    Ok(s) => s,
                    Err(e) => return Err(e),
                };
                match parse_behaviour(&mut self.tokens) {
                    Ok(behaviour) => Ok(
                        Some(Stmt { line: self.line, expr: Some(expr), sep, behaviour }),
                    ),
                    Err(e) => Err(e),
                }
            },
            None => Ok(None),
            Some((t, s)) => Err(ParseError::UnexpectedToken { token: t, span: s }),
        }
    }
}

/// A statement stream over `lexer`, starting on line 1.
pub fn parser<'a>(lexer: Lexer<'a>) -> (r: Parser1<'a>)
    requires
        lexer.wf(),
        lexer.src@.len() < usize::MAX,
    ensures
        r.tokens == lexer,
        r.line == 1,
        r.wf(),
{
    Parser1 { tokens: lexer, line: 1 }
}

/// The span names an identifier lexeme of the source: non-empty, inside
/// the buffer, an identifier-start byte followed by identifier bytes.
pub open spec fn ident_lexeme(src: Seq<u8>, sp: Span) -> bool {
    &&& sp.start < sp.end <= src.len()
    &&& crate::lexer::is_ident_start_byte(src[sp.start as int])
    &&& forall|i: int| sp.start <= i < sp.end ==> crate::lexer::is_ident_byte(#[trigger] src[i])
}

/// The span names a single byte `b` of the source.
pub open spec fn byte_lexeme(src: Seq<u8>, sp: Span, b: u8) -> bool {
    &&& sp.end == sp.start + 1
    &&& sp.end <= src.len()
    &&& src[sp.start as int] == b
}

/// Every span of the operand tree slices to its lexeme: identifier leaves
/// to identifier lexemes, operator spans to `.`, parenthesis spans to their
/// parenthesis.
pub open spec fn expr_wf(e: Expr, src: Seq<u8>) -> bool
    decreases e,
{
    match e {
        Expr::Binop { lhs, op, rhs } => byte_lexeme(src, op, 46) && expr_wf(*lhs, src) && expr_wf(
            *rhs,
            src,
        ),
        Expr::Unop { expr, op } => byte_lexeme(src, op, 46) && expr_wf(*expr, src),
        Expr::Paren { l, expr, r } => byte_lexeme(src, l, 40) && byte_lexeme(src, r, 41)
            && expr_wf(*expr, src),
        Expr::Ident(sp) => ident_lexeme(src, sp),
    }
}

/// The op names an identifier lexeme, and its connective span, where
/// present, slices to `then`.
pub open spec fn op_wf(o: Op, src: Seq<u8>) -> bool {
    &&& ident_lexeme(src, o.ident)
    &&& match o {
        Op { then: Some(sp), .. } => crate::lexer::kw_then_at(src, sp.start as int) && sp.end
            == sp.start + 4,
        _ => true,
    }
}

pub open spec fn ops_wf(ops: Seq<Op>, src: Seq<u8>) -> bool {
    forall|i: int| 0 <= i < ops.len() ==> op_wf(#[trigger] ops[i], src)
}

pub open spec fn value_wf(v: AssignValueV, src: Seq<u8>) -> bool {
    match v {
        AssignValueV::Ops(ops) => ops_wf(ops, src),
        AssignValueV::Fn(f) => crate::lexer::kw_with_at(src, f.with.start as int) && f.with.end
            == f.with.start + 4 && ident_lexeme(src, f.params.p1) && (f.params.p2 matches Some(sp)
            ==> ident_lexeme(src, sp)) && ops_wf(f.ops, src),
        AssignValueV::Number(sp, n) => sp.start < sp.end <= src.len() && (forall|i: int|
            sp.start <= i < sp.end ==> crate::lexer::is_digit_byte(#[trigger] src[i])) && n as nat
            == crate::lexer::digits_value(src, sp.start as int, sp.end as int),
        AssignValueV::NotHere(sp) => crate::lexer::kw_not_here_at(src, sp.start as int) && sp.end
            == sp.start + 8,
    }
}

/// The span of an assignment target slices to its lexeme.
pub open spec fn target_wf(target: AssignTarget, src: Seq<u8>) -> bool {
    match target {
        AssignTarget::Ident(sp) => ident_lexeme(src, sp),
        AssignTarget::Discard(sp) => (crate::lexer::kw_yeet_at(src, sp.start as int) && sp.end
            == sp.start + 4) || (crate::lexer::kw_fuckall_at(src, sp.start as int) && sp.end
            == sp.start + 7),
        AssignTarget::Return(sp) => crate::lexer::kw_return_at(src, sp.start as int) && sp.end
            == sp.start + 6,
        AssignTarget::Goto(sp) => crate::lexer::kw_goto_at(src, sp.start as int) && sp.end
            == sp.start + 4,
    }
}

pub open spec fn behaviour_v_wf(b: BehaviourV, src: Seq<u8>) -> bool
    decreases b,
{
    match b {
        BehaviourV::StillIn { still_in, ident, behaviour } => crate::lexer::kw_still_in_at(
            src,
            still_in.start as int,
        ) && still_in.end == still_in.start + 8 && ident_lexeme(src, ident) && behaviour_v_wf(
            *behaviour,
            src,
        ),
        BehaviourV::Cond { if_, cond, behaviour } => crate::lexer::kw_if_at(src, if_.start as int)
            && if_.end == if_.start + 2 && ident_lexeme(src, cond) && behaviour_v_wf(
            *behaviour,
            src,
        ),
        BehaviourV::Assign { target, is, value } => crate::lexer::kw_is_at(src, is.start as int)
            && is.end == is.start + 2 && target_wf(target, src) && value_wf(value, src),
    }
}

/// Law (span round trip, tree half): every span a parsed statement records
/// — the `//` separator, operand leaves and `.` operators, parentheses, op
/// names and their `then`s, the wrapper keywords and their names, targets,
/// `is`, values and parameters — slices to its original lexeme.
pub open spec fn stmt_v_wf(s: StmtV, src: Seq<u8>) -> bool {
    &&& crate::lexer::kw_sep_at(src, s.sep.start as int) && s.sep.end == s.sep.start + 2
    &&& (s.expr matches Some(e) ==> expr_wf(e, src))
    &&& behaviour_v_wf(s.behaviour, src)
}

proof fn lemma_parse_expr_wf(src: Seq<u8>, pos: int)
    requires
        src.len() <= usize::MAX,
    ensures
        spec_parse_expr(src, pos) matches Some((e, p)) ==> expr_wf(e, src),
    decreases src.len() - pos, 1int,
{
    if 0 <= pos <= src.len() {
        crate::lexer::lemma_token_span_spells_token(src, pos);
        match spec_next(src, pos) {
            Some((Token::Identifier, s, e)) => {
                if pos < e <= src.len() {
                    lemma_parse_expr_inner_wf(Expr::Ident(span_of(s, e)), src, e);
                }
            },
            Some((Token::ParenLeft, s, e)) => {
                if pos < e <= src.len() {
                    lemma_parse_expr_wf(src, e);
                    match spec_parse_expr(src, e) {
                        Some((inner, pos2)) => {
                            if 0 <= pos2 <= src.len() {
                                crate::lexer::lemma_token_span_spells_token(src, pos2);
                            }
                            match spec_next(src, pos2) {
                                Some((Token::ParenRight, s2, e2)) => {
                                    if pos < e2 <= src.len() {
                                        lemma_parse_expr_inner_wf(
                                            Expr::Paren {
                                                l: span_of(s, e),
                                                expr: Box::new(inner),
                                                r: span_of(s2, e2),
                                            },
                                            src,
                                            e2,
                                        );
                                    }
                                },
                                _ => {},
                            }
                        },
                        None => {},
                    }
                }
            },
            _ => {},
        }
    }
}

proof fn lemma_parse_expr_inner_wf(acc: Expr, src: Seq<u8>, pos: int)
    requires
        src.len() <= usize::MAX,
        expr_wf(acc, src),
    ensures
        spec_parse_expr_inner(acc, src, pos) matches Some((e, p)) ==> expr_wf(e, src),
    decreases src.len() - pos, 0int,
{
    if 0 <= pos <= src.len() {
        crate::lexer::lemma_token_span_spells_token(src, pos);
        match spec_next(src, pos) {
            Some((Token::Operator, s, e)) => {
                if pos < e <= src.len() {
                    match spec_next(src, e) {
                        Some((Token::Operator, _, _)) => {
                            lemma_parse_expr_inner_wf(
                                Expr::Unop { expr: Box::new(acc), op: span_of(s, e) },
                                src,
                                e,
                            );
                        },
                        Some((Token::ParenRight, _, _)) | Some((Token::BehaviourStart, _, _)) => {},
                        Some(_) => {
                            lemma_parse_expr_wf(src, e);
                        },
                        None => {},
                    }
                }
            },
            _ => {},
        }
    }
}

proof fn lemma_parse_ops_wf(src: Seq<u8>, pos: int)
    requires
        src.len() <= usize::MAX,
    ensures
        spec_parse_ops(src, pos) matches Some((ops, p)) ==> ops_wf(ops, src),
    decreases src.len() - pos,
{
    if 0 <= pos <= src.len() {
        crate::lexer::lemma_token_span_spells_token(src, pos);
        match spec_next(src, pos) {
            Some((Token::Identifier, s, e)) => {
                if pos < e <= src.len() {
                    crate::lexer::lemma_token_span_spells_token(src, e);
                    match spec_next(src, e) {
                        Some((Token::Then, s2, e2)) => {
                            if pos < e2 <= src.len() {
                                lemma_parse_ops_wf(src, e2);
                            }
                        },
                        _ => {},
                    }
                }
            },
            _ => {},
        }
    }
}

proof fn lemma_parse_fn_wf(src: Seq<u8>, pos: int)
    requires
        src.len() <= usize::MAX,
    ensures
        spec_parse_fn(src, pos) matches Some((f, p)) ==> value_wf(AssignValueV::Fn(f), src),
{
    if 0 <= pos <= src.len() {
        crate::lexer::lemma_token_span_spells_token(src, pos);
        match spec_next(src, pos) {
            Some((Token::With, s, e)) => {
                if pos < e <= src.len() {
                    crate::lexer::lemma_token_span_spells_token(src, e);
                    match spec_next(src, e) {
                        Some((Token::Identifier, s1, e1)) => {
                            if pos < e1 <= src.len() {
                                match spec_next(src, e1) {
                                    Some((Token::And, s2, e2)) => {
                                        if pos < e2 <= src.len() {
                                            crate::lexer::lemma_token_span_spells_token(src, e2);
                                            match spec_next(src, e2) {
                                                Some((Token::Identifier, s3, e3)) => {
                                                    if pos < e3 <= src.len() {
                                                        lemma_parse_ops_wf(src, e3);
                                                    }
                                                },
                                                _ => {},
                                            }
                                        }
                                    },
                                    _ => {
                                        lemma_parse_ops_wf(src, e1);
                                    },
                                }
                            }
                        },
                        _ => {},
                    }
                }
            },
            _ => {},
        }
    }
}

proof fn lemma_parse_assign_value_wf(src: Seq<u8>, pos: int)
    requires
        src.len() <= usize::MAX,
    ensures
        spec_parse_assign_value(src, pos) matches Some((v, p)) ==> value_wf(v, src),
{
    if 0 <= pos <= src.len() {
        crate::lexer::lemma_token_span_spells_token(src, pos);
    }
    lemma_parse_ops_wf(src, pos);
    lemma_parse_fn_wf(src, pos);
}

proof fn lemma_parse_assign_tail_wf(target: AssignTarget, src: Seq<u8>, pos: int)
    requires
        src.len() <= usize::MAX,
        target_wf(target, src),
    ensures
        spec_parse_assign_tail(target, src, pos) matches Some((b, p)) ==> behaviour_v_wf(b, src),
{
    if 0 <= pos <= src.len() {
        crate::lexer::lemma_token_span_spells_token(src, pos);
        match spec_next(src, pos) {
            Some((Token::Is, s1, e1)) => {
                if pos < e1 <= src.len() {
                    lemma_parse_assign_value_wf(src, e1);
                }
            },
            _ => {},
        }
    }
}

proof fn lemma_parse_behaviour_wf(src: Seq<u8>, pos: int)
    requires
        src.len() <= usize::MAX,
    ensures
        spec_parse_behaviour(src, pos) matches Some((b, p)) ==> behaviour_v_wf(b, src),
    decreases src.len() - pos,
{
    if 0 <= pos <= src.len() {
        crate::lexer::lemma_token_span_spells_token(src, pos);
        match spec_next(src, pos) {
            Some((Token::StillIn, s, e)) => {
                if pos < e <= src.len() {
                    crate::lexer::lemma_token_span_spells_token(src, e);
                    match spec_next(src, e) {
                        Some((Token::Identifier, s1, e1)) => {
                            if pos < e1 <= src.len() {
                                lemma_parse_behaviour_wf(src, e1);
                            }
                        },
                        _ => {},
                    }
                }
            },
            Some((Token::If, s, e)) => {
                if pos < e <= src.len() {
                    crate::lexer::lemma_token_span_spells_token(src, e);
                    match spec_next(src, e) {
                        Some((Token::Identifier, s1, e1)) => {
                            if pos < e1 <= src.len() {
                                lemma_parse_behaviour_wf(src, e1);
                            }
                        },
                        _ => {},
                    }
                }
            },
            Some((t, s, e)) => {
                if pos < e <= src.len() {
                    match t {
                        Token::Identifier => lemma_parse_assign_tail_wf(
                            AssignTarget::Ident(span_of(s, e)),
                            src,
                            e,
                        ),
                        Token::Discard => lemma_parse_assign_tail_wf(
                            AssignTarget::Discard(span_of(s, e)),
                            src,
                            e,
                        ),
                        Token::Return => lemma_parse_assign_tail_wf(
                            AssignTarget::Return(span_of(s, e)),
                            src,
                            e,
                        ),
                        Token::Goto => lemma_parse_assign_tail_wf(
                            AssignTarget::Goto(span_of(s, e)),
                            src,
                            e,
                        ),
                        _ => {},
                    }
                }
            },
            None => {},
        }
    }
}

/// Law (span round trip at the statement level): a parsed statement only
/// records identifier spans that slice to identifier lexemes of the source.
pub proof fn lemma_parse_stmt_wf(src: Seq<u8>, pos: int, line: int)
    requires
        src.len() <= usize::MAX,
    ensures
        spec_parse_stmt(src, pos, line) matches Some(Some((sv, p, l))) ==> stmt_v_wf(sv, src),
    decreases src.len() - pos,
{
    if 0 <= pos <= src.len() {
        crate::lexer::lemma_token_span_spells_token(src, pos);
        match spec_next(src, pos) {
            Some((Token::Newline, s, e)) => {
                if pos < e <= src.len() {
                    lemma_parse_stmt_wf(src, e, line + 1);
                }
            },
            Some((Token::BehaviourStart, s, e)) => {
                if pos < e <= src.len() {
                    lemma_parse_behaviour_wf(src, e);
                }
            },
            Some((Token::Identifier, _, _)) | Some((Token::ParenLeft, _, _)) => {
                lemma_parse_expr_wf(src, pos);
                match spec_parse_expr(src, pos) {
                    Some((ex, p)) => {
                        if 0 <= p <= src.len() {
                            crate::lexer::lemma_token_span_spells_token(src, p);
                        }
                        match spec_next(src, p) {
                            Some((Token::BehaviourStart, s2, e2)) => {
                                if p < e2 <= src.len() {
                                    lemma_parse_behaviour_wf(src, e2);
                                }
                            },
                            _ => {},
                        }
                    },
                    None => {},
                }
            },
            _ => {},
        }
    }
}

} // verus!
