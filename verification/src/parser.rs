//! Deriving line and column from byte offsets, and filling them into a
//! parsed tree: a pure function of the source text and each node's start
//! offset.

use vstd::prelude::*;
use vstd::string::StringSliceAdditionalSpecFns;

use crate::ast::child_wf;
use crate::ast::node_wf;
use crate::ast::{Add, Apply, Array, Bool, Expr, FAdd, FDiv, FMul, FNeg, FSub, Float};
use crate::ast::{Get, If, Int, LessEq, Let, LetRec, LetTuple, Neg, Node, Not, Position};
use crate::ast::{Put, Sub, Tuple, Unit, Var};

verus! {

/// Number of newline bytes in `s` strictly before `off`.
pub open spec fn count_nl(s: Seq<u8>, off: int) -> int
    decreases off,
{
    if off <= 0 {
        0
    } else {
        count_nl(s, off - 1) + if s[off - 1] == 10 {
            1int
        } else {
            0int
        }
    }
}

/// Byte offset of the start of the line that `off` lies on: zero, or one
/// past the last newline before `off`.
pub open spec fn line_start(s: Seq<u8>, off: int) -> int
    decreases off,
{
    if off <= 0 {
        0
    } else if s[off - 1] == 10 {
        off
    } else {
        line_start(s, off - 1)
    }
}

/// One-indexed line of the byte at `off`.
pub open spec fn line_of(s: Seq<u8>, off: int) -> int {
    1 + count_nl(s, off)
}

/// One-indexed column of the byte at `off`.
pub open spec fn col_of(s: Seq<u8>, off: int) -> int {
    1 + off - line_start(s, off)
}

/// Scans the source text for newline boundaries and derives the
/// one-indexed line and column of the byte at `off`: a pure function of
/// `(code, off)` alone.
pub fn line_col(code: &[u8], off: usize) -> (r: (usize, usize))
    requires
        off <= code@.len(),
        code@.len() < usize::MAX,
    ensures
        r.0 == line_of(code@, off as int),
        r.1 == col_of(code@, off as int),
{
    let mut i: usize = 0;
    let mut nl: usize = 0;
    let mut start: usize = 0;
    while i < off
        invariant
            i <= off,
            off <= code@.len(),
            code@.len() < usize::MAX,
            nl == count_nl(code@, i as int),
            start == line_start(code@, i as int),
            nl <= i,
            start <= i,
        decreases off - i,
    {
        if code[i] == 10 {
            nl = nl + 1;
            start = i + 1;
        }
        i = i + 1;
    }
    (1 + nl, 1 + off - start)
}

/// `p` with its line and column derived from its start offset against `s`.
pub open spec fn pos_with_lc(p: Position, s: Seq<u8>) -> Position {
    Position {
        line: line_of(s, p.start_byte_index as int) as usize,
        column: col_of(s, p.start_byte_index as int) as usize,
        ..p
    }
}

/// `b` is `a` with every node's line and column derived from its start
/// offset against the source bytes `s`, and nothing else changed: the
/// variants, payloads and byte ranges agree node for node. Given `a`,
/// exactly one `b` satisfies the relation.
pub open spec fn lc_rel(a: Node, b: Node, s: Seq<u8>) -> bool
    decreases a,
{
    b.pos() == pos_with_lc(a.pos(), s) && match (a, b) {
        (Node::Unit(_), Node::Unit(_)) => true,
        (Node::Bool(x), Node::Bool(y)) => y.value == x.value,
        (Node::Int(x), Node::Int(y)) => y.value == x.value,
        (Node::Float(x), Node::Float(y)) => y.text == x.text,
        (Node::Not(x), Node::Not(y)) => lc_rel(*x.child, *y.child, s),
        (Node::Neg(x), Node::Neg(y)) => lc_rel(*x.child, *y.child, s),
        (Node::Add(x), Node::Add(y)) => lc_rel(*x.lhs, *y.lhs, s) && lc_rel(*x.rhs, *y.rhs, s),
        (Node::Sub(x), Node::Sub(y)) => lc_rel(*x.lhs, *y.lhs, s) && lc_rel(*x.rhs, *y.rhs, s),
        (Node::FNeg(x), Node::FNeg(y)) => lc_rel(*x.child, *y.child, s),
        (Node::FAdd(x), Node::FAdd(y)) => lc_rel(*x.lhs, *y.lhs, s) && lc_rel(*x.rhs, *y.rhs, s),
        (Node::FSub(x), Node::FSub(y)) => lc_rel(*x.lhs, *y.lhs, s) && lc_rel(*x.rhs, *y.rhs, s),
        (Node::FMul(x), Node::FMul(y)) => lc_rel(*x.lhs, *y.lhs, s) && lc_rel(*x.rhs, *y.rhs, s),
        (Node::FDiv(x), Node::FDiv(y)) => lc_rel(*x.lhs, *y.lhs, s) && lc_rel(*x.rhs, *y.rhs, s),
        (Node::Eq(x), Node::Eq(y)) => lc_rel(*x.lhs, *y.lhs, s) && lc_rel(*x.rhs, *y.rhs, s),
        (Node::LessEq(x), Node::LessEq(y)) => lc_rel(*x.lhs, *y.lhs, s) && lc_rel(*x.rhs, *y.rhs, s),
        (Node::If(x), Node::If(y)) => lc_rel(*x.cond, *y.cond, s) && lc_rel(*x.then_, *y.then_, s) && lc_rel(*x.else_, *y.else_, s),
        (Node::Let(x), Node::Let(y)) => y.name == x.name && lc_rel(*x.bound, *y.bound, s) && lc_rel(*x.body, *y.body, s),
        (Node::Var(x), Node::Var(y)) => y.name == x.name,
        (Node::LetRec(x), Node::LetRec(y)) => y.name == x.name && y.params == x.params && lc_rel(*x.bound, *y.bound, s) && lc_rel(*x.body, *y.body, s),
        (Node::Apply(x), Node::Apply(y)) => lc_rel(*x.callee, *y.callee, s) && y.args@.len() == x.args@.len() && forall|i: int|
            0 <= i < x.args@.len() ==> lc_rel(*#[trigger] x.args@[i], *y.args@[i], s),
        (Node::Tuple(x), Node::Tuple(y)) => y.elements@.len() == x.elements@.len() && forall|i: int|
            0 <= i < x.elements@.len() ==> lc_rel(*#[trigger] x.elements@[i], *y.elements@[i], s),
        (Node::LetTuple(x), Node::LetTuple(y)) => y.names == x.names && lc_rel(*x.bound, *y.bound, s) && lc_rel(*x.body, *y.body, s),
        (Node::Array(x), Node::Array(y)) => lc_rel(*x.size, *y.size, s) && lc_rel(*x.elem, *y.elem, s),
        (Node::Get(x), Node::Get(y)) => lc_rel(*x.array, *y.array, s) && lc_rel(*x.index, *y.index, s),
        (Node::Put(x), Node::Put(y)) => lc_rel(*x.array, *y.array, s) && lc_rel(*x.index, *y.index, s) && lc_rel(*x.new_value, *y.new_value, s),
        _ => false,
    }
}

/// Every node's line and column equal the ones derived from its start
/// offset against the source bytes `s`.
pub open spec fn lc_ok(n: Node, s: Seq<u8>) -> bool
    decreases n,
{
    n.pos().line == line_of(s, n.pos().start_byte_index as int) && n.pos().column == col_of(
        s,
        n.pos().start_byte_index as int,
    ) && match n {
        Node::Unit(_) => true,
        Node::Bool(_) => true,
        Node::Int(_) => true,
        Node::Float(_) => true,
        Node::Not(x) => lc_ok(*x.child, s),
        Node::Neg(x) => lc_ok(*x.child, s),
        Node::Add(x) => lc_ok(*x.lhs, s) && lc_ok(*x.rhs, s),
        Node::Sub(x) => lc_ok(*x.lhs, s) && lc_ok(*x.rhs, s),
        Node::FNeg(x) => lc_ok(*x.child, s),
        Node::FAdd(x) => lc_ok(*x.lhs, s) && lc_ok(*x.rhs, s),
        Node::FSub(x) => lc_ok(*x.lhs, s) && lc_ok(*x.rhs, s),
        Node::FMul(x) => lc_ok(*x.lhs, s) && lc_ok(*x.rhs, s),
        Node::FDiv(x) => lc_ok(*x.lhs, s) && lc_ok(*x.rhs, s),
        Node::Eq(x) => lc_ok(*x.lhs, s) && lc_ok(*x.rhs, s),
        Node::LessEq(x) => lc_ok(*x.lhs, s) && lc_ok(*x.rhs, s),
        Node::If(x) => lc_ok(*x.cond, s) && lc_ok(*x.then_, s) && lc_ok(*x.else_, s),
        Node::Let(x) => lc_ok(*x.bound, s) && lc_ok(*x.body, s),
        Node::Var(_) => true,
        Node::LetRec(x) => lc_ok(*x.bound, s) && lc_ok(*x.body, s),
        Node::Apply(x) => lc_ok(*x.callee, s) && forall|i: int|
            0 <= i < x.args@.len() ==> lc_ok(*#[trigger] x.args@[i], s),
        Node::Tuple(x) => forall|i: int|
            0 <= i < x.elements@.len() ==> lc_ok(*#[trigger] x.elements@[i], s),
        Node::LetTuple(x) => lc_ok(*x.bound, s) && lc_ok(*x.body, s),
        Node::Array(x) => lc_ok(*x.size, s) && lc_ok(*x.elem, s),
        Node::Get(x) => lc_ok(*x.array, s) && lc_ok(*x.index, s),
        Node::Put(x) => lc_ok(*x.array, s) && lc_ok(*x.index, s) && lc_ok(*x.new_value, s),
    }
}

fn fix_pos(p: Position, code: &[u8]) -> (r: Position)
    requires
        p.start_byte_index <= code@.len(),
        code@.len() < usize::MAX,
    ensures
        r == pos_with_lc(p, code@),
{
    let (line, column) = line_col(code, p.start_byte_index);
    Position { line, column, ..p }
}

/// Fills in the line and column of every node of the tree from its start
/// byte offset, scanning `code` for newline boundaries; the structure and
/// byte ranges of the tree are unchanged.
#[verifier::loop_isolation(false)]
pub fn set_line_col(ast: Expr, code: &[u8]) -> (r: Expr)
    requires
        code@.len() < usize::MAX,
        node_wf(*ast),
        (*ast).pos().end_byte_index <= code@.len(),
    ensures
        lc_rel(*ast, *r, code@),
    decreases *ast,
{
    let ghost n0: Node = *ast;
    match *ast {
        Node::Unit(x) => Box::new(Node::Unit(Unit { pos: fix_pos(x.pos, code) })),
        Node::Bool(x) => Box::new(Node::Bool(Bool { value: x.value, pos: fix_pos(x.pos, code) })),
        Node::Int(x) => Box::new(Node::Int(Int { value: x.value, pos: fix_pos(x.pos, code) })),
        Node::Float(x) => Box::new(Node::Float(Float { text: x.text, pos: fix_pos(x.pos, code) })),
        Node::Not(x) => {
            let pos = fix_pos(x.pos, code);
            let child = set_line_col(x.child, code);
            Box::new(Node::Not(Not { child, pos }))
        },
        Node::Neg(x) => {
            let pos = fix_pos(x.pos, code);
            let child = set_line_col(x.child, code);
            Box::new(Node::Neg(Neg { child, pos }))
        },
        Node::Add(x) => {
            let pos = fix_pos(x.pos, code);
            let lhs = set_line_col(x.lhs, code);
            let rhs = set_line_col(x.rhs, code);
            Box::new(Node::Add(Add { lhs, rhs, pos }))
        },
        Node::Sub(x) => {
            let pos = fix_pos(x.pos, code);
            let lhs = set_line_col(x.lhs, code);
            let rhs = set_line_col(x.rhs, code);
            Box::new(Node::Sub(Sub { lhs, rhs, pos }))
        },
        Node::FNeg(x) => {
            let pos = fix_pos(x.pos, code);
            let child = set_line_col(x.child, code);
            Box::new(Node::FNeg(FNeg { child, pos }))
        },
        Node::FAdd(x) => {
            let pos = fix_pos(x.pos, code);
            let lhs = set_line_col(x.lhs, code);
            let rhs = set_line_col(x.rhs, code);
            Box::new(Node::FAdd(FAdd { lhs, rhs, pos }))
        },
        Node::FSub(x) => {
            let pos = fix_pos(x.pos, code);
            let lhs = set_line_col(x.lhs, code);
            let rhs = set_line_col(x.rhs, code);
            Box::new(Node::FSub(FSub { lhs, rhs, pos }))
        },
        Node::FMul(x) => {
            let pos = fix_pos(x.pos, code);
            let lhs = set_line_col(x.lhs, code);
            let rhs = set_line_col(x.rhs, code);
            Box::new(Node::FMul(FMul { lhs, rhs, pos }))
        },
        Node::FDiv(x) => {
            let pos = fix_pos(x.pos, code);
            let lhs = set_line_col(x.lhs, code);
            let rhs = set_line_col(x.rhs, code);
            Box::new(Node::FDiv(FDiv { lhs, rhs, pos }))
        },
        Node::Eq(x) => {
            let pos = fix_pos(x.pos, code);
            let lhs = set_line_col(x.lhs, code);
            let rhs = set_line_col(x.rhs, code);
            Box::new(Node::Eq(crate::ast::Eq { lhs, rhs, pos }))
        },
        Node::LessEq(x) => {
            let pos = fix_pos(x.pos, code);
            let lhs = set_line_col(x.lhs, code);
            let rhs = set_line_col(x.rhs, code);
            Box::new(Node::LessEq(LessEq { lhs, rhs, pos }))
        },
        Node::If(x) => {
            let pos = fix_pos(x.pos, code);
            let cond = set_line_col(x.cond, code);
            let then_ = set_line_col(x.then_, code);
            let else_ = set_line_col(x.else_, code);
            Box::new(Node::If(If { cond, then_, else_, pos }))
        },
        Node::Let(x) => {
            let pos = fix_pos(x.pos, code);
            let bound = set_line_col(x.bound, code);
            let body = set_line_col(x.body, code);
            Box::new(Node::Let(Let { name: x.name, bound, body, pos }))
        },
        Node::Var(x) => Box::new(Node::Var(Var { name: x.name, pos: fix_pos(x.pos, code) })),
        Node::LetRec(x) => {
            let pos = fix_pos(x.pos, code);
            let bound = set_line_col(x.bound, code);
            let body = set_line_col(x.body, code);
            Box::new(Node::LetRec(LetRec { name: x.name, params: x.params, bound, body, pos }))
        },
        Node::Apply(x) => {
            let ghost xg = x;
            let ghost orig = x.args@;
            let pos = fix_pos(x.pos, code);
            let callee = set_line_col(x.callee, code);
            let mut rest = x.args;
            let mut done: Vec<Expr> = Vec::new();
            while rest.len() > 0
                invariant
                    rest@ == orig.subrange(0, rest@.len() as int),
                    done@.len() + rest@.len() == orig.len(),
                    forall|i: int|
                        0 <= i < done@.len() ==> lc_rel(
                            *orig[rest@.len() + i],
                            *#[trigger] done@[i],
                            code@,
                        ),
                decreases rest@.len(),
            {
                let e = rest.pop().unwrap();
                proof {
                    let k = rest@.len() as int;
                    assert(e == orig[k]);
                    assert(n0 == Node::Apply(xg));
                    assert(e == xg.args@[k]);
                    assert(child_wf(xg.pos, *e));
                    assert(decreases_to!(xg.args@ => xg.args@[k]));
                    assert(decreases_to!(xg.args => xg.args@));
                    assert(decreases_to!(xg => xg.args));
                    assert(decreases_to!(n0 => xg));
                }
                let e2 = set_line_col(e, code);
                done.insert(0, e2);
                proof {
                    assert(rest@ =~= orig.subrange(0, rest@.len() as int));
                }
            }
            Box::new(Node::Apply(Apply { callee, args: done, pos }))
        },
        Node::Tuple(x) => {
            let ghost xg = x;
            let ghost orig = x.elements@;
            let pos = fix_pos(x.pos, code);
            let mut rest = x.elements;
            let mut done: Vec<Expr> = Vec::new();
            while rest.len() > 0
                invariant
                    rest@ == orig.subrange(0, rest@.len() as int),
                    done@.len() + rest@.len() == orig.len(),
                    forall|i: int|
                        0 <= i < done@.len() ==> lc_rel(
                            *orig[rest@.len() + i],
                            *#[trigger] done@[i],
                            code@,
                        ),
                decreases rest@.len(),
            {
                let e = rest.pop().unwrap();
                proof {
                    let k = rest@.len() as int;
                    assert(e == orig[k]);
                    assert(n0 == Node::Tuple(xg));
                    assert(e == xg.elements@[k]);
                    assert(child_wf(xg.pos, *e));
                    assert(decreases_to!(xg.elements@ => xg.elements@[k]));
                    assert(decreases_to!(xg.elements => xg.elements@));
                    assert(decreases_to!(xg => xg.elements));
                    assert(decreases_to!(n0 => xg));
                }
                let e2 = set_line_col(e, code);
                done.insert(0, e2);
                proof {
                    assert(rest@ =~= orig.subrange(0, rest@.len() as int));
                }
            }
            Box::new(Node::Tuple(Tuple { elements: done, pos }))
        },
        Node::LetTuple(x) => {
            let pos = fix_pos(x.pos, code);
            let bound = set_line_col(x.bound, code);
            let body = set_line_col(x.body, code);
            Box::new(Node::LetTuple(LetTuple { names: x.names, bound, body, pos }))
        },
        Node::Array(x) => {
            let pos = fix_pos(x.pos, code);
            let size = set_line_col(x.size, code);
            let elem = set_line_col(x.elem, code);
            Box::new(Node::Array(Array { size, elem, pos }))
        },
        Node::Get(x) => {
            let pos = fix_pos(x.pos, code);
            let array = set_line_col(x.array, code);
            let index = set_line_col(x.index, code);
            Box::new(Node::Get(Get { array, index, pos }))
        },
        Node::Put(x) => {
            let pos = fix_pos(x.pos, code);
            let array = set_line_col(x.array, code);
            let index = set_line_col(x.index, code);
            let new_value = set_line_col(x.new_value, code);
            Box::new(Node::Put(Put { array, index, new_value, pos }))
        },
    }
}


/// `count_nl` counts at most one newline per byte.
pub proof fn lemma_count_nl_bound(s: Seq<u8>, off: int)
    requires
        off >= 0,
    ensures
        0 <= count_nl(s, off) <= off,
    decreases off,
{
    if off > 0 {
        lemma_count_nl_bound(s, off - 1);
    }
}

/// A line starts at or before the offset that lies on it.
pub proof fn lemma_line_start_bound(s: Seq<u8>, off: int)
    requires
        off >= 0,
    ensures
        0 <= line_start(s, off) <= off,
    decreases off,
{
    if off > 0 && s[off - 1] != 10 {
        lemma_line_start_bound(s, off - 1);
    }
}

/// Filling in lines and columns keeps the tree well-formed, and afterwards
/// every node's line and column are the ones derived from its start offset:
/// the derivation is a pure function of the source text and the offset, so
/// re-deriving them is deterministic and stable.
pub proof fn lemma_lc_props(a: Node, b: Node, s: Seq<u8>)
    requires
        node_wf(a),
        lc_rel(a, b, s),
        a.pos().end_byte_index <= s.len(),
        s.len() < usize::MAX,
    ensures
        node_wf(b),
        lc_ok(b, s),
        b.pos().start_byte_index == a.pos().start_byte_index,
        b.pos().end_byte_index == a.pos().end_byte_index,
    decreases a,
{
    lemma_count_nl_bound(s, a.pos().start_byte_index as int);
    lemma_line_start_bound(s, a.pos().start_byte_index as int);
    match (a, b) {
        (Node::Unit(_), Node::Unit(_)) => {},
        (Node::Bool(_), Node::Bool(_)) => {},
        (Node::Int(_), Node::Int(_)) => {},
        (Node::Float(_), Node::Float(_)) => {},
        (Node::Var(_), Node::Var(_)) => {},
        (Node::Not(x), Node::Not(y)) => {
            lemma_lc_props(*x.child, *y.child, s);
        },
        (Node::Neg(x), Node::Neg(y)) => {
            lemma_lc_props(*x.child, *y.child, s);
        },
        (Node::FNeg(x), Node::FNeg(y)) => {
            lemma_lc_props(*x.child, *y.child, s);
        },
        (Node::Add(x), Node::Add(y)) => {
            lemma_lc_props(*x.lhs, *y.lhs, s);
            lemma_lc_props(*x.rhs, *y.rhs, s);
        },
        (Node::Sub(x), Node::Sub(y)) => {
            lemma_lc_props(*x.lhs, *y.lhs, s);
            lemma_lc_props(*x.rhs, *y.rhs, s);
        },
        (Node::FAdd(x), Node::FAdd(y)) => {
            lemma_lc_props(*x.lhs, *y.lhs, s);
            lemma_lc_props(*x.rhs, *y.rhs, s);
        },
        (Node::FSub(x), Node::FSub(y)) => {
            lemma_lc_props(*x.lhs, *y.lhs, s);
            lemma_lc_props(*x.rhs, *y.rhs, s);
        },
        (Node::FMul(x), Node::FMul(y)) => {
            lemma_lc_props(*x.lhs, *y.lhs, s);
            lemma_lc_props(*x.rhs, *y.rhs, s);
        },
        (Node::FDiv(x), Node::FDiv(y)) => {
            lemma_lc_props(*x.lhs, *y.lhs, s);
            lemma_lc_props(*x.rhs, *y.rhs, s);
        },
        (Node::Eq(x), Node::Eq(y)) => {
            lemma_lc_props(*x.lhs, *y.lhs, s);
            lemma_lc_props(*x.rhs, *y.rhs, s);
        },
        (Node::LessEq(x), Node::LessEq(y)) => {
            lemma_lc_props(*x.lhs, *y.lhs, s);
            lemma_lc_props(*x.rhs, *y.rhs, s);
        },
        (Node::If(x), Node::If(y)) => {
            lemma_lc_props(*x.cond, *y.cond, s);
            lemma_lc_props(*x.then_, *y.then_, s);
            lemma_lc_props(*x.else_, *y.else_, s);
        },
        (Node::Let(x), Node::Let(y)) => {
            lemma_lc_props(*x.bound, *y.bound, s);
            lemma_lc_props(*x.body, *y.body, s);
        },
        (Node::LetRec(x), Node::LetRec(y)) => {
            lemma_lc_props(*x.bound, *y.bound, s);
            lemma_lc_props(*x.body, *y.body, s);
        },
        (Node::LetTuple(x), Node::LetTuple(y)) => {
            lemma_lc_props(*x.bound, *y.bound, s);
            lemma_lc_props(*x.body, *y.body, s);
        },
        (Node::Apply(x), Node::Apply(y)) => {
            lemma_lc_props(*x.callee, *y.callee, s);
            assert forall|i: int| 0 <= i < y.args@.len() implies child_wf(
                b.pos(),
                *#[trigger] y.args@[i],
            ) && lc_ok(*y.args@[i], s) by {
                assert(child_wf(a.pos(), *x.args@[i]));
                lemma_lc_props(*x.args@[i], *y.args@[i], s);
            }
        },
        (Node::Tuple(x), Node::Tuple(y)) => {
            assert forall|i: int| 0 <= i < y.elements@.len() implies child_wf(
                b.pos(),
                *#[trigger] y.elements@[i],
            ) && lc_ok(*y.elements@[i], s) by {
                assert(child_wf(a.pos(), *x.elements@[i]));
                lemma_lc_props(*x.elements@[i], *y.elements@[i], s);
            }
        },
        (Node::Array(x), Node::Array(y)) => {
            lemma_lc_props(*x.size, *y.size, s);
            lemma_lc_props(*x.elem, *y.elem, s);
        },
        (Node::Get(x), Node::Get(y)) => {
            lemma_lc_props(*x.array, *y.array, s);
            lemma_lc_props(*x.index, *y.index, s);
        },
        (Node::Put(x), Node::Put(y)) => {
            lemma_lc_props(*x.array, *y.array, s);
            lemma_lc_props(*x.index, *y.index, s);
            lemma_lc_props(*x.new_value, *y.new_value, s);
        },
        _ => {},
    }
}


/// The source bytes hold one atomic token — a literal or an identifier —
/// and nothing else but whitespace.
pub open spec fn whole_token(s: Seq<u8>) -> bool {
    crate::grammar::token_at(s, crate::grammar::spec_skip_ws(s, 0)) && crate::grammar::spec_skip_ws(
        s,
        crate::grammar::token_end(s, crate::grammar::spec_skip_ws(s, 0)),
    ) == s.len()
}

/// Deriving lines and columns leaves a token's node the exact node of
/// its token: the variant, payload and byte range are untouched.
pub proof fn lemma_token_lc(s: Seq<u8>, i: int, a: Node, b: Node)
    requires
        crate::grammar::token_matches(s, i, a),
        lc_rel(a, b, s),
    ensures
        crate::grammar::token_matches(s, i, b),
{
}


/// The source bytes hold one factor and nothing else but whitespace.
pub open spec fn whole_factor(s: Seq<u8>) -> bool {
    crate::grammar::factor_at(s, crate::grammar::spec_skip_ws(s, 0))
        && crate::grammar::spec_skip_ws(
        s,
        crate::grammar::factor_end(s, crate::grammar::spec_skip_ws(s, 0)),
    ) == s.len()
}

/// The source bytes hold one additive pair and nothing else but
/// whitespace.
pub open spec fn whole_add_pair(s: Seq<u8>) -> bool {
    crate::grammar::add_pair_at(s, crate::grammar::spec_skip_ws(s, 0))
        && crate::grammar::spec_skip_ws(
        s,
        crate::grammar::add_pair_end(s, crate::grammar::spec_skip_ws(s, 0)),
    ) == s.len()
}

/// The source bytes hold one additive triple and nothing else but
/// whitespace.
pub open spec fn whole_add_triple(s: Seq<u8>) -> bool {
    crate::grammar::add_triple_at(s, crate::grammar::spec_skip_ws(s, 0))
        && crate::grammar::spec_skip_ws(
        s,
        crate::grammar::add_triple_end(s, crate::grammar::spec_skip_ws(s, 0)),
    ) == s.len()
}

/// Deriving lines and columns leaves a factor's node the exact node of
/// its factor.
pub proof fn lemma_factor_lc(s: Seq<u8>, f: int, a: Node, b: Node)
    requires
        crate::grammar::factor_matches(s, f, a),
        lc_rel(a, b, s),
    ensures
        crate::grammar::factor_matches(s, f, b),
{
    if crate::grammar::mulop_at(s, crate::grammar::tok_op_at(s, f)) {
        match (a, b) {
            (Node::FMul(x), Node::FMul(y)) => {
                lemma_token_lc(s, f, *x.lhs, *y.lhs);
                lemma_token_lc(
                    s,
                    crate::grammar::spec_skip_ws(s, crate::grammar::tok_op_at(s, f) + 2),
                    *x.rhs,
                    *y.rhs,
                );
            },
            (Node::FDiv(x), Node::FDiv(y)) => {
                lemma_token_lc(s, f, *x.lhs, *y.lhs);
                lemma_token_lc(
                    s,
                    crate::grammar::spec_skip_ws(s, crate::grammar::tok_op_at(s, f) + 2),
                    *x.rhs,
                    *y.rhs,
                );
            },
            _ => {},
        }
    } else {
        lemma_token_lc(s, f, a, b);
    }
}

/// Deriving lines and columns leaves an additive pair's node the exact
/// node of its pair.
pub proof fn lemma_add_pair_lc(s: Seq<u8>, i: int, a: Node, b: Node)
    requires
        crate::grammar::add_pair_matches(s, i, a),
        lc_rel(a, b, s),
    ensures
        crate::grammar::add_pair_matches(s, i, b),
{
    let (l, r) = choose|l: Node, r: Node|
        crate::grammar::add_variant_ok(s, crate::grammar::add_op1(s, i), a, l, r)
            && #[trigger] crate::grammar::factor_matches(s, i, l)
            && #[trigger] crate::grammar::factor_matches(s, crate::grammar::add_rhs1(s, i), r);
    match (a, b) {
        (Node::Add(x), Node::Add(y)) => {
            lemma_factor_lc(s, i, *x.lhs, *y.lhs);
            lemma_factor_lc(s, crate::grammar::add_rhs1(s, i), *x.rhs, *y.rhs);
        },
        (Node::FAdd(x), Node::FAdd(y)) => {
            lemma_factor_lc(s, i, *x.lhs, *y.lhs);
            lemma_factor_lc(s, crate::grammar::add_rhs1(s, i), *x.rhs, *y.rhs);
        },
        (Node::Sub(x), Node::Sub(y)) => {
            lemma_factor_lc(s, i, *x.lhs, *y.lhs);
            lemma_factor_lc(s, crate::grammar::add_rhs1(s, i), *x.rhs, *y.rhs);
        },
        (Node::FSub(x), Node::FSub(y)) => {
            lemma_factor_lc(s, i, *x.lhs, *y.lhs);
            lemma_factor_lc(s, crate::grammar::add_rhs1(s, i), *x.rhs, *y.rhs);
        },
        _ => {},
    }
}

/// Deriving lines and columns leaves an additive triple's node the
/// exact node of its triple.
pub proof fn lemma_add_triple_lc(s: Seq<u8>, i: int, a: Node, b: Node)
    requires
        crate::grammar::add_triple_matches(s, i, a),
        lc_rel(a, b, s),
    ensures
        crate::grammar::add_triple_matches(s, i, b),
{
    match (a, b) {
        (Node::Add(x), Node::Add(y)) => {
            lemma_add_pair_lc(s, i, *x.lhs, *y.lhs);
            lemma_factor_lc(s, crate::grammar::add_rhs2(s, i), *x.rhs, *y.rhs);
        },
        (Node::FAdd(x), Node::FAdd(y)) => {
            lemma_add_pair_lc(s, i, *x.lhs, *y.lhs);
            lemma_factor_lc(s, crate::grammar::add_rhs2(s, i), *x.rhs, *y.rhs);
        },
        (Node::Sub(x), Node::Sub(y)) => {
            lemma_add_pair_lc(s, i, *x.lhs, *y.lhs);
            lemma_factor_lc(s, crate::grammar::add_rhs2(s, i), *x.rhs, *y.rhs);
        },
        (Node::FSub(x), Node::FSub(y)) => {
            lemma_add_pair_lc(s, i, *x.lhs, *y.lhs);
            lemma_factor_lc(s, crate::grammar::add_rhs2(s, i), *x.rhs, *y.rhs);
        },
        _ => {},
    }
}


/// The source bytes hold one store form and nothing else but whitespace.
pub open spec fn whole_put_form(s: Seq<u8>) -> bool {
    crate::grammar::put_form_at(s, 0) && crate::grammar::spec_skip_ws(
        s,
        crate::grammar::put_form_end(s, 0),
    ) == s.len()
}

/// The source bytes hold one application form and nothing else but
/// whitespace.
pub open spec fn whole_app_form(s: Seq<u8>) -> bool {
    crate::grammar::app_form_at(s, 0) && crate::grammar::spec_skip_ws(
        s,
        crate::grammar::app_form_end(s, 0),
    ) == s.len()
}

/// The source bytes hold one let form and nothing else but whitespace.
pub open spec fn whole_let_form(s: Seq<u8>) -> bool {
    crate::grammar::let_form_at(s, 0) && crate::grammar::spec_skip_ws(
        s,
        crate::grammar::let_form_end(s, 0),
    ) == s.len()
}

/// Deriving lines and columns leaves a store form's node the exact node
/// of its form.
pub proof fn lemma_put_form_lc(s: Seq<u8>, pos: int, a: Node, b: Node)
    requires
        crate::grammar::put_form_matches(s, pos, a),
        lc_rel(a, b, s),
    ensures
        crate::grammar::put_form_matches(s, pos, b),
{
    match (a, b) {
        (Node::Put(x), Node::Put(y)) => {
            lemma_token_lc(s, crate::grammar::put_index_at(s, pos), *x.index, *y.index);
            lemma_token_lc(s, crate::grammar::put_value_at(s, pos), *x.new_value, *y.new_value);
            assert(lc_rel(*x.array, *y.array, s));
            match (*x.array, *y.array) {
                (Node::Var(av), Node::Var(bv)) => {
                    assert(bv.name == av.name);
                    assert((*y.array).pos() == pos_with_lc((*x.array).pos(), s));
                },
                _ => {},
            }
        },
        _ => {},
    }
}

/// Deriving lines and columns leaves an application form's node the
/// exact node of its form.
pub proof fn lemma_app_form_lc(s: Seq<u8>, pos: int, a: Node, b: Node)
    requires
        crate::grammar::app_form_matches(s, pos, a),
        lc_rel(a, b, s),
    ensures
        crate::grammar::app_form_matches(s, pos, b),
{
    match (a, b) {
        (Node::Apply(x), Node::Apply(y)) => {
            assert(lc_rel(*x.args@[0], *y.args@[0], s));
            assert(lc_rel(*x.args@[1], *y.args@[1], s));
            lemma_token_lc(s, crate::grammar::app_arg1_at(s, pos), *x.args@[0], *y.args@[0]);
            lemma_token_lc(s, crate::grammar::app_arg2_at(s, pos), *x.args@[1], *y.args@[1]);
            assert(lc_rel(*x.callee, *y.callee, s));
            match (*x.callee, *y.callee) {
                (Node::Var(av), Node::Var(bv)) => {
                    assert(bv.name == av.name);
                    assert((*y.callee).pos() == pos_with_lc((*x.callee).pos(), s));
                },
                _ => {},
            }
        },
        _ => {},
    }
}

/// Deriving lines and columns leaves a let form's node the exact node
/// of its form.
pub proof fn lemma_let_form_lc(s: Seq<u8>, pos: int, a: Node, b: Node)
    requires
        crate::grammar::let_form_matches(s, pos, a),
        lc_rel(a, b, s),
    ensures
        crate::grammar::let_form_matches(s, pos, b),
{
    match (a, b) {
        (Node::Let(x), Node::Let(y)) => {
            lemma_token_lc(s, crate::grammar::let_bound_at(s, pos), *x.bound, *y.bound);
            lemma_token_lc(s, crate::grammar::let_body_at(s, pos), *x.body, *y.body);
        },
        _ => {},
    }
}


/// On the families of inputs whose parse the grammar's contract pins
/// exactly, the tree is owed and is the family's node; on the pinned
/// invalid inputs, failure is owed. `r` carries the returned root, or
/// nothing where parsing failed.
pub open spec fn pinned_cases_ok(s: Seq<u8>, r: Option<Node>) -> bool {
    &&& (whole_token(s) ==> match r {
        Option::Some(n) => crate::grammar::token_matches(
            s,
            crate::grammar::spec_skip_ws(s, 0),
            n,
        ),
        Option::None => false,
    })
    &&& (whole_factor(s) ==> match r {
        Option::Some(n) => crate::grammar::factor_matches(
            s,
            crate::grammar::spec_skip_ws(s, 0),
            n,
        ),
        Option::None => false,
    })
    &&& (whole_add_pair(s) ==> match r {
        Option::Some(n) => crate::grammar::add_pair_matches(
            s,
            crate::grammar::spec_skip_ws(s, 0),
            n,
        ),
        Option::None => false,
    })
    &&& (whole_add_triple(s) ==> match r {
        Option::Some(n) => crate::grammar::add_triple_matches(
            s,
            crate::grammar::spec_skip_ws(s, 0),
            n,
        ),
        Option::None => false,
    })
    &&& (whole_put_form(s) ==> match r {
        Option::Some(n) => crate::grammar::put_form_matches(s, 0, n),
        Option::None => false,
    })
    &&& (whole_app_form(s) ==> match r {
        Option::Some(n) => crate::grammar::app_form_matches(s, 0, n),
        Option::None => false,
    })
    &&& (whole_let_form(s) ==> match r {
        Option::Some(n) => crate::grammar::let_form_matches(s, 0, n),
        Option::None => false,
    })
    &&& (crate::grammar::let_missing_bound(s, 0) ==> r is None)
    &&& (crate::grammar::letrec_no_params(s, 0) ==> r is None)
    &&& (crate::grammar::lettuple_one_name(s, 0) ==> r is None)
}

/// A whole source text can be located: its byte length leaves room for a
/// one-indexed line count.
pub open spec fn code_fits(code: Seq<char>) -> bool {
    vstd::utf8::encode_utf8(code).len() < usize::MAX
}

/// A parse failure as handed to the caller: the one-indexed line and
/// column derived from the byte offset, the offset itself, and the set of
/// grammar categories that were expected there. A pure value, never
/// mutated after construction.
#[derive(Debug)]
pub struct ParseError {
    pub line: usize,
    pub column: usize,
    pub offset: usize,
    pub expected: Vec<String>,
}

/// The located error meets its contract against the source bytes `s`:
/// the offset lies within the input, the line and column are the ones
/// derived from the offset, and at least one expected category is named.
pub open spec fn parse_error_ok(s: Seq<u8>, pe: ParseError) -> bool {
    &&& pe.offset <= s.len()
    &&& pe.line == line_of(s, pe.offset as int)
    &&& pe.column == col_of(s, pe.offset as int)
    &&& pe.expected@.len() > 0
}

/// A successfully parsed tree meets its contract against the source
/// bytes `s`: it is well-formed, its span starts at the first
/// non-whitespace byte and runs to the end of the input up to trailing
/// whitespace, and every node's line and column are derived from its
/// start offset.
pub open spec fn parse_tree_ok(s: Seq<u8>, e: Node) -> bool {
    &&& node_wf(e)
    &&& lc_ok(e, s)
    &&& e.pos().start_byte_index == crate::grammar::spec_skip_ws(s, 0)
    &&& e.pos().start_byte_index < e.pos().end_byte_index
    &&& e.pos().end_byte_index <= s.len()
    &&& crate::grammar::spec_skip_ws(s, e.pos().end_byte_index as int) == s.len()
}

/// Parses one source text into exactly one root expression with every
/// node's line and column filled in, or fails with a single located
/// error carrying the innermost expected-category set.
pub fn parse_raw(code: &str) -> (r: Result<Expr, ParseError>)
    requires
        code_fits(code@),
    ensures
        match r {
            Result::Ok(e) => parse_tree_ok(code.spec_bytes(), *e),
            Result::Err(pe) => parse_error_ok(code.spec_bytes(), pe),
        },
        whole_token(code.spec_bytes()) ==> match r {
            Result::Ok(e) => crate::grammar::token_matches(
                code.spec_bytes(),
                crate::grammar::spec_skip_ws(code.spec_bytes(), 0),
                *e,
            ),
            Result::Err(_) => false,
        },
        whole_factor(code.spec_bytes()) ==> match r {
            Result::Ok(e) => crate::grammar::factor_matches(
                code.spec_bytes(),
                crate::grammar::spec_skip_ws(code.spec_bytes(), 0),
                *e,
            ),
            Result::Err(_) => false,
        },
        whole_add_pair(code.spec_bytes()) ==> match r {
            Result::Ok(e) => crate::grammar::add_pair_matches(
                code.spec_bytes(),
                crate::grammar::spec_skip_ws(code.spec_bytes(), 0),
                *e,
            ),
            Result::Err(_) => false,
        },
        whole_add_triple(code.spec_bytes()) ==> match r {
            Result::Ok(e) => crate::grammar::add_triple_matches(
                code.spec_bytes(),
                crate::grammar::spec_skip_ws(code.spec_bytes(), 0),
                *e,
            ),
            Result::Err(_) => false,
        },
        whole_put_form(code.spec_bytes()) ==> match r {
            Result::Ok(e) => crate::grammar::put_form_matches(code.spec_bytes(), 0, *e),
            Result::Err(_) => false,
        },
        whole_app_form(code.spec_bytes()) ==> match r {
            Result::Ok(e) => crate::grammar::app_form_matches(code.spec_bytes(), 0, *e),
            Result::Err(_) => false,
        },
        whole_let_form(code.spec_bytes()) ==> match r {
            Result::Ok(e) => crate::grammar::let_form_matches(code.spec_bytes(), 0, *e),
            Result::Err(_) => false,
        },
        crate::grammar::let_missing_bound(code.spec_bytes(), 0) ==> match r {
            Result::Ok(_) => false,
            Result::Err(pe) => pe.offset == crate::grammar::missing_bound_at(code.spec_bytes(), 0)
                && pe.expected@.map_values(|x: String| x@) == crate::grammar::expr_start_labels(),
        },
        crate::grammar::letrec_no_params(code.spec_bytes(), 0) ==> r is Err,
        crate::grammar::lettuple_one_name(code.spec_bytes(), 0) ==> r is Err,
{
    let bytes = code.as_bytes();
    match crate::grammar::expr(bytes) {
        Result::Ok(ast) => {
            let ghost a0: Node = *ast;
            let fixed = set_line_col(ast, bytes);
            proof {
                lemma_lc_props(a0, *fixed, bytes@);
                let ghost b0: Node = *fixed;
                if whole_token(bytes@) {
                    lemma_token_lc(bytes@, crate::grammar::spec_skip_ws(bytes@, 0), a0, b0);
                }
                if whole_factor(bytes@) {
                    lemma_factor_lc(bytes@, crate::grammar::spec_skip_ws(bytes@, 0), a0, b0);
                }
                if whole_add_pair(bytes@) {
                    lemma_add_pair_lc(bytes@, crate::grammar::spec_skip_ws(bytes@, 0), a0, b0);
                }
                if whole_add_triple(bytes@) {
                    lemma_add_triple_lc(bytes@, crate::grammar::spec_skip_ws(bytes@, 0), a0, b0);
                }
                if whole_put_form(bytes@) {
                    lemma_put_form_lc(bytes@, 0, a0, b0);
                }
                if whole_app_form(bytes@) {
                    lemma_app_form_lc(bytes@, 0, a0, b0);
                }
                if whole_let_form(bytes@) {
                    lemma_let_form_lc(bytes@, 0, a0, b0);
                }
            }
            Result::Ok(fixed)
        },
        Result::Err(f) => {
            let (line, column) = line_col(bytes, f.offset);
            Result::Err(ParseError { line, column, offset: f.offset, expected: f.expected })
        },
    }
}

/// Parses the text of one named source and pairs the result with its
/// identifier; a rule failure propagates the innermost location and
/// expected set unchanged, wrapped as a syntax error.
pub fn parse(file: &String, code: &str) -> (r: Result<
    crate::translation_unit::TranslationUnit,
    crate::error::Error,
>)
    requires
        code_fits(code@),
    ensures
        match r {
            Result::Ok(tu) => tu.file@ == file@ && parse_tree_ok(code.spec_bytes(), *tu.ast),
            Result::Err(e) => match e {
                crate::error::Error::OnParse(pe) => parse_error_ok(code.spec_bytes(), pe),
                _ => false,
            },
        },
        pinned_cases_ok(
            code.spec_bytes(),
            match r {
                Result::Ok(tu) => Option::Some(*tu.ast),
                Result::Err(_) => Option::None,
            },
        ),
        crate::grammar::let_missing_bound(code.spec_bytes(), 0) ==> match r {
            Result::Err(crate::error::Error::OnParse(pe)) => pe.offset
                == crate::grammar::missing_bound_at(code.spec_bytes(), 0)
                && pe.expected@.map_values(|x: String| x@) == crate::grammar::expr_start_labels(),
            _ => false,
        },
{
    match parse_raw(code) {
        Result::Ok(ast) => Result::Ok(
            crate::translation_unit::TranslationUnit { file: file.clone(), ast },
        ),
        Result::Err(pe) => Result::Err(crate::error::Error::OnParse(pe)),
    }
}

} // verus!
