//! The AST node family: a closed set of expression variants, each carrying
//! its payload and a byte-range position, with a generic capability to
//! enumerate a node's immediate children in evaluation order.

use vstd::prelude::*;

verus! {

/// Byte range locating a construct in the source text, with the line and
/// column derived from `start_byte_index` (zero until they are filled in
/// from the source text).
#[derive(Debug, Clone, Copy)]
pub struct Position {
    pub start_byte_index: usize,
    pub end_byte_index: usize,
    pub line: usize,
    pub column: usize,
    pub offset: usize,
}

impl Position {
    /// The byte range is ordered and `offset` is its width.
    pub open spec fn wf(self) -> bool {
        self.start_byte_index <= self.end_byte_index
            && self.offset == self.end_byte_index - self.start_byte_index
    }
}

/// The position every constructor stores: the byte range as given,
/// line and column not yet derived.
pub open spec fn pos_at(s: usize, e: usize) -> Position {
    Position {
        start_byte_index: s,
        end_byte_index: e,
        line: 0,
        column: 0,
        offset: (e - s) as usize,
    }
}

pub(crate) fn mk_pos(s: usize, e: usize) -> (r: Position)
    requires
        s <= e,
    ensures
        r == pos_at(s, e),
{
    Position { start_byte_index: s, end_byte_index: e, line: 0, column: 0, offset: e - s }
}

pub type Expr = Box<Node>;

#[derive(Debug)]
pub struct Unit {
    pub pos: Position,
}

#[derive(Debug)]
pub struct Bool {
    pub value: bool,
    pub pos: Position,
}

#[derive(Debug)]
pub struct Int {
    pub value: i32,
    pub pos: Position,
}

#[derive(Debug)]
pub struct Float {
    pub text: String,
    pub pos: Position,
}

#[derive(Debug)]
pub struct Not {
    pub child: Expr,
    pub pos: Position,
}

#[derive(Debug)]
pub struct Neg {
    pub child: Expr,
    pub pos: Position,
}

#[derive(Debug)]
pub struct Add {
    pub lhs: Expr,
    pub rhs: Expr,
    pub pos: Position,
}

#[derive(Debug)]
pub struct Sub {
    pub lhs: Expr,
    pub rhs: Expr,
    pub pos: Position,
}

#[derive(Debug)]
pub struct FNeg {
    pub child: Expr,
    pub pos: Position,
}

#[derive(Debug)]
pub struct FAdd {
    pub lhs: Expr,
    pub rhs: Expr,
    pub pos: Position,
}

#[derive(Debug)]
pub struct FSub {
    pub lhs: Expr,
    pub rhs: Expr,
    pub pos: Position,
}

#[derive(Debug)]
pub struct FMul {
    pub lhs: Expr,
    pub rhs: Expr,
    pub pos: Position,
}

#[derive(Debug)]
pub struct FDiv {
    pub lhs: Expr,
    pub rhs: Expr,
    pub pos: Position,
}

#[derive(Debug)]
pub struct Eq {
    pub lhs: Expr,
    pub rhs: Expr,
    pub pos: Position,
}

#[derive(Debug)]
pub struct LessEq {
    pub lhs: Expr,
    pub rhs: Expr,
    pub pos: Position,
}

#[derive(Debug)]
pub struct If {
    pub cond: Expr,
    pub then_: Expr,
    pub else_: Expr,
    pub pos: Position,
}

#[derive(Debug)]
pub struct Let {
    pub name: String,
    pub bound: Expr,
    pub body: Expr,
    pub pos: Position,
}

#[derive(Debug)]
pub struct Var {
    pub name: String,
    pub pos: Position,
}

#[derive(Debug)]
pub struct LetRec {
    pub name: String,
    pub params: Vec<String>,
    pub bound: Expr,
    pub body: Expr,
    pub pos: Position,
}

#[derive(Debug)]
pub struct Apply {
    pub callee: Expr,
    pub args: Vec<Expr>,
    pub pos: Position,
}

#[derive(Debug)]
pub struct Tuple {
    pub elements: Vec<Expr>,
    pub pos: Position,
}

#[derive(Debug)]
pub struct LetTuple {
    pub names: Vec<String>,
    pub bound: Expr,
    pub body: Expr,
    pub pos: Position,
}

#[derive(Debug)]
pub struct Array {
    pub size: Expr,
    pub elem: Expr,
    pub pos: Position,
}

#[derive(Debug)]
pub struct Get {
    pub array: Expr,
    pub index: Expr,
    pub pos: Position,
}

#[derive(Debug)]
pub struct Put {
    pub array: Expr,
    pub index: Expr,
    pub new_value: Expr,
    pub pos: Position,
}

#[derive(Debug)]
pub enum Node {
    Unit(Unit),
    Bool(Bool),
    Int(Int),
    Float(Float),
    Not(Not),
    Neg(Neg),
    Add(Add),
    Sub(Sub),
    FNeg(FNeg),
    FAdd(FAdd),
    FSub(FSub),
    FMul(FMul),
    FDiv(FDiv),
    Eq(Eq),
    LessEq(LessEq),
    If(If),
    Let(Let),
    Var(Var),
    LetRec(LetRec),
    Apply(Apply),
    Tuple(Tuple),
    LetTuple(LetTuple),
    Array(Array),
    Get(Get),
    Put(Put),
}

impl Node {
    /// The position stored in the node, whatever its variant.
    pub open spec fn pos(self) -> Position {
        match self {
            Node::Unit(n) => n.pos,
            Node::Bool(n) => n.pos,
            Node::Int(n) => n.pos,
            Node::Float(n) => n.pos,
            Node::Not(n) => n.pos,
            Node::Neg(n) => n.pos,
            Node::Add(n) => n.pos,
            Node::Sub(n) => n.pos,
            Node::FNeg(n) => n.pos,
            Node::FAdd(n) => n.pos,
            Node::FSub(n) => n.pos,
            Node::FMul(n) => n.pos,
            Node::FDiv(n) => n.pos,
            Node::Eq(n) => n.pos,
            Node::LessEq(n) => n.pos,
            Node::If(n) => n.pos,
            Node::Let(n) => n.pos,
            Node::Var(n) => n.pos,
            Node::LetRec(n) => n.pos,
            Node::Apply(n) => n.pos,
            Node::Tuple(n) => n.pos,
            Node::LetTuple(n) => n.pos,
            Node::Array(n) => n.pos,
            Node::Get(n) => n.pos,
            Node::Put(n) => n.pos,
        }
    }

    /// The node's immediate children, in evaluation order.
    pub open spec fn spec_children(self) -> Seq<Node> {
        match self {
            Node::Unit(_) => seq![],
            Node::Bool(_) => seq![],
            Node::Int(_) => seq![],
            Node::Float(_) => seq![],
            Node::Not(n) => seq![*n.child],
            Node::Neg(n) => seq![*n.child],
            Node::Add(n) => seq![*n.lhs, *n.rhs],
            Node::Sub(n) => seq![*n.lhs, *n.rhs],
            Node::FNeg(n) => seq![*n.child],
            Node::FAdd(n) => seq![*n.lhs, *n.rhs],
            Node::FSub(n) => seq![*n.lhs, *n.rhs],
            Node::FMul(n) => seq![*n.lhs, *n.rhs],
            Node::FDiv(n) => seq![*n.lhs, *n.rhs],
            Node::Eq(n) => seq![*n.lhs, *n.rhs],
            Node::LessEq(n) => seq![*n.lhs, *n.rhs],
            Node::If(n) => seq![*n.cond, *n.then_, *n.else_],
            Node::Let(n) => seq![*n.bound, *n.body],
            Node::Var(_) => seq![],
            Node::LetRec(n) => seq![*n.bound, *n.body],
            Node::Apply(n) => seq![*n.callee] + n.args@.map_values(|e: Expr| *e),
            Node::Tuple(n) => n.elements@.map_values(|e: Expr| *e),
            Node::LetTuple(n) => seq![*n.bound, *n.body],
            Node::Array(n) => seq![*n.size, *n.elem],
            Node::Get(n) => seq![*n.array, *n.index],
            Node::Put(n) => seq![*n.array, *n.index, *n.new_value],
        }
    }
}

/// The nodes of a well-formed tree have ordered byte ranges, and every
/// child's range lies within its parent's.
pub open spec fn node_wf(n: Node) -> bool
    decreases n, 0int,
{
    n.pos().wf() && match n {
        Node::Unit(_) => true,
        Node::Bool(_) => true,
        Node::Int(_) => true,
        Node::Float(_) => true,
        Node::Not(x) => child_wf(n.pos(), *x.child),
        Node::Neg(x) => child_wf(n.pos(), *x.child),
        Node::Add(x) => child_wf(n.pos(), *x.lhs) && child_wf(n.pos(), *x.rhs),
        Node::Sub(x) => child_wf(n.pos(), *x.lhs) && child_wf(n.pos(), *x.rhs),
        Node::FNeg(x) => child_wf(n.pos(), *x.child),
        Node::FAdd(x) => child_wf(n.pos(), *x.lhs) && child_wf(n.pos(), *x.rhs),
        Node::FSub(x) => child_wf(n.pos(), *x.lhs) && child_wf(n.pos(), *x.rhs),
        Node::FMul(x) => child_wf(n.pos(), *x.lhs) && child_wf(n.pos(), *x.rhs),
        Node::FDiv(x) => child_wf(n.pos(), *x.lhs) && child_wf(n.pos(), *x.rhs),
        Node::Eq(x) => child_wf(n.pos(), *x.lhs) && child_wf(n.pos(), *x.rhs),
        Node::LessEq(x) => child_wf(n.pos(), *x.lhs) && child_wf(n.pos(), *x.rhs),
        Node::If(x) => child_wf(n.pos(), *x.cond) && child_wf(n.pos(), *x.then_) && child_wf(n.pos(), *x.else_),
        Node::Let(x) => child_wf(n.pos(), *x.bound) && child_wf(n.pos(), *x.body),
        Node::Var(_) => true,
        Node::LetRec(x) => child_wf(n.pos(), *x.bound) && child_wf(n.pos(), *x.body),
        Node::Apply(x) => child_wf(n.pos(), *x.callee) && forall|i: int|
            0 <= i < x.args@.len() ==> child_wf(n.pos(), *#[trigger] x.args@[i]),
        Node::Tuple(x) => forall|i: int|
            0 <= i < x.elements@.len() ==> child_wf(n.pos(), *#[trigger] x.elements@[i]),
        Node::LetTuple(x) => child_wf(n.pos(), *x.bound) && child_wf(n.pos(), *x.body),
        Node::Array(x) => child_wf(n.pos(), *x.size) && child_wf(n.pos(), *x.elem),
        Node::Get(x) => child_wf(n.pos(), *x.array) && child_wf(n.pos(), *x.index),
        Node::Put(x) => child_wf(n.pos(), *x.array) && child_wf(n.pos(), *x.index) && child_wf(n.pos(), *x.new_value),
    }
}

/// The child is itself well-formed and its byte range lies within `p`.
pub open spec fn child_wf(p: Position, c: Node) -> bool
    decreases c, 1int,
{
    node_wf(c) && p.start_byte_index <= c.pos().start_byte_index
        && c.pos().end_byte_index <= p.end_byte_index
}

impl Unit {
    pub fn new(s: usize, e: usize) -> (r: Expr)
        requires
            s <= e,
        ensures
            *r == (Node::Unit(Unit { pos: pos_at(s, e) })),
    {
        Box::new(Node::Unit(Unit { pos: mk_pos(s, e) }))
    }
}

impl Bool {
    pub fn new(value: bool, s: usize, e: usize) -> (r: Expr)
        requires
            s <= e,
        ensures
            *r == (Node::Bool(Bool { value, pos: pos_at(s, e) })),
    {
        Box::new(Node::Bool(Bool { value, pos: mk_pos(s, e) }))
    }
}

impl Int {
    pub fn new(value: i32, s: usize, e: usize) -> (r: Expr)
        requires
            s <= e,
        ensures
            *r == (Node::Int(Int { value, pos: pos_at(s, e) })),
    {
        Box::new(Node::Int(Int { value, pos: mk_pos(s, e) }))
    }
}

impl Float {
    pub fn new(text: String, s: usize, e: usize) -> (r: Expr)
        requires
            s <= e,
        ensures
            *r == (Node::Float(Float { text, pos: pos_at(s, e) })),
    {
        Box::new(Node::Float(Float { text, pos: mk_pos(s, e) }))
    }
}

impl Not {
    pub fn new(child: Expr, s: usize, e: usize) -> (r: Expr)
        requires
            s <= e,
        ensures
            *r == (Node::Not(Not { child, pos: pos_at(s, e) })),
    {
        Box::new(Node::Not(Not { child, pos: mk_pos(s, e) }))
    }
}

impl Neg {
    pub fn new(child: Expr, s: usize, e: usize) -> (r: Expr)
        requires
            s <= e,
        ensures
            *r == (Node::Neg(Neg { child, pos: pos_at(s, e) })),
    {
        Box::new(Node::Neg(Neg { child, pos: mk_pos(s, e) }))
    }
}

impl Add {
    pub fn new(lhs: Expr, rhs: Expr, s: usize, e: usize) -> (r: Expr)
        requires
            s <= e,
        ensures
            *r == (Node::Add(Add { lhs, rhs, pos: pos_at(s, e) })),
    {
        Box::new(Node::Add(Add { lhs, rhs, pos: mk_pos(s, e) }))
    }
}

impl Sub {
    pub fn new(lhs: Expr, rhs: Expr, s: usize, e: usize) -> (r: Expr)
        requires
            s <= e,
        ensures
            *r == (Node::Sub(Sub { lhs, rhs, pos: pos_at(s, e) })),
    {
        Box::new(Node::Sub(Sub { lhs, rhs, pos: mk_pos(s, e) }))
    }
}

impl FNeg {
    pub fn new(child: Expr, s: usize, e: usize) -> (r: Expr)
        requires
            s <= e,
        ensures
            *r == (Node::FNeg(FNeg { child, pos: pos_at(s, e) })),
    {
        Box::new(Node::FNeg(FNeg { child, pos: mk_pos(s, e) }))
    }
}

impl FAdd {
    pub fn new(lhs: Expr, rhs: Expr, s: usize, e: usize) -> (r: Expr)
        requires
            s <= e,
        ensures
            *r == (Node::FAdd(FAdd { lhs, rhs, pos: pos_at(s, e) })),
    {
        Box::new(Node::FAdd(FAdd { lhs, rhs, pos: mk_pos(s, e) }))
    }
}

impl FSub {
    pub fn new(lhs: Expr, rhs: Expr, s: usize, e: usize) -> (r: Expr)
        requires
            s <= e,
        ensures
            *r == (Node::FSub(FSub { lhs, rhs, pos: pos_at(s, e) })),
    {
        Box::new(Node::FSub(FSub { lhs, rhs, pos: mk_pos(s, e) }))
    }
}

impl FMul {
    pub fn new(lhs: Expr, rhs: Expr, s: usize, e: usize) -> (r: Expr)
        requires
            s <= e,
        ensures
            *r == (Node::FMul(FMul { lhs, rhs, pos: pos_at(s, e) })),
    {
        Box::new(Node::FMul(FMul { lhs, rhs, pos: mk_pos(s, e) }))
    }
}

impl FDiv {
    pub fn new(lhs: Expr, rhs: Expr, s: usize, e: usize) -> (r: Expr)
        requires
            s <= e,
        ensures
            *r == (Node::FDiv(FDiv { lhs, rhs, pos: pos_at(s, e) })),
    {
        Box::new(Node::FDiv(FDiv { lhs, rhs, pos: mk_pos(s, e) }))
    }
}

impl Eq {
    pub fn new(lhs: Expr, rhs: Expr, s: usize, e: usize) -> (r: Expr)
        requires
            s <= e,
        ensures
            *r == (Node::Eq(Eq { lhs, rhs, pos: pos_at(s, e) })),
    {
        Box::new(Node::Eq(Eq { lhs, rhs, pos: mk_pos(s, e) }))
    }
}

impl LessEq {
    pub fn new(lhs: Expr, rhs: Expr, s: usize, e: usize) -> (r: Expr)
        requires
            s <= e,
        ensures
            *r == (Node::LessEq(LessEq { lhs, rhs, pos: pos_at(s, e) })),
    {
        Box::new(Node::LessEq(LessEq { lhs, rhs, pos: mk_pos(s, e) }))
    }
}

impl If {
    pub fn new(cond: Expr, then_: Expr, else_: Expr, s: usize, e: usize) -> (r: Expr)
        requires
            s <= e,
        ensures
            *r == (Node::If(If { cond, then_, else_, pos: pos_at(s, e) })),
    {
        Box::new(Node::If(If { cond, then_, else_, pos: mk_pos(s, e) }))
    }
}

impl Let {
    pub fn new(name: String, bound: Expr, body: Expr, s: usize, e: usize) -> (r: Expr)
        requires
            s <= e,
        ensures
            *r == (Node::Let(Let { name, bound, body, pos: pos_at(s, e) })),
    {
        Box::new(Node::Let(Let { name, bound, body, pos: mk_pos(s, e) }))
    }
}

impl Var {
    pub fn new(name: String, s: usize, e: usize) -> (r: Expr)
        requires
            s <= e,
        ensures
            *r == (Node::Var(Var { name, pos: pos_at(s, e) })),
    {
        Box::new(Node::Var(Var { name, pos: mk_pos(s, e) }))
    }
}

impl LetRec {
    pub fn new(name: String, params: Vec<String>, bound: Expr, body: Expr, s: usize, e: usize) -> (r: Expr)
        requires
            s <= e,
        ensures
            *r == (Node::LetRec(LetRec { name, params, bound, body, pos: pos_at(s, e) })),
    {
        Box::new(Node::LetRec(LetRec { name, params, bound, body, pos: mk_pos(s, e) }))
    }
}

impl Apply {
    pub fn new(callee: Expr, args: Vec<Expr>, s: usize, e: usize) -> (r: Expr)
        requires
            s <= e,
        ensures
            *r == (Node::Apply(Apply { callee, args, pos: pos_at(s, e) })),
    {
        Box::new(Node::Apply(Apply { callee, args, pos: mk_pos(s, e) }))
    }
}

impl Tuple {
    pub fn new(elements: Vec<Expr>, s: usize, e: usize) -> (r: Expr)
        requires
            s <= e,
        ensures
            *r == (Node::Tuple(Tuple { elements, pos: pos_at(s, e) })),
    {
        Box::new(Node::Tuple(Tuple { elements, pos: mk_pos(s, e) }))
    }
}

impl LetTuple {
    pub fn new(names: Vec<String>, bound: Expr, body: Expr, s: usize, e: usize) -> (r: Expr)
        requires
            s <= e,
        ensures
            *r == (Node::LetTuple(LetTuple { names, bound, body, pos: pos_at(s, e) })),
    {
        Box::new(Node::LetTuple(LetTuple { names, bound, body, pos: mk_pos(s, e) }))
    }
}

impl Array {
    pub fn new(size: Expr, elem: Expr, s: usize, e: usize) -> (r: Expr)
        requires
            s <= e,
        ensures
            *r == (Node::Array(Array { size, elem, pos: pos_at(s, e) })),
    {
        Box::new(Node::Array(Array { size, elem, pos: mk_pos(s, e) }))
    }
}

impl Get {
    pub fn new(array: Expr, index: Expr, s: usize, e: usize) -> (r: Expr)
        requires
            s <= e,
        ensures
            *r == (Node::Get(Get { array, index, pos: pos_at(s, e) })),
    {
        Box::new(Node::Get(Get { array, index, pos: mk_pos(s, e) }))
    }
}

impl Put {
    pub fn new(array: Expr, index: Expr, new_value: Expr, s: usize, e: usize) -> (r: Expr)
        requires
            s <= e,
        ensures
            *r == (Node::Put(Put { array, index, new_value, pos: pos_at(s, e) })),
    {
        Box::new(Node::Put(Put { array, index, new_value, pos: mk_pos(s, e) }))
    }
}

/// Generic enumeration of a node's immediate children, total for every
/// variant: tree walks need not match on each variant themselves.
pub trait ChildrenGettable {
    /// The children the exec method returns, in evaluation order.
    spec fn children_spec(&self) -> Seq<Node>;

    fn children<'a>(&'a self) -> (r: Vec<&'a Node>)
        ensures
            r@.len() == self.children_spec().len(),
            forall|i: int| 0 <= i < r@.len() ==> *r@[i] == self.children_spec()[i],
    ;
}

/// Appends a reference to each element of `args`, in order.
fn push_all<'a>(v: &mut Vec<&'a Node>, args: &'a Vec<Expr>)
    ensures
        final(v)@.len() == old(v)@.len() + args@.len(),
        forall|i: int| 0 <= i < old(v)@.len() ==> final(v)@[i] == old(v)@[i],
        forall|i: int| 0 <= i < args@.len() ==> *final(v)@[old(v)@.len() + i] == *args@[i],
{
    let mut j: usize = 0;
    while j < args.len()
        invariant
            j <= args@.len(),
            v@.len() == old(v)@.len() + j,
            forall|i: int| 0 <= i < old(v)@.len() ==> v@[i] == old(v)@[i],
            forall|i: int| 0 <= i < j ==> *v@[old(v)@.len() + i] == *args@[i],
        decreases args@.len() - j,
    {
        v.push(&args[j]);
        j = j + 1;
    }
}

impl ChildrenGettable for Unit {
    open spec fn children_spec(&self) -> Seq<Node> {
        seq![]
    }

    fn children<'a>(&'a self) -> (r: Vec<&'a Node>) {
        Vec::new()
    }
}

impl ChildrenGettable for Bool {
    open spec fn children_spec(&self) -> Seq<Node> {
        seq![]
    }

    fn children<'a>(&'a self) -> (r: Vec<&'a Node>) {
        Vec::new()
    }
}

impl ChildrenGettable for Int {
    open spec fn children_spec(&self) -> Seq<Node> {
        seq![]
    }

    fn children<'a>(&'a self) -> (r: Vec<&'a Node>) {
        Vec::new()
    }
}

impl ChildrenGettable for Float {
    open spec fn children_spec(&self) -> Seq<Node> {
        seq![]
    }

    fn children<'a>(&'a self) -> (r: Vec<&'a Node>) {
        Vec::new()
    }
}

impl ChildrenGettable for Not {
    open spec fn children_spec(&self) -> Seq<Node> {
        seq![*self.child]
    }

    fn children<'a>(&'a self) -> (r: Vec<&'a Node>) {
        let mut v: Vec<&'a Node> = Vec::new();
        v.push(&self.child);
        v
    }
}

impl ChildrenGettable for Neg {
    open spec fn children_spec(&self) -> Seq<Node> {
        seq![*self.child]
    }

    fn children<'a>(&'a self) -> (r: Vec<&'a Node>) {
        let mut v: Vec<&'a Node> = Vec::new();
        v.push(&self.child);
        v
    }
}

impl ChildrenGettable for Add {
    open spec fn children_spec(&self) -> Seq<Node> {
        seq![*self.lhs, *self.rhs]
    }

    fn children<'a>(&'a self) -> (r: Vec<&'a Node>) {
        let mut v: Vec<&'a Node> = Vec::new();
        v.push(&self.lhs);
        v.push(&self.rhs);
        v
    }
}

impl ChildrenGettable for Sub {
    open spec fn children_spec(&self) -> Seq<Node> {
        seq![*self.lhs, *self.rhs]
    }

    fn children<'a>(&'a self) -> (r: Vec<&'a Node>) {
        let mut v: Vec<&'a Node> = Vec::new();
        v.push(&self.lhs);
        v.push(&self.rhs);
        v
    }
}

impl ChildrenGettable for FNeg {
    open spec fn children_spec(&self) -> Seq<Node> {
        seq![*self.child]
    }

    fn children<'a>(&'a self) -> (r: Vec<&'a Node>) {
        let mut v: Vec<&'a Node> = Vec::new();
        v.push(&self.child);
        v
    }
}

impl ChildrenGettable for FAdd {
    open spec fn children_spec(&self) -> Seq<Node> {
        seq![*self.lhs, *self.rhs]
    }

    fn children<'a>(&'a self) -> (r: Vec<&'a Node>) {
        let mut v: Vec<&'a Node> = Vec::new();
        v.push(&self.lhs);
        v.push(&self.rhs);
        v
    }
}

impl ChildrenGettable for FSub {
    open spec fn children_spec(&self) -> Seq<Node> {
        seq![*self.lhs, *self.rhs]
    }

    fn children<'a>(&'a self) -> (r: Vec<&'a Node>) {
        let mut v: Vec<&'a Node> = Vec::new();
        v.push(&self.lhs);
        v.push(&self.rhs);
        v
    }
}

impl ChildrenGettable for FMul {
    open spec fn children_spec(&self) -> Seq<Node> {
        seq![*self.lhs, *self.rhs]
    }

    fn children<'a>(&'a self) -> (r: Vec<&'a Node>) {
        let mut v: Vec<&'a Node> = Vec::new();
        v.push(&self.lhs);
        v.push(&self.rhs);
        v
    }
}

impl ChildrenGettable for FDiv {
    open spec fn children_spec(&self) -> Seq<Node> {
        seq![*self.lhs, *self.rhs]
    }

    fn children<'a>(&'a self) -> (r: Vec<&'a Node>) {
        let mut v: Vec<&'a Node> = Vec::new();
        v.push(&self.lhs);
        v.push(&self.rhs);
        v
    }
}

impl ChildrenGettable for Eq {
    open spec fn children_spec(&self) -> Seq<Node> {
        seq![*self.lhs, *self.rhs]
    }

    fn children<'a>(&'a self) -> (r: Vec<&'a Node>) {
        let mut v: Vec<&'a Node> = Vec::new();
        v.push(&self.lhs);
        v.push(&self.rhs);
        v
    }
}

impl ChildrenGettable for LessEq {
    open spec fn children_spec(&self) -> Seq<Node> {
        seq![*self.lhs, *self.rhs]
    }

    fn children<'a>(&'a self) -> (r: Vec<&'a Node>) {
        let mut v: Vec<&'a Node> = Vec::new();
        v.push(&self.lhs);
        v.push(&self.rhs);
        v
    }
}

impl ChildrenGettable for If {
    open spec fn children_spec(&self) -> Seq<Node> {
        seq![*self.cond, *self.then_, *self.else_]
    }

    fn children<'a>(&'a self) -> (r: Vec<&'a Node>) {
        let mut v: Vec<&'a Node> = Vec::new();
        v.push(&self.cond);
        v.push(&self.then_);
        v.push(&self.else_);
        v
    }
}

impl ChildrenGettable for Let {
    open spec fn children_spec(&self) -> Seq<Node> {
        seq![*self.bound, *self.body]
    }

    fn children<'a>(&'a self) -> (r: Vec<&'a Node>) {
        let mut v: Vec<&'a Node> = Vec::new();
        v.push(&self.bound);
        v.push(&self.body);
        v
    }
}

impl ChildrenGettable for Var {
    open spec fn children_spec(&self) -> Seq<Node> {
        seq![]
    }

    fn children<'a>(&'a self) -> (r: Vec<&'a Node>) {
        Vec::new()
    }
}

impl ChildrenGettable for LetRec {
    open spec fn children_spec(&self) -> Seq<Node> {
        seq![*self.bound, *self.body]
    }

    fn children<'a>(&'a self) -> (r: Vec<&'a Node>) {
        let mut v: Vec<&'a Node> = Vec::new();
        v.push(&self.bound);
        v.push(&self.body);
        v
    }
}

impl ChildrenGettable for Apply {
    open spec fn children_spec(&self) -> Seq<Node> {
        seq![*self.callee] + self.args@.map_values(|e: Expr| *e)
    }

    fn children<'a>(&'a self) -> (r: Vec<&'a Node>) {
        let mut v: Vec<&'a Node> = Vec::new();
        v.push(&self.callee);
        push_all(&mut v, &self.args);
        v
    }
}

impl ChildrenGettable for Tuple {
    open spec fn children_spec(&self) -> Seq<Node> {
        self.elements@.map_values(|e: Expr| *e)
    }

    fn children<'a>(&'a self) -> (r: Vec<&'a Node>) {
        let mut v: Vec<&'a Node> = Vec::new();
        push_all(&mut v, &self.elements);
        v
    }
}

impl ChildrenGettable for LetTuple {
    open spec fn children_spec(&self) -> Seq<Node> {
        seq![*self.bound, *self.body]
    }

    fn children<'a>(&'a self) -> (r: Vec<&'a Node>) {
        let mut v: Vec<&'a Node> = Vec::new();
        v.push(&self.bound);
        v.push(&self.body);
        v
    }
}

impl ChildrenGettable for Array {
    open spec fn children_spec(&self) -> Seq<Node> {
        seq![*self.size, *self.elem]
    }

    fn children<'a>(&'a self) -> (r: Vec<&'a Node>) {
        let mut v: Vec<&'a Node> = Vec::new();
        v.push(&self.size);
        v.push(&self.elem);
        v
    }
}

impl ChildrenGettable for Get {
    open spec fn children_spec(&self) -> Seq<Node> {
        seq![*self.array, *self.index]
    }

    fn children<'a>(&'a self) -> (r: Vec<&'a Node>) {
        let mut v: Vec<&'a Node> = Vec::new();
        v.push(&self.array);
        v.push(&self.index);
        v
    }
}

impl ChildrenGettable for Put {
    open spec fn children_spec(&self) -> Seq<Node> {
        seq![*self.array, *self.index, *self.new_value]
    }

    fn children<'a>(&'a self) -> (r: Vec<&'a Node>) {
        let mut v: Vec<&'a Node> = Vec::new();
        v.push(&self.array);
        v.push(&self.index);
        v.push(&self.new_value);
        v
    }
}

} // verus!
