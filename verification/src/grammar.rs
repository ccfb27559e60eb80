//! The concrete grammar: a recursive-descent parser over the source
//! bytes, building the AST bottom-up. Precedence and associativity are
//! encoded in the rule hierarchy (ordered choice, loosest binding first:
//! binding forms, conditionals, array stores, comparisons, additive and
//! multiplicative operators, unary operators, application, atoms). The
//! first rule mismatch fails the parse with the offending byte offset and
//! the set of categories that were expected there.

use vstd::prelude::*;

use crate::ast::node_wf;
use crate::ast::pos_at;
use crate::ast::{Add, Apply, Array, Bool, Expr, FAdd, FDiv, FMul, FNeg, FSub, Float};
use crate::ast::{Get, If, Int, LessEq, Let, LetRec, LetTuple, Neg, Node, Not};
use crate::ast::{Put, Sub, Tuple, Unit, Var};

verus! {

/// Space, tab, newline or carriage return.
pub open spec fn is_ws(b: u8) -> bool {
    b == 32 || b == 9 || b == 10 || b == 13
}

/// ASCII decimal digit.
pub open spec fn is_digit(b: u8) -> bool {
    48 <= b <= 57
}

/// First byte of an identifier: a lower-case letter or an underscore.
pub open spec fn is_ident_start(b: u8) -> bool {
    (97 <= b <= 122) || b == 95
}

/// Later byte of an identifier: a letter, digit or underscore.
pub open spec fn is_ident_char(b: u8) -> bool {
    (97 <= b <= 122) || (65 <= b <= 90) || (48 <= b <= 57) || b == 95
}

/// First offset at or after `pos` that does not hold whitespace.
pub open spec fn spec_skip_ws(s: Seq<u8>, pos: int) -> int
    decreases s.len() - pos,
{
    if pos < 0 || pos >= s.len() {
        pos
    } else if is_ws(s[pos]) {
        spec_skip_ws(s, pos + 1)
    } else {
        pos
    }
}

/// End of the run of identifier bytes starting at `pos`.
pub open spec fn spec_ident_end(s: Seq<u8>, pos: int) -> int
    decreases s.len() - pos,
{
    if pos < 0 || pos >= s.len() {
        pos
    } else if is_ident_char(s[pos]) {
        spec_ident_end(s, pos + 1)
    } else {
        pos
    }
}

/// End of the run of digit bytes starting at `pos`.
pub open spec fn spec_digits_end(s: Seq<u8>, pos: int) -> int
    decreases s.len() - pos,
{
    if pos < 0 || pos >= s.len() {
        pos
    } else if is_digit(s[pos]) {
        spec_digits_end(s, pos + 1)
    } else {
        pos
    }
}

fn skip_ws(s: &[u8], pos: usize) -> (r: usize)
    requires
        pos <= s@.len(),
    ensures
        r == spec_skip_ws(s@, pos as int),
        pos <= r <= s@.len(),
        r == s@.len() || !is_ws(s@[r as int]),
{
    let mut i: usize = pos;
    while i < s.len() && (s[i] == 32 || s[i] == 9 || s[i] == 10 || s[i] == 13)
        invariant
            pos <= i <= s@.len(),
            spec_skip_ws(s@, pos as int) == spec_skip_ws(s@, i as int),
        decreases s@.len() - i,
    {
        i = i + 1;
    }
    i
}

fn ident_end(s: &[u8], pos: usize) -> (r: usize)
    requires
        pos <= s@.len(),
    ensures
        r == spec_ident_end(s@, pos as int),
        pos <= r <= s@.len(),
        r == s@.len() || !is_ident_char(s@[r as int]),
        forall|k: int| pos <= k < r ==> is_ident_char(s@[k]),
{
    let mut i: usize = pos;
    while i < s.len() && ((97 <= s[i] && s[i] <= 122) || (65 <= s[i] && s[i] <= 90) || (48 <= s[i]
        && s[i] <= 57) || s[i] == 95)
        invariant
            pos <= i <= s@.len(),
            spec_ident_end(s@, pos as int) == spec_ident_end(s@, i as int),
            forall|k: int| pos <= k < i ==> is_ident_char(s@[k]),
        decreases s@.len() - i,
    {
        i = i + 1;
    }
    i
}

fn digits_end(s: &[u8], pos: usize) -> (r: usize)
    requires
        pos <= s@.len(),
    ensures
        r == spec_digits_end(s@, pos as int),
        pos <= r <= s@.len(),
        r == s@.len() || !is_digit(s@[r as int]),
        forall|k: int| pos <= k < r ==> is_digit(s@[k]),
{
    let mut i: usize = pos;
    while i < s.len() && 48 <= s[i] && s[i] <= 57
        invariant
            pos <= i <= s@.len(),
            spec_digits_end(s@, pos as int) == spec_digits_end(s@, i as int),
            forall|k: int| pos <= k < i ==> is_digit(s@[k]),
        decreases s@.len() - i,
    {
        i = i + 1;
    }
    i
}

/// The characters of the ASCII byte range `[lo, hi)` of `s`.
pub open spec fn chars_of(s: Seq<u8>, lo: int, hi: int) -> Seq<char> {
    Seq::new((hi - lo) as nat, |i: int| s[lo + i] as char)
}

/// Relies on String::push: appends exactly the one character.
#[verifier::external_body]
fn push_char(s: &mut String, c: char)
    ensures
        final(s)@ == old(s)@.push(c),
{
    s.push(c);
}

/// Builds the string held by the ASCII byte range `[lo, hi)` of `s`.
fn range_string(s: &[u8], lo: usize, hi: usize) -> (r: String)
    requires
        lo <= hi <= s@.len(),
        forall|i: int| lo <= i < hi ==> s@[i] < 128,
    ensures
        r@ == chars_of(s@, lo as int, hi as int),
{
    let mut r = String::new();
    let mut i: usize = lo;
    while i < hi
        invariant
            lo <= i <= hi <= s@.len(),
            forall|j: int| lo <= j < hi ==> s@[j] < 128,
            r@ == chars_of(s@, lo as int, i as int),
        decreases hi - i,
    {
        let b = s[i];
        push_char(&mut r, b as char);
        i = i + 1;
        proof {
            assert(r@ =~= chars_of(s@, lo as int, i as int));
        }
    }
    r
}

/// The word `let`.
pub open spec fn kw_let(s: Seq<u8>, lo: int, hi: int) -> bool {
    hi - lo == 3 && s[lo] == 108 && s[lo + 1] == 101 && s[lo + 2] == 116
}

/// The word `rec`.
pub open spec fn kw_rec(s: Seq<u8>, lo: int, hi: int) -> bool {
    hi - lo == 3 && s[lo] == 114 && s[lo + 1] == 101 && s[lo + 2] == 99
}

/// The word `in`.
pub open spec fn kw_in(s: Seq<u8>, lo: int, hi: int) -> bool {
    hi - lo == 2 && s[lo] == 105 && s[lo + 1] == 110
}

/// The word `if`.
pub open spec fn kw_if(s: Seq<u8>, lo: int, hi: int) -> bool {
    hi - lo == 2 && s[lo] == 105 && s[lo + 1] == 102
}

/// The word that introduces the first branch of a conditional.
pub open spec fn kw_thn(s: Seq<u8>, lo: int, hi: int) -> bool {
    hi - lo == 4 && s[lo] == 116 && s[lo + 1] == 104 && s[lo + 2] == 101 && s[lo + 3] == 110
}

/// The word `else`.
pub open spec fn kw_else(s: Seq<u8>, lo: int, hi: int) -> bool {
    hi - lo == 4 && s[lo] == 101 && s[lo + 1] == 108 && s[lo + 2] == 115 && s[lo + 3] == 101
}

/// The word `not`.
pub open spec fn kw_not(s: Seq<u8>, lo: int, hi: int) -> bool {
    hi - lo == 3 && s[lo] == 110 && s[lo + 1] == 111 && s[lo + 2] == 116
}

/// The word `true`.
pub open spec fn kw_true(s: Seq<u8>, lo: int, hi: int) -> bool {
    hi - lo == 4 && s[lo] == 116 && s[lo + 1] == 114 && s[lo + 2] == 117 && s[lo + 3] == 101
}

/// The word `false`.
pub open spec fn kw_false(s: Seq<u8>, lo: int, hi: int) -> bool {
    hi - lo == 5 && s[lo] == 102 && s[lo + 1] == 97 && s[lo + 2] == 108 && s[lo + 3] == 115 && s[lo
        + 4] == 101
}

/// A reserved word: none of these can be an identifier.
pub open spec fn spec_reserved(s: Seq<u8>, lo: int, hi: int) -> bool {
    kw_let(s, lo, hi) || kw_rec(s, lo, hi) || kw_in(s, lo, hi) || kw_if(s, lo, hi) || kw_thn(
        s,
        lo,
        hi,
    ) || kw_else(s, lo, hi) || kw_not(s, lo, hi) || kw_true(s, lo, hi) || kw_false(s, lo, hi)
}

fn reserved(s: &[u8], lo: usize, hi: usize) -> (b: bool)
    requires
        lo <= hi <= s@.len(),
    ensures
        b == spec_reserved(s@, lo as int, hi as int),
{
    let n = hi - lo;
    if n == 2 {
        (s[lo] == 105 && s[lo + 1] == 110) || (s[lo] == 105 && s[lo + 1] == 102)
    } else if n == 3 {
        (s[lo] == 108 && s[lo + 1] == 101 && s[lo + 2] == 116) || (s[lo] == 114 && s[lo + 1] == 101
            && s[lo + 2] == 99) || (s[lo] == 110 && s[lo + 1] == 111 && s[lo + 2] == 116)
    } else if n == 4 {
        (s[lo] == 116 && s[lo + 1] == 104 && s[lo + 2] == 101 && s[lo + 3] == 110) || (s[lo] == 101
            && s[lo + 1] == 108 && s[lo + 2] == 115 && s[lo + 3] == 101) || (s[lo] == 116 && s[lo
            + 1] == 114 && s[lo + 2] == 117 && s[lo + 3] == 101)
    } else if n == 5 {
        s[lo] == 102 && s[lo + 1] == 97 && s[lo + 2] == 108 && s[lo + 3] == 115 && s[lo + 4] == 101
    } else {
        false
    }
}

/// An identifier (not a reserved word) starts at `i`.
pub open spec fn spec_ident_at(s: Seq<u8>, i: int) -> bool {
    0 <= i < s.len() && is_ident_start(s[i]) && !spec_reserved(s, i, spec_ident_end(s, i))
}

/// If an identifier starts at `i` (after no further whitespace), its end.
fn ident_at(s: &[u8], i: usize) -> (r: Option<usize>)
    requires
        i <= s@.len(),
    ensures
        match r {
            Some(j) => {
                &&& spec_ident_at(s@, i as int)
                &&& j == spec_ident_end(s@, i as int)
                &&& i < j <= s@.len()
                &&& forall|k: int| i <= k < j ==> is_ident_char(s@[k])
            },
            None => !spec_ident_at(s@, i as int),
        },
{
    if i < s.len() && ((97 <= s[i] && s[i] <= 122) || s[i] == 95) {
        let j = ident_end(s, i);
        if reserved(s, i, j) {
            None
        } else {
            Some(j)
        }
    } else {
        None
    }
}

/// A parse failure: the offending byte offset and the categories that
/// would have been accepted there.
pub struct Fail {
    pub offset: usize,
    pub expected: Vec<String>,
}

/// What every rule guarantees of a failure: the offset lies at or after
/// the position the rule started from, within the input, and at least one
/// expected category is named.
pub open spec fn fail_ok(s: Seq<u8>, pos: int, f: Fail) -> bool {
    pos <= f.offset <= s.len() && f.expected@.len() > 0
}

/// What every rule guarantees of a success: a well-formed tree whose span
/// begins at the first non-whitespace byte at or after the position the
/// rule started from, is non-empty, and ends exactly where parsing
/// resumed.
pub open spec fn step_ok(s: Seq<u8>, pos: int, e: Node, np: int) -> bool {
    &&& node_wf(e)
    &&& pos <= e.pos().start_byte_index
    &&& e.pos().start_byte_index == spec_skip_ws(s, pos)
    &&& e.pos().start_byte_index < e.pos().end_byte_index
    &&& np == e.pos().end_byte_index
    &&& np <= s.len()
}

/// The contract every expression rule meets.
pub open spec fn parse_res_ok(s: Seq<u8>, pos: int, r: Result<(Expr, usize), Fail>) -> bool {
    match r {
        Result::Ok((e, np)) => step_ok(s, pos, *e, np as int),
        Result::Err(f) => fail_ok(s, pos, f),
    }
}

fn fail1(offset: usize, lab: &str) -> (f: Fail)
    ensures
        f.offset == offset,
        f.expected@.len() == 1,
        f.expected@.map_values(|x: String| x@) == seq![lab@],
{
    let mut expected: Vec<String> = Vec::new();
    expected.push(lab.to_owned());
    proof {
        assert(expected@.map_values(|x: String| x@) =~= seq![lab@]);
    }
    Fail { offset, expected }
}

fn fail2(offset: usize, lab1: &str, lab2: &str) -> (f: Fail)
    ensures
        f.offset == offset,
        f.expected@.len() == 2,
        f.expected@.map_values(|x: String| x@) == seq![lab1@, lab2@],
{
    let mut expected: Vec<String> = Vec::new();
    expected.push(lab1.to_owned());
    expected.push(lab2.to_owned());
    proof {
        assert(expected@.map_values(|x: String| x@) =~= seq![lab1@, lab2@]);
    }
    Fail { offset, expected }
}


/// The categories that can begin an expression, as a failure names them.
pub open spec fn expr_start_labels() -> Seq<Seq<char>> {
    seq![
        "integer literal"@,
        "float literal"@,
        "boolean literal"@,
        "identifier"@,
        "("@,
        "if"@,
        "let"@,
        "not"@,
        "-"@,
        "-."@,
        "Array.create"@,
    ]
}

/// The categories that can begin an expression.
fn fail_expr_start(offset: usize) -> (f: Fail)
    ensures
        f.offset == offset,
        f.expected@.len() > 0,
        f.expected@.map_values(|x: String| x@) == expr_start_labels(),
{
    let mut expected: Vec<String> = Vec::new();
    expected.push("integer literal".to_owned());
    expected.push("float literal".to_owned());
    expected.push("boolean literal".to_owned());
    expected.push("identifier".to_owned());
    expected.push("(".to_owned());
    expected.push("if".to_owned());
    expected.push("let".to_owned());
    expected.push("not".to_owned());
    expected.push("-".to_owned());
    expected.push("-.".to_owned());
    expected.push("Array.create".to_owned());
    proof {
        assert(expected@.map_values(|x: String| x@) =~= expr_start_labels());
    }
    Fail { offset, expected }
}

/// Decimal value of the digit run `[lo, hi)`.
pub open spec fn digits_val(s: Seq<u8>, lo: int, hi: int) -> int
    decreases hi - lo,
{
    if hi <= lo {
        0
    } else {
        digits_val(s, lo, hi - 1) * 10 + (s[hi - 1] - 48)
    }
}

/// The numeric literal at `pos` carries a leading minus sign.
pub open spec fn num_neg(s: Seq<u8>, pos: int) -> bool {
    s[pos] == 45
}

/// Offset of the literal's first digit.
pub open spec fn num_d0(s: Seq<u8>, pos: int) -> int {
    if num_neg(s, pos) {
        pos + 1
    } else {
        pos
    }
}

/// End of the literal's integer digit run.
pub open spec fn num_dend(s: Seq<u8>, pos: int) -> int {
    spec_digits_end(s, num_d0(s, pos))
}

/// The literal continues with a decimal point and a fraction digit, and
/// so is a float literal.
pub open spec fn num_is_float(s: Seq<u8>, pos: int) -> bool {
    num_dend(s, pos) + 1 < s.len() && s[num_dend(s, pos)] == 46 && is_digit(
        s[num_dend(s, pos) + 1],
    )
}

/// End of the float literal's fraction digit run.
pub open spec fn num_fend(s: Seq<u8>, pos: int) -> int {
    spec_digits_end(s, num_dend(s, pos) + 1)
}

/// End of the numeric literal at `pos`.
pub open spec fn num_end(s: Seq<u8>, pos: int) -> int {
    if num_is_float(s, pos) {
        num_fend(s, pos)
    } else {
        num_dend(s, pos)
    }
}

/// Signed value of the integer literal at `pos`.
pub open spec fn num_val(s: Seq<u8>, pos: int) -> int {
    if num_neg(s, pos) {
        -digits_val(s, pos + 1, num_dend(s, pos))
    } else {
        digits_val(s, pos, num_dend(s, pos))
    }
}






/// A `.(` subscript opener stands at `k`.
pub open spec fn dotparen_at(s: Seq<u8>, k: int) -> bool {
    k + 1 < s.len() && s[k] == 46 && s[k + 1] == 40
}

/// A multiplicative operator `*.` or `/.` begins at `k`.
pub open spec fn mulop_at(s: Seq<u8>, k: int) -> bool {
    k + 1 < s.len() && (s[k] == 42 || s[k] == 47) && s[k + 1] == 46
}

/// An additive operator begins at `k`.
pub open spec fn addop_at(s: Seq<u8>, k: int) -> bool {
    k < s.len() && (s[k] == 43 || s[k] == 45)
}

/// A comparison operator begins at `k`.
pub open spec fn cmpop_at(s: Seq<u8>, k: int) -> bool {
    (k < s.len() && s[k] == 61) || (k + 1 < s.len() && s[k] == 60 && s[k + 1] == 61)
}

/// The store arrow `<-` begins at `k`.
pub open spec fn arrow_at(s: Seq<u8>, k: int) -> bool {
    k + 1 < s.len() && s[k] == 60 && s[k + 1] == 45
}

/// Nothing that continues an atom begins at `k`: no subscript and no
/// further atom for an application to swallow.
pub open spec fn ends_app(s: Seq<u8>, k: int) -> bool {
    !dotparen_at(s, k) && !atom_starts(s, k)
}

/// `ends_app`, and no multiplicative operator.
pub open spec fn ends_factor(s: Seq<u8>, k: int) -> bool {
    ends_app(s, k) && !mulop_at(s, k)
}

/// `ends_factor`, and no additive operator.
pub open spec fn ends_term(s: Seq<u8>, k: int) -> bool {
    ends_factor(s, k) && !addop_at(s, k)
}

/// `ends_term`, and no comparison operator.
pub open spec fn ends_cmp(s: Seq<u8>, k: int) -> bool {
    ends_term(s, k) && !cmpop_at(s, k)
}

/// Nothing that continues any expression tier begins at `k`.
pub open spec fn ends_expr(s: Seq<u8>, k: int) -> bool {
    ends_cmp(s, k) && !arrow_at(s, k)
}

/// The integer literal at `i`, where it is one, has a representable
/// value.
pub open spec fn num_ok(s: Seq<u8>, i: int) -> bool {
    num_is_float(s, i) || (i32::MIN <= num_val(s, i) <= i32::MAX)
}

/// An atomic token begins exactly at `i`: a numeric literal (with a
/// leading minus folded in), a boolean literal, or an identifier.
pub open spec fn token_at(s: Seq<u8>, i: int) -> bool {
    0 <= i < s.len() && ((is_digit(s[i]) && num_ok(s, i)) || (s[i] == 45 && i + 1 < s.len()
        && is_digit(s[i + 1]) && num_ok(s, i)) || kw_true(s, i, spec_ident_end(s, i)) || kw_false(
        s,
        i,
        spec_ident_end(s, i),
    ) || spec_ident_at(s, i))
}

/// An atomic token that does not begin with a minus sign.
pub open spec fn prim_token_at(s: Seq<u8>, i: int) -> bool {
    token_at(s, i) && s[i] != 45
}

/// End of the token beginning at `i`.
pub open spec fn token_end(s: Seq<u8>, i: int) -> int {
    if is_digit(s[i]) || s[i] == 45 {
        num_end(s, i)
    } else {
        spec_ident_end(s, i)
    }
}

/// `n` is exactly the node the token at `i` denotes — the matching
/// variant, its exact payload, and the token's byte range — leaving only
/// the derived line and column open.
pub open spec fn token_matches(s: Seq<u8>, i: int, n: Node) -> bool {
    &&& n.pos().start_byte_index == i
    &&& n.pos().end_byte_index == token_end(s, i)
    &&& if is_digit(s[i]) || s[i] == 45 {
        if num_is_float(s, i) {
            match n {
                Node::Float(x) => x.text@ == chars_of(s, i, num_fend(s, i)),
                _ => false,
            }
        } else {
            match n {
                Node::Int(x) => x.value == num_val(s, i),
                _ => false,
            }
        }
    } else if kw_true(s, i, spec_ident_end(s, i)) {
        match n {
            Node::Bool(x) => x.value == true,
            _ => false,
        }
    } else if kw_false(s, i, spec_ident_end(s, i)) {
        match n {
            Node::Bool(x) => x.value == false,
            _ => false,
        }
    } else {
        match n {
            Node::Var(x) => x.name@ == chars_of(s, i, spec_ident_end(s, i)),
            _ => false,
        }
    }
}

/// The rule returned exactly the token's node, resuming at its end.
pub open spec fn gives_token(s: Seq<u8>, i: int, r: Result<(Expr, usize), Fail>) -> bool {
    match r {
        Result::Ok((e, np)) => np == token_end(s, i) && token_matches(s, i, *e),
        Result::Err(_) => false,
    }
}


/// A reserved word that cannot begin an expression stands at `k`: `in`,
/// `rec`, the branch keyword, or `else`.
pub open spec fn stuck_word_at(s: Seq<u8>, k: int) -> bool {
    0 <= k < s.len() && is_ident_start(s[k]) && (kw_in(s, k, spec_ident_end(s, k)) || kw_rec(
        s,
        k,
        spec_ident_end(s, k),
    ) || kw_thn(s, k, spec_ident_end(s, k)) || kw_else(s, k, spec_ident_end(s, k)))
}

/// The rule failed exactly at `k`, expecting the expression-start
/// categories.
pub open spec fn gives_expr_start_fail(s: Seq<u8>, k: int, r: Result<(Expr, usize), Fail>) -> bool {
    match r {
        Result::Ok(_) => false,
        Result::Err(f) => f.offset == k && f.expected@.map_values(|x: String| x@)
            == expr_start_labels(),
    }
}

/// The rule failed exactly at `k`, expecting the one category `lab`.
pub open spec fn gives_fail1(
    s: Seq<u8>,
    k: int,
    lab: Seq<char>,
    r: Result<(Expr, usize), Fail>,
) -> bool {
    match r {
        Result::Ok(_) => false,
        Result::Err(f) => f.offset == k && f.expected@.map_values(|x: String| x@) == seq![lab],
    }
}


/// A `let` binding whose bound expression is missing: `let`, a name,
/// `=`, and then a reserved word that cannot begin an expression.
pub open spec fn let_missing_bound(s: Seq<u8>, pos: int) -> bool {
    let i = spec_skip_ws(s, pos);
    let k = spec_skip_ws(s, spec_ident_end(s, i));
    let cur = spec_skip_ws(s, spec_ident_end(s, k));
    &&& 0 <= i < s.len()
    &&& kw_let(s, i, spec_ident_end(s, i))
    &&& spec_ident_at(s, k)
    &&& cur < s.len()
    &&& s[cur] == 61
    &&& stuck_word_at(s, spec_skip_ws(s, cur + 1))
}

/// The offset of the reserved word standing where the bound expression
/// should begin.
pub open spec fn missing_bound_at(s: Seq<u8>, pos: int) -> int {
    let i = spec_skip_ws(s, pos);
    let k = spec_skip_ws(s, spec_ident_end(s, i));
    let cur = spec_skip_ws(s, spec_ident_end(s, k));
    spec_skip_ws(s, cur + 1)
}

/// A `let rec` with a name but no parameter before `=`: rejected, it is
/// not a lambda degenerate case.
pub open spec fn letrec_no_params(s: Seq<u8>, pos: int) -> bool {
    let i = spec_skip_ws(s, pos);
    let k = spec_skip_ws(s, spec_ident_end(s, i));
    let m = spec_skip_ws(s, spec_ident_end(s, k));
    let cur = spec_skip_ws(s, spec_ident_end(s, m));
    &&& 0 <= i < s.len()
    &&& kw_let(s, i, spec_ident_end(s, i))
    &&& kw_rec(s, k, spec_ident_end(s, k))
    &&& spec_ident_at(s, m)
    &&& cur < s.len()
    &&& s[cur] == 61
}

/// Where `let rec` would reach `=` with no parameter, that offset.
pub open spec fn letrec_eq_at(s: Seq<u8>, pos: int) -> int {
    let i = spec_skip_ws(s, pos);
    let k = spec_skip_ws(s, spec_ident_end(s, i));
    let m = spec_skip_ws(s, spec_ident_end(s, k));
    spec_skip_ws(s, spec_ident_end(s, m))
}

/// A tuple binding closing after only one name: rejected, at least two
/// names are required.
pub open spec fn lettuple_one_name(s: Seq<u8>, pos: int) -> bool {
    let i = spec_skip_ws(s, pos);
    let k = spec_skip_ws(s, spec_ident_end(s, i));
    let m = spec_skip_ws(s, k + 1);
    let cur = spec_skip_ws(s, spec_ident_end(s, m));
    &&& 0 <= i < s.len()
    &&& kw_let(s, i, spec_ident_end(s, i))
    &&& k < s.len()
    &&& s[k] == 40
    &&& spec_ident_at(s, m)
    &&& cur < s.len()
    &&& s[cur] == 41
}

/// Where the tuple binding's lone name ends, before the `)`.
pub open spec fn lettuple_close_at(s: Seq<u8>, pos: int) -> int {
    let i = spec_skip_ws(s, pos);
    let k = spec_skip_ws(s, spec_ident_end(s, i));
    let m = spec_skip_ws(s, k + 1);
    spec_skip_ws(s, spec_ident_end(s, m))
}


/// Offset of the operator after the token beginning at `f`.
pub open spec fn tok_op_at(s: Seq<u8>, f: int) -> int {
    spec_skip_ws(s, token_end(s, f))
}

/// A factor begins at `f`: one token, or — where a `*.` or `/.` follows
/// it — exactly two tokens joined by that operator.
pub open spec fn factor_at(s: Seq<u8>, f: int) -> bool {
    token_at(s, f) && (mulop_at(s, tok_op_at(s, f)) ==> token_at(
        s,
        spec_skip_ws(s, tok_op_at(s, f) + 2),
    ))
}

/// End of the factor beginning at `f`.
pub open spec fn factor_end(s: Seq<u8>, f: int) -> int {
    if mulop_at(s, tok_op_at(s, f)) {
        token_end(s, spec_skip_ws(s, tok_op_at(s, f) + 2))
    } else {
        token_end(s, f)
    }
}

/// `n` is exactly the factor's node: the token's own node, or the
/// `FMul`/`FDiv` node matching the operator, holding the two tokens'
/// nodes, spanning the factor.
pub open spec fn factor_matches(s: Seq<u8>, f: int, n: Node) -> bool {
    if mulop_at(s, tok_op_at(s, f)) {
        let k = tok_op_at(s, f);
        let ri = spec_skip_ws(s, k + 2);
        &&& n.pos().start_byte_index == f
        &&& n.pos().end_byte_index == token_end(s, ri)
        &&& match n {
            Node::FMul(x) => s[k] == 42 && token_matches(s, f, *x.lhs) && token_matches(
                s,
                ri,
                *x.rhs,
            ),
            Node::FDiv(x) => s[k] == 47 && token_matches(s, f, *x.lhs) && token_matches(
                s,
                ri,
                *x.rhs,
            ),
            _ => false,
        }
    } else {
        token_matches(s, f, n)
    }
}

/// The rule returned exactly the factor's node, resuming at its end.
pub open spec fn gives_factor(s: Seq<u8>, f: int, r: Result<(Expr, usize), Fail>) -> bool {
    match r {
        Result::Ok((e, np)) => np == factor_end(s, f) && factor_matches(s, f, *e),
        Result::Err(_) => false,
    }
}

/// Width of the additive operator at `k`: two bytes when dotted.
pub open spec fn addop_w(s: Seq<u8>, k: int) -> int {
    if k + 1 < s.len() && s[k + 1] == 46 {
        2
    } else {
        1
    }
}

/// Offset of the additive operator after the factor beginning at `i`.
pub open spec fn add_op1(s: Seq<u8>, i: int) -> int {
    spec_skip_ws(s, factor_end(s, i))
}

/// Start of the second factor of an additive pair beginning at `i`.
pub open spec fn add_rhs1(s: Seq<u8>, i: int) -> int {
    spec_skip_ws(s, add_op1(s, i) + addop_w(s, add_op1(s, i)))
}

/// End of the additive pair beginning at `i`.
pub open spec fn add_pair_end(s: Seq<u8>, i: int) -> int {
    factor_end(s, add_rhs1(s, i))
}

/// An additive pair begins at `i`: a factor, one of `+`, `-`, `+.`,
/// `-.`, and a second factor.
pub open spec fn add_pair_at(s: Seq<u8>, i: int) -> bool {
    factor_at(s, i) && addop_at(s, add_op1(s, i)) && factor_at(s, add_rhs1(s, i))
}

/// The node `n` is `op(l, r)` where `op` is the additive operator at
/// `k`, dotted or not.
pub open spec fn add_variant_ok(s: Seq<u8>, k: int, n: Node, l: Node, r: Node) -> bool {
    match n {
        Node::Add(x) => s[k] == 43 && addop_w(s, k) == 1 && *x.lhs == l && *x.rhs == r,
        Node::FAdd(x) => s[k] == 43 && addop_w(s, k) == 2 && *x.lhs == l && *x.rhs == r,
        Node::Sub(x) => s[k] == 45 && addop_w(s, k) == 1 && *x.lhs == l && *x.rhs == r,
        Node::FSub(x) => s[k] == 45 && addop_w(s, k) == 2 && *x.lhs == l && *x.rhs == r,
        _ => false,
    }
}

/// `n` is exactly the additive pair's node: the variant matching the
/// operator, its children the two factors' nodes, spanning the pair.
pub open spec fn add_pair_matches(s: Seq<u8>, i: int, n: Node) -> bool {
    &&& n.pos().start_byte_index == i
    &&& n.pos().end_byte_index == add_pair_end(s, i)
    &&& exists|l: Node, r: Node|
        add_variant_ok(s, add_op1(s, i), n, l, r) && #[trigger] factor_matches(s, i, l)
            && #[trigger] factor_matches(s, add_rhs1(s, i), r)
}

/// Offset of the second additive operator after the pair at `i`.
pub open spec fn add_op2(s: Seq<u8>, i: int) -> int {
    spec_skip_ws(s, add_pair_end(s, i))
}

/// Start of the third factor of an additive triple beginning at `i`.
pub open spec fn add_rhs2(s: Seq<u8>, i: int) -> int {
    spec_skip_ws(s, add_op2(s, i) + addop_w(s, add_op2(s, i)))
}

/// End of the additive triple beginning at `i`.
pub open spec fn add_triple_end(s: Seq<u8>, i: int) -> int {
    factor_end(s, add_rhs2(s, i))
}

/// An additive triple begins at `i`: three factors joined by two
/// additive operators.
pub open spec fn add_triple_at(s: Seq<u8>, i: int) -> bool {
    add_pair_at(s, i) && addop_at(s, add_op2(s, i)) && factor_at(s, add_rhs2(s, i))
}

/// `n` is exactly the additive triple's node: the second operator's
/// variant at the root, the pair's node as its left child — the tier is
/// left-associative — and the third factor's node on the right.
pub open spec fn add_triple_matches(s: Seq<u8>, i: int, n: Node) -> bool {
    &&& n.pos().start_byte_index == i
    &&& n.pos().end_byte_index == add_triple_end(s, i)
    &&& exists|l: Node, r: Node|
        add_variant_ok(s, add_op2(s, i), n, l, r) && #[trigger] add_pair_matches(s, i, l)
            && #[trigger] factor_matches(s, add_rhs2(s, i), r)
}


/// A `let` binding of the simplest shape begins at `pos`: `let`, a
/// name, `=`, a token, `in`, a token.
pub open spec fn let_form_at(s: Seq<u8>, pos: int) -> bool {
    let i = spec_skip_ws(s, pos);
    let k = spec_skip_ws(s, spec_ident_end(s, i));
    let cur = spec_skip_ws(s, spec_ident_end(s, k));
    let bi = spec_skip_ws(s, cur + 1);
    let o = spec_skip_ws(s, token_end(s, bi));
    let vi = spec_skip_ws(s, spec_ident_end(s, o));
    &&& 0 <= i < s.len()
    &&& kw_let(s, i, spec_ident_end(s, i))
    &&& spec_ident_at(s, k)
    &&& cur < s.len()
    &&& s[cur] == 61
    &&& token_at(s, bi)
    &&& kw_in(s, o, spec_ident_end(s, o))
    &&& token_at(s, vi)
    &&& ends_expr(s, spec_skip_ws(s, token_end(s, vi)))
}

/// Start of the let form's name.
pub open spec fn let_name_at(s: Seq<u8>, pos: int) -> int {
    spec_skip_ws(s, spec_ident_end(s, spec_skip_ws(s, pos)))
}

/// Start of the let form's bound token.
pub open spec fn let_bound_at(s: Seq<u8>, pos: int) -> int {
    spec_skip_ws(s, spec_skip_ws(s, spec_ident_end(s, let_name_at(s, pos))) + 1)
}

/// Start of the let form's body token.
pub open spec fn let_body_at(s: Seq<u8>, pos: int) -> int {
    let o = spec_skip_ws(s, token_end(s, let_bound_at(s, pos)));
    spec_skip_ws(s, spec_ident_end(s, o))
}

/// End of the let form.
pub open spec fn let_form_end(s: Seq<u8>, pos: int) -> int {
    token_end(s, let_body_at(s, pos))
}

/// `n` is exactly the let form's node: a `Let` holding the name, the
/// bound token's node and the body token's node, spanning the form.
pub open spec fn let_form_matches(s: Seq<u8>, pos: int, n: Node) -> bool {
    let i = spec_skip_ws(s, pos);
    let k = let_name_at(s, pos);
    &&& n.pos().start_byte_index == i
    &&& n.pos().end_byte_index == let_form_end(s, pos)
    &&& match n {
        Node::Let(x) => x.name@ == chars_of(s, k, spec_ident_end(s, k)) && token_matches(
            s,
            let_bound_at(s, pos),
            *x.bound,
        ) && token_matches(s, let_body_at(s, pos), *x.body),
        _ => false,
    }
}

/// An array store of the simplest shape begins at `pos`: an identifier,
/// `.(`, a token index, `)`, `<-`, a token value.
pub open spec fn put_form_at(s: Seq<u8>, pos: int) -> bool {
    let i = spec_skip_ws(s, pos);
    let d = spec_skip_ws(s, spec_ident_end(s, i));
    let x = spec_skip_ws(s, d + 2);
    let c = spec_skip_ws(s, token_end(s, x));
    let a = spec_skip_ws(s, c + 1);
    let v = spec_skip_ws(s, a + 2);
    &&& spec_ident_at(s, i)
    &&& dotparen_at(s, d)
    &&& token_at(s, x)
    &&& c < s.len()
    &&& s[c] == 41
    &&& arrow_at(s, a)
    &&& token_at(s, v)
    &&& ends_expr(s, spec_skip_ws(s, token_end(s, v)))
}

/// Start of the store's index token.
pub open spec fn put_index_at(s: Seq<u8>, pos: int) -> int {
    let i = spec_skip_ws(s, pos);
    let d = spec_skip_ws(s, spec_ident_end(s, i));
    spec_skip_ws(s, d + 2)
}

/// Offset of the `)` closing the store's subscript.
pub open spec fn put_close_at(s: Seq<u8>, pos: int) -> int {
    spec_skip_ws(s, token_end(s, put_index_at(s, pos)))
}

/// Start of the store's value token.
pub open spec fn put_value_at(s: Seq<u8>, pos: int) -> int {
    let a = spec_skip_ws(s, put_close_at(s, pos) + 1);
    spec_skip_ws(s, a + 2)
}

/// End of the store form.
pub open spec fn put_form_end(s: Seq<u8>, pos: int) -> int {
    token_end(s, put_value_at(s, pos))
}

/// `n` is exactly the subscript's node: a `Get` on the identifier and
/// the index token, spanning up to the closing parenthesis.
pub open spec fn get_form_matches(s: Seq<u8>, pos: int, n: Node) -> bool {
    let i = spec_skip_ws(s, pos);
    &&& n.pos().start_byte_index == i
    &&& n.pos().end_byte_index == put_close_at(s, pos) + 1
    &&& match n {
        Node::Get(g) => (match *g.array {
            Node::Var(av) => av.name@ == chars_of(s, i, spec_ident_end(s, i))
                && (*g.array).pos().start_byte_index == i && (*g.array).pos().end_byte_index
                == spec_ident_end(s, i),
            _ => false,
        }) && token_matches(s, put_index_at(s, pos), *g.index),
        _ => false,
    }
}

/// `n` is exactly the store form's node: a `Put` holding the
/// identifier's node, the index token's node and the value token's
/// node, spanning the form.
pub open spec fn put_form_matches(s: Seq<u8>, pos: int, n: Node) -> bool {
    let i = spec_skip_ws(s, pos);
    &&& n.pos().start_byte_index == i
    &&& n.pos().end_byte_index == put_form_end(s, pos)
    &&& match n {
        Node::Put(g) => (match *g.array {
            Node::Var(av) => av.name@ == chars_of(s, i, spec_ident_end(s, i))
                && (*g.array).pos().start_byte_index == i && (*g.array).pos().end_byte_index
                == spec_ident_end(s, i),
            _ => false,
        }) && token_matches(s, put_index_at(s, pos), *g.index) && token_matches(
            s,
            put_value_at(s, pos),
            *g.new_value,
        ),
        _ => false,
    }
}

/// An application of the simplest shape begins at `pos`: an identifier
/// juxtaposed against exactly two unsigned tokens.
pub open spec fn app_form_at(s: Seq<u8>, pos: int) -> bool {
    let i = spec_skip_ws(s, pos);
    let a1 = spec_skip_ws(s, spec_ident_end(s, i));
    let a2 = spec_skip_ws(s, token_end(s, a1));
    &&& spec_ident_at(s, i)
    &&& prim_token_at(s, a1)
    &&& prim_token_at(s, a2)
    &&& ends_expr(s, spec_skip_ws(s, token_end(s, a2)))
}

/// Start of the application's first argument.
pub open spec fn app_arg1_at(s: Seq<u8>, pos: int) -> int {
    spec_skip_ws(s, spec_ident_end(s, spec_skip_ws(s, pos)))
}

/// Start of the application's second argument.
pub open spec fn app_arg2_at(s: Seq<u8>, pos: int) -> int {
    spec_skip_ws(s, token_end(s, app_arg1_at(s, pos)))
}

/// End of the application form.
pub open spec fn app_form_end(s: Seq<u8>, pos: int) -> int {
    token_end(s, app_arg2_at(s, pos))
}

/// `n` is exactly the application form's node: one flat `Apply` whose
/// callee is the identifier's node and whose argument list holds the
/// two tokens' nodes in call order — not nested applications.
pub open spec fn app_form_matches(s: Seq<u8>, pos: int, n: Node) -> bool {
    let i = spec_skip_ws(s, pos);
    &&& n.pos().start_byte_index == i
    &&& n.pos().end_byte_index == app_form_end(s, pos)
    &&& match n {
        Node::Apply(x) => (match *x.callee {
            Node::Var(cv) => cv.name@ == chars_of(s, i, spec_ident_end(s, i))
                && (*x.callee).pos().start_byte_index == i && (*x.callee).pos().end_byte_index
                == spec_ident_end(s, i),
            _ => false,
        }) && x.args@.len() == 2 && token_matches(s, app_arg1_at(s, pos), *x.args@[0])
            && token_matches(s, app_arg2_at(s, pos), *x.args@[1]),
        _ => false,
    }
}

/// A digit run has a non-negative value.
proof fn lemma_digits_val_nonneg(s: Seq<u8>, lo: int, hi: int)
    requires
        forall|k: int| lo <= k < hi ==> is_digit(s[k]),
    ensures
        digits_val(s, lo, hi) >= 0,
    decreases hi - lo,
{
    if hi > lo {
        lemma_digits_val_nonneg(s, lo, hi - 1);
    }
}

/// Reading further digits never shrinks the value.
proof fn lemma_digits_val_grows(s: Seq<u8>, lo: int, mid: int, hi: int)
    requires
        lo <= mid <= hi,
        forall|k: int| lo <= k < hi ==> is_digit(s[k]),
    ensures
        digits_val(s, lo, hi) >= digits_val(s, lo, mid),
    decreases hi - mid,
{
    if hi > mid {
        lemma_digits_val_grows(s, lo, mid, hi - 1);
        lemma_digits_val_nonneg(s, lo, hi - 1);
    }
}

/// The numeric literal beginning at `pos`: an optional minus sign folded
/// into the literal, the integer digits, and for a float literal the
/// decimal point and fraction digits, kept as their text. An integer
/// literal yields exactly the signed decimal value of its digits, with
/// its span covering the full literal text; one outside the representable
/// range is rejected.
#[verifier::loop_isolation(false)]
fn p_number(s: &[u8], pos: usize) -> (r: Result<(Expr, usize), Fail>)
    requires
        pos < s@.len(),
        num_d0(s@, pos as int) < s@.len(),
        is_digit(s@[num_d0(s@, pos as int)]),
    ensures
        match r {
            Result::Ok((e, np)) => {
                &&& node_wf(*e)
                &&& e.pos().start_byte_index == pos
                &&& e.pos().end_byte_index == np
                &&& pos < np <= s@.len()
                &&& np == num_end(s@, pos as int)
                &&& if num_is_float(s@, pos as int) {
                    match *e {
                        Node::Float(x) => x.text@ == chars_of(s@, pos as int, np as int),
                        _ => false,
                    }
                } else {
                    match *e {
                        Node::Int(x) => x.value == num_val(s@, pos as int),
                        _ => false,
                    }
                }
            },
            Result::Err(f) => {
                &&& fail_ok(s@, pos as int, f)
                &&& !num_is_float(s@, pos as int)
                &&& !(i32::MIN <= num_val(s@, pos as int) <= i32::MAX)
            },
        },
{
    let neg = s[pos] == 45;
    let d0 = if neg {
        pos + 1
    } else {
        pos
    };
    let dend = digits_end(s, d0);
    let isf = dend < s.len() && s[dend] == 46 && dend + 1 < s.len() && 48 <= s[dend + 1]
        && s[dend + 1] <= 57;
    if isf {
        let fend = digits_end(s, dend + 1);
        proof {
            assert forall|k: int| pos <= k < fend implies s@[k] < 128 by {
                if k == pos && neg {
                } else if k < dend {
                    assert(is_digit(s@[k]));
                } else if k == dend {
                } else {
                    assert(is_digit(s@[k]));
                }
            }
        }
        let text = range_string(s, pos, fend);
        Result::Ok((Float::new(text, pos, fend), fend))
    } else {
        let mut acc: u64 = 0;
        let mut j = d0;
        while j < dend
            invariant
                d0 <= j <= dend <= s@.len(),
                pos <= d0,
                forall|k: int| d0 <= k < dend ==> is_digit(s@[k]),
                acc == digits_val(s@, d0 as int, j as int),
                acc <= 2147483648,
            decreases dend - j,
        {
            let d = (s[j] - 48) as u64;
            let next = acc * 10 + d;
            if next > 2147483648 {
                proof {
                    assert(next == digits_val(s@, d0 as int, j + 1));
                    lemma_digits_val_grows(s@, d0 as int, j + 1, dend as int);
                    lemma_digits_val_nonneg(s@, d0 as int, dend as int);
                }
                return Result::Err(fail1(pos, "integer literal"));
            }
            acc = next;
            j = j + 1;
        }
        if !neg && acc > 2147483647 {
            return Result::Err(fail1(pos, "integer literal"));
        }
        let value: i32 = if neg {
            (0i64 - acc as i64) as i32
        } else {
            acc as i32
        };
        Result::Ok((Int::new(value, pos, dend), dend))
    }
}

/// Widens the recorded byte range of the tree's root to `[s_, e_)`: used
/// where a rule consumed surrounding parentheses, which belong to the
/// node's surface syntax.
fn respan(e: Expr, s_: usize, e_: usize) -> (r: Expr)
    requires
        s_ <= e_,
        node_wf(*e),
        s_ <= (*e).pos().start_byte_index,
        (*e).pos().end_byte_index <= e_,
    ensures
        node_wf(*r),
        (*r).pos() == pos_at(s_, e_),
        (*r).spec_children() == (*e).spec_children(),
{
    match *e {
        Node::Unit(x) => Box::new(Node::Unit(Unit { pos: crate::ast::mk_pos(s_, e_), ..x })),
        Node::Bool(x) => Box::new(Node::Bool(Bool { pos: crate::ast::mk_pos(s_, e_), ..x })),
        Node::Int(x) => Box::new(Node::Int(Int { pos: crate::ast::mk_pos(s_, e_), ..x })),
        Node::Float(x) => Box::new(Node::Float(Float { pos: crate::ast::mk_pos(s_, e_), ..x })),
        Node::Not(x) => Box::new(Node::Not(Not { pos: crate::ast::mk_pos(s_, e_), ..x })),
        Node::Neg(x) => Box::new(Node::Neg(Neg { pos: crate::ast::mk_pos(s_, e_), ..x })),
        Node::Add(x) => Box::new(Node::Add(Add { pos: crate::ast::mk_pos(s_, e_), ..x })),
        Node::Sub(x) => Box::new(Node::Sub(Sub { pos: crate::ast::mk_pos(s_, e_), ..x })),
        Node::FNeg(x) => Box::new(Node::FNeg(FNeg { pos: crate::ast::mk_pos(s_, e_), ..x })),
        Node::FAdd(x) => Box::new(Node::FAdd(FAdd { pos: crate::ast::mk_pos(s_, e_), ..x })),
        Node::FSub(x) => Box::new(Node::FSub(FSub { pos: crate::ast::mk_pos(s_, e_), ..x })),
        Node::FMul(x) => Box::new(Node::FMul(FMul { pos: crate::ast::mk_pos(s_, e_), ..x })),
        Node::FDiv(x) => Box::new(Node::FDiv(FDiv { pos: crate::ast::mk_pos(s_, e_), ..x })),
        Node::Eq(x) => Box::new(Node::Eq(crate::ast::Eq { pos: crate::ast::mk_pos(s_, e_), ..x })),
        Node::LessEq(x) => Box::new(Node::LessEq(LessEq { pos: crate::ast::mk_pos(s_, e_), ..x })),
        Node::If(x) => Box::new(Node::If(If { pos: crate::ast::mk_pos(s_, e_), ..x })),
        Node::Let(x) => Box::new(Node::Let(Let { pos: crate::ast::mk_pos(s_, e_), ..x })),
        Node::Var(x) => Box::new(Node::Var(Var { pos: crate::ast::mk_pos(s_, e_), ..x })),
        Node::LetRec(x) => Box::new(Node::LetRec(LetRec { pos: crate::ast::mk_pos(s_, e_), ..x })),
        Node::Apply(x) => Box::new(Node::Apply(Apply { pos: crate::ast::mk_pos(s_, e_), ..x })),
        Node::Tuple(x) => Box::new(Node::Tuple(Tuple { pos: crate::ast::mk_pos(s_, e_), ..x })),
        Node::LetTuple(x) => Box::new(Node::LetTuple(LetTuple { pos: crate::ast::mk_pos(s_, e_), ..x })),
        Node::Array(x) => Box::new(Node::Array(Array { pos: crate::ast::mk_pos(s_, e_), ..x })),
        Node::Get(x) => Box::new(Node::Get(Get { pos: crate::ast::mk_pos(s_, e_), ..x })),
        Node::Put(x) => Box::new(Node::Put(Put { pos: crate::ast::mk_pos(s_, e_), ..x })),
    }
}

fn word_let(s: &[u8], lo: usize, hi: usize) -> (b: bool)
    requires
        lo <= hi <= s@.len(),
    ensures
        b == kw_let(s@, lo as int, hi as int),
{
    hi - lo == 3 && s[lo] == 108 && s[lo + 1] == 101 && s[lo + 2] == 116
}

fn word_rec(s: &[u8], lo: usize, hi: usize) -> (b: bool)
    requires
        lo <= hi <= s@.len(),
    ensures
        b == kw_rec(s@, lo as int, hi as int),
{
    hi - lo == 3 && s[lo] == 114 && s[lo + 1] == 101 && s[lo + 2] == 99
}

fn word_in(s: &[u8], lo: usize, hi: usize) -> (b: bool)
    requires
        lo <= hi <= s@.len(),
    ensures
        b == kw_in(s@, lo as int, hi as int),
{
    hi - lo == 2 && s[lo] == 105 && s[lo + 1] == 110
}

fn word_if(s: &[u8], lo: usize, hi: usize) -> (b: bool)
    requires
        lo <= hi <= s@.len(),
    ensures
        b == kw_if(s@, lo as int, hi as int),
{
    hi - lo == 2 && s[lo] == 105 && s[lo + 1] == 102
}

fn word_thn(s: &[u8], lo: usize, hi: usize) -> (b: bool)
    requires
        lo <= hi <= s@.len(),
    ensures
        b == kw_thn(s@, lo as int, hi as int),
{
    hi - lo == 4 && s[lo] == 116 && s[lo + 1] == 104 && s[lo + 2] == 101 && s[lo + 3] == 110
}

fn word_else(s: &[u8], lo: usize, hi: usize) -> (b: bool)
    requires
        lo <= hi <= s@.len(),
    ensures
        b == kw_else(s@, lo as int, hi as int),
{
    hi - lo == 4 && s[lo] == 101 && s[lo + 1] == 108 && s[lo + 2] == 115 && s[lo + 3] == 101
}

fn word_not(s: &[u8], lo: usize, hi: usize) -> (b: bool)
    requires
        lo <= hi <= s@.len(),
    ensures
        b == kw_not(s@, lo as int, hi as int),
{
    hi - lo == 3 && s[lo] == 110 && s[lo + 1] == 111 && s[lo + 2] == 116
}

fn word_true(s: &[u8], lo: usize, hi: usize) -> (b: bool)
    requires
        lo <= hi <= s@.len(),
    ensures
        b == kw_true(s@, lo as int, hi as int),
{
    hi - lo == 4 && s[lo] == 116 && s[lo + 1] == 114 && s[lo + 2] == 117 && s[lo + 3] == 101
}

fn word_false(s: &[u8], lo: usize, hi: usize) -> (b: bool)
    requires
        lo <= hi <= s@.len(),
    ensures
        b == kw_false(s@, lo as int, hi as int),
{
    hi - lo == 5 && s[lo] == 102 && s[lo + 1] == 97 && s[lo + 2] == 108 && s[lo + 3] == 115 && s[lo
        + 4] == 101
}

/// The token `Array.create`, up to a word boundary.
pub open spec fn kw_array_create(s: Seq<u8>, i: int) -> bool {
    &&& i + 12 <= s.len()
    &&& s[i] == 65
    &&& s[i + 1] == 114
    &&& s[i + 2] == 114
    &&& s[i + 3] == 97
    &&& s[i + 4] == 121
    &&& s[i + 5] == 46
    &&& s[i + 6] == 99
    &&& s[i + 7] == 114
    &&& s[i + 8] == 101
    &&& s[i + 9] == 97
    &&& s[i + 10] == 116
    &&& s[i + 11] == 101
    &&& (i + 12 == s.len() || !is_ident_char(s[i + 12]))
}

fn array_create_at(s: &[u8], i: usize) -> (b: bool)
    requires
        i <= s@.len(),
    ensures
        b == kw_array_create(s@, i as int),
{
    if s.len() < 12 || i > s.len() - 12 {
        return false;
    }
    s[i] == 65 && s[i + 1] == 114 && s[i + 2] == 114 && s[i + 3] == 97 && s[i + 4] == 121 && s[i
        + 5] == 46 && s[i + 6] == 99 && s[i + 7] == 114 && s[i + 8] == 101 && s[i + 9] == 97 && s[i
        + 10] == 116 && s[i + 11] == 101 && (i + 12 == s.len() || !((97 <= s[i + 12] && s[i + 12]
        <= 122) || (65 <= s[i + 12] && s[i + 12] <= 90) || (48 <= s[i + 12] && s[i + 12] <= 57)
        || s[i + 12] == 95))
}

/// An atom can begin at `k`: a digit, an opening parenthesis, a boolean
/// literal, or an identifier.
pub open spec fn atom_starts(s: Seq<u8>, k: int) -> bool {
    0 <= k < s.len() && (is_digit(s[k]) || s[k] == 40 || (is_ident_start(s[k])
        && (!spec_reserved(s, k, spec_ident_end(s, k)) || kw_true(s, k, spec_ident_end(s, k))
        || kw_false(s, k, spec_ident_end(s, k)))))
}

fn at_atom(s: &[u8], k: usize) -> (b: bool)
    requires
        k <= s@.len(),
    ensures
        b == atom_starts(s@, k as int),
{
    if k >= s.len() {
        return false;
    }
    let b0 = s[k];
    if 48 <= b0 && b0 <= 57 {
        return true;
    }
    if b0 == 40 {
        return true;
    }
    if (97 <= b0 && b0 <= 122) || b0 == 95 {
        let j = ident_end(s, k);
        return !reserved(s, k, j) || word_true(s, k, j) || word_false(s, k, j);
    }
    false
}

fn expect_in(s: &[u8], pos: usize) -> (r: Result<usize, Fail>)
    requires
        pos <= s@.len(),
    ensures
        match r {
            Result::Ok(np) => pos < np <= s@.len() && kw_in(
                s@,
                spec_skip_ws(s@, pos as int),
                np as int,
            ) && np == spec_ident_end(s@, spec_skip_ws(s@, pos as int)),
            Result::Err(f) => fail_ok(s@, pos as int, f) && !kw_in(
                s@,
                spec_skip_ws(s@, pos as int),
                spec_ident_end(s@, spec_skip_ws(s@, pos as int)),
            ),
        },
{
    let k = skip_ws(s, pos);
    let j = ident_end(s, k);
    if word_in(s, k, j) {
        Result::Ok(j)
    } else {
        Result::Err(fail1(k, "in"))
    }
}

fn expect_thn(s: &[u8], pos: usize) -> (r: Result<usize, Fail>)
    requires
        pos <= s@.len(),
    ensures
        match r {
            Result::Ok(np) => pos < np <= s@.len() && kw_thn(
                s@,
                spec_skip_ws(s@, pos as int),
                np as int,
            ) && np == spec_ident_end(s@, spec_skip_ws(s@, pos as int)),
            Result::Err(f) => fail_ok(s@, pos as int, f) && !kw_thn(
                s@,
                spec_skip_ws(s@, pos as int),
                spec_ident_end(s@, spec_skip_ws(s@, pos as int)),
            ),
        },
{
    let k = skip_ws(s, pos);
    let j = ident_end(s, k);
    if word_thn(s, k, j) {
        Result::Ok(j)
    } else {
        let mut w = String::new();
        push_char(&mut w, 't');
        push_char(&mut w, 'h');
        push_char(&mut w, 'e');
        push_char(&mut w, 'n');
        let mut expected: Vec<String> = Vec::new();
        expected.push(w);
        Result::Err(Fail { offset: k, expected })
    }
}

fn expect_else(s: &[u8], pos: usize) -> (r: Result<usize, Fail>)
    requires
        pos <= s@.len(),
    ensures
        match r {
            Result::Ok(np) => pos < np <= s@.len() && kw_else(
                s@,
                spec_skip_ws(s@, pos as int),
                np as int,
            ) && np == spec_ident_end(s@, spec_skip_ws(s@, pos as int)),
            Result::Err(f) => fail_ok(s@, pos as int, f) && !kw_else(
                s@,
                spec_skip_ws(s@, pos as int),
                spec_ident_end(s@, spec_skip_ws(s@, pos as int)),
            ),
        },
{
    let k = skip_ws(s, pos);
    let j = ident_end(s, k);
    if word_else(s, k, j) {
        Result::Ok(j)
    } else {
        Result::Err(fail1(k, "else"))
    }
}

/// An atom: a literal, an identifier, or a parenthesized form — the unit
/// value `()`, a tuple of two or more expressions, or a bracketed
/// expression, whose node then covers the parentheses.
#[verifier::loop_isolation(false)]
fn p_primary(s: &[u8], pos: usize) -> (r: Result<(Expr, usize), Fail>)
    requires
        pos <= s@.len(),
    ensures
        parse_res_ok(s@, pos as int, r),
        r is Ok ==> atom_starts(s@, spec_skip_ws(s@, pos as int)),
        !atom_starts(s@, spec_skip_ws(s@, pos as int)) ==> r is Err,
        prim_token_at(s@, spec_skip_ws(s@, pos as int)) ==> gives_token(s@, spec_skip_ws(s@, pos as int), r),
        stuck_word_at(s@, spec_skip_ws(s@, pos as int)) ==> gives_expr_start_fail(
            s@,
            spec_skip_ws(s@, pos as int),
            r,
        ),
    decreases s@.len() - pos, 0int,
{
    let i = skip_ws(s, pos);
    if i >= s.len() {
        return Result::Err(fail_expr_start(i));
    }
    let b = s[i];
    if 48 <= b && b <= 57 {
        match p_number(s, i) {
            Result::Ok(v) => Result::Ok(v),
            Result::Err(f) => Result::Err(f),
        }
    } else if b == 40 {
        let j = skip_ws(s, i + 1);
        if j < s.len() && s[j] == 41 {
            return Result::Ok((Unit::new(i, j + 1), j + 1));
        }
        let (e1, np1) = match p_expr(s, i + 1) {
            Result::Ok(v) => v,
            Result::Err(f) => return Result::Err(f),
        };
        let k = skip_ws(s, np1);
        if k < s.len() && s[k] == 41 {
            return Result::Ok((respan(e1, i, k + 1), k + 1));
        }
        if !(k < s.len() && s[k] == 44) {
            return Result::Err(fail2(k, ",", ")"));
        }
        let mut elements: Vec<Expr> = Vec::new();
        elements.push(e1);
        let mut cur: usize = k;
        loop
            invariant
                i < cur <= s@.len(),
                cur < s@.len() && s@[cur as int] == 44,
                elements@.len() >= 1,
                forall|t: int|
                    0 <= t < elements@.len() ==> node_wf(*#[trigger] elements@[t]) && i < (
                    *elements@[t]).pos().start_byte_index && (*elements@[t]).pos().end_byte_index
                        <= cur,
            decreases s@.len() - cur,
        {
            let (e2, np2) = match p_expr(s, cur + 1) {
                Result::Ok(v) => v,
                Result::Err(f) => return Result::Err(f),
            };
            elements.push(e2);
            cur = skip_ws(s, np2);
            if cur < s.len() && s[cur] == 41 {
                let end = cur + 1;
                return Result::Ok((Tuple::new(elements, i, end), end));
            }
            if !(cur < s.len() && s[cur] == 44) {
                return Result::Err(fail2(cur, ",", ")"));
            }
        }
    } else if (97 <= b && b <= 122) || b == 95 {
        let j = ident_end(s, i);
        if word_true(s, i, j) {
            return Result::Ok((Bool::new(true, i, j), j));
        }
        if word_false(s, i, j) {
            return Result::Ok((Bool::new(false, i, j), j));
        }
        if reserved(s, i, j) {
            return Result::Err(fail_expr_start(i));
        }
        let name = range_string(s, i, j);
        Result::Ok((Var::new(name, i, j), j))
    } else {
        Result::Err(fail_expr_start(i))
    }
}

/// An atom followed by any number of array subscripts `.( index )`.
#[verifier::loop_isolation(false)]
#[verifier::rlimit(60)]
fn p_postfix(s: &[u8], pos: usize) -> (r: Result<(Expr, usize), Fail>)
    requires
        pos <= s@.len(),
    ensures
        parse_res_ok(s@, pos as int, r),
        prim_token_at(s@, spec_skip_ws(s@, pos as int)) && !dotparen_at(
            s@,
            spec_skip_ws(s@, token_end(s@, spec_skip_ws(s@, pos as int))),
        ) ==> gives_token(s@, spec_skip_ws(s@, pos as int), r),
        stuck_word_at(s@, spec_skip_ws(s@, pos as int)) ==> gives_expr_start_fail(
            s@,
            spec_skip_ws(s@, pos as int),
            r,
        ),
        put_form_at(s@, pos as int) ==> match r {
            Result::Ok((e, np)) => np == put_close_at(s@, pos as int) + 1 && get_form_matches(
                s@,
                pos as int,
                *e,
            ),
            Result::Err(_) => false,
        },
    decreases s@.len() - pos, 1int,
{
    let i = skip_ws(s, pos);
    proof {
        assert(spec_skip_ws(s@, i as int) == i);
    }
    let (mut e, mut np) = match p_primary(s, i) {
        Result::Ok(v) => v,
        Result::Err(f) => return Result::Err(f),
    };
    loop
        invariant
            pos <= i <= np <= s@.len(),
            i == spec_skip_ws(s@, pos as int),
            node_wf(*e),
            (*e).pos().start_byte_index == i,
            i < (*e).pos().end_byte_index,
            np == (*e).pos().end_byte_index,
            (prim_token_at(s@, i as int) && !dotparen_at(
                s@,
                spec_skip_ws(s@, token_end(s@, i as int)),
            ) ==> np == token_end(s@, i as int) && token_matches(s@, i as int, *e)),
            (put_form_at(s@, pos as int) ==> (np == spec_ident_end(s@, i as int) && match *e {
                Node::Var(x) => x.name@ == chars_of(s@, i as int, spec_ident_end(s@, i as int)),
                _ => false,
            }) || (np == put_close_at(s@, pos as int) + 1 && get_form_matches(
                s@,
                pos as int,
                *e,
            ))),
        decreases s@.len() - np,
    {
        let k = skip_ws(s, np);
        if !(k < s.len() && s[k] == 46 && k + 1 < s.len() && s[k + 1] == 40) {
            break;
        }
        let (idx, np2) = match p_expr(s, k + 2) {
            Result::Ok(v) => v,
            Result::Err(f) => return Result::Err(f),
        };
        let m = skip_ws(s, np2);
        if !(m < s.len() && s[m] == 41) {
            return Result::Err(fail1(m, ")"));
        }
        e = Get::new(e, idx, i, m + 1);
        np = m + 1;
    }
    Result::Ok((e, np))
}

/// Application: an atom juxtaposed against one or more trailing atoms,
/// greedily and left-associatively, binding tighter than any operator;
/// or an array construction `Array.create size elem`.
#[verifier::loop_isolation(false)]
#[verifier::rlimit(60)]
fn p_app(s: &[u8], pos: usize) -> (r: Result<(Expr, usize), Fail>)
    requires
        pos <= s@.len(),
    ensures
        parse_res_ok(s@, pos as int, r),
        prim_token_at(s@, spec_skip_ws(s@, pos as int)) && ends_app(
            s@,
            spec_skip_ws(s@, token_end(s@, spec_skip_ws(s@, pos as int))),
        ) ==> gives_token(s@, spec_skip_ws(s@, pos as int), r),
        stuck_word_at(s@, spec_skip_ws(s@, pos as int)) ==> gives_expr_start_fail(
            s@,
            spec_skip_ws(s@, pos as int),
            r,
        ),
        put_form_at(s@, pos as int) ==> match r {
            Result::Ok((e, np)) => np == put_close_at(s@, pos as int) + 1 && get_form_matches(
                s@,
                pos as int,
                *e,
            ),
            Result::Err(_) => false,
        },
        app_form_at(s@, pos as int) ==> match r {
            Result::Ok((e, np)) => np == app_form_end(s@, pos as int) && app_form_matches(
                s@,
                pos as int,
                *e,
            ),
            Result::Err(_) => false,
        },
    decreases s@.len() - pos, 2int,
{
    let i = skip_ws(s, pos);
    if i < s.len() && s[i] == 65 {
        if !array_create_at(s, i) {
            return Result::Err(fail1(i, "Array.create"));
        }
        let (size, np1) = match p_postfix(s, i + 12) {
            Result::Ok(v) => v,
            Result::Err(f) => return Result::Err(f),
        };
        let (elem, np2) = match p_postfix(s, np1) {
            Result::Ok(v) => v,
            Result::Err(f) => return Result::Err(f),
        };
        return Result::Ok((Array::new(size, elem, i, np2), np2));
    }
    proof {
        assert(spec_skip_ws(s@, i as int) == i);
    }
    let (callee, np) = match p_postfix(s, i) {
        Result::Ok(v) => v,
        Result::Err(f) => return Result::Err(f),
    };
    let mut args: Vec<Expr> = Vec::new();
    let mut cur: usize = np;
    loop
        invariant
            pos <= i <= np <= cur <= s@.len(),
            i == spec_skip_ws(s@, pos as int),
            (prim_token_at(s@, i as int) && ends_app(
                s@,
                spec_skip_ws(s@, token_end(s@, i as int)),
            ) ==> cur == np && args@.len() == 0 && np == token_end(s@, i as int) && token_matches(
                s@,
                i as int,
                *callee,
            )),
            (put_form_at(s@, pos as int) ==> cur == np && args@.len() == 0 && np == put_close_at(
                s@,
                pos as int,
            ) + 1 && get_form_matches(s@, pos as int, *callee)),
            (app_form_at(s@, pos as int) ==> np == spec_ident_end(s@, i as int) && (match *callee {
                Node::Var(x) => x.name@ == chars_of(s@, i as int, spec_ident_end(s@, i as int))
                    && (*callee).pos().start_byte_index == i && (*callee).pos().end_byte_index
                    == spec_ident_end(s@, i as int),
                _ => false,
            }) && ((cur == np && args@.len() == 0) || (args@.len() == 1 && cur == token_end(
                s@,
                app_arg1_at(s@, pos as int),
            ) && token_matches(s@, app_arg1_at(s@, pos as int), *args@[0])) || (args@.len() == 2
                && cur == app_form_end(s@, pos as int) && token_matches(
                s@,
                app_arg1_at(s@, pos as int),
                *args@[0],
            ) && token_matches(s@, app_arg2_at(s@, pos as int), *args@[1])))),
            node_wf(*callee),
            (*callee).pos().start_byte_index == i,
            i < (*callee).pos().end_byte_index,
            np == (*callee).pos().end_byte_index,
            forall|t: int|
                0 <= t < args@.len() ==> node_wf(*#[trigger] args@[t]) && i < (
                *args@[t]).pos().start_byte_index && (*args@[t]).pos().end_byte_index <= cur,
        decreases s@.len() - cur,
    {
        let k = skip_ws(s, cur);
        proof {
            assert(spec_skip_ws(s@, k as int) == k);
        }
        if !at_atom(s, k) {
            break;
        }
        let (a, np2) = match p_postfix(s, k) {
            Result::Ok(v) => v,
            Result::Err(f) => return Result::Err(f),
        };
        args.push(a);
        cur = np2;
    }
    if args.len() == 0 {
        Result::Ok((callee, np))
    } else {
        Result::Ok((Apply::new(callee, args, i, cur), cur))
    }
}

/// Unary operators: float negation `-.`, integer negation `-` (folded
/// into the literal when it immediately prefixes one), and boolean `not`.
fn p_unary(s: &[u8], pos: usize) -> (r: Result<(Expr, usize), Fail>)
    requires
        pos <= s@.len(),
    ensures
        parse_res_ok(s@, pos as int, r),
        token_at(s@, spec_skip_ws(s@, pos as int)) && ends_app(s@, spec_skip_ws(s@, token_end(s@, spec_skip_ws(s@, pos as int)))) ==> gives_token(s@, spec_skip_ws(s@, pos as int), r),
        stuck_word_at(s@, spec_skip_ws(s@, pos as int)) ==> gives_expr_start_fail(
            s@,
            spec_skip_ws(s@, pos as int),
            r,
        ),
        put_form_at(s@, pos as int) ==> match r {
            Result::Ok((e, np)) => np == put_close_at(s@, pos as int) + 1 && get_form_matches(
                s@,
                pos as int,
                *e,
            ),
            Result::Err(_) => false,
        },
        app_form_at(s@, pos as int) ==> match r {
            Result::Ok((e, np)) => np == app_form_end(s@, pos as int) && app_form_matches(
                s@,
                pos as int,
                *e,
            ),
            Result::Err(_) => false,
        },
    decreases s@.len() - pos, 3int,
{
    let i = skip_ws(s, pos);
    if i < s.len() && s[i] == 45 {
        if i + 1 < s.len() && s[i + 1] == 46 {
            let (c, np) = match p_unary(s, i + 2) {
                Result::Ok(v) => v,
                Result::Err(f) => return Result::Err(f),
            };
            return Result::Ok((FNeg::new(c, i, np), np));
        }
        if i + 1 < s.len() && 48 <= s[i + 1] && s[i + 1] <= 57 {
            return match p_number(s, i) {
                Result::Ok(v) => Result::Ok(v),
                Result::Err(f) => Result::Err(f),
            };
        }
        let (c, np) = match p_unary(s, i + 1) {
            Result::Ok(v) => v,
            Result::Err(f) => return Result::Err(f),
        };
        return Result::Ok((Neg::new(c, i, np), np));
    }
    if i < s.len() && s[i] == 110 {
        let j = ident_end(s, i);
        if word_not(s, i, j) {
            let (c, np) = match p_unary(s, j) {
                Result::Ok(v) => v,
                Result::Err(f) => return Result::Err(f),
            };
            return Result::Ok((Not::new(c, i, np), np));
        }
    }
    p_app(s, pos)
}

/// Multiplicative tier: the float operators `*.` and `/.`,
/// left-associative. Integer multiply and divide are absent from the
/// language.
#[verifier::loop_isolation(false)]
#[verifier::rlimit(60)]
fn p_mul(s: &[u8], pos: usize) -> (r: Result<(Expr, usize), Fail>)
    requires
        pos <= s@.len(),
    ensures
        parse_res_ok(s@, pos as int, r),
        factor_at(s@, spec_skip_ws(s@, pos as int)) && ends_factor(
            s@,
            spec_skip_ws(s@, factor_end(s@, spec_skip_ws(s@, pos as int))),
        ) ==> gives_factor(s@, spec_skip_ws(s@, pos as int), r),
        stuck_word_at(s@, spec_skip_ws(s@, pos as int)) ==> gives_expr_start_fail(
            s@,
            spec_skip_ws(s@, pos as int),
            r,
        ),
        put_form_at(s@, pos as int) ==> match r {
            Result::Ok((e, np)) => np == put_close_at(s@, pos as int) + 1 && get_form_matches(
                s@,
                pos as int,
                *e,
            ),
            Result::Err(_) => false,
        },
        app_form_at(s@, pos as int) ==> match r {
            Result::Ok((e, np)) => np == app_form_end(s@, pos as int) && app_form_matches(
                s@,
                pos as int,
                *e,
            ),
            Result::Err(_) => false,
        },
    decreases s@.len() - pos, 4int,
{
    let i = skip_ws(s, pos);
    proof {
        assert(spec_skip_ws(s@, i as int) == i);
    }
    let (mut e, mut np) = match p_unary(s, i) {
        Result::Ok(v) => v,
        Result::Err(f) => return Result::Err(f),
    };
    loop
        invariant
            pos <= i <= np <= s@.len(),
            i == spec_skip_ws(s@, pos as int),
            node_wf(*e),
            (*e).pos().start_byte_index == i,
            i < (*e).pos().end_byte_index,
            np == (*e).pos().end_byte_index,
            (factor_at(s@, i as int) && ends_factor(
                s@,
                spec_skip_ws(s@, factor_end(s@, i as int)),
            ) ==> (np == token_end(s@, i as int) && token_matches(s@, i as int, *e)) || (np
                == factor_end(s@, i as int) && factor_matches(s@, i as int, *e))),
            (put_form_at(s@, pos as int) ==> np == put_close_at(s@, pos as int) + 1
                && get_form_matches(s@, pos as int, *e)),
            (app_form_at(s@, pos as int) ==> np == app_form_end(s@, pos as int)
                && app_form_matches(s@, pos as int, *e)),
        decreases s@.len() - np,
    {
        let k = skip_ws(s, np);
        proof {
            assert(spec_skip_ws(s@, k as int) == k);
        }
        if !(k < s.len() && k + 1 < s.len() && s[k + 1] == 46 && (s[k] == 42 || s[k] == 47)) {
            break;
        }
        let star = s[k] == 42;
        let (rhs, np2) = match p_unary(s, k + 2) {
            Result::Ok(v) => v,
            Result::Err(f) => return Result::Err(f),
        };
        e = if star {
            FMul::new(e, rhs, i, np2)
        } else {
            FDiv::new(e, rhs, i, np2)
        };
        np = np2;
    }
    Result::Ok((e, np))
}

/// Additive tier: `+` and `-` on integers, `+.` and `-.` on floats, all
/// in one tier and left-associative.
#[verifier::loop_isolation(false)]
#[verifier::rlimit(60)]
fn p_add(s: &[u8], pos: usize) -> (r: Result<(Expr, usize), Fail>)
    requires
        pos <= s@.len(),
    ensures
        parse_res_ok(s@, pos as int, r),
        factor_at(s@, spec_skip_ws(s@, pos as int)) && ends_term(
            s@,
            spec_skip_ws(s@, factor_end(s@, spec_skip_ws(s@, pos as int))),
        ) ==> gives_factor(s@, spec_skip_ws(s@, pos as int), r),
        add_pair_at(s@, spec_skip_ws(s@, pos as int)) && ends_term(
            s@,
            spec_skip_ws(s@, add_pair_end(s@, spec_skip_ws(s@, pos as int))),
        ) ==> match r {
            Result::Ok((e, np)) => np == add_pair_end(s@, spec_skip_ws(s@, pos as int))
                && add_pair_matches(s@, spec_skip_ws(s@, pos as int), *e),
            Result::Err(_) => false,
        },
        add_triple_at(s@, spec_skip_ws(s@, pos as int)) && ends_term(
            s@,
            spec_skip_ws(s@, add_triple_end(s@, spec_skip_ws(s@, pos as int))),
        ) ==> match r {
            Result::Ok((e, np)) => np == add_triple_end(s@, spec_skip_ws(s@, pos as int))
                && add_triple_matches(s@, spec_skip_ws(s@, pos as int), *e),
            Result::Err(_) => false,
        },
        stuck_word_at(s@, spec_skip_ws(s@, pos as int)) ==> gives_expr_start_fail(
            s@,
            spec_skip_ws(s@, pos as int),
            r,
        ),
        put_form_at(s@, pos as int) ==> match r {
            Result::Ok((e, np)) => np == put_close_at(s@, pos as int) + 1 && get_form_matches(
                s@,
                pos as int,
                *e,
            ),
            Result::Err(_) => false,
        },
        app_form_at(s@, pos as int) ==> match r {
            Result::Ok((e, np)) => np == app_form_end(s@, pos as int) && app_form_matches(
                s@,
                pos as int,
                *e,
            ),
            Result::Err(_) => false,
        },
    decreases s@.len() - pos, 5int,
{
    let i = skip_ws(s, pos);
    proof {
        assert(spec_skip_ws(s@, i as int) == i);
    }
    let (mut e, mut np) = match p_mul(s, i) {
        Result::Ok(v) => v,
        Result::Err(f) => return Result::Err(f),
    };
    loop
        invariant
            pos <= i <= np <= s@.len(),
            i == spec_skip_ws(s@, pos as int),
            node_wf(*e),
            (*e).pos().start_byte_index == i,
            i < (*e).pos().end_byte_index,
            np == (*e).pos().end_byte_index,
            (factor_at(s@, i as int) && ends_term(
                s@,
                spec_skip_ws(s@, factor_end(s@, i as int)),
            ) ==> np == factor_end(s@, i as int) && factor_matches(s@, i as int, *e)),
            (add_pair_at(s@, i as int) && ends_term(
                s@,
                spec_skip_ws(s@, add_pair_end(s@, i as int)),
            ) ==> (np == factor_end(s@, i as int) && factor_matches(s@, i as int, *e)) || (np
                == add_pair_end(s@, i as int) && add_pair_matches(s@, i as int, *e))),
            (add_triple_at(s@, i as int) && ends_term(
                s@,
                spec_skip_ws(s@, add_triple_end(s@, i as int)),
            ) ==> (np == factor_end(s@, i as int) && factor_matches(s@, i as int, *e)) || (np
                == add_pair_end(s@, i as int) && add_pair_matches(s@, i as int, *e)) || (np
                == add_triple_end(s@, i as int) && add_triple_matches(s@, i as int, *e))),
            (put_form_at(s@, pos as int) ==> np == put_close_at(s@, pos as int) + 1
                && get_form_matches(s@, pos as int, *e)),
            (app_form_at(s@, pos as int) ==> np == app_form_end(s@, pos as int)
                && app_form_matches(s@, pos as int, *e)),
        decreases s@.len() - np,
    {
        let k = skip_ws(s, np);
        proof {
            assert(spec_skip_ws(s@, k as int) == k);
        }
        if !(k < s.len() && (s[k] == 43 || s[k] == 45)) {
            break;
        }
        let plus = s[k] == 43;
        let dotted = k + 1 < s.len() && s[k + 1] == 46;
        let opw: usize = if dotted {
            2
        } else {
            1
        };
        let (rhs, np2) = match p_mul(s, k + opw) {
            Result::Ok(v) => v,
            Result::Err(f) => return Result::Err(f),
        };
        e = if plus && dotted {
            FAdd::new(e, rhs, i, np2)
        } else if plus {
            Add::new(e, rhs, i, np2)
        } else if dotted {
            FSub::new(e, rhs, i, np2)
        } else {
            Sub::new(e, rhs, i, np2)
        };
        np = np2;
    }
    Result::Ok((e, np))
}

/// Comparison tier: `=` and `<=`, non-associative.
fn p_cmp(s: &[u8], pos: usize) -> (r: Result<(Expr, usize), Fail>)
    requires
        pos <= s@.len(),
    ensures
        parse_res_ok(s@, pos as int, r),
        factor_at(s@, spec_skip_ws(s@, pos as int)) && ends_cmp(
            s@,
            spec_skip_ws(s@, factor_end(s@, spec_skip_ws(s@, pos as int))),
        ) ==> gives_factor(s@, spec_skip_ws(s@, pos as int), r),
        add_pair_at(s@, spec_skip_ws(s@, pos as int)) && ends_cmp(
            s@,
            spec_skip_ws(s@, add_pair_end(s@, spec_skip_ws(s@, pos as int))),
        ) ==> match r {
            Result::Ok((e, np)) => np == add_pair_end(s@, spec_skip_ws(s@, pos as int))
                && add_pair_matches(s@, spec_skip_ws(s@, pos as int), *e),
            Result::Err(_) => false,
        },
        add_triple_at(s@, spec_skip_ws(s@, pos as int)) && ends_cmp(
            s@,
            spec_skip_ws(s@, add_triple_end(s@, spec_skip_ws(s@, pos as int))),
        ) ==> match r {
            Result::Ok((e, np)) => np == add_triple_end(s@, spec_skip_ws(s@, pos as int))
                && add_triple_matches(s@, spec_skip_ws(s@, pos as int), *e),
            Result::Err(_) => false,
        },
        stuck_word_at(s@, spec_skip_ws(s@, pos as int)) ==> gives_expr_start_fail(
            s@,
            spec_skip_ws(s@, pos as int),
            r,
        ),
        put_form_at(s@, pos as int) ==> match r {
            Result::Ok((e, np)) => np == put_close_at(s@, pos as int) + 1 && get_form_matches(
                s@,
                pos as int,
                *e,
            ),
            Result::Err(_) => false,
        },
        app_form_at(s@, pos as int) ==> match r {
            Result::Ok((e, np)) => np == app_form_end(s@, pos as int) && app_form_matches(
                s@,
                pos as int,
                *e,
            ),
            Result::Err(_) => false,
        },
    decreases s@.len() - pos, 6int,
{
    let i = skip_ws(s, pos);
    let (l, np) = match p_add(s, i) {
        Result::Ok(v) => v,
        Result::Err(f) => return Result::Err(f),
    };
    let k = skip_ws(s, np);
    if k < s.len() && s[k] == 61 {
        let (r2, np2) = match p_add(s, k + 1) {
            Result::Ok(v) => v,
            Result::Err(f) => return Result::Err(f),
        };
        return Result::Ok((crate::ast::Eq::new(l, r2, i, np2), np2));
    }
    if k < s.len() && s[k] == 60 && k + 1 < s.len() && s[k + 1] == 61 {
        let (r2, np2) = match p_add(s, k + 2) {
            Result::Ok(v) => v,
            Result::Err(f) => return Result::Err(f),
        };
        return Result::Ok((LessEq::new(l, r2, i, np2), np2));
    }
    Result::Ok((l, np))
}

/// Array store: a comparison that parsed as an array subscript, followed
/// by `<-` and the value to store, extending to the right.
fn p_put(s: &[u8], pos: usize) -> (r: Result<(Expr, usize), Fail>)
    requires
        pos <= s@.len(),
    ensures
        parse_res_ok(s@, pos as int, r),
        factor_at(s@, spec_skip_ws(s@, pos as int)) && ends_expr(
            s@,
            spec_skip_ws(s@, factor_end(s@, spec_skip_ws(s@, pos as int))),
        ) ==> gives_factor(s@, spec_skip_ws(s@, pos as int), r),
        add_pair_at(s@, spec_skip_ws(s@, pos as int)) && ends_expr(
            s@,
            spec_skip_ws(s@, add_pair_end(s@, spec_skip_ws(s@, pos as int))),
        ) ==> match r {
            Result::Ok((e, np)) => np == add_pair_end(s@, spec_skip_ws(s@, pos as int))
                && add_pair_matches(s@, spec_skip_ws(s@, pos as int), *e),
            Result::Err(_) => false,
        },
        add_triple_at(s@, spec_skip_ws(s@, pos as int)) && ends_expr(
            s@,
            spec_skip_ws(s@, add_triple_end(s@, spec_skip_ws(s@, pos as int))),
        ) ==> match r {
            Result::Ok((e, np)) => np == add_triple_end(s@, spec_skip_ws(s@, pos as int))
                && add_triple_matches(s@, spec_skip_ws(s@, pos as int), *e),
            Result::Err(_) => false,
        },
        stuck_word_at(s@, spec_skip_ws(s@, pos as int)) ==> gives_expr_start_fail(
            s@,
            spec_skip_ws(s@, pos as int),
            r,
        ),
        put_form_at(s@, pos as int) ==> match r {
            Result::Ok((e, np)) => np == put_form_end(s@, pos as int) && put_form_matches(
                s@,
                pos as int,
                *e,
            ),
            Result::Err(_) => false,
        },
        app_form_at(s@, pos as int) ==> match r {
            Result::Ok((e, np)) => np == app_form_end(s@, pos as int) && app_form_matches(
                s@,
                pos as int,
                *e,
            ),
            Result::Err(_) => false,
        },
    decreases s@.len() - pos, 7int,
{
    let i = skip_ws(s, pos);
    let (c, np) = match p_cmp(s, i) {
        Result::Ok(v) => v,
        Result::Err(f) => return Result::Err(f),
    };
    let k = skip_ws(s, np);
    if k < s.len() && s[k] == 60 && k + 1 < s.len() && s[k + 1] == 45 {
        match *c {
            Node::Get(g) => {
                let (v, np2) = match p_put(s, k + 2) {
                    Result::Ok(v) => v,
                    Result::Err(f) => return Result::Err(f),
                };
                return Result::Ok((Put::new(g.array, g.index, v, i, np2), np2));
            },
            n => {
                return Result::Ok((Box::new(n), np));
            },
        }
    }
    Result::Ok((c, np))
}

/// The expression rule: the binding forms `let`, `let rec` and
/// `let (…) = … in …`, the conditional, and otherwise the operator
/// tiers. A binding form extends to the right over the rest of the
/// input.
#[verifier::loop_isolation(false)]
#[verifier::rlimit(60)]
fn p_expr(s: &[u8], pos: usize) -> (r: Result<(Expr, usize), Fail>)
    requires
        pos <= s@.len(),
    ensures
        parse_res_ok(s@, pos as int, r),
        factor_at(s@, spec_skip_ws(s@, pos as int)) && ends_expr(
            s@,
            spec_skip_ws(s@, factor_end(s@, spec_skip_ws(s@, pos as int))),
        ) ==> gives_factor(s@, spec_skip_ws(s@, pos as int), r),
        add_pair_at(s@, spec_skip_ws(s@, pos as int)) && ends_expr(
            s@,
            spec_skip_ws(s@, add_pair_end(s@, spec_skip_ws(s@, pos as int))),
        ) ==> match r {
            Result::Ok((e, np)) => np == add_pair_end(s@, spec_skip_ws(s@, pos as int))
                && add_pair_matches(s@, spec_skip_ws(s@, pos as int), *e),
            Result::Err(_) => false,
        },
        add_triple_at(s@, spec_skip_ws(s@, pos as int)) && ends_expr(
            s@,
            spec_skip_ws(s@, add_triple_end(s@, spec_skip_ws(s@, pos as int))),
        ) ==> match r {
            Result::Ok((e, np)) => np == add_triple_end(s@, spec_skip_ws(s@, pos as int))
                && add_triple_matches(s@, spec_skip_ws(s@, pos as int), *e),
            Result::Err(_) => false,
        },
        stuck_word_at(s@, spec_skip_ws(s@, pos as int)) ==> gives_expr_start_fail(
            s@,
            spec_skip_ws(s@, pos as int),
            r,
        ),
        let_missing_bound(s@, pos as int) ==> gives_expr_start_fail(
            s@,
            missing_bound_at(s@, pos as int),
            r,
        ),
        letrec_no_params(s@, pos as int) ==> gives_fail1(
            s@,
            letrec_eq_at(s@, pos as int),
            "identifier"@,
            r,
        ),
        lettuple_one_name(s@, pos as int) ==> gives_fail1(
            s@,
            lettuple_close_at(s@, pos as int),
            ","@,
            r,
        ),
        put_form_at(s@, pos as int) ==> match r {
            Result::Ok((e, np)) => np == put_form_end(s@, pos as int) && put_form_matches(
                s@,
                pos as int,
                *e,
            ),
            Result::Err(_) => false,
        },
        app_form_at(s@, pos as int) ==> match r {
            Result::Ok((e, np)) => np == app_form_end(s@, pos as int) && app_form_matches(
                s@,
                pos as int,
                *e,
            ),
            Result::Err(_) => false,
        },
        let_form_at(s@, pos as int) ==> match r {
            Result::Ok((e, np)) => np == let_form_end(s@, pos as int) && let_form_matches(
                s@,
                pos as int,
                *e,
            ),
            Result::Err(_) => false,
        },
    decreases s@.len() - pos, 8int,
{
    let i = skip_ws(s, pos);
    if i < s.len() && ((97 <= s[i] && s[i] <= 122) || s[i] == 95) {
        let j = ident_end(s, i);
        if word_if(s, i, j) {
            let (cond, np1) = match p_expr(s, j) {
                Result::Ok(v) => v,
                Result::Err(f) => return Result::Err(f),
            };
            let np2 = match expect_thn(s, np1) {
                Result::Ok(v) => v,
                Result::Err(f) => return Result::Err(f),
            };
            let (th, np3) = match p_expr(s, np2) {
                Result::Ok(v) => v,
                Result::Err(f) => return Result::Err(f),
            };
            let np4 = match expect_else(s, np3) {
                Result::Ok(v) => v,
                Result::Err(f) => return Result::Err(f),
            };
            let (el, np5) = match p_expr(s, np4) {
                Result::Ok(v) => v,
                Result::Err(f) => return Result::Err(f),
            };
            return Result::Ok((If::new(cond, th, el, i, np5), np5));
        }
        if word_let(s, i, j) {
            let k = skip_ws(s, j);
            if k < s.len() && s[k] == 40 {
                // let (x, y, …) = bound in body
                let m = skip_ws(s, k + 1);
                let j1 = match ident_at(s, m) {
                    Option::Some(v) => v,
                    Option::None => return Result::Err(fail1(m, "identifier")),
                };
                let mut names: Vec<String> = Vec::new();
                names.push(range_string(s, m, j1));
                let mut cur: usize = skip_ws(s, j1);
                if !(cur < s.len() && s[cur] == 44) {
                    return Result::Err(fail1(cur, ","));
                }
                while cur < s.len() && s[cur] == 44
                    invariant
                        i < cur <= s@.len(),
                        names@.len() >= 1,
                    decreases s@.len() - cur,
                {
                    let m2 = skip_ws(s, cur + 1);
                    let j2 = match ident_at(s, m2) {
                        Option::Some(v) => v,
                        Option::None => return Result::Err(fail1(m2, "identifier")),
                    };
                    names.push(range_string(s, m2, j2));
                    cur = skip_ws(s, j2);
                }
                if !(cur < s.len() && s[cur] == 41) {
                    return Result::Err(fail2(cur, ",", ")"));
                }
                let cur2 = skip_ws(s, cur + 1);
                if !(cur2 < s.len() && s[cur2] == 61) {
                    return Result::Err(fail1(cur2, "="));
                }
                let (bound, npb) = match p_expr(s, cur2 + 1) {
                    Result::Ok(v) => v,
                    Result::Err(f) => return Result::Err(f),
                };
                let npin = match expect_in(s, npb) {
                    Result::Ok(v) => v,
                    Result::Err(f) => return Result::Err(f),
                };
                let (body, npc) = match p_expr(s, npin) {
                    Result::Ok(v) => v,
                    Result::Err(f) => return Result::Err(f),
                };
                return Result::Ok((LetTuple::new(names, bound, body, i, npc), npc));
            }
            let j2 = ident_end(s, k);
            if word_rec(s, k, j2) {
                // let rec name p1 … = bound in body, with at least one
                // parameter
                let m = skip_ws(s, j2);
                let ne = match ident_at(s, m) {
                    Option::Some(v) => v,
                    Option::None => return Result::Err(fail1(m, "identifier")),
                };
                let name = range_string(s, m, ne);
                let mut params: Vec<String> = Vec::new();
                let mut cur: usize = skip_ws(s, ne);
                loop
                    invariant
                        i < cur <= s@.len(),
                        (letrec_no_params(s@, pos as int) ==> cur == letrec_eq_at(s@, pos as int)
                            && params@.len() == 0),
                    decreases s@.len() - cur,
                {
                    match ident_at(s, cur) {
                        Option::Some(pe) => {
                            params.push(range_string(s, cur, pe));
                            cur = skip_ws(s, pe);
                        },
                        Option::None => {
                            break;
                        },
                    }
                }
                if params.len() == 0 {
                    return Result::Err(fail1(cur, "identifier"));
                }
                if !(cur < s.len() && s[cur] == 61) {
                    return Result::Err(fail1(cur, "="));
                }
                let (bound, npb) = match p_expr(s, cur + 1) {
                    Result::Ok(v) => v,
                    Result::Err(f) => return Result::Err(f),
                };
                let npin = match expect_in(s, npb) {
                    Result::Ok(v) => v,
                    Result::Err(f) => return Result::Err(f),
                };
                let (body, npc) = match p_expr(s, npin) {
                    Result::Ok(v) => v,
                    Result::Err(f) => return Result::Err(f),
                };
                return Result::Ok((LetRec::new(name, params, bound, body, i, npc), npc));
            }
            // let name = bound in body
            let ne = match ident_at(s, k) {
                Option::Some(v) => v,
                Option::None => return Result::Err(fail2(k, "identifier", "(")),
            };
            let name = range_string(s, k, ne);
            let cur = skip_ws(s, ne);
            if !(cur < s.len() && s[cur] == 61) {
                return Result::Err(fail1(cur, "="));
            }
            let (bound, npb) = match p_expr(s, cur + 1) {
                Result::Ok(v) => v,
                Result::Err(f) => return Result::Err(f),
            };
            let npin = match expect_in(s, npb) {
                Result::Ok(v) => v,
                Result::Err(f) => return Result::Err(f),
            };
            let (body, npc) = match p_expr(s, npin) {
                Result::Ok(v) => v,
                Result::Err(f) => return Result::Err(f),
            };
            return Result::Ok((Let::new(name, bound, body, i, npc), npc));
        }
    }
    p_put(s, pos)
}

/// Parses one whole expression: the entry rule of the grammar. Trailing
/// whitespace is allowed; any other trailing input fails.
pub fn expr(s: &[u8]) -> (r: Result<Expr, Fail>)
    ensures
        match r {
            Result::Ok(e) => {
                &&& node_wf(*e)
                &&& (*e).pos().start_byte_index == spec_skip_ws(s@, 0)
                &&& (*e).pos().start_byte_index < (*e).pos().end_byte_index
                &&& (*e).pos().end_byte_index <= s@.len()
                &&& spec_skip_ws(s@, (*e).pos().end_byte_index as int) == s@.len()
            },
            Result::Err(f) => fail_ok(s@, 0, f),
        },
        token_at(s@, spec_skip_ws(s@, 0)) && spec_skip_ws(
            s@,
            token_end(s@, spec_skip_ws(s@, 0)),
        ) == s@.len() ==> match r {
            Result::Ok(e) => token_matches(s@, spec_skip_ws(s@, 0), *e),
            Result::Err(_) => false,
        },
        factor_at(s@, spec_skip_ws(s@, 0)) && spec_skip_ws(
            s@,
            factor_end(s@, spec_skip_ws(s@, 0)),
        ) == s@.len() ==> match r {
            Result::Ok(e) => factor_matches(s@, spec_skip_ws(s@, 0), *e),
            Result::Err(_) => false,
        },
        add_pair_at(s@, spec_skip_ws(s@, 0)) && spec_skip_ws(
            s@,
            add_pair_end(s@, spec_skip_ws(s@, 0)),
        ) == s@.len() ==> match r {
            Result::Ok(e) => add_pair_matches(s@, spec_skip_ws(s@, 0), *e),
            Result::Err(_) => false,
        },
        add_triple_at(s@, spec_skip_ws(s@, 0)) && spec_skip_ws(
            s@,
            add_triple_end(s@, spec_skip_ws(s@, 0)),
        ) == s@.len() ==> match r {
            Result::Ok(e) => add_triple_matches(s@, spec_skip_ws(s@, 0), *e),
            Result::Err(_) => false,
        },
        let_missing_bound(s@, 0) ==> match r {
            Result::Ok(_) => false,
            Result::Err(f) => f.offset == missing_bound_at(s@, 0) && f.expected@.map_values(
                |x: String| x@,
            ) == expr_start_labels(),
        },
        letrec_no_params(s@, 0) ==> match r {
            Result::Ok(_) => false,
            Result::Err(f) => f.offset == letrec_eq_at(s@, 0) && f.expected@.map_values(
                |x: String| x@,
            ) == seq!["identifier"@],
        },
        put_form_at(s@, 0) && spec_skip_ws(s@, put_form_end(s@, 0)) == s@.len() ==> match r {
            Result::Ok(e) => put_form_matches(s@, 0, *e),
            Result::Err(_) => false,
        },
        app_form_at(s@, 0) && spec_skip_ws(s@, app_form_end(s@, 0)) == s@.len() ==> match r {
            Result::Ok(e) => app_form_matches(s@, 0, *e),
            Result::Err(_) => false,
        },
        let_form_at(s@, 0) && spec_skip_ws(s@, let_form_end(s@, 0)) == s@.len() ==> match r {
            Result::Ok(e) => let_form_matches(s@, 0, *e),
            Result::Err(_) => false,
        },
        lettuple_one_name(s@, 0) ==> match r {
            Result::Ok(_) => false,
            Result::Err(f) => f.offset == lettuple_close_at(s@, 0) && f.expected@.map_values(
                |x: String| x@,
            ) == seq![","@],
        },
{
    let (e, np) = match p_expr(s, 0) {
        Result::Ok(v) => v,
        Result::Err(f) => return Result::Err(f),
    };
    let k = skip_ws(s, np);
    if k < s.len() {
        return Result::Err(fail1(k, "end of input"));
    }
    Result::Ok(e)
}

} // verus!
