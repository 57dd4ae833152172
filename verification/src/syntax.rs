//! The abstract syntax of the expression language: operators, expressions,
//! function definitions, and whole programs; their mathematical views; and
//! the size measure used to bound the compiler's stack indices and label
//! counter.

use vstd::prelude::*;

verus! {

/// Unary operators.
#[derive(Clone, Copy, Debug, PartialEq, Eq)]
pub enum Op1 {
    Add1,
    Sub1,
    IsNum,
    IsBool,
}

/// Binary operators.
#[derive(Clone, Copy, Debug, PartialEq, Eq)]
pub enum Op2 {
    Plus,
    Minus,
    Times,
    Equal,
    Less,
    LessEqual,
    Greater,
    GreaterEqual,
}

/// An expression of the source language.  Every variant is a pure value;
/// nodes are never shared or mutated after parsing.
#[derive(Debug, PartialEq)]
pub enum Expr {
    /// A signed integer literal.
    Number(i64),
    /// `true` or `false`.
    Bool(bool),
    /// An identifier reference; `input` is the distinguished name of the
    /// program argument.
    Var(String),
    /// `(let ((x e) ...) body)`: each binding's right-hand side is evaluated
    /// in the environment extended with the previous bindings of the same
    /// `let`.
    Let(Vec<(String, Expr)>, Box<Expr>),
    /// `(op e)` for a unary operator.
    UnOp(Op1, Box<Expr>),
    /// `(op e1 e2)` for a binary operator.
    BinOp(Op2, Box<Expr>, Box<Expr>),
    /// `(if cond then else)`.
    If(Box<Expr>, Box<Expr>, Box<Expr>),
    /// `(loop body)`: evaluates the body until a `break`.
    Loop(Box<Expr>),
    /// `(break e)`: leaves the innermost loop with the value of `e`.
    Break(Box<Expr>),
    /// `(set! x e)`: assigns to an existing binding.
    Assign(String, Box<Expr>),
    /// `(block e ...)`: evaluates in order, returns the last value.
    Block(Vec<Expr>),
    /// `(print e)`: evaluates, prints, and returns the value.
    Print(Box<Expr>),
    /// `(tuple e ...)`: a heap-allocated tuple; arity may be zero.
    Tuple(Vec<Expr>),
    /// `(index t i)`: reads a tuple element.
    Index(Box<Expr>, Box<Expr>),
    /// `(tuple-set t i e)`: writes a tuple element, returns the tuple.
    TupleSet(Box<Expr>, Box<Expr>, Box<Expr>),
    /// `(tuple-len t)`: the length of a tuple, number-encoded.
    TupleLen(Box<Expr>),
    /// `(f e ...)`: a call to a user-defined function.
    Call(String, Vec<Expr>),
}

/// A user function definition: name, parameters, body.
#[derive(Debug, PartialEq)]
pub struct FunDef {
    pub name: String,
    pub params: Vec<String>,
    pub body: Expr,
}

/// A whole program: the function definitions followed by the main expression.
#[derive(Debug, PartialEq)]
pub struct Program {
    pub defs: Vec<FunDef>,
    pub main: Expr,
}

/// The mathematical view of an expression: names are character sequences and
/// expression lists are sequences.
pub enum ExprV {
    Number(i64),
    Bool(bool),
    Var(Seq<char>),
    Let(Seq<(Seq<char>, ExprV)>, Box<ExprV>),
    UnOp(Op1, Box<ExprV>),
    BinOp(Op2, Box<ExprV>, Box<ExprV>),
    If(Box<ExprV>, Box<ExprV>, Box<ExprV>),
    Loop(Box<ExprV>),
    Break(Box<ExprV>),
    Assign(Seq<char>, Box<ExprV>),
    Block(Seq<ExprV>),
    Print(Box<ExprV>),
    Tuple(Seq<ExprV>),
    Index(Box<ExprV>, Box<ExprV>),
    TupleSet(Box<ExprV>, Box<ExprV>, Box<ExprV>),
    TupleLen(Box<ExprV>),
    Call(Seq<char>, Seq<ExprV>),
}

/// The view of a function definition.
pub struct FunDefV {
    pub name: Seq<char>,
    pub params: Seq<Seq<char>>,
    pub body: ExprV,
}

/// The view of a program.
pub struct ProgramV {
    pub defs: Seq<FunDefV>,
    pub main: ExprV,
}

/// The view of an expression.
pub open spec fn ev(e: Expr) -> ExprV
    decreases e,
{
    match e {
        Expr::Number(n) => ExprV::Number(n),
        Expr::Bool(b) => ExprV::Bool(b),
        Expr::Var(x) => ExprV::Var(x@),
        Expr::Let(bs, body) => ExprV::Let(ebs(bs@), Box::new(ev(*body))),
        Expr::UnOp(op, e1) => ExprV::UnOp(op, Box::new(ev(*e1))),
        Expr::BinOp(op, e1, e2) => ExprV::BinOp(op, Box::new(ev(*e1)), Box::new(ev(*e2))),
        Expr::If(c, t, f) => ExprV::If(Box::new(ev(*c)), Box::new(ev(*t)), Box::new(ev(*f))),
        Expr::Loop(b) => ExprV::Loop(Box::new(ev(*b))),
        Expr::Break(b) => ExprV::Break(Box::new(ev(*b))),
        Expr::Assign(x, e1) => ExprV::Assign(x@, Box::new(ev(*e1))),
        Expr::Block(es) => ExprV::Block(evs(es@)),
        Expr::Print(e1) => ExprV::Print(Box::new(ev(*e1))),
        Expr::Tuple(es) => ExprV::Tuple(evs(es@)),
        Expr::Index(t, i) => ExprV::Index(Box::new(ev(*t)), Box::new(ev(*i))),
        Expr::TupleSet(t, i, e1) => ExprV::TupleSet(
            Box::new(ev(*t)),
            Box::new(ev(*i)),
            Box::new(ev(*e1)),
        ),
        Expr::TupleLen(t) => ExprV::TupleLen(Box::new(ev(*t))),
        Expr::Call(f, es) => ExprV::Call(f@, evs(es@)),
    }
}

/// The views of a sequence of expressions.
pub open spec fn evs(es: Seq<Expr>) -> Seq<ExprV>
    decreases es,
{
    if es.len() == 0 {
        Seq::empty()
    } else {
        seq![ev(es[0])] + evs(es.subrange(1, es.len() as int))
    }
}

/// The views of a binding list.
pub open spec fn ebs(bs: Seq<(String, Expr)>) -> Seq<(Seq<char>, ExprV)>
    decreases bs,
{
    if bs.len() == 0 {
        Seq::empty()
    } else {
        seq![(bs[0].0@, ev(bs[0].1))] + ebs(bs.subrange(1, bs.len() as int))
    }
}

/// The views of a parameter list.
pub open spec fn pvs(ps: Seq<String>) -> Seq<Seq<char>> {
    ps.map_values(|p: String| p@)
}

/// The views of a definition list.
pub open spec fn dvs(ds: Seq<FunDef>) -> Seq<FunDefV> {
    ds.map_values(|d: FunDef| d@)
}

impl View for Expr {
    type V = ExprV;

    open spec fn view(&self) -> ExprV {
        ev(*self)
    }
}

impl View for FunDef {
    type V = FunDefV;

    open spec fn view(&self) -> FunDefV {
        FunDefV { name: self.name@, params: pvs(self.params@), body: ev(self.body) }
    }
}

impl View for Program {
    type V = ProgramV;

    open spec fn view(&self) -> ProgramV {
        ProgramV { defs: dvs(self.defs@), main: ev(self.main) }
    }
}

pub broadcast proof fn lemma_evs_len(es: Seq<Expr>)
    ensures
        #[trigger] evs(es).len() == es.len(),
    decreases es,
{
    if es.len() > 0 {
        lemma_evs_len(es.subrange(1, es.len() as int));
    }
}

pub broadcast proof fn lemma_evs_index(es: Seq<Expr>, i: int)
    requires
        0 <= i < es.len(),
    ensures
        #[trigger] evs(es)[i] == ev(es[i]),
    decreases es,
{
    lemma_evs_len(es);
    if i > 0 {
        lemma_evs_index(es.subrange(1, es.len() as int), i - 1);
    }
}

pub broadcast proof fn lemma_ebs_len(bs: Seq<(String, Expr)>)
    ensures
        #[trigger] ebs(bs).len() == bs.len(),
    decreases bs,
{
    if bs.len() > 0 {
        lemma_ebs_len(bs.subrange(1, bs.len() as int));
    }
}

pub broadcast proof fn lemma_ebs_index(bs: Seq<(String, Expr)>, i: int)
    requires
        0 <= i < bs.len(),
    ensures
        #[trigger] ebs(bs)[i] == (bs[i].0@, ev(bs[i].1)),
    decreases bs,
{
    lemma_ebs_len(bs);
    if i > 0 {
        lemma_ebs_index(bs.subrange(1, bs.len() as int), i - 1);
    }
}

pub proof fn lemma_evs_push(es: Seq<Expr>, x: Expr)
    ensures
        evs(es.push(x)) == evs(es).push(ev(x)),
{
    broadcast use lemma_evs_len, lemma_evs_index;

    assert(evs(es.push(x)) =~= evs(es).push(ev(x)));
}

pub proof fn lemma_ebs_push(bs: Seq<(String, Expr)>, x: (String, Expr))
    ensures
        ebs(bs.push(x)) == ebs(bs).push((x.0@, ev(x.1))),
{
    broadcast use lemma_ebs_len, lemma_ebs_index;

    assert(ebs(bs.push(x)) =~= ebs(bs).push((x.0@, ev(x.1))));
}

/// A size measure on expression views.  Each node weighs two plus its
/// children, which dominates every stack index and label count the compiler
/// can reach from it; see `prog_fits`.
pub open spec fn esize(e: ExprV) -> nat
    decreases e,
{
    match e {
        ExprV::Number(_) => 2,
        ExprV::Bool(_) => 2,
        ExprV::Var(_) => 2,
        ExprV::Let(bs, body) => 2 + esize_bindings(bs) + esize(*body),
        ExprV::UnOp(_, e1) => 2 + esize(*e1),
        ExprV::BinOp(_, e1, e2) => 2 + esize(*e1) + esize(*e2),
        ExprV::If(c, t, f) => 2 + esize(*c) + esize(*t) + esize(*f),
        ExprV::Loop(b) => 2 + esize(*b),
        ExprV::Break(b) => 2 + esize(*b),
        ExprV::Assign(_, e1) => 2 + esize(*e1),
        ExprV::Block(es) => 2 + esize_list(es),
        ExprV::Print(e1) => 2 + esize(*e1),
        ExprV::Tuple(es) => 2 + esize_list(es),
        ExprV::Index(t, i) => 2 + esize(*t) + esize(*i),
        ExprV::TupleSet(t, i, e1) => 2 + esize(*t) + esize(*i) + esize(*e1),
        ExprV::TupleLen(t) => 2 + esize(*t),
        ExprV::Call(_, es) => 2 + esize_list(es),
    }
}

/// The summed size of a sequence of expression views.
pub open spec fn esize_list(es: Seq<ExprV>) -> nat
    decreases es,
{
    if es.len() == 0 {
        0
    } else {
        esize(es[0]) + esize_list(es.subrange(1, es.len() as int))
    }
}

/// The summed size of the right-hand sides of a binding list.
pub open spec fn esize_bindings(bs: Seq<(Seq<char>, ExprV)>) -> nat
    decreases bs,
{
    if bs.len() == 0 {
        0
    } else {
        esize(bs[0].1) + esize_bindings(bs.subrange(1, bs.len() as int))
    }
}

pub proof fn lemma_esize_pos(e: ExprV)
    ensures
        esize(e) >= 2,
{
}

pub proof fn lemma_esize_list_nonneg(es: Seq<ExprV>)
    ensures
        esize_list(es) >= 2 * es.len(),
    decreases es,
{
    if es.len() > 0 {
        lemma_esize_list_nonneg(es.subrange(1, es.len() as int));
        lemma_esize_pos(es[0]);
    }
}

pub proof fn lemma_esize_list_index(es: Seq<ExprV>, i: int)
    requires
        0 <= i < es.len(),
    ensures
        esize(es[i]) + 2 * (es.len() - 1) <= esize_list(es),
    decreases es,
{
    if i > 0 {
        lemma_esize_list_index(es.subrange(1, es.len() as int), i - 1);
        lemma_esize_pos(es[0]);
    } else {
        lemma_esize_list_nonneg(es.subrange(1, es.len() as int));
    }
}

pub proof fn lemma_esize_bindings_nonneg(bs: Seq<(Seq<char>, ExprV)>)
    ensures
        esize_bindings(bs) >= 2 * bs.len(),
    decreases bs,
{
    if bs.len() > 0 {
        lemma_esize_bindings_nonneg(bs.subrange(1, bs.len() as int));
        lemma_esize_pos(bs[0].1);
    }
}

pub proof fn lemma_esize_bindings_index(bs: Seq<(Seq<char>, ExprV)>, i: int)
    requires
        0 <= i < bs.len(),
    ensures
        esize(bs[i].1) + 2 * (bs.len() - 1) <= esize_bindings(bs),
    decreases bs,
{
    if i > 0 {
        lemma_esize_bindings_index(bs.subrange(1, bs.len() as int), i - 1);
        lemma_esize_pos(bs[0].1);
    } else {
        lemma_esize_bindings_nonneg(bs.subrange(1, bs.len() as int));
    }
}

pub proof fn lemma_defs_size_index(ds: Seq<FunDefV>, i: int)
    requires
        0 <= i < ds.len(),
    ensures
        fun_size(ds[i]) <= defs_size(ds),
    decreases ds,
{
    if i > 0 {
        lemma_defs_size_index(ds.subrange(1, ds.len() as int), i - 1);
    }
}

/// The size of a function definition view.
pub open spec fn fun_size(d: FunDefV) -> nat {
    3 + d.params.len() + esize(d.body)
}

/// The summed size of the function definitions.
pub open spec fn defs_size(ds: Seq<FunDefV>) -> nat
    decreases ds,
{
    if ds.len() == 0 {
        0
    } else {
        fun_size(ds[0]) + defs_size(ds.subrange(1, ds.len() as int))
    }
}

/// The size of a whole program view.
pub open spec fn prog_size(p: ProgramV) -> nat {
    3 + defs_size(p.defs) + esize(p.main)
}

/// The size bound under which every stack offset and label number the
/// compiler computes fits comfortably in a 64-bit machine integer.
pub const SIZE_LIMIT: u64 = 0x1000_0000_0000;

/// A program small enough that compiling it cannot overflow the compiler's
/// machine arithmetic.  This is a machine limit, not a language rule.
pub open spec fn prog_fits(p: ProgramV) -> bool {
    prog_size(p) <= SIZE_LIMIT
}

} // verus!

verus! {

fn size_add(a: u64, b: u64) -> (r: Option<u64>)
    ensures
        (match r {
            Some(n) => n == a + b,
            None => a + b > u64::MAX,
        }),
{
    if a <= u64::MAX - b {
        Some(a + b)
    } else {
        None
    }
}

/// The size of an expression, or nothing when it cannot be counted in 64
/// bits (such a program is far beyond the compiler's machine bound).
pub fn esize_check(e: &Expr) -> (r: Option<u64>)
    ensures
        (match r {
            Some(n) => n as nat == esize(e@),
            None => esize(e@) > u64::MAX,
        }),
    decreases esize(ev(*e)), 2int,
{
    match e {
        Expr::Number(_) => Some(2),
        Expr::Bool(_) => Some(2),
        Expr::Var(_) => Some(2),
        Expr::Let(bs, body) => {
            let nb = match esize_bindings_check(bs) {
                Some(n) => n,
                None => {
                    return None;
                },
            };
            let nbody = match esize_check(&**body) {
                Some(n) => n,
                None => {
                    return None;
                },
            };
            let s = match size_add(nb, nbody) {
                Some(n) => n,
                None => {
                    return None;
                },
            };
            size_add(2, s)
        },
        Expr::UnOp(_, e1) => {
            match esize_check(&**e1) {
                Some(n) => size_add(2, n),
                None => None,
            }
        },
        Expr::BinOp(_, e1, e2) => two_children(e1, e2),
        Expr::If(c, t, f) => {
            let n1 = match two_children(c, t) {
                Some(n) => n,
                None => {
                    return None;
                },
            };
            let n2 = match esize_check(&**f) {
                Some(n) => n,
                None => {
                    return None;
                },
            };
            size_add(n1, n2)
        },
        Expr::Loop(b) => {
            match esize_check(&**b) {
                Some(n) => size_add(2, n),
                None => None,
            }
        },
        Expr::Break(b) => {
            match esize_check(&**b) {
                Some(n) => size_add(2, n),
                None => None,
            }
        },
        Expr::Assign(_, e1) => {
            match esize_check(&**e1) {
                Some(n) => size_add(2, n),
                None => None,
            }
        },
        Expr::Block(es) => {
            match esize_list_check(es) {
                Some(n) => size_add(2, n),
                None => None,
            }
        },
        Expr::Print(e1) => {
            match esize_check(&**e1) {
                Some(n) => size_add(2, n),
                None => None,
            }
        },
        Expr::Tuple(es) => {
            match esize_list_check(es) {
                Some(n) => size_add(2, n),
                None => None,
            }
        },
        Expr::Index(t, i) => two_children(t, i),
        Expr::TupleSet(t, i, e1) => {
            let n1 = match two_children(t, i) {
                Some(n) => n,
                None => {
                    return None;
                },
            };
            let n2 = match esize_check(&**e1) {
                Some(n) => n,
                None => {
                    return None;
                },
            };
            size_add(n1, n2)
        },
        Expr::TupleLen(t) => {
            match esize_check(&**t) {
                Some(n) => size_add(2, n),
                None => None,
            }
        },
        Expr::Call(_, es) => {
            match esize_list_check(es) {
                Some(n) => size_add(2, n),
                None => None,
            }
        },
    }
}

fn two_children(e1: &Box<Expr>, e2: &Box<Expr>) -> (r: Option<u64>)
    ensures
        (match r {
            Some(n) => n as nat == 2 + esize(ev(**e1)) + esize(ev(**e2)),
            None => 2 + esize(ev(**e1)) + esize(ev(**e2)) > u64::MAX,
        }),
    decreases esize(ev(**e1)) + esize(ev(**e2)), 2int,
{
    proof {
        lemma_esize_pos(ev(**e1));
        lemma_esize_pos(ev(**e2));
    }
    let n1 = match esize_check(&**e1) {
        Some(n) => n,
        None => {
            return None;
        },
    };
    let n2 = match esize_check(&**e2) {
        Some(n) => n,
        None => {
            return None;
        },
    };
    let s = match size_add(n1, n2) {
        Some(n) => n,
        None => {
            return None;
        },
    };
    size_add(2, s)
}

#[verifier::loop_isolation(false)]
fn esize_list_check(es: &Vec<Expr>) -> (r: Option<u64>)
    ensures
        (match r {
            Some(n) => n as nat == esize_list(evs(es@)),
            None => esize_list(evs(es@)) > u64::MAX,
        }),
    decreases esize_list(evs(es@)), 3int,
{
    let ghost esv = evs(es@);
    let mut acc: u64 = 0;
    let mut i: usize = 0;
    proof {
        lemma_evs_len(es@);
        assert(esv.subrange(0, esv.len() as int) =~= esv);
    }
    while i < es.len()
        invariant
            i <= es@.len(),
            es@.len() == esv.len(),
            acc + esize_list(esv.subrange(i as int, esv.len() as int)) == esize_list(esv),
        decreases es@.len() - i,
    {
        proof {
            broadcast use lemma_evs_index, lemma_evs_len;

            assert(esv.subrange(i as int, esv.len() as int)[0] == esv[i as int]);
            assert(esv.subrange(i as int, esv.len() as int).subrange(
                1,
                esv.len() - i as int,
            ) =~= esv.subrange(i as int + 1, esv.len() as int));
            lemma_esize_list_index(esv, i as int);
        }
        let n = match esize_check(&es[i]) {
            Some(n) => n,
            None => {
                return None;
            },
        };
        acc = match size_add(acc, n) {
            Some(a) => a,
            None => {
                return None;
            },
        };
        i = i + 1;
    }
    proof {
        assert(esv.subrange(esv.len() as int, esv.len() as int) =~= Seq::<ExprV>::empty());
    }
    Some(acc)
}

#[verifier::loop_isolation(false)]
fn esize_bindings_check(bs: &Vec<(String, Expr)>) -> (r: Option<u64>)
    ensures
        (match r {
            Some(n) => n as nat == esize_bindings(ebs(bs@)),
            None => esize_bindings(ebs(bs@)) > u64::MAX,
        }),
    decreases esize_bindings(ebs(bs@)), 3int,
{
    let ghost bsv = ebs(bs@);
    let mut acc: u64 = 0;
    let mut i: usize = 0;
    proof {
        lemma_ebs_len(bs@);
        assert(bsv.subrange(0, bsv.len() as int) =~= bsv);
    }
    while i < bs.len()
        invariant
            i <= bs@.len(),
            bs@.len() == bsv.len(),
            acc + esize_bindings(bsv.subrange(i as int, bsv.len() as int)) == esize_bindings(bsv),
        decreases bs@.len() - i,
    {
        proof {
            broadcast use lemma_ebs_index, lemma_ebs_len;

            assert(bsv.subrange(i as int, bsv.len() as int)[0] == bsv[i as int]);
            assert(bsv.subrange(i as int, bsv.len() as int).subrange(
                1,
                bsv.len() - i as int,
            ) =~= bsv.subrange(i as int + 1, bsv.len() as int));
            lemma_esize_bindings_index(bsv, i as int);
        }
        let n = match esize_check(&bs[i].1) {
            Some(n) => n,
            None => {
                return None;
            },
        };
        acc = match size_add(acc, n) {
            Some(a) => a,
            None => {
                return None;
            },
        };
        i = i + 1;
    }
    proof {
        assert(bsv.subrange(bsv.len() as int, bsv.len() as int) =~= Seq::<
            (Seq<char>, ExprV),
        >::empty());
    }
    Some(acc)
}

/// Whether a program is within the compiler's machine bound; the guard the
/// driver tests before compiling.
#[verifier::loop_isolation(false)]
pub fn prog_fits_check(p: &Program) -> (r: bool)
    ensures
        r == prog_fits(p@),
{
    let ghost dv = p@.defs;
    let mut acc: u64 = 3;
    let mut i: usize = 0;
    proof {
        assert(dv.subrange(0, dv.len() as int) =~= dv);
    }
    while i < p.defs.len()
        invariant
            i <= p.defs@.len(),
            p.defs@.len() == dv.len(),
            acc == 3 + defs_size(dv) - defs_size(dv.subrange(i as int, dv.len() as int))
                || (acc == u64::MAX && 3 + defs_size(dv) - defs_size(
                dv.subrange(i as int, dv.len() as int),
            ) >= u64::MAX),
        decreases p.defs@.len() - i,
    {
        proof {
            assert(dv.subrange(i as int, dv.len() as int)[0] == dv[i as int]);
            assert(dv.subrange(i as int, dv.len() as int).subrange(
                1,
                dv.len() - i as int,
            ) =~= dv.subrange(i as int + 1, dv.len() as int));
            assert(dv[i as int] == p.defs@[i as int]@);
        }
        let d = &p.defs[i];
        let nb = match esize_check(&d.body) {
            Some(n) => n,
            None => {
                return false;
            },
        };
        let plen = d.params.len();
        let fs: u64 = {
            let s1 = match size_add(nb, 3) {
                Some(n) => n,
                None => {
                    return false;
                },
            };
            match size_add(s1, plen as u64) {
                Some(n) => n,
                None => {
                    return false;
                },
            }
        };
        acc = match size_add(acc, fs) {
            Some(n) => n,
            None => {
                if acc == u64::MAX {
                    acc
                } else {
                    u64::MAX
                }
            },
        };
        proof {
            if acc == u64::MAX {
            }
        }
        i = i + 1;
    }
    proof {
        assert(dv.subrange(dv.len() as int, dv.len() as int) =~= Seq::<FunDefV>::empty());
    }
    let nm = match esize_check(&p.main) {
        Some(n) => n,
        None => {
            return false;
        },
    };
    let total = match size_add(acc, nm) {
        Some(n) => n,
        None => {
            return false;
        },
    };
    total <= SIZE_LIMIT
}

} // verus!
