//! The parser: surface S-expressions to the abstract syntax tree, with
//! identifier validation, arity checks on the special forms, and
//! function-definition discovery.  Each executable function returns exactly
//! what its specification function says, result and error alike.

use vstd::prelude::*;
use vstd::string::StringExecFns;
use vstd::string::StrSliceExecFns;
use crate::surface::{SExp, surface_of, read_surface};
use crate::syntax::{Expr, ExprV, FunDef, FunDefV, Program, ProgramV, Op1, Op2, ev, ebs, evs, pvs, dvs, lemma_evs_push, lemma_ebs_push, lemma_ebs_len, lemma_ebs_index};
use crate::errors::CompErr;
use crate::envmap::{names_new, names_contains, names_insert, name_members};

verus! {

/// Whether a character counts as lowercase; what char::is_lowercase returns.
pub uninterp spec fn char_is_lowercase(c: char) -> bool;

/// Relies on char::is_lowercase: a property of the character alone.
pub assume_specification[ char::is_lowercase ](c: char) -> (r: bool)
    ensures
        r == char_is_lowercase(c),
;

/// Whether a character counts as alphanumeric; what char::is_alphanumeric
/// returns.
pub uninterp spec fn char_is_alphanumeric(c: char) -> bool;

/// Relies on char::is_alphanumeric: a property of the character alone.
pub assume_specification[ char::is_alphanumeric ](c: char) -> (r: bool)
    ensures
        r == char_is_alphanumeric(c),
;

/// The reserved words: literals, special forms, and operator names.
pub open spec fn is_reserved(x: Seq<char>) -> bool {
    ||| x == "true"@
    ||| x == "false"@
    ||| x == "input"@
    ||| x == "let"@
    ||| x == "set!"@
    ||| x == "if"@
    ||| x == "block"@
    ||| x == "loop"@
    ||| x == "break"@
    ||| x == "print"@
    ||| x == "fun"@
    ||| x == "tuple"@
    ||| x == "index"@
    ||| x == "add1"@
    ||| x == "sub1"@
    ||| x == "isnum"@
    ||| x == "isbool"@
    ||| x == "+"@
    ||| x == "-"@
    ||| x == "*"@
    ||| x == "="@
    ||| x == "<"@
    ||| x == "<="@
    ||| x == ">"@
    ||| x == ">="@
}

/// A valid identifier: non-empty, starts with a lowercase letter, contains
/// only alphanumeric characters and underscores, and is not reserved.
pub open spec fn valid_id(x: Seq<char>) -> bool {
    &&& x.len() > 0
    &&& char_is_lowercase(x[0])
    &&& forall|i: int|
        0 <= i < x.len() ==> (#[trigger] char_is_alphanumeric(x[i]) || x[i] == '_')
    &&& !is_reserved(x)
}

/// Two names in the sequence coincide.
pub open spec fn has_dup(names: Seq<Seq<char>>) -> bool {
    exists|i: int, j: int| #![trigger names[i], names[j]] 0 <= i < j < names.len() && names[i] == names[j]
}

/// The names of a binding list.
pub open spec fn binding_names(bs: Seq<(Seq<char>, ExprV)>) -> Seq<Seq<char>> {
    bs.map_values(|b: (Seq<char>, ExprV)| b.0)
}

/// What parsing an expression returns.
pub open spec fn sp_expr(s: SExp) -> Result<ExprV, CompErr>
    decreases s, 3int,
{
    match s {
        SExp::Integer(i) => Ok(ExprV::Number(i)),
        SExp::Symbol(x) => {
            if x@ == "true"@ {
                Ok(ExprV::Bool(true))
            } else if x@ == "false"@ {
                Ok(ExprV::Bool(false))
            } else if x@ == "input"@ {
                Ok(ExprV::Var(x@))
            } else if valid_id(x@) {
                Ok(ExprV::Var(x@))
            } else {
                Err(CompErr::InvalidIdent(x))
            }
        },
        SExp::Float => Err(CompErr::InvalidExpr),
        SExp::List(v) => sp_form(v@),
    }
}

/// What parsing a parenthesised form returns.  The shapes are tried in a
/// fixed order; a head symbol that matches no special form is a call.
pub open spec fn sp_form(v: Seq<SExp>) -> Result<ExprV, CompErr>
    decreases v, 2int,
{
    if v.len() >= 1 && v[0] is Symbol {
        let op = v[0]->Symbol_0;
        if v.len() == 3 && op@ == "let"@ {
            match sp_bindings(v[1]) {
                Err(e) => Err(e),
                Ok(bs) => match sp_expr(v[2]) {
                    Err(e) => Err(e),
                    Ok(b) => Ok(ExprV::Let(bs, Box::new(b))),
                },
            }
        } else if v.len() == 2 && op@ == "add1"@ {
            sp_unop(crate::syntax::Op1::Add1, v[1])
        } else if v.len() == 2 && op@ == "sub1"@ {
            sp_unop(crate::syntax::Op1::Sub1, v[1])
        } else if v.len() == 2 && op@ == "isnum"@ {
            sp_unop(crate::syntax::Op1::IsNum, v[1])
        } else if v.len() == 2 && op@ == "isbool"@ {
            sp_unop(crate::syntax::Op1::IsBool, v[1])
        } else if v.len() == 3 && op@ == "+"@ {
            match sp_expr(v[1]) {
                Err(e) => Err(e),
                Ok(a) => match sp_expr(v[2]) {
                    Err(e) => Err(e),
                    Ok(b) => Ok(
                        ExprV::BinOp(crate::syntax::Op2::Plus, Box::new(a), Box::new(b)),
                    ),
                },
            }
        } else if v.len() == 3 && op@ == "-"@ {
            match sp_expr(v[1]) {
                Err(e) => Err(e),
                Ok(a) => match sp_expr(v[2]) {
                    Err(e) => Err(e),
                    Ok(b) => Ok(
                        ExprV::BinOp(crate::syntax::Op2::Minus, Box::new(a), Box::new(b)),
                    ),
                },
            }
        } else if v.len() == 3 && op@ == "*"@ {
            match sp_expr(v[1]) {
                Err(e) => Err(e),
                Ok(a) => match sp_expr(v[2]) {
                    Err(e) => Err(e),
                    Ok(b) => Ok(
                        ExprV::BinOp(crate::syntax::Op2::Times, Box::new(a), Box::new(b)),
                    ),
                },
            }
        } else if v.len() == 3 && op@ == "="@ {
            match sp_expr(v[1]) {
                Err(e) => Err(e),
                Ok(a) => match sp_expr(v[2]) {
                    Err(e) => Err(e),
                    Ok(b) => Ok(
                        ExprV::BinOp(crate::syntax::Op2::Equal, Box::new(a), Box::new(b)),
                    ),
                },
            }
        } else if v.len() == 3 && op@ == "<"@ {
            match sp_expr(v[1]) {
                Err(e) => Err(e),
                Ok(a) => match sp_expr(v[2]) {
                    Err(e) => Err(e),
                    Ok(b) => Ok(
                        ExprV::BinOp(crate::syntax::Op2::Less, Box::new(a), Box::new(b)),
                    ),
                },
            }
        } else if v.len() == 3 && op@ == "<="@ {
            match sp_expr(v[1]) {
                Err(e) => Err(e),
                Ok(a) => match sp_expr(v[2]) {
                    Err(e) => Err(e),
                    Ok(b) => Ok(
                        ExprV::BinOp(crate::syntax::Op2::LessEqual, Box::new(a), Box::new(b)),
                    ),
                },
            }
        } else if v.len() == 3 && op@ == ">"@ {
            match sp_expr(v[1]) {
                Err(e) => Err(e),
                Ok(a) => match sp_expr(v[2]) {
                    Err(e) => Err(e),
                    Ok(b) => Ok(
                        ExprV::BinOp(crate::syntax::Op2::Greater, Box::new(a), Box::new(b)),
                    ),
                },
            }
        } else if v.len() == 3 && op@ == ">="@ {
            match sp_expr(v[1]) {
                Err(e) => Err(e),
                Ok(a) => match sp_expr(v[2]) {
                    Err(e) => Err(e),
                    Ok(b) => Ok(
                        ExprV::BinOp(crate::syntax::Op2::GreaterEqual, Box::new(a), Box::new(b)),
                    ),
                },
            }
        } else if v.len() == 4 && op@ == "if"@ {
            match sp_expr(v[1]) {
                Err(e) => Err(e),
                Ok(c) => match sp_expr(v[2]) {
                    Err(e) => Err(e),
                    Ok(t) => match sp_expr(v[3]) {
                        Err(e) => Err(e),
                        Ok(f) => Ok(ExprV::If(Box::new(c), Box::new(t), Box::new(f))),
                    },
                },
            }
        } else if v.len() == 2 && op@ == "loop"@ {
            match sp_expr(v[1]) {
                Err(e) => Err(e),
                Ok(b) => Ok(ExprV::Loop(Box::new(b))),
            }
        } else if v.len() == 2 && op@ == "break"@ {
            match sp_expr(v[1]) {
                Err(e) => Err(e),
                Ok(b) => Ok(ExprV::Break(Box::new(b))),
            }
        } else if v.len() == 3 && op@ == "set!"@ && v[1] is Symbol {
            let id = v[1]->Symbol_0;
            if valid_id(id@) {
                match sp_expr(v[2]) {
                    Err(e) => Err(e),
                    Ok(b) => Ok(ExprV::Assign(id@, Box::new(b))),
                }
            } else {
                Err(CompErr::InvalidIdent(id))
            }
        } else if op@ == "block"@ {
            if v.len() == 1 {
                Err(CompErr::InvalidBlock)
            } else {
                match sp_expr_list(v.subrange(1, v.len() as int)) {
                    Err(e) => Err(e),
                    Ok(es) => Ok(ExprV::Block(es)),
                }
            }
        } else if v.len() == 2 && op@ == "print"@ {
            match sp_expr(v[1]) {
                Err(e) => Err(e),
                Ok(b) => Ok(ExprV::Print(Box::new(b))),
            }
        } else if op@ == "tuple"@ {
            match sp_expr_list(v.subrange(1, v.len() as int)) {
                Err(e) => Err(e),
                Ok(es) => Ok(ExprV::Tuple(es)),
            }
        } else if v.len() == 3 && op@ == "index"@ {
            match sp_expr(v[1]) {
                Err(e) => Err(e),
                Ok(t) => match sp_expr(v[2]) {
                    Err(e) => Err(e),
                    Ok(i) => Ok(ExprV::Index(Box::new(t), Box::new(i))),
                },
            }
        } else if valid_id(op@) {
            match sp_expr_list(v.subrange(1, v.len() as int)) {
                Err(e) => Err(e),
                Ok(es) => Ok(ExprV::Call(op@, es)),
            }
        } else {
            Err(CompErr::InvalidCallName(op))
        }
    } else {
        Err(CompErr::InvalidExpr)
    }
}

/// What parsing a unary application returns.
pub open spec fn sp_unop(op: crate::syntax::Op1, s: SExp) -> Result<ExprV, CompErr>
    decreases s, 4int,
{
    match sp_expr(s) {
        Err(e) => Err(e),
        Ok(b) => Ok(ExprV::UnOp(op, Box::new(b))),
    }
}

/// What parsing each expression of a sequence returns: the first error, or
/// all the results in order.
pub open spec fn sp_expr_list(ss: Seq<SExp>) -> Result<Seq<ExprV>, CompErr>
    decreases ss, 0int,
{
    if ss.len() == 0 {
        Ok(Seq::empty())
    } else {
        match sp_expr(ss[0]) {
            Err(e) => Err(e),
            Ok(e) => match sp_expr_list(ss.subrange(1, ss.len() as int)) {
                Err(e2) => Err(e2),
                Ok(es) => Ok(seq![e] + es),
            },
        }
    }
}

/// What parsing one `(name expr)` binding returns.
pub open spec fn sp_binding(s: SExp) -> Result<(Seq<char>, ExprV), CompErr>
    decreases s, 4int,
{
    match s {
        SExp::List(v) => {
            if v@.len() == 2 && v@[0] is Symbol {
                let id = v@[0]->Symbol_0;
                if valid_id(id@) {
                    match sp_expr(v@[1]) {
                        Err(e) => Err(e),
                        Ok(e) => Ok((id@, e)),
                    }
                } else {
                    Err(CompErr::InvalidIdent(id))
                }
            } else {
                Err(CompErr::InvalidBinding)
            }
        },
        _ => Err(CompErr::InvalidBinding),
    }
}

/// What parsing each binding of a sequence returns.
pub open spec fn sp_binding_list(ss: Seq<SExp>) -> Result<Seq<(Seq<char>, ExprV)>, CompErr>
    decreases ss, 0int,
{
    if ss.len() == 0 {
        Ok(Seq::empty())
    } else {
        match sp_binding(ss[0]) {
            Err(e) => Err(e),
            Ok(b) => match sp_binding_list(ss.subrange(1, ss.len() as int)) {
                Err(e2) => Err(e2),
                Ok(bs) => Ok(seq![b] + bs),
            },
        }
    }
}

/// What parsing a `let` binding list returns: the list must be a non-empty
/// list, every binding must parse, and the names must be distinct.
pub open spec fn sp_bindings(s: SExp) -> Result<Seq<(Seq<char>, ExprV)>, CompErr>
    decreases s, 5int,
{
    match s {
        SExp::List(v) => {
            if v@.len() == 0 {
                Err(CompErr::InvalidBindings)
            } else {
                match sp_binding_list(v@) {
                    Err(e) => Err(e),
                    Ok(bs) => {
                        if has_dup(binding_names(bs)) {
                            Err(CompErr::DuplicateBinding)
                        } else {
                            Ok(bs)
                        }
                    },
                }
            }
        },
        _ => Err(CompErr::InvalidBindings),
    }
}

} // verus!

verus! {

/// What parsing the identifiers of a signature returns.
pub open spec fn sp_idents(ss: Seq<SExp>) -> Result<Seq<Seq<char>>, CompErr>
    decreases ss,
{
    if ss.len() == 0 {
        Ok(Seq::empty())
    } else {
        match ss[0] {
            SExp::Symbol(x) => {
                if valid_id(x@) {
                    match sp_idents(ss.subrange(1, ss.len() as int)) {
                        Err(e) => Err(e),
                        Ok(ids) => Ok(seq![x@] + ids),
                    }
                } else {
                    Err(CompErr::InvalidIdent(x))
                }
            },
            _ => Err(CompErr::SignatureNotIdents),
        }
    }
}

/// What parsing a `(name param ...)` signature returns: the name and the
/// parameters, which must be valid identifiers, at least one, and pairwise
/// distinct among the parameters.
pub open spec fn sp_signature(s: SExp) -> Result<(Seq<char>, Seq<Seq<char>>), CompErr> {
    match s {
        SExp::List(v) => match sp_idents(v@) {
            Err(e) => Err(e),
            Ok(ids) => {
                if ids.len() == 0 {
                    Err(CompErr::SignatureEmpty)
                } else if has_dup(ids.subrange(1, ids.len() as int)) {
                    Err(CompErr::DuplicateParams)
                } else {
                    Ok((ids[0], ids.subrange(1, ids.len() as int)))
                }
            },
        },
        _ => Err(CompErr::SignatureNotList),
    }
}

/// Whether a form has the `(fun (name param ...) body)` shape.
pub open spec fn sp_is_fundef(s: SExp) -> bool {
    match s {
        SExp::List(v) => {
            &&& v@.len() == 3
            &&& v@[0] matches SExp::Symbol(op) && op@ == "fun"@
            &&& v@[1] is List
        },
        _ => false,
    }
}

/// What parsing a function definition returns, given the names already
/// taken by earlier definitions.
pub open spec fn sp_fundef(s: SExp, taken: Set<Seq<char>>) -> Result<FunDefV, CompErr> {
    match s {
        SExp::List(v) => {
            if v@.len() == 3 && (v@[0] matches SExp::Symbol(op) && op@ == "fun"@) {
                match sp_signature(v@[1]) {
                    Err(e) => Err(e),
                    Ok((name, params)) => {
                        if taken.contains(name) {
                            Err(CompErr::DuplicateFunName)
                        } else {
                            match sp_expr(v@[2]) {
                                Err(e) => Err(e),
                                Ok(b) => Ok(FunDefV { name, params, body: b }),
                            }
                        }
                    },
                }
            } else {
                Err(CompErr::InvalidFunDef)
            }
        },
        _ => Err(CompErr::FunDefNotList),
    }
}

/// What parsing the top-level forms returns: the leading function
/// definitions, then the first other form as the main expression.  Anything
/// after the main expression is ignored.
pub open spec fn sp_items(ss: Seq<SExp>, taken: Set<Seq<char>>) -> Result<
    (Seq<FunDefV>, ExprV),
    CompErr,
>
    decreases ss,
{
    if ss.len() == 0 {
        Err(CompErr::OnlyDefinitions)
    } else if sp_is_fundef(ss[0]) {
        match sp_fundef(ss[0], taken) {
            Err(e) => Err(e),
            Ok(d) => match sp_items(ss.subrange(1, ss.len() as int), taken.insert(d.name)) {
                Err(e) => Err(e),
                Ok((ds, m)) => Ok((seq![d] + ds, m)),
            },
        }
    } else {
        match sp_expr(ss[0]) {
            Err(e) => Err(e),
            Ok(m) => Ok((Seq::empty(), m)),
        }
    }
}

/// What parsing a whole program form returns.
pub open spec fn sp_program(s: SExp) -> Result<ProgramV, CompErr> {
    match s {
        SExp::List(v) => match sp_items(v@, Set::empty()) {
            Err(e) => Err(e),
            Ok((ds, m)) => Ok(ProgramV { defs: ds, main: m }),
        },
        _ => Err(CompErr::ProgramNotList),
    }
}

/// What parsing a source text returns: the text is wrapped in one outer
/// pair of parentheses, read as an s-expression, and parsed as a program.
pub open spec fn sp_parse(text: Seq<char>) -> Result<ProgramV, CompErr> {
    match surface_of("("@ + text + ")"@) {
        Err(m) => Err(CompErr::Surface(m)),
        Ok(sx) => sp_program(sx),
    }
}

/// An executable expression result matches its specification.
pub open spec fn eres(r: Result<Expr, CompErr>, sp: Result<ExprV, CompErr>) -> bool {
    match r {
        Ok(e) => sp matches Ok(x) && e@ == x,
        Err(er) => sp matches Err(x) && er == x,
    }
}

/// An executable expression-list result matches its specification.
pub open spec fn lres(r: Result<Vec<Expr>, CompErr>, sp: Result<Seq<ExprV>, CompErr>) -> bool {
    match r {
        Ok(es) => sp matches Ok(x) && evs(es@) == x,
        Err(er) => sp matches Err(x) && er == x,
    }
}

/// An executable binding result matches its specification.
pub open spec fn bres(
    r: Result<(String, Expr), CompErr>,
    sp: Result<(Seq<char>, ExprV), CompErr>,
) -> bool {
    match r {
        Ok(b) => sp matches Ok(x) && b.0@ == x.0 && ev(b.1) == x.1,
        Err(er) => sp matches Err(x) && er == x,
    }
}

/// An executable binding-list result matches its specification.
pub open spec fn blres(
    r: Result<Vec<(String, Expr)>, CompErr>,
    sp: Result<Seq<(Seq<char>, ExprV)>, CompErr>,
) -> bool {
    match r {
        Ok(bs) => sp matches Ok(x) && ebs(bs@) == x,
        Err(er) => sp matches Err(x) && er == x,
    }
}

/// An executable signature result matches its specification.
pub open spec fn sigres(
    r: Result<(String, Vec<String>), CompErr>,
    sp: Result<(Seq<char>, Seq<Seq<char>>), CompErr>,
) -> bool {
    match r {
        Ok(p) => sp matches Ok(x) && p.0@ == x.0 && pvs(p.1@) == x.1,
        Err(er) => sp matches Err(x) && er == x,
    }
}

/// An executable definition result matches its specification.
pub open spec fn fres(r: Result<FunDef, CompErr>, sp: Result<FunDefV, CompErr>) -> bool {
    match r {
        Ok(d) => sp matches Ok(x) && d@ == x,
        Err(er) => sp matches Err(x) && er == x,
    }
}

/// An executable program result matches its specification.
pub open spec fn pres(r: Result<Program, CompErr>, sp: Result<ProgramV, CompErr>) -> bool {
    match r {
        Ok(p) => sp matches Ok(x) && p@ == x,
        Err(er) => sp matches Err(x) && er == x,
    }
}

pub(crate) fn str_eq_string(s: &String, lit: &str) -> (r: bool)
    ensures
        r == (s@ == lit@),
{
    let other = String::from_str(lit);
    *s == other
}

/// Whether the name is one of the reserved words.
pub fn is_reserved_word(s: &String) -> (r: bool)
    ensures
        r == is_reserved(s@),
{
    str_eq_string(s, "true") || str_eq_string(s, "false") || str_eq_string(s, "input")
        || str_eq_string(s, "let") || str_eq_string(s, "set!") || str_eq_string(s, "if")
        || str_eq_string(s, "block") || str_eq_string(s, "loop") || str_eq_string(s, "break")
        || str_eq_string(s, "print") || str_eq_string(s, "fun") || str_eq_string(s, "tuple")
        || str_eq_string(s, "index") || str_eq_string(s, "add1") || str_eq_string(s, "sub1")
        || str_eq_string(s, "isnum") || str_eq_string(s, "isbool") || str_eq_string(s, "+")
        || str_eq_string(s, "-") || str_eq_string(s, "*") || str_eq_string(s, "=")
        || str_eq_string(s, "<") || str_eq_string(s, "<=") || str_eq_string(s, ">")
        || str_eq_string(s, ">=")
}

/// Whether the name is a valid identifier.
pub fn is_valid_id(id: &String) -> (r: bool)
    ensures
        r == valid_id(id@),
{
    let n = id.as_str().unicode_len();
    if n == 0 {
        return false;
    }
    let c0 = id.as_str().get_char(0);
    if !c0.is_lowercase() {
        return false;
    }
    let mut i: usize = 0;
    while i < n
        invariant
            n == id@.len(),
            i <= n,
            forall|j: int|
                0 <= j < i ==> (#[trigger] char_is_alphanumeric(id@[j]) || id@[j] == '_'),
        decreases n - i,
    {
        let c = id.as_str().get_char(i);
        if !(c.is_alphanumeric() || c == '_') {
            return false;
        }
        i = i + 1;
    }
    !is_reserved_word(id)
}

} // verus!

verus! {

/// The expression grammar: a structural recursion over the surface shape.
pub fn parse_expr(s: &SExp) -> (r: Result<Expr, CompErr>)
    ensures
        eres(r, sp_expr(*s)),
    decreases *s, 3int,
{
    match s {
        SExp::Integer(i) => Ok(Expr::Number(*i)),
        SExp::Symbol(x) => {
            if str_eq_string(x, "true") {
                Ok(Expr::Bool(true))
            } else if str_eq_string(x, "false") {
                Ok(Expr::Bool(false))
            } else if str_eq_string(x, "input") {
                Ok(Expr::Var(x.clone()))
            } else if is_valid_id(x) {
                Ok(Expr::Var(x.clone()))
            } else {
                Err(CompErr::InvalidIdent(x.clone()))
            }
        },
        SExp::Float => Err(CompErr::InvalidExpr),
        SExp::List(v) => parse_form(v),
    }
}

#[verifier::rlimit(50)]
fn parse_form(v: &Vec<SExp>) -> (r: Result<Expr, CompErr>)
    ensures
        eres(r, sp_form(v@)),
    decreases v@, 2int,
{
    if v.len() == 0 {
        return Err(CompErr::InvalidExpr);
    }
    let op: &String = match &v[0] {
        SExp::Symbol(x) => x,
        _ => {
            return Err(CompErr::InvalidExpr);
        },
    };
    if v.len() == 3 && str_eq_string(op, "let") {
        let bs = match parse_bindings(&v[1]) {
            Ok(b) => b,
            Err(e) => {
                return Err(e);
            },
        };
        match parse_expr(&v[2]) {
            Ok(b) => Ok(Expr::Let(bs, Box::new(b))),
            Err(e) => Err(e),
        }
    } else if v.len() == 2 && str_eq_string(op, "add1") {
        match parse_expr(&v[1]) {
            Ok(b) => Ok(Expr::UnOp(Op1::Add1, Box::new(b))),
            Err(e) => Err(e),
        }
    } else if v.len() == 2 && str_eq_string(op, "sub1") {
        match parse_expr(&v[1]) {
            Ok(b) => Ok(Expr::UnOp(Op1::Sub1, Box::new(b))),
            Err(e) => Err(e),
        }
    } else if v.len() == 2 && str_eq_string(op, "isnum") {
        match parse_expr(&v[1]) {
            Ok(b) => Ok(Expr::UnOp(Op1::IsNum, Box::new(b))),
            Err(e) => Err(e),
        }
    } else if v.len() == 2 && str_eq_string(op, "isbool") {
        match parse_expr(&v[1]) {
            Ok(b) => Ok(Expr::UnOp(Op1::IsBool, Box::new(b))),
            Err(e) => Err(e),
        }
    } else if v.len() == 3 && str_eq_string(op, "+") {
        parse_binop_args(Op2::Plus, v)
    } else if v.len() == 3 && str_eq_string(op, "-") {
        parse_binop_args(Op2::Minus, v)
    } else if v.len() == 3 && str_eq_string(op, "*") {
        parse_binop_args(Op2::Times, v)
    } else if v.len() == 3 && str_eq_string(op, "=") {
        parse_binop_args(Op2::Equal, v)
    } else if v.len() == 3 && str_eq_string(op, "<") {
        parse_binop_args(Op2::Less, v)
    } else if v.len() == 3 && str_eq_string(op, "<=") {
        parse_binop_args(Op2::LessEqual, v)
    } else if v.len() == 3 && str_eq_string(op, ">") {
        parse_binop_args(Op2::Greater, v)
    } else if v.len() == 3 && str_eq_string(op, ">=") {
        parse_binop_args(Op2::GreaterEqual, v)
    } else if v.len() == 4 && str_eq_string(op, "if") {
        let c = match parse_expr(&v[1]) {
            Ok(c) => c,
            Err(e) => {
                return Err(e);
            },
        };
        let t = match parse_expr(&v[2]) {
            Ok(t) => t,
            Err(e) => {
                return Err(e);
            },
        };
        match parse_expr(&v[3]) {
            Ok(f) => Ok(Expr::If(Box::new(c), Box::new(t), Box::new(f))),
            Err(e) => Err(e),
        }
    } else if v.len() == 2 && str_eq_string(op, "loop") {
        match parse_expr(&v[1]) {
            Ok(b) => Ok(Expr::Loop(Box::new(b))),
            Err(e) => Err(e),
        }
    } else if v.len() == 2 && str_eq_string(op, "break") {
        match parse_expr(&v[1]) {
            Ok(b) => Ok(Expr::Break(Box::new(b))),
            Err(e) => Err(e),
        }
    } else if v.len() == 3 && str_eq_string(op, "set!") && is_symbol(&v[1]) {
        let id: &String = match &v[1] {
            SExp::Symbol(x) => x,
            _ => {
                return Err(CompErr::InvalidExpr);
            },
        };
        if is_valid_id(id) {
            match parse_expr(&v[2]) {
                Ok(b) => Ok(Expr::Assign(id.clone(), Box::new(b))),
                Err(e) => Err(e),
            }
        } else {
            Err(CompErr::InvalidIdent(id.clone()))
        }
    } else if str_eq_string(op, "block") {
        if v.len() == 1 {
            Err(CompErr::InvalidBlock)
        } else {
            match parse_expr_seq(v, 1) {
                Ok(es) => Ok(Expr::Block(es)),
                Err(e) => Err(e),
            }
        }
    } else if v.len() == 2 && str_eq_string(op, "print") {
        match parse_expr(&v[1]) {
            Ok(b) => Ok(Expr::Print(Box::new(b))),
            Err(e) => Err(e),
        }
    } else if str_eq_string(op, "tuple") {
        match parse_expr_seq(v, 1) {
            Ok(es) => Ok(Expr::Tuple(es)),
            Err(e) => Err(e),
        }
    } else if v.len() == 3 && str_eq_string(op, "index") {
        let t = match parse_expr(&v[1]) {
            Ok(t) => t,
            Err(e) => {
                return Err(e);
            },
        };
        match parse_expr(&v[2]) {
            Ok(i) => Ok(Expr::Index(Box::new(t), Box::new(i))),
            Err(e) => Err(e),
        }
    } else if is_valid_id(op) {
        let name = op.clone();
        match parse_expr_seq(v, 1) {
            Ok(es) => Ok(Expr::Call(name, es)),
            Err(e) => Err(e),
        }
    } else {
        Err(CompErr::InvalidCallName(op.clone()))
    }
}

fn is_symbol(s: &SExp) -> (r: bool)
    ensures
        r == (*s is Symbol),
{
    match s {
        SExp::Symbol(_) => true,
        _ => false,
    }
}

fn parse_binop_args(op: Op2, v: &Vec<SExp>) -> (r: Result<Expr, CompErr>)
    requires
        v@.len() == 3,
    ensures
        (match parse_two(sp_expr(v@[1]), sp_expr(v@[2]), op) {
            Ok(x) => r matches Ok(e) && ev(e) == x,
            Err(x) => r matches Err(er) && er == x,
        }),
    decreases v@, 1int,
{
    let a = match parse_expr(&v[1]) {
        Ok(a) => a,
        Err(e) => {
            return Err(e);
        },
    };
    match parse_expr(&v[2]) {
        Ok(b) => Ok(Expr::BinOp(op, Box::new(a), Box::new(b))),
        Err(e) => Err(e),
    }
}

/// The combination of two parsed operands under a binary operator.
pub open spec fn parse_two(
    a: Result<ExprV, CompErr>,
    b: Result<ExprV, CompErr>,
    op: Op2,
) -> Result<ExprV, CompErr> {
    match a {
        Err(e) => Err(e),
        Ok(x) => match b {
            Err(e) => Err(e),
            Ok(y) => Ok(ExprV::BinOp(op, Box::new(x), Box::new(y))),
        },
    }
}

fn parse_expr_seq(v: &Vec<SExp>, start: usize) -> (r: Result<Vec<Expr>, CompErr>)
    requires
        start <= v@.len(),
    ensures
        lres(r, sp_expr_list(v@.subrange(start as int, v@.len() as int))),
    decreases v@, 0int,
{
    let mut es: Vec<Expr> = Vec::new();
    let mut i: usize = start;
    while i < v.len()
        invariant
            start <= i <= v@.len(),
            (match sp_expr_list(v@.subrange(i as int, v@.len() as int)) {
                Ok(tail) => sp_expr_list(v@.subrange(start as int, v@.len() as int)) == Ok::<
                    _,
                    CompErr,
                >(evs(es@) + tail),
                Err(e) => sp_expr_list(v@.subrange(start as int, v@.len() as int)) == Err::<
                    Seq<ExprV>,
                    _,
                >(e),
            }),
        decreases v@.len() - i,
    {
        proof {
            assert(v@.subrange(i as int, v@.len() as int)[0] == v@[i as int]);
            assert(v@.subrange(i as int, v@.len() as int).subrange(
                1,
                v@.len() - i as int,
            ) =~= v@.subrange(i as int + 1, v@.len() as int));
        }
        match parse_expr(&v[i]) {
            Err(e) => {
                return Err(e);
            },
            Ok(e) => {
                let ghost es_old = es@;
                es.push(e);
                proof {
                    lemma_evs_push(es_old, e);
                    assert(forall|tail: Seq<ExprV>|
                        evs(es_old) + (seq![ev(e)] + tail) =~= #[trigger] (evs(es_old).push(ev(e))
                            + tail));
                }
            },
        }
        i = i + 1;
    }
    proof {
        assert(v@.subrange(v@.len() as int, v@.len() as int) =~= Seq::<SExp>::empty());
        assert(evs(es@) + Seq::<ExprV>::empty() =~= evs(es@));
    }
    Ok(es)
}

/// One `(name expr)` binding of a `let`.
pub fn parse_binding(s: &SExp) -> (r: Result<(String, Expr), CompErr>)
    ensures
        bres(r, sp_binding(*s)),
    decreases *s, 4int,
{
    match s {
        SExp::List(v) => {
            if v.len() == 2 {
                match &v[0] {
                    SExp::Symbol(id) => {
                        if is_valid_id(id) {
                            match parse_expr(&v[1]) {
                                Ok(e) => Ok((id.clone(), e)),
                                Err(e) => Err(e),
                            }
                        } else {
                            Err(CompErr::InvalidIdent(id.clone()))
                        }
                    },
                    _ => Err(CompErr::InvalidBinding),
                }
            } else {
                Err(CompErr::InvalidBinding)
            }
        },
        _ => Err(CompErr::InvalidBinding),
    }
}

/// The binding list of a `let`: a non-empty list of bindings with pairwise
/// distinct names.
pub fn parse_bindings(s: &SExp) -> (r: Result<Vec<(String, Expr)>, CompErr>)
    ensures
        blres(r, sp_bindings(*s)),
    decreases *s, 5int,
{
    match s {
        SExp::List(v) => {
            if v.len() == 0 {
                return Err(CompErr::InvalidBindings);
            }
            let mut bs: Vec<(String, Expr)> = Vec::new();
            let mut i: usize = 0;
            proof {
                assert(v@.subrange(0, v@.len() as int) =~= v@);
                assert(ebs(bs@) =~= Seq::<(Seq<char>, ExprV)>::empty());
                assert(forall|tail: Seq<(Seq<char>, ExprV)>|
                    #[trigger] (ebs(bs@) + tail) =~= tail);
            }
            while i < v.len()
                invariant
                    i <= v@.len(),
                    v@.len() > 0,
                    *s == SExp::List(*v),
                    (match sp_binding_list(v@.subrange(i as int, v@.len() as int)) {
                        Ok(tail) => sp_binding_list(v@) == Ok::<_, CompErr>(ebs(bs@) + tail),
                        Err(e) => sp_binding_list(v@) == Err::<Seq<(Seq<char>, ExprV)>, _>(e),
                    }),
                decreases v@.len() - i,
            {
                proof {
                    assert(v@.subrange(0, v@.len() as int) =~= v@);
                    assert(v@.subrange(i as int, v@.len() as int)[0] == v@[i as int]);
                    assert(v@.subrange(i as int, v@.len() as int).subrange(
                        1,
                        v@.len() - i as int,
                    ) =~= v@.subrange(i as int + 1, v@.len() as int));
                }
                match parse_binding(&v[i]) {
                    Err(e) => {
                        return Err(e);
                    },
                    Ok(b) => {
                        let ghost bs_old = bs@;
                        let ghost bv = (b.0@, ev(b.1));
                        bs.push(b);
                        proof {
                            lemma_ebs_push(bs_old, bs@[bs@.len() - 1]);
                            assert(forall|tail: Seq<(Seq<char>, ExprV)>|
                                ebs(bs_old) + (seq![bv] + tail) =~= #[trigger] (ebs(bs_old).push(bv)
                                    + tail));
                        }
                    },
                }
                i = i + 1;
            }
            proof {
                assert(v@.subrange(v@.len() as int, v@.len() as int) =~= Seq::<SExp>::empty());
                assert(ebs(bs@) + Seq::<(Seq<char>, ExprV)>::empty() =~= ebs(bs@));
                assert(v@.subrange(0, v@.len() as int) =~= v@);
            }
            // All bindings parsed; now refuse duplicate names.
            let ghost nm = binding_names(ebs(bs@));
            proof {
                broadcast use lemma_ebs_len, lemma_ebs_index;

            }
            let mut seen = names_new();
            let mut j: usize = 0;
            while j < bs.len()
                invariant
                    j <= bs@.len(),
                    nm == binding_names(ebs(bs@)),
                    nm.len() == bs@.len(),
                    forall|k: int| 0 <= k < bs@.len() ==> #[trigger] nm[k] == bs@[k].0@,
                    sp_binding_list(v@) == Ok::<_, CompErr>(ebs(bs@)),
                    v@.len() > 0,
                    *s == SExp::List(*v),
                    forall|x: Seq<char>|
                        #[trigger] name_members(seen).contains(x) <==> exists|k: int|
                            0 <= k < j && nm[k] == x,
                    forall|k1: int, k2: int|
                        #![trigger nm[k1], nm[k2]]
                        0 <= k1 < k2 < j ==> nm[k1] != nm[k2],
                decreases bs@.len() - j,
            {
                let b = &bs[j];
                if names_contains(&seen, &b.0) {
                    proof {
                        let k = choose|k: int| 0 <= k < j && nm[k] == nm[j as int];
                        assert(has_dup(nm));
                    }
                    return Err(CompErr::DuplicateBinding);
                }
                let ghost pre = name_members(seen);
                names_insert(&mut seen, b.0.clone());
                proof {
                    assert(name_members(seen) == pre.insert(nm[j as int]));
                    assert forall|x: Seq<char>|
                        #[trigger] name_members(seen).contains(x) implies exists|k: int|
                        0 <= k < j + 1 && nm[k] == x by {
                        if x == nm[j as int] {
                            assert(nm[j as int] == x);
                        } else {
                            assert(pre.contains(x));
                        }
                    }
                    assert forall|x: Seq<char>| (exists|k: int| 0 <= k < j + 1 && nm[k] == x)
                        implies #[trigger] name_members(seen).contains(x) by {
                        let k = choose|k: int| 0 <= k < j + 1 && nm[k] == x;
                        if k < j {
                            assert(pre.contains(x));
                        }
                    }
                    assert forall|k1: int, k2: int|
                        #![trigger nm[k1], nm[k2]]
                        0 <= k1 < k2 < j + 1 implies nm[k1] != nm[k2] by {
                        if k2 == j as int && nm[k1] == nm[k2] {
                            assert(pre.contains(nm[k1]));
                        }
                    }
                }
                j = j + 1;
            }
            proof {
                assert(!has_dup(nm));
            }
            Ok(bs)
        },
        _ => Err(CompErr::InvalidBindings),
    }
}

} // verus!

verus! {

/// The `(name param ...)` signature of a function definition.
pub fn parse_signature(s: &SExp) -> (r: Result<(String, Vec<String>), CompErr>)
    ensures
        sigres(r, sp_signature(*s)),
{
    match s {
        SExp::List(v) => {
            let mut ids: Vec<String> = Vec::new();
            let mut i: usize = 0;
            proof {
                assert(v@.subrange(0, v@.len() as int) =~= v@);
                assert(pvs(ids@) =~= Seq::<Seq<char>>::empty());
                assert(forall|tail: Seq<Seq<char>>| #[trigger] (pvs(ids@) + tail) =~= tail);
            }
            while i < v.len()
                invariant
                    i <= v@.len(),
                    *s == SExp::List(*v),
                    (match sp_idents(v@.subrange(i as int, v@.len() as int)) {
                        Ok(tail) => sp_idents(v@) == Ok::<_, CompErr>(pvs(ids@) + tail),
                        Err(e) => sp_idents(v@) == Err::<Seq<Seq<char>>, _>(e),
                    }),
                decreases v@.len() - i,
            {
                proof {
                    assert(v@.subrange(i as int, v@.len() as int)[0] == v@[i as int]);
                    assert(v@.subrange(i as int, v@.len() as int).subrange(
                        1,
                        v@.len() - i as int,
                    ) =~= v@.subrange(i as int + 1, v@.len() as int));
                }
                match &v[i] {
                    SExp::Symbol(x) => {
                        if is_valid_id(x) {
                            let ghost ids_old = ids@;
                            ids.push(x.clone());
                            proof {
                                assert(pvs(ids@) =~= pvs(ids_old).push(x@));
                                assert(forall|tail: Seq<Seq<char>>|
                                    pvs(ids_old) + (seq![x@] + tail) =~= #[trigger] (pvs(
                                        ids_old,
                                    ).push(x@) + tail));
                            }
                        } else {
                            return Err(CompErr::InvalidIdent(x.clone()));
                        }
                    },
                    _ => {
                        return Err(CompErr::SignatureNotIdents);
                    },
                }
                i = i + 1;
            }
            proof {
                assert(v@.subrange(v@.len() as int, v@.len() as int) =~= Seq::<SExp>::empty());
                assert(pvs(ids@) + Seq::<Seq<char>>::empty() =~= pvs(ids@));
            }
            if ids.len() == 0 {
                return Err(CompErr::SignatureEmpty);
            }
            let name = ids[0].clone();
            let mut params: Vec<String> = Vec::new();
            let mut k: usize = 1;
            while k < ids.len()
                invariant
                    1 <= k <= ids@.len(),
                    pvs(params@) =~= pvs(ids@).subrange(1, k as int),
                decreases ids@.len() - k,
            {
                let ghost params_old = params@;
                params.push(ids[k].clone());
                proof {
                    assert(pvs(params@) =~= pvs(params_old).push(ids@[k as int]@));
                    assert(pvs(ids@).subrange(1, k + 1 as int) =~= pvs(ids@).subrange(
                        1,
                        k as int,
                    ).push(pvs(ids@)[k as int]));
                }
                k = k + 1;
            }
            let ghost pv = pvs(ids@).subrange(1, ids@.len() as int);
            proof {
                assert(pvs(params@) == pv);
            }
            // Refuse duplicate parameter names.
            let mut seen = names_new();
            let mut j: usize = 0;
            while j < params.len()
                invariant
                    j <= params@.len(),
                    pvs(params@) == pv,
                    pv.len() == params@.len(),
                    forall|m: int| 0 <= m < params@.len() ==> #[trigger] pv[m] == params@[m]@,
                    (match sp_idents(v@) {
                        Ok(ids2) => {
                            &&& ids2 == pvs(ids@)
                            &&& ids2.len() > 0
                            &&& pv == ids2.subrange(1, ids2.len() as int)
                        },
                        Err(_) => false,
                    }),
                    *s == SExp::List(*v),
                    name@ == pvs(ids@)[0],
                    forall|x: Seq<char>|
                        #[trigger] name_members(seen).contains(x) <==> exists|m: int|
                            0 <= m < j && pv[m] == x,
                    forall|m1: int, m2: int|
                        #![trigger pv[m1], pv[m2]]
                        0 <= m1 < m2 < j ==> pv[m1] != pv[m2],
                decreases params@.len() - j,
            {
                let p = &params[j];
                if names_contains(&seen, p) {
                    proof {
                        let m = choose|m: int| 0 <= m < j && pv[m] == pv[j as int];
                        assert(has_dup(pv));
                    }
                    return Err(CompErr::DuplicateParams);
                }
                let ghost pre = name_members(seen);
                names_insert(&mut seen, p.clone());
                proof {
                    assert(name_members(seen) == pre.insert(pv[j as int]));
                    assert forall|x: Seq<char>|
                        #[trigger] name_members(seen).contains(x) implies exists|m: int|
                        0 <= m < j + 1 && pv[m] == x by {
                        if x == pv[j as int] {
                            assert(pv[j as int] == x);
                        } else {
                            assert(pre.contains(x));
                        }
                    }
                    assert forall|x: Seq<char>| (exists|m: int| 0 <= m < j + 1 && pv[m] == x)
                        implies #[trigger] name_members(seen).contains(x) by {
                        let m = choose|m: int| 0 <= m < j + 1 && pv[m] == x;
                        if m < j {
                            assert(pre.contains(x));
                        }
                    }
                    assert forall|m1: int, m2: int|
                        #![trigger pv[m1], pv[m2]]
                        0 <= m1 < m2 < j + 1 implies pv[m1] != pv[m2] by {
                        if m2 == j as int && pv[m1] == pv[m2] {
                            assert(pre.contains(pv[m1]));
                        }
                    }
                }
                j = j + 1;
            }
            proof {
                assert(!has_dup(pv));
            }
            Ok((name, params))
        },
        _ => Err(CompErr::SignatureNotList),
    }
}

/// Whether a top-level form is a function definition.
pub fn is_fundef(s: &SExp) -> (r: bool)
    ensures
        r == sp_is_fundef(*s),
{
    match s {
        SExp::List(v) => {
            if v.len() == 3 {
                let head_ok = match &v[0] {
                    SExp::Symbol(x) => str_eq_string(x, "fun"),
                    _ => false,
                };
                if head_ok {
                    match &v[1] {
                        SExp::List(_) => true,
                        _ => false,
                    }
                } else {
                    false
                }
            } else {
                false
            }
        },
        _ => false,
    }
}

/// One `(fun (name param ...) body)` definition; the name must not be taken
/// by an earlier definition.
pub fn parse_fundef(s: &SExp, fun_env: &im::HashSet<String>) -> (r: Result<FunDef, CompErr>)
    ensures
        fres(r, sp_fundef(*s, name_members(*fun_env))),
{
    match s {
        SExp::List(v) => {
            if v.len() == 3 {
                let head_ok = match &v[0] {
                    SExp::Symbol(x) => str_eq_string(x, "fun"),
                    _ => false,
                };
                if head_ok {
                    let (name, params) = match parse_signature(&v[1]) {
                        Ok(p) => p,
                        Err(e) => {
                            return Err(e);
                        },
                    };
                    if names_contains(fun_env, &name) {
                        return Err(CompErr::DuplicateFunName);
                    }
                    let body = match parse_expr(&v[2]) {
                        Ok(b) => b,
                        Err(e) => {
                            return Err(e);
                        },
                    };
                    Ok(FunDef { name, params, body })
                } else {
                    Err(CompErr::InvalidFunDef)
                }
            } else {
                Err(CompErr::InvalidFunDef)
            }
        },
        _ => Err(CompErr::FunDefNotList),
    }
}

/// A whole program form: leading function definitions, then the main
/// expression.  Forms after the main expression are ignored.
pub fn parse_program(s: &SExp) -> (r: Result<Program, CompErr>)
    ensures
        pres(r, sp_program(*s)),
{
    match s {
        SExp::List(v) => {
            let mut defs: Vec<FunDef> = Vec::new();
            let mut fun_env = names_new();
            let mut i: usize = 0;
            proof {
                assert(v@.subrange(0, v@.len() as int) =~= v@);
                assert(dvs(defs@) =~= Seq::<FunDefV>::empty());
                assert(forall|tail: Seq<FunDefV>| #[trigger] (dvs(defs@) + tail) =~= tail);
                assert(name_members(fun_env) =~= Set::<Seq<char>>::empty());
            }
            while i < v.len()
                invariant
                    i <= v@.len(),
                    *s == SExp::List(*v),
                    (match sp_items(
                        v@.subrange(i as int, v@.len() as int),
                        name_members(fun_env),
                    ) {
                        Ok((ds, m)) => sp_items(v@, Set::empty()) == Ok::<_, CompErr>(
                            (dvs(defs@) + ds, m),
                        ),
                        Err(e) => sp_items(v@, Set::empty()) == Err::<
                            (Seq<FunDefV>, ExprV),
                            _,
                        >(e),
                    }),
                decreases v@.len() - i,
            {
                proof {
                    assert(v@.subrange(i as int, v@.len() as int)[0] == v@[i as int]);
                    assert(v@.subrange(i as int, v@.len() as int).subrange(
                        1,
                        v@.len() - i as int,
                    ) =~= v@.subrange(i as int + 1, v@.len() as int));
                }
                if is_fundef(&v[i]) {
                    let d = match parse_fundef(&v[i], &fun_env) {
                        Ok(d) => d,
                        Err(e) => {
                            return Err(e);
                        },
                    };
                    names_insert(&mut fun_env, d.name.clone());
                    let ghost defs_old = defs@;
                    let ghost dv = d@;
                    defs.push(d);
                    proof {
                        assert(dvs(defs@) =~= dvs(defs_old).push(dv));
                        assert(forall|tail: Seq<FunDefV>|
                            dvs(defs_old) + (seq![dv] + tail) =~= #[trigger] (dvs(defs_old).push(
                                dv,
                            ) + tail));
                    }
                } else {
                    let m = match parse_expr(&v[i]) {
                        Ok(m) => m,
                        Err(e) => {
                            return Err(e);
                        },
                    };
                    proof {
                        assert(dvs(defs@) + Seq::<FunDefV>::empty() =~= dvs(defs@));
                    }
                    return Ok(Program { defs, main: m });
                }
                i = i + 1;
            }
            proof {
                assert(v@.subrange(v@.len() as int, v@.len() as int) =~= Seq::<SExp>::empty());
            }
            Err(CompErr::OnlyDefinitions)
        },
        _ => Err(CompErr::ProgramNotList),
    }
}

/// The parser: the source text, wrapped in one outer pair of parentheses so
/// that several top-level forms read as one list, read as an s-expression
/// and parsed as a program.
pub fn parse(s: &str) -> (r: Result<Program, CompErr>)
    ensures
        pres(r, sp_parse(s@)),
{
    let mut wrapped = String::from_str("(");
    wrapped.append(s);
    wrapped.append(")");
    match read_surface(wrapped.as_str()) {
        Err(m) => Err(CompErr::Surface(m)),
        Ok(sx) => parse_program(&sx),
    }
}

} // verus!
