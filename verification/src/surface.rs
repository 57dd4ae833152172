//! The surface syntax: a generic S-expression tree, read from text by the
//! `sexp` crate behind a trusted wrapper.  Everything after this boundary
//! works on plain values and is verified.

use vstd::prelude::*;

verus! {

/// A surface S-expression: an integer atom, a symbol atom, or a list.  A
/// floating-point atom has no role in the language; the variant keeps the
/// reader total, and every later stage rejects it as an invalid expression.
#[derive(Debug, PartialEq)]
pub enum SExp {
    Integer(i64),
    Symbol(String),
    Float,
    List(Vec<SExp>),
}

#[verifier::external_type_specification]
#[verifier::external_body]
pub struct ExSexp(sexp::Sexp);

/// What the s-expression reader returns on a given text: a surface tree, or
/// the reader's own error message.  The reader is a function of the text
/// alone.
pub uninterp spec fn surface_of(text: Seq<char>) -> Result<SExp, String>;

#[verifier::external_body]
fn convert_sexp(s: sexp::Sexp) -> SExp {
    match s {
        sexp::Sexp::Atom(sexp::Atom::I(i)) => SExp::Integer(i),
        sexp::Sexp::Atom(sexp::Atom::S(t)) => SExp::Symbol(t),
        sexp::Sexp::Atom(sexp::Atom::F(_)) => SExp::Float,
        sexp::Sexp::List(xs) => SExp::List(xs.into_iter().map(convert_sexp).collect()),
    }
}

/// Relies on sexp::parse, a deterministic function of the text alone; its
/// result is an atom (an integer, a float, or a symbol string) or a nested
/// list, carried over variant by variant, and its error is rendered to the
/// message the crate displays.
#[verifier::external_body]
pub fn read_surface(text: &str) -> (r: Result<SExp, String>)
    ensures
        r == surface_of(text@),
{
    match sexp::parse(text) {
        Ok(s) => Ok(convert_sexp(s)),
        Err(e) => Err(format!("{}", e)),
    }
}

} // verus!
