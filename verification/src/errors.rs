//! Compile-time errors.  Compilation is all-or-nothing: any of these aborts
//! it, and the driver prints the message and exits without output.

use vstd::prelude::*;
use vstd::string::StringExecFns;
use crate::numerals::int_str;

verus! {

/// Everything that can stop a compilation, from reading the surface syntax
/// through code generation.
#[derive(Debug, PartialEq)]
pub enum CompErr {
    /// The s-expression reader failed; the field is its message.
    Surface(String),
    /// A form that matches no expression shape.
    InvalidExpr,
    /// A malformed `(name expr)` binding.
    InvalidBinding,
    /// A `let` binding list that is not a non-empty list.
    InvalidBindings,
    /// Two bindings of one `let` share a name.
    DuplicateBinding,
    /// A `block` with no expressions.
    InvalidBlock,
    /// A name that is reserved or breaks the identifier rules.
    InvalidIdent(String),
    /// A call whose head is not a valid function name.
    InvalidCallName(String),
    /// A function signature that is not a list.
    SignatureNotList,
    /// A function signature element that is not an identifier.
    SignatureNotIdents,
    /// A function signature with no name.
    SignatureEmpty,
    /// Two parameters of one function share a name.
    DuplicateParams,
    /// Two function definitions share a name.
    DuplicateFunName,
    /// A `fun` form that is not `(fun (name params...) body)`.
    InvalidFunDef,
    /// A function definition that is not a list at all.
    FunDefNotList,
    /// A program that is not a list of forms.
    ProgramNotList,
    /// A program with definitions but no main expression.
    OnlyDefinitions,
    /// A variable reference or assignment with no binding in scope.
    UnboundVar(String),
    /// A `break` outside any `loop`.
    BreakOutsideLoop,
    /// An integer literal whose encoding does not fit in 64 bits.
    LiteralOverflow(i64),
}

/// The view of an error: name and message payloads as character sequences.
pub enum CompErrV {
    Surface(Seq<char>),
    InvalidExpr,
    InvalidBinding,
    InvalidBindings,
    DuplicateBinding,
    InvalidBlock,
    InvalidIdent(Seq<char>),
    InvalidCallName(Seq<char>),
    SignatureNotList,
    SignatureNotIdents,
    SignatureEmpty,
    DuplicateParams,
    DuplicateFunName,
    InvalidFunDef,
    FunDefNotList,
    ProgramNotList,
    OnlyDefinitions,
    UnboundVar(Seq<char>),
    BreakOutsideLoop,
    LiteralOverflow(i64),
}

impl View for CompErr {
    type V = CompErrV;

    open spec fn view(&self) -> CompErrV {
        match self {
            CompErr::Surface(m) => CompErrV::Surface(m@),
            CompErr::InvalidExpr => CompErrV::InvalidExpr,
            CompErr::InvalidBinding => CompErrV::InvalidBinding,
            CompErr::InvalidBindings => CompErrV::InvalidBindings,
            CompErr::DuplicateBinding => CompErrV::DuplicateBinding,
            CompErr::InvalidBlock => CompErrV::InvalidBlock,
            CompErr::InvalidIdent(x) => CompErrV::InvalidIdent(x@),
            CompErr::InvalidCallName(x) => CompErrV::InvalidCallName(x@),
            CompErr::SignatureNotList => CompErrV::SignatureNotList,
            CompErr::SignatureNotIdents => CompErrV::SignatureNotIdents,
            CompErr::SignatureEmpty => CompErrV::SignatureEmpty,
            CompErr::DuplicateParams => CompErrV::DuplicateParams,
            CompErr::DuplicateFunName => CompErrV::DuplicateFunName,
            CompErr::InvalidFunDef => CompErrV::InvalidFunDef,
            CompErr::FunDefNotList => CompErrV::FunDefNotList,
            CompErr::ProgramNotList => CompErrV::ProgramNotList,
            CompErr::OnlyDefinitions => CompErrV::OnlyDefinitions,
            CompErr::UnboundVar(x) => CompErrV::UnboundVar(x@),
            CompErr::BreakOutsideLoop => CompErrV::BreakOutsideLoop,
            CompErr::LiteralOverflow(n) => CompErrV::LiteralOverflow(*n),
        }
    }
}

/// The human-readable message of each error.
pub open spec fn err_text(e: CompErrV) -> Seq<char> {
    match e {
        CompErrV::Surface(m) => "Invalid expression: "@ + m,
        CompErrV::InvalidExpr => "Invalid expression"@,
        CompErrV::InvalidBinding => "Invalid binding"@,
        CompErrV::InvalidBindings => "Invalid bindings"@,
        CompErrV::DuplicateBinding => "Invalid bindings: Duplicate binding"@,
        CompErrV::InvalidBlock => "Invalid block"@,
        CompErrV::InvalidIdent(x) => "Invalid identifier or keyword: "@ + x,
        CompErrV::InvalidCallName(x) => "Invalid function name in call: "@ + x,
        CompErrV::SignatureNotList => "Function signature must be a list"@,
        CompErrV::SignatureNotIdents => "All elements in function signature must be identifiers"@,
        CompErrV::SignatureEmpty => "Function must have a name"@,
        CompErrV::DuplicateParams => "Function parameters must be unique"@,
        CompErrV::DuplicateFunName => "Function name must be unique"@,
        CompErrV::InvalidFunDef => "Invalid function definition format"@,
        CompErrV::FunDefNotList => "Function definition must be a list"@,
        CompErrV::ProgramNotList => "Program must be a list"@,
        CompErrV::OnlyDefinitions => "Only definitions found in program"@,
        CompErrV::UnboundVar(x) => "Unbound variable identifier "@ + x,
        CompErrV::BreakOutsideLoop => "break outside of loop"@,
        CompErrV::LiteralOverflow(n) => "Invalid integer constant: overflow "@ + int_str(n as int),
    }
}

impl CompErr {
    /// The message of the error, as the driver prints it.
    pub fn message(&self) -> (m: String)
        ensures
            m@ == err_text(self@),
    {
        match self {
            CompErr::Surface(t) => {
                let mut s = String::from_str("Invalid expression: ");
                s.append(t.as_str());
                s
            },
            CompErr::InvalidExpr => String::from_str("Invalid expression"),
            CompErr::InvalidBinding => String::from_str("Invalid binding"),
            CompErr::InvalidBindings => String::from_str("Invalid bindings"),
            CompErr::DuplicateBinding => String::from_str("Invalid bindings: Duplicate binding"),
            CompErr::InvalidBlock => String::from_str("Invalid block"),
            CompErr::InvalidIdent(x) => {
                let mut s = String::from_str("Invalid identifier or keyword: ");
                s.append(x.as_str());
                s
            },
            CompErr::InvalidCallName(x) => {
                let mut s = String::from_str("Invalid function name in call: ");
                s.append(x.as_str());
                s
            },
            CompErr::SignatureNotList => String::from_str("Function signature must be a list"),
            CompErr::SignatureNotIdents => String::from_str(
                "All elements in function signature must be identifiers",
            ),
            CompErr::SignatureEmpty => String::from_str("Function must have a name"),
            CompErr::DuplicateParams => String::from_str("Function parameters must be unique"),
            CompErr::DuplicateFunName => String::from_str("Function name must be unique"),
            CompErr::InvalidFunDef => String::from_str("Invalid function definition format"),
            CompErr::FunDefNotList => String::from_str("Function definition must be a list"),
            CompErr::ProgramNotList => String::from_str("Program must be a list"),
            CompErr::OnlyDefinitions => String::from_str("Only definitions found in program"),
            CompErr::UnboundVar(x) => {
                let mut s = String::from_str("Unbound variable identifier ");
                s.append(x.as_str());
                s
            },
            CompErr::BreakOutsideLoop => String::from_str("break outside of loop"),
            CompErr::LiteralOverflow(n) => {
                let mut s = String::from_str("Invalid integer constant: overflow ");
                let num = crate::numerals::i64_to_string(*n);
                s.append(num.as_str());
                s
            },
        }
    }
}

} // verus!
