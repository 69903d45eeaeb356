use vstd::prelude::*;
use crate::functions;
use crate::tokens::Operator;

verus! {

/// Everything that can go wrong while tokenizing, parsing or evaluating an
/// expression. The first failure encountered wins; no stage recovers locally.
#[derive(Debug, Clone)]
pub enum Error {
    /// An operator was reduced with fewer operands than its arity demands.
    MissingOperands(Operator),
    /// A function call had an empty argument list.
    NotEnoughFunctionParams(String),
    /// A function argument list was malformed (stray or missing commas).
    FunctionSyntaxError(String),
    /// A name in call position resolved neither to a builtin nor to a Scope
    /// function binding.
    UnknownFunction(String),
    /// A variable resolved neither to a builtin constant nor to a Scope
    /// number binding.
    UnknownVariable(String),
    /// A token that cannot stand on its own reached the evaluator.
    CannotEvaluateToken(String),
    /// A numeric run that does not parse as a decimal literal.
    InvalidToken(String),
    /// Nothing to evaluate: no operand remained, or the expression was
    /// malformed (unbalanced parentheses, juxtaposed sub-expressions).
    EmptyExpression,
    /// An operator was applied to value types it does not accept.
    InvalidOperands(Operator),
    /// A failure reported by a function binding itself.
    Function(functions::Error),
}

impl PartialEq for Error {
    fn eq(&self, other: &Error) -> (r: bool) {
        match (self, other) {
            (Error::MissingOperands(a), Error::MissingOperands(b)) => *a == *b,
            (Error::NotEnoughFunctionParams(a), Error::NotEnoughFunctionParams(b)) => *a == *b,
            (Error::FunctionSyntaxError(a), Error::FunctionSyntaxError(b)) => *a == *b,
            (Error::UnknownFunction(a), Error::UnknownFunction(b)) => *a == *b,
            (Error::UnknownVariable(a), Error::UnknownVariable(b)) => *a == *b,
            (Error::CannotEvaluateToken(a), Error::CannotEvaluateToken(b)) => *a == *b,
            (Error::InvalidToken(a), Error::InvalidToken(b)) => *a == *b,
            (Error::EmptyExpression, Error::EmptyExpression) => true,
            (Error::InvalidOperands(a), Error::InvalidOperands(b)) => *a == *b,
            (Error::Function(a), Error::Function(b)) => *a == *b,
            _ => false,
        }
    }
}

impl vstd::std_specs::cmp::PartialEqSpecImpl for Error {
    open spec fn obeys_eq_spec() -> bool {
        true
    }

    open spec fn eq_spec(&self, other: &Error) -> bool {
        self@ == other@
    }
}

/// The shape of an error with every text payload taken as a character
/// sequence: what contracts speak about.
pub enum ErrorV {
    MissingOperands(Operator),
    NotEnoughFunctionParams(Seq<char>),
    FunctionSyntaxError(Seq<char>),
    UnknownFunction(Seq<char>),
    UnknownVariable(Seq<char>),
    CannotEvaluateToken(Seq<char>),
    InvalidToken(Seq<char>),
    EmptyExpression,
    InvalidOperands(Operator),
    Function(functions::ErrorV),
}

impl View for Error {
    type V = ErrorV;

    open spec fn view(&self) -> ErrorV {
        match self {
            Error::MissingOperands(op) => ErrorV::MissingOperands(*op),
            Error::NotEnoughFunctionParams(s) => ErrorV::NotEnoughFunctionParams(s@),
            Error::FunctionSyntaxError(s) => ErrorV::FunctionSyntaxError(s@),
            Error::UnknownFunction(s) => ErrorV::UnknownFunction(s@),
            Error::UnknownVariable(s) => ErrorV::UnknownVariable(s@),
            Error::CannotEvaluateToken(s) => ErrorV::CannotEvaluateToken(s@),
            Error::InvalidToken(s) => ErrorV::InvalidToken(s@),
            Error::EmptyExpression => ErrorV::EmptyExpression,
            Error::InvalidOperands(op) => ErrorV::InvalidOperands(*op),
            Error::Function(e) => ErrorV::Function(e@),
        }
    }
}

/// Turns a `Result` over the executable error type into one over its view:
/// what contracts state results through.
pub open spec fn eres_view<T>(r: Result<T, Error>) -> Result<T, ErrorV> {
    match r {
        Ok(v) => Ok(v),
        Err(e) => Err(e@),
    }
}

impl From<functions::Error> for Error {
    fn from(e: functions::Error) -> (r: Error) {
        Error::Function(e)
    }
}

impl vstd::std_specs::convert::FromSpecImpl<functions::Error> for Error {
    open spec fn obeys_from_spec() -> bool {
        true
    }

    open spec fn from_spec(e: functions::Error) -> Error {
        Error::Function(e)
    }
}

} // verus!
