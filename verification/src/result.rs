//! Outcomes of a parse: success with the position where the parse stopped,
//! a recoverable error (the caller may try another alternative), or a
//! failure that ends the whole parse.
use vstd::prelude::*;

verus! {

/// Why an argument list was refused.
#[derive(Debug, Clone, Copy, PartialEq, Eq)]
pub enum ArgumentError {
    /// `f(a.b=c)`: the left-hand side of a keyword argument is not a name.
    KeywordExpression,
    /// `f(a=b, c)`: a positional argument follows a keyword argument.
    PositionalAfterKeyword,
    /// `f(**a, *b)`: a starred argument follows a keyword argument.
    StarargsAfterKeyword,
}

/// How a parse went wrong.
#[derive(Debug, Clone, Copy, PartialEq, Eq)]
pub enum ParseError {
    /// The input does not start with the construct; alternatives may be tried.
    Error,
    /// An argument list was refused; the position is where the list ended.
    Failure(usize, ArgumentError),
    /// A decimal literal starting at the given position does not fit in an `i64`.
    IntegerOverflow(usize),
}

/// The model of [`ParseError`].
pub enum SpecError {
    Error,
    Failure(int, ArgumentError),
    IntegerOverflow(int),
}

/// The model of a parse: the value and the position after it, or the error.
pub type SRes<V> = Result<(V, int), SpecError>;

/// A parse: the position after the value and the value, or the error.
pub type PResult<T> = Result<(usize, T), ParseError>;

pub open spec fn model_error(e: ParseError) -> SpecError {
    match e {
        ParseError::Error => SpecError::Error,
        ParseError::Failure(p, k) => SpecError::Failure(p as int, k),
        ParseError::IntegerOverflow(p) => SpecError::IntegerOverflow(p as int),
    }
}

/// The model of an executable parse result, the value taken through `f`.
pub open spec fn lift<T, V>(r: PResult<T>, f: spec_fn(T) -> V) -> SRes<V> {
    match r {
        Ok((q, v)) => Ok((f(v), q as int)),
        Err(e) => Err(model_error(e)),
    }
}

/// A successful result that stops before `p` or past `len` is turned into
/// an error. Parses never do so (their contracts say it); the grammar uses
/// this to show that it terminates.
pub open spec fn within<V>(r: SRes<V>, p: int, len: int) -> SRes<V> {
    match r {
        Ok((v, q)) => if p <= q && q <= len {
            Ok((v, q))
        } else {
            Err(SpecError::Error)
        },
        Err(e) => Err(e),
    }
}

/// Ordered choice: the second alternative is tried only when the first one
/// fails with a recoverable error.
pub open spec fn or_else<V>(r1: SRes<V>, r2: SRes<V>) -> SRes<V> {
    match r1 {
        Err(SpecError::Error) => r2,
        _ => r1,
    }
}

/// The end position of a result, if it is a success.
pub open spec fn ends_within<T>(r: PResult<T>, p: int, len: int) -> bool {
    r matches Ok((q, _)) ==> p <= q && q <= len
}

/// The end position of a result, if it is a success, lies strictly after `p`.
pub open spec fn ends_after<T>(r: PResult<T>, p: int, len: int) -> bool {
    r matches Ok((q, _)) ==> p < q && q <= len
}

} // verus!
