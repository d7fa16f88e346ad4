//! The entry points of the parser: each one parses one nonterminal of the
//! expression grammar at the start of a string and gives back the rest of
//! the string with the value.
use vstd::prelude::*;

use core::marker::PhantomData;

use crate::ast::{model_chunks, model_exprs, Arglist, ComprehensionChunk, Expression, Subscript};
use crate::grammar::{
    spec_arglist, spec_atom, spec_atom_expr, spec_bop, spec_comp_for, spec_dictorsetmaker,
    spec_exprlist, spec_factor, spec_not_test, spec_possibly_empty_testlist, spec_power,
    spec_star_expr, spec_subscript, spec_test, spec_test_nocond, spec_testlist,
    spec_testlist_comp, spec_yield_expr, Level,
};
use crate::lexer::chars_to_string;
use crate::parser;
use crate::parser::res_expr;
use crate::result::{model_error, ParseError, PResult, SRes};

verus! {

broadcast use vstd::string::group_string_axioms;

/// Whether a newline counts as a blank between the tokens of an expression.
pub trait AreNewlinesSpaces {
    spec fn spec_newlines_are_spaces() -> bool;

    fn newlines_are_spaces() -> (b: bool)
        ensures
            b == Self::spec_newlines_are_spaces(),
    ;
}

/// Newlines are blanks, as inside brackets.
pub struct NewlinesAreSpaces;

/// Newlines end the expression, as in a statement.
pub struct NewlinesAreNotSpaces;

impl AreNewlinesSpaces for NewlinesAreSpaces {
    open spec fn spec_newlines_are_spaces() -> bool {
        true
    }

    fn newlines_are_spaces() -> (b: bool) {
        true
    }
}

impl AreNewlinesSpaces for NewlinesAreNotSpaces {
    open spec fn spec_newlines_are_spaces() -> bool {
        false
    }

    fn newlines_are_spaces() -> (b: bool) {
        false
    }
}

/// The outcome of a parse of a whole string: the rest of the string and the
/// value, or the error.
pub type Parsed<T> = Result<(String, T), ParseError>;

/// `out` is the parse that the model `m` describes for the string `s`: on
/// success, the rest of `s` after the position that `m` gives, and a value
/// whose model (taken by `f`) is the one of `m`; otherwise the same error.
pub open spec fn parsed_as<T, V>(out: Parsed<T>, s: Seq<char>, f: spec_fn(T) -> V, m: SRes<V>) -> bool {
    match out {
        Ok((rest, v)) => m matches Ok((mv, q)) && 0 <= q <= s.len() && rest@ == s.subrange(
            q,
            s.len() as int,
        ) && f(v) == mv,
        Err(e) => m == Err::<(V, int), _>(model_error(e)),
    }
}

/// The characters of `s`.
pub fn str_chars(s: &str) -> (v: Vec<char>)
    ensures
        v@ == s@,
{
    let mut v: Vec<char> = Vec::new();
    for c in it: s.chars()
        invariant
            v@ == it.seq().take(it.index() as int),
            it.seq() == s@,
    {
        v.push(c);
    }
    v
}

/// A parse of `s` from its start, with the rest of `s` cut off as a string.
fn finish<T>(s: &[char], r: PResult<T>) -> (out: Parsed<T>)
    requires
        r matches Ok((q, _)) ==> q <= s.len(),
    ensures
        match r {
            Ok((q, v)) => out matches Ok((rest, w)) && rest@ == s@.subrange(q as int, s@.len() as int)
                && w == v,
            Err(e) => out == Err::<(String, T), _>(e),
        },
{
    match r {
        Ok((q, v)) => Ok((chars_to_string(s, q, s.len()), v)),
        Err(e) => Err(e),
    }
}

/// A parse of an expression from the start of `s`, the value boxed.
fn finish_boxed(s: &[char], r: PResult<Expression>) -> (out: Parsed<Box<Expression>>)
    requires
        r matches Ok((q, _)) ==> q <= s.len(),
    ensures
        parsed_as(out, s@, |b: Box<Expression>| b@, res_expr(r)),
{
    match r {
        Ok((q, v)) => Ok((chars_to_string(s, q, s.len()), Box::new(v))),
        Err(e) => Err(e),
    }
}

/// The parser of expressions; `ANS` says whether newlines count as blanks.
pub struct ExpressionParser<ANS: AreNewlinesSpaces> {
    _phantom: PhantomData<ANS>,
}

impl<ANS: AreNewlinesSpaces> ExpressionParser<ANS> {
    /// `test: or_test ['if' or_test 'else' test] | lambdef`, the lambda only
    /// without parameters.
    pub fn test(input: &str) -> (out: Parsed<Box<Expression>>)
        ensures
            parsed_as(
                out,
                input@,
                |b: Box<Expression>| b@,
                spec_test(input@, ANS::spec_newlines_are_spaces(), 0),
            ),
    {
        let s = str_chars(input);
        let nl = ANS::newlines_are_spaces();
        finish_boxed(s.as_slice(), parser::test(s.as_slice(), nl, 0))
    }

    /// `test_nocond: or_test | lambdef_nocond`, the lambda only without
    /// parameters.
    pub fn test_nocond(input: &str) -> (out: Parsed<Box<Expression>>)
        ensures
            parsed_as(
                out,
                input@,
                |b: Box<Expression>| b@,
                spec_test_nocond(input@, ANS::spec_newlines_are_spaces(), 0),
            ),
    {
        let s = str_chars(input);
        let nl = ANS::newlines_are_spaces();
        finish_boxed(s.as_slice(), parser::test_nocond(s.as_slice(), nl, 0))
    }

    /// `or_test: and_test ('or' and_test)*`
    pub fn or_test(input: &str) -> (out: Parsed<Box<Expression>>)
        ensures
            parsed_as(
                out,
                input@,
                |b: Box<Expression>| b@,
                spec_bop(input@, ANS::spec_newlines_are_spaces(), Level::Or, 0),
            ),
    {
        let s = str_chars(input);
        let nl = ANS::newlines_are_spaces();
        finish_boxed(s.as_slice(), parser::bop(s.as_slice(), nl, Level::Or, 0))
    }

    /// `and_test: not_test ('and' not_test)*`
    pub fn and_test(input: &str) -> (out: Parsed<Box<Expression>>)
        ensures
            parsed_as(
                out,
                input@,
                |b: Box<Expression>| b@,
                spec_bop(input@, ANS::spec_newlines_are_spaces(), Level::And, 0),
            ),
    {
        let s = str_chars(input);
        let nl = ANS::newlines_are_spaces();
        finish_boxed(s.as_slice(), parser::bop(s.as_slice(), nl, Level::And, 0))
    }

    /// `not_test: 'not ' comparison | comparison`
    pub fn not_test(input: &str) -> (out: Parsed<Box<Expression>>)
        ensures
            parsed_as(
                out,
                input@,
                |b: Box<Expression>| b@,
                spec_not_test(input@, ANS::spec_newlines_are_spaces(), 0),
            ),
    {
        let s = str_chars(input);
        let nl = ANS::newlines_are_spaces();
        finish_boxed(s.as_slice(), parser::not_test(s.as_slice(), nl, 0))
    }

    /// `comparison: expr (comp_op expr)*`
    pub fn comparison(input: &str) -> (out: Parsed<Box<Expression>>)
        ensures
            parsed_as(
                out,
                input@,
                |b: Box<Expression>| b@,
                spec_bop(input@, ANS::spec_newlines_are_spaces(), Level::Comparison, 0),
            ),
    {
        let s = str_chars(input);
        let nl = ANS::newlines_are_spaces();
        finish_boxed(s.as_slice(), parser::bop(s.as_slice(), nl, Level::Comparison, 0))
    }

    /// `star_expr: '*' expr`
    pub fn star_expr(input: &str) -> (out: Parsed<Box<Expression>>)
        ensures
            parsed_as(
                out,
                input@,
                |b: Box<Expression>| b@,
                spec_star_expr(input@, ANS::spec_newlines_are_spaces(), 0),
            ),
    {
        let s = str_chars(input);
        let nl = ANS::newlines_are_spaces();
        finish_boxed(s.as_slice(), parser::star_expr(s.as_slice(), nl, 0))
    }

    /// `expr: xor_expr ('|' xor_expr)*`
    pub fn expr(input: &str) -> (out: Parsed<Box<Expression>>)
        ensures
            parsed_as(
                out,
                input@,
                |b: Box<Expression>| b@,
                spec_bop(input@, ANS::spec_newlines_are_spaces(), Level::Expr, 0),
            ),
    {
        let s = str_chars(input);
        let nl = ANS::newlines_are_spaces();
        finish_boxed(s.as_slice(), parser::bop(s.as_slice(), nl, Level::Expr, 0))
    }

    /// `xor_expr: and_expr ('^' and_expr)*`
    pub fn xor_expr(input: &str) -> (out: Parsed<Box<Expression>>)
        ensures
            parsed_as(
                out,
                input@,
                |b: Box<Expression>| b@,
                spec_bop(input@, ANS::spec_newlines_are_spaces(), Level::Xor, 0),
            ),
    {
        let s = str_chars(input);
        let nl = ANS::newlines_are_spaces();
        finish_boxed(s.as_slice(), parser::bop(s.as_slice(), nl, Level::Xor, 0))
    }

    /// `and_expr: shift_expr ('&' shift_expr)*`
    pub fn and_expr(input: &str) -> (out: Parsed<Box<Expression>>)
        ensures
            parsed_as(
                out,
                input@,
                |b: Box<Expression>| b@,
                spec_bop(input@, ANS::spec_newlines_are_spaces(), Level::BitAnd, 0),
            ),
    {
        let s = str_chars(input);
        let nl = ANS::newlines_are_spaces();
        finish_boxed(s.as_slice(), parser::bop(s.as_slice(), nl, Level::BitAnd, 0))
    }

    /// `shift_expr: arith_expr (('<<'|'>>') arith_expr)*`
    pub fn shift_expr(input: &str) -> (out: Parsed<Box<Expression>>)
        ensures
            parsed_as(
                out,
                input@,
                |b: Box<Expression>| b@,
                spec_bop(input@, ANS::spec_newlines_are_spaces(), Level::Shift, 0),
            ),
    {
        let s = str_chars(input);
        let nl = ANS::newlines_are_spaces();
        finish_boxed(s.as_slice(), parser::bop(s.as_slice(), nl, Level::Shift, 0))
    }

    /// `arith_expr: term (('+'|'-') term)*`
    pub fn arith_expr(input: &str) -> (out: Parsed<Box<Expression>>)
        ensures
            parsed_as(
                out,
                input@,
                |b: Box<Expression>| b@,
                spec_bop(input@, ANS::spec_newlines_are_spaces(), Level::Arith, 0),
            ),
    {
        let s = str_chars(input);
        let nl = ANS::newlines_are_spaces();
        finish_boxed(s.as_slice(), parser::bop(s.as_slice(), nl, Level::Arith, 0))
    }

    /// `term: factor (('*'|'@'|'/'|'%'|'//') factor)*`
    pub fn term(input: &str) -> (out: Parsed<Box<Expression>>)
        ensures
            parsed_as(
                out,
                input@,
                |b: Box<Expression>| b@,
                spec_bop(input@, ANS::spec_newlines_are_spaces(), Level::Term, 0),
            ),
    {
        let s = str_chars(input);
        let nl = ANS::newlines_are_spaces();
        finish_boxed(s.as_slice(), parser::bop(s.as_slice(), nl, Level::Term, 0))
    }

    /// `factor: ('+'|'-'|'~') factor | power`
    pub fn factor(input: &str) -> (out: Parsed<Box<Expression>>)
        ensures
            parsed_as(
                out,
                input@,
                |b: Box<Expression>| b@,
                spec_factor(input@, ANS::spec_newlines_are_spaces(), 0),
            ),
    {
        let s = str_chars(input);
        let nl = ANS::newlines_are_spaces();
        finish_boxed(s.as_slice(), parser::factor(s.as_slice(), nl, 0))
    }

    /// `power: atom_expr ['**' factor]`
    pub fn power(input: &str) -> (out: Parsed<Box<Expression>>)
        ensures
            parsed_as(
                out,
                input@,
                |b: Box<Expression>| b@,
                spec_power(input@, ANS::spec_newlines_are_spaces(), 0),
            ),
    {
        let s = str_chars(input);
        let nl = ANS::newlines_are_spaces();
        finish_boxed(s.as_slice(), parser::power(s.as_slice(), nl, 0))
    }

    /// `atom_expr: atom trailer*`
    pub fn atom_expr(input: &str) -> (out: Parsed<Box<Expression>>)
        ensures
            parsed_as(
                out,
                input@,
                |b: Box<Expression>| b@,
                spec_atom_expr(input@, ANS::spec_newlines_are_spaces(), 0),
            ),
    {
        let s = str_chars(input);
        let nl = ANS::newlines_are_spaces();
        finish_boxed(s.as_slice(), parser::atom_expr(s.as_slice(), nl, 0))
    }

    /// `atom`: a parenthesized form, a list or dict or set display, a name, a
    /// number, adjacent strings, `...`, `None`, `True` or `False`.
    pub fn atom(input: &str) -> (out: Parsed<Box<Expression>>)
        ensures
            parsed_as(
                out,
                input@,
                |b: Box<Expression>| b@,
                spec_atom(input@, ANS::spec_newlines_are_spaces(), 0),
            ),
    {
        let s = str_chars(input);
        let nl = ANS::newlines_are_spaces();
        finish_boxed(s.as_slice(), parser::atom(s.as_slice(), nl, 0))
    }

    /// `testlist_comp: (test|star_expr) (comp_for | ',' [(test|star_expr) (',' (test|star_expr))*])`:
    /// a comprehension, or a list whose first item is followed by a comma.
    pub fn testlist_comp(input: &str) -> (out: Parsed<Expression>)
        ensures
            parsed_as(
                out,
                input@,
                |e: Expression| e@,
                spec_testlist_comp(input@, ANS::spec_newlines_are_spaces(), 0),
            ),
    {
        let s = str_chars(input);
        let nl = ANS::newlines_are_spaces();
        let r = parser::testlist_comp(s.as_slice(), nl, 0);
        finish(s.as_slice(), r)
    }

    /// `subscript: test | [test] ':' [test] [':' [test]]`
    pub fn subscript(input: &str) -> (out: Parsed<Subscript>)
        ensures
            parsed_as(
                out,
                input@,
                |x: Subscript| x@,
                spec_subscript(input@, ANS::spec_newlines_are_spaces(), 0),
            ),
    {
        let s = str_chars(input);
        let nl = ANS::newlines_are_spaces();
        let r = parser::subscript(s.as_slice(), nl, 0);
        finish(s.as_slice(), r)
    }

    /// `exprlist: (expr|star_expr) (',' (expr|star_expr))*`; a trailing comma
    /// is left in the rest.
    pub fn exprlist(input: &str) -> (out: Parsed<Vec<Expression>>)
        ensures
            parsed_as(
                out,
                input@,
                |v: Vec<Expression>| model_exprs(v@),
                spec_exprlist(input@, ANS::spec_newlines_are_spaces(), 0),
            ),
    {
        let s = str_chars(input);
        let nl = ANS::newlines_are_spaces();
        let r = parser::exprlist(s.as_slice(), nl, 0);
        finish(s.as_slice(), r)
    }

    /// `testlist: test (',' test)*`; a trailing comma is left in the rest.
    pub fn testlist(input: &str) -> (out: Parsed<Vec<Expression>>)
        ensures
            parsed_as(
                out,
                input@,
                |v: Vec<Expression>| model_exprs(v@),
                spec_testlist(input@, ANS::spec_newlines_are_spaces(), 0),
            ),
    {
        let s = str_chars(input);
        let nl = ANS::newlines_are_spaces();
        let r = parser::testlist(s.as_slice(), nl, 0);
        finish(s.as_slice(), r)
    }

    /// A `testlist` that may also be empty.
    pub fn possibly_empty_testlist(input: &str) -> (out: Parsed<Vec<Expression>>)
        ensures
            parsed_as(
                out,
                input@,
                |v: Vec<Expression>| model_exprs(v@),
                spec_possibly_empty_testlist(input@, ANS::spec_newlines_are_spaces(), 0),
            ),
    {
        let s = str_chars(input);
        let nl = ANS::newlines_are_spaces();
        let r = parser::possibly_empty_testlist(s.as_slice(), nl, 0);
        finish(s.as_slice(), r)
    }

    /// `arglist: argument (',' argument)*`, split into the positional and the
    /// keyword arguments; a trailing comma is left in the rest.
    pub fn arglist(input: &str) -> (out: Parsed<Arglist>)
        ensures
            parsed_as(
                out,
                input@,
                |a: Arglist| a@,
                spec_arglist(input@, ANS::spec_newlines_are_spaces(), 0),
            ),
    {
        let s = str_chars(input);
        let nl = ANS::newlines_are_spaces();
        let r = parser::arglist(s.as_slice(), nl, 0);
        finish(s.as_slice(), r)
    }

    /// `comp_for: ['async'] 'for' exprlist 'in' or_test [comp_iter]`, with the
    /// clauses that follow it.
    pub fn comp_for(input: &str) -> (out: Parsed<Vec<ComprehensionChunk>>)
        ensures
            parsed_as(
                out,
                input@,
                |v: Vec<ComprehensionChunk>| model_chunks(v@),
                spec_comp_for(input@, ANS::spec_newlines_are_spaces(), 0),
            ),
    {
        let s = str_chars(input);
        let nl = ANS::newlines_are_spaces();
        let r = parser::comp_for(s.as_slice(), nl, 0);
        finish(s.as_slice(), r)
    }

    /// `yield_expr: 'yield' ('from' test | testlist)`: the argument is required.
    pub fn yield_expr(input: &str) -> (out: Parsed<Expression>)
        ensures
            parsed_as(
                out,
                input@,
                |e: Expression| e@,
                spec_yield_expr(input@, ANS::spec_newlines_are_spaces(), 0),
            ),
    {
        let s = str_chars(input);
        let nl = ANS::newlines_are_spaces();
        let r = parser::yield_expr(s.as_slice(), nl, 0);
        finish(s.as_slice(), r)
    }
}

impl ExpressionParser<NewlinesAreSpaces> {
    /// `dictorsetmaker`: the inside of a dict or set display, newlines
    /// counting as blanks.
    pub fn dictorsetmaker(input: &str) -> (out: Parsed<Box<Expression>>)
        ensures
            parsed_as(out, input@, |b: Box<Expression>| b@, spec_dictorsetmaker(input@, 0)),
    {
        let s = str_chars(input);
        finish_boxed(s.as_slice(), parser::dictorsetmaker(s.as_slice(), 0))
    }
}

} // verus!
