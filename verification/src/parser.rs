//! The executable parser. Each function parses one nonterminal of the
//! grammar at a position of the input and is proved to return exactly what
//! the function of the same name in `grammar` describes.
use vstd::prelude::*;

use crate::arglist::{
    build_arglist, model_raw_arg, model_raw_args, RawArgument, SpecRawArgument,
};
use crate::ast::{
    model_chunks, model_dict_items, model_exprs, model_opt, model_set_items, model_subscripts,
    prepend_chunk, prepend_dict_item, prepend_set_item, single_expr, unique_generator,
    lambda_without_params, Arglist, Bop, ComprehensionChunk, DictItem, Expression, Name, SetItem,
    SpecArglist, SpecChunk, SpecDictItem, SpecExpression, SpecSetItem, SpecSubscript, Subscript,
    Uop,
};
use crate::grammar::{
    Level, SpecTrailer, comp_ahead, level_rank, paren_form, slice_of, spec_apply_trailer,
    spec_arglist, spec_args, spec_args_rest, spec_argument, spec_argument_after, spec_atom,
    spec_atom_braces, spec_atom_brackets, spec_atom_expr, spec_atom_number, spec_atom_parens,
    spec_atom_word, spec_bop, spec_bop_rest, spec_comp_for, spec_comp_if, spec_conditional,
    spec_lambdef, spec_dictitem, spec_dictitems, spec_dictitems_rest, spec_dictmaker,
    spec_dictorsetmaker, spec_elist, spec_elist_item, spec_elist_rest, spec_exprlist, spec_factor,
    spec_generator_argument, spec_keyword_value, spec_kwargs_argument, spec_not_test, spec_op_at,
    spec_operand, spec_opt_comp_iter, spec_plain_argument, spec_possibly_empty_testlist, spec_power,
    spec_setitem, spec_setitems, spec_setitems_rest, spec_setmaker, spec_star_argument,
    spec_star_expr, spec_subscript, spec_subscript_step, spec_subscript_tail, spec_subscripts,
    spec_subscripts_rest, spec_ternary_tail, spec_test, spec_test_nocond, spec_test_or_star,
    spec_testlist, spec_testlist_comp, spec_tlc_after, spec_tlc_items, spec_tlc_rest, spec_trailer,
    spec_trailers, spec_yield_expr, spec_yield_from, unary_op,
};
use crate::lexer::{
    blank_exec, char_at_exec, comma_after_exec, name, number, run_end_exec, sep_end_exec, strings,
    tok_at_exec, CharClass, Tok,
};
use crate::result::{
    ends_after, ends_within, lift, PResult, ParseError, SRes,
};

verus! {

pub open spec fn res_expr(r: PResult<Expression>) -> SRes<SpecExpression> {
    lift(r, |e: Expression| e@)
}

pub open spec fn res_exprs(r: PResult<Vec<Expression>>) -> SRes<Seq<SpecExpression>> {
    lift(r, |v: Vec<Expression>| model_exprs(v@))
}

pub open spec fn res_pair(r: PResult<(Expression, Expression)>) -> SRes<
    (SpecExpression, SpecExpression),
> {
    lift(r, |x: (Expression, Expression)| (x.0@, x.1@))
}

pub open spec fn res_set_item(r: PResult<SetItem>) -> SRes<SpecSetItem> {
    lift(r, |x: SetItem| x@)
}

pub open spec fn res_set_items(r: PResult<Vec<SetItem>>) -> SRes<Seq<SpecSetItem>> {
    lift(r, |v: Vec<SetItem>| model_set_items(v@))
}

pub open spec fn res_dict_item(r: PResult<DictItem>) -> SRes<SpecDictItem> {
    lift(r, |x: DictItem| x@)
}

pub open spec fn res_dict_items(r: PResult<Vec<DictItem>>) -> SRes<Seq<SpecDictItem>> {
    lift(r, |v: Vec<DictItem>| model_dict_items(v@))
}

pub open spec fn res_subscript(r: PResult<Subscript>) -> SRes<SpecSubscript> {
    lift(r, |x: Subscript| x@)
}

pub open spec fn res_subscripts(r: PResult<Vec<Subscript>>) -> SRes<Seq<SpecSubscript>> {
    lift(r, |v: Vec<Subscript>| model_subscripts(v@))
}

pub open spec fn model_step(x: Option<Option<Expression>>) -> Option<Option<SpecExpression>> {
    match x {
        None => None,
        Some(o) => Some(model_opt(o)),
    }
}

pub open spec fn res_step(r: PResult<Option<Option<Expression>>>) -> SRes<
    Option<Option<SpecExpression>>,
> {
    lift(r, |x: Option<Option<Expression>>| model_step(x))
}

pub open spec fn res_tail(r: PResult<(Option<Expression>, Option<Option<Expression>>)>) -> SRes<
    (Option<SpecExpression>, Option<Option<SpecExpression>>),
> {
    lift(r, |x: (Option<Expression>, Option<Option<Expression>>)| (model_opt(x.0), model_step(x.1)))
}

pub open spec fn res_chunks(r: PResult<Vec<ComprehensionChunk>>) -> SRes<Seq<SpecChunk>> {
    lift(r, |v: Vec<ComprehensionChunk>| model_chunks(v@))
}

pub open spec fn res_arglist(r: PResult<Arglist>) -> SRes<SpecArglist> {
    lift(r, |a: Arglist| a@)
}

pub open spec fn res_raw_arg(r: PResult<RawArgument>) -> SRes<SpecRawArgument> {
    lift(r, |a: RawArgument| model_raw_arg(a))
}

pub open spec fn res_raw_args(r: PResult<Vec<RawArgument>>) -> SRes<Seq<SpecRawArgument>> {
    lift(r, |v: Vec<RawArgument>| model_raw_args(v@))
}

/// The parse did not end with a recoverable error.
pub open spec fn no_soft_error<T>(r: PResult<T>) -> bool {
    !(r matches Err(ParseError::Error))
}

fn is_soft_error<T>(r: &PResult<T>) -> (b: bool)
    ensures
        b == (*r matches Err(ParseError::Error)),
{
    match r {
        Err(ParseError::Error) => true,
        _ => false,
    }
}

/// What may follow an atom.
pub enum Trailer {
    Call(Arglist),
    Subscript(Vec<Subscript>),
    Attribute(Name),
}

pub open spec fn model_trailer(t: Trailer) -> SpecTrailer {
    match t {
        Trailer::Call(a) => SpecTrailer::Call(a@),
        Trailer::Subscript(v) => SpecTrailer::Subscript(model_subscripts(v@)),
        Trailer::Attribute(n) => SpecTrailer::Attribute(n@),
    }
}

pub open spec fn res_trailer(r: PResult<Trailer>) -> SRes<SpecTrailer> {
    lift(r, |t: Trailer| model_trailer(t))
}

proof fn lemma_raw_args_push(v: Seq<RawArgument>, x: RawArgument)
    ensures
        model_raw_args(v.push(x)) == model_raw_args(v).push(model_raw_arg(x)),
{
    assert(model_raw_args(v.push(x)) =~= model_raw_args(v).push(model_raw_arg(x)));
}

/// An operator of level `l` at `p`, tried in the order of `spec_op_at`
/// (so `<=`, `>=` and `is not` are never returned).
pub fn op_at(s: &[char], nl: bool, l: Level, p: usize) -> (r: Option<(Bop, usize)>)
    requires
        p <= s.len(),
    ensures
        match r {
            Some((op, q)) => spec_op_at(s@, nl, l, p as int) == Some((op, q as int)) && p < q
                <= s@.len(),
            None => spec_op_at(s@, nl, l, p as int) is None,
        },
{
    match l {
        Level::Or => if tok_at_exec(s, p, Tok::OrSp) {
            Some((Bop::Or, p + 3))
        } else {
            None
        },
        Level::And => if tok_at_exec(s, p, Tok::AndSp) {
            Some((Bop::And, p + 4))
        } else {
            None
        },
        Level::Comparison => {
            if char_at_exec(s, p, '<') {
                return Some((Bop::Lt, p + 1));
            }
            if char_at_exec(s, p, '>') {
                return Some((Bop::Gt, p + 1));
            }
            if tok_at_exec(s, p, Tok::EqEq) {
                return Some((Bop::Eq, p + 2));
            }
            if tok_at_exec(s, p, Tok::Leq) {
                return Some((Bop::Leq, p + 2));
            }
            if tok_at_exec(s, p, Tok::Geq) {
                return Some((Bop::Geq, p + 2));
            }
            if tok_at_exec(s, p, Tok::Neq) {
                return Some((Bop::Neq, p + 2));
            }
            if tok_at_exec(s, p, Tok::KwIn) {
                return Some((Bop::In, p + 2));
            }
            let k = blank_exec(nl);
            if tok_at_exec(s, p, Tok::KwNot) {
                match sep_end_exec(s, k, p + 3) {
                    Some(q1) => if tok_at_exec(s, q1, Tok::KwIn) {
                        match sep_end_exec(s, k, q1 + 2) {
                            Some(q2) => {
                                return Some((Bop::NotIn, q2));
                            },
                            None => {},
                        }
                    },
                    None => {},
                }
            }
            if tok_at_exec(s, p, Tok::KwIs) {
                match sep_end_exec(s, k, p + 2) {
                    Some(q1) => {
                        return Some((Bop::Is, q1));
                    },
                    None => {},
                }
            }
            None
        },
        Level::Expr => if char_at_exec(s, p, '|') {
            Some((Bop::BitOr, p + 1))
        } else {
            None
        },
        Level::Xor => if char_at_exec(s, p, '^') {
            Some((Bop::BitXor, p + 1))
        } else {
            None
        },
        Level::BitAnd => if char_at_exec(s, p, '&') {
            Some((Bop::BitAnd, p + 1))
        } else {
            None
        },
        Level::Shift => if tok_at_exec(s, p, Tok::Lshift) {
            Some((Bop::Lshift, p + 2))
        } else if tok_at_exec(s, p, Tok::Rshift) {
            Some((Bop::Rshift, p + 2))
        } else {
            None
        },
        Level::Arith => if char_at_exec(s, p, '+') {
            Some((Bop::Add, p + 1))
        } else if char_at_exec(s, p, '-') {
            Some((Bop::Sub, p + 1))
        } else {
            None
        },
        Level::Term => if char_at_exec(s, p, '*') {
            Some((Bop::Mult, p + 1))
        } else if char_at_exec(s, p, '@') {
            Some((Bop::Matmult, p + 1))
        } else if char_at_exec(s, p, '%') {
            Some((Bop::Mod, p + 1))
        } else if tok_at_exec(s, p, Tok::DoubleSlash) {
            Some((Bop::Floordiv, p + 2))
        } else if char_at_exec(s, p, '/') {
            Some((Bop::Div, p + 1))
        } else {
            None
        },
    }
}

/// `test` at `p`.
pub fn test(s: &[char], nl: bool, p: usize) -> (r: PResult<Expression>)
    requires
        p <= s.len(),
    ensures
        res_expr(r) == spec_test(s@, nl, p as int),
        ends_after(r, p as int, s@.len() as int),
    decreases s@.len() - p, 40int,
{
    let r = conditional(s, nl, p);
    if !is_soft_error(&r) {
        return r;
    }
    lambdef(s, nl, false, p)
}

/// A lambda at `p`; its body is a `test_nocond` when `nocond`.
fn lambdef(s: &[char], nl: bool, nocond: bool, p: usize) -> (r: PResult<Expression>)
    requires
        p <= s.len(),
    ensures
        res_expr(r) == spec_lambdef(s@, nl, nocond, p as int),
        ends_after(r, p as int, s@.len() as int),
    decreases s@.len() - p, 39int,
{
    if !tok_at_exec(s, p, Tok::KwLambda) {
        return Err(ParseError::Error);
    }
    let q = run_end_exec(s, blank_exec(nl), p + 6);
    if !char_at_exec(s, q, ':') {
        return Err(ParseError::Error);
    }
    let body = if nocond {
        test_nocond(s, nl, q + 1)
    } else {
        test(s, nl, q + 1)
    };
    match body {
        Ok((r, e)) => Ok((r, lambda_without_params(e))),
        Err(e) => Err(e),
    }
}

/// `or_test ['if' or_test 'else' test]` at `p`.
fn conditional(s: &[char], nl: bool, p: usize) -> (r: PResult<Expression>)
    requires
        p <= s.len(),
    ensures
        res_expr(r) == spec_conditional(s@, nl, p as int),
        ends_after(r, p as int, s@.len() as int),
    decreases s@.len() - p, 39int,
{
    match bop(s, nl, Level::Or, p) {
        Ok((q, left)) => match ternary_tail(s, nl, q) {
            Ok((q2, (c, r))) => Ok(
                (q2, Expression::Ternary(Box::new(left), Box::new(c), Box::new(r))),
            ),
            Err(ParseError::Error) => Ok((q, left)),
            Err(e) => Err(e),
        },
        Err(e) => Err(e),
    }
}

fn ternary_tail(s: &[char], nl: bool, q: usize) -> (r: PResult<(Expression, Expression)>)
    requires
        q <= s.len(),
    ensures
        res_pair(r) == spec_ternary_tail(s@, nl, q as int),
        ends_after(r, q as int, s@.len() as int),
    decreases s@.len() - q, 1int,
{
    let k = blank_exec(nl);
    let q1 = match sep_end_exec(s, k, q) {
        Some(x) => x,
        None => {
            return Err(ParseError::Error);
        },
    };
    if !tok_at_exec(s, q1, Tok::KwIf) {
        return Err(ParseError::Error);
    }
    let q2 = match sep_end_exec(s, k, q1 + 2) {
        Some(x) => x,
        None => {
            return Err(ParseError::Error);
        },
    };
    let (q3, c) = match bop(s, nl, Level::Or, q2) {
        Ok(x) => x,
        Err(e) => {
            return Err(e);
        },
    };
    let q4 = match sep_end_exec(s, k, q3) {
        Some(x) => x,
        None => {
            return Err(ParseError::Error);
        },
    };
    if !tok_at_exec(s, q4, Tok::KwElse) {
        return Err(ParseError::Error);
    }
    let q5 = match sep_end_exec(s, k, q4 + 4) {
        Some(x) => x,
        None => {
            return Err(ParseError::Error);
        },
    };
    match test(s, nl, q5) {
        Ok((q6, r)) => Ok((q6, (c, r))),
        Err(e) => Err(e),
    }
}

/// `test_nocond` at `p`.
pub fn test_nocond(s: &[char], nl: bool, p: usize) -> (r: PResult<Expression>)
    requires
        p <= s.len(),
    ensures
        res_expr(r) == spec_test_nocond(s@, nl, p as int),
        ends_after(r, p as int, s@.len() as int),
    decreases s@.len() - p, 40int,
{
    let r = bop(s, nl, Level::Or, p);
    if !is_soft_error(&r) {
        return r;
    }
    lambdef(s, nl, true, p)
}

/// A chain of operands of level `l` at `p`.
pub fn bop(s: &[char], nl: bool, l: Level, p: usize) -> (r: PResult<Expression>)
    requires
        p <= s.len(),
    ensures
        res_expr(r) == spec_bop(s@, nl, l, p as int),
        ends_after(r, p as int, s@.len() as int),
    decreases s@.len() - p, level_rank(l),
{
    match operand(s, nl, l, p) {
        Ok((q, first)) => bop_rest(s, nl, l, q, first),
        Err(e) => Err(e),
    }
}

fn operand(s: &[char], nl: bool, l: Level, p: usize) -> (r: PResult<Expression>)
    requires
        p <= s.len(),
    ensures
        res_expr(r) == spec_operand(s@, nl, l, p as int),
        ends_after(r, p as int, s@.len() as int),
    decreases s@.len() - p, level_rank(l) - 1,
{
    match l {
        Level::Or => bop(s, nl, Level::And, p),
        Level::And => not_test(s, nl, p),
        Level::Comparison => bop(s, nl, Level::Expr, p),
        Level::Expr => bop(s, nl, Level::Xor, p),
        Level::Xor => bop(s, nl, Level::BitAnd, p),
        Level::BitAnd => bop(s, nl, Level::Shift, p),
        Level::Shift => bop(s, nl, Level::Arith, p),
        Level::Arith => bop(s, nl, Level::Term, p),
        Level::Term => factor(s, nl, p),
    }
}

fn bop_rest(s: &[char], nl: bool, l: Level, q: usize, acc: Expression) -> (r: PResult<
    Expression,
>)
    requires
        q <= s.len(),
    ensures
        res_expr(r) == spec_bop_rest(s@, nl, l, q as int, acc@),
        ends_within(r, q as int, s@.len() as int),
    decreases s@.len() - q, 1int,
{
    let k = blank_exec(nl);
    let q1 = run_end_exec(s, k, q);
    match op_at(s, nl, l, q1) {
        Some((op, q2)) => {
            let q3 = run_end_exec(s, k, q2);
            match operand(s, nl, l, q3) {
                Ok((q4, rhs)) => bop_rest(
                    s,
                    nl,
                    l,
                    q4,
                    Expression::Bop(op, Box::new(acc), Box::new(rhs)),
                ),
                Err(ParseError::Error) => Ok((q, acc)),
                Err(e) => Err(e),
            }
        },
        None => Ok((q, acc)),
    }
}

/// `not_test` at `p`.
pub fn not_test(s: &[char], nl: bool, p: usize) -> (r: PResult<Expression>)
    requires
        p <= s.len(),
    ensures
        res_expr(r) == spec_not_test(s@, nl, p as int),
        ends_after(r, p as int, s@.len() as int),
    decreases s@.len() - p, 26int,
{
    if tok_at_exec(s, p, Tok::NotSp) {
        match bop(s, nl, Level::Comparison, p + 4) {
            Ok((q, e)) => {
                return Ok((q, Expression::Uop(Uop::Not, Box::new(e))));
            },
            Err(ParseError::Error) => {},
            Err(e) => {
                return Err(e);
            },
        }
    }
    bop(s, nl, Level::Comparison, p)
}

/// `star_expr` at `p`.
pub fn star_expr(s: &[char], nl: bool, p: usize) -> (r: PResult<Expression>)
    requires
        p <= s.len(),
    ensures
        res_expr(r) == spec_star_expr(s@, nl, p as int),
        ends_after(r, p as int, s@.len() as int),
    decreases s@.len() - p, 1int,
{
    if char_at_exec(s, p, '*') {
        let q = run_end_exec(s, blank_exec(nl), p + 1);
        match bop(s, nl, Level::Expr, q) {
            Ok((r, e)) => Ok((r, Expression::Star(Box::new(e)))),
            Err(e) => Err(e),
        }
    } else {
        Err(ParseError::Error)
    }
}

fn unary_op_exec(c: char) -> (r: Option<Uop>)
    ensures
        r == unary_op(c),
{
    if c == '+' {
        Some(Uop::Plus)
    } else if c == '-' {
        Some(Uop::Minus)
    } else if c == '~' {
        Some(Uop::Invert)
    } else {
        None
    }
}

/// `factor` at `p`.
pub fn factor(s: &[char], nl: bool, p: usize) -> (r: PResult<Expression>)
    requires
        p <= s.len(),
    ensures
        res_expr(r) == spec_factor(s@, nl, p as int),
        ends_after(r, p as int, s@.len() as int),
    decreases s@.len() - p, 10int,
{
    let k = blank_exec(nl);
    let q0 = run_end_exec(s, k, p);
    if q0 < s.len() {
        match unary_op_exec(s[q0]) {
            Some(op) => {
                let q1 = run_end_exec(s, k, q0 + 1);
                match factor(s, nl, q1) {
                    Ok((q, e)) => {
                        return Ok((q, Expression::Uop(op, Box::new(e))));
                    },
                    Err(ParseError::Error) => {},
                    Err(e) => {
                        return Err(e);
                    },
                }
            },
            None => {},
        }
    }
    power(s, nl, p)
}

/// `power` at `p`.
pub fn power(s: &[char], nl: bool, p: usize) -> (r: PResult<Expression>)
    requires
        p <= s.len(),
    ensures
        res_expr(r) == spec_power(s@, nl, p as int),
        ends_after(r, p as int, s@.len() as int),
    decreases s@.len() - p, 9int,
{
    let (q, lhs) = match atom_expr(s, nl, p) {
        Ok(x) => x,
        Err(e) => {
            return Err(e);
        },
    };
    let k = blank_exec(nl);
    let q1 = run_end_exec(s, k, q);
    if tok_at_exec(s, q1, Tok::DoubleStar) {
        let q2 = run_end_exec(s, k, q1 + 2);
        match factor(s, nl, q2) {
            Ok((q3, rhs)) => Ok((q3, Expression::Bop(Bop::Power, Box::new(lhs), Box::new(rhs)))),
            Err(ParseError::Error) => Ok((q, lhs)),
            Err(e) => Err(e),
        }
    } else {
        Ok((q, lhs))
    }
}

/// `atom_expr` at `p`.
pub fn atom_expr(s: &[char], nl: bool, p: usize) -> (r: PResult<Expression>)
    requires
        p <= s.len(),
    ensures
        res_expr(r) == spec_atom_expr(s@, nl, p as int),
        ends_after(r, p as int, s@.len() as int),
    decreases s@.len() - p, 8int,
{
    match atom(s, nl, p) {
        Ok((q, lhs)) => trailers(s, nl, q, lhs),
        Err(e) => Err(e),
    }
}

fn apply_trailer(acc: Expression, t: Trailer) -> (e: Expression)
    ensures
        e@ == spec_apply_trailer(acc@, model_trailer(t)),
{
    match t {
        Trailer::Call(args) => Expression::Call(Box::new(acc), args),
        Trailer::Subscript(subs) => Expression::Subscript(Box::new(acc), subs),
        Trailer::Attribute(n) => Expression::Attribute(Box::new(acc), n),
    }
}

fn trailers(s: &[char], nl: bool, q: usize, acc: Expression) -> (r: PResult<Expression>)
    requires
        q <= s.len(),
    ensures
        res_expr(r) == spec_trailers(s@, nl, q as int, acc@),
        ends_within(r, q as int, s@.len() as int),
    decreases s@.len() - q, 7int,
{
    match trailer(s, nl, q) {
        Ok((q2, t)) => trailers(s, nl, q2, apply_trailer(acc, t)),
        Err(ParseError::Error) => Ok((q, acc)),
        Err(e) => Err(e),
    }
}

fn trailer(s: &[char], nl: bool, q: usize) -> (r: PResult<Trailer>)
    requires
        q <= s.len(),
    ensures
        res_trailer(r) == spec_trailer(s@, nl, q as int),
        ends_after(r, q as int, s@.len() as int),
    decreases s@.len() - q, 6int,
{
    if char_at_exec(s, q, '(') {
        let q1 = run_end_exec(s, CharClass::AnyWs, q + 1);
        match arglist(s, true, q1) {
            Ok((q2, args)) => {
                let q3 = run_end_exec(s, CharClass::AnyWs, q2);
                if char_at_exec(s, q3, ')') {
                    Ok((q3 + 1, Trailer::Call(args)))
                } else {
                    Err(ParseError::Error)
                }
            },
            Err(e) => Err(e),
        }
    } else if char_at_exec(s, q, '[') {
        let q1 = run_end_exec(s, CharClass::AnyWs, q + 1);
        match subscripts(s, true, q1) {
            Ok((q2, subs)) => {
                let q3 = run_end_exec(s, CharClass::AnyWs, q2);
                if char_at_exec(s, q3, ']') {
                    Ok((q3 + 1, Trailer::Subscript(subs)))
                } else {
                    Err(ParseError::Error)
                }
            },
            Err(e) => Err(e),
        }
    } else {
        let k = blank_exec(nl);
        let q1 = run_end_exec(s, k, q);
        if char_at_exec(s, q1, '.') {
            let q2 = run_end_exec(s, k, q1 + 1);
            match name(s, q2) {
                Some((q3, n)) => Ok((q3, Trailer::Attribute(n))),
                None => Err(ParseError::Error),
            }
        } else {
            Err(ParseError::Error)
        }
    }
}

/// A subscript list at `p`.
pub fn subscripts(s: &[char], nl: bool, p: usize) -> (r: PResult<Vec<Subscript>>)
    requires
        p <= s.len(),
    ensures
        res_subscripts(r) == spec_subscripts(s@, nl, p as int),
        ends_within(r, p as int, s@.len() as int),
    decreases s@.len() - p, 42int,
{
    match subscript(s, nl, p) {
        Ok((q, x)) => {
            let acc: Vec<Subscript> = Vec::new();
            let mut acc = acc;
            proof {
                crate::ast::lemma_model_subscripts_push(acc@, x);
                assert(model_subscripts(acc@) =~= Seq::<SpecSubscript>::empty());
            }
            acc.push(x);
            subscripts_rest(s, nl, q, acc)
        },
        Err(ParseError::Error) => {
            let v: Vec<Subscript> = Vec::new();
            proof {
                assert(model_subscripts(v@) =~= Seq::<SpecSubscript>::empty());
            }
            Ok((p, v))
        },
        Err(e) => Err(e),
    }
}

fn subscripts_rest(s: &[char], nl: bool, q: usize, acc: Vec<Subscript>) -> (r: PResult<Vec<Subscript>>)
    requires
        q <= s.len(),
    ensures
        res_subscripts(r) == spec_subscripts_rest(s@, nl, q as int, model_subscripts(acc@)),
        ends_within(r, q as int, s@.len() as int),
    decreases s@.len() - q, 1int,
{
    match comma_after_exec(s, Some(CharClass::AnyWs), q) {
        Some(j) => match subscript(s, nl, j) {
            Ok((r, x)) => {
                let mut acc = acc;
                proof {
                    crate::ast::lemma_model_subscripts_push(acc@, x);
                }
                acc.push(x);
                subscripts_rest(s, nl, r, acc)
            },
            Err(ParseError::Error) => Ok((q, acc)),
            Err(e) => Err(e),
        },
        None => Ok((q, acc)),
    }
}

fn slice_of_exec(
    first: Option<Expression>,
    second: Option<Expression>,
    third: Option<Option<Expression>>,
) -> (r: Subscript)
    ensures
        r@ == slice_of(model_opt(first), model_opt(second), model_step(third)),
{
    match third {
        None => Subscript::Double(first, second),
        Some(t) => Subscript::Triple(first, second, t),
    }
}

/// `subscript` at `p`.
pub fn subscript(s: &[char], nl: bool, p: usize) -> (r: PResult<Subscript>)
    requires
        p <= s.len(),
    ensures
        res_subscript(r) == spec_subscript(s@, nl, p as int),
        ends_after(r, p as int, s@.len() as int),
    decreases s@.len() - p, 41int,
{
    if char_at_exec(s, p, ':') {
        match subscript_tail(s, nl, p + 1) {
            Ok((q, (b, c))) => Ok((q, slice_of_exec(None, b, c))),
            Err(e) => Err(e),
        }
    } else {
        match test(s, nl, p) {
            Ok((q, a)) => if char_at_exec(s, q, ':') {
                match subscript_tail(s, nl, q + 1) {
                    Ok((r, (b, c))) => Ok((r, slice_of_exec(Some(a), b, c))),
                    Err(ParseError::Error) => Ok((q, Subscript::Simple(a))),
                    Err(e) => Err(e),
                }
            } else {
                Ok((q, Subscript::Simple(a)))
            },
            Err(e) => Err(e),
        }
    }
}

fn subscript_tail(s: &[char], nl: bool, p: usize) -> (r: PResult<
    (Option<Expression>, Option<Option<Expression>>),
>)
    requires
        p <= s.len(),
    ensures
        res_tail(r) == spec_subscript_tail(s@, nl, p as int),
        ends_within(r, p as int, s@.len() as int),
    decreases s@.len() - p, 41int,
{
    match test(s, nl, p) {
        Ok((q, b)) => match subscript_step(s, nl, q) {
            Ok((r, c)) => Ok((r, (Some(b), c))),
            Err(e) => Err(e),
        },
        Err(ParseError::Error) => match subscript_step(s, nl, p) {
            Ok((r, c)) => Ok((r, (None, c))),
            Err(e) => Err(e),
        },
        Err(e) => Err(e),
    }
}

fn subscript_step(s: &[char], nl: bool, q: usize) -> (r: PResult<Option<Option<Expression>>>)
    requires
        q <= s.len(),
    ensures
        res_step(r) == spec_subscript_step(s@, nl, q as int),
        ends_within(r, q as int, s@.len() as int),
    decreases s@.len() - q, 1int,
{
    if char_at_exec(s, q, ':') {
        match test(s, nl, q + 1) {
            Ok((r, c)) => Ok((r, Some(Some(c)))),
            Err(ParseError::Error) => Ok((q + 1, Some(None))),
            Err(e) => Err(e),
        }
    } else {
        Ok((q, None))
    }
}

/// `atom` at `p`.
pub fn atom(s: &[char], nl: bool, p: usize) -> (r: PResult<Expression>)
    requires
        p <= s.len(),
    ensures
        res_expr(r) == spec_atom(s@, nl, p as int),
        ends_after(r, p as int, s@.len() as int),
    decreases s@.len() - p, 5int,
{
    let r = atom_word(s, nl, p);
    if !is_soft_error(&r) {
        return r;
    }
    let r = atom_braces(s, nl, p);
    if !is_soft_error(&r) {
        return r;
    }
    let r = atom_parens(s, nl, p);
    if !is_soft_error(&r) {
        return r;
    }
    let r = atom_brackets(s, nl, p);
    if !is_soft_error(&r) {
        return r;
    }
    atom_number(s, nl, p)
}

fn atom_word(s: &[char], nl: bool, p: usize) -> (r: PResult<Expression>)
    requires
        p <= s.len(),
    ensures
        res_expr(r) == spec_atom_word(s@, nl, p as int),
        ends_after(r, p as int, s@.len() as int),
{
    if tok_at_exec(s, p, Tok::Ellipsis) {
        return Ok((p + 3, Expression::Ellipsis));
    }
    if tok_at_exec(s, p, Tok::KwNone) {
        return Ok((p + 4, Expression::NoneConst));
    }
    if tok_at_exec(s, p, Tok::KwTrue) {
        return Ok((p + 4, Expression::True));
    }
    if tok_at_exec(s, p, Tok::KwFalse) {
        return Ok((p + 5, Expression::False));
    }
    match name(s, p) {
        Some((q, n)) => {
            return Ok((q, Expression::Name(n)));
        },
        None => {},
    }
    match strings(s, nl, '"', p) {
        Some((q, w)) => {
            return Ok((q, Expression::String(w)));
        },
        None => {},
    }
    match strings(s, nl, '\'', p) {
        Some((q, w)) => Ok((q, Expression::String(w))),
        None => Err(ParseError::Error),
    }
}

fn atom_braces(s: &[char], nl: bool, p: usize) -> (r: PResult<Expression>)
    requires
        p <= s.len(),
    ensures
        res_expr(r) == spec_atom_braces(s@, nl, p as int),
        ends_after(r, p as int, s@.len() as int),
    decreases s@.len() - p, 4int,
{
    let k = blank_exec(nl);
    let q0 = run_end_exec(s, k, p);
    if !char_at_exec(s, q0, '{') {
        return Err(ParseError::Error);
    }
    let q1 = run_end_exec(s, k, q0 + 1);
    if char_at_exec(s, q1, '}') {
        let v: Vec<DictItem> = Vec::new();
        proof {
            assert(model_dict_items(v@) =~= Seq::<SpecDictItem>::empty());
        }
        return Ok((run_end_exec(s, k, q1 + 1), Expression::DictLiteral(v)));
    }
    let q2 = run_end_exec(s, CharClass::AnyWs, q1);
    match dictorsetmaker(s, q2) {
        Ok((q3, e)) => {
            let q4 = run_end_exec(s, k, run_end_exec(s, CharClass::AnyWs, q3));
            if char_at_exec(s, q4, '}') {
                Ok((run_end_exec(s, k, q4 + 1), e))
            } else {
                Err(ParseError::Error)
            }
        },
        Err(e) => Err(e),
    }
}

fn paren_form_exec(e: Expression) -> (r: Expression)
    ensures
        r@ == paren_form(e@),
{
    match e {
        Expression::ListComp(i, c) => Expression::Generator(i, c),
        Expression::ListLiteral(v) => Expression::TupleLiteral(v),
        other => other,
    }
}

fn atom_parens(s: &[char], nl: bool, p: usize) -> (r: PResult<Expression>)
    requires
        p <= s.len(),
    ensures
        res_expr(r) == spec_atom_parens(s@, nl, p as int),
        ends_after(r, p as int, s@.len() as int),
    decreases s@.len() - p, 4int,
{
    let k = blank_exec(nl);
    let q0 = run_end_exec(s, k, p);
    if !char_at_exec(s, q0, '(') {
        return Err(ParseError::Error);
    }
    let q2 = run_end_exec(s, CharClass::AnyWs, run_end_exec(s, k, q0 + 1));
    let r1 = match testlist_comp(s, true, q2) {
        Ok((q3, e)) => {
            let q4 = run_end_exec(s, k, run_end_exec(s, CharClass::AnyWs, q3));
            if char_at_exec(s, q4, ')') {
                Ok((run_end_exec(s, k, q4 + 1), paren_form_exec(e)))
            } else {
                Err(ParseError::Error)
            }
        },
        Err(e) => Err(e),
    };
    if !is_soft_error(&r1) {
        return r1;
    }
    match yield_expr(s, true, q2) {
        Ok((q3, e)) => {
            let q4 = run_end_exec(s, k, run_end_exec(s, CharClass::AnyWs, q3));
            if char_at_exec(s, q4, ')') {
                Ok((run_end_exec(s, k, q4 + 1), e))
            } else {
                Err(ParseError::Error)
            }
        },
        Err(e) => Err(e),
    }
}

fn atom_brackets(s: &[char], nl: bool, p: usize) -> (r: PResult<Expression>)
    requires
        p <= s.len(),
    ensures
        res_expr(r) == spec_atom_brackets(s@, nl, p as int),
        ends_after(r, p as int, s@.len() as int),
    decreases s@.len() - p, 4int,
{
    let k = blank_exec(nl);
    let q0 = run_end_exec(s, k, p);
    if !char_at_exec(s, q0, '[') {
        return Err(ParseError::Error);
    }
    let q2 = run_end_exec(s, CharClass::AnyWs, run_end_exec(s, k, q0 + 1));
    match testlist_comp(s, true, q2) {
        Ok((q3, e)) => {
            let q4 = run_end_exec(s, k, run_end_exec(s, CharClass::AnyWs, q3));
            if char_at_exec(s, q4, ']') {
                Ok((run_end_exec(s, k, q4 + 1), e))
            } else {
                Err(ParseError::Error)
            }
        },
        Err(e) => Err(e),
    }
}

fn atom_number(s: &[char], nl: bool, p: usize) -> (r: PResult<Expression>)
    requires
        p <= s.len(),
    ensures
        res_expr(r) == spec_atom_number(s@, nl, p as int),
        ends_after(r, p as int, s@.len() as int),
{
    let k = blank_exec(nl);
    let q0 = run_end_exec(s, k, p);
    match number(s, q0) {
        Ok((q1, v)) => Ok((run_end_exec(s, k, q1), Expression::Int(v))),
        Err(e) => Err(e),
    }
}

fn test_or_star(s: &[char], nl: bool, p: usize) -> (r: PResult<SetItem>)
    requires
        p <= s.len(),
    ensures
        res_set_item(r) == spec_test_or_star(s@, nl, p as int),
        ends_after(r, p as int, s@.len() as int),
    decreases s@.len() - p, 41int,
{
    match test(s, nl, p) {
        Ok((q, e)) => Ok((q, SetItem::Unique(e))),
        Err(ParseError::Error) => match star_expr(s, nl, p) {
            Ok((q, e)) => Ok((q, SetItem::Star(e))),
            Err(e) => Err(e),
        },
        Err(e) => Err(e),
    }
}

/// `testlist_comp` at `p`.
pub fn testlist_comp(s: &[char], nl: bool, p: usize) -> (r: PResult<Expression>)
    requires
        p <= s.len(),
    ensures
        res_expr(r) == spec_testlist_comp(s@, nl, p as int),
        ends_after(r, p as int, s@.len() as int),
    decreases s@.len() - p, 42int,
{
    match test_or_star(s, nl, p) {
        Ok((q, first)) => tlc_after(s, nl, q, first),
        Err(e) => Err(e),
    }
}

#[verifier::rlimit(100)]
fn tlc_after(s: &[char], nl: bool, q: usize, first: SetItem) -> (r: PResult<Expression>)
    requires
        q <= s.len(),
    ensures
        res_expr(r) == spec_tlc_after(s@, nl, q as int, first@),
        ends_after(r, q as int, s@.len() as int),
    decreases s@.len() - q, 2int,
{
    let k = blank_exec(nl);
    match sep_end_exec(s, k, q) {
        Some(q1) => match comp_for(s, nl, q1) {
            Ok((r, c)) => {
                return Ok((r, Expression::ListComp(Box::new(first), c)));
            },
            Err(ParseError::Error) => {},
            Err(e) => {
                return Err(e);
            },
        },
        None => {},
    }
    match comma_after_exec(s, Some(k), q) {
        Some(q2) => match tlc_items(s, nl, q2) {
            Ok((r, v)) => Ok((r, Expression::ListLiteral(prepend_set_item(first, v)))),
            Err(e) => Err(e),
        },
        None => Err(ParseError::Error),
    }
}

fn tlc_items(s: &[char], nl: bool, p: usize) -> (r: PResult<Vec<SetItem>>)
    requires
        p <= s.len(),
    ensures
        res_set_items(r) == spec_tlc_items(s@, nl, p as int),
        ends_within(r, p as int, s@.len() as int),
    decreases s@.len() - p, 42int,
{
    match test_or_star(s, nl, p) {
        Ok((q, x)) => {
            let mut acc: Vec<SetItem> = Vec::new();
            proof {
                crate::ast::lemma_model_set_items_push(acc@, x);
                assert(model_set_items(acc@) =~= Seq::<SpecSetItem>::empty());
            }
            acc.push(x);
            tlc_rest(s, nl, q, acc)
        },
        Err(ParseError::Error) => {
            let v: Vec<SetItem> = Vec::new();
            proof {
                assert(model_set_items(v@) =~= Seq::<SpecSetItem>::empty());
            }
            Ok((p, v))
        },
        Err(e) => Err(e),
    }
}

fn tlc_rest(s: &[char], nl: bool, q: usize, acc: Vec<SetItem>) -> (r: PResult<Vec<SetItem>>)
    requires
        q <= s.len(),
    ensures
        res_set_items(r) == spec_tlc_rest(s@, nl, q as int, model_set_items(acc@)),
        ends_within(r, q as int, s@.len() as int),
    decreases s@.len() - q, 1int,
{
    match comma_after_exec(s, Some(blank_exec(nl)), q) {
        Some(j) => match test_or_star(s, nl, j) {
            Ok((r, x)) => {
                let mut acc = acc;
                proof {
                    crate::ast::lemma_model_set_items_push(acc@, x);
                }
                acc.push(x);
                tlc_rest(s, nl, r, acc)
            },
            Err(ParseError::Error) => Ok((q, acc)),
            Err(e) => Err(e),
        },
        None => Ok((q, acc)),
    }
}

fn elist_item(s: &[char], nl: bool, star: bool, p: usize) -> (r: PResult<Expression>)
    requires
        p <= s.len(),
    ensures
        res_expr(r) == spec_elist_item(s@, nl, star, p as int),
        ends_after(r, p as int, s@.len() as int),
    decreases s@.len() - p, 41int,
{
    if star {
        let r = bop(s, nl, Level::Expr, p);
        if !is_soft_error(&r) {
            return r;
        }
        star_expr(s, nl, p)
    } else {
        test(s, nl, p)
    }
}

fn elist_rest(s: &[char], nl: bool, star: bool, q: usize, acc: Vec<Expression>) -> (r: PResult<
    Vec<Expression>,
>)
    requires
        q <= s.len(),
    ensures
        res_exprs(r) == spec_elist_rest(s@, nl, star, q as int, model_exprs(acc@)),
        ends_within(r, q as int, s@.len() as int),
    decreases s@.len() - q, 1int,
{
    match comma_after_exec(s, Some(blank_exec(nl)), q) {
        Some(j) => match elist_item(s, nl, star, j) {
            Ok((r, x)) => {
                let mut acc = acc;
                proof {
                    crate::ast::lemma_model_exprs_push(acc@, x);
                }
                acc.push(x);
                elist_rest(s, nl, star, r, acc)
            },
            Err(ParseError::Error) => Ok((q, acc)),
            Err(e) => Err(e),
        },
        None => Ok((q, acc)),
    }
}

pub fn elist(s: &[char], nl: bool, star: bool, p: usize) -> (r: PResult<Vec<Expression>>)
    requires
        p <= s.len(),
    ensures
        res_exprs(r) == spec_elist(s@, nl, star, p as int),
        ends_after(r, p as int, s@.len() as int),
    decreases s@.len() - p, 42int,
{
    match elist_item(s, nl, star, p) {
        Ok((q, x)) => elist_rest(s, nl, star, q, single_expr(x)),
        Err(e) => Err(e),
    }
}

/// `exprlist` at `p`.
pub fn exprlist(s: &[char], nl: bool, p: usize) -> (r: PResult<Vec<Expression>>)
    requires
        p <= s.len(),
    ensures
        res_exprs(r) == spec_exprlist(s@, nl, p as int),
        ends_after(r, p as int, s@.len() as int),
{
    elist(s, nl, true, p)
}

/// `testlist` at `p`.
pub fn testlist(s: &[char], nl: bool, p: usize) -> (r: PResult<Vec<Expression>>)
    requires
        p <= s.len(),
    ensures
        res_exprs(r) == spec_testlist(s@, nl, p as int),
        ends_after(r, p as int, s@.len() as int),
{
    elist(s, nl, false, p)
}

/// `[testlist]` at `p`.
pub fn possibly_empty_testlist(s: &[char], nl: bool, p: usize) -> (r: PResult<Vec<Expression>>)
    requires
        p <= s.len(),
    ensures
        res_exprs(r) == spec_possibly_empty_testlist(s@, nl, p as int),
        ends_within(r, p as int, s@.len() as int),
{
    let r = elist(s, nl, false, p);
    if is_soft_error(&r) {
        let v: Vec<Expression> = Vec::new();
        proof {
            assert(model_exprs(v@) =~= Seq::<SpecExpression>::empty());
        }
        Ok((p, v))
    } else {
        r
    }
}

/// `dictorsetmaker` at `p`.
pub fn dictorsetmaker(s: &[char], p: usize) -> (r: PResult<Expression>)
    requires
        p <= s.len(),
    ensures
        res_expr(r) == spec_dictorsetmaker(s@, p as int),
        ends_after(r, p as int, s@.len() as int),
    decreases s@.len() - p, 43int,
{
    let w = CharClass::AnyWs;
    let q0 = run_end_exec(s, w, p);
    if tok_at_exec(s, q0, Tok::DoubleStar) {
        let q1 = run_end_exec(s, w, q0 + 2);
        match bop(s, true, Level::Expr, q1) {
            Ok((q2, e)) => {
                let q3 = run_end_exec(s, w, q2);
                return match dictmaker(s, q3, DictItem::Star(e)) {
                    Ok((q4, r)) => Ok((run_end_exec(s, w, q4), r)),
                    Err(e) => Err(e),
                };
            },
            Err(ParseError::Error) => {},
            Err(e) => {
                return Err(e);
            },
        }
    }
    if char_at_exec(s, q0, '*') {
        let q1 = run_end_exec(s, w, q0 + 1);
        match bop(s, true, Level::Expr, q1) {
            Ok((q2, e)) => {
                let q3 = run_end_exec(s, w, q2);
                return match setmaker(s, q3, SetItem::Star(e)) {
                    Ok((q4, r)) => Ok((run_end_exec(s, w, q4), r)),
                    Err(e) => Err(e),
                };
            },
            Err(ParseError::Error) => {},
            Err(e) => {
                return Err(e);
            },
        }
    }
    let (q1, k) = match test(s, true, q0) {
        Ok(x) => x,
        Err(e) => {
            return Err(e);
        },
    };
    let q2 = run_end_exec(s, w, q1);
    if char_at_exec(s, q2, ':') {
        let q3 = run_end_exec(s, w, q2 + 1);
        match test(s, true, q3) {
            Ok((q4, v)) => {
                let q5 = run_end_exec(s, w, q4);
                return match dictmaker(s, q5, DictItem::Unique(k, v)) {
                    Ok((q6, r)) => Ok((run_end_exec(s, w, q6), r)),
                    Err(e) => Err(e),
                };
            },
            Err(ParseError::Error) => {},
            Err(e) => {
                return Err(e);
            },
        }
    }
    match setmaker(s, q2, SetItem::Unique(k)) {
        Ok((q6, r)) => Ok((run_end_exec(s, w, q6), r)),
        Err(e) => Err(e),
    }
}

fn comp_ahead_exec(s: &[char], q: usize) -> (b: bool)
    requires
        q <= s.len(),
    ensures
        b == comp_ahead(s@, q as int),
{
    tok_at_exec(s, q, Tok::KwFor) && sep_end_exec(s, CharClass::Blank, q + 3).is_some()
}

#[verifier::rlimit(50)]
fn dictmaker(s: &[char], q: usize, first: DictItem) -> (r: PResult<Expression>)
    requires
        q <= s.len(),
    ensures
        res_expr(r) == spec_dictmaker(s@, q as int, first@),
        ends_within(r, q as int, s@.len() as int),
        no_soft_error(r),
    decreases s@.len() - q, 3int,
{
    if char_at_exec(s, q, ',') {
        match dictitems(s, q + 1) {
            Ok((r, v)) => Ok((r, Expression::DictLiteral(prepend_dict_item(first, v)))),
            Err(e) => Err(e),
        }
    } else if comp_ahead_exec(s, q) {
        match comp_for(s, true, q) {
            Ok((r, c)) => Ok((r, Expression::DictComp(Box::new(first), c))),
            Err(ParseError::Error) => Ok(
                (q, Expression::DictLiteral(prepend_dict_item(first, Vec::new()))),
            ),
            Err(e) => Err(e),
        }
    } else {
        Ok((q, Expression::DictLiteral(prepend_dict_item(first, Vec::new()))))
    }
}

#[verifier::rlimit(50)]
fn setmaker(s: &[char], q: usize, first: SetItem) -> (r: PResult<Expression>)
    requires
        q <= s.len(),
    ensures
        res_expr(r) == spec_setmaker(s@, q as int, first@),
        ends_within(r, q as int, s@.len() as int),
        no_soft_error(r),
    decreases s@.len() - q, 3int,
{
    if char_at_exec(s, q, ',') {
        match setitems(s, q + 1) {
            Ok((r, v)) => Ok((r, Expression::SetLiteral(prepend_set_item(first, v)))),
            Err(e) => Err(e),
        }
    } else if comp_ahead_exec(s, q) {
        match comp_for(s, true, q) {
            Ok((r, c)) => Ok((r, Expression::SetComp(Box::new(first), c))),
            Err(ParseError::Error) => Ok(
                (q, Expression::SetLiteral(prepend_set_item(first, Vec::new()))),
            ),
            Err(e) => Err(e),
        }
    } else {
        Ok((q, Expression::SetLiteral(prepend_set_item(first, Vec::new()))))
    }
}

fn dictitems(s: &[char], p: usize) -> (r: PResult<Vec<DictItem>>)
    requires
        p <= s.len(),
    ensures
        res_dict_items(r) == spec_dictitems(s@, p as int),
        ends_within(r, p as int, s@.len() as int),
        no_soft_error(r),
    decreases s@.len() - p, 42int,
{
    match dictitem(s, p) {
        Ok((q, x)) => {
            let mut acc: Vec<DictItem> = Vec::new();
            proof {
                crate::ast::lemma_model_dict_items_push(acc@, x);
                assert(model_dict_items(acc@) =~= Seq::<SpecDictItem>::empty());
            }
            acc.push(x);
            dictitems_rest(s, q, acc)
        },
        Err(ParseError::Error) => {
            let v: Vec<DictItem> = Vec::new();
            proof {
                assert(model_dict_items(v@) =~= Seq::<SpecDictItem>::empty());
            }
            Ok((p, v))
        },
        Err(e) => Err(e),
    }
}

fn dictitems_rest(s: &[char], q: usize, acc: Vec<DictItem>) -> (r: PResult<Vec<DictItem>>)
    requires
        q <= s.len(),
    ensures
        res_dict_items(r) == spec_dictitems_rest(s@, q as int, model_dict_items(acc@)),
        ends_within(r, q as int, s@.len() as int),
        no_soft_error(r),
    decreases s@.len() - q, 1int,
{
    if char_at_exec(s, q, ',') {
        match dictitem(s, q + 1) {
            Ok((r, x)) => {
                let mut acc = acc;
                proof {
                    crate::ast::lemma_model_dict_items_push(acc@, x);
                }
                acc.push(x);
                dictitems_rest(s, r, acc)
            },
            Err(ParseError::Error) => Ok((q, acc)),
            Err(e) => Err(e),
        }
    } else {
        Ok((q, acc))
    }
}

fn setitems(s: &[char], p: usize) -> (r: PResult<Vec<SetItem>>)
    requires
        p <= s.len(),
    ensures
        res_set_items(r) == spec_setitems(s@, p as int),
        ends_within(r, p as int, s@.len() as int),
        no_soft_error(r),
    decreases s@.len() - p, 42int,
{
    match setitem(s, p) {
        Ok((q, x)) => {
            let mut acc: Vec<SetItem> = Vec::new();
            proof {
                crate::ast::lemma_model_set_items_push(acc@, x);
                assert(model_set_items(acc@) =~= Seq::<SpecSetItem>::empty());
            }
            acc.push(x);
            setitems_rest(s, q, acc)
        },
        Err(ParseError::Error) => {
            let v: Vec<SetItem> = Vec::new();
            proof {
                assert(model_set_items(v@) =~= Seq::<SpecSetItem>::empty());
            }
            Ok((p, v))
        },
        Err(e) => Err(e),
    }
}

fn setitems_rest(s: &[char], q: usize, acc: Vec<SetItem>) -> (r: PResult<Vec<SetItem>>)
    requires
        q <= s.len(),
    ensures
        res_set_items(r) == spec_setitems_rest(s@, q as int, model_set_items(acc@)),
        ends_within(r, q as int, s@.len() as int),
        no_soft_error(r),
    decreases s@.len() - q, 1int,
{
    if char_at_exec(s, q, ',') {
        match setitem(s, q + 1) {
            Ok((r, x)) => {
                let mut acc = acc;
                proof {
                    crate::ast::lemma_model_set_items_push(acc@, x);
                }
                acc.push(x);
                setitems_rest(s, r, acc)
            },
            Err(ParseError::Error) => Ok((q, acc)),
            Err(e) => Err(e),
        }
    } else {
        Ok((q, acc))
    }
}

fn dictitem(s: &[char], p: usize) -> (r: PResult<DictItem>)
    requires
        p <= s.len(),
    ensures
        res_dict_item(r) == spec_dictitem(s@, p as int),
        ends_after(r, p as int, s@.len() as int),
    decreases s@.len() - p, 41int,
{
    let w = CharClass::AnyWs;
    let q0 = run_end_exec(s, w, p);
    if tok_at_exec(s, q0, Tok::DoubleStar) {
        let q1 = run_end_exec(s, w, q0 + 2);
        match bop(s, true, Level::Expr, q1) {
            Ok((q2, e)) => {
                return Ok((run_end_exec(s, w, q2), DictItem::Star(e)));
            },
            Err(ParseError::Error) => {},
            Err(e) => {
                return Err(e);
            },
        }
    }
    match test(s, true, q0) {
        Ok((q1, k)) => {
            let q2 = run_end_exec(s, w, q1);
            if char_at_exec(s, q2, ':') {
                let q3 = run_end_exec(s, w, q2 + 1);
                match test(s, true, q3) {
                    Ok((q4, v)) => Ok((run_end_exec(s, w, q4), DictItem::Unique(k, v))),
                    Err(e) => Err(e),
                }
            } else {
                Err(ParseError::Error)
            }
        },
        Err(e) => Err(e),
    }
}

fn setitem(s: &[char], p: usize) -> (r: PResult<SetItem>)
    requires
        p <= s.len(),
    ensures
        res_set_item(r) == spec_setitem(s@, p as int),
        ends_after(r, p as int, s@.len() as int),
    decreases s@.len() - p, 41int,
{
    let w = CharClass::AnyWs;
    let q0 = run_end_exec(s, w, p);
    if char_at_exec(s, q0, '*') {
        let q1 = run_end_exec(s, w, q0 + 1);
        match bop(s, true, Level::Expr, q1) {
            Ok((q2, e)) => {
                return Ok((run_end_exec(s, w, q2), SetItem::Star(e)));
            },
            Err(ParseError::Error) => {},
            Err(e) => {
                return Err(e);
            },
        }
    }
    match test(s, true, q0) {
        Ok((q1, e)) => Ok((run_end_exec(s, w, q1), SetItem::Unique(e))),
        Err(e) => Err(e),
    }
}

/// `arglist` at `p`.
pub fn arglist(s: &[char], nl: bool, p: usize) -> (r: PResult<Arglist>)
    requires
        p <= s.len(),
    ensures
        res_arglist(r) == spec_arglist(s@, nl, p as int),
        ends_within(r, p as int, s@.len() as int),
    decreases s@.len() - p, 44int,
{
    match args(s, nl, p) {
        Ok((q, raw)) => build_arglist(q, raw),
        Err(e) => Err(e),
    }
}

fn args(s: &[char], nl: bool, p: usize) -> (r: PResult<Vec<RawArgument>>)
    requires
        p <= s.len(),
    ensures
        res_raw_args(r) == spec_args(s@, nl, p as int),
        ends_within(r, p as int, s@.len() as int),
    decreases s@.len() - p, 43int,
{
    match argument(s, nl, p) {
        Ok((q, x)) => {
            let mut acc: Vec<RawArgument> = Vec::new();
            proof {
                lemma_raw_args_push(acc@, x);
                assert(model_raw_args(acc@) =~= Seq::<SpecRawArgument>::empty());
            }
            acc.push(x);
            args_rest(s, nl, q, acc)
        },
        Err(ParseError::Error) => {
            let v: Vec<RawArgument> = Vec::new();
            proof {
                assert(model_raw_args(v@) =~= Seq::<SpecRawArgument>::empty());
            }
            Ok((p, v))
        },
        Err(e) => Err(e),
    }
}

fn args_rest(s: &[char], nl: bool, q: usize, acc: Vec<RawArgument>) -> (r: PResult<Vec<RawArgument>>)
    requires
        q <= s.len(),
    ensures
        res_raw_args(r) == spec_args_rest(s@, nl, q as int, model_raw_args(acc@)),
        ends_within(r, q as int, s@.len() as int),
    decreases s@.len() - q, 1int,
{
    match comma_after_exec(s, Some(CharClass::AnyWs), q) {
        Some(j) => match argument(s, nl, j) {
            Ok((r, x)) => {
                let mut acc = acc;
                proof {
                    lemma_raw_args_push(acc@, x);
                }
                acc.push(x);
                args_rest(s, nl, r, acc)
            },
            Err(ParseError::Error) => Ok((q, acc)),
            Err(e) => Err(e),
        },
        None => Ok((q, acc)),
    }
}

fn argument(s: &[char], nl: bool, p: usize) -> (r: PResult<RawArgument>)
    requires
        p <= s.len(),
    ensures
        res_raw_arg(r) == spec_argument(s@, nl, p as int),
        ends_after(r, p as int, s@.len() as int),
    decreases s@.len() - p, 42int,
{
    let r = kwargs_argument(s, nl, p);
    if !is_soft_error(&r) {
        return r;
    }
    let r = star_argument(s, nl, p);
    if !is_soft_error(&r) {
        return r;
    }
    plain_argument(s, nl, p)
}

fn kwargs_argument(s: &[char], nl: bool, p: usize) -> (r: PResult<RawArgument>)
    requires
        p <= s.len(),
    ensures
        res_raw_arg(r) == spec_kwargs_argument(s@, nl, p as int),
        ends_after(r, p as int, s@.len() as int),
    decreases s@.len() - p, 1int,
{
    if tok_at_exec(s, p, Tok::DoubleStar) {
        match test(s, nl, p + 2) {
            Ok((q, e)) => Ok((q, RawArgument::Kwargs(e))),
            Err(e) => Err(e),
        }
    } else {
        Err(ParseError::Error)
    }
}

fn star_argument(s: &[char], nl: bool, p: usize) -> (r: PResult<RawArgument>)
    requires
        p <= s.len(),
    ensures
        res_raw_arg(r) == spec_star_argument(s@, nl, p as int),
        ends_after(r, p as int, s@.len() as int),
    decreases s@.len() - p, 1int,
{
    if char_at_exec(s, p, '*') {
        match test(s, nl, p + 1) {
            Ok((q, e)) => Ok((q, RawArgument::Starargs(e))),
            Err(e) => Err(e),
        }
    } else {
        Err(ParseError::Error)
    }
}

fn plain_argument(s: &[char], nl: bool, p: usize) -> (r: PResult<RawArgument>)
    requires
        p <= s.len(),
    ensures
        res_raw_arg(r) == spec_plain_argument(s@, nl, p as int),
        ends_after(r, p as int, s@.len() as int),
    decreases s@.len() - p, 41int,
{
    match test(s, nl, p) {
        Ok((q, t1)) => argument_after(s, nl, q, t1),
        Err(e) => Err(e),
    }
}

fn argument_after(s: &[char], nl: bool, q: usize, t1: Expression) -> (r: PResult<RawArgument>)
    requires
        q <= s.len(),
    ensures
        res_raw_arg(r) == spec_argument_after(s@, nl, q as int, t1@),
        ends_within(r, q as int, s@.len() as int),
    decreases s@.len() - q, 3int,
{
    match keyword_value(s, nl, q) {
        Ok((r, t2)) => Ok((r, RawArgument::Keyword(t1, t2))),
        Err(ParseError::Error) => generator_argument(s, nl, q, t1),
        Err(e) => Err(e),
    }
}

fn generator_argument(s: &[char], nl: bool, q: usize, t1: Expression) -> (r: PResult<RawArgument>)
    requires
        q <= s.len(),
    ensures
        res_raw_arg(r) == spec_generator_argument(s@, nl, q as int, t1@),
        ends_within(r, q as int, s@.len() as int),
    decreases s@.len() - q, 2int,
{
    match comp_for(s, nl, q) {
        Ok((r, c)) => {
            Ok((r, RawArgument::Positional(unique_generator(t1, c))))
        },
        Err(ParseError::Error) => Ok((q, RawArgument::Positional(t1))),
        Err(e) => Err(e),
    }
}

fn keyword_value(s: &[char], nl: bool, q: usize) -> (r: PResult<Expression>)
    requires
        q <= s.len(),
    ensures
        res_expr(r) == spec_keyword_value(s@, nl, q as int),
        ends_after(r, q as int, s@.len() as int),
    decreases s@.len() - q, 1int,
{
    if char_at_exec(s, q, '=') {
        test(s, nl, q + 1)
    } else {
        Err(ParseError::Error)
    }
}

/// `comp_for` at `p`: this clause and those that follow it.
pub fn comp_for(s: &[char], nl: bool, p: usize) -> (r: PResult<Vec<ComprehensionChunk>>)
    requires
        p <= s.len(),
    ensures
        res_chunks(r) == spec_comp_for(s@, nl, p as int),
        ends_after(r, p as int, s@.len() as int),
    decreases s@.len() - p, 1int,
{
    let k = blank_exec(nl);
    let mut is_async = false;
    let mut q0 = p;
    if tok_at_exec(s, p, Tok::KwAsync) {
        match sep_end_exec(s, k, p + 5) {
            Some(q) => {
                is_async = true;
                q0 = q;
            },
            None => {},
        }
    }
    if !tok_at_exec(s, q0, Tok::KwFor) {
        return Err(ParseError::Error);
    }
    let q1 = match sep_end_exec(s, k, q0 + 3) {
        Some(x) => x,
        None => {
            return Err(ParseError::Error);
        },
    };
    let (q2, item) = match elist(s, nl, true, q1) {
        Ok(x) => x,
        Err(e) => {
            return Err(e);
        },
    };
    let q3 = match sep_end_exec(s, k, q2) {
        Some(x) => x,
        None => {
            return Err(ParseError::Error);
        },
    };
    if !tok_at_exec(s, q3, Tok::KwIn) {
        return Err(ParseError::Error);
    }
    let q4 = match sep_end_exec(s, k, q3 + 2) {
        Some(x) => x,
        None => {
            return Err(ParseError::Error);
        },
    };
    let (q5, iterator) = match bop(s, nl, Level::Or, q4) {
        Ok(x) => x,
        Err(e) => {
            return Err(e);
        },
    };
    match opt_comp_iter(s, nl, q5) {
        Ok((q6, rest)) => Ok(
            (q6, prepend_chunk(ComprehensionChunk::For { is_async, item, iterator }, rest)),
        ),
        Err(e) => Err(e),
    }
}

fn comp_if(s: &[char], nl: bool, p: usize) -> (r: PResult<Vec<ComprehensionChunk>>)
    requires
        p <= s.len(),
    ensures
        res_chunks(r) == spec_comp_if(s@, nl, p as int),
        ends_after(r, p as int, s@.len() as int),
    decreases s@.len() - p, 1int,
{
    let k = blank_exec(nl);
    if !tok_at_exec(s, p, Tok::KwIf) {
        return Err(ParseError::Error);
    }
    let q1 = match sep_end_exec(s, k, p + 2) {
        Some(x) => x,
        None => {
            return Err(ParseError::Error);
        },
    };
    let (q2, cond) = match test_nocond(s, nl, q1) {
        Ok(x) => x,
        Err(e) => {
            return Err(e);
        },
    };
    let q3 = match sep_end_exec(s, k, q2) {
        Some(x) => x,
        None => {
            return Err(ParseError::Error);
        },
    };
    match opt_comp_iter(s, nl, q3) {
        Ok((q4, rest)) => Ok((q4, prepend_chunk(ComprehensionChunk::If { cond }, rest))),
        Err(e) => Err(e),
    }
}

fn opt_comp_iter(s: &[char], nl: bool, q: usize) -> (r: PResult<Vec<ComprehensionChunk>>)
    requires
        q <= s.len(),
    ensures
        res_chunks(r) == spec_opt_comp_iter(s@, nl, q as int),
        ends_within(r, q as int, s@.len() as int),
    decreases s@.len() - q, 2int,
{
    let r = comp_for(s, nl, q);
    if !is_soft_error(&r) {
        return r;
    }
    let r = comp_if(s, nl, q);
    if !is_soft_error(&r) {
        return r;
    }
    let v: Vec<ComprehensionChunk> = Vec::new();
    proof {
        assert(model_chunks(v@) =~= Seq::<SpecChunk>::empty());
    }
    Ok((q, v))
}

/// `yield_expr` at `p`.
pub fn yield_expr(s: &[char], nl: bool, p: usize) -> (r: PResult<Expression>)
    requires
        p <= s.len(),
    ensures
        res_expr(r) == spec_yield_expr(s@, nl, p as int),
        ends_after(r, p as int, s@.len() as int),
    decreases s@.len() - p, 1int,
{
    if !tok_at_exec(s, p, Tok::KwYield) {
        return Err(ParseError::Error);
    }
    let q1 = match sep_end_exec(s, blank_exec(nl), p + 5) {
        Some(x) => x,
        None => {
            return Err(ParseError::Error);
        },
    };
    let r = yield_from(s, nl, q1);
    if !is_soft_error(&r) {
        return r;
    }
    match elist(s, nl, false, q1) {
        Ok((r, v)) => Ok((r, Expression::Yield(v))),
        Err(e) => Err(e),
    }
}

fn yield_from(s: &[char], nl: bool, q1: usize) -> (r: PResult<Expression>)
    requires
        q1 <= s.len(),
    ensures
        res_expr(r) == spec_yield_from(s@, nl, q1 as int),
        ends_after(r, q1 as int, s@.len() as int),
    decreases s@.len() - q1, 1int,
{
    if !tok_at_exec(s, q1, Tok::KwFrom) {
        return Err(ParseError::Error);
    }
    match sep_end_exec(s, blank_exec(nl), q1 + 4) {
        Some(q2) => match test(s, nl, q2) {
            Ok((r, e)) => Ok((r, Expression::YieldFrom(Box::new(e)))),
            Err(e) => Err(e),
        },
        None => Err(ParseError::Error),
    }
}

} // verus!
