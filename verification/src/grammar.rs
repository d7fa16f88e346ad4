//! The grammar of Python expressions, as a function from the input and a
//! position to the outcome of parsing there. The executable parser in
//! `parser` is proved to compute exactly these functions.
//!
//! Every function takes the input `s`, a flag `nl` that says whether
//! newlines count as blanks (they do inside brackets), and the position
//! `p` at which to parse. Alternatives are tried in order; a recoverable
//! error lets the next one be tried, a failure ends the parse.
//!
//! Each nonterminal carries a rank: a nonterminal only calls one of lower
//! rank at its own position, and calls others only after input was read.
//! Results of nested parses pass through `within`, which keeps only those
//! that end between the start and the end of the input; the parser's
//! contracts show that no result is ever dropped that way.
use vstd::prelude::*;

use crate::ast::{
    no_params, Bop, SpecArglist, SpecChunk, SpecDictItem, SpecExpression, SpecSetItem, SpecSubscript, Uop,
};
use crate::arglist::{spec_build_arglist, SpecRawArgument};
use crate::lexer::{
    blank, char_at, comma_after, run_end, sep_end, spec_name, spec_number, spec_strings, tok_at,
    CharClass, Tok,
};
use crate::result::{or_else, within, SRes, SpecError};

verus! {

/// The levels of binary operators, loosest first.
#[derive(Debug, Clone, Copy, PartialEq, Eq)]
pub enum Level {
    /// `or`
    Or,
    /// `and`
    And,
    /// comparisons
    Comparison,
    /// `|`
    Expr,
    /// `^`
    Xor,
    /// `&`
    BitAnd,
    /// `<<`, `>>`
    Shift,
    /// `+`, `-`
    Arith,
    /// `*`, `@`, `%`, `//`, `/`
    Term,
}

pub open spec fn level_rank(l: Level) -> int {
    match l {
        Level::Or => 30,
        Level::And => 28,
        Level::Comparison => 24,
        Level::Expr => 22,
        Level::Xor => 20,
        Level::BitAnd => 18,
        Level::Shift => 16,
        Level::Arith => 14,
        Level::Term => 12,
    }
}

/// An operator of level `l` at `p`: the first alternative that matches,
/// and the position after it. The alternatives are tried in a fixed order,
/// so a shorter operator wins over a longer one that starts with it: `<=`
/// is read as `<` and `>=` as `>`, after which no operand parses at the
/// `=` (so `a <= b` is just `a`), and `is not` is read as `is`. `Leq`, `Geq`
/// and `IsNot` never come out.
pub open spec fn spec_op_at(s: Seq<char>, nl: bool, l: Level, p: int) -> Option<(Bop, int)> {
    match l {
        Level::Or => if tok_at(s, p, Tok::OrSp) {
            Some((Bop::Or, p + 3))
        } else {
            None
        },
        Level::And => if tok_at(s, p, Tok::AndSp) {
            Some((Bop::And, p + 4))
        } else {
            None
        },
        Level::Comparison => if char_at(s, p, '<') {
            Some((Bop::Lt, p + 1))
        } else if char_at(s, p, '>') {
            Some((Bop::Gt, p + 1))
        } else if tok_at(s, p, Tok::EqEq) {
            Some((Bop::Eq, p + 2))
        } else if tok_at(s, p, Tok::Leq) {
            Some((Bop::Leq, p + 2))
        } else if tok_at(s, p, Tok::Geq) {
            Some((Bop::Geq, p + 2))
        } else if tok_at(s, p, Tok::Neq) {
            Some((Bop::Neq, p + 2))
        } else if tok_at(s, p, Tok::KwIn) {
            Some((Bop::In, p + 2))
        } else if tok_at(s, p, Tok::KwNot) && sep_end(s, blank(nl), p + 3) is Some && tok_at(
            s,
            sep_end(s, blank(nl), p + 3)->0,
            Tok::KwIn,
        ) && sep_end(s, blank(nl), sep_end(s, blank(nl), p + 3)->0 + 2) is Some {
            Some((Bop::NotIn, sep_end(s, blank(nl), sep_end(s, blank(nl), p + 3)->0 + 2)->0))
        } else if tok_at(s, p, Tok::KwIs) && sep_end(s, blank(nl), p + 2) is Some {
            Some((Bop::Is, sep_end(s, blank(nl), p + 2)->0))
        } else {
            None
        },
        Level::Expr => if char_at(s, p, '|') {
            Some((Bop::BitOr, p + 1))
        } else {
            None
        },
        Level::Xor => if char_at(s, p, '^') {
            Some((Bop::BitXor, p + 1))
        } else {
            None
        },
        Level::BitAnd => if char_at(s, p, '&') {
            Some((Bop::BitAnd, p + 1))
        } else {
            None
        },
        Level::Shift => if tok_at(s, p, Tok::Lshift) {
            Some((Bop::Lshift, p + 2))
        } else if tok_at(s, p, Tok::Rshift) {
            Some((Bop::Rshift, p + 2))
        } else {
            None
        },
        Level::Arith => if char_at(s, p, '+') {
            Some((Bop::Add, p + 1))
        } else if char_at(s, p, '-') {
            Some((Bop::Sub, p + 1))
        } else {
            None
        },
        Level::Term => if char_at(s, p, '*') {
            Some((Bop::Mult, p + 1))
        } else if char_at(s, p, '@') {
            Some((Bop::Matmult, p + 1))
        } else if char_at(s, p, '%') {
            Some((Bop::Mod, p + 1))
        } else if tok_at(s, p, Tok::DoubleSlash) {
            Some((Bop::Floordiv, p + 2))
        } else if char_at(s, p, '/') {
            Some((Bop::Div, p + 1))
        } else {
            None
        },
    }
}

/// `test: or_test ['if' or_test 'else' test] | lambdef`
pub open spec fn spec_test(s: Seq<char>, nl: bool, p: int) -> SRes<SpecExpression>
    decreases s.len() - p, 40int,
{
    match spec_conditional(s, nl, p) {
        Err(SpecError::Error) => spec_lambdef(s, nl, false, p),
        r => r,
    }
}

/// `lambdef: 'lambda' [varargslist] ':' test`, blanks allowed after the
/// `lambda`; the body is a `test_nocond` when `nocond`. Only the lambda
/// without parameters is parsed: the grammar of parameter lists
/// (`varargslist`) is not part of this one, so `lambda x: x` is refused.
pub open spec fn spec_lambdef(s: Seq<char>, nl: bool, nocond: bool, p: int) -> SRes<
    SpecExpression,
>
    decreases s.len() - p, 39int,
{
    if tok_at(s, p, Tok::KwLambda) {
        let q = run_end(s, blank(nl), p + 6);
        if char_at(s, q, ':') {
            let body = if nocond {
                spec_test_nocond(s, nl, q + 1)
            } else {
                spec_test(s, nl, q + 1)
            };
            match within(body, q + 1, s.len() as int) {
                Ok((e, r)) => Ok((SpecExpression::Lambdef(no_params(), Box::new(e)), r)),
                Err(e) => Err(e),
            }
        } else {
            Err(SpecError::Error)
        }
    } else {
        Err(SpecError::Error)
    }
}

/// `or_test ['if' or_test 'else' test]`
pub open spec fn spec_conditional(s: Seq<char>, nl: bool, p: int) -> SRes<SpecExpression>
    decreases s.len() - p, 39int,
{
    match within(spec_bop(s, nl, Level::Or, p), p, s.len() as int) {
        Ok((left, q)) => match spec_ternary_tail(s, nl, q) {
            Ok(((c, r), q2)) => Ok(
                (SpecExpression::Ternary(Box::new(left), Box::new(c), Box::new(r)), q2),
            ),
            Err(SpecError::Error) => Ok((left, q)),
            Err(e) => Err(e),
        },
        Err(e) => Err(e),
    }
}

/// The ` if cond else other` part of a conditional expression, at `q`.
pub open spec fn spec_ternary_tail(s: Seq<char>, nl: bool, q: int) -> SRes<
    (SpecExpression, SpecExpression),
>
    decreases s.len() - q, 1int,
{
    match sep_end(s, blank(nl), q) {
        Some(q1) => if tok_at(s, q1, Tok::KwIf) {
            match sep_end(s, blank(nl), q1 + 2) {
                Some(q2) => match within(spec_bop(s, nl, Level::Or, q2), q2, s.len() as int) {
                    Ok((c, q3)) => match sep_end(s, blank(nl), q3) {
                        Some(q4) => if tok_at(s, q4, Tok::KwElse) {
                            match sep_end(s, blank(nl), q4 + 4) {
                                Some(q5) => match within(
                                    spec_test(s, nl, q5),
                                    q5,
                                    s.len() as int,
                                ) {
                                    Ok((r, q6)) => Ok(((c, r), q6)),
                                    Err(e) => Err(e),
                                },
                                None => Err(SpecError::Error),
                            }
                        } else {
                            Err(SpecError::Error)
                        },
                        None => Err(SpecError::Error),
                    },
                    Err(e) => Err(e),
                },
                None => Err(SpecError::Error),
            }
        } else {
            Err(SpecError::Error)
        },
        None => Err(SpecError::Error),
    }
}

/// `test_nocond: or_test | lambdef_nocond`
pub open spec fn spec_test_nocond(s: Seq<char>, nl: bool, p: int) -> SRes<SpecExpression>
    decreases s.len() - p, 40int,
{
    match spec_bop(s, nl, Level::Or, p) {
        Err(SpecError::Error) => spec_lambdef(s, nl, true, p),
        r => r,
    }
}

/// A chain of operands of level `l` joined by its operators, grouped to the left.
pub open spec fn spec_bop(s: Seq<char>, nl: bool, l: Level, p: int) -> SRes<SpecExpression>
    decreases s.len() - p, level_rank(l),
{
    match within(spec_operand(s, nl, l, p), p, s.len() as int) {
        Ok((first, q)) => spec_bop_rest(s, nl, l, q, first),
        Err(e) => Err(e),
    }
}

/// The operands of level `l`: the next tighter level.
pub open spec fn spec_operand(s: Seq<char>, nl: bool, l: Level, p: int) -> SRes<SpecExpression>
    decreases s.len() - p, level_rank(l) - 1,
{
    match l {
        Level::Or => spec_bop(s, nl, Level::And, p),
        Level::And => spec_not_test(s, nl, p),
        Level::Comparison => spec_bop(s, nl, Level::Expr, p),
        Level::Expr => spec_bop(s, nl, Level::Xor, p),
        Level::Xor => spec_bop(s, nl, Level::BitAnd, p),
        Level::BitAnd => spec_bop(s, nl, Level::Shift, p),
        Level::Shift => spec_bop(s, nl, Level::Arith, p),
        Level::Arith => spec_bop(s, nl, Level::Term, p),
        Level::Term => spec_factor(s, nl, p),
    }
}

/// Further `op operand` pairs after `q`, folded into `acc`; it stops before
/// the blanks of a pair that does not parse.
pub open spec fn spec_bop_rest(
    s: Seq<char>,
    nl: bool,
    l: Level,
    q: int,
    acc: SpecExpression,
) -> SRes<SpecExpression>
    decreases s.len() - q, 1int,
{
    let q1 = run_end(s, blank(nl), q);
    match spec_op_at(s, nl, l, q1) {
        Some((op, q2)) => if q1 < q2 <= s.len() {
            let q3 = run_end(s, blank(nl), q2);
            match within(spec_operand(s, nl, l, q3), q3, s.len() as int) {
                Ok((rhs, q4)) => spec_bop_rest(
                    s,
                    nl,
                    l,
                    q4,
                    SpecExpression::Bop(op, Box::new(acc), Box::new(rhs)),
                ),
                Err(SpecError::Error) => Ok((acc, q)),
                Err(e) => Err(e),
            }
        } else {
            Ok((acc, q))
        },
        None => Ok((acc, q)),
    }
}

/// `not_test: 'not ' comparison | comparison`
pub open spec fn spec_not_test(s: Seq<char>, nl: bool, p: int) -> SRes<SpecExpression>
    decreases s.len() - p, 26int,
{
    if tok_at(s, p, Tok::NotSp) {
        match within(spec_bop(s, nl, Level::Comparison, p + 4), p + 4, s.len() as int) {
            Ok((e, q)) => Ok((SpecExpression::Uop(Uop::Not, Box::new(e)), q)),
            Err(SpecError::Error) => spec_bop(s, nl, Level::Comparison, p),
            Err(e) => Err(e),
        }
    } else {
        spec_bop(s, nl, Level::Comparison, p)
    }
}

/// `star_expr: '*' expr`
pub open spec fn spec_star_expr(s: Seq<char>, nl: bool, p: int) -> SRes<SpecExpression>
    decreases s.len() - p, 1int,
{
    if char_at(s, p, '*') {
        let q = run_end(s, blank(nl), p + 1);
        match within(spec_bop(s, nl, Level::Expr, q), q, s.len() as int) {
            Ok((e, r)) => Ok((SpecExpression::Star(Box::new(e)), r)),
            Err(e) => Err(e),
        }
    } else {
        Err(SpecError::Error)
    }
}

/// The unary operator written with character `c`, if any.
pub open spec fn unary_op(c: char) -> Option<Uop> {
    if c == '+' {
        Some(Uop::Plus)
    } else if c == '-' {
        Some(Uop::Minus)
    } else if c == '~' {
        Some(Uop::Invert)
    } else {
        None
    }
}

/// `factor: ('+'|'-'|'~') factor | power`, blanks allowed before and after the sign.
pub open spec fn spec_factor(s: Seq<char>, nl: bool, p: int) -> SRes<SpecExpression>
    decreases s.len() - p, 10int,
{
    let q0 = run_end(s, blank(nl), p);
    if 0 <= q0 < s.len() && unary_op(s[q0]) is Some {
        let q1 = run_end(s, blank(nl), q0 + 1);
        match within(spec_factor(s, nl, q1), q1, s.len() as int) {
            Ok((e, q)) => Ok((SpecExpression::Uop(unary_op(s[q0])->0, Box::new(e)), q)),
            Err(SpecError::Error) => spec_power(s, nl, p),
            Err(e) => Err(e),
        }
    } else {
        spec_power(s, nl, p)
    }
}

/// `power: atom_expr ['**' factor]`
pub open spec fn spec_power(s: Seq<char>, nl: bool, p: int) -> SRes<SpecExpression>
    decreases s.len() - p, 9int,
{
    match within(spec_atom_expr(s, nl, p), p, s.len() as int) {
        Ok((lhs, q)) => {
            let q1 = run_end(s, blank(nl), q);
            if tok_at(s, q1, Tok::DoubleStar) {
                let q2 = run_end(s, blank(nl), q1 + 2);
                match within(spec_factor(s, nl, q2), q2, s.len() as int) {
                    Ok((r, q3)) => Ok(
                        (SpecExpression::Bop(Bop::Power, Box::new(lhs), Box::new(r)), q3),
                    ),
                    Err(SpecError::Error) => Ok((lhs, q)),
                    Err(e) => Err(e),
                }
            } else {
                Ok((lhs, q))
            }
        },
        Err(e) => Err(e),
    }
}

/// What may follow an atom: a call, a subscript or an attribute.
pub enum SpecTrailer {
    Call(SpecArglist),
    Subscript(Seq<SpecSubscript>),
    Attribute(Seq<char>),
}

pub open spec fn spec_apply_trailer(acc: SpecExpression, t: SpecTrailer) -> SpecExpression {
    match t {
        SpecTrailer::Call(args) => SpecExpression::Call(Box::new(acc), args),
        SpecTrailer::Subscript(subs) => SpecExpression::Subscript(Box::new(acc), subs),
        SpecTrailer::Attribute(n) => SpecExpression::Attribute(Box::new(acc), n),
    }
}

/// `atom_expr: atom trailer*`
pub open spec fn spec_atom_expr(s: Seq<char>, nl: bool, p: int) -> SRes<SpecExpression>
    decreases s.len() - p, 8int,
{
    match within(spec_atom(s, nl, p), p, s.len() as int) {
        Ok((lhs, q)) => spec_trailers(s, nl, q, lhs),
        Err(e) => Err(e),
    }
}

/// Trailers after `q`, applied to `acc` from left to right.
pub open spec fn spec_trailers(s: Seq<char>, nl: bool, q: int, acc: SpecExpression) -> SRes<
    SpecExpression,
>
    decreases s.len() - q, 7int,
{
    match spec_trailer(s, nl, q) {
        Ok((t, q2)) => if q < q2 <= s.len() {
            spec_trailers(s, nl, q2, spec_apply_trailer(acc, t))
        } else {
            Err(SpecError::Error)
        },
        Err(SpecError::Error) => Ok((acc, q)),
        Err(e) => Err(e),
    }
}

/// `trailer: '(' [arglist] ')' | '[' subscriptlist ']' | '.' NAME`.
/// Inside the brackets any whitespace is skipped; the three alternatives
/// start with different characters, so at most one applies.
pub open spec fn spec_trailer(s: Seq<char>, nl: bool, q: int) -> SRes<SpecTrailer>
    decreases s.len() - q, 6int,
{
    if char_at(s, q, '(') {
        let q1 = run_end(s, CharClass::AnyWs, q + 1);
        match within(spec_arglist(s, true, q1), q1, s.len() as int) {
            Ok((args, q2)) => {
                let q3 = run_end(s, CharClass::AnyWs, q2);
                if char_at(s, q3, ')') {
                    Ok((SpecTrailer::Call(args), q3 + 1))
                } else {
                    Err(SpecError::Error)
                }
            },
            Err(e) => Err(e),
        }
    } else if char_at(s, q, '[') {
        let q1 = run_end(s, CharClass::AnyWs, q + 1);
        match within(spec_subscripts(s, true, q1), q1, s.len() as int) {
            Ok((subs, q2)) => {
                let q3 = run_end(s, CharClass::AnyWs, q2);
                if char_at(s, q3, ']') {
                    Ok((SpecTrailer::Subscript(subs), q3 + 1))
                } else {
                    Err(SpecError::Error)
                }
            },
            Err(e) => Err(e),
        }
    } else {
        let q1 = run_end(s, blank(nl), q);
        if char_at(s, q1, '.') {
            let q2 = run_end(s, blank(nl), q1 + 1);
            match spec_name(s, q2) {
                Some((n, q3)) => Ok((SpecTrailer::Attribute(n), q3)),
                None => Err(SpecError::Error),
            }
        } else {
            Err(SpecError::Error)
        }
    }
}

/// `subscriptlist: subscript (',' subscript)*`, possibly empty, any
/// whitespace around the commas.
pub open spec fn spec_subscripts(s: Seq<char>, nl: bool, p: int) -> SRes<Seq<SpecSubscript>>
    decreases s.len() - p, 42int,
{
    match within(spec_subscript(s, nl, p), p, s.len() as int) {
        Ok((x, q)) => spec_subscripts_rest(s, nl, q, seq![x]),
        Err(SpecError::Error) => Ok((Seq::empty(), p)),
        Err(e) => Err(e),
    }
}

pub open spec fn spec_subscripts_rest(s: Seq<char>, nl: bool, q: int, acc: Seq<SpecSubscript>) -> SRes<
    Seq<SpecSubscript>,
>
    decreases s.len() - q, 1int,
{
    match comma_after(s, Some(CharClass::AnyWs), q) {
        Some(j) => match within(spec_subscript(s, nl, j), j, s.len() as int) {
            Ok((x, r)) => spec_subscripts_rest(s, nl, r, acc.push(x)),
            Err(SpecError::Error) => Ok((acc, q)),
            Err(e) => Err(e),
        },
        None => Ok((acc, q)),
    }
}

/// The subscript for the pieces of a slice: `Double` with two, `Triple` when
/// a second colon was written.
pub open spec fn slice_of(
    first: Option<SpecExpression>,
    second: Option<SpecExpression>,
    third: Option<Option<SpecExpression>>,
) -> SpecSubscript {
    match third {
        None => SpecSubscript::Double(first, second),
        Some(t) => SpecSubscript::Triple(first, second, t),
    }
}

/// `subscript: test | [test] ':' [test] [':' [test]]`
pub open spec fn spec_subscript(s: Seq<char>, nl: bool, p: int) -> SRes<SpecSubscript>
    decreases s.len() - p, 41int,
{
    if char_at(s, p, ':') {
        match spec_subscript_tail(s, nl, p + 1) {
            Ok(((b, c), q)) => Ok((slice_of(None, b, c), q)),
            Err(e) => Err(e),
        }
    } else {
        match within(spec_test(s, nl, p), p, s.len() as int) {
            Ok((a, q)) => if char_at(s, q, ':') {
                match spec_subscript_tail(s, nl, q + 1) {
                    Ok(((b, c), r)) => Ok((slice_of(Some(a), b, c), r)),
                    Err(SpecError::Error) => Ok((SpecSubscript::Simple(a), q)),
                    Err(e) => Err(e),
                }
            } else {
                Ok((SpecSubscript::Simple(a), q))
            },
            Err(e) => Err(e),
        }
    }
}

/// What follows the first colon of a slice: the optional upper bound, and
/// the optional step part (`None` when no second colon).
pub open spec fn spec_subscript_tail(s: Seq<char>, nl: bool, p: int) -> SRes<
    (Option<SpecExpression>, Option<Option<SpecExpression>>),
>
    decreases s.len() - p, 41int,
{
    match within(spec_test(s, nl, p), p, s.len() as int) {
        Ok((b, q)) => match spec_subscript_step(s, nl, q) {
            Ok((c, r)) => Ok(((Some(b), c), r)),
            Err(e) => Err(e),
        },
        Err(SpecError::Error) => match spec_subscript_step(s, nl, p) {
            Ok((c, r)) => Ok(((None, c), r)),
            Err(e) => Err(e),
        },
        Err(e) => Err(e),
    }
}

/// `[':' [test]]`
pub open spec fn spec_subscript_step(s: Seq<char>, nl: bool, q: int) -> SRes<Option<Option<SpecExpression>>>
    decreases s.len() - q, 1int,
{
    if char_at(s, q, ':') {
        match within(spec_test(s, nl, q + 1), q + 1, s.len() as int) {
            Ok((c, r)) => Ok((Some(Some(c)), r)),
            Err(SpecError::Error) => Ok((Some(None), q + 1)),
            Err(e) => Err(e),
        }
    } else {
        Ok((None, q))
    }
}

/// `atom`: the alternatives in order.
pub open spec fn spec_atom(s: Seq<char>, nl: bool, p: int) -> SRes<SpecExpression>
    decreases s.len() - p, 5int,
{
    or_else(
        spec_atom_word(s, nl, p),
        or_else(
            spec_atom_braces(s, nl, p),
            or_else(
                spec_atom_parens(s, nl, p),
                or_else(spec_atom_brackets(s, nl, p), spec_atom_number(s, nl, p)),
            ),
        ),
    )
}

/// `'...' | 'None' | 'True' | 'False' | NAME | STRING+`: the single-token atoms.
pub open spec fn spec_atom_word(s: Seq<char>, nl: bool, p: int) -> SRes<SpecExpression> {
    if tok_at(s, p, Tok::Ellipsis) {
        Ok((SpecExpression::Ellipsis, p + 3))
    } else if tok_at(s, p, Tok::KwNone) {
        Ok((SpecExpression::NoneConst, p + 4))
    } else if tok_at(s, p, Tok::KwTrue) {
        Ok((SpecExpression::True, p + 4))
    } else if tok_at(s, p, Tok::KwFalse) {
        Ok((SpecExpression::False, p + 5))
    } else {
        match spec_name(s, p) {
            Some((n, q)) => Ok((SpecExpression::Name(n), q)),
            None => match spec_strings(s, nl, '"', p) {
                Some((w, q)) => Ok((SpecExpression::String(w), q)),
                None => match spec_strings(s, nl, '\'', p) {
                    Some((w, q)) => Ok((SpecExpression::String(w), q)),
                    None => Err(SpecError::Error),
                },
            },
        }
    }
}

/// `'{' '}'` and `'{' dictorsetmaker '}'`, blanks allowed around the braces.
pub open spec fn spec_atom_braces(s: Seq<char>, nl: bool, p: int) -> SRes<SpecExpression>
    decreases s.len() - p, 4int,
{
    let q0 = run_end(s, blank(nl), p);
    if char_at(s, q0, '{') {
        let q1 = run_end(s, blank(nl), q0 + 1);
        if char_at(s, q1, '}') {
            Ok((SpecExpression::DictLiteral(Seq::empty()), run_end(s, blank(nl), q1 + 1)))
        } else {
            let q2 = run_end(s, CharClass::AnyWs, q1);
            match within(spec_dictorsetmaker(s, q2), q2, s.len() as int) {
                Ok((e, q3)) => {
                    let q4 = run_end(s, blank(nl), run_end(s, CharClass::AnyWs, q3));
                    if char_at(s, q4, '}') {
                        Ok((e, run_end(s, blank(nl), q4 + 1)))
                    } else {
                        Err(SpecError::Error)
                    }
                },
                Err(e) => Err(e),
            }
        }
    } else {
        Err(SpecError::Error)
    }
}

/// A parenthesized list is a tuple, a parenthesized comprehension a generator.
pub open spec fn paren_form(e: SpecExpression) -> SpecExpression {
    match e {
        SpecExpression::ListComp(i, c) => SpecExpression::Generator(i, c),
        SpecExpression::ListLiteral(v) => SpecExpression::TupleLiteral(v),
        _ => e,
    }
}

/// `'(' testlist_comp ')'` and `'(' yield_expr ')'`, blanks allowed around
/// the parentheses and any whitespace inside them.
pub open spec fn spec_atom_parens(s: Seq<char>, nl: bool, p: int) -> SRes<SpecExpression>
    decreases s.len() - p, 4int,
{
    let q0 = run_end(s, blank(nl), p);
    if char_at(s, q0, '(') {
        let q2 = run_end(s, CharClass::AnyWs, run_end(s, blank(nl), q0 + 1));
        or_else(
            match within(spec_testlist_comp(s, true, q2), q2, s.len() as int) {
                Ok((e, q3)) => {
                    let q4 = run_end(s, blank(nl), run_end(s, CharClass::AnyWs, q3));
                    if char_at(s, q4, ')') {
                        Ok((paren_form(e), run_end(s, blank(nl), q4 + 1)))
                    } else {
                        Err(SpecError::Error)
                    }
                },
                Err(e) => Err(e),
            },
            match within(spec_yield_expr(s, true, q2), q2, s.len() as int) {
                Ok((e, q3)) => {
                    let q4 = run_end(s, blank(nl), run_end(s, CharClass::AnyWs, q3));
                    if char_at(s, q4, ')') {
                        Ok((e, run_end(s, blank(nl), q4 + 1)))
                    } else {
                        Err(SpecError::Error)
                    }
                },
                Err(e) => Err(e),
            },
        )
    } else {
        Err(SpecError::Error)
    }
}

/// `'[' testlist_comp ']'`
pub open spec fn spec_atom_brackets(s: Seq<char>, nl: bool, p: int) -> SRes<SpecExpression>
    decreases s.len() - p, 4int,
{
    let q0 = run_end(s, blank(nl), p);
    if char_at(s, q0, '[') {
        let q2 = run_end(s, CharClass::AnyWs, run_end(s, blank(nl), q0 + 1));
        match within(spec_testlist_comp(s, true, q2), q2, s.len() as int) {
            Ok((e, q3)) => {
                let q4 = run_end(s, blank(nl), run_end(s, CharClass::AnyWs, q3));
                if char_at(s, q4, ']') {
                    Ok((e, run_end(s, blank(nl), q4 + 1)))
                } else {
                    Err(SpecError::Error)
                }
            },
            Err(e) => Err(e),
        }
    } else {
        Err(SpecError::Error)
    }
}

/// `NUMBER`, blanks allowed around it.
pub open spec fn spec_atom_number(s: Seq<char>, nl: bool, p: int) -> SRes<SpecExpression> {
    let q0 = run_end(s, blank(nl), p);
    match spec_number(s, q0) {
        Ok((v, q1)) => Ok((SpecExpression::Int(v), run_end(s, blank(nl), q1))),
        Err(e) => Err(e),
    }
}

/// `test | star_expr`, as a display item.
pub open spec fn spec_test_or_star(s: Seq<char>, nl: bool, p: int) -> SRes<SpecSetItem>
    decreases s.len() - p, 41int,
{
    match within(spec_test(s, nl, p), p, s.len() as int) {
        Ok((e, q)) => Ok((SpecSetItem::Unique(e), q)),
        Err(SpecError::Error) => match within(spec_star_expr(s, nl, p), p, s.len() as int) {
            Ok((e, q)) => Ok((SpecSetItem::Star(e), q)),
            Err(e) => Err(e),
        },
        Err(e) => Err(e),
    }
}

/// `testlist_comp: (test|star_expr) ( comp_for | ',' [(test|star_expr) (',' ...)*] )`:
/// a list comprehension, or a list of at least one item followed by a comma.
pub open spec fn spec_testlist_comp(s: Seq<char>, nl: bool, p: int) -> SRes<SpecExpression>
    decreases s.len() - p, 42int,
{
    match within(spec_test_or_star(s, nl, p), p, s.len() as int) {
        Ok((first, q)) => spec_tlc_after(s, nl, q, first),
        Err(e) => Err(e),
    }
}

/// What follows the first item of a `testlist_comp`, at `q`.
pub open spec fn spec_tlc_after(s: Seq<char>, nl: bool, q: int, first: SpecSetItem) -> SRes<
    SpecExpression,
>
    decreases s.len() - q, 2int,
{
    or_else(
        match sep_end(s, blank(nl), q) {
            Some(q1) => match within(spec_comp_for(s, nl, q1), q1, s.len() as int) {
                Ok((c, r)) => Ok((SpecExpression::ListComp(Box::new(first), c), r)),
                Err(e) => Err(e),
            },
            None => Err(SpecError::Error),
        },
        match comma_after(s, Some(blank(nl)), q) {
            Some(q2) => match within(spec_tlc_items(s, nl, q2), q2, s.len() as int) {
                Ok((v, r)) => Ok((SpecExpression::ListLiteral(seq![first] + v), r)),
                Err(e) => Err(e),
            },
            None => Err(SpecError::Error),
        },
    )
}

/// Display items separated by commas (blanks around them), possibly none.
pub open spec fn spec_tlc_items(s: Seq<char>, nl: bool, p: int) -> SRes<Seq<SpecSetItem>>
    decreases s.len() - p, 42int,
{
    match within(spec_test_or_star(s, nl, p), p, s.len() as int) {
        Ok((x, q)) => spec_tlc_rest(s, nl, q, seq![x]),
        Err(SpecError::Error) => Ok((Seq::empty(), p)),
        Err(e) => Err(e),
    }
}

pub open spec fn spec_tlc_rest(s: Seq<char>, nl: bool, q: int, acc: Seq<SpecSetItem>) -> SRes<
    Seq<SpecSetItem>,
>
    decreases s.len() - q, 1int,
{
    match comma_after(s, Some(blank(nl)), q) {
        Some(j) => match within(spec_test_or_star(s, nl, j), j, s.len() as int) {
            Ok((x, r)) => spec_tlc_rest(s, nl, r, acc.push(x)),
            Err(SpecError::Error) => Ok((acc, q)),
            Err(e) => Err(e),
        },
        None => Ok((acc, q)),
    }
}

/// An item of an expression list: `expr | star_expr` when `star`, else `test`.
pub open spec fn spec_elist_item(s: Seq<char>, nl: bool, star: bool, p: int) -> SRes<
    SpecExpression,
>
    decreases s.len() - p, 41int,
{
    if star {
        or_else(spec_bop(s, nl, Level::Expr, p), spec_star_expr(s, nl, p))
    } else {
        spec_test(s, nl, p)
    }
}

/// Items after `q`, each after a comma with blanks around it.
pub open spec fn spec_elist_rest(
    s: Seq<char>,
    nl: bool,
    star: bool,
    q: int,
    acc: Seq<SpecExpression>,
) -> SRes<Seq<SpecExpression>>
    decreases s.len() - q, 1int,
{
    match comma_after(s, Some(blank(nl)), q) {
        Some(j) => match within(spec_elist_item(s, nl, star, j), j, s.len() as int) {
            Ok((x, r)) => spec_elist_rest(s, nl, star, r, acc.push(x)),
            Err(SpecError::Error) => Ok((acc, q)),
            Err(e) => Err(e),
        },
        None => Ok((acc, q)),
    }
}

/// One or more items separated by commas.
pub open spec fn spec_elist(s: Seq<char>, nl: bool, star: bool, p: int) -> SRes<
    Seq<SpecExpression>,
>
    decreases s.len() - p, 42int,
{
    match within(spec_elist_item(s, nl, star, p), p, s.len() as int) {
        Ok((x, q)) => spec_elist_rest(s, nl, star, q, seq![x]),
        Err(e) => Err(e),
    }
}

/// `exprlist: (expr|star_expr) (',' (expr|star_expr))*`
pub open spec fn spec_exprlist(s: Seq<char>, nl: bool, p: int) -> SRes<Seq<SpecExpression>> {
    spec_elist(s, nl, true, p)
}

/// `testlist: test (',' test)*`
pub open spec fn spec_testlist(s: Seq<char>, nl: bool, p: int) -> SRes<Seq<SpecExpression>> {
    spec_elist(s, nl, false, p)
}

/// `[test (',' test)*]`
pub open spec fn spec_possibly_empty_testlist(s: Seq<char>, nl: bool, p: int) -> SRes<
    Seq<SpecExpression>,
> {
    match spec_elist(s, nl, false, p) {
        Err(SpecError::Error) => Ok((Seq::empty(), p)),
        r => r,
    }
}

/// `dictorsetmaker`, inside braces, where any whitespace is skipped around
/// every token: `**expr` and `key: value` start a dictionary, `*expr` and
/// `test` a set.
pub open spec fn spec_dictorsetmaker(s: Seq<char>, p: int) -> SRes<SpecExpression>
    decreases s.len() - p, 43int,
{
    let q0 = run_end(s, CharClass::AnyWs, p);
    or_else(
        if tok_at(s, q0, Tok::DoubleStar) {
            let q1 = run_end(s, CharClass::AnyWs, q0 + 2);
            match within(spec_bop(s, true, Level::Expr, q1), q1, s.len() as int) {
                Ok((e, q2)) => {
                    let q3 = run_end(s, CharClass::AnyWs, q2);
                    match within(
                        spec_dictmaker(s, q3, SpecDictItem::Star(e)),
                        q3,
                        s.len() as int,
                    ) {
                        Ok((r, q4)) => Ok((r, run_end(s, CharClass::AnyWs, q4))),
                        Err(e) => Err(e),
                    }
                },
                Err(e) => Err(e),
            }
        } else {
            Err(SpecError::Error)
        },
        or_else(
            if char_at(s, q0, '*') {
                let q1 = run_end(s, CharClass::AnyWs, q0 + 1);
                match within(spec_bop(s, true, Level::Expr, q1), q1, s.len() as int) {
                    Ok((e, q2)) => {
                        let q3 = run_end(s, CharClass::AnyWs, q2);
                        match within(
                            spec_setmaker(s, q3, SpecSetItem::Star(e)),
                            q3,
                            s.len() as int,
                        ) {
                            Ok((r, q4)) => Ok((r, run_end(s, CharClass::AnyWs, q4))),
                            Err(e) => Err(e),
                        }
                    },
                    Err(e) => Err(e),
                }
            } else {
                Err(SpecError::Error)
            },
            match within(spec_test(s, true, q0), q0, s.len() as int) {
                Ok((k, q1)) => {
                    let q2 = run_end(s, CharClass::AnyWs, q1);
                    or_else(
                        if char_at(s, q2, ':') {
                            let q3 = run_end(s, CharClass::AnyWs, q2 + 1);
                            match within(spec_test(s, true, q3), q3, s.len() as int) {
                                Ok((v, q4)) => {
                                    let q5 = run_end(s, CharClass::AnyWs, q4);
                                    match within(
                                        spec_dictmaker(s, q5, SpecDictItem::Unique(k, v)),
                                        q5,
                                        s.len() as int,
                                    ) {
                                        Ok((r, q6)) => Ok((r, run_end(s, CharClass::AnyWs, q6))),
                                        Err(e) => Err(e),
                                    }
                                },
                                Err(e) => Err(e),
                            }
                        } else {
                            Err(SpecError::Error)
                        },
                        match within(
                            spec_setmaker(s, q2, SpecSetItem::Unique(k)),
                            q2,
                            s.len() as int,
                        ) {
                            Ok((r, q6)) => Ok((r, run_end(s, CharClass::AnyWs, q6))),
                            Err(e) => Err(e),
                        },
                    )
                },
                Err(e) => Err(e),
            },
        ),
    )
}

/// `for` followed by a blank (looked at, not read).
pub open spec fn comp_ahead(s: Seq<char>, q: int) -> bool {
    tok_at(s, q, Tok::KwFor) && sep_end(s, CharClass::Blank, q + 3) is Some
}

/// The rest of a dictionary display after its first item: `, item, ...`,
/// or a comprehension, or nothing.
pub open spec fn spec_dictmaker(s: Seq<char>, q: int, first: SpecDictItem) -> SRes<SpecExpression>
    decreases s.len() - q, 3int,
{
    if char_at(s, q, ',') {
        match within(spec_dictitems(s, q + 1), q + 1, s.len() as int) {
            Ok((v, r)) => Ok((SpecExpression::DictLiteral(seq![first] + v), r)),
            Err(e) => Err(e),
        }
    } else if comp_ahead(s, q) {
        match within(spec_comp_for(s, true, q), q, s.len() as int) {
            Ok((c, r)) => Ok((SpecExpression::DictComp(Box::new(first), c), r)),
            Err(SpecError::Error) => Ok((SpecExpression::DictLiteral(seq![first]), q)),
            Err(e) => Err(e),
        }
    } else {
        Ok((SpecExpression::DictLiteral(seq![first]), q))
    }
}

/// The rest of a set display after its first item.
pub open spec fn spec_setmaker(s: Seq<char>, q: int, first: SpecSetItem) -> SRes<SpecExpression>
    decreases s.len() - q, 3int,
{
    if char_at(s, q, ',') {
        match within(spec_setitems(s, q + 1), q + 1, s.len() as int) {
            Ok((v, r)) => Ok((SpecExpression::SetLiteral(seq![first] + v), r)),
            Err(e) => Err(e),
        }
    } else if comp_ahead(s, q) {
        match within(spec_comp_for(s, true, q), q, s.len() as int) {
            Ok((c, r)) => Ok((SpecExpression::SetComp(Box::new(first), c), r)),
            Err(SpecError::Error) => Ok((SpecExpression::SetLiteral(seq![first]), q)),
            Err(e) => Err(e),
        }
    } else {
        Ok((SpecExpression::SetLiteral(seq![first]), q))
    }
}

/// Dictionary items separated by bare commas, possibly none.
pub open spec fn spec_dictitems(s: Seq<char>, p: int) -> SRes<Seq<SpecDictItem>>
    decreases s.len() - p, 42int,
{
    match within(spec_dictitem(s, p), p, s.len() as int) {
        Ok((x, q)) => spec_dictitems_rest(s, q, seq![x]),
        Err(SpecError::Error) => Ok((Seq::empty(), p)),
        Err(e) => Err(e),
    }
}

pub open spec fn spec_dictitems_rest(s: Seq<char>, q: int, acc: Seq<SpecDictItem>) -> SRes<
    Seq<SpecDictItem>,
>
    decreases s.len() - q, 1int,
{
    if char_at(s, q, ',') {
        match within(spec_dictitem(s, q + 1), q + 1, s.len() as int) {
            Ok((x, r)) => spec_dictitems_rest(s, r, acc.push(x)),
            Err(SpecError::Error) => Ok((acc, q)),
            Err(e) => Err(e),
        }
    } else {
        Ok((acc, q))
    }
}

/// Set items separated by bare commas, possibly none.
pub open spec fn spec_setitems(s: Seq<char>, p: int) -> SRes<Seq<SpecSetItem>>
    decreases s.len() - p, 42int,
{
    match within(spec_setitem(s, p), p, s.len() as int) {
        Ok((x, q)) => spec_setitems_rest(s, q, seq![x]),
        Err(SpecError::Error) => Ok((Seq::empty(), p)),
        Err(e) => Err(e),
    }
}

pub open spec fn spec_setitems_rest(s: Seq<char>, q: int, acc: Seq<SpecSetItem>) -> SRes<
    Seq<SpecSetItem>,
>
    decreases s.len() - q, 1int,
{
    if char_at(s, q, ',') {
        match within(spec_setitem(s, q + 1), q + 1, s.len() as int) {
            Ok((x, r)) => spec_setitems_rest(s, r, acc.push(x)),
            Err(SpecError::Error) => Ok((acc, q)),
            Err(e) => Err(e),
        }
    } else {
        Ok((acc, q))
    }
}

/// `'**' expr | test ':' test`, any whitespace around every token.
pub open spec fn spec_dictitem(s: Seq<char>, p: int) -> SRes<SpecDictItem>
    decreases s.len() - p, 41int,
{
    let q0 = run_end(s, CharClass::AnyWs, p);
    or_else(
        if tok_at(s, q0, Tok::DoubleStar) {
            let q1 = run_end(s, CharClass::AnyWs, q0 + 2);
            match within(spec_bop(s, true, Level::Expr, q1), q1, s.len() as int) {
                Ok((e, q2)) => Ok((SpecDictItem::Star(e), run_end(s, CharClass::AnyWs, q2))),
                Err(e) => Err(e),
            }
        } else {
            Err(SpecError::Error)
        },
        match within(spec_test(s, true, q0), q0, s.len() as int) {
            Ok((k, q1)) => {
                let q2 = run_end(s, CharClass::AnyWs, q1);
                if char_at(s, q2, ':') {
                    let q3 = run_end(s, CharClass::AnyWs, q2 + 1);
                    match within(spec_test(s, true, q3), q3, s.len() as int) {
                        Ok((v, q4)) => Ok(
                            (SpecDictItem::Unique(k, v), run_end(s, CharClass::AnyWs, q4)),
                        ),
                        Err(e) => Err(e),
                    }
                } else {
                    Err(SpecError::Error)
                }
            },
            Err(e) => Err(e),
        },
    )
}

/// `'*' expr | test`, any whitespace around every token.
pub open spec fn spec_setitem(s: Seq<char>, p: int) -> SRes<SpecSetItem>
    decreases s.len() - p, 41int,
{
    let q0 = run_end(s, CharClass::AnyWs, p);
    or_else(
        if char_at(s, q0, '*') {
            let q1 = run_end(s, CharClass::AnyWs, q0 + 1);
            match within(spec_bop(s, true, Level::Expr, q1), q1, s.len() as int) {
                Ok((e, q2)) => Ok((SpecSetItem::Star(e), run_end(s, CharClass::AnyWs, q2))),
                Err(e) => Err(e),
            }
        } else {
            Err(SpecError::Error)
        },
        match within(spec_test(s, true, q0), q0, s.len() as int) {
            Ok((e, q1)) => Ok((SpecSetItem::Unique(e), run_end(s, CharClass::AnyWs, q1))),
            Err(e) => Err(e),
        },
    )
}

/// `arglist: argument (',' argument)*`, sorted by `build_arglist`.
pub open spec fn spec_arglist(s: Seq<char>, nl: bool, p: int) -> SRes<SpecArglist>
    decreases s.len() - p, 44int,
{
    match within(spec_args(s, nl, p), p, s.len() as int) {
        Ok((args, q)) => spec_build_arglist(args, q),
        Err(e) => Err(e),
    }
}

/// Raw arguments separated by commas (any whitespace around them), possibly none.
pub open spec fn spec_args(s: Seq<char>, nl: bool, p: int) -> SRes<Seq<SpecRawArgument>>
    decreases s.len() - p, 43int,
{
    match within(spec_argument(s, nl, p), p, s.len() as int) {
        Ok((x, q)) => spec_args_rest(s, nl, q, seq![x]),
        Err(SpecError::Error) => Ok((Seq::empty(), p)),
        Err(e) => Err(e),
    }
}

pub open spec fn spec_args_rest(s: Seq<char>, nl: bool, q: int, acc: Seq<SpecRawArgument>) -> SRes<
    Seq<SpecRawArgument>,
>
    decreases s.len() - q, 1int,
{
    match comma_after(s, Some(CharClass::AnyWs), q) {
        Some(j) => match within(spec_argument(s, nl, j), j, s.len() as int) {
            Ok((x, r)) => spec_args_rest(s, nl, r, acc.push(x)),
            Err(SpecError::Error) => Ok((acc, q)),
            Err(e) => Err(e),
        },
        None => Ok((acc, q)),
    }
}

/// `argument: '**' test | '*' test | test '=' test | test comp_for | test`
pub open spec fn spec_argument(s: Seq<char>, nl: bool, p: int) -> SRes<SpecRawArgument>
    decreases s.len() - p, 42int,
{
    or_else(
        spec_kwargs_argument(s, nl, p),
        or_else(spec_star_argument(s, nl, p), spec_plain_argument(s, nl, p)),
    )
}

/// `'**' test`
pub open spec fn spec_kwargs_argument(s: Seq<char>, nl: bool, p: int) -> SRes<SpecRawArgument>
    decreases s.len() - p, 1int,
{
    if tok_at(s, p, Tok::DoubleStar) {
        match within(spec_test(s, nl, p + 2), p + 2, s.len() as int) {
            Ok((e, q)) => Ok((SpecRawArgument::Kwargs(e), q)),
            Err(e) => Err(e),
        }
    } else {
        Err(SpecError::Error)
    }
}

/// `'*' test`
pub open spec fn spec_star_argument(s: Seq<char>, nl: bool, p: int) -> SRes<SpecRawArgument>
    decreases s.len() - p, 1int,
{
    if char_at(s, p, '*') {
        match within(spec_test(s, nl, p + 1), p + 1, s.len() as int) {
            Ok((e, q)) => Ok((SpecRawArgument::Starargs(e), q)),
            Err(e) => Err(e),
        }
    } else {
        Err(SpecError::Error)
    }
}

/// `test '=' test | test comp_for | test`
pub open spec fn spec_plain_argument(s: Seq<char>, nl: bool, p: int) -> SRes<SpecRawArgument>
    decreases s.len() - p, 41int,
{
    match within(spec_test(s, nl, p), p, s.len() as int) {
        Ok((t1, q)) => spec_argument_after(s, nl, q, t1),
        Err(e) => Err(e),
    }
}

/// What follows the first `test` of an argument, at `q`: `= test`, or a
/// comprehension that makes the argument a generator, or nothing.
pub open spec fn spec_argument_after(s: Seq<char>, nl: bool, q: int, t1: SpecExpression) -> SRes<
    SpecRawArgument,
>
    decreases s.len() - q, 3int,
{
    match spec_keyword_value(s, nl, q) {
        Ok((t2, r)) => Ok((SpecRawArgument::Keyword(t1, t2), r)),
        Err(SpecError::Error) => spec_generator_argument(s, nl, q, t1),
        Err(e) => Err(e),
    }
}

/// A comprehension after the `test` of an argument makes the argument a
/// generator; without one the argument is that `test` alone.
pub open spec fn spec_generator_argument(s: Seq<char>, nl: bool, q: int, t1: SpecExpression) -> SRes<
    SpecRawArgument,
>
    decreases s.len() - q, 2int,
{
    match within(spec_comp_for(s, nl, q), q, s.len() as int) {
        Ok((c, r)) => Ok(
            (
                SpecRawArgument::Positional(
                    SpecExpression::Generator(Box::new(SpecSetItem::Unique(t1)), c),
                ),
                r,
            ),
        ),
        Err(SpecError::Error) => Ok((SpecRawArgument::Positional(t1), q)),
        Err(e) => Err(e),
    }
}

/// `'=' test`
pub open spec fn spec_keyword_value(s: Seq<char>, nl: bool, q: int) -> SRes<SpecExpression>
    decreases s.len() - q, 1int,
{
    if char_at(s, q, '=') {
        spec_test(s, nl, q + 1)
    } else {
        Err(SpecError::Error)
    }
}

/// `comp_for: ['async'] 'for' exprlist 'in' or_test [comp_iter]`, the words
/// separated by blanks. The result is this clause and all that follow it.
pub open spec fn spec_comp_for(s: Seq<char>, nl: bool, p: int) -> SRes<Seq<SpecChunk>>
    decreases s.len() - p, 1int,
{
    let is_async = tok_at(s, p, Tok::KwAsync) && sep_end(s, blank(nl), p + 5) is Some;
    let q0 = if is_async {
        sep_end(s, blank(nl), p + 5)->0
    } else {
        p
    };
    if tok_at(s, q0, Tok::KwFor) && sep_end(s, blank(nl), q0 + 3) is Some {
        let q1 = sep_end(s, blank(nl), q0 + 3)->0;
        match within(spec_elist(s, nl, true, q1), q1, s.len() as int) {
            Ok((item, q2)) => if sep_end(s, blank(nl), q2) is Some && tok_at(
                s,
                sep_end(s, blank(nl), q2)->0,
                Tok::KwIn,
            ) && sep_end(s, blank(nl), sep_end(s, blank(nl), q2)->0 + 2) is Some {
                let q4 = sep_end(s, blank(nl), sep_end(s, blank(nl), q2)->0 + 2)->0;
                match within(spec_bop(s, nl, Level::Or, q4), q4, s.len() as int) {
                    Ok((iterator, q5)) => match within(
                        spec_opt_comp_iter(s, nl, q5),
                        q5,
                        s.len() as int,
                    ) {
                        Ok((rest, q6)) => Ok(
                            (seq![SpecChunk::For { is_async, item, iterator }] + rest, q6),
                        ),
                        Err(e) => Err(e),
                    },
                    Err(e) => Err(e),
                }
            } else {
                Err(SpecError::Error)
            },
            Err(e) => Err(e),
        }
    } else {
        Err(SpecError::Error)
    }
}

/// `comp_if: 'if' test_nocond [comp_iter]`, with a blank after the `if` and
/// after the condition.
pub open spec fn spec_comp_if(s: Seq<char>, nl: bool, p: int) -> SRes<Seq<SpecChunk>>
    decreases s.len() - p, 1int,
{
    if tok_at(s, p, Tok::KwIf) && sep_end(s, blank(nl), p + 2) is Some {
        let q1 = sep_end(s, blank(nl), p + 2)->0;
        match within(spec_test_nocond(s, nl, q1), q1, s.len() as int) {
            Ok((cond, q2)) => match sep_end(s, blank(nl), q2) {
                Some(q3) => match within(spec_opt_comp_iter(s, nl, q3), q3, s.len() as int) {
                    Ok((rest, q4)) => Ok((seq![SpecChunk::If { cond }] + rest, q4)),
                    Err(e) => Err(e),
                },
                None => Err(SpecError::Error),
            },
            Err(e) => Err(e),
        }
    } else {
        Err(SpecError::Error)
    }
}

/// `[comp_iter]` with `comp_iter: comp_for | comp_if`
pub open spec fn spec_opt_comp_iter(s: Seq<char>, nl: bool, q: int) -> SRes<Seq<SpecChunk>>
    decreases s.len() - q, 2int,
{
    match or_else(spec_comp_for(s, nl, q), spec_comp_if(s, nl, q)) {
        Err(SpecError::Error) => Ok((Seq::empty(), q)),
        r => r,
    }
}

/// `yield_expr: 'yield' ('from' test | testlist)`, blanks after the words.
pub open spec fn spec_yield_expr(s: Seq<char>, nl: bool, p: int) -> SRes<SpecExpression>
    decreases s.len() - p, 1int,
{
    if tok_at(s, p, Tok::KwYield) && sep_end(s, blank(nl), p + 5) is Some {
        let q1 = sep_end(s, blank(nl), p + 5)->0;
        or_else(
            spec_yield_from(s, nl, q1),
            match within(spec_elist(s, nl, false, q1), q1, s.len() as int) {
                Ok((v, r)) => Ok((SpecExpression::Yield(v), r)),
                Err(e) => Err(e),
            },
        )
    } else {
        Err(SpecError::Error)
    }
}

/// `'from' test`, after `yield` and its blanks.
pub open spec fn spec_yield_from(s: Seq<char>, nl: bool, q1: int) -> SRes<SpecExpression>
    decreases s.len() - q1, 1int,
{
    if tok_at(s, q1, Tok::KwFrom) && sep_end(s, blank(nl), q1 + 4) is Some {
        let q2 = sep_end(s, blank(nl), q1 + 4)->0;
        match within(spec_test(s, nl, q2), q2, s.len() as int) {
            Ok((e, r)) => Ok((SpecExpression::YieldFrom(Box::new(e)), r)),
            Err(e) => Err(e),
        }
    } else {
        Err(SpecError::Error)
    }
}

} // verus!
