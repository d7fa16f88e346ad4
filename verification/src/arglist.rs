//! Sorting the raw arguments of a call into positional and keyword
//! arguments, and refusing lists in which they are out of order.
use vstd::prelude::*;

use crate::ast::{
    lemma_model_kw_args_push, lemma_model_pos_args_push, model_expr, model_kw_args, model_pos_args,
    Arglist, Argument, Expression, Name, SpecArglist, SpecArgument, SpecExpression,
};
use crate::result::{lift, ArgumentError, PResult, ParseError, SRes, SpecError};

verus! {

/// One argument of a call, as written.
#[derive(Debug, PartialEq)]
pub enum RawArgument {
    /// `e`
    Positional(Expression),
    /// `k=e`
    Keyword(Expression, Expression),
    /// `*e`
    Starargs(Expression),
    /// `**e`
    Kwargs(Expression),
}

pub enum SpecRawArgument {
    Positional(SpecExpression),
    Keyword(SpecExpression, SpecExpression),
    Starargs(SpecExpression),
    Kwargs(SpecExpression),
}

pub open spec fn model_raw_arg(a: RawArgument) -> SpecRawArgument {
    match a {
        RawArgument::Positional(e) => SpecRawArgument::Positional(model_expr(e)),
        RawArgument::Keyword(k, e) => SpecRawArgument::Keyword(model_expr(k), model_expr(e)),
        RawArgument::Starargs(e) => SpecRawArgument::Starargs(model_expr(e)),
        RawArgument::Kwargs(e) => SpecRawArgument::Kwargs(model_expr(e)),
    }
}

pub open spec fn model_raw_args(v: Seq<RawArgument>) -> Seq<SpecRawArgument> {
    Seq::new(v.len(), |i: int| model_raw_arg(v[i]))
}

/// `e` and `*e` are positional; `k=e` and `**e` are keyword arguments.
pub open spec fn is_positional_kind(a: SpecRawArgument) -> bool {
    a is Positional || a is Starargs
}

/// The index of the first keyword argument at or after `i` (the length if none).
pub open spec fn first_keyword(args: Seq<SpecRawArgument>, i: int) -> int
    decreases args.len() - i,
{
    if 0 <= i < args.len() && is_positional_kind(args[i]) {
        first_keyword(args, i + 1)
    } else {
        i
    }
}

/// What is wrong with an argument that stands among the keyword arguments.
pub open spec fn misplaced(a: SpecRawArgument) -> Option<ArgumentError> {
    match a {
        SpecRawArgument::Keyword(SpecExpression::Name(_), _) => None,
        SpecRawArgument::Keyword(_, _) => Some(ArgumentError::KeywordExpression),
        SpecRawArgument::Kwargs(_) => None,
        SpecRawArgument::Positional(_) => Some(ArgumentError::PositionalAfterKeyword),
        SpecRawArgument::Starargs(_) => Some(ArgumentError::StarargsAfterKeyword),
    }
}

/// The first thing wrong among the arguments from `i` on.
pub open spec fn keyword_error(args: Seq<SpecRawArgument>, i: int) -> Option<ArgumentError>
    decreases args.len() - i,
{
    if 0 <= i < args.len() {
        match misplaced(args[i]) {
            Some(e) => Some(e),
            None => keyword_error(args, i + 1),
        }
    } else {
        None
    }
}

pub open spec fn positional_arg(a: SpecRawArgument) -> SpecArgument<SpecExpression> {
    match a {
        SpecRawArgument::Starargs(e) => SpecArgument::Star(e),
        SpecRawArgument::Positional(e) => SpecArgument::Normal(e),
        SpecRawArgument::Keyword(_, e) => SpecArgument::Normal(e),
        SpecRawArgument::Kwargs(e) => SpecArgument::Star(e),
    }
}

pub open spec fn keyword_arg(a: SpecRawArgument) -> SpecArgument<(Seq<char>, SpecExpression)> {
    match a {
        SpecRawArgument::Keyword(SpecExpression::Name(n), e) => SpecArgument::Normal((n, e)),
        SpecRawArgument::Keyword(_, e) => SpecArgument::Star(e),
        SpecRawArgument::Kwargs(e) => SpecArgument::Star(e),
        SpecRawArgument::Positional(e) => SpecArgument::Star(e),
        SpecRawArgument::Starargs(e) => SpecArgument::Star(e),
    }
}

/// The arguments up to the first keyword argument are the positional ones;
/// the rest must be `name=e` or `**e`, else the list is refused with the
/// first misplaced argument's error, at position `pos`.
pub open spec fn spec_build_arglist(args: Seq<SpecRawArgument>, pos: int) -> SRes<SpecArglist> {
    let k = first_keyword(args, 0);
    match keyword_error(args, k) {
        Some(e) => Err(SpecError::Failure(pos, e)),
        None => Ok(
            (
                SpecArglist {
                    positional_args: Seq::new(k as nat, |i: int| positional_arg(args[i])),
                    keyword_args: Seq::new(
                        (args.len() - k) as nat,
                        |i: int| keyword_arg(args[k + i]),
                    ),
                },
                pos,
            ),
        ),
    }
}

pub proof fn lemma_first_keyword(args: Seq<SpecRawArgument>, i: int)
    requires
        0 <= i <= args.len(),
    ensures
        i <= first_keyword(args, i) <= args.len(),
        forall|j: int| i <= j < first_keyword(args, i) ==> is_positional_kind(#[trigger] args[j]),
        first_keyword(args, i) < args.len() ==> !is_positional_kind(args[first_keyword(args, i)]),
    decreases args.len() - i,
{
    if i < args.len() && is_positional_kind(args[i]) {
        lemma_first_keyword(args, i + 1);
    }
}

pub proof fn lemma_keyword_error(args: Seq<SpecRawArgument>, i: int)
    requires
        0 <= i <= args.len(),
    ensures
        keyword_error(args, i) is None <==> forall|j: int|
            i <= j < args.len() ==> misplaced(#[trigger] args[j]) is None,
        keyword_error(args, i) matches Some(e) ==> exists|j: int|
            i <= j < args.len() && misplaced(#[trigger] args[j]) == Some(e) && forall|l: int|
                i <= l < j ==> misplaced(#[trigger] args[l]) is None,
    decreases args.len() - i,
{
    if i < args.len() {
        lemma_keyword_error(args, i + 1);
        if misplaced(args[i]) is None {
            if let Some(e) = keyword_error(args, i) {
                let j = choose|j: int|
                    i + 1 <= j < args.len() && misplaced(#[trigger] args[j]) == Some(e) && forall|
                        l: int,
                    | i + 1 <= l < j ==> misplaced(#[trigger] args[l]) is None;
                assert(forall|l: int| i <= l < j ==> misplaced(#[trigger] args[l]) is None);
            }
        }
    }
}

fn is_positional(a: &RawArgument) -> (r: bool)
    ensures
        r == is_positional_kind(model_raw_arg(*a)),
{
    match a {
        RawArgument::Positional(_) => true,
        RawArgument::Starargs(_) => true,
        _ => false,
    }
}

/// Sorts raw arguments into an argument list, or refuses them; `input` is
/// the position at which the arguments end, and is handed back.
pub fn build_arglist(input: usize, raw: Vec<RawArgument>) -> (r: PResult<Arglist>)
    ensures
        lift(r, |a: Arglist| a@) == spec_build_arglist(model_raw_args(raw@), input as int),
        r matches Ok((q, _)) ==> q == input,
{
    let ghost orig = raw@;
    let ghost m = model_raw_args(raw@);
    let ghost n = raw@.len() as int;
    let ghost k = first_keyword(m, 0);
    let mut args = raw;
    let mut positional_args: Vec<Argument<Expression>> = Vec::new();
    let mut keyword_args: Vec<Argument<(Name, Expression)>> = Vec::new();
    let ghost mut i: int = 0;
    proof {
        lemma_first_keyword(m, 0);
        assert(orig.subrange(0, n) =~= orig);
        assert(model_pos_args(positional_args@) =~= Seq::new(0, |j: int| positional_arg(m[j])));
    }
    while args.len() > 0 && is_positional(&args[0])
        invariant
            n == orig.len(),
            orig == raw@,
            m == model_raw_args(orig),
            k == first_keyword(m, 0),
            0 <= i <= n,
            args@ == orig.subrange(i, n),
            first_keyword(m, 0) == first_keyword(m, i),
            model_pos_args(positional_args@) == Seq::new(i as nat, |j: int| positional_arg(m[j])),
            keyword_args@.len() == 0,
        decreases args@.len(),
    {
        let x = args.remove(0);
        let ghost px = positional_args@;
        proof {
            assert(orig[i] == x);
            assert(m[i] == model_raw_arg(x));
        }
        match x {
            RawArgument::Positional(e) => {
                proof {
                    lemma_model_pos_args_push(px, Argument::Normal(e));
                }
                positional_args.push(Argument::Normal(e));
            },
            RawArgument::Starargs(e) => {
                proof {
                    lemma_model_pos_args_push(px, Argument::Star(e));
                }
                positional_args.push(Argument::Star(e));
            },
            _ => {
                proof {
                    assert(false);
                }
            },
        }
        proof {
            assert(is_positional_kind(m[i]));
            assert(args@ =~= orig.subrange(i + 1, n));
            assert(model_pos_args(positional_args@) =~= Seq::new(
                (i + 1) as nat,
                |j: int| positional_arg(m[j]),
            ));
            i = i + 1;
        }
    }
    proof {
        if i < n {
            assert(args@[0] == orig[i]);
            assert(!is_positional_kind(m[i]));
        }
        assert(i == k);
        assert(model_kw_args(keyword_args@) =~= Seq::new(
            0,
            |j: int| keyword_arg(m[k + j]),
        ));
    }
    while args.len() > 0
        invariant
            n == orig.len(),
            orig == raw@,
            m == model_raw_args(orig),
            k == first_keyword(m, 0),
            0 <= k <= i <= n,
            args@ == orig.subrange(i, n),
            keyword_error(m, k) == keyword_error(m, i),
            model_pos_args(positional_args@) == Seq::new(k as nat, |j: int| positional_arg(m[j])),
            model_kw_args(keyword_args@) == Seq::new(
                (i - k) as nat,
                |j: int| keyword_arg(m[k + j]),
            ),
        decreases args@.len(),
    {
        let x = args.remove(0);
        let ghost kx = keyword_args@;
        proof {
            assert(orig[i] == x);
            assert(m[i] == model_raw_arg(x));
        }
        match x {
            RawArgument::Keyword(Expression::Name(name), e) => {
                proof {
                    lemma_model_kw_args_push(kx, Argument::Normal((name, e)));
                }
                keyword_args.push(Argument::Normal((name, e)));
            },
            RawArgument::Keyword(_, _) => {
                return Err(ParseError::Failure(input, ArgumentError::KeywordExpression));
            },
            RawArgument::Kwargs(e) => {
                proof {
                    lemma_model_kw_args_push(kx, Argument::Star(e));
                }
                keyword_args.push(Argument::Star(e));
            },
            RawArgument::Positional(_) => {
                return Err(ParseError::Failure(input, ArgumentError::PositionalAfterKeyword));
            },
            RawArgument::Starargs(_) => {
                return Err(ParseError::Failure(input, ArgumentError::StarargsAfterKeyword));
            },
        }
        proof {
            assert(args@ =~= orig.subrange(i + 1, n));
            assert(model_kw_args(keyword_args@) =~= Seq::new(
                (i + 1 - k) as nat,
                |j: int| keyword_arg(m[k + j]),
            ));
            i = i + 1;
        }
    }
    let r = Arglist { positional_args, keyword_args };
    proof {
        assert(i == n);
        assert(model_kw_args(r.keyword_args@) =~= Seq::new(
            (n - k) as nat,
            |j: int| keyword_arg(m[k + j]),
        ));
    }
    Ok((input, r))
}

} // verus!
