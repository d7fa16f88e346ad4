//! Properties of the grammar as a whole: how operators group, when an
//! argument list is accepted, and where newlines count as blanks.
use vstd::prelude::*;

use crate::ast::{Bop, SpecDictItem, SpecExpression, SpecSetItem, Uop};
use crate::grammar::{
    comp_ahead, spec_comp_for, spec_dictitems, spec_setitems,
    level_rank, spec_atom, spec_atom_braces, spec_atom_brackets, spec_atom_expr,
    spec_atom_parens, spec_bop, spec_bop_rest, spec_dictmaker, spec_dictorsetmaker,
    spec_factor, spec_not_test, spec_op_at, spec_operand, spec_power, spec_setmaker,
    spec_testlist_comp, spec_trailer, spec_trailers, spec_yield_expr, Level,
};
use crate::arglist::{
    first_keyword, is_positional_kind, keyword_arg, keyword_error, lemma_first_keyword,
    lemma_keyword_error, misplaced, positional_arg, spec_build_arglist, SpecRawArgument,
};
use crate::lexer::{char_at, spec_str_body, spec_str_lit, word_at};
use crate::result::{SRes, SpecError};

verus! {

/// How loosely the operator `op` binds: the rank of its level. `**` binds
/// tighter than every level of binary operators.
pub open spec fn op_rank(op: Bop) -> int {
    match op {
        Bop::Or => 30,
        Bop::And => 28,
        Bop::Lt | Bop::Gt | Bop::Eq | Bop::Leq | Bop::Geq | Bop::Neq | Bop::In | Bop::NotIn
        | Bop::Is | Bop::IsNot => 24,
        Bop::BitOr => 22,
        Bop::BitXor => 20,
        Bop::BitAnd => 18,
        Bop::Lshift | Bop::Rshift => 16,
        Bop::Add | Bop::Sub => 14,
        Bop::Mult | Bop::Matmult | Bop::Mod | Bop::Floordiv | Bop::Div => 12,
        Bop::Power => 8,
    }
}

/// How loosely the top of `e` binds: the rank of its operator; `0` for an
/// expression with none.
pub open spec fn binding(e: SpecExpression) -> int {
    match e {
        SpecExpression::Ternary(_, _, _) => 40,
        SpecExpression::Lambdef(_, _) => 40,
        SpecExpression::Bop(op, _, _) => op_rank(op),
        SpecExpression::Uop(Uop::Not, _) => 26,
        SpecExpression::Uop(_, _) => 10,
        _ => 0,
    }
}

/// `e` is a chain of operators of level `l` grouped to the left: each
/// operator of the level has the chain before it as its left operand, and
/// a right operand that binds tighter than the level.
pub open spec fn grouped_left(e: SpecExpression, l: Level) -> bool
    decreases e,
{
    match e {
        SpecExpression::Bop(op, a, b) => if op_rank(op) == level_rank(l) {
            grouped_left(*a, l) && binding(*b) < level_rank(l)
        } else {
            binding(e) < level_rank(l)
        },
        _ => binding(e) < level_rank(l),
    }
}

/// The value of a successful parse.
pub open spec fn value_of<V>(r: SRes<V>) -> V
    recommends
        r is Ok,
{
    match r {
        Ok((v, _)) => v,
        Err(_) => arbitrary(),
    }
}

/// The position after a successful parse.
pub open spec fn end_of<V>(r: SRes<V>) -> int
    recommends
        r is Ok,
{
    match r {
        Ok((_, q)) => q,
        Err(_) => 0,
    }
}

proof fn lemma_grouped_binding(e: SpecExpression, l: Level)
    requires
        grouped_left(e, l),
    ensures
        binding(e) <= level_rank(l),
{
}

proof fn lemma_op_at_rank(s: Seq<char>, nl: bool, l: Level, p: int)
    requires
        spec_op_at(s, nl, l, p) is Some,
    ensures
        spec_op_at(s, nl, l, p) matches Some((op, _)) && op_rank(op) == level_rank(l),
{
}

proof fn lemma_testlist_comp_shape(s: Seq<char>, nl: bool, p: int)
    requires
        spec_testlist_comp(s, nl, p) is Ok,
    ensures
        value_of(spec_testlist_comp(s, nl, p)) is ListComp || value_of(
            spec_testlist_comp(s, nl, p),
        ) is ListLiteral,
{
    match spec_testlist_comp(s, nl, p) {
        Ok(_) => {},
        Err(_) => {},
    }
}

proof fn lemma_yield_shape(s: Seq<char>, nl: bool, p: int)
    requires
        spec_yield_expr(s, nl, p) is Ok,
    ensures
        binding(value_of(spec_yield_expr(s, nl, p))) == 0,
{
}

#[verifier::rlimit(40)]
proof fn lemma_dictorsetmaker_shape(s: Seq<char>, p: int)
    requires
        spec_dictorsetmaker(s, p) is Ok,
    ensures
        binding(value_of(spec_dictorsetmaker(s, p))) == 0,
{
    assert forall|q: int, f| #[trigger] spec_dictmaker(s, q, f) is Ok implies binding(
        value_of(spec_dictmaker(s, q, f)),
    ) == 0 by {}
    assert forall|q: int, f| #[trigger] spec_setmaker(s, q, f) is Ok implies binding(
        value_of(spec_setmaker(s, q, f)),
    ) == 0 by {}
}

#[verifier::rlimit(40)]
proof fn lemma_braces_binding(s: Seq<char>, nl: bool, p: int)
    requires
        spec_atom_braces(s, nl, p) is Ok,
    ensures
        binding(value_of(spec_atom_braces(s, nl, p))) == 0,
{
    assert forall|q: int| #[trigger] spec_dictorsetmaker(s, q) is Ok implies binding(
        value_of(spec_dictorsetmaker(s, q)),
    ) == 0 by {
        lemma_dictorsetmaker_shape(s, q);
    }
}

#[verifier::rlimit(40)]
proof fn lemma_parens_binding(s: Seq<char>, nl: bool, p: int)
    requires
        spec_atom_parens(s, nl, p) is Ok,
    ensures
        binding(value_of(spec_atom_parens(s, nl, p))) == 0,
{
    assert forall|q: int| #[trigger] spec_testlist_comp(s, true, q) is Ok implies (value_of(
        spec_testlist_comp(s, true, q),
    ) is ListComp || value_of(spec_testlist_comp(s, true, q)) is ListLiteral) by {
        lemma_testlist_comp_shape(s, true, q);
    }
    assert forall|q: int| #[trigger] spec_yield_expr(s, true, q) is Ok implies binding(
        value_of(spec_yield_expr(s, true, q)),
    ) == 0 by {
        lemma_yield_shape(s, true, q);
    }
}

#[verifier::rlimit(40)]
proof fn lemma_brackets_binding(s: Seq<char>, nl: bool, p: int)
    requires
        spec_atom_brackets(s, nl, p) is Ok,
    ensures
        binding(value_of(spec_atom_brackets(s, nl, p))) == 0,
{
    assert forall|q: int| #[trigger] spec_testlist_comp(s, true, q) is Ok implies (value_of(
        spec_testlist_comp(s, true, q),
    ) is ListComp || value_of(spec_testlist_comp(s, true, q)) is ListLiteral) by {
        lemma_testlist_comp_shape(s, true, q);
    }
}

/// An atom has no operator at its top.
#[verifier::rlimit(40)]
proof fn lemma_atom_binding(s: Seq<char>, nl: bool, p: int)
    requires
        spec_atom(s, nl, p) is Ok,
    ensures
        binding(value_of(spec_atom(s, nl, p))) == 0,
{
    if spec_atom_braces(s, nl, p) is Ok {
        lemma_braces_binding(s, nl, p);
    }
    if spec_atom_parens(s, nl, p) is Ok {
        lemma_parens_binding(s, nl, p);
    }
    if spec_atom_brackets(s, nl, p) is Ok {
        lemma_brackets_binding(s, nl, p);
    }
}

proof fn lemma_trailers_binding(s: Seq<char>, nl: bool, q: int, acc: SpecExpression)
    requires
        binding(acc) == 0,
        spec_trailers(s, nl, q, acc) is Ok,
    ensures
        binding(value_of(spec_trailers(s, nl, q, acc))) == 0,
    decreases s.len() - q,
{
    match crate::grammar::spec_trailer(s, nl, q) {
        Ok((t, q2)) => {
            if q < q2 <= s.len() {
                lemma_trailers_binding(s, nl, q2, crate::grammar::spec_apply_trailer(acc, t));
            }
        },
        Err(_) => {},
    }
}

/// An `atom_expr` has no operator at its top.
proof fn lemma_atom_expr_binding(s: Seq<char>, nl: bool, p: int)
    requires
        spec_atom_expr(s, nl, p) is Ok,
    ensures
        binding(value_of(spec_atom_expr(s, nl, p))) == 0,
{
    if spec_atom(s, nl, p) is Ok {
        lemma_atom_binding(s, nl, p);
        let q = end_of(spec_atom(s, nl, p));
        if p <= q <= s.len() {
            lemma_trailers_binding(s, nl, q, value_of(spec_atom(s, nl, p)));
        }
    }
}

/// A `factor` binds at least as tightly as a unary sign.
proof fn lemma_factor_binding(s: Seq<char>, nl: bool, p: int)
    requires
        spec_factor(s, nl, p) is Ok,
    ensures
        binding(value_of(spec_factor(s, nl, p))) <= 10,
{
    if spec_power(s, nl, p) is Ok {
        lemma_power_binding(s, nl, p);
    }
}

/// A `power` binds at least as tightly as `**`.
pub(crate) proof fn lemma_power_binding(s: Seq<char>, nl: bool, p: int)
    requires
        spec_power(s, nl, p) is Ok,
    ensures
        binding(value_of(spec_power(s, nl, p))) <= 8,
{
    lemma_atom_expr_binding(s, nl, p);
}

/// The operands of level `l` bind tighter than the operators of `l`.
proof fn lemma_operand_binding(s: Seq<char>, nl: bool, l: Level, p: int)
    requires
        spec_operand(s, nl, l, p) is Ok,
    ensures
        binding(value_of(spec_operand(s, nl, l, p))) < level_rank(l),
    decreases level_rank(l), 1int,
{
    match l {
        Level::Or => lemma_bop_grouped(s, nl, Level::And, p),
        Level::And => {
            if spec_bop(s, nl, Level::Comparison, p) is Ok {
                lemma_bop_grouped(s, nl, Level::Comparison, p);
            }
            if spec_bop(s, nl, Level::Comparison, p + 4) is Ok {
                lemma_bop_grouped(s, nl, Level::Comparison, p + 4);
            }
            assert(spec_not_test(s, nl, p) is Ok);
        },
        Level::Comparison => lemma_bop_grouped(s, nl, Level::Expr, p),
        Level::Expr => lemma_bop_grouped(s, nl, Level::Xor, p),
        Level::Xor => lemma_bop_grouped(s, nl, Level::BitAnd, p),
        Level::BitAnd => lemma_bop_grouped(s, nl, Level::Shift, p),
        Level::Shift => lemma_bop_grouped(s, nl, Level::Arith, p),
        Level::Arith => lemma_bop_grouped(s, nl, Level::Term, p),
        Level::Term => lemma_factor_binding(s, nl, p),
    }
    let l2 = match l {
        Level::Or => Level::And,
        Level::Comparison => Level::Expr,
        Level::Expr => Level::Xor,
        Level::Xor => Level::BitAnd,
        Level::BitAnd => Level::Shift,
        Level::Shift => Level::Arith,
        Level::Arith => Level::Term,
        _ => l,
    };
    if l2 != l {
        lemma_grouped_binding(value_of(spec_bop(s, nl, l2, p)), l2);
    }
}

proof fn lemma_bop_rest_grouped(s: Seq<char>, nl: bool, l: Level, q: int, acc: SpecExpression)
    requires
        grouped_left(acc, l),
        forall|x: int| #[trigger]
            spec_operand(s, nl, l, x) is Ok ==> binding(value_of(spec_operand(s, nl, l, x)))
                < level_rank(l),
        spec_bop_rest(s, nl, l, q, acc) is Ok,
    ensures
        grouped_left(value_of(spec_bop_rest(s, nl, l, q, acc)), l),
    decreases s.len() - q,
{
    let q1 = crate::lexer::run_end(s, crate::lexer::blank(nl), q);
    match spec_op_at(s, nl, l, q1) {
        Some((op, q2)) => {
            if q1 < q2 <= s.len() {
                lemma_op_at_rank(s, nl, l, q1);
                let q3 = crate::lexer::run_end(s, crate::lexer::blank(nl), q2);
                match spec_operand(s, nl, l, q3) {
                    Ok((rhs, q4)) => {
                        if q3 <= q4 <= s.len() {
                            let next = SpecExpression::Bop(op, Box::new(acc), Box::new(rhs));
                            assert(grouped_left(next, l));
                            lemma_bop_rest_grouped(s, nl, l, q4, next);
                        }
                    },
                    Err(_) => {},
                }
            }
        },
        None => {},
    }
}

proof fn lemma_bop_grouped(s: Seq<char>, nl: bool, l: Level, p: int)
    requires
        spec_bop(s, nl, l, p) is Ok,
    ensures
        grouped_left(value_of(spec_bop(s, nl, l, p)), l),
    decreases level_rank(l), 2int,
{
    lemma_operand_binding(s, nl, l, p);
    let first = value_of(spec_operand(s, nl, l, p));
    let q = end_of(spec_operand(s, nl, l, p));
    assert forall|x: int| #[trigger]
        spec_operand(s, nl, l, x) is Ok implies binding(value_of(spec_operand(s, nl, l, x)))
        < level_rank(l) by {
        lemma_operand_binding(s, nl, l, x);
    }
    if p <= q <= s.len() {
        lemma_bop_rest_grouped(s, nl, l, q, first);
    }
}

/// Binary operators group to the left within a level, and bind by level:
/// in what a level parses, every operator of that level has the chain
/// before it as its left operand, and as its right operand an expression
/// whose top binds tighter (`a - b - c` is `(a - b) - c`, `a + b * c` is
/// `a + (b * c)`, `a * b + c` is `(a * b) + c`).
pub proof fn law_binary_operators_group_left(s: Seq<char>, nl: bool, l: Level, p: int)
    requires
        spec_bop(s, nl, l, p) is Ok,
    ensures
        grouped_left(value_of(spec_bop(s, nl, l, p)), l),
{
    lemma_bop_grouped(s, nl, l, p);
}

/// No positional (`e`) or starred (`*e`) argument comes after a keyword
/// (`k=e`) or double-starred (`**e`) one.
pub open spec fn positional_first(args: Seq<SpecRawArgument>) -> bool {
    forall|i: int, j: int|
        0 <= i < j < args.len() && !is_positional_kind(#[trigger] args[i])
            ==> !is_positional_kind(#[trigger] args[j])
}

/// Every keyword argument `k=e` has a name as its `k`.
pub open spec fn keywords_are_names(args: Seq<SpecRawArgument>) -> bool {
    forall|j: int|
        0 <= j < args.len() && #[trigger] args[j] is Keyword ==> args[j]->Keyword_0 is Name
}

/// An argument list is accepted exactly when the positional and starred
/// arguments all come before the keyword and double-starred ones, and each
/// keyword is a name.
pub proof fn law_arglist_accepted_iff(args: Seq<SpecRawArgument>, pos: int)
    ensures
        spec_build_arglist(args, pos) is Ok <==> (positional_first(args) && keywords_are_names(
            args,
        )),
{
    let k = first_keyword(args, 0);
    lemma_first_keyword(args, 0);
    lemma_keyword_error(args, k);
    if spec_build_arglist(args, pos) is Ok {
        assert(keyword_error(args, k) is None);
        assert forall|i: int, j: int|
            0 <= i < j < args.len() && !is_positional_kind(#[trigger] args[i]) implies !is_positional_kind(
            #[trigger] args[j],
        ) by {
            assert(misplaced(args[j]) is None);
        }
        assert forall|j: int| 0 <= j < args.len() && #[trigger] args[j] is Keyword implies args[j]->Keyword_0 is Name by {
            assert(misplaced(args[j]) is None);
        }
    }
    if positional_first(args) && keywords_are_names(args) {
        assert forall|j: int| k <= j < args.len() implies misplaced(#[trigger] args[j]) is None by {
            assert(!is_positional_kind(args[k]));
            if j > k {
                assert(!is_positional_kind(args[j]));
            }
            if args[j] is Keyword {
                assert(args[j]->Keyword_0 is Name);
            }
        }
    }
}

/// An accepted argument list keeps every argument, in order: the positional
/// and starred ones first, then the keyword and double-starred ones; and it
/// ends where the arguments ended.
pub proof fn law_arglist_keeps_order(args: Seq<SpecRawArgument>, pos: int)
    requires
        spec_build_arglist(args, pos) is Ok,
    ensures
        ({
            let a = value_of(spec_build_arglist(args, pos));
            let n = a.positional_args.len();
            &&& end_of(spec_build_arglist(args, pos)) == pos
            &&& n + a.keyword_args.len() == args.len()
            &&& forall|i: int|
                0 <= i < n ==> is_positional_kind(args[i]) && #[trigger] a.positional_args[i]
                    == positional_arg(args[i])
            &&& forall|i: int|
                0 <= i < a.keyword_args.len() ==> !is_positional_kind(args[n + i])
                    && #[trigger] a.keyword_args[i] == keyword_arg(args[n + i])
        }),
{
    let k = first_keyword(args, 0);
    lemma_first_keyword(args, 0);
    lemma_keyword_error(args, k);
    assert forall|i: int| k <= i < args.len() implies !is_positional_kind(#[trigger] args[i]) by {
        assert(misplaced(args[i]) is None);
    }
}

/// A refused argument list is refused at the given position, for what is
/// wrong with the first misplaced argument after the positional ones (a
/// positional or starred argument there, or a keyword that is not a name).
pub proof fn law_arglist_refusal(args: Seq<SpecRawArgument>, pos: int)
    requires
        spec_build_arglist(args, pos) is Err,
    ensures
        spec_build_arglist(args, pos) matches Err(SpecError::Failure(p, e)) && p == pos && exists|
            j: int,
        |
            first_keyword(args, 0) <= j < args.len() && misplaced(#[trigger] args[j]) == Some(e)
                && forall|l: int|
                first_keyword(args, 0) <= l < j ==> misplaced(#[trigger] args[l]) is None,
{
    lemma_first_keyword(args, 0);
    lemma_keyword_error(args, first_keyword(args, 0));
}

/// Inside the parentheses of a call and the brackets of a subscript any
/// whitespace is a blank: what follows the opening bracket parses the same
/// whether or not newlines count as blanks around the call.
pub proof fn law_newlines_inside_trailer_brackets(s: Seq<char>, q: int)
    requires
        char_at(s, q, '(') || char_at(s, q, '['),
    ensures
        spec_trailer(s, false, q) == spec_trailer(s, true, q),
{
}

/// The characters that stand for the operator `op` where it starts (for
/// `not in`, its first word).
pub open spec fn op_text(op: Bop) -> Seq<char> {
    match op {
        Bop::Or => seq!['o', 'r'],
        Bop::And => seq!['a', 'n', 'd'],
        Bop::Lt => seq!['<'],
        Bop::Gt => seq!['>'],
        Bop::Eq => seq!['=', '='],
        Bop::Leq => seq!['<', '='],
        Bop::Geq => seq!['>', '='],
        Bop::Neq => seq!['!', '='],
        Bop::In => seq!['i', 'n'],
        Bop::NotIn => seq!['n', 'o', 't'],
        Bop::Is => seq!['i', 's'],
        Bop::IsNot => seq!['i', 's'],
        Bop::BitOr => seq!['|'],
        Bop::BitXor => seq!['^'],
        Bop::BitAnd => seq!['&'],
        Bop::Lshift => seq!['<', '<'],
        Bop::Rshift => seq!['>', '>'],
        Bop::Add => seq!['+'],
        Bop::Sub => seq!['-'],
        Bop::Mult => seq!['*'],
        Bop::Matmult => seq!['@'],
        Bop::Mod => seq!['%'],
        Bop::Floordiv => seq!['/', '/'],
        Bop::Div => seq!['/'],
        Bop::Power => seq!['*', '*'],
    }
}

/// An operator is read as the one written: where an operator of any level
/// is read at `p`, the input there spells that operator (`>` gives `Gt`,
/// `<` gives `Lt`, ...), and the reading ends after its characters.
pub proof fn law_operator_read_as_written(s: Seq<char>, nl: bool, l: Level, p: int)
    requires
        spec_op_at(s, nl, l, p) is Some,
    ensures
        spec_op_at(s, nl, l, p) matches Some((op, q)) && p + op_text(op).len() <= q <= s.len()
            && s.subrange(p, p + op_text(op).len()) == op_text(op),
{
    reveal(word_at);
    let (op, q) = spec_op_at(s, nl, l, p)->0;
    assert(s.subrange(p, p + op_text(op).len()) =~= op_text(op)) by {
        if op_text(op).len() == 2 || op_text(op).len() == 3 {
            assert(s.subrange(p, p + op_text(op).len()) =~= s.subrange(
                p,
                p + crate::lexer::tok_text(match op {
                    Bop::Or => crate::lexer::Tok::OrSp,
                    Bop::And => crate::lexer::Tok::AndSp,
                    Bop::Eq => crate::lexer::Tok::EqEq,
                    Bop::Leq => crate::lexer::Tok::Leq,
                    Bop::Geq => crate::lexer::Tok::Geq,
                    Bop::Neq => crate::lexer::Tok::Neq,
                    Bop::In => crate::lexer::Tok::KwIn,
                    Bop::NotIn => crate::lexer::Tok::KwNot,
                    Bop::Lshift => crate::lexer::Tok::Lshift,
                    Bop::Rshift => crate::lexer::Tok::Rshift,
                    Bop::Floordiv => crate::lexer::Tok::DoubleSlash,
                    _ => crate::lexer::Tok::KwIs,
                }).len(),
            ).subrange(0, op_text(op).len() as int));
        }
    }
}

/// The text of a string literal whose body starts at `i` of `b` is the
/// text of one whose body starts at `i - k` of `a`, where `a` and `b` agree
/// from there on; the end moves by `k`.
proof fn lemma_str_body_shift(a: Seq<char>, b: Seq<char>, quote: char, k: int, i: int, acc: Seq<char>)
    requires
        0 <= k,
        0 <= i <= a.len(),
        b.len() == a.len() + k,
        b.subrange(i + k, b.len() as int) == a.subrange(i, a.len() as int),
    ensures
        spec_str_body(b, quote, i + k, acc) == match spec_str_body(a, quote, i, acc) {
            Some((w, e)) => Some((w, e + k)),
            None => None,
        },
    decreases a.len() - i,
{
    if i < a.len() {
        assert(b[i + k] == b.subrange(i + k, b.len() as int)[0]);
        assert(a[i] == a.subrange(i, a.len() as int)[0]);
        if a[i] != quote {
            if a[i] == '\\' {
                if i + 1 < a.len() {
                    assert(b[i + k + 1] == b.subrange(i + k, b.len() as int)[1]);
                    assert(a[i + 1] == a.subrange(i, a.len() as int)[1]);
                    assert(b.subrange(i + 2 + k, b.len() as int) =~= a.subrange(
                        i + 2,
                        a.len() as int,
                    )) by {
                        assert(b.subrange(i + 2 + k, b.len() as int) =~= b.subrange(
                            i + k,
                            b.len() as int,
                        ).subrange(2, b.len() - i - k));
                        assert(a.subrange(i + 2, a.len() as int) =~= a.subrange(
                            i,
                            a.len() as int,
                        ).subrange(2, a.len() - i));
                    }
                    lemma_str_body_shift(a, b, quote, k, i + 2, acc.push(a[i + 1]));
                }
            } else {
                assert(b.subrange(i + 1 + k, b.len() as int) =~= a.subrange(
                    i + 1,
                    a.len() as int,
                )) by {
                    assert(b.subrange(i + 1 + k, b.len() as int) =~= b.subrange(
                        i + k,
                        b.len() as int,
                    ).subrange(1, b.len() - i - k));
                    assert(a.subrange(i + 1, a.len() as int) =~= a.subrange(
                        i,
                        a.len() as int,
                    ).subrange(1, a.len() - i));
                }
                lemma_str_body_shift(a, b, quote, k, i + 1, acc.push(a[i]));
            }
        }
    }
}

/// The characters read so far only stand in front of the rest.
proof fn lemma_str_body_acc(s: Seq<char>, quote: char, p: int, acc: Seq<char>)
    ensures
        spec_str_body(s, quote, p, acc) == match spec_str_body(s, quote, p, Seq::empty()) {
            Some((w, e)) => Some((acc + w, e)),
            None => None,
        },
    decreases s.len() - p,
{
    if !(p < 0 || p >= s.len() || s[p] == quote) {
        let n = if s[p] == '\\' { p + 2 } else { p + 1 };
        let c = if s[p] == '\\' { s[p + 1] } else { s[p] };
        if s[p] != '\\' || p + 1 < s.len() {
            lemma_str_body_acc(s, quote, n, acc.push(c));
            lemma_str_body_acc(s, quote, n, Seq::empty().push(c));
            match spec_str_body(s, quote, n, Seq::empty()) {
                Some((w, e)) => {
                    assert(acc.push(c) + w =~= acc + (Seq::empty().push(c) + w));
                },
                None => {},
            }
        }
    } else {
        assert(acc + Seq::empty() =~= acc);
    }
}

proof fn lemma_str_body_end(s: Seq<char>, quote: char, p: int, acc: Seq<char>)
    ensures
        spec_str_body(s, quote, p, acc) matches Some((_, e)) ==> p <= e,
    decreases s.len() - p,
{
    if !(p < 0 || p >= s.len() || s[p] == quote) {
        if s[p] == '\\' {
            if p + 1 < s.len() {
                lemma_str_body_end(s, quote, p + 2, acc.push(s[p + 1]));
            }
        } else {
            lemma_str_body_end(s, quote, p + 1, acc.push(s[p]));
        }
    }
}

/// A backslash escape in a quoted string stands for the escaped character
/// alone, whatever it is: putting `\c` at the start of a literal's body puts
/// just `c` at the start of its text, and the literal ends two characters
/// later.
pub proof fn law_string_escape(quote: char, c: char, t: Seq<char>)
    requires
        quote != '\\',
        spec_str_lit(seq![quote] + t, quote, 0) is Some,
    ensures
        spec_str_lit(seq![quote, '\\', c] + t, quote, 0) == match spec_str_lit(
            seq![quote] + t,
            quote,
            0,
        ) {
            Some((w, e)) => Some((seq![c] + w, e + 2)),
            None => None,
        },
{
    let a = seq![quote] + t;
    let b = seq![quote, '\\', c] + t;
    assert(b.subrange(3, b.len() as int) =~= a.subrange(1, a.len() as int));
    assert(b[1] == '\\' && b[2] == c && b[0] == quote && a[0] == quote);
    lemma_str_body_shift(a, b, quote, 2, 1, seq![c]);
    lemma_str_body_acc(a, quote, 1, seq![c]);
    match spec_str_body(a, quote, 1, Seq::empty()) {
        Some((w, e)) => {
            lemma_str_body_end(a, quote, 1, Seq::empty());
            assert(char_at(a, e, quote) == char_at(b, e + 2, quote)) by {
                if 1 <= e < a.len() {
                    assert(a[e] == a.subrange(1, a.len() as int)[e - 1]);
                    assert(b[e + 2] == b.subrange(3, b.len() as int)[e - 1]);
                }
            }
        },
        None => {},
    }
}

/// A plain character (neither the quote nor a backslash) in a quoted string
/// stands for itself: putting it at the start of a literal's body puts it
/// at the start of its text, and the literal ends one character later.
pub proof fn law_string_plain_char(quote: char, c: char, t: Seq<char>)
    requires
        c != quote,
        c != '\\',
        spec_str_lit(seq![quote] + t, quote, 0) is Some,
    ensures
        spec_str_lit(seq![quote, c] + t, quote, 0) == match spec_str_lit(
            seq![quote] + t,
            quote,
            0,
        ) {
            Some((w, e)) => Some((seq![c] + w, e + 1)),
            None => None,
        },
{
    let a = seq![quote] + t;
    let b = seq![quote, c] + t;
    assert(b.subrange(2, b.len() as int) =~= a.subrange(1, a.len() as int));
    assert(b[1] == c && b[0] == quote && a[0] == quote);
    lemma_str_body_shift(a, b, quote, 1, 1, seq![c]);
    lemma_str_body_acc(a, quote, 1, seq![c]);
    match spec_str_body(a, quote, 1, Seq::empty()) {
        Some((w, e)) => {
            lemma_str_body_end(a, quote, 1, Seq::empty());
            assert(char_at(a, e, quote) == char_at(b, e + 1, quote)) by {
                if 1 <= e < a.len() {
                    assert(a[e] == a.subrange(1, a.len() as int)[e - 1]);
                    assert(b[e + 1] == b.subrange(2, b.len() as int)[e - 1]);
                }
            }
        },
        None => {},
    }
}

/// After the first item of a dict display, a `for` clause (the word `for`
/// and a blank) that `comp_for` reads makes the display a comprehension of
/// that item and those clauses; a comma instead makes it a dict whose first
/// item is that one, the rest being what follows the comma.
pub proof fn law_dict_display_after_first_item(s: Seq<char>, q: int, first: SpecDictItem)
    ensures
        (match spec_comp_for(s, true, q) {
            Ok((c, r)) => !char_at(s, q, ',') && comp_ahead(s, q) && q <= r <= s.len() ==> spec_dictmaker(
                s,
                q,
                first,
            ) == Ok::<(SpecExpression, int), SpecError>(
                (SpecExpression::DictComp(Box::new(first), c), r),
            ),
            Err(_) => true,
        }),
        (match spec_dictitems(s, q + 1) {
            Ok((v, r)) => char_at(s, q, ',') && q + 1 <= r <= s.len() ==> spec_dictmaker(s, q, first)
                == Ok::<(SpecExpression, int), SpecError>(
                (SpecExpression::DictLiteral(seq![first] + v), r),
            ),
            Err(_) => true,
        }),
{
}

/// After the first item of a set display, a `for` clause that `comp_for`
/// reads makes the display a comprehension of that item and those clauses;
/// a comma instead makes it a set whose first item is that one.
pub proof fn law_set_display_after_first_item(s: Seq<char>, q: int, first: SpecSetItem)
    ensures
        (match spec_comp_for(s, true, q) {
            Ok((c, r)) => !char_at(s, q, ',') && comp_ahead(s, q) && q <= r <= s.len() ==> spec_setmaker(
                s,
                q,
                first,
            ) == Ok::<(SpecExpression, int), SpecError>(
                (SpecExpression::SetComp(Box::new(first), c), r),
            ),
            Err(_) => true,
        }),
        (match spec_setitems(s, q + 1) {
            Ok((v, r)) => char_at(s, q, ',') && q + 1 <= r <= s.len() ==> spec_setmaker(s, q, first)
                == Ok::<(SpecExpression, int), SpecError>(
                (SpecExpression::SetLiteral(seq![first] + v), r),
            ),
            Err(_) => true,
        }),
{
}

} // verus!
