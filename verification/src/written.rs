//! Tokens are read as written: signs, constants, names, trailers and the
//! `async` of a comprehension stand where the input spells them.
use vstd::prelude::*;

use crate::ast::{SpecExpression, Uop};
use crate::grammar::{spec_atom_word, spec_comp_for, spec_factor, spec_power, spec_trailer, SpecTrailer};
use crate::laws::lemma_power_binding;
use crate::lexer::{blank, char_at, is_keyword, run_end, tok_at, Tok};

verus! {

/// The character that stands for the unary operator `op` (`not` has none).
pub open spec fn uop_char(op: Uop) -> Option<char> {
    match op {
        Uop::Plus => Some('+'),
        Uop::Minus => Some('-'),
        Uop::Invert => Some('~'),
        Uop::Not => None,
    }
}

/// A sign is read as the one written: where a `factor` is a unary
/// operation, the first character after the blanks spells that operator.
pub proof fn law_sign_read_as_written(s: Seq<char>, nl: bool, p: int)
    requires
        spec_factor(s, nl, p) matches Ok((SpecExpression::Uop(_, _), _)),
    ensures
        spec_factor(s, nl, p) matches Ok((SpecExpression::Uop(op, _), _)) && uop_char(op)
            matches Some(c) && char_at(s, run_end(s, blank(nl), p), c),
{
    if spec_power(s, nl, p) is Ok {
        lemma_power_binding(s, nl, p);
    }
}

/// The constants and names are read as written: `None`, `True`, `False`
/// and `...` only where those words stand, and a name is exactly the
/// characters read, never a keyword.
pub proof fn law_words_read_as_written(s: Seq<char>, nl: bool, p: int)
    ensures
        spec_atom_word(s, nl, p) matches Ok((SpecExpression::NoneConst, _)) ==> tok_at(
            s,
            p,
            Tok::KwNone,
        ),
        spec_atom_word(s, nl, p) matches Ok((SpecExpression::True, _)) ==> tok_at(
            s,
            p,
            Tok::KwTrue,
        ),
        spec_atom_word(s, nl, p) matches Ok((SpecExpression::False, _)) ==> tok_at(
            s,
            p,
            Tok::KwFalse,
        ),
        spec_atom_word(s, nl, p) matches Ok((SpecExpression::Ellipsis, _)) ==> tok_at(
            s,
            p,
            Tok::Ellipsis,
        ),
        spec_atom_word(s, nl, p) matches Ok((SpecExpression::Name(n), q)) ==> n == s.subrange(
            p,
            q,
        ) && !is_keyword(n) && n.len() > 0,
{
}

/// A trailer is read as written: a call where a `(` stands, a subscript
/// where a `[` stands, and an attribute after a `.` (blanks around it),
/// whose name is exactly the characters that end the trailer.
pub proof fn law_trailer_read_as_written(s: Seq<char>, nl: bool, q: int)
    ensures
        spec_trailer(s, nl, q) matches Ok((SpecTrailer::Call(_), _)) ==> char_at(s, q, '('),
        spec_trailer(s, nl, q) matches Ok((SpecTrailer::Subscript(_), _)) ==> char_at(s, q, '['),
        spec_trailer(s, nl, q) matches Ok((SpecTrailer::Attribute(n), r)) ==> char_at(
            s,
            run_end(s, blank(nl), q),
            '.',
        ) && n.len() > 0 && r - n.len() >= 0 && s.subrange(r - n.len(), r) == n,
{
}

/// A comprehension clause is asynchronous exactly where it starts with the
/// word `async`; otherwise it starts with `for`.
pub proof fn law_comprehension_async_as_written(s: Seq<char>, nl: bool, p: int)
    ensures
        spec_comp_for(s, nl, p) matches Ok((c, _)) ==> c.len() > 0 && (c[0] matches crate::ast::SpecChunk::For { is_async, .. } && (is_async ==> tok_at(s, p, Tok::KwAsync))
            && (!is_async ==> tok_at(s, p, Tok::KwFor))),
{
}

} // verus!
