//! The lexical level: blanks, fixed tokens, names, decimal literals and
//! quoted strings.
use vstd::prelude::*;

use crate::result::{ends_after, lift, PResult, ParseError, SRes, SpecError};

verus! {

// ---------------------------------------------------------------------
// Character classes and runs
// ---------------------------------------------------------------------

/// Classes of characters that the grammar skips or collects in runs.
#[derive(Debug, Clone, Copy, PartialEq, Eq)]
pub enum CharClass {
    /// Spaces and tabs.
    Blank,
    /// Spaces, tabs and newlines.
    BlankNl,
    /// Spaces, tabs, carriage returns and newlines.
    AnyWs,
    /// Letters, digits and the underscore.
    IdContinue,
    /// Decimal digits.
    Digit,
}

pub open spec fn in_class(k: CharClass, c: char) -> bool {
    match k {
        CharClass::Blank => c == ' ' || c == '\t',
        CharClass::BlankNl => c == ' ' || c == '\t' || c == '\n',
        CharClass::AnyWs => c == ' ' || c == '\t' || c == '\r' || c == '\n',
        CharClass::IdContinue => ('a' <= c && c <= 'z') || ('A' <= c && c <= 'Z') || ('0' <= c
            && c <= '9') || c == '_',
        CharClass::Digit => '0' <= c && c <= '9',
    }
}

/// The blanks that a parser skips: newlines count as blanks inside
/// brackets (`nl` true) and not elsewhere.
pub open spec fn blank(nl: bool) -> CharClass {
    if nl {
        CharClass::BlankNl
    } else {
        CharClass::Blank
    }
}

pub fn blank_exec(nl: bool) -> (k: CharClass)
    ensures
        k == blank(nl),
{
    if nl {
        CharClass::BlankNl
    } else {
        CharClass::Blank
    }
}

#[verifier::opaque]
pub open spec fn run_end_raw(s: Seq<char>, k: CharClass, p: int) -> int
    decreases s.len() - p,
{
    if 0 <= p < s.len() && in_class(k, s[p]) {
        run_end_raw(s, k, p + 1)
    } else {
        p
    }
}

/// The end of the longest run of characters of class `k` that starts at `p`.
pub open spec fn run_end(s: Seq<char>, k: CharClass, p: int) -> int {
    let q = run_end_raw(s, k, p);
    if p <= q && q <= s.len() {
        q
    } else {
        p
    }
}

pub proof fn lemma_run_end_raw(s: Seq<char>, k: CharClass, p: int)
    requires
        0 <= p <= s.len(),
    ensures
        p <= run_end_raw(s, k, p) <= s.len(),
        forall|i: int| p <= i < run_end_raw(s, k, p) ==> in_class(k, #[trigger] s[i]),
        run_end_raw(s, k, p) < s.len() ==> !in_class(k, s[run_end_raw(s, k, p)]),
    decreases s.len() - p,
{
    reveal_with_fuel(run_end_raw, 1);
    if p < s.len() && in_class(k, s[p]) {
        lemma_run_end_raw(s, k, p + 1);
    }
}

/// The run of class `k` from `p` consists of class-`k` characters and
/// stops at the end of the input or at a character of another class.
pub proof fn lemma_run_end(s: Seq<char>, k: CharClass, p: int)
    requires
        0 <= p <= s.len(),
    ensures
        run_end(s, k, p) == run_end_raw(s, k, p),
        p <= run_end(s, k, p) <= s.len(),
        forall|i: int| p <= i < run_end(s, k, p) ==> in_class(k, #[trigger] s[i]),
        run_end(s, k, p) < s.len() ==> !in_class(k, s[run_end(s, k, p)]),
{
    lemma_run_end_raw(s, k, p);
}

pub fn in_class_exec(k: CharClass, c: char) -> (r: bool)
    ensures
        r == in_class(k, c),
{
    match k {
        CharClass::Blank => c == ' ' || c == '\t',
        CharClass::BlankNl => c == ' ' || c == '\t' || c == '\n',
        CharClass::AnyWs => c == ' ' || c == '\t' || c == '\r' || c == '\n',
        CharClass::IdContinue => ('a' <= c && c <= 'z') || ('A' <= c && c <= 'Z') || ('0' <= c
            && c <= '9') || c == '_',
        CharClass::Digit => '0' <= c && c <= '9',
    }
}

/// The end of the run of class `k` from `p`.
pub fn run_end_exec(s: &[char], k: CharClass, p: usize) -> (q: usize)
    requires
        p <= s.len(),
    ensures
        q == run_end(s@, k, p as int),
        p <= q <= s.len(),
{
    let mut i = p;
    while i < s.len() && in_class_exec(k, s[i])
        invariant
            p <= i <= s@.len(),
            run_end_raw(s@, k, p as int) == run_end_raw(s@, k, i as int),
        decreases s@.len() - i,
    {
        proof {
            reveal_with_fuel(run_end_raw, 1);
        }
        i = i + 1;
    }
    proof {
        reveal_with_fuel(run_end_raw, 1);
        lemma_run_end(s@, k, p as int);
    }
    i
}

/// One or more characters of class `k` from `p`: the end of the run.
pub open spec fn sep_end(s: Seq<char>, k: CharClass, p: int) -> Option<int> {
    if 0 <= p < s.len() && in_class(k, s[p]) {
        Some(run_end(s, k, p))
    } else {
        None
    }
}

pub fn sep_end_exec(s: &[char], k: CharClass, p: usize) -> (r: Option<usize>)
    requires
        p <= s.len(),
    ensures
        match r {
            Some(q) => sep_end(s@, k, p as int) == Some(q as int) && p < q <= s@.len(),
            None => sep_end(s@, k, p as int) is None,
        },
{
    if p < s.len() && in_class_exec(k, s[p]) {
        let q = run_end_exec(s, k, p);
        proof {
            lemma_run_end(s@, k, p as int);
        }
        Some(q)
    } else {
        None
    }
}

/// A comma after `r`, with characters of class `k` (if any) skipped before
/// and after it: the position after them.
pub open spec fn comma_after(s: Seq<char>, k: Option<CharClass>, r: int) -> Option<int> {
    let j1 = match k {
        Some(c) => run_end(s, c, r),
        None => r,
    };
    if char_at(s, j1, ',') {
        Some(
            match k {
                Some(c) => run_end(s, c, j1 + 1),
                None => j1 + 1,
            },
        )
    } else {
        None
    }
}

pub fn comma_after_exec(s: &[char], k: Option<CharClass>, r: usize) -> (o: Option<usize>)
    requires
        r <= s.len(),
    ensures
        match o {
            Some(j) => comma_after(s@, k, r as int) == Some(j as int) && r < j <= s@.len(),
            None => comma_after(s@, k, r as int) is None,
        },
{
    let j1 = match k {
        Some(c) => run_end_exec(s, c, r),
        None => r,
    };
    if j1 < s.len() && s[j1] == ',' {
        match k {
            Some(c) => Some(run_end_exec(s, c, j1 + 1)),
            None => Some(j1 + 1),
        }
    } else {
        None
    }
}

/// Whether `s[p]` is the character `c`.
pub open spec fn char_at(s: Seq<char>, p: int, c: char) -> bool {
    0 <= p < s.len() && s[p] == c
}

pub fn char_at_exec(s: &[char], p: usize, c: char) -> (r: bool)
    ensures
        r == char_at(s@, p as int, c),
{
    p < s.len() && s[p] == c
}

// ---------------------------------------------------------------------
// Fixed tokens
// ---------------------------------------------------------------------

/// Whether the word `w` stands at position `p` of `s`.
#[verifier::opaque]
pub open spec fn word_at(s: Seq<char>, p: int, w: Seq<char>) -> bool {
    0 <= p && p + w.len() <= s.len() && s.subrange(p, p + w.len()) == w
}

/// Whether token `t` stands at position `p` of `s`.
pub open spec fn tok_at(s: Seq<char>, p: int, t: Tok) -> bool {
    0 <= p && p + tok_len(t) <= s.len() && word_at(s, p, tok_text(t))
}

fn match_at(s: &[char], p: usize, w: &[char]) -> (r: bool)
    requires
        p <= s.len(),
    ensures
        r == word_at(s@, p as int, w@),
{
    reveal(word_at);
    if w.len() > s.len() - p {
        return false;
    }
    let mut i: usize = 0;
    while i < w.len()
        invariant
            i <= w@.len(),
            p + w@.len() <= s@.len(),
            s@.len() == s.len(),
            forall|j: int| 0 <= j < i ==> s@[p + j] == w@[j],
        decreases w@.len() - i,
    {
        if s[p + i] != w[i] {
            reveal(word_at);
            assert(s@.subrange(p as int, p + w@.len())[i as int] != w@[i as int]);
            return false;
        }
        i += 1;
    }
    assert(s@.subrange(p as int, p + w@.len()) =~= w@);
    true
}

/// `tok_len` is the length of the token's text.
pub proof fn lemma_tok_len(t: Tok)
    ensures
        tok_text(t).len() == tok_len(t),
        tok_len(t) >= 1,
{
}

/// The fixed words and symbols of the grammar.
#[derive(Debug, Clone, Copy, PartialEq, Eq)]
pub enum Tok {
    KwFalse,
    KwNone,
    KwTrue,
    KwAnd,
    KwAs,
    KwAssert,
    KwAsync,
    KwAwait,
    KwBreak,
    KwClass,
    KwContinue,
    KwDef,
    KwDel,
    KwElif,
    KwElse,
    KwExcept,
    KwFinally,
    KwFor,
    KwFrom,
    KwGlobal,
    KwIf,
    KwImport,
    KwIn,
    KwIs,
    KwLambda,
    KwNonlocal,
    KwNot,
    KwOr,
    KwPass,
    KwRaise,
    KwReturn,
    KwTry,
    KwWhile,
    KwWith,
    KwYield,
    Ellipsis,
    OrSp,
    AndSp,
    NotSp,
    EqEq,
    Leq,
    Geq,
    Neq,
    Lshift,
    Rshift,
    DoubleSlash,
    DoubleStar,
}

/// The characters of a token.
pub open spec fn tok_text(t: Tok) -> Seq<char> {
    match t {
        Tok::KwFalse => seq!['F', 'a', 'l', 's', 'e'],
        Tok::KwNone => seq!['N', 'o', 'n', 'e'],
        Tok::KwTrue => seq!['T', 'r', 'u', 'e'],
        Tok::KwAnd => seq!['a', 'n', 'd'],
        Tok::KwAs => seq!['a', 's'],
        Tok::KwAssert => seq!['a', 's', 's', 'e', 'r', 't'],
        Tok::KwAsync => seq!['a', 's', 'y', 'n', 'c'],
        Tok::KwAwait => seq!['a', 'w', 'a', 'i', 't'],
        Tok::KwBreak => seq!['b', 'r', 'e', 'a', 'k'],
        Tok::KwClass => seq!['c', 'l', 'a', 's', 's'],
        Tok::KwContinue => seq!['c', 'o', 'n', 't', 'i', 'n', 'u', 'e'],
        Tok::KwDef => seq!['d', 'e', 'f'],
        Tok::KwDel => seq!['d', 'e', 'l'],
        Tok::KwElif => seq!['e', 'l', 'i', 'f'],
        Tok::KwElse => seq!['e', 'l', 's', 'e'],
        Tok::KwExcept => seq!['e', 'x', 'c', 'e', 'p', 't'],
        Tok::KwFinally => seq!['f', 'i', 'n', 'a', 'l', 'l', 'y'],
        Tok::KwFor => seq!['f', 'o', 'r'],
        Tok::KwFrom => seq!['f', 'r', 'o', 'm'],
        Tok::KwGlobal => seq!['g', 'l', 'o', 'b', 'a', 'l'],
        Tok::KwIf => seq!['i', 'f'],
        Tok::KwImport => seq!['i', 'm', 'p', 'o', 'r', 't'],
        Tok::KwIn => seq!['i', 'n'],
        Tok::KwIs => seq!['i', 's'],
        Tok::KwLambda => seq!['l', 'a', 'm', 'b', 'd', 'a'],
        Tok::KwNonlocal => seq!['n', 'o', 'n', 'l', 'o', 'c', 'a', 'l'],
        Tok::KwNot => seq!['n', 'o', 't'],
        Tok::KwOr => seq!['o', 'r'],
        Tok::KwPass => seq!['p', 'a', 's', 's'],
        Tok::KwRaise => seq!['r', 'a', 'i', 's', 'e'],
        Tok::KwReturn => seq!['r', 'e', 't', 'u', 'r', 'n'],
        Tok::KwTry => seq!['t', 'r', 'y'],
        Tok::KwWhile => seq!['w', 'h', 'i', 'l', 'e'],
        Tok::KwWith => seq!['w', 'i', 't', 'h'],
        Tok::KwYield => seq!['y', 'i', 'e', 'l', 'd'],
        Tok::Ellipsis => seq!['.', '.', '.'],
        Tok::OrSp => seq!['o', 'r', ' '],
        Tok::AndSp => seq!['a', 'n', 'd', ' '],
        Tok::NotSp => seq!['n', 'o', 't', ' '],
        Tok::EqEq => seq!['=', '='],
        Tok::Leq => seq!['<', '='],
        Tok::Geq => seq!['>', '='],
        Tok::Neq => seq!['!', '='],
        Tok::Lshift => seq!['<', '<'],
        Tok::Rshift => seq!['>', '>'],
        Tok::DoubleSlash => seq!['/', '/'],
        Tok::DoubleStar => seq!['*', '*'],
    }
}

/// The number of characters of a token.
pub open spec fn tok_len(t: Tok) -> int {
    match t {
        Tok::KwFalse => 5,
        Tok::KwNone => 4,
        Tok::KwTrue => 4,
        Tok::KwAnd => 3,
        Tok::KwAs => 2,
        Tok::KwAssert => 6,
        Tok::KwAsync => 5,
        Tok::KwAwait => 5,
        Tok::KwBreak => 5,
        Tok::KwClass => 5,
        Tok::KwContinue => 8,
        Tok::KwDef => 3,
        Tok::KwDel => 3,
        Tok::KwElif => 4,
        Tok::KwElse => 4,
        Tok::KwExcept => 6,
        Tok::KwFinally => 7,
        Tok::KwFor => 3,
        Tok::KwFrom => 4,
        Tok::KwGlobal => 6,
        Tok::KwIf => 2,
        Tok::KwImport => 6,
        Tok::KwIn => 2,
        Tok::KwIs => 2,
        Tok::KwLambda => 6,
        Tok::KwNonlocal => 8,
        Tok::KwNot => 3,
        Tok::KwOr => 2,
        Tok::KwPass => 4,
        Tok::KwRaise => 5,
        Tok::KwReturn => 6,
        Tok::KwTry => 3,
        Tok::KwWhile => 5,
        Tok::KwWith => 4,
        Tok::KwYield => 5,
        Tok::Ellipsis => 3,
        Tok::OrSp => 3,
        Tok::AndSp => 4,
        Tok::NotSp => 4,
        Tok::EqEq => 2,
        Tok::Leq => 2,
        Tok::Geq => 2,
        Tok::Neq => 2,
        Tok::Lshift => 2,
        Tok::Rshift => 2,
        Tok::DoubleSlash => 2,
        Tok::DoubleStar => 2,
    }
}

/// The Python keywords.
pub open spec fn keywords() -> Seq<Tok> {
    seq![
        Tok::KwFalse,
        Tok::KwNone,
        Tok::KwTrue,
        Tok::KwAnd,
        Tok::KwAs,
        Tok::KwAssert,
        Tok::KwAsync,
        Tok::KwAwait,
        Tok::KwBreak,
        Tok::KwClass,
        Tok::KwContinue,
        Tok::KwDef,
        Tok::KwDel,
        Tok::KwElif,
        Tok::KwElse,
        Tok::KwExcept,
        Tok::KwFinally,
        Tok::KwFor,
        Tok::KwFrom,
        Tok::KwGlobal,
        Tok::KwIf,
        Tok::KwImport,
        Tok::KwIn,
        Tok::KwIs,
        Tok::KwLambda,
        Tok::KwNonlocal,
        Tok::KwNot,
        Tok::KwOr,
        Tok::KwPass,
        Tok::KwRaise,
        Tok::KwReturn,
        Tok::KwTry,
        Tok::KwWhile,
        Tok::KwWith,
        Tok::KwYield,
    ]
}

/// The Python keywords, which are no names.
#[verifier::opaque]
pub open spec fn is_keyword(w: Seq<char>) -> bool {
    exists|i: int| 0 <= i < keywords().len() && tok_text(#[trigger] keywords()[i]) == w
}

/// The characters of token `t`.
pub fn tok_chars(t: Tok) -> (v: Vec<char>)
    ensures
        v@ == tok_text(t),
{
    let v = match t {
        Tok::KwFalse => vec!['F', 'a', 'l', 's', 'e'],
        Tok::KwNone => vec!['N', 'o', 'n', 'e'],
        Tok::KwTrue => vec!['T', 'r', 'u', 'e'],
        Tok::KwAnd => vec!['a', 'n', 'd'],
        Tok::KwAs => vec!['a', 's'],
        Tok::KwAssert => vec!['a', 's', 's', 'e', 'r', 't'],
        Tok::KwAsync => vec!['a', 's', 'y', 'n', 'c'],
        Tok::KwAwait => vec!['a', 'w', 'a', 'i', 't'],
        Tok::KwBreak => vec!['b', 'r', 'e', 'a', 'k'],
        Tok::KwClass => vec!['c', 'l', 'a', 's', 's'],
        Tok::KwContinue => vec!['c', 'o', 'n', 't', 'i', 'n', 'u', 'e'],
        Tok::KwDef => vec!['d', 'e', 'f'],
        Tok::KwDel => vec!['d', 'e', 'l'],
        Tok::KwElif => vec!['e', 'l', 'i', 'f'],
        Tok::KwElse => vec!['e', 'l', 's', 'e'],
        Tok::KwExcept => vec!['e', 'x', 'c', 'e', 'p', 't'],
        Tok::KwFinally => vec!['f', 'i', 'n', 'a', 'l', 'l', 'y'],
        Tok::KwFor => vec!['f', 'o', 'r'],
        Tok::KwFrom => vec!['f', 'r', 'o', 'm'],
        Tok::KwGlobal => vec!['g', 'l', 'o', 'b', 'a', 'l'],
        Tok::KwIf => vec!['i', 'f'],
        Tok::KwImport => vec!['i', 'm', 'p', 'o', 'r', 't'],
        Tok::KwIn => vec!['i', 'n'],
        Tok::KwIs => vec!['i', 's'],
        Tok::KwLambda => vec!['l', 'a', 'm', 'b', 'd', 'a'],
        Tok::KwNonlocal => vec!['n', 'o', 'n', 'l', 'o', 'c', 'a', 'l'],
        Tok::KwNot => vec!['n', 'o', 't'],
        Tok::KwOr => vec!['o', 'r'],
        Tok::KwPass => vec!['p', 'a', 's', 's'],
        Tok::KwRaise => vec!['r', 'a', 'i', 's', 'e'],
        Tok::KwReturn => vec!['r', 'e', 't', 'u', 'r', 'n'],
        Tok::KwTry => vec!['t', 'r', 'y'],
        Tok::KwWhile => vec!['w', 'h', 'i', 'l', 'e'],
        Tok::KwWith => vec!['w', 'i', 't', 'h'],
        Tok::KwYield => vec!['y', 'i', 'e', 'l', 'd'],
        Tok::Ellipsis => vec!['.', '.', '.'],
        Tok::OrSp => vec!['o', 'r', ' '],
        Tok::AndSp => vec!['a', 'n', 'd', ' '],
        Tok::NotSp => vec!['n', 'o', 't', ' '],
        Tok::EqEq => vec!['=', '='],
        Tok::Leq => vec!['<', '='],
        Tok::Geq => vec!['>', '='],
        Tok::Neq => vec!['!', '='],
        Tok::Lshift => vec!['<', '<'],
        Tok::Rshift => vec!['>', '>'],
        Tok::DoubleSlash => vec!['/', '/'],
        Tok::DoubleStar => vec!['*', '*'],
    };
    assert(v@ =~= tok_text(t));
    v
}

/// Whether token `t` stands at position `p` of `s`.
pub fn tok_at_exec(s: &[char], p: usize, t: Tok) -> (r: bool)
    requires
        p <= s.len(),
    ensures
        r == tok_at(s@, p as int, t),
{
    proof {
        lemma_tok_len(t);
        reveal(word_at);
    }
    let w = tok_chars(t);
    match_at(s, p, w.as_slice())
}

/// The Python keywords, in the order of `keywords`.
fn keyword_list() -> (v: Vec<Tok>)
    ensures
        v@ == keywords(),
{
    let v = vec![
        Tok::KwFalse,
        Tok::KwNone,
        Tok::KwTrue,
        Tok::KwAnd,
        Tok::KwAs,
        Tok::KwAssert,
        Tok::KwAsync,
        Tok::KwAwait,
        Tok::KwBreak,
        Tok::KwClass,
        Tok::KwContinue,
        Tok::KwDef,
        Tok::KwDel,
        Tok::KwElif,
        Tok::KwElse,
        Tok::KwExcept,
        Tok::KwFinally,
        Tok::KwFor,
        Tok::KwFrom,
        Tok::KwGlobal,
        Tok::KwIf,
        Tok::KwImport,
        Tok::KwIn,
        Tok::KwIs,
        Tok::KwLambda,
        Tok::KwNonlocal,
        Tok::KwNot,
        Tok::KwOr,
        Tok::KwPass,
        Tok::KwRaise,
        Tok::KwReturn,
        Tok::KwTry,
        Tok::KwWhile,
        Tok::KwWith,
        Tok::KwYield,
    ];
    assert(v@ =~= keywords());
    v
}

/// Whether `s[p..q]` is a keyword.
pub fn is_keyword_at(s: &[char], p: usize, q: usize) -> (r: bool)
    requires
        p <= q <= s.len(),
    ensures
        r == is_keyword(s@.subrange(p as int, q as int)),
{
    reveal(is_keyword);
    let ghost w = s@.subrange(p as int, q as int);
    let ks = keyword_list();
    let mut i: usize = 0;
    while i < ks.len()
        invariant
            i <= ks@.len(),
            ks@ == keywords(),
            p <= q <= s@.len(),
            w == s@.subrange(p as int, q as int),
            forall|j: int| 0 <= j < i ==> tok_text(#[trigger] keywords()[j]) != w,
        decreases ks.len() - i,
    {
        let k = tok_chars(ks[i]);
        let found = k.len() == q - p && match_at(s, p, k.as_slice());
        proof {
            reveal(word_at);
            if tok_text(keywords()[i as int]) == w {
                assert(k@.len() == q - p);
                assert(s@.subrange(p as int, p + k@.len()) =~= k@);
            }
            if found {
                assert(w =~= k@);
                assert(tok_text(keywords()[i as int]) == w);
                reveal(is_keyword);
            }
        }
        if found {
            return true;
        }
        i += 1;
    }
    false
}

// ---------------------------------------------------------------------
// Names
// ---------------------------------------------------------------------

pub open spec fn is_id_start(c: char) -> bool {
    ('a' <= c && c <= 'z') || ('A' <= c && c <= 'Z') || c == '_'
}

/// A name: a letter or underscore, then letters, digits and underscores,
/// as long as possible; a keyword is no name.
pub open spec fn spec_name(s: Seq<char>, p: int) -> Option<(Seq<char>, int)> {
    if 0 <= p < s.len() && is_id_start(s[p]) {
        let q = run_end(s, CharClass::IdContinue, p + 1);
        let w = s.subrange(p, q);
        if is_keyword(w) {
            None
        } else {
            Some((w, q))
        }
    } else {
        None
    }
}

/// `String::push` of std: appends the character `c` to `t`.
#[verifier::external_body]
fn push_char(t: &mut String, c: char)
    ensures
        final(t)@ == old(t)@.push(c),
{
    t.push(c);
}

/// The characters `s[p..q]` as a string.
pub fn chars_to_string(s: &[char], p: usize, q: usize) -> (r: String)
    requires
        p <= q <= s.len(),
    ensures
        r@ == s@.subrange(p as int, q as int),
{
    let mut r = String::new();
    let mut i = p;
    while i < q
        invariant
            p <= i <= q <= s@.len(),
            r@ == s@.subrange(p as int, i as int),
        decreases q - i,
    {
        push_char(&mut r, s[i]);
        assert(s@.subrange(p as int, i + 1) =~= s@.subrange(p as int, i as int).push(s@[i as int]));
        i = i + 1;
    }
    r
}

/// The name that starts at `p`, and the position after it.
pub fn name(s: &[char], p: usize) -> (r: Option<(usize, String)>)
    requires
        p <= s.len(),
    ensures
        match r {
            Some((q, n)) => spec_name(s@, p as int) == Some((n@, q as int)) && p < q <= s@.len(),
            None => spec_name(s@, p as int) is None,
        },
{
    if p < s.len() && (('a' <= s[p] && s[p] <= 'z') || ('A' <= s[p] && s[p] <= 'Z') || s[p]
        == '_') {
        let q = run_end_exec(s, CharClass::IdContinue, p + 1);
        if is_keyword_at(s, p, q) {
            None
        } else {
            Some((q, chars_to_string(s, p, q)))
        }
    } else {
        None
    }
}

// ---------------------------------------------------------------------
// Decimal literals
// ---------------------------------------------------------------------

pub open spec fn digit_value(c: char) -> int {
    (c as int) - ('0' as int)
}

/// The value of a string of decimal digits.
pub open spec fn digits_value(w: Seq<char>) -> int
    decreases w.len(),
{
    if w.len() == 0 {
        0
    } else {
        digits_value(w.drop_last()) * 10 + digit_value(w.last())
    }
}

/// A decimal literal: one or more digits, as long as possible. Its value
/// must fit in an `i64`; a larger one ends the parse.
pub open spec fn spec_number(s: Seq<char>, p: int) -> SRes<int> {
    if 0 <= p < s.len() && in_class(CharClass::Digit, s[p]) {
        let q = run_end(s, CharClass::Digit, p);
        let v = digits_value(s.subrange(p, q));
        if v <= i64::MAX {
            Ok((v, q))
        } else {
            Err(SpecError::IntegerOverflow(p))
        }
    } else {
        Err(SpecError::Error)
    }
}

pub proof fn lemma_digits_value_nonneg(w: Seq<char>)
    requires
        forall|i: int| 0 <= i < w.len() ==> in_class(CharClass::Digit, #[trigger] w[i]),
    ensures
        digits_value(w) >= 0,
    decreases w.len(),
{
    if w.len() > 0 {
        lemma_digits_value_nonneg(w.drop_last());
    }
}

/// A string of digits is worth at least as much as any prefix of it.
pub proof fn lemma_digits_value_prefix(w: Seq<char>, k: int)
    requires
        0 <= k <= w.len(),
        forall|i: int| 0 <= i < w.len() ==> in_class(CharClass::Digit, #[trigger] w[i]),
    ensures
        digits_value(w.subrange(0, k)) <= digits_value(w),
    decreases w.len(),
{
    if k < w.len() {
        lemma_digits_value_prefix(w.drop_last(), k);
        assert(w.drop_last().subrange(0, k) =~= w.subrange(0, k));
        lemma_digits_value_nonneg(w.drop_last());
    } else {
        assert(w.subrange(0, k) =~= w);
    }
}

/// The decimal literal at `p`.
pub fn number(s: &[char], p: usize) -> (r: PResult<i64>)
    requires
        p <= s.len(),
    ensures
        lift(r, |v: i64| v as int) == spec_number(s@, p as int),
        ends_after(r, p as int, s@.len() as int),
{
    if !(p < s.len() && '0' <= s[p] && s[p] <= '9') {
        return Err(ParseError::Error);
    }
    let q = run_end_exec(s, CharClass::Digit, p);
    proof {
        lemma_run_end(s@, CharClass::Digit, p as int);
    }
    let ghost w = s@.subrange(p as int, q as int);
    let mut v: i64 = 0;
    let mut i = p;
    while i < q
        invariant
            p <= i <= q <= s@.len(),
            q == run_end(s@, CharClass::Digit, p as int),
            w == s@.subrange(p as int, q as int),
            forall|j: int| p <= j < q ==> in_class(CharClass::Digit, #[trigger] s@[j]),
            v as int == digits_value(s@.subrange(p as int, i as int)),
            0 <= v,
        decreases q - i,
    {
        let d = (s[i] as u32 - '0' as u32) as i64;
        assert(s@.subrange(p as int, i + 1).drop_last() =~= s@.subrange(p as int, i as int));
        if v > (i64::MAX - d) / 10 {
            proof {
                assert(w.subrange(0, i + 1 - p) =~= s@.subrange(p as int, i + 1));
                lemma_digits_value_prefix(w, i + 1 - p);
            }
            return Err(ParseError::IntegerOverflow(p));
        }
        v = v * 10 + d;
        i = i + 1;
    }
    Ok((q, v))
}

// ---------------------------------------------------------------------
// Quoted strings
// ---------------------------------------------------------------------

/// The text of a quoted string from `p` up to its closing `quote`, with
/// each backslash escape replaced by the escaped character; `acc` is what
/// was read before `p`. The result is the text and the position of the
/// closing quote (or of the end of the input); a backslash at the very end
/// has nothing to escape and spoils the string.
pub open spec fn spec_str_body(s: Seq<char>, quote: char, p: int, acc: Seq<char>) -> Option<
    (Seq<char>, int),
>
    decreases s.len() - p,
{
    if p < 0 || p >= s.len() || s[p] == quote {
        Some((acc, p))
    } else if s[p] == '\\' {
        if p + 1 < s.len() {
            spec_str_body(s, quote, p + 2, acc.push(s[p + 1]))
        } else {
            None
        }
    } else {
        spec_str_body(s, quote, p + 1, acc.push(s[p]))
    }
}

/// One quoted string at `p`: its text and the position after the closing quote.
pub open spec fn spec_str_lit(s: Seq<char>, quote: char, p: int) -> Option<(Seq<char>, int)> {
    if char_at(s, p, quote) {
        match spec_str_body(s, quote, p + 1, Seq::empty()) {
            Some((w, e)) => if char_at(s, e, quote) {
                Some((w, e + 1))
            } else {
                None
            },
            None => None,
        }
    } else {
        None
    }
}

/// Further quoted strings after `p`, each after one or more blanks, their
/// texts appended to `acc`. It stops before the blanks that no string follows.
pub open spec fn spec_str_rest(s: Seq<char>, nl: bool, quote: char, p: int, acc: Seq<char>) -> (
    Seq<char>,
    int,
)
    decreases s.len() - p,
{
    match sep_end(s, blank(nl), p) {
        Some(q) => match spec_str_lit(s, quote, q) {
            Some((w, e)) => if p < e <= s.len() {
                spec_str_rest(s, nl, quote, e, acc + w)
            } else {
                (acc, p)
            },
            None => (acc, p),
        },
        None => (acc, p),
    }
}

/// Adjacent quoted strings, all with the same quote, separated by blanks:
/// their texts concatenated.
pub open spec fn spec_strings(s: Seq<char>, nl: bool, quote: char, p: int) -> Option<
    (Seq<char>, int),
> {
    match spec_str_lit(s, quote, p) {
        Some((w, e)) => Some(spec_str_rest(s, nl, quote, e, w)),
        None => None,
    }
}

fn str_lit(s: &[char], quote: char, p: usize) -> (r: Option<(usize, Vec<char>)>)
    requires
        p <= s.len(),
    ensures
        match r {
            Some((e, w)) => spec_str_lit(s@, quote, p as int) == Some((w@, e as int)) && p < e
                <= s@.len(),
            None => spec_str_lit(s@, quote, p as int) is None,
        },
{
    if !(p < s.len() && s[p] == quote) {
        return None;
    }
    let mut acc: Vec<char> = Vec::new();
    let mut i = p + 1;
    while i < s.len() && s[i] != quote
        invariant
            p < i <= s@.len(),
            spec_str_body(s@, quote, p + 1, Seq::empty()) == spec_str_body(
                s@,
                quote,
                i as int,
                acc@,
            ),
        decreases s@.len() - i,
    {
        if s[i] == '\\' {
            if i + 1 < s.len() {
                acc.push(s[i + 1]);
                i = i + 2;
            } else {
                return None;
            }
        } else {
            acc.push(s[i]);
            i = i + 1;
        }
    }
    if i < s.len() && s[i] == quote {
        Some((i + 1, acc))
    } else {
        None
    }
}

/// Adjacent quoted strings at `p` (see [`spec_strings`]).
pub fn strings(s: &[char], nl: bool, quote: char, p: usize) -> (r: Option<(usize, String)>)
    requires
        p <= s.len(),
    ensures
        match r {
            Some((e, w)) => spec_strings(s@, nl, quote, p as int) == Some((w@, e as int)) && p
                < e <= s@.len(),
            None => spec_strings(s@, nl, quote, p as int) is None,
        },
{
    let (mut i, mut acc) = match str_lit(s, quote, p) {
        Some(x) => x,
        None => {
            return None;
        },
    };
    let k = blank_exec(nl);
    loop
        invariant
            p < i <= s@.len(),
            k == blank(nl),
            spec_strings(s@, nl, quote, p as int) == Some(
                spec_str_rest(s@, nl, quote, i as int, acc@),
            ),
        ensures
            p < i <= s@.len(),
            spec_strings(s@, nl, quote, p as int) == Some((acc@, i as int)),
        decreases s@.len() - i,
    {
        match sep_end_exec(s, k, i) {
            Some(q) => match str_lit(s, quote, q) {
                Some((e, w)) => {
                    let mut w = w;
                    acc.append(&mut w);
                    i = e;
                },
                None => {
                    break ;
                },
            },
            None => {
                break ;
            },
        }
    }
    let n = acc.len();
    let text = chars_to_string(acc.as_slice(), 0, n);
    assert(acc@.subrange(0, n as int) =~= acc@);
    Some((i, text))
}

} // verus!
