//! Lists read item by item: subscripts, display items, expression lists
//! and call arguments. Each keeps every item it reads, in order, and stops
//! only where no further item follows.
use vstd::prelude::*;

use crate::arglist::SpecRawArgument;
use crate::ast::{SpecDictItem, SpecExpression, SpecSetItem, SpecSubscript};
use crate::grammar::{
    spec_args_rest, spec_argument, spec_dictitem, spec_dictitems_rest, spec_elist_item,
    spec_elist_rest, spec_setitem, spec_setitems_rest, spec_subscript, spec_subscripts_rest,
    spec_test_or_star, spec_tlc_rest,
};
use crate::laws::{end_of, value_of};
use crate::lexer::{blank, char_at, comma_after, CharClass};
use crate::result::{within, SRes, SpecError};

verus! {

/// `v` are the items read one after the other from `q` on: the `i`-th comes
/// after the separator that follows `ends[i]`, and ends at `ends[i + 1]`.
pub open spec fn read_in_order<T>(
    sep: spec_fn(int) -> Option<int>,
    item: spec_fn(int) -> SRes<T>,
    len: int,
    q: int,
    v: Seq<T>,
    ends: Seq<int>,
) -> bool {
    &&& ends.len() == v.len() + 1
    &&& ends[0] == q
    &&& forall|i: int|
        0 <= i < v.len() ==> (sep(ends[i]) matches Some(j) && item(j) == Ok::<(T, int), SpecError>(
            (#[trigger] v[i], ends[i + 1]),
        ) && j <= ends[i + 1] <= len)
}

/// No further item follows `r`: no separator, or no item after it.
pub open spec fn no_more<T>(
    sep: spec_fn(int) -> Option<int>,
    item: spec_fn(int) -> SRes<T>,
    len: int,
    r: int,
) -> bool {
    sep(r) matches Some(j) ==> within(item(j), j, len) == Err::<(T, int), SpecError>(
        SpecError::Error,
    )
}

/// The items that `rest` read after the ones in `acc` are read in order
/// from `q`, every one is kept, and the list stops where nothing follows.
pub open spec fn keeps_every_item<T>(
    sep: spec_fn(int) -> Option<int>,
    item: spec_fn(int) -> SRes<T>,
    len: int,
    q: int,
    acc: Seq<T>,
    r: SRes<Seq<T>>,
) -> bool {
    let v = value_of(r);
    &&& v.len() >= acc.len()
    &&& v.take(acc.len() as int) == acc
    &&& exists|ends: Seq<int>|
        read_in_order(sep, item, len, q, v.skip(acc.len() as int), ends) && ends.last()
            == end_of(r)
    &&& no_more(sep, item, len, end_of(r))
}

/// One step of a list: a separator and an item, then the rest; without
/// them, the list so far.
spec fn list_step<T>(
    sep: spec_fn(int) -> Option<int>,
    item: spec_fn(int) -> SRes<T>,
    rest: spec_fn(int, Seq<T>) -> SRes<Seq<T>>,
    len: int,
    q: int,
    acc: Seq<T>,
) -> SRes<Seq<T>> {
    match sep(q) {
        Some(j) => match within(item(j), j, len) {
            Ok((x, r)) => rest(r, acc.push(x)),
            Err(SpecError::Error) => Ok((acc, q)),
            Err(e) => Err(e),
        },
        None => Ok((acc, q)),
    }
}

proof fn lemma_list<T>(
    sep: spec_fn(int) -> Option<int>,
    item: spec_fn(int) -> SRes<T>,
    rest: spec_fn(int, Seq<T>) -> SRes<Seq<T>>,
    len: int,
    q: int,
    acc: Seq<T>,
) -> (ends: Seq<int>)
    requires
        0 <= q <= len,
        forall|x: int, a: Seq<T>|
            0 <= x <= len ==> #[trigger] rest(x, a) == list_step(sep, item, rest, len, x, a),
        forall|x: int| 0 <= x <= len ==> (#[trigger] sep(x) matches Some(j) ==> x < j),
        rest(q, acc) is Ok,
    ensures
        value_of(rest(q, acc)).len() >= acc.len(),
        value_of(rest(q, acc)).take(acc.len() as int) == acc,
        read_in_order(sep, item, len, q, value_of(rest(q, acc)).skip(acc.len() as int), ends),
        ends.last() == end_of(rest(q, acc)),
        no_more(sep, item, len, end_of(rest(q, acc))),
    decreases len - q,
{
    assert(rest(q, acc) == list_step(sep, item, rest, len, q, acc));
    match sep(q) {
        Some(j) => match within(item(j), j, len) {
            Ok((x, r)) => {
                let a2 = acc.push(x);
                let ends2 = lemma_list(sep, item, rest, len, r, a2);
                let v = value_of(rest(q, acc));
                assert(v == value_of(rest(r, a2)));
                assert(v.take(acc.len() as int) =~= acc) by {
                    assert(v.take(acc.len() as int) =~= v.take(a2.len() as int).take(
                        acc.len() as int,
                    ));
                }
                let ends = seq![q] + ends2;
                let nv = v.skip(acc.len() as int);
                assert(nv =~= seq![x] + v.skip(a2.len() as int)) by {
                    assert(v[acc.len() as int] == v.take(a2.len() as int)[acc.len() as int]);
                }
                assert forall|i: int| 0 <= i < nv.len() implies (sep(ends[i]) matches Some(j2)
                    && item(j2) == Ok::<(T, int), SpecError>((#[trigger] nv[i], ends[i + 1]))
                    && j2 <= ends[i + 1] <= len) by {
                    if i > 0 {
                        assert(nv[i] == v.skip(a2.len() as int)[i - 1]);
                        assert(ends[i] == ends2[i - 1]);
                        assert(ends[i + 1] == ends2[i]);
                    }
                }
                assert(ends.last() == ends2.last());
                ends
            },
            Err(_) => {
                assert(value_of(rest(q, acc)).skip(acc.len() as int) =~= Seq::<T>::empty());
                assert(value_of(rest(q, acc)).take(acc.len() as int) =~= acc);
                seq![q]
            },
        },
        None => {
            assert(value_of(rest(q, acc)).skip(acc.len() as int) =~= Seq::<T>::empty());
            assert(value_of(rest(q, acc)).take(acc.len() as int) =~= acc);
            seq![q]
        },
    }
}

proof fn lemma_comma_after_moves(s: Seq<char>, k: Option<CharClass>)
    ensures
        forall|x: int| #[trigger] comma_after(s, k, x) matches Some(j) ==> x < j,
{
}

/// The separator of subscripts and call arguments: a comma, any whitespace
/// around it.
pub open spec fn comma_sep(s: Seq<char>) -> spec_fn(int) -> Option<int> {
    |x: int| comma_after(s, Some(CharClass::AnyWs), x)
}

/// The separator of display items and expression lists: a comma, blanks
/// around it.
pub open spec fn blank_comma_sep(s: Seq<char>, nl: bool) -> spec_fn(int) -> Option<int> {
    |x: int| comma_after(s, Some(blank(nl)), x)
}

/// The separator of the items of a dict or set display: a bare comma.
pub open spec fn bare_comma_sep(s: Seq<char>) -> spec_fn(int) -> Option<int> {
    |x: int|
        if char_at(s, x, ',') {
            Some(x + 1)
        } else {
            None
        }
}

/// A subscript list keeps every subscript it reads, in order: the `i`-th
/// new entry is what `subscript` reads after the `i`-th comma, and the list
/// ends where no further `, subscript` follows.
pub proof fn law_subscripts_keep_every_item(
    s: Seq<char>,
    nl: bool,
    q: int,
    acc: Seq<SpecSubscript>,
)
    requires
        0 <= q <= s.len(),
        spec_subscripts_rest(s, nl, q, acc) is Ok,
    ensures
        keeps_every_item(
            comma_sep(s),
            |j: int| spec_subscript(s, nl, j),
            s.len() as int,
            q,
            acc,
            spec_subscripts_rest(s, nl, q, acc),
        ),
{
    let sep = comma_sep(s);
    let item = |j: int| spec_subscript(s, nl, j);
    let rest = |x: int, a: Seq<SpecSubscript>| spec_subscripts_rest(s, nl, x, a);
    lemma_comma_after_moves(s, Some(CharClass::AnyWs));
    assert forall|x: int, a: Seq<SpecSubscript>| 0 <= x <= s.len() implies #[trigger] rest(x, a)
        == list_step(sep, item, rest, s.len() as int, x, a) by {}
    let ends = lemma_list(sep, item, rest, s.len() as int, q, acc);
}

/// A list or tuple display keeps every item it reads, in order: the `i`-th
/// new item is what `test | star_expr` reads after the `i`-th comma, and the
/// display ends where no further `, item` follows.
pub proof fn law_display_items_keep_every_item(
    s: Seq<char>,
    nl: bool,
    q: int,
    acc: Seq<SpecSetItem>,
)
    requires
        0 <= q <= s.len(),
        spec_tlc_rest(s, nl, q, acc) is Ok,
    ensures
        keeps_every_item(
            blank_comma_sep(s, nl),
            |j: int| spec_test_or_star(s, nl, j),
            s.len() as int,
            q,
            acc,
            spec_tlc_rest(s, nl, q, acc),
        ),
{
    let sep = blank_comma_sep(s, nl);
    let item = |j: int| spec_test_or_star(s, nl, j);
    let rest = |x: int, a: Seq<SpecSetItem>| spec_tlc_rest(s, nl, x, a);
    lemma_comma_after_moves(s, Some(blank(nl)));
    assert forall|x: int, a: Seq<SpecSetItem>| 0 <= x <= s.len() implies #[trigger] rest(x, a)
        == list_step(sep, item, rest, s.len() as int, x, a) by {}
    let ends = lemma_list(sep, item, rest, s.len() as int, q, acc);
}

/// An expression list keeps every item it reads, in order.
pub proof fn law_expression_lists_keep_every_item(
    s: Seq<char>,
    nl: bool,
    star: bool,
    q: int,
    acc: Seq<SpecExpression>,
)
    requires
        0 <= q <= s.len(),
        spec_elist_rest(s, nl, star, q, acc) is Ok,
    ensures
        keeps_every_item(
            blank_comma_sep(s, nl),
            |j: int| spec_elist_item(s, nl, star, j),
            s.len() as int,
            q,
            acc,
            spec_elist_rest(s, nl, star, q, acc),
        ),
{
    let sep = blank_comma_sep(s, nl);
    let item = |j: int| spec_elist_item(s, nl, star, j);
    let rest = |x: int, a: Seq<SpecExpression>| spec_elist_rest(s, nl, star, x, a);
    lemma_comma_after_moves(s, Some(blank(nl)));
    assert forall|x: int, a: Seq<SpecExpression>| 0 <= x <= s.len() implies #[trigger] rest(x, a)
        == list_step(sep, item, rest, s.len() as int, x, a) by {}
    let ends = lemma_list(sep, item, rest, s.len() as int, q, acc);
}

/// A dict display keeps every item it reads after a comma, in order.
pub proof fn law_dict_items_keep_every_item(s: Seq<char>, q: int, acc: Seq<SpecDictItem>)
    requires
        0 <= q <= s.len(),
        spec_dictitems_rest(s, q, acc) is Ok,
    ensures
        keeps_every_item(
            bare_comma_sep(s),
            |j: int| spec_dictitem(s, j),
            s.len() as int,
            q,
            acc,
            spec_dictitems_rest(s, q, acc),
        ),
{
    let sep = bare_comma_sep(s);
    let item = |j: int| spec_dictitem(s, j);
    let rest = |x: int, a: Seq<SpecDictItem>| spec_dictitems_rest(s, x, a);
    assert forall|x: int, a: Seq<SpecDictItem>| 0 <= x <= s.len() implies #[trigger] rest(x, a)
        == list_step(sep, item, rest, s.len() as int, x, a) by {}
    let ends = lemma_list(sep, item, rest, s.len() as int, q, acc);
}

/// A set display keeps every item it reads after a comma, in order.
pub proof fn law_set_items_keep_every_item(s: Seq<char>, q: int, acc: Seq<SpecSetItem>)
    requires
        0 <= q <= s.len(),
        spec_setitems_rest(s, q, acc) is Ok,
    ensures
        keeps_every_item(
            bare_comma_sep(s),
            |j: int| spec_setitem(s, j),
            s.len() as int,
            q,
            acc,
            spec_setitems_rest(s, q, acc),
        ),
{
    let sep = bare_comma_sep(s);
    let item = |j: int| spec_setitem(s, j);
    let rest = |x: int, a: Seq<SpecSetItem>| spec_setitems_rest(s, x, a);
    assert forall|x: int, a: Seq<SpecSetItem>| 0 <= x <= s.len() implies #[trigger] rest(x, a)
        == list_step(sep, item, rest, s.len() as int, x, a) by {}
    let ends = lemma_list(sep, item, rest, s.len() as int, q, acc);
}

/// The arguments of a call keep every argument read, in order.
pub proof fn law_arguments_keep_every_item(
    s: Seq<char>,
    nl: bool,
    q: int,
    acc: Seq<SpecRawArgument>,
)
    requires
        0 <= q <= s.len(),
        spec_args_rest(s, nl, q, acc) is Ok,
    ensures
        keeps_every_item(
            comma_sep(s),
            |j: int| spec_argument(s, nl, j),
            s.len() as int,
            q,
            acc,
            spec_args_rest(s, nl, q, acc),
        ),
{
    let sep = comma_sep(s);
    let item = |j: int| spec_argument(s, nl, j);
    let rest = |x: int, a: Seq<SpecRawArgument>| spec_args_rest(s, nl, x, a);
    lemma_comma_after_moves(s, Some(CharClass::AnyWs));
    assert forall|x: int, a: Seq<SpecRawArgument>| 0 <= x <= s.len() implies #[trigger] rest(
        x,
        a,
    ) == list_step(sep, item, rest, s.len() as int, x, a) by {}
    let ends = lemma_list(sep, item, rest, s.len() as int, q, acc);
}

} // verus!
