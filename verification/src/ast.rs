//! Abstract syntax of Python expressions, in two forms: the executable
//! tree that the parser builds, and its mathematical model (the `Spec*`
//! types) over which the grammar and the contracts are written.
use vstd::prelude::*;

verus! {

/// An identifier.
pub type Name = String;

/// Binary operators, including comparisons and the boolean connectives.
#[derive(Debug, Clone, Copy, PartialEq, Eq)]
pub enum Bop {
    Add,
    Sub,
    Mult,
    Matmult,
    Mod,
    Floordiv,
    Div,
    Power,
    Lshift,
    Rshift,
    BitAnd,
    BitXor,
    BitOr,
    Lt,
    Gt,
    Eq,
    Leq,
    Geq,
    Neq,
    In,
    NotIn,
    Is,
    IsNot,
    And,
    Or,
}

/// Unary operators.
#[derive(Debug, Clone, Copy, PartialEq, Eq)]
pub enum Uop {
    Plus,
    Minus,
    Invert,
    Not,
}

/// An argument of a call: a plain one (`T`) or a starred one (`*e` among
/// the positional arguments, `**e` among the keyword arguments).
#[derive(Debug, PartialEq)]
pub enum Argument<T> {
    Normal(T),
    Star(Expression),
}

/// The arguments of a call, positional ones first.
#[derive(Debug, PartialEq, Default)]
pub struct Arglist {
    pub positional_args: Vec<Argument<Expression>>,
    pub keyword_args: Vec<Argument<(Name, Expression)>>,
}

/// The starred parameter of a lambda: none, a bare `*`, or `*name`.
#[derive(Debug, PartialEq, Default)]
pub enum StarParams {
    #[default]
    No,
    Anonymous,
    Named(Name),
}

/// The parameters of a lambda: plain ones with their defaults, the starred
/// one, the keyword-only ones with their defaults, and `**name`.
#[derive(Debug, PartialEq, Default)]
pub struct UntypedArgsList {
    pub positional_args: Vec<(Name, Option<Expression>)>,
    pub star_args: StarParams,
    pub keyword_args: Vec<(Name, Option<Expression>)>,
    pub star_kwargs: Option<Name>,
}

/// One item of a subscript list: `e`, `[e]:[e]` or `[e]:[e]:[e]`.
#[derive(Debug, PartialEq)]
pub enum Subscript {
    Simple(Expression),
    Double(Option<Expression>, Option<Expression>),
    Triple(Option<Expression>, Option<Expression>, Option<Expression>),
}

/// An item of a set, list or tuple display: `e` or `*e`.
#[derive(Debug, PartialEq)]
pub enum SetItem {
    Star(Expression),
    Unique(Expression),
}

/// An item of a dictionary display: `k: v` or `**e`.
#[derive(Debug, PartialEq)]
pub enum DictItem {
    Star(Expression),
    Unique(Expression, Expression),
}

/// One clause of a comprehension.
#[derive(Debug, PartialEq)]
pub enum ComprehensionChunk {
    If { cond: Expression },
    For { is_async: bool, item: Vec<Expression>, iterator: Expression },
}

/// A Python expression.
#[derive(Debug, PartialEq)]
pub enum Expression {
    Ellipsis,
    NoneConst,
    True,
    False,
    Name(Name),
    Int(i64),
    String(String),
    Bop(Bop, Box<Expression>, Box<Expression>),
    Uop(Uop, Box<Expression>),
    Ternary(Box<Expression>, Box<Expression>, Box<Expression>),
    Star(Box<Expression>),
    Call(Box<Expression>, Arglist),
    Subscript(Box<Expression>, Vec<Subscript>),
    Attribute(Box<Expression>, Name),
    DictLiteral(Vec<DictItem>),
    SetLiteral(Vec<SetItem>),
    ListLiteral(Vec<SetItem>),
    TupleLiteral(Vec<SetItem>),
    DictComp(Box<DictItem>, Vec<ComprehensionChunk>),
    SetComp(Box<SetItem>, Vec<ComprehensionChunk>),
    ListComp(Box<SetItem>, Vec<ComprehensionChunk>),
    Generator(Box<SetItem>, Vec<ComprehensionChunk>),
    Yield(Vec<Expression>),
    YieldFrom(Box<Expression>),
    Lambdef(UntypedArgsList, Box<Expression>),
}

// ---------------------------------------------------------------------
// The mathematical model
// ---------------------------------------------------------------------

pub enum SpecArgument<T> {
    Normal(T),
    Star(SpecExpression),
}

pub struct SpecArglist {
    pub positional_args: Seq<SpecArgument<SpecExpression>>,
    pub keyword_args: Seq<SpecArgument<(Seq<char>, SpecExpression)>>,
}

pub enum SpecStarParams {
    No,
    Anonymous,
    Named(Seq<char>),
}

pub struct SpecArgsList {
    pub positional_args: Seq<(Seq<char>, Option<SpecExpression>)>,
    pub star_args: SpecStarParams,
    pub keyword_args: Seq<(Seq<char>, Option<SpecExpression>)>,
    pub star_kwargs: Option<Seq<char>>,
}

pub enum SpecSubscript {
    Simple(SpecExpression),
    Double(Option<SpecExpression>, Option<SpecExpression>),
    Triple(Option<SpecExpression>, Option<SpecExpression>, Option<SpecExpression>),
}

pub enum SpecSetItem {
    Star(SpecExpression),
    Unique(SpecExpression),
}

pub enum SpecDictItem {
    Star(SpecExpression),
    Unique(SpecExpression, SpecExpression),
}

pub enum SpecChunk {
    If { cond: SpecExpression },
    For { is_async: bool, item: Seq<SpecExpression>, iterator: SpecExpression },
}

pub enum SpecExpression {
    Ellipsis,
    NoneConst,
    True,
    False,
    Name(Seq<char>),
    Int(int),
    String(Seq<char>),
    Bop(Bop, Box<SpecExpression>, Box<SpecExpression>),
    Uop(Uop, Box<SpecExpression>),
    Ternary(Box<SpecExpression>, Box<SpecExpression>, Box<SpecExpression>),
    Star(Box<SpecExpression>),
    Call(Box<SpecExpression>, SpecArglist),
    Subscript(Box<SpecExpression>, Seq<SpecSubscript>),
    Attribute(Box<SpecExpression>, Seq<char>),
    DictLiteral(Seq<SpecDictItem>),
    SetLiteral(Seq<SpecSetItem>),
    ListLiteral(Seq<SpecSetItem>),
    TupleLiteral(Seq<SpecSetItem>),
    DictComp(Box<SpecDictItem>, Seq<SpecChunk>),
    SetComp(Box<SpecSetItem>, Seq<SpecChunk>),
    ListComp(Box<SpecSetItem>, Seq<SpecChunk>),
    Generator(Box<SpecSetItem>, Seq<SpecChunk>),
    Yield(Seq<SpecExpression>),
    YieldFrom(Box<SpecExpression>),
    Lambdef(SpecArgsList, Box<SpecExpression>),
}

// ---------------------------------------------------------------------
// From the executable tree to its model
// ---------------------------------------------------------------------

pub open spec fn model_expr(e: Expression) -> SpecExpression
    decreases e,
{
    match e {
        Expression::Ellipsis => SpecExpression::Ellipsis,
        Expression::NoneConst => SpecExpression::NoneConst,
        Expression::True => SpecExpression::True,
        Expression::False => SpecExpression::False,
        Expression::Name(n) => SpecExpression::Name(n@),
        Expression::Int(i) => SpecExpression::Int(i as int),
        Expression::String(t) => SpecExpression::String(t@),
        Expression::Bop(op, a, b) => SpecExpression::Bop(
            op,
            Box::new(model_expr(*a)),
            Box::new(model_expr(*b)),
        ),
        Expression::Uop(op, a) => SpecExpression::Uop(op, Box::new(model_expr(*a))),
        Expression::Ternary(a, b, c) => SpecExpression::Ternary(
            Box::new(model_expr(*a)),
            Box::new(model_expr(*b)),
            Box::new(model_expr(*c)),
        ),
        Expression::Star(a) => SpecExpression::Star(Box::new(model_expr(*a))),
        Expression::Call(f, args) => SpecExpression::Call(
            Box::new(model_expr(*f)),
            SpecArglist {
                positional_args: model_pos_args(args.positional_args@),
                keyword_args: model_kw_args(args.keyword_args@),
            },
        ),
        Expression::Subscript(a, subs) => SpecExpression::Subscript(
            Box::new(model_expr(*a)),
            model_subscripts(subs@),
        ),
        Expression::Attribute(a, n) => SpecExpression::Attribute(Box::new(model_expr(*a)), n@),
        Expression::DictLiteral(v) => SpecExpression::DictLiteral(model_dict_items(v@)),
        Expression::SetLiteral(v) => SpecExpression::SetLiteral(model_set_items(v@)),
        Expression::ListLiteral(v) => SpecExpression::ListLiteral(model_set_items(v@)),
        Expression::TupleLiteral(v) => SpecExpression::TupleLiteral(model_set_items(v@)),
        Expression::DictComp(i, c) => SpecExpression::DictComp(
            Box::new(model_dict_item(*i)),
            model_chunks(c@),
        ),
        Expression::SetComp(i, c) => SpecExpression::SetComp(
            Box::new(model_set_item(*i)),
            model_chunks(c@),
        ),
        Expression::ListComp(i, c) => SpecExpression::ListComp(
            Box::new(model_set_item(*i)),
            model_chunks(c@),
        ),
        Expression::Generator(i, c) => SpecExpression::Generator(
            Box::new(model_set_item(*i)),
            model_chunks(c@),
        ),
        Expression::Yield(v) => SpecExpression::Yield(model_exprs(v@)),
        Expression::YieldFrom(a) => SpecExpression::YieldFrom(Box::new(model_expr(*a))),
        Expression::Lambdef(args, body) => SpecExpression::Lambdef(
            SpecArgsList {
                positional_args: model_params(args.positional_args@),
                star_args: model_star_params(args.star_args),
                keyword_args: model_params(args.keyword_args@),
                star_kwargs: match args.star_kwargs {
                    Some(n) => Some(n@),
                    None => None,
                },
            },
            Box::new(model_expr(*body)),
        ),
    }
}

pub open spec fn model_star_params(x: StarParams) -> SpecStarParams {
    match x {
        StarParams::No => SpecStarParams::No,
        StarParams::Anonymous => SpecStarParams::Anonymous,
        StarParams::Named(n) => SpecStarParams::Named(n@),
    }
}

pub open spec fn model_param(x: (Name, Option<Expression>)) -> (Seq<char>, Option<SpecExpression>)
    decreases x,
{
    (x.0@, model_opt(x.1))
}

pub open spec fn model_params(v: Seq<(Name, Option<Expression>)>) -> Seq<
    (Seq<char>, Option<SpecExpression>),
>
    decreases v,
{
    Seq::new(
        v.len(),
        |i: int|
            if 0 <= i < v.len() {
                model_param(v[i])
            } else {
                (Seq::empty(), None)
            },
    )
}

/// The parameter list with no parameters.
pub open spec fn no_params() -> SpecArgsList {
    SpecArgsList {
        positional_args: Seq::empty(),
        star_args: SpecStarParams::No,
        keyword_args: Seq::empty(),
        star_kwargs: None,
    }
}

pub open spec fn model_exprs(v: Seq<Expression>) -> Seq<SpecExpression>
    decreases v,
{
    Seq::new(
        v.len(),
        |i: int|
            if 0 <= i < v.len() {
                model_expr(v[i])
            } else {
                SpecExpression::Ellipsis
            },
    )
}

pub open spec fn model_opt(o: Option<Expression>) -> Option<SpecExpression>
    decreases o,
{
    match o {
        Some(e) => Some(model_expr(e)),
        None => None,
    }
}

pub open spec fn model_pos_arg(a: Argument<Expression>) -> SpecArgument<SpecExpression>
    decreases a,
{
    match a {
        Argument::Normal(e) => SpecArgument::Normal(model_expr(e)),
        Argument::Star(e) => SpecArgument::Star(model_expr(e)),
    }
}

pub open spec fn model_kw_arg(a: Argument<(Name, Expression)>) -> SpecArgument<
    (Seq<char>, SpecExpression),
>
    decreases a,
{
    match a {
        Argument::Normal(ne) => SpecArgument::Normal((ne.0@, model_expr(ne.1))),
        Argument::Star(e) => SpecArgument::Star(model_expr(e)),
    }
}

pub open spec fn model_pos_args(v: Seq<Argument<Expression>>) -> Seq<
    SpecArgument<SpecExpression>,
>
    decreases v,
{
    Seq::new(
        v.len(),
        |i: int|
            if 0 <= i < v.len() {
                model_pos_arg(v[i])
            } else {
                SpecArgument::Star(SpecExpression::Ellipsis)
            },
    )
}

pub open spec fn model_kw_args(v: Seq<Argument<(Name, Expression)>>) -> Seq<
    SpecArgument<(Seq<char>, SpecExpression)>,
>
    decreases v,
{
    Seq::new(
        v.len(),
        |i: int|
            if 0 <= i < v.len() {
                model_kw_arg(v[i])
            } else {
                SpecArgument::Star(SpecExpression::Ellipsis)
            },
    )
}

pub open spec fn model_subscript(x: Subscript) -> SpecSubscript
    decreases x,
{
    match x {
        Subscript::Simple(e) => SpecSubscript::Simple(model_expr(e)),
        Subscript::Double(a, b) => SpecSubscript::Double(model_opt(a), model_opt(b)),
        Subscript::Triple(a, b, c) => SpecSubscript::Triple(
            model_opt(a),
            model_opt(b),
            model_opt(c),
        ),
    }
}

pub open spec fn model_subscripts(v: Seq<Subscript>) -> Seq<SpecSubscript>
    decreases v,
{
    Seq::new(
        v.len(),
        |i: int|
            if 0 <= i < v.len() {
                model_subscript(v[i])
            } else {
                SpecSubscript::Double(None, None)
            },
    )
}

pub open spec fn model_set_item(x: SetItem) -> SpecSetItem
    decreases x,
{
    match x {
        SetItem::Star(e) => SpecSetItem::Star(model_expr(e)),
        SetItem::Unique(e) => SpecSetItem::Unique(model_expr(e)),
    }
}

pub open spec fn model_set_items(v: Seq<SetItem>) -> Seq<SpecSetItem>
    decreases v,
{
    Seq::new(
        v.len(),
        |i: int|
            if 0 <= i < v.len() {
                model_set_item(v[i])
            } else {
                SpecSetItem::Star(SpecExpression::Ellipsis)
            },
    )
}

pub open spec fn model_dict_item(x: DictItem) -> SpecDictItem
    decreases x,
{
    match x {
        DictItem::Star(e) => SpecDictItem::Star(model_expr(e)),
        DictItem::Unique(k, v) => SpecDictItem::Unique(model_expr(k), model_expr(v)),
    }
}

pub open spec fn model_dict_items(v: Seq<DictItem>) -> Seq<SpecDictItem>
    decreases v,
{
    Seq::new(
        v.len(),
        |i: int|
            if 0 <= i < v.len() {
                model_dict_item(v[i])
            } else {
                SpecDictItem::Star(SpecExpression::Ellipsis)
            },
    )
}

pub open spec fn model_chunk(x: ComprehensionChunk) -> SpecChunk
    decreases x,
{
    match x {
        ComprehensionChunk::If { cond } => SpecChunk::If { cond: model_expr(cond) },
        ComprehensionChunk::For { is_async, item, iterator } => SpecChunk::For {
            is_async,
            item: model_exprs(item@),
            iterator: model_expr(iterator),
        },
    }
}

pub open spec fn model_chunks(v: Seq<ComprehensionChunk>) -> Seq<SpecChunk>
    decreases v,
{
    Seq::new(
        v.len(),
        |i: int|
            if 0 <= i < v.len() {
                model_chunk(v[i])
            } else {
                SpecChunk::If { cond: SpecExpression::Ellipsis }
            },
    )
}

pub open spec fn model_arglist(a: Arglist) -> SpecArglist {
    SpecArglist {
        positional_args: model_pos_args(a.positional_args@),
        keyword_args: model_kw_args(a.keyword_args@),
    }
}

impl View for Expression {
    type V = SpecExpression;

    open spec fn view(&self) -> SpecExpression {
        model_expr(*self)
    }
}

impl View for Arglist {
    type V = SpecArglist;

    open spec fn view(&self) -> SpecArglist {
        model_arglist(*self)
    }
}

impl View for Subscript {
    type V = SpecSubscript;

    open spec fn view(&self) -> SpecSubscript {
        model_subscript(*self)
    }
}

impl View for SetItem {
    type V = SpecSetItem;

    open spec fn view(&self) -> SpecSetItem {
        model_set_item(*self)
    }
}

impl View for DictItem {
    type V = SpecDictItem;

    open spec fn view(&self) -> SpecDictItem {
        model_dict_item(*self)
    }
}

impl View for ComprehensionChunk {
    type V = SpecChunk;

    open spec fn view(&self) -> SpecChunk {
        model_chunk(*self)
    }
}

// ---------------------------------------------------------------------
// The model of a sequence grows by one when the sequence does
// ---------------------------------------------------------------------

pub proof fn lemma_model_exprs_push(v: Seq<Expression>, x: Expression)
    ensures
        model_exprs(v.push(x)) == model_exprs(v).push(model_expr(x)),
{
    assert(model_exprs(v.push(x)) =~= model_exprs(v).push(model_expr(x)));
}

pub proof fn lemma_model_subscripts_push(v: Seq<Subscript>, x: Subscript)
    ensures
        model_subscripts(v.push(x)) == model_subscripts(v).push(model_subscript(x)),
{
    assert(model_subscripts(v.push(x)) =~= model_subscripts(v).push(model_subscript(x)));
}

pub proof fn lemma_model_set_items_push(v: Seq<SetItem>, x: SetItem)
    ensures
        model_set_items(v.push(x)) == model_set_items(v).push(model_set_item(x)),
{
    assert(model_set_items(v.push(x)) =~= model_set_items(v).push(model_set_item(x)));
}

pub proof fn lemma_model_dict_items_push(v: Seq<DictItem>, x: DictItem)
    ensures
        model_dict_items(v.push(x)) == model_dict_items(v).push(model_dict_item(x)),
{
    assert(model_dict_items(v.push(x)) =~= model_dict_items(v).push(model_dict_item(x)));
}

pub proof fn lemma_model_pos_args_push(v: Seq<Argument<Expression>>, x: Argument<Expression>)
    ensures
        model_pos_args(v.push(x)) == model_pos_args(v).push(model_pos_arg(x)),
{
    assert(model_pos_args(v.push(x)) =~= model_pos_args(v).push(model_pos_arg(x)));
}

pub proof fn lemma_model_kw_args_push(
    v: Seq<Argument<(Name, Expression)>>,
    x: Argument<(Name, Expression)>,
)
    ensures
        model_kw_args(v.push(x)) == model_kw_args(v).push(model_kw_arg(x)),
{
    assert(model_kw_args(v.push(x)) =~= model_kw_args(v).push(model_kw_arg(x)));
}

/// `first` followed by the items of `rest`.
pub fn prepend_set_item(first: SetItem, rest: Vec<SetItem>) -> (v: Vec<SetItem>)
    ensures
        model_set_items(v@) == seq![model_set_item(first)] + model_set_items(rest@),
{
    let ghost r = rest@;
    let mut v = Vec::new();
    v.push(first);
    let mut rest = rest;
    v.append(&mut rest);
    assert(model_set_items(v@) =~= seq![model_set_item(first)] + model_set_items(r));
    v
}

/// `first` followed by the items of `rest`.
pub fn prepend_dict_item(first: DictItem, rest: Vec<DictItem>) -> (v: Vec<DictItem>)
    ensures
        model_dict_items(v@) == seq![model_dict_item(first)] + model_dict_items(rest@),
{
    let ghost r = rest@;
    let mut v = Vec::new();
    v.push(first);
    let mut rest = rest;
    v.append(&mut rest);
    assert(model_dict_items(v@) =~= seq![model_dict_item(first)] + model_dict_items(r));
    v
}

/// `first` followed by the clauses of `rest`.
pub fn prepend_chunk(first: ComprehensionChunk, rest: Vec<ComprehensionChunk>) -> (v: Vec<
    ComprehensionChunk,
>)
    ensures
        model_chunks(v@) == seq![model_chunk(first)] + model_chunks(rest@),
{
    let ghost r = rest@;
    let mut v = Vec::new();
    v.push(first);
    let mut rest = rest;
    v.append(&mut rest);
    assert(model_chunks(v@) =~= seq![model_chunk(first)] + model_chunks(r));
    v
}

/// The generator expression `(t for ...)` with the clauses `c`.
pub fn unique_generator(t: Expression, c: Vec<ComprehensionChunk>) -> (g: Expression)
    ensures
        g@ == SpecExpression::Generator(Box::new(SpecSetItem::Unique(t@)), model_chunks(c@)),
{
    let i = SetItem::Unique(t);
    assert(model_set_item(i) == SpecSetItem::Unique(t@));
    Expression::Generator(Box::new(i), c)
}

/// The lambda without parameters whose body is `body`.
pub fn lambda_without_params(body: Expression) -> (e: Expression)
    ensures
        e@ == SpecExpression::Lambdef(no_params(), Box::new(body@)),
{
    let args = UntypedArgsList {
        positional_args: Vec::new(),
        star_args: StarParams::No,
        keyword_args: Vec::new(),
        star_kwargs: None,
    };
    assert(model_params(args.positional_args@) =~= Seq::empty());
    assert(model_params(args.keyword_args@) =~= Seq::empty());
    Expression::Lambdef(args, Box::new(body))
}

/// A vector holding `x` alone.
pub fn single_expr(x: Expression) -> (v: Vec<Expression>)
    ensures
        model_exprs(v@) == seq![model_expr(x)],
{
    let mut v = Vec::new();
    v.push(x);
    assert(model_exprs(v@) =~= seq![model_expr(x)]);
    v
}

} // verus!
