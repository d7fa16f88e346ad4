use pyexpr::ast::{
    Arglist, Argument, Bop, ComprehensionChunk, DictItem, Expression, SetItem, Subscript, Uop,
};
use pyexpr::expressions::{ExpressionParser, NewlinesAreNotSpaces, Parsed};
use pyexpr::result::{ArgumentError, ParseError};

type P = ExpressionParser<NewlinesAreNotSpaces>;

fn name(s: &str) -> Expression {
    Expression::Name(s.to_string())
}

fn bname(s: &str) -> Box<Expression> {
    Box::new(name(s))
}

fn bop(op: Bop, a: Expression, b: Expression) -> Expression {
    Expression::Bop(op, Box::new(a), Box::new(b))
}

fn ok<T>(rest: &str, v: T) -> Parsed<T> {
    Ok((rest.to_string(), v))
}

fn call(f: Expression, positional: Vec<Argument<Expression>>, keyword: Vec<Argument<(String, Expression)>>) -> Box<Expression> {
    Box::new(Expression::Call(
        Box::new(f),
        Arglist { positional_args: positional, keyword_args: keyword },
    ))
}

fn kw(k: &str, v: &str) -> Argument<(String, Expression)> {
    Argument::Normal((k.to_string(), name(v)))
}

fn subscript(e: &str, items: Vec<Subscript>) -> Box<Expression> {
    Box::new(Expression::Subscript(bname(e), items))
}

fn for_bar_in_baz() -> Vec<ComprehensionChunk> {
    vec![ComprehensionChunk::For { is_async: false, item: vec![name("bar")], iterator: name("baz") }]
}

/// The rest of the input where an argument list was refused, and why.
fn refused<T>(input: &str, r: Parsed<T>) -> (String, ArgumentError) {
    match r {
        Err(ParseError::Failure(p, k)) => (input[p..].to_string(), k),
        _ => panic!("the argument list was not refused"),
    }
}

#[test]
fn test_atom() {
    assert_eq!(P::atom("foo "), ok(" ", bname("foo")));
    assert_eq!(P::atom(r#""foo" "#), ok(" ", Box::new(Expression::String("foo".to_string()))));
    assert_eq!(P::atom(r#""foo" "bar""#), ok("", Box::new(Expression::String("foobar".to_string()))));
    assert_eq!(P::atom(r#""fo\"o" "#), ok(" ", Box::new(Expression::String("fo\"o".to_string()))));
    assert_eq!(P::atom(r#""fo"o" "#), ok(r#"o" "#, Box::new(Expression::String("fo".to_string()))));
    assert_eq!(P::atom(r#""fo \" o" "#), ok(" ", Box::new(Expression::String("fo \" o".to_string()))));
    assert_eq!(P::atom(r#"'fo \' o' "#), ok(" ", Box::new(Expression::String("fo ' o".to_string()))));
}

#[test]
fn test_ternary() {
    assert_eq!(
        P::test("foo if bar else baz"),
        ok("", Box::new(Expression::Ternary(bname("foo"), bname("bar"), bname("baz"))))
    );
}

#[test]
fn test_bool_ops() {
    assert_eq!(
        P::expr("foo & bar | baz ^ qux"),
        ok("", Box::new(bop(Bop::BitOr,
            bop(Bop::BitAnd, name("foo"), name("bar")),
            bop(Bop::BitXor, name("baz"), name("qux")),
        )))
    );
    assert_eq!(
        P::expr("foo | bar & baz ^ qux"),
        ok("", Box::new(bop(Bop::BitOr,
            name("foo"),
            bop(Bop::BitXor, bop(Bop::BitAnd, name("bar"), name("baz")), name("qux")),
        )))
    );
}

#[test]
fn test_shift_expr() {
    assert_eq!(P::shift_expr("foo << bar"), ok("", Box::new(bop(Bop::Lshift, name("foo"), name("bar")))));
    assert_eq!(P::shift_expr("foo >> bar"), ok("", Box::new(bop(Bop::Rshift, name("foo"), name("bar")))));
}

#[test]
fn test_arith_expr() {
    assert_eq!(P::arith_expr("foo + bar"), ok("", Box::new(bop(Bop::Add, name("foo"), name("bar")))));
    assert_eq!(
        P::arith_expr("foo * bar + baz"),
        ok("", Box::new(bop(Bop::Add, bop(Bop::Mult, name("foo"), name("bar")), name("baz"))))
    );
    assert_eq!(
        P::arith_expr("foo + bar * baz"),
        ok("", Box::new(bop(Bop::Add, name("foo"), bop(Bop::Mult, name("bar"), name("baz")))))
    );
}

#[test]
fn test_term() {
    assert_eq!(P::term("foo * bar"), ok("", Box::new(bop(Bop::Mult, name("foo"), name("bar")))));
    assert_eq!(
        P::term("foo ** bar * baz"),
        ok("", Box::new(bop(Bop::Mult, bop(Bop::Power, name("foo"), name("bar")), name("baz"))))
    );
    assert_eq!(
        P::term("foo * bar ** baz"),
        ok("", Box::new(bop(Bop::Mult, name("foo"), bop(Bop::Power, name("bar"), name("baz")))))
    );
}

#[test]
fn test_power() {
    assert_eq!(P::factor("foo ** bar"), ok("", Box::new(bop(Bop::Power, name("foo"), name("bar")))));
    assert_eq!(
        P::factor("foo ** + bar"),
        ok("", Box::new(bop(Bop::Power, name("foo"), Expression::Uop(Uop::Plus, bname("bar")))))
    );
}

#[test]
fn test_call_noarg() {
    assert_eq!(P::atom_expr("foo()"), ok("", call(name("foo"), vec![], vec![])));
}

#[test]
fn test_call_positional() {
    assert_eq!(
        P::atom_expr("foo(bar)"),
        ok("", call(name("foo"), vec![Argument::Normal(name("bar"))], vec![]))
    );
    assert_eq!(
        P::atom_expr("foo(bar, baz)"),
        ok("", call(name("foo"), vec![Argument::Normal(name("bar")), Argument::Normal(name("baz"))], vec![]))
    );
    assert_eq!(
        P::atom_expr("foo(bar, baz, *qux)"),
        ok("", call(name("foo"), vec![
            Argument::Normal(name("bar")),
            Argument::Normal(name("baz")),
            Argument::Star(name("qux")),
        ], vec![]))
    );
    assert_eq!(
        P::atom_expr("foo(bar, *baz, qux)"),
        ok("", call(name("foo"), vec![
            Argument::Normal(name("bar")),
            Argument::Star(name("baz")),
            Argument::Normal(name("qux")),
        ], vec![]))
    );
    assert_eq!(
        P::atom_expr("foo(bar, *baz, *qux)"),
        ok("", call(name("foo"), vec![
            Argument::Normal(name("bar")),
            Argument::Star(name("baz")),
            Argument::Star(name("qux")),
        ], vec![]))
    );
}

#[test]
fn test_call_keyword() {
    assert_eq!(
        P::atom_expr("foo(bar1=bar2)"),
        ok("", call(name("foo"), vec![], vec![kw("bar1", "bar2")]))
    );
    assert_eq!(
        P::atom_expr("foo(bar1=bar2, baz1=baz2)"),
        ok("", call(name("foo"), vec![], vec![kw("bar1", "bar2"), kw("baz1", "baz2")]))
    );
    assert_eq!(
        P::atom_expr("foo(bar1=bar2, baz1=baz2, qux1=qux2)"),
        ok("", call(name("foo"), vec![], vec![kw("bar1", "bar2"), kw("baz1", "baz2"), kw("qux1", "qux2")]))
    );
    assert_eq!(
        P::atom_expr("foo(bar1=bar2, baz1=baz2, **qux)"),
        ok("", call(name("foo"), vec![], vec![kw("bar1", "bar2"), kw("baz1", "baz2"), Argument::Star(name("qux"))]))
    );
    assert_eq!(
        P::atom_expr("foo(bar1=bar2, **baz, **qux)"),
        ok("", call(name("foo"), vec![], vec![kw("bar1", "bar2"), Argument::Star(name("baz")), Argument::Star(name("qux"))]))
    );
    assert_eq!(
        P::atom_expr("foo(bar1=bar2, **baz, qux1=qux2)"),
        ok("", call(name("foo"), vec![], vec![kw("bar1", "bar2"), Argument::Star(name("baz")), kw("qux1", "qux2")]))
    );
}

#[test]
fn call_badargs() {
    let input = "foo(bar()=baz)";
    assert_eq!(refused(input, P::atom_expr(input)), (")".to_string(), ArgumentError::KeywordExpression));
    let input = "foo(**baz, qux)";
    assert_eq!(refused(input, P::atom_expr(input)), (")".to_string(), ArgumentError::PositionalAfterKeyword));
    let input = "foo(**baz, *qux)";
    assert_eq!(refused(input, P::atom_expr(input)), (")".to_string(), ArgumentError::StarargsAfterKeyword));
    let input = "foo(bar1=bar2, qux)";
    assert_eq!(refused(input, P::atom_expr(input)), (")".to_string(), ArgumentError::PositionalAfterKeyword));
    let input = "foo(bar1=bar2, *qux)";
    assert_eq!(refused(input, P::atom_expr(input)), (")".to_string(), ArgumentError::StarargsAfterKeyword));
}

#[test]
fn test_subscript_simple() {
    assert_eq!(P::atom_expr("foo[bar]"), ok("", subscript("foo", vec![Subscript::Simple(name("bar"))])));
}

#[test]
fn test_subscript_double() {
    assert_eq!(
        P::atom_expr("foo[bar:baz]"),
        ok("", subscript("foo", vec![Subscript::Double(Some(name("bar")), Some(name("baz")))]))
    );
    assert_eq!(
        P::atom_expr("foo[bar:]"),
        ok("", subscript("foo", vec![Subscript::Double(Some(name("bar")), None)]))
    );
    assert_eq!(
        P::atom_expr("foo[:baz]"),
        ok("", subscript("foo", vec![Subscript::Double(None, Some(name("baz")))]))
    );
    assert_eq!(P::atom_expr("foo[:]"), ok("", subscript("foo", vec![Subscript::Double(None, None)])));
}

#[test]
fn test_subscript_triple() {
    assert_eq!(
        P::atom_expr("foo[bar:baz:qux]"),
        ok("", subscript("foo", vec![Subscript::Triple(Some(name("bar")), Some(name("baz")), Some(name("qux")))]))
    );
    assert_eq!(
        P::atom_expr("foo[bar::qux]"),
        ok("", subscript("foo", vec![Subscript::Triple(Some(name("bar")), None, Some(name("qux")))]))
    );
    assert_eq!(
        P::atom_expr("foo[bar::]"),
        ok("", subscript("foo", vec![Subscript::Triple(Some(name("bar")), None, None)]))
    );
    assert_eq!(
        P::atom_expr("foo[:baz:qux]"),
        ok("", subscript("foo", vec![Subscript::Triple(None, Some(name("baz")), Some(name("qux")))]))
    );
    assert_eq!(
        P::atom_expr("foo[:baz:]"),
        ok("", subscript("foo", vec![Subscript::Triple(None, Some(name("baz")), None)]))
    );
    assert_eq!(P::atom_expr("foo[::]"), ok("", subscript("foo", vec![Subscript::Triple(None, None, None)])));
}

#[test]
fn test_attribute() {
    assert_eq!(
        P::atom_expr("foo.bar"),
        ok("", Box::new(Expression::Attribute(bname("foo"), "bar".to_string())))
    );
}

#[test]
fn test_call_and_attribute() {
    assert_eq!(
        P::atom_expr("foo.bar().baz"),
        ok("", Box::new(Expression::Attribute(
            Box::new(Expression::Call(
                Box::new(Expression::Attribute(bname("foo"), "bar".to_string())),
                Arglist::default(),
            )),
            "baz".to_string(),
        )))
    );
}

#[test]
fn test_atom_expr() {
    assert_eq!(
        P::atom_expr("foo.bar[baz]"),
        ok("", Box::new(Expression::Subscript(
            Box::new(Expression::Attribute(bname("foo"), "bar".to_string())),
            vec![Subscript::Simple(name("baz"))],
        )))
    );
}

#[test]
fn test_call_newline() {
    let ast = || call(
        name("foo"),
        vec![
            Argument::Normal(name("bar")),
            Argument::Normal(bop(Bop::Add, name("baz"), name("qux"))),
        ],
        vec![],
    );
    assert_eq!(P::atom_expr("foo(bar, baz + qux)"), ok("", ast()));
    assert_eq!(P::atom_expr("foo(bar, baz +\nqux)"), ok("", ast()));
}

#[test]
fn test_setlit() {
    assert_eq!(
        P::atom("{foo}"),
        ok("", Box::new(Expression::SetLiteral(vec![SetItem::Unique(name("foo"))])))
    );
    assert_eq!(
        P::atom("{foo, bar, baz}"),
        ok("", Box::new(Expression::SetLiteral(vec![
            SetItem::Unique(name("foo")),
            SetItem::Unique(name("bar")),
            SetItem::Unique(name("baz")),
        ])))
    );
    assert_eq!(
        P::atom("{foo, *bar, baz}"),
        ok("", Box::new(Expression::SetLiteral(vec![
            SetItem::Unique(name("foo")),
            SetItem::Star(name("bar")),
            SetItem::Unique(name("baz")),
        ])))
    );
}

#[test]
fn test_dictlit() {
    assert_eq!(P::atom("{}"), ok("", Box::new(Expression::DictLiteral(vec![]))));
    assert_eq!(
        P::atom("{foo1:foo2}"),
        ok("", Box::new(Expression::DictLiteral(vec![DictItem::Unique(name("foo1"), name("foo2"))])))
    );
    assert_eq!(
        P::atom("{foo1:foo2, bar1:bar2, baz1:baz2}"),
        ok("", Box::new(Expression::DictLiteral(vec![
            DictItem::Unique(name("foo1"), name("foo2")),
            DictItem::Unique(name("bar1"), name("bar2")),
            DictItem::Unique(name("baz1"), name("baz2")),
        ])))
    );
    assert_eq!(
        P::atom("{foo1:foo2, **bar, baz1:baz2}"),
        ok("", Box::new(Expression::DictLiteral(vec![
            DictItem::Unique(name("foo1"), name("foo2")),
            DictItem::Star(name("bar")),
            DictItem::Unique(name("baz1"), name("baz2")),
        ])))
    );
}

#[test]
fn test_comp_for() {
    assert_eq!(P::comp_for("for bar in baz"), ok("", for_bar_in_baz()));
}

#[test]
fn test_listcomp() {
    assert_eq!(
        P::atom("[foo for bar in baz]"),
        ok("", Box::new(Expression::ListComp(Box::new(SetItem::Unique(name("foo"))), for_bar_in_baz())))
    );
}

#[test]
fn test_listcomp2() {
    assert_eq!(
        P::testlist_comp("foo for bar in baz"),
        ok("", Expression::ListComp(Box::new(SetItem::Unique(name("foo"))), for_bar_in_baz()))
    );
}

#[test]
fn test_setcomp() {
    assert_eq!(
        P::atom("{foo for bar in baz}"),
        ok("", Box::new(Expression::SetComp(Box::new(SetItem::Unique(name("foo"))), for_bar_in_baz())))
    );
}
