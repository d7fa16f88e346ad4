use pyexpr::ast::{
    UntypedArgsList, Arglist, Argument, Bop, ComprehensionChunk, DictItem, Expression, SetItem, Subscript, Uop,
};
use pyexpr::expressions::{ExpressionParser, NewlinesAreNotSpaces, NewlinesAreSpaces, Parsed};
use pyexpr::result::{ArgumentError, ParseError};

type P = ExpressionParser<NewlinesAreNotSpaces>;
type Pn = ExpressionParser<NewlinesAreSpaces>;

fn name(s: &str) -> Expression {
    Expression::Name(s.to_string())
}

fn bop(op: Bop, a: Expression, b: Expression) -> Expression {
    Expression::Bop(op, Box::new(a), Box::new(b))
}

fn ok<T>(rest: &str, v: T) -> Parsed<T> {
    Ok((rest.to_string(), v))
}

fn refused<T>(input: &str, r: Parsed<T>) -> (String, ArgumentError) {
    match r {
        Err(ParseError::Failure(p, k)) => (input[p..].to_string(), k),
        _ => panic!("the argument list was not refused"),
    }
}

#[test]
fn operators_of_one_level_group_left() {
    assert_eq!(
        P::arith_expr("a - b - c"),
        ok("", Box::new(bop(Bop::Sub, bop(Bop::Sub, name("a"), name("b")), name("c"))))
    );
    assert_eq!(
        P::or_test("a or b or c"),
        ok("", Box::new(bop(Bop::Or, bop(Bop::Or, name("a"), name("b")), name("c"))))
    );
    assert_eq!(
        P::comparison("a < b < c"),
        ok("", Box::new(bop(Bop::Lt, bop(Bop::Lt, name("a"), name("b")), name("c"))))
    );
    assert_eq!(
        P::term("a / b // c % d"),
        ok("", Box::new(bop(
            Bop::Mod,
            bop(Bop::Floordiv, bop(Bop::Div, name("a"), name("b")), name("c")),
            name("d"),
        )))
    );
}

#[test]
fn operands_bind_tighter_than_their_operator() {
    assert_eq!(
        P::test("a + b * c - d"),
        ok("", Box::new(bop(
            Bop::Sub,
            bop(Bop::Add, name("a"), bop(Bop::Mult, name("b"), name("c"))),
            name("d"),
        )))
    );
    assert_eq!(
        P::or_test("a and b or c and d"),
        ok("", Box::new(bop(
            Bop::Or,
            bop(Bop::And, name("a"), name("b")),
            bop(Bop::And, name("c"), name("d")),
        )))
    );
    assert_eq!(
        P::and_test("not a and b"),
        ok("", Box::new(bop(Bop::And, Expression::Uop(Uop::Not, Box::new(name("a"))), name("b"))))
    );
    assert_eq!(
        P::shift_expr("a << b + c"),
        ok("", Box::new(bop(Bop::Lshift, name("a"), bop(Bop::Add, name("b"), name("c")))))
    );
}

#[test]
fn comparison_operators() {
    assert_eq!(P::comparison("a not in b"), ok("", Box::new(bop(Bop::NotIn, name("a"), name("b")))));
    assert_eq!(P::comparison("a in b"), ok("", Box::new(bop(Bop::In, name("a"), name("b")))));
    assert_eq!(P::comparison("a is b"), ok("", Box::new(bop(Bop::Is, name("a"), name("b")))));
    assert_eq!(P::comparison("a != b"), ok("", Box::new(bop(Bop::Neq, name("a"), name("b")))));
    assert_eq!(P::comparison("a == b"), ok("", Box::new(bop(Bop::Eq, name("a"), name("b")))));
    // `<` and `is` are tried before `<=` and `is not`.
    assert_eq!(P::comparison("a <= b"), ok(" <= b", Box::new(name("a"))));
    assert_eq!(P::comparison("a >= b"), ok(" >= b", Box::new(name("a"))));
    assert_eq!(P::comparison("a is not b"), ok(" is not b", Box::new(name("a"))));
}

#[test]
fn accepted_arglist_keeps_the_order_of_arguments() {
    assert_eq!(
        P::atom_expr("f(a, *b, c=d, **e)"),
        ok("", Box::new(Expression::Call(
            Box::new(name("f")),
            Arglist {
                positional_args: vec![Argument::Normal(name("a")), Argument::Star(name("b"))],
                keyword_args: vec![
                    Argument::Normal(("c".to_string(), name("d"))),
                    Argument::Star(name("e")),
                ],
            },
        )))
    );
    assert_eq!(
        Pn::arglist("a, b=c"),
        ok("", Arglist {
            positional_args: vec![Argument::Normal(name("a"))],
            keyword_args: vec![Argument::Normal(("b".to_string(), name("c")))],
        })
    );
}

#[test]
fn refused_arglist_names_the_first_misplaced_argument() {
    let input = "f(a=b, c, *d)";
    assert_eq!(refused(input, P::atom_expr(input)), (")".to_string(), ArgumentError::PositionalAfterKeyword));
    let input = "f(a=b, *d, c)";
    assert_eq!(refused(input, P::atom_expr(input)), (")".to_string(), ArgumentError::StarargsAfterKeyword));
    let input = "f(a.b=c)";
    assert_eq!(refused(input, P::atom_expr(input)), (")".to_string(), ArgumentError::KeywordExpression));
    let input = "a=b, c";
    assert_eq!(refused(input, Pn::arglist(input)), ("".to_string(), ArgumentError::PositionalAfterKeyword));
}

#[test]
fn generator_argument() {
    // The comprehension must follow the argument directly.
    assert_eq!(P::atom_expr("f(x for x in y)"), ok("(x for x in y)", Box::new(name("f"))));
    assert_eq!(
        P::atom_expr("f(x[0]for x in y)"),
        ok("", Box::new(Expression::Call(
            Box::new(name("f")),
            Arglist {
                positional_args: vec![Argument::Normal(Expression::Generator(
                    Box::new(SetItem::Unique(Expression::Subscript(
                        Box::new(name("x")),
                        vec![Subscript::Simple(Expression::Int(0))],
                    ))),
                    vec![ComprehensionChunk::For { is_async: false, item: vec![name("x")], iterator: name("y") }],
                ))],
                keyword_args: vec![],
            },
        )))
    );
}

#[test]
fn newlines_inside_brackets_are_blanks() {
    let expected = || Box::new(Expression::Call(
        Box::new(name("foo")),
        Arglist {
            positional_args: vec![Argument::Normal(name("bar")), Argument::Normal(name("baz"))],
            keyword_args: vec![],
        },
    ));
    assert_eq!(P::atom_expr("foo(bar,\nbaz)"), ok("", expected()));
    assert_eq!(Pn::atom_expr("foo(bar,\nbaz)"), ok("", expected()));
    assert_eq!(
        P::atom_expr("foo[\nbar]"),
        ok("", Box::new(Expression::Subscript(Box::new(name("foo")), vec![Subscript::Simple(name("bar"))])))
    );
}

#[test]
fn newlines_outside_brackets_depend_on_the_mode() {
    assert_eq!(P::arith_expr("a +\nb"), ok(" +\nb", Box::new(name("a"))));
    assert_eq!(Pn::arith_expr("a +\nb"), ok("", Box::new(bop(Bop::Add, name("a"), name("b")))));
}

#[test]
fn integers() {
    assert_eq!(P::atom("42"), ok("", Box::new(Expression::Int(42))));
    assert_eq!(P::atom("  12 x"), ok("x", Box::new(Expression::Int(12))));
    assert_eq!(P::atom("9223372036854775807"), ok("", Box::new(Expression::Int(i64::MAX))));
    assert_eq!(P::atom("9223372036854775808"), Err(ParseError::IntegerOverflow(0)));
    assert_eq!(P::arith_expr("1 + 99999999999999999999"), Err(ParseError::IntegerOverflow(4)));
}

#[test]
fn keywords_are_not_names() {
    assert_eq!(P::atom("if"), Err(ParseError::Error));
    assert_eq!(P::atom("iffy"), ok("", Box::new(name("iffy"))));
    assert_eq!(P::atom("None"), ok("", Box::new(Expression::NoneConst)));
    assert_eq!(P::atom("True"), ok("", Box::new(Expression::True)));
    assert_eq!(P::atom("False"), ok("", Box::new(Expression::False)));
    assert_eq!(P::atom("..."), ok("", Box::new(Expression::Ellipsis)));
}

#[test]
fn nothing_to_parse() {
    assert_eq!(P::test(""), Err(ParseError::Error));
    assert_eq!(P::atom(")"), Err(ParseError::Error));
    assert_eq!(P::possibly_empty_testlist(""), ok("", vec![]));
    assert_eq!(P::testlist(""), Err(ParseError::Error));
}

#[test]
fn parenthesized_forms() {
    assert_eq!(
        P::atom("(foo, bar)"),
        ok("", Box::new(Expression::TupleLiteral(vec![SetItem::Unique(name("foo")), SetItem::Unique(name("bar"))])))
    );
    assert_eq!(
        P::atom("(foo for bar in baz)"),
        ok("", Box::new(Expression::Generator(
            Box::new(SetItem::Unique(name("foo"))),
            vec![ComprehensionChunk::For { is_async: false, item: vec![name("bar")], iterator: name("baz") }],
        )))
    );
    assert_eq!(P::atom("(yield foo)"), ok("", Box::new(Expression::Yield(vec![name("foo")]))));
    assert_eq!(
        P::atom("[foo, *bar]"),
        ok("", Box::new(Expression::ListLiteral(vec![
            SetItem::Unique(name("foo")),
            SetItem::Star(Expression::Star(Box::new(name("bar")))),
        ])))
    );
}

#[test]
fn yield_forms() {
    assert_eq!(P::yield_expr("yield from foo"), ok("", Expression::YieldFrom(Box::new(name("foo")))));
    assert_eq!(P::yield_expr("yield foo, bar"), ok("", Expression::Yield(vec![name("foo"), name("bar")])));
}

#[test]
fn lists_of_expressions() {
    assert_eq!(
        P::exprlist("a, *b"),
        ok("", vec![name("a"), Expression::Star(Box::new(name("b")))])
    );
    assert_eq!(P::testlist("a, b if c else d"), ok("", vec![
        name("a"),
        Expression::Ternary(Box::new(name("b")), Box::new(name("c")), Box::new(name("d"))),
    ]));
    assert_eq!(P::star_expr("*a"), ok("", Box::new(Expression::Star(Box::new(name("a"))))));
}

#[test]
fn subscripts_and_dicts() {
    assert_eq!(P::subscript("a:b"), ok("", Subscript::Double(Some(name("a")), Some(name("b")))));
    assert_eq!(
        Pn::dictorsetmaker("foo: bar"),
        ok("", Box::new(Expression::DictLiteral(vec![DictItem::Unique(name("foo"), name("bar"))])))
    );
    assert_eq!(
        P::atom("{**foo, bar: baz}"),
        ok("", Box::new(Expression::DictLiteral(vec![
            DictItem::Star(name("foo")),
            DictItem::Unique(name("bar"), name("baz")),
        ])))
    );
}

#[test]
fn comprehension_clauses() {
    assert_eq!(
        P::comp_for("async for x in y"),
        ok("", vec![ComprehensionChunk::For { is_async: true, item: vec![name("x")], iterator: name("y") }])
    );
    assert_eq!(
        P::comp_for("for x in y if z"),
        ok(" if z", vec![ComprehensionChunk::For { is_async: false, item: vec![name("x")], iterator: name("y") }])
    );
    assert_eq!(P::comp_for("forx in y"), Err(ParseError::Error));
}

#[test]
fn unary_operators() {
    assert_eq!(
        P::factor("-~x"),
        ok("", Box::new(Expression::Uop(Uop::Minus, Box::new(Expression::Uop(Uop::Invert, Box::new(name("x")))))))
    );
    assert_eq!(P::not_test("not x"), ok("", Box::new(Expression::Uop(Uop::Not, Box::new(name("x"))))));
    assert_eq!(P::power("x ** y"), ok("", Box::new(bop(Bop::Power, name("x"), name("y")))));
}

#[test]
fn rest_of_input_is_returned() {
    assert_eq!(P::atom_expr("foo.bar rest"), ok(" rest", Box::new(Expression::Attribute(Box::new(name("foo")), "bar".to_string()))));
    assert_eq!(P::test_nocond("a or b c"), ok(" c", Box::new(bop(Bop::Or, name("a"), name("b")))));
    assert_eq!(P::xor_expr("a ^ b & c"), ok("", Box::new(bop(Bop::BitXor, name("a"), bop(Bop::BitAnd, name("b"), name("c"))))));
    assert_eq!(P::and_expr("a & b"), ok("", Box::new(bop(Bop::BitAnd, name("a"), name("b")))));
}

#[test]
fn lambdas_without_parameters() {
    let lambda = |body: Expression| Box::new(Expression::Lambdef(UntypedArgsList::default(), Box::new(body)));
    assert_eq!(P::test("lambda:x"), ok("", lambda(name("x"))));
    assert_eq!(P::test("lambda : 1"), ok("", lambda(Expression::Int(1))));
    assert_eq!(P::test("lambda:lambda:x"), ok("", lambda(*lambda(name("x")))));
    assert_eq!(P::test_nocond("lambda:x if y else z"), ok(" if y else z", lambda(name("x"))));
    assert_eq!(
        P::test("lambda:x if y else z"),
        ok("", lambda(Expression::Ternary(Box::new(name("x")), Box::new(name("y")), Box::new(name("z")))))
    );
}
