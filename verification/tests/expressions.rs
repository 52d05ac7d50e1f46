#![allow(unused_imports)]
use querydown::ast::{AnnotationValue, Call, CallSyntax, Case, CaseVariant, ColumnControl, ColumnGlob, ColumnSpec, Comparison, ComparisonSide, ConditionSet, Conjunction, Date, Definitions, Duration, Expr, FunctionBody, FunctionDimension, GroupSpec, HasQuantity, NullsSort, Operator, PathPart, Quantity, Query, Range, RangeBound, Exclusivity, ResultColumnStatement, ScopedConditionSet, SortDirection, SortExpr, SortSpec, TableWithMany, Transformation, WindowFn, AnonymousFunctionCall, Assignment};
use querydown::decimal::Decimal;
use querydown::entry::expression;

/// A duration component written as a decimal number.
fn dec(v: f64) -> Decimal {
    let text = format!("{}", v);
    let (whole, fraction) = match text.split_once('.') {
        Some((w, f)) => (w.to_string(), f.trim_end_matches('0').to_string()),
        None => (text.clone(), String::new()),
    };
    Decimal { whole, fraction }
}

#[test]
fn mod_test_parse_expr() {
    let p = |s: &str| {
        expression(s).ok_or(())
    };

    assert_eq!(p("8"), Ok(Expr::Number("8".to_string())));
    assert_eq!(
        p("@2000-01-01"),
        Ok(Expr::Date(Date {
            year: 2000,
            day: 1,
            month: 1
        }))
    );
    assert_eq!(
        p("1y"),
        Ok(Expr::Duration(Duration {
            years: dec(1.0),
            ..Default::default()
        }))
    );
    // A digit-initial token with no unit is a plain number, not a duration.
    assert_eq!(p("6"), Ok(Expr::Number("6".to_string())));
    assert_eq!(p("'foo'"), Ok(Expr::String("foo".to_string())));
    assert_eq!(p("\"foo\""), Ok(Expr::String("foo".to_string())));
    assert_eq!(p("@foo"), Ok(Expr::Variable("foo".to_string())));
    assert_eq!(p("@null"), Ok(Expr::Variable("null".to_string())));
    assert_eq!(
        p("foo"),
        Ok(Expr::Path(vec![PathPart::Column("foo".to_string())]))
    );
    assert_eq!(
        p("++#foo"),
        Ok(Expr::HasQuantity(HasQuantity {
            quantity: Quantity::AtLeastOne,
            path_parts: vec![PathPart::TableWithMany(TableWithMany {
                table: "foo".to_string(),
                condition_set: ConditionSet::default(),
                linking_column: None
            })]
        }))
    );
    assert_eq!(
        p("++#foo{a:2}"),
        Ok(Expr::HasQuantity(HasQuantity {
            quantity: Quantity::AtLeastOne,
            path_parts: vec![PathPart::TableWithMany(TableWithMany {
                table: "foo".to_string(),
                condition_set: ConditionSet {
                    conjunction: Conjunction::And,
                    entries: vec![Expr::Comparison(Box::new(Comparison {
                        left: ComparisonSide::Expr(Expr::Path(vec![PathPart::Column(
                            "a".to_string()
                        )])),
                        operator: Operator::Match,
                        right: ComparisonSide::Expr(Expr::Number("2".to_string())),
                    }))]
                },
                linking_column: None
            })]
        }))
    );
    // Within a boolean condition set, a bare word is a default text search term (an
    // `Expr::String`), not a column reference. A backtick-quoted identifier would instead be a
    // column reference.
    assert_eq!(
        p("[a b]"),
        Ok(Expr::ConditionSet(ConditionSet {
            conjunction: Conjunction::Or,
            entries: vec![Expr::String("a".to_string()), Expr::String("b".to_string()),]
        }))
    );
    assert_eq!(
        p("{a b}"),
        Ok(Expr::ConditionSet(ConditionSet {
            conjunction: Conjunction::And,
            entries: vec![Expr::String("a".to_string()), Expr::String("b".to_string()),]
        }))
    );

    // The comma is shorthand for an "OR" condition set. Each operand is boolean, so a bare word
    // operand is a default text search term (an `Expr::String`), not a column reference.
    assert_eq!(
        p("a,b"),
        Ok(Expr::ConditionSet(ConditionSet {
            conjunction: Conjunction::Or,
            entries: vec![Expr::String("a".to_string()), Expr::String("b".to_string()),]
        }))
    );

    // Whitespace is allowed around the comma, and it joins three or more expressions.
    assert_eq!(
        p("a , b ,c"),
        Ok(Expr::ConditionSet(ConditionSet {
            conjunction: Conjunction::Or,
            entries: vec![
                Expr::String("a".to_string()),
                Expr::String("b".to_string()),
                Expr::String("c".to_string()),
            ]
        }))
    );

    // The comma has lower precedence than comparison, so each comparison becomes its own entry.
    assert_eq!(
        p("foo:1,bar:2"),
        Ok(Expr::ConditionSet(ConditionSet {
            conjunction: Conjunction::Or,
            entries: vec![
                Expr::Comparison(Box::new(Comparison {
                    left: ComparisonSide::Expr(Expr::Path(vec![PathPart::Column(
                        "foo".to_string()
                    )])),
                    operator: Operator::Match,
                    right: ComparisonSide::Expr(Expr::Number("1".to_string())),
                })),
                Expr::Comparison(Box::new(Comparison {
                    left: ComparisonSide::Expr(Expr::Path(vec![PathPart::Column(
                        "bar".to_string()
                    )])),
                    operator: Operator::Match,
                    right: ComparisonSide::Expr(Expr::Number("2".to_string())),
                })),
            ]
        }))
    );

    // The comma also has lower precedence than addition.
    assert_eq!(
        p("1+2,3"),
        Ok(Expr::ConditionSet(ConditionSet {
            conjunction: Conjunction::Or,
            entries: vec![
                Expr::Sum(
                    Box::new(Expr::Number("1".to_string())),
                    Box::new(Expr::Number("2".to_string()))
                ),
                Expr::Number("3".to_string()),
            ]
        }))
    );

    // A trailing comma is not allowed.
    assert!(p("a,").is_err());

    assert_eq!(
        p("5*7"),
        Ok(Expr::Product(
            Box::new(Expr::Number("5".to_string())),
            Box::new(Expr::Number("7".to_string()))
        ))
    );

    assert_eq!(
        p("@a/@b"),
        Ok(Expr::Quotient(
            Box::new(Expr::Variable("a".to_string())),
            Box::new(Expr::Variable("b".to_string()))
        ))
    );

    assert_eq!(
        p("5+7"),
        Ok(Expr::Sum(
            Box::new(Expr::Number("5".to_string())),
            Box::new(Expr::Number("7".to_string()))
        ))
    );

    assert_eq!(
        p("@a-@b"),
        Ok(Expr::Difference(
            Box::new(Expr::Variable("a".to_string())),
            Box::new(Expr::Variable("b".to_string()))
        ))
    );

    assert_eq!(
        p("5 - 7"),
        Ok(Expr::Difference(
            Box::new(Expr::Number("5".to_string())),
            Box::new(Expr::Number("7".to_string()))
        ))
    );

    assert_eq!(
        p("5 -7"),
        Ok(Expr::Difference(
            Box::new(Expr::Number("5".to_string())),
            Box::new(Expr::Number("7".to_string()))
        ))
    );

    // This is two expressions, not one.
    assert!(p("5 (-7)").is_err());

    assert_eq!(
        p("5*7+3"),
        Ok(Expr::Sum(
            Box::new(Expr::Product(
                Box::new(Expr::Number("5".to_string())),
                Box::new(Expr::Number("7".to_string()))
            )),
            Box::new(Expr::Number("3".to_string()))
        ))
    );

    assert_eq!(
        p("3+5*7"),
        Ok(Expr::Sum(
            Box::new(Expr::Number("3".to_string())),
            Box::new(Expr::Product(
                Box::new(Expr::Number("5".to_string())),
                Box::new(Expr::Number("7".to_string()))
            ))
        ))
    );

    assert_eq!(
        p("( 3 + 5 )"),
        Ok(Expr::Sum(
            Box::new(Expr::Number("3".to_string())),
            Box::new(Expr::Number("5".to_string()))
        ))
    );

    assert_eq!(
        p("(3+5)*7"),
        Ok(Expr::Product(
            Box::new(Expr::Sum(
                Box::new(Expr::Number("3".to_string())),
                Box::new(Expr::Number("5".to_string()))
            )),
            Box::new(Expr::Number("7".to_string()))
        ))
    );

    // Comparisons don't fold
    assert!(p("1:2:3").is_err());

    // Nested comparisons can be done via parentheses
    assert_eq!(
        p("(1:2):3"),
        Ok(Expr::Comparison(Box::new(Comparison {
            left: ComparisonSide::Expr(Expr::Comparison(Box::new(Comparison {
                left: ComparisonSide::Expr(Expr::Number("1".to_string())),
                operator: Operator::Match,
                right: ComparisonSide::Expr(Expr::Number("2".to_string())),
            }))),
            operator: Operator::Match,
            right: ComparisonSide::Expr(Expr::Number("3".to_string())),
        })))
    );

    assert_eq!(
        p("x:@a..@b"),
        Ok(Expr::Comparison(Box::new(Comparison {
            left: ComparisonSide::Expr(Expr::Path(vec![PathPart::Column("x".to_string())])),
            operator: Operator::Match,
            right: ComparisonSide::Range(Range {
                lower: RangeBound {
                    expr: Expr::Variable("a".to_string()),
                    exclusivity: Exclusivity::Inclusive,
                },
                upper: RangeBound {
                    expr: Expr::Variable("b".to_string()),
                    exclusivity: Exclusivity::Inclusive,
                },
            }),
        })))
    );

    assert_eq!(
        p("x:@a<..<@b"),
        Ok(Expr::Comparison(Box::new(Comparison {
            left: ComparisonSide::Expr(Expr::Path(vec![PathPart::Column("x".to_string())])),
            operator: Operator::Match,
            right: ComparisonSide::Range(Range {
                lower: RangeBound {
                    expr: Expr::Variable("a".to_string()),
                    exclusivity: Exclusivity::Exclusive,
                },
                upper: RangeBound {
                    expr: Expr::Variable("b".to_string()),
                    exclusivity: Exclusivity::Exclusive,
                },
            }),
        })))
    );

    assert_eq!(
        p("1|a|b(2)|c(3 4)"),
        Ok(Expr::Call(Call {
            name: "c".to_string(),
            dimension: FunctionDimension::Scalar,
            syntax: CallSyntax::Piped,
            args: vec![
                Expr::Call(Call {
                    name: "b".to_string(),
                    dimension: FunctionDimension::Scalar,
                    syntax: CallSyntax::Piped,
                    args: vec![
                        Expr::Call(Call {
                            name: "a".to_string(),
                            dimension: FunctionDimension::Scalar,
                            syntax: CallSyntax::Piped,
                            args: vec![Expr::Number("1".to_string())],
                            order_by: vec![],
                        }),
                        Expr::Number("2".to_string())
                    ],
                    order_by: vec![],
                }),
                Expr::Number("3".to_string()),
                Expr::Number("4".to_string()),
            ],
            order_by: vec![],
        }))
    );

    assert_eq!(
        p("[a b]: 2 + foo * @bar | baz"),
        Ok(Expr::Comparison(Box::new(Comparison {
            left: ComparisonSide::Expansion(ConditionSet {
                entries: vec![
                    Expr::Path(vec![PathPart::Column("a".to_string())]),
                    Expr::Path(vec![PathPart::Column("b".to_string())]),
                ],
                conjunction: Conjunction::Or,
            }),
            operator: Operator::Match,
            right: ComparisonSide::Expr(Expr::Sum(
                Box::new(Expr::Number("2".to_string())),
                Box::new(Expr::Product(
                    // A bare word on the right-hand side of a comparison is a string literal.
                    Box::new(Expr::String("foo".to_string())),
                    Box::new(Expr::Call(Call {
                        name: "baz".to_string(),
                        dimension: FunctionDimension::Scalar,
                        syntax: CallSyntax::Piped,
                        args: vec![Expr::Variable("bar".to_string())],
                        order_by: vec![],
                    })),
                )),
            )),
        })))
    );

    // A standalone aggregate `%count` has no `arg0`, so its `args` vector is empty. This is how
    // `count(*)` is written.
    assert_eq!(
        p("%count"),
        Ok(Expr::Call(Call {
            name: "count".to_string(),
            dimension: FunctionDimension::Aggregate,
            syntax: CallSyntax::Piped,
            args: vec![],
            order_by: vec![],
        }))
    );

    // A piped aggregate `created_at%max` carries the piped-in expression as its single argument.
    assert_eq!(
        p("created_at%max"),
        Ok(Expr::Call(Call {
            name: "max".to_string(),
            dimension: FunctionDimension::Aggregate,
            syntax: CallSyntax::Piped,
            args: vec![Expr::Path(vec![PathPart::Column("created_at".to_string())])],
            order_by: vec![],
        }))
    );

    // A `!` prefix negates a bare expression.
    assert_eq!(
        p("!foo"),
        Ok(Expr::Not(Box::new(Expr::Path(vec![PathPart::Column(
            "foo".to_string()
        )]))))
    );

    // Negation binds more loosely than comparison, so `!foo:2` negates the whole comparison.
    assert_eq!(
        p("!foo:2"),
        Ok(Expr::Not(Box::new(Expr::Comparison(Box::new(
            Comparison {
                left: ComparisonSide::Expr(Expr::Path(vec![PathPart::Column(
                    "foo".to_string()
                )])),
                operator: Operator::Match,
                right: ComparisonSide::Expr(Expr::Number("2".to_string())),
            }
        )))))
    );

    // The `!` prefix can be repeated.
    assert_eq!(
        p("!!foo"),
        Ok(Expr::Not(Box::new(Expr::Not(Box::new(Expr::Path(vec![
            PathPart::Column("foo".to_string())
        ]))))))
    );

    // Negation binds more tightly than the comma shorthand, so only the first entry is negated.
    assert_eq!(
        p("!foo:1,bar:2"),
        Ok(Expr::ConditionSet(ConditionSet {
            conjunction: Conjunction::Or,
            entries: vec![
                Expr::Not(Box::new(Expr::Comparison(Box::new(Comparison {
                    left: ComparisonSide::Expr(Expr::Path(vec![PathPart::Column(
                        "foo".to_string()
                    )])),
                    operator: Operator::Match,
                    right: ComparisonSide::Expr(Expr::Number("1".to_string())),
                })))),
                Expr::Comparison(Box::new(Comparison {
                    left: ComparisonSide::Expr(Expr::Path(vec![PathPart::Column(
                        "bar".to_string()
                    )])),
                    operator: Operator::Match,
                    right: ComparisonSide::Expr(Expr::Number("2".to_string())),
                })),
            ]
        }))
    );
}

#[test]
fn test_parse_function_call() {
    let p = |s: &str| {
        expression(s).ok_or(())
    };

    // A direct function call with `@@`: scalar dimension, standalone syntax, space-separated
    // arguments (no commas).
    assert_eq!(
        p("@@max(foo 0)"),
        Ok(Expr::Call(Call {
            name: "max".to_string(),
            dimension: FunctionDimension::Scalar,
            syntax: CallSyntax::Standalone,
            args: vec![
                Expr::Path(vec![PathPart::Column("foo".to_string())]),
                Expr::Number("0".to_string()),
            ],
            order_by: vec![],
        }))
    );

    // The parentheses are required, but may be empty for a no-argument call.
    assert_eq!(
        p("@@now()"),
        Ok(Expr::Call(Call {
            name: "now".to_string(),
            dimension: FunctionDimension::Scalar,
            syntax: CallSyntax::Standalone,
            args: vec![],
            order_by: vec![],
        }))
    );

    // Arguments may themselves be pipes.
    assert_eq!(
        p("@@max(foo|bar 0)"),
        Ok(Expr::Call(Call {
            name: "max".to_string(),
            dimension: FunctionDimension::Scalar,
            syntax: CallSyntax::Standalone,
            args: vec![
                Expr::Call(Call {
                    name: "bar".to_string(),
                    dimension: FunctionDimension::Scalar,
                    syntax: CallSyntax::Piped,
                    args: vec![Expr::Path(vec![PathPart::Column("foo".to_string())])],
                    order_by: vec![],
                }),
                Expr::Number("0".to_string()),
            ],
            order_by: vec![],
        }))
    );
}

#[test]
fn test_parse_anonymous_function() {
    let p = |s: &str| {
        expression(s).ok_or(())
    };

    // An anonymous function applied via a pipe. The piped-in value becomes the sole argument,
    // and the body references the parameter.
    assert_eq!(
        p("foo|(@x => @x * 2)"),
        Ok(Expr::AnonymousFunctionCall(Box::new(
            AnonymousFunctionCall {
                params: vec!["x".to_string()],
                body: FunctionBody {
                    assignments: vec![],
                    expr: Expr::Product(
                        Box::new(Expr::Variable("x".to_string())),
                        Box::new(Expr::Number("2".to_string())),
                    ),
                },
                args: vec![Expr::Path(vec![PathPart::Column("foo".to_string())])],
            }
        )))
    );

    // An anonymous function may take multiple parameters and contain a local assignment. The
    // piped-in value is the first argument; parenthesized values supply the rest.
    assert_eq!(
        p("foo|(@a @b => @s = @a + @b @s * 2)(3)"),
        Ok(Expr::AnonymousFunctionCall(Box::new(
            AnonymousFunctionCall {
                params: vec!["a".to_string(), "b".to_string()],
                body: FunctionBody {
                    assignments: vec![Assignment {
                        name: "s".to_string(),
                        expr: Expr::Sum(
                            Box::new(Expr::Variable("a".to_string())),
                            Box::new(Expr::Variable("b".to_string())),
                        ),
                    }],
                    expr: Expr::Product(
                        Box::new(Expr::Variable("s".to_string())),
                        Box::new(Expr::Number("2".to_string())),
                    ),
                },
                args: vec![
                    Expr::Path(vec![PathPart::Column("foo".to_string())]),
                    Expr::Number("3".to_string()),
                ],
            }
        )))
    );
}

#[test]
fn test_bare_text_on_comparison_rhs_is_a_string() {
    let p = |s: &str| {
        expression(s).ok_or(())
    };

    // A bare word on the left-hand side of a comparison is a column reference, while a bare
    // word on the right-hand side is a string literal.
    assert_eq!(
        p("description:title"),
        Ok(Expr::Comparison(Box::new(Comparison {
            left: ComparisonSide::Expr(Expr::Path(vec![PathPart::Column(
                "description".to_string()
            )])),
            operator: Operator::Match,
            right: ComparisonSide::Expr(Expr::String("title".to_string())),
        })))
    );

    // A bare word on the right-hand side behaves identically to a quoted string.
    assert_eq!(p("description:title"), p("description:\"title\""));

    // Backtick-quoting the right-hand side designates it as a column reference instead.
    assert_eq!(
        p("description:`title`"),
        Ok(Expr::Comparison(Box::new(Comparison {
            left: ComparisonSide::Expr(Expr::Path(vec![PathPart::Column(
                "description".to_string()
            )])),
            operator: Operator::Match,
            right: ComparisonSide::Expr(Expr::Path(vec![PathPart::Column(
                "title".to_string()
            )])),
        })))
    );

    // A multi-part path on the right-hand side remains a column reference, since it is not a
    // bare, standalone word.
    assert_eq!(
        p("description:foo.bar"),
        Ok(Expr::Comparison(Box::new(Comparison {
            left: ComparisonSide::Expr(Expr::Path(vec![PathPart::Column(
                "description".to_string()
            )])),
            operator: Operator::Match,
            right: ComparisonSide::Expr(Expr::Path(vec![
                PathPart::Column("foo".to_string()),
                PathPart::Column("bar".to_string()),
            ])),
        })))
    );

    // The rule applies to other comparison operators too, not just match.
    assert_eq!(
        p("status:=open"),
        Ok(Expr::Comparison(Box::new(Comparison {
            left: ComparisonSide::Expr(Expr::Path(vec![PathPart::Column(
                "status".to_string()
            )])),
            operator: Operator::Eq,
            right: ComparisonSide::Expr(Expr::String("open".to_string())),
        })))
    );
}

#[test]
fn test_bare_text_on_comparison_rhs_is_a_string_at_any_depth() {
    let p = |s: &str| {
        expression(s).ok_or(())
    };

    // Bare words inside an expansion set on the right-hand side are string literals, so the
    // unquoted form is equivalent to quoting each term.
    assert_eq!(
        p("title:~[color colour]"),
        p("title:~[\"color\" \"colour\"]")
    );
    assert_eq!(
        p("title:~[color colour]"),
        Ok(Expr::Comparison(Box::new(Comparison {
            left: ComparisonSide::Expr(Expr::Path(vec![PathPart::Column("title".to_string())])),
            operator: Operator::RegexMatch,
            right: ComparisonSide::Expansion(ConditionSet {
                conjunction: Conjunction::Or,
                entries: vec![
                    Expr::String("color".to_string()),
                    Expr::String("colour".to_string()),
                ],
            }),
        })))
    );

    // Bare words within a pipe on the right-hand side — both the piped-in value and the extra
    // arguments — are string literals.
    assert_eq!(
        p("title:foo|concat(bar)"),
        Ok(Expr::Comparison(Box::new(Comparison {
            left: ComparisonSide::Expr(Expr::Path(vec![PathPart::Column("title".to_string())])),
            operator: Operator::Match,
            right: ComparisonSide::Expr(Expr::Call(Call {
                name: "concat".to_string(),
                dimension: FunctionDimension::Scalar,
                syntax: CallSyntax::Piped,
                args: vec![
                    Expr::String("foo".to_string()),
                    Expr::String("bar".to_string()),
                ],
                order_by: vec![],
            })),
        })))
    );

    // The same pipe *outside* a comparison treats bare words as column references, illustrating
    // that the string-mode behavior is confined to the right-hand side.
    assert_eq!(
        p("status|concat(title)"),
        Ok(Expr::Call(Call {
            name: "concat".to_string(),
            dimension: FunctionDimension::Scalar,
            syntax: CallSyntax::Piped,
            args: vec![
                Expr::Path(vec![PathPart::Column("status".to_string())]),
                Expr::Path(vec![PathPart::Column("title".to_string())]),
            ],
            order_by: vec![],
        }))
    );

    // Bare words inside parentheses on the right-hand side are string literals too.
    assert_eq!(p("title:(foo)"), p("title:foo"),);

    // A nested comparison on the right-hand side resets to identifier mode for *its* left side:
    // the left side of a comparison is always a column reference, even within another
    // comparison's right side, while its own right side remains a string literal.
    assert_eq!(
        p("description:(title:foo)"),
        Ok(Expr::Comparison(Box::new(Comparison {
            left: ComparisonSide::Expr(Expr::Path(vec![PathPart::Column(
                "description".to_string()
            )])),
            operator: Operator::Match,
            right: ComparisonSide::Expr(Expr::Comparison(Box::new(Comparison {
                left: ComparisonSide::Expr(Expr::Path(vec![PathPart::Column(
                    "title".to_string()
                )])),
                operator: Operator::Match,
                right: ComparisonSide::Expr(Expr::String("foo".to_string())),
            }))),
        })))
    );
}
