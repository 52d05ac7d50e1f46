#![allow(unused_imports)]
use querydown::ast::{AnnotationValue, Call, CallSyntax, Case, CaseVariant, ColumnControl, ColumnGlob, ColumnSpec, Comparison, ComparisonSide, ConditionSet, Conjunction, Date, Definitions, Duration, Expr, FunctionBody, FunctionDimension, GroupSpec, HasQuantity, NullsSort, Operator, PathPart, Quantity, Query, Range, RangeBound, Exclusivity, ResultColumnStatement, ScopedConditionSet, SortDirection, SortExpr, SortSpec, TableWithMany, Transformation, WindowFn, AnonymousFunctionCall, Assignment};
use querydown::entry::{control_flags, display_statements, single_column};
fn parse_result_columns(source: &str) -> Result<Vec<ResultColumnStatement>, ()> {
    display_statements(source).ok_or(())
}

#[test]
fn test_parse_column_control() {
    assert_eq!(
        control_flags(r"\s1d").ok_or(()),
        Ok(ColumnControl {
            sort: Some(SortSpec {
                ordinal: Some(1),
                direction: SortDirection::Desc,
                nulls_sort: NullsSort::default(),
            }),
            group: None,
            is_partition_by: false,
            is_hidden: false,
        })
    );
}

#[test]
fn test_parse_column_spec() {
    assert_eq!(
        single_column("8").ok_or(()),
        Ok(ColumnSpec {
            column_control: ColumnControl::default(),
            expr: Expr::Number("8".to_string()),
            alias: None,
            annotation: None,
        })
    );
    assert_eq!(
        single_column(r"foo->bar\s1d").ok_or(()),
        Ok(ColumnSpec {
            column_control: ColumnControl {
                sort: Some(SortSpec {
                    ordinal: Some(1),
                    direction: SortDirection::Desc,
                    nulls_sort: NullsSort::default(),
                }),
                group: None,
                is_partition_by: false,
                is_hidden: false,
            },
            expr: Expr::Path(vec![PathPart::Column("foo".to_string())]),
            alias: Some("bar".to_string()),
            annotation: None,
        })
    );
}

#[test]
fn test_parse_column_spec_with_annotation() {
    // Annotation is parsed after the alias and after the column control flags.
    assert_eq!(
        single_column(r"foo->bar\sd @{width:100}").ok_or(()),
        Ok(ColumnSpec {
            column_control: ColumnControl {
                sort: Some(SortSpec {
                    ordinal: None,
                    direction: SortDirection::Desc,
                    nulls_sort: NullsSort::default(),
                }),
                group: None,
                is_partition_by: false,
                is_hidden: false,
            },
            expr: Expr::Path(vec![PathPart::Column("foo".to_string())]),
            alias: Some("bar".to_string()),
            annotation: Some(AnnotationValue::Object(vec![(
                "width".to_string(),
                AnnotationValue::Number("100".to_string())
            )])),
        })
    );
}

#[test]
fn test_annotation_must_come_last() {
    // Annotation before the column control flags is not allowed.
    assert!(single_column(r"foo @{width:100}\sd").is_none());
}

#[test]
fn test_result_column_nesting_desugars_to_flat_form() {
    // A nesting group is exactly equivalent to writing the head before each nested entry.
    // Aliases, control flags, annotations, and comments all ride along unchanged.
    let nested = parse_result_columns(
        r"$id @{hide:yes} // the comment id
        $created_at
        $issue.(
          $id @{hide:yes} // the issue id
          $title @{width:400}
          $#labels.name%list(\\name)
          $project.name
        )",
    );
    let flat = parse_result_columns(
        r"$id @{hide:yes} // the comment id
        $created_at
        $issue.id @{hide:yes} // the issue id
        $issue.title @{width:400}
        $issue.#labels.name%list(\\name)
        $issue.project.name",
    );
    assert!(nested.is_ok());
    assert_eq!(nested, flat);
}

#[test]
fn test_result_column_nesting_equivalences() {
    let eq = |nested: &str, flat: &str| {
        let nested_result = parse_result_columns(nested);
        assert!(nested_result.is_ok(), "failed to parse: {nested}");
        assert_eq!(nested_result, parse_result_columns(flat), "for: {nested}");
    };
    // A multi-part head, and a group containing a single entry.
    eq("$a.b.( $c )", "$a.b.c");
    // Groups nest; the heads compose.
    eq("$a.( $b.( $c ) $d )", "$a.b.c $a.d");
    // A glob inside a group has the head prepended to its own head.
    eq("$author.( $* )", "$author.*");
    eq(r"$author.( $*(id \h) )", r"$author.*(id \h)");
    // The head is spliced onto the piped-in value of a function application.
    eq("$issue.( $title|upper )", "$issue.title|upper");
    // ... and onto the left side of arithmetic and comparisons, through a `!` prefix, and onto
    // a `++`/`--` quantity path.
    eq("$issue.( $id * 2 )", "$issue.id * 2");
    eq("$issue.( $status:done )", "$issue.status:done");
    eq("$issue.( $!is_open )", "$!issue.is_open");
    eq("$issue.( $++#labels )", "$++issue.#labels");
    // A head may traverse to-many paths.
    eq(
        "$#comments.( $created_at%max )",
        "$#comments.created_at%max",
    );
    // Sorting and hiding flags ride along.
    eq(
        r"$issue.( $id \h $created_at \sd )",
        r"$issue.id \h $issue.created_at \sd",
    );
    // An empty group contributes no columns.
    assert_eq!(
        parse_result_columns("$issue.( ) $id"),
        parse_result_columns("$id")
    );
}

#[test]
fn test_result_column_nesting_requires_leading_column_reference() {
    // A nested entry whose expression has no leading column reference cannot receive the head
    // path, so it is a parse error.
    assert!(parse_result_columns("$issue.( $8 )").is_err());
    assert!(parse_result_columns("$issue.( $'foo' )").is_err());
    assert!(parse_result_columns("$issue.( $%count )").is_err());
    assert!(parse_result_columns("$issue.( $@@now() )").is_err());
    // Even when other entries are fine.
    assert!(parse_result_columns("$issue.( $id $8 )").is_err());
}

#[test]
fn test_result_column_nesting_does_not_break_globs() {
    // A glob with a head path still parses as a glob, not a nesting group.
    assert_eq!(
        parse_result_columns(r"$a.b.*(c \h)"),
        Ok(vec![ResultColumnStatement::Glob(ColumnGlob {
            head: vec![
                PathPart::Column("a".to_string()),
                PathPart::Column("b".to_string()),
            ],
            specs: vec![ColumnSpec {
                column_control: ColumnControl {
                    sort: None,
                    group: None,
                    is_partition_by: false,
                    is_hidden: true,
                },
                expr: Expr::Path(vec![PathPart::Column("c".to_string())]),
                alias: None,
                annotation: None,
            }],
        })])
    );
}

#[test]
fn test_parse_result_columns() {
    assert_eq!(
        display_statements(r"$* $a.b.*(c \h d\s) $foo $bar->B \g").ok_or(()),
        Ok(vec![
            ResultColumnStatement::Glob(ColumnGlob::default()),
            ResultColumnStatement::Glob(ColumnGlob {
                head: vec![
                    PathPart::Column("a".to_string()),
                    PathPart::Column("b".to_string()),
                ],
                specs: vec![
                    ColumnSpec {
                        column_control: ColumnControl {
                            sort: None,
                            group: None,
                            is_partition_by: false,
                            is_hidden: true,
                        },
                        expr: Expr::Path(vec![PathPart::Column("c".to_string())]),
                        alias: None,
                        annotation: None,
                    },
                    ColumnSpec {
                        column_control: ColumnControl {
                            sort: Some(SortSpec {
                                ordinal: None,
                                direction: SortDirection::Asc,
                                nulls_sort: NullsSort::default(),
                            }),
                            group: None,
                            is_partition_by: false,
                            is_hidden: false,
                        },
                        expr: Expr::Path(vec![PathPart::Column("d".to_string())]),
                        alias: None,
                        annotation: None,
                    },
                ]
            }),
            ResultColumnStatement::Spec(ColumnSpec {
                column_control: ColumnControl::default(),
                expr: Expr::Path(vec![PathPart::Column("foo".to_string())]),
                alias: None,
                annotation: None,
            }),
            ResultColumnStatement::Spec(ColumnSpec {
                column_control: ColumnControl {
                    sort: None,
                    group: Some(GroupSpec { ordinal: None }),
                    is_partition_by: false,
                    is_hidden: false,
                },
                expr: Expr::Path(vec![PathPart::Column("bar".to_string())]),
                alias: Some("B".to_string()),
                annotation: None,
            }),
        ])
    );
}
