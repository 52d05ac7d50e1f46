#![allow(unused_imports)]
use querydown::ast::{AnnotationValue, Call, CallSyntax, Case, CaseVariant, ColumnControl, ColumnGlob, ColumnSpec, Comparison, ComparisonSide, ConditionSet, Conjunction, Date, Definitions, Duration, Expr, FunctionBody, FunctionDimension, GroupSpec, HasQuantity, NullsSort, Operator, PathPart, Quantity, Query, Range, RangeBound, Exclusivity, ResultColumnStatement, ScopedConditionSet, SortDirection, SortExpr, SortSpec, TableWithMany, Transformation, WindowFn, AnonymousFunctionCall, Assignment};
use querydown::entry::path_parts;

#[test]
fn test_parse_path() {
    let p = |s: &str| path_parts(s).ok_or(());
    assert_eq!(p("foo"), Ok(vec![PathPart::Column("foo".to_string())]));
    assert_eq!(
        p("foo.bar"),
        Ok(vec![
            PathPart::Column("foo".to_string()),
            PathPart::Column("bar".to_string()),
        ])
    );
    assert_eq!(
        p("#foo"),
        Ok(vec![PathPart::TableWithMany(TableWithMany {
            table: "foo".to_string(),
            linking_column: None,
            condition_set: ConditionSet::default(),
        })])
    );
    assert_eq!(
        p("#foo(bar)"),
        Ok(vec![PathPart::TableWithMany(TableWithMany {
            table: "foo".to_string(),
            linking_column: Some("bar".to_string()),
            condition_set: ConditionSet::default(),
        })])
    );
    assert_eq!(
        p(">>clients.start_date"),
        Ok(vec![
            PathPart::TableWithOne("clients".to_string()),
            PathPart::Column("start_date".to_string()),
        ])
    );
    assert_eq!(
        p("foo.bar.#baz(a).#bat.>>spam.eggs"),
        Ok(vec![
            PathPart::Column("foo".to_string()),
            PathPart::Column("bar".to_string()),
            PathPart::TableWithMany(TableWithMany {
                table: "baz".to_string(),
                linking_column: Some("a".to_string()),
                condition_set: ConditionSet::default(),
            }),
            PathPart::TableWithMany(TableWithMany {
                table: "bat".to_string(),
                linking_column: None,
                condition_set: ConditionSet::default(),
            }),
            PathPart::TableWithOne("spam".to_string()),
            PathPart::Column("eggs".to_string()),
        ])
    );

    assert!(p(".foo").is_err(),);
    assert!(p(".foo#bar").is_err(),);
    assert!(p(".foo>>bar").is_err(),);
    assert!(p(".foo..bar").is_err(),);
    assert!(p("foo. bar").is_err(),);
    assert!(p("foo. #bar").is_err(),);
    assert!(p("foo(bar)").is_err(),);
    assert!(p("foo.bar(baz)").is_err(),);
}
