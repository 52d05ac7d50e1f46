#![allow(unused_imports)]
use querydown::ast::{AnnotationValue, Call, CallSyntax, Case, CaseVariant, ColumnControl, ColumnGlob, ColumnSpec, Comparison, ComparisonSide, ConditionSet, Conjunction, Date, Definitions, Duration, Expr, FunctionBody, FunctionDimension, GroupSpec, HasQuantity, NullsSort, Operator, PathPart, Quantity, Query, Range, RangeBound, Exclusivity, ResultColumnStatement, ScopedConditionSet, SortDirection, SortExpr, SortSpec, TableWithMany, Transformation, WindowFn, AnonymousFunctionCall, Assignment};
use querydown::entry::expression;
fn parse(s: &str) -> Result<Expr, ()> {
    expression(s).ok_or(())
}

fn col(name: &str) -> Expr {
    Expr::Path(vec![PathPart::Column(name.to_string())])
}

#[test]
fn test_parse_ranking_window() {
    assert_eq!(
        parse(r"%%(project\p created_at\s)%row_number"),
        Ok(Expr::Window(WindowFn {
            function: "row_number".to_string(),
            args: vec![],
            partition_by: vec![col("project")],
            order_by: vec![SortExpr {
                expr: col("created_at"),
                direction: SortDirection::Asc,
                nulls_sort: NullsSort::Last,
            }],
        }))
    );
}

#[test]
fn test_parse_window_with_value_args() {
    // The value column and extra arguments are supplied in parentheses after the function name.
    assert_eq!(
        parse(r"%%(account\p date\sd)%lag(balance 1 0)"),
        Ok(Expr::Window(WindowFn {
            function: "lag".to_string(),
            args: vec![
                col("balance"),
                Expr::Number("1".to_string()),
                Expr::Number("0".to_string())
            ],
            partition_by: vec![col("account")],
            order_by: vec![SortExpr {
                expr: col("date"),
                direction: SortDirection::Desc,
                nulls_sort: NullsSort::Last,
            }],
        }))
    );
}

#[test]
fn test_window_order_by_ordinals() {
    // Ordering entries are placed by their `\s` ordinals; an unflagged entry partitions.
    let Ok(Expr::Window(window)) = parse(r"%%(a b\s2 c\s1)%row_number") else {
        panic!("expected a window expression");
    };
    assert_eq!(window.partition_by, vec![col("a")]);
    let order_cols: Vec<Expr> = window.order_by.into_iter().map(|s| s.expr).collect();
    assert_eq!(order_cols, vec![col("c"), col("b")]);
}

#[test]
fn test_window_used_in_comparison() {
    // A window function can be the left-hand side of a comparison (used to filter on it).
    let result = parse(r"%%(project\p created_at\sd)%row_number:1");
    assert!(matches!(result, Ok(Expr::Comparison(_))));
}
