#![allow(unused_imports)]
use querydown::ast::{AnnotationValue, Call, CallSyntax, Case, CaseVariant, ColumnControl, ColumnGlob, ColumnSpec, Comparison, ComparisonSide, ConditionSet, Conjunction, Date, Definitions, Duration, Expr, FunctionBody, FunctionDimension, GroupSpec, HasQuantity, NullsSort, Operator, PathPart, Quantity, Query, Range, RangeBound, Exclusivity, ResultColumnStatement, ScopedConditionSet, SortDirection, SortExpr, SortSpec, TableWithMany, Transformation, WindowFn, AnonymousFunctionCall, Assignment};
use querydown::entry::is_padding;
fn parse_pad(s: &str) -> Result<(), ()> {
    if is_padding(s) {
        Ok(())
    } else {
        Err(())
    }
}

#[test]
fn test_pad_consumes_whitespace_and_comments() {
    assert_eq!(parse_pad(""), Ok(()));
    assert_eq!(parse_pad("   \n\t "), Ok(()));
    assert_eq!(parse_pad("// line comment"), Ok(()));
    assert_eq!(parse_pad("// line\n  // another\n"), Ok(()));
    assert_eq!(parse_pad("/* block */"), Ok(()));
    assert_eq!(parse_pad("  /* a */ // b\n /* c */ "), Ok(()));
}

#[test]
fn test_block_comments_nest() {
    assert_eq!(parse_pad("/* outer /* inner */ outer */"), Ok(()));
    assert_eq!(parse_pad("/* a /* b /* c */ b */ a */"), Ok(()));
    // An unterminated block comment, including one whose nesting is unbalanced, fails.
    assert_eq!(parse_pad("/* unterminated"), Err(()));
    assert_eq!(parse_pad("/* /* only one close */"), Err(()));
}
