#![allow(unused_imports)]
use querydown::ast::{AnnotationValue, Call, CallSyntax, Case, CaseVariant, ColumnControl, ColumnGlob, ColumnSpec, Comparison, ComparisonSide, ConditionSet, Conjunction, Date, Definitions, Duration, Expr, FunctionBody, FunctionDimension, GroupSpec, HasQuantity, NullsSort, Operator, PathPart, Quantity, Query, Range, RangeBound, Exclusivity, ResultColumnStatement, ScopedConditionSet, SortDirection, SortExpr, SortSpec, TableWithMany, Transformation, WindowFn, AnonymousFunctionCall, Assignment};
use querydown::entry::sort_statements;
fn col(name: &str) -> Expr {
    Expr::Path(vec![PathPart::Column(name.to_string())])
}

fn parse_sorting(source: &str) -> Result<Vec<SortExpr>, ()> {
    sort_statements(source).ok_or(())
}

#[test]
fn test_parse_sort_expr_default() {
    assert_eq!(
        sort_statements(r"\\created_at").ok_or(()),
        Ok(vec![SortExpr {
            expr: col("created_at"),
            direction: SortDirection::Asc,
            nulls_sort: NullsSort::Last,
        }])
    );
}

#[test]
fn test_parse_sort_expr_descending() {
    assert_eq!(
        sort_statements(r"\\created_at \d").ok_or(()),
        Ok(vec![SortExpr {
            expr: col("created_at"),
            direction: SortDirection::Desc,
            nulls_sort: NullsSort::Last,
        }])
    );
}

#[test]
fn test_parse_sort_expr_combined_flags() {
    assert_eq!(
        sort_statements(r"\\created_at \dn").ok_or(()),
        Ok(vec![SortExpr {
            expr: col("created_at"),
            direction: SortDirection::Desc,
            nulls_sort: NullsSort::First,
        }])
    );
}

#[test]
fn test_parse_sort_expr_whitespace_after_prefix() {
    assert_eq!(
        sort_statements(r"\\ created_at \d").ok_or(()),
        Ok(vec![SortExpr {
            expr: col("created_at"),
            direction: SortDirection::Desc,
            nulls_sort: NullsSort::Last,
        }])
    );
}

#[test]
fn test_parse_multiple_sort_exprs() {
    assert_eq!(
        sort_statements(r"\\a \d \\b").ok_or(()),
        Ok(vec![
            SortExpr {
                expr: col("a"),
                direction: SortDirection::Desc,
                nulls_sort: NullsSort::Last,
            },
            SortExpr {
                expr: col("b"),
                direction: SortDirection::Asc,
                nulls_sort: NullsSort::Last,
            },
        ])
    );
}

#[test]
fn test_parse_no_sort_exprs() {
    assert_eq!(sort_statements("").ok_or(()), Ok(vec![]));
}

#[test]
fn test_scoped_sorting_desugars_to_flat_form() {
    // A nesting group is exactly equivalent to writing the head before each nested entry.
    let nested = parse_sorting(
        r"\\project.(
          \\is_active
          \\product.name
        )
        \\due_date",
    );
    let flat = parse_sorting(
        r"\\project.is_active
        \\project.product.name
        \\due_date",
    );
    assert!(nested.is_ok());
    assert_eq!(nested, flat);
}

#[test]
fn test_scoped_sorting_equivalences() {
    let eq = |nested: &str, flat: &str| {
        let nested_result = parse_sorting(nested);
        assert!(nested_result.is_ok(), "failed to parse: {nested}");
        assert_eq!(nested_result, parse_sorting(flat), "for: {nested}");
    };
    // A multi-part head, and a group containing a single entry.
    eq(r"\\a.b.( \\c )", r"\\a.b.c");
    // Groups nest; the heads compose.
    eq(r"\\a.( \\b.( \\c ) \\d )", r"\\a.b.c \\a.d");
    // The head is spliced onto the piped-in value of a function application.
    eq(r"\\issue.( \\title|upper )", r"\\issue.title|upper");
    // ... and onto the left side of arithmetic and comparisons, through a `!` prefix, and onto
    // a `++`/`--` quantity path.
    eq(r"\\issue.( \\id * 2 )", r"\\issue.id * 2");
    eq(r"\\issue.( \\status:done )", r"\\issue.status:done");
    eq(r"\\issue.( \\!is_open )", r"\\!issue.is_open");
    eq(r"\\issue.( \\++#labels )", r"\\++issue.#labels");
    // A head may traverse to-many paths.
    eq(
        r"\\#comments.( \\created_at%max )",
        r"\\#comments.created_at%max",
    );
    // Sort flags ride along.
    eq(
        r"\\issue.( \\id \d \\created_at \n )",
        r"\\issue.id \d \\issue.created_at \n",
    );
    // An empty group contributes no sort expressions.
    assert_eq!(parse_sorting(r"\\issue.( ) \\id"), parse_sorting(r"\\id"));
}

#[test]
fn test_scoped_sorting_requires_leading_column_reference() {
    // A nested entry whose expression has no leading column reference cannot receive the head
    // path, so it is a parse error.
    assert!(parse_sorting(r"\\issue.( \\8 )").is_err());
    assert!(parse_sorting(r"\\issue.( \\'foo' )").is_err());
    assert!(parse_sorting(r"\\issue.( \\%count )").is_err());
    assert!(parse_sorting(r"\\issue.( \\@@now() )").is_err());
    // Even when other entries are fine.
    assert!(parse_sorting(r"\\issue.( \\id \\8 )").is_err());
}
