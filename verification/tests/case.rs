#![allow(unused_imports)]
use querydown::ast::{AnnotationValue, Call, CallSyntax, Case, CaseVariant, ColumnControl, ColumnGlob, ColumnSpec, Comparison, ComparisonSide, ConditionSet, Conjunction, Date, Definitions, Duration, Expr, FunctionBody, FunctionDimension, GroupSpec, HasQuantity, NullsSort, Operator, PathPart, Quantity, Query, Range, RangeBound, Exclusivity, ResultColumnStatement, ScopedConditionSet, SortDirection, SortExpr, SortSpec, TableWithMany, Transformation, WindowFn, AnonymousFunctionCall, Assignment};
use querydown::entry::expression;
fn parse(s: &str) -> Result<Expr, ()> {
    expression(s).ok_or(())
}

fn col(name: &str) -> Expr {
    Expr::Path(vec![PathPart::Column(name.to_string())])
}

fn str_(s: &str) -> Expr {
    Expr::String(s.to_string())
}

// Builds the comparison produced by a `:=` operand.
fn match_eq(left: &str, right: Expr) -> Expr {
    Expr::Comparison(Box::new(Comparison {
        left: ComparisonSide::Expr(col(left)),
        operator: Operator::Eq,
        right: ComparisonSide::Expr(right),
    }))
}

#[test]
fn test_single_variant() {
    assert_eq!(
        parse(r#"? is_active ~ "yes" ~~ "no""#),
        Ok(Expr::Case(Case {
            variants: vec![CaseVariant {
                condition: col("is_active"),
                value: str_("yes"),
            }],
            fallback: Box::new(str_("no")),
        }))
    );
}

#[test]
fn test_multiple_variants() {
    // Whitespace (including newlines) between the parts is insignificant.
    let input = "?\n  status:=\"open\"   ~ \"Open\"\n  status:=\"closed\" ~ \"Closed\"\n  ~~                 \"Other\"";
    assert_eq!(
        parse(input),
        Ok(Expr::Case(Case {
            variants: vec![
                CaseVariant {
                    condition: match_eq("status", str_("open")),
                    value: str_("Open"),
                },
                CaseVariant {
                    condition: match_eq("status", str_("closed")),
                    value: str_("Closed"),
                },
            ],
            fallback: Box::new(str_("Other")),
        }))
    );
}

#[test]
fn test_numeric_values() {
    assert_eq!(
        parse("? is_active ~ 1 ~~ 0"),
        Ok(Expr::Case(Case {
            variants: vec![CaseVariant {
                condition: col("is_active"),
                value: Expr::Number("1".to_string()),
            }],
            fallback: Box::new(Expr::Number("0".to_string())),
        }))
    );
}

#[test]
fn test_fallback_is_required() {
    // Without the `~~` fallback the expression is incomplete.
    assert!(parse(r#"? is_active ~ "yes""#).is_err());
}

#[test]
fn test_at_least_one_variant_required() {
    assert!(parse(r#"? ~~ "no""#).is_err());
}

#[test]
fn test_case_in_parentheses() {
    // A case expression can be nested inside other expressions when parenthesized.
    assert_eq!(
        parse(r#"(? is_active ~ "yes" ~~ "no")"#),
        Ok(Expr::Case(Case {
            variants: vec![CaseVariant {
                condition: col("is_active"),
                value: str_("yes"),
            }],
            fallback: Box::new(str_("no")),
        }))
    );
}
