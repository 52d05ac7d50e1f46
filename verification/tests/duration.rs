#![allow(unused_imports)]
use querydown::ast::{AnnotationValue, Call, CallSyntax, Case, CaseVariant, ColumnControl, ColumnGlob, ColumnSpec, Comparison, ComparisonSide, ConditionSet, Conjunction, Date, Definitions, Duration, Expr, FunctionBody, FunctionDimension, GroupSpec, HasQuantity, NullsSort, Operator, PathPart, Quantity, Query, Range, RangeBound, Exclusivity, ResultColumnStatement, ScopedConditionSet, SortDirection, SortExpr, SortSpec, TableWithMany, Transformation, WindowFn, AnonymousFunctionCall, Assignment};
use querydown::decimal::Decimal;
use querydown::entry::duration_literal;

/// A duration component written as a decimal number.
fn dec(v: f64) -> Decimal {
    let text = format!("{}", v);
    let (whole, fraction) = match text.split_once('.') {
        Some((w, f)) => (w.to_string(), f.trim_end_matches('0').to_string()),
        None => (text.clone(), String::new()),
    };
    Decimal { whole, fraction }
}

#[test]
fn test_parse_duration() {
    let parse = |s: &str| {
        duration_literal(s).ok_or(())
    };
    assert_eq!(
        parse("1y2.2m0.3w4444d5h6min7s"),
        Ok(Duration {
            years: dec(1.0),
            months: dec(2.2),
            weeks: dec(0.3),
            days: dec(4444.0),
            hours: dec(5.0),
            minutes: dec(6.0),
            seconds: dec(7.0),
        })
    );
    // Units are case-insensitive, and parts may appear in any order.
    assert_eq!(
        parse("6MIN2Y"),
        Ok(Duration {
            years: dec(2.0),
            minutes: dec(6.0),
            ..Default::default()
        })
    );
    assert_eq!(parse("0y"), Ok(Duration::default()));
    assert_eq!(parse("0s"), Ok(Duration::default()));
    // `m` is months and `min` is minutes; the two are unambiguous, even adjacent.
    assert_eq!(
        parse("1m1min"),
        Ok(Duration {
            months: dec(1.0),
            minutes: dec(1.0),
            ..Default::default()
        })
    );
    assert!(parse("1m").is_ok());
    assert!(parse("1min").is_ok());
    // An empty string or a unit-less number is not a duration.
    assert!(parse("").is_err());
    assert!(parse("1").is_err());
    // A trailing or repeated unit character is invalid.
    assert!(parse("1yy").is_err());
    assert!(parse("1y2").is_err());
    // A duration can't repeat a kind.
    assert!(parse("1y2y").is_err());
    assert!(parse("1y0y").is_err());
    assert!(parse("1m1m").is_err());
}

#[test]
fn durations_render_in_iso_form() {
    assert_eq!(duration_literal("1y2.2m3h").unwrap().to_iso(), "1Y2.2MT3H");
    assert_eq!(duration_literal("0y").unwrap().to_iso(), "PT0S");
    assert_eq!(duration_literal("6min1w").unwrap().to_iso(), "1WT6M");
    assert_eq!(Duration::zero().to_iso(), "PT0S");
}
