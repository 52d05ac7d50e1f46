#![allow(unused_imports)]
use querydown::ast::{AnnotationValue, Call, CallSyntax, Case, CaseVariant, ColumnControl, ColumnGlob, ColumnSpec, Comparison, ComparisonSide, ConditionSet, Conjunction, Date, Definitions, Duration, Expr, FunctionBody, FunctionDimension, GroupSpec, HasQuantity, NullsSort, Operator, PathPart, Quantity, Query, Range, RangeBound, Exclusivity, ResultColumnStatement, ScopedConditionSet, SortDirection, SortExpr, SortSpec, TableWithMany, Transformation, WindowFn, AnonymousFunctionCall, Assignment};
use querydown::entry::column_annotation;
fn p(s: &str) -> Result<AnnotationValue, ()> {
    column_annotation(s).ok_or(())
}

fn obj(entries: Vec<(&str, AnnotationValue)>) -> AnnotationValue {
    AnnotationValue::Object(
        entries
            .into_iter()
            .map(|(k, v)| (k.to_string(), v))
            .collect(),
    )
}

fn num(n: &str) -> AnnotationValue {
    AnnotationValue::Number(n.to_string())
}

fn s(v: &str) -> AnnotationValue {
    AnnotationValue::String(v.to_string())
}

#[test]
fn annotation_test_scalar_values() {
    assert_eq!(p("@{width:100}"), Ok(obj(vec![("width", num("100"))])));
    assert_eq!(p("@{x:-2.5}"), Ok(obj(vec![("x", num("-2.5"))])));
    assert_eq!(
        p("@{formatter:timeElapsed}"),
        Ok(obj(vec![("formatter", s("timeElapsed"))]))
    );
    assert_eq!(p("@{a:'foo'}"), Ok(obj(vec![("a", s("foo"))])));
    assert_eq!(p("@{a:\"foo\"}"), Ok(obj(vec![("a", s("foo"))])));
    assert_eq!(
        p("@{a:@true}"),
        Ok(obj(vec![("a", AnnotationValue::Bool(true))]))
    );
    assert_eq!(
        p("@{a:@false}"),
        Ok(obj(vec![("a", AnnotationValue::Bool(false))]))
    );
    assert_eq!(p("@{a:@null}"), Ok(obj(vec![("a", AnnotationValue::Null)])));
    // Bare `true` (without the sigil) is a string.
    assert_eq!(p("@{a:true}"), Ok(obj(vec![("a", s("true"))])));
}

#[test]
fn annotation_test_quoted_key() {
    assert_eq!(p("@{'a b':1}"), Ok(obj(vec![("a b", num("1"))])));
}

#[test]
fn annotation_test_multiple_entries_preserve_order() {
    assert_eq!(
        p("@{formatter:timeElapsed textColor:light}"),
        Ok(obj(vec![
            ("formatter", s("timeElapsed")),
            ("textColor", s("light")),
        ]))
    );
}

#[test]
fn annotation_test_nested_object_and_array() {
    assert_eq!(
        p("@{formattingConditions:[\n  {gte:10 bg:'#fbc9ff'}\n  {gte:5 bg:'#d5d2ff'}\n]}"),
        Ok(obj(vec![(
            "formattingConditions",
            AnnotationValue::Array(vec![
                obj(vec![("gte", num("10")), ("bg", s("#fbc9ff"))]),
                obj(vec![("gte", num("5")), ("bg", s("#d5d2ff"))]),
            ])
        )]))
    );
}

#[test]
fn annotation_test_empty_object() {
    assert_eq!(p("@{}"), Ok(obj(vec![])));
}

#[test]
fn annotation_test_rejects_non_object_top_level() {
    // The top level must be an object, not a bare value.
    assert!(p("@true").is_err());
    assert!(p("@5").is_err());
}

#[test]
fn annotation_test_rejects_non_json_constants() {
    assert!(p("@{a:@now}").is_err());
    assert!(p("@{a:@2y}").is_err());
}

#[test]
fn annotation_test_rejects_unterminated() {
    assert!(p("@{a:1").is_err());
    assert!(p("@{a:[1 2}").is_err());
}
