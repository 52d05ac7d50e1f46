#![allow(unused_imports)]
use querydown::ast::{AnnotationValue, Call, CallSyntax, Case, CaseVariant, ColumnControl, ColumnGlob, ColumnSpec, Comparison, ComparisonSide, ConditionSet, Conjunction, Date, Definitions, Duration, Expr, FunctionBody, FunctionDimension, GroupSpec, HasQuantity, NullsSort, Operator, PathPart, Quantity, Query, Range, RangeBound, Exclusivity, ResultColumnStatement, ScopedConditionSet, SortDirection, SortExpr, SortSpec, TableWithMany, Transformation, WindowFn, AnonymousFunctionCall, Assignment};
use querydown::parse_conditions;
/// Parses the single condition-set entry produced by a scoped comparison, asserting that the
/// whole input is one scoped comparison, and returns its [`ScopedConditionSet`].
fn parse_scoped(input: &str) -> ScopedConditionSet {
    let conditions = parse_conditions(input).unwrap();
    assert_eq!(conditions.entries.len(), 1, "expected one entry: {input}");
    match conditions.entries.into_iter().next().unwrap() {
        Expr::ScopedConditionSet(scoped) => scoped,
        other => panic!("expected a scoped condition set, got {other:?} for: {input}"),
    }
}

#[test]
fn captures_path_and_condition_set_verbatim() {
    // The path and condition set are captured as written — no desugaring — with `{ }` yielding an
    // AND set and `[ ]` an OR set.
    let scoped = parse_scoped("issue{title:dashboard}");
    assert_eq!(scoped.path, vec![PathPart::Column("issue".to_string())]);
    assert_eq!(scoped.condition_set.conjunction, Conjunction::And);
    assert_eq!(
        scoped.condition_set.entries,
        vec![Expr::Comparison(Box::new(Comparison {
            left: ComparisonSide::Expr(Expr::Path(vec![PathPart::Column("title".to_string())])),
            operator: Operator::Match,
            right: ComparisonSide::Expr(Expr::String("dashboard".to_string())),
        }))]
    );

    assert_eq!(
        parse_scoped("issue[a:1 b:2]").condition_set.conjunction,
        Conjunction::Or
    );
}

#[test]
fn a_multi_part_head_is_captured() {
    let scoped = parse_scoped("issue.project{name:x}");
    assert_eq!(
        scoped.path,
        vec![
            PathPart::Column("issue".to_string()),
            PathPart::Column("project".to_string()),
        ]
    );
}

#[test]
fn a_bare_word_entry_is_kept_as_a_search_term() {
    // A bare word inside the scope is a default text-search term (an `Expr::String`), exactly as
    // it would be at the top level. This is the case that cannot be desugared and must be scoped
    // in the compiler.
    let scoped = parse_scoped("issue{dashboard}");
    assert_eq!(
        scoped.condition_set.entries,
        vec![Expr::String("dashboard".to_string())]
    );
}

#[test]
fn scopes_nest() {
    // A scoped comparison is an ordinary expression, so it can itself be an entry of a scope.
    let outer = parse_scoped("issue{project{name:x}}");
    assert_eq!(outer.path, vec![PathPart::Column("issue".to_string())]);
    assert!(matches!(
        outer.condition_set.entries.as_slice(),
        [Expr::ScopedConditionSet(_)]
    ));
}

#[test]
fn requires_no_space_before_the_brace() {
    // With a space, `issue` is a default text-search term and `{id:7}` a separate condition set —
    // two entries — rather than a single scoped comparison.
    let spaced = parse_conditions("issue {id:7}").unwrap();
    assert_eq!(spaced.entries.len(), 2);
    assert_eq!(spaced.entries[0], Expr::String("issue".to_string()));
    assert!(matches!(spaced.entries[1], Expr::ConditionSet(_)));
}

#[test]
fn works_inside_an_outer_condition_set() {
    // A scoped comparison nests inside `[ ]`/`{ }` like any other boolean expression. The
    // top-level conditions are an implicit AND set whose sole entry here is the explicit `[ ]`.
    let conditions = parse_conditions("[issue{title:x} body:y]").unwrap();
    let [Expr::ConditionSet(or_set)] = conditions.entries.as_slice() else {
        panic!(
            "expected a single OR condition set, got {:?}",
            conditions.entries
        );
    };
    assert_eq!(or_set.conjunction, Conjunction::Or);
    assert!(matches!(
        or_set.entries.as_slice(),
        [Expr::ScopedConditionSet(_), Expr::Comparison(_)]
    ));
}
