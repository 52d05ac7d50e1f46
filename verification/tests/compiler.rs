use querydown::ast::{
    Conjunction, Date, FunctionDimension, NullsSort, Operator, PathPart, SortDirection, SortSpec,
};
use querydown::conditions::{
    expand_comparison, SimpleComparison, SimpleConditionSet, SimpleConditionSetEntry,
};
use querydown::functions::{
    needs_parens, prepare_compositions_for_aggregation, render_composition, render_compositions,
    CompositionStep, ExpressionRenderingOutput, SqlWords,
};
use querydown::join_tree::{AliasSource, JoinTree};
use querydown::msg;
use querydown::options::IdentifierResolution;
use querydown::paths::{ColumnRef, LinkToOne};
use querydown::sorting::SortingStack;
use querydown::sql_tree::{
    Column, Cte, CtePurpose, Select, SqlConditionSet, SqlConditionSetEntry,
};
use querydown::syntax::{
    Comparison, ComparisonPart, Composition, Expression, ExpressionSet, Function, Literal, Value,
};

fn cond(s: &str) -> SqlConditionSetEntry {
    SqlConditionSetEntry::Expression(s.to_string())
}

fn set(conjunction: Conjunction, entries: Vec<SqlConditionSetEntry>) -> SqlConditionSet {
    SqlConditionSet { conjunction, entries }
}

/// A rendering of a condition set, to compare sets in tests.
fn show(cs: &SqlConditionSet) -> String {
    let conj = match cs.conjunction {
        Conjunction::And => "AND",
        Conjunction::Or => "OR",
    };
    let parts: Vec<String> = cs
        .entries
        .iter()
        .map(|e| match e {
            SqlConditionSetEntry::Expression(x) => x.clone(),
            SqlConditionSetEntry::ConditionSet(inner) => show(inner),
        })
        .collect();
    format!("{}({})", conj, parts.join(", "))
}

#[test]
fn merge_flattens_sets_with_the_same_conjunction() {
    let mut a = set(Conjunction::And, vec![cond("a")]);
    a.merge(set(Conjunction::And, vec![cond("b"), cond("c")]));
    assert_eq!(show(&a), "AND(a, b, c)");
    let mut o = set(Conjunction::Or, vec![cond("a")]);
    o.merge(set(Conjunction::Or, vec![cond("b")]));
    assert_eq!(show(&o), "OR(a, b)");
}

#[test]
fn merge_nests_an_or_set_into_an_and_set() {
    let mut a = set(Conjunction::And, vec![cond("a")]);
    a.merge(set(Conjunction::Or, vec![cond("b"), cond("c")]));
    assert_eq!(show(&a), "AND(a, OR(b, c))");
}

#[test]
fn merge_into_an_or_set_makes_the_and_set_the_outer_one() {
    let mut o = set(Conjunction::Or, vec![cond("a"), cond("b")]);
    o.merge(set(Conjunction::And, vec![cond("c")]));
    assert_eq!(show(&o), "AND(c, OR(a, b))");
}

#[test]
fn merge_of_an_empty_set_changes_nothing() {
    let mut o = set(Conjunction::Or, vec![cond("a")]);
    o.merge(set(Conjunction::And, vec![]));
    assert_eq!(show(&o), "OR(a)");
}

#[test]
fn simplify_removes_empty_sets_at_every_depth() {
    let mut cs = set(
        Conjunction::And,
        vec![
            SqlConditionSetEntry::empty(),
            cond("a"),
            SqlConditionSetEntry::ConditionSet(set(
                Conjunction::Or,
                vec![
                    SqlConditionSetEntry::empty(),
                    SqlConditionSetEntry::ConditionSet(set(Conjunction::And, vec![])),
                ],
            )),
            SqlConditionSetEntry::ConditionSet(set(
                Conjunction::Or,
                vec![SqlConditionSetEntry::empty(), cond("b")],
            )),
        ],
    );
    cs.simplify();
    assert_eq!(show(&cs), "AND(a, OR(b))");
}

#[test]
fn a_simple_set_is_unchanged_by_simplify() {
    let mut cs = set(
        Conjunction::And,
        vec![cond("a"), SqlConditionSetEntry::ConditionSet(set(Conjunction::Or, vec![cond("b")]))],
    );
    let before = show(&cs);
    cs.simplify();
    assert_eq!(show(&cs), before);
    cs.simplify();
    assert_eq!(show(&cs), before);
}

#[test]
fn entry_emptiness() {
    assert!(SqlConditionSetEntry::empty().is_empty());
    assert!(!cond("a").is_empty());
    let mut entry = SqlConditionSetEntry::ConditionSet(set(
        Conjunction::And,
        vec![SqlConditionSetEntry::empty()],
    ));
    assert!(!entry.is_empty());
    entry.simplify();
    assert!(entry.is_empty());
}

#[test]
fn select_simplify_only_touches_the_conditions() {
    let mut select = Select::from_base_table("issues".to_string());
    select.columns.push(Column::new("x".to_string(), Some("y".to_string())));
    select.condition_set.entries.push(SqlConditionSetEntry::empty());
    select.condition_set.entries.push(cond("a = 1"));
    select.simplify();
    assert_eq!(show(&select.condition_set), "AND(a = 1)");
    assert_eq!(select.base_table, "issues");
    assert_eq!(select.columns.len(), 1);
    assert_eq!(select.columns[0].expression, "x");
    assert_eq!(select.columns[0].alias, Some("y".to_string()));
}

fn spec(ordinal: Option<u32>, direction: SortDirection) -> SortSpec {
    SortSpec { ordinal, direction, nulls_sort: NullsSort::Last }
}

#[test]
fn sorting_stack_places_ordinals_first_then_pushed_order() {
    let mut stack = SortingStack::new();
    stack.push("a".to_string(), spec(None, SortDirection::Asc));
    stack.push("b".to_string(), spec(Some(2), SortDirection::Desc));
    stack.push("c".to_string(), spec(None, SortDirection::Asc));
    stack.push("d".to_string(), spec(Some(1), SortDirection::Asc));
    let entries = stack.into_entries();
    let order: Vec<&str> = entries.iter().map(|e| e.expression.as_str()).collect();
    assert_eq!(order, vec!["d", "b", "a", "c"]);
    assert_eq!(entries[1].direction, SortDirection::Desc);
}

#[test]
fn sorting_stack_with_the_largest_ordinal_keeps_ties_in_pushed_order() {
    let mut stack = SortingStack::new();
    stack.push("a".to_string(), spec(None, SortDirection::Asc));
    stack.push("b".to_string(), spec(Some(u32::MAX), SortDirection::Asc));
    let entries = stack.into_entries();
    let order: Vec<&str> = entries.iter().map(|e| e.expression.as_str()).collect();
    assert_eq!(order, vec!["a", "b"]);
}

#[test]
fn error_messages() {
    assert_eq!(
        msg::col_not_in_table("age", "users"),
        "Column `age` not found within table `users`."
    );
    assert_eq!(
        msg::special_aggregate_composition_applied_without_column("sum".to_string()),
        "Aggregate function `sum` can only be applied to a column."
    );
    assert_eq!(
        msg::no_current_table(),
        "Non-FK columns can only appear at the end of a path."
    );
    assert_eq!(
        msg::multiple_fk_from_col(),
        "Schema has multiple foreign keys from the same column"
    );
    assert_eq!(msg::no_path_parts(), "Cannot build a ClarifiedPath without any path parts");
    assert_eq!(
        msg::no_column_name_or_chain(),
        "Cannot build a ClarifiedPathTail without a column name or chain"
    );
    assert_eq!(
        msg::pre_aggregate_composition_without_column(),
        "Functions can only be applied before aggregation when a column is specified."
    );
}

fn words() -> SqlWords {
    SqlWords {
        plus: "+".to_string(),
        minus: "-".to_string(),
        times: "*".to_string(),
        divide: "/".to_string(),
        now: "NOW()".to_string(),
        max: "MAX".to_string(),
        min: "MIN".to_string(),
    }
}

#[test]
fn render_composition_of_each_function() {
    let w = words();
    assert_eq!(render_composition("plus", "a", Some("1".to_string()), &w), "a + 1");
    assert_eq!(render_composition("minus", "a", Some("1".to_string()), &w), "a - 1");
    assert_eq!(render_composition("times", "a", Some("2".to_string()), &w), "a * 2");
    assert_eq!(render_composition("divide", "a", Some("2".to_string()), &w), "a / 2");
    assert_eq!(render_composition("plus", "a", None, &w), "a");
    assert_eq!(render_composition("ago", "d", None, &w), "(NOW() - d)");
    assert_eq!(render_composition("from_now", "d", None, &w), "(NOW() + d)");
    assert_eq!(render_composition("max", "a", None, &w), "MAX(a)");
    assert_eq!(render_composition("min", "a", Some("b".to_string()), &w), "MIN(a, b)");
    assert_eq!(render_composition("unknown", "a", Some("b".to_string()), &w), "a");
}

#[test]
fn parentheses_for_sums_under_products() {
    assert!(needs_parens("times", Some("plus")));
    assert!(needs_parens("divide", Some("minus")));
    assert!(!needs_parens("plus", Some("times")));
    assert!(!needs_parens("times", Some("times")));
    assert!(!needs_parens("times", None));
}

fn composition(name: &str, dimension: FunctionDimension) -> Composition {
    Composition { function: Function { name: name.to_string(), dimension }, argument: None }
}

fn names(cs: &[Composition]) -> Vec<String> {
    cs.iter().map(|c| c.function.name.clone()).collect()
}

#[test]
fn compositions_split_around_the_aggregate() {
    let (pre, post) = prepare_compositions_for_aggregation(vec![
        composition("abs", FunctionDimension::Scalar),
        composition("sum", FunctionDimension::Aggregate),
        composition("round", FunctionDimension::Scalar),
    ])
    .unwrap();
    assert_eq!(names(&pre), vec!["abs", "sum"]);
    assert_eq!(names(&post), vec!["round"]);
}

#[test]
fn compositions_without_an_aggregate_count_rows() {
    let (pre, post) =
        prepare_compositions_for_aggregation(vec![composition("abs", FunctionDimension::Scalar)])
            .unwrap();
    assert_eq!(names(&pre), vec!["count"]);
    assert_eq!(pre[0].function.dimension, FunctionDimension::Aggregate);
    assert_eq!(names(&post), vec!["abs"]);
}

#[test]
fn two_aggregates_are_an_error() {
    let result = prepare_compositions_for_aggregation(vec![
        composition("sum", FunctionDimension::Aggregate),
        composition("max", FunctionDimension::Aggregate),
    ]);
    assert_eq!(
        result.err(),
        Some("Cannot apply more than one aggregate function to the same expression.".to_string())
    );
}

fn number(n: &str) -> Expression {
    Expression { base: Value::Literal(Literal::Number(n.to_string())), compositions: vec![] }
}

fn column(name: &str) -> Expression {
    Expression { base: Value::Path(vec![PathPart::Column(name.to_string())]), compositions: vec![] }
}

fn describe(e: &SimpleConditionSetEntry) -> String {
    fn side(x: &Expression) -> String {
        match &x.base {
            Value::Literal(Literal::Number(n)) => n.clone(),
            Value::Path(parts) => match &parts[0] {
                PathPart::Column(c) => c.clone(),
                _ => "?".to_string(),
            },
            _ => "?".to_string(),
        }
    }
    match e {
        SimpleConditionSetEntry::SimpleComparison(SimpleComparison { left, right, .. }) => {
            format!("{}={}", side(left), side(right))
        }
        SimpleConditionSetEntry::SimpleConditionSet(SimpleConditionSet { conjunction, entries }) => {
            let c = match conjunction {
                Conjunction::And => "AND",
                Conjunction::Or => "OR",
            };
            let inner: Vec<String> = entries.iter().map(describe).collect();
            format!("{}({})", c, inner.join(" "))
        }
    }
}

#[test]
fn expansion_of_comparisons_with_sets() {
    let single = Comparison {
        left: ComparisonPart::Expression(column("a")),
        operator: Operator::Eq,
        right: ComparisonPart::Expression(number("1")),
    };
    assert_eq!(describe(&expand_comparison(&single)), "a=1");

    let left_set = Comparison {
        left: ComparisonPart::ExpressionSet(ExpressionSet {
            conjunction: Conjunction::Or,
            entries: vec![column("a"), column("b")],
        }),
        operator: Operator::Eq,
        right: ComparisonPart::Expression(number("1")),
    };
    assert_eq!(describe(&expand_comparison(&left_set)), "OR(a=1 b=1)");

    let right_set = Comparison {
        left: ComparisonPart::Expression(column("a")),
        operator: Operator::Eq,
        right: ComparisonPart::ExpressionSet(ExpressionSet {
            conjunction: Conjunction::And,
            entries: vec![number("1"), number("2")],
        }),
    };
    assert_eq!(describe(&expand_comparison(&right_set)), "AND(a=1 a=2)");

    let both = Comparison {
        left: ComparisonPart::ExpressionSet(ExpressionSet {
            conjunction: Conjunction::Or,
            entries: vec![column("a"), column("b")],
        }),
        operator: Operator::Gt,
        right: ComparisonPart::ExpressionSet(ExpressionSet {
            conjunction: Conjunction::And,
            entries: vec![number("1"), number("2")],
        }),
    };
    assert_eq!(describe(&expand_comparison(&both)), "OR(AND(a=1 a=2) AND(b=1 b=2))");
    match expand_comparison(&both) {
        SimpleConditionSetEntry::SimpleConditionSet(outer) => match &outer.entries[0] {
            SimpleConditionSetEntry::SimpleConditionSet(inner) => match &inner.entries[0] {
                SimpleConditionSetEntry::SimpleComparison(c) => assert_eq!(c.operator, Operator::Gt),
                _ => panic!("expected a comparison"),
            },
            _ => panic!("expected a set"),
        },
        _ => panic!("expected a set"),
    }
}

/// Aliases named after the table each link reaches, in the order they were asked for.
struct Counter {
    asked: Vec<u32>,
}

impl AliasSource for Counter {
    fn alias_given(&self, _link: LinkToOne) -> vstd::seq::Seq<char> {
        unreachable!("a spec function, never called at run time")
    }

    fn after_giving(&self, _link: LinkToOne) -> Self {
        unreachable!("a spec function, never called at run time")
    }

    fn alias_for(&mut self, link: &LinkToOne) -> String {
        self.asked.push(link.end.table_id);
        format!("t{}_{}", link.end.table_id, self.asked.len())
    }
}

fn link(from: u32, to: u32) -> LinkToOne {
    LinkToOne {
        start: ColumnRef { table_id: from, column_id: 1 },
        end: ColumnRef { table_id: to, column_id: 0 },
    }
}

fn cte(alias: &str) -> Cte {
    Cte {
        alias: alias.to_string(),
        select: Select::from_base_table("x".to_string()),
        purpose: CtePurpose::AggregateValue,
        join_column_name: "id".to_string(),
    }
}

#[test]
fn integrating_a_new_chain_builds_it_furthest_alias_first() {
    let mut tree = JoinTree::new("issues".to_string());
    let mut source = Counter { asked: vec![] };
    let chain = vec![link(0, 1), link(1, 2), link(2, 3)];
    let alias = tree.integrate_chain(Some(&chain), &mut source, Some(cte("cte0")));
    assert_eq!(source.asked, vec![3, 2, 1]);
    assert_eq!(alias, "t3_1");
    assert_eq!(tree.dependents.len(), 1);
    let first = &tree.dependents[0].1;
    assert_eq!(first.get_alias(), "t1_3");
    let second = &first.dependents[0].1;
    assert_eq!(second.get_alias(), "t2_2");
    let third = &second.dependents[0].1;
    assert_eq!(third.get_alias(), "t3_1");
    assert_eq!(third.ctes.len(), 1);
    assert_eq!(third.ctes[0].alias, "cte0");
}

#[test]
fn integrating_a_known_chain_gives_back_its_alias() {
    let mut tree = JoinTree::new("issues".to_string());
    let mut source = Counter { asked: vec![] };
    let chain = vec![link(0, 1), link(1, 2)];
    let first = tree.integrate_chain(Some(&chain), &mut source, None);
    let again = tree.integrate_chain(Some(&chain), &mut source, Some(cte("c")));
    assert_eq!(first, again);
    assert_eq!(source.asked.len(), 2);
    // Extending a known chain adds only the new link.
    let longer = vec![link(0, 1), link(1, 2), link(2, 4)];
    let extended = tree.integrate_chain(Some(&longer), &mut source, None);
    assert_eq!(source.asked, vec![2, 1, 4]);
    assert_eq!(extended, "t4_3");
    // A chain sharing only the first link branches off it.
    let branch = vec![link(0, 1), link(1, 5)];
    tree.integrate_chain(Some(&branch), &mut source, None);
    assert_eq!(tree.dependents.len(), 1);
    assert_eq!(tree.dependents[0].1.dependents.len(), 2);
}

#[test]
fn integrating_no_chain_attaches_to_the_root() {
    let mut tree = JoinTree::new("issues".to_string());
    let mut source = Counter { asked: vec![] };
    let alias = tree.integrate_chain(None, &mut source, Some(cte("c")));
    assert_eq!(alias, "issues");
    assert!(source.asked.is_empty());
    let ctes = tree.take_ctes();
    assert_eq!(ctes.len(), 1);
    assert!(tree.take_ctes().is_empty());
}

#[test]
fn taking_dependents_empties_the_node() {
    let mut tree = JoinTree::new("issues".to_string());
    let mut source = Counter { asked: vec![] };
    tree.integrate_chain(Some(&vec![link(0, 1)]), &mut source, None);
    let deps = tree.take_dependents();
    assert_eq!(deps.len(), 1);
    assert_eq!(deps[0].0, link(0, 1));
    assert!(tree.take_dependents().is_empty());
    assert_eq!(tree.get_alias(), "issues");
}

#[test]
fn identifier_resolution_defaults_to_flexible() {
    assert_eq!(IdentifierResolution::default(), IdentifierResolution::Flexible);
}

#[test]
fn dates_render_zero_padded() {
    assert_eq!(Date { year: 2000, month: 1, day: 2 }.to_iso(), "2000-01-02");
    assert_eq!(Date { year: 33, month: 12, day: 31 }.to_iso(), "0033-12-31");
}

fn step(name: &str, arg: Option<(&str, Option<&str>)>) -> CompositionStep {
    CompositionStep {
        function_name: name.to_string(),
        argument: arg.map(|(rendered, last)| ExpressionRenderingOutput {
            rendered: rendered.to_string(),
            last_applied_function: last.map(|l| l.to_string()),
        }),
    }
}

#[test]
fn compositions_parenthesize_sums_under_products() {
    let w = words();
    let out = render_compositions(
        "a".to_string(),
        vec![step("plus", Some(("1", None))), step("times", Some(("2", None)))],
        &w,
    );
    assert_eq!(out.rendered, "(a + 1) * 2");
    assert_eq!(out.last_applied_function, Some("times".to_string()));
    let out = render_compositions(
        "a".to_string(),
        vec![step("times", Some(("b + c", Some("plus"))))],
        &w,
    );
    assert_eq!(out.rendered, "a * (b + c)");
    let out = render_compositions("d".to_string(), vec![step("ago", None), step("max", None)], &w);
    assert_eq!(out.rendered, "MAX((NOW() - d))");
    let out = render_compositions("x".to_string(), vec![], &w);
    assert_eq!(out.rendered, "x");
    assert_eq!(out.last_applied_function, None);
}
