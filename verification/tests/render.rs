use querydown::ast::{Conjunction, NullsSort, SortDirection};
use querydown::render::{render_sort_entries, SqlKeywords};
use querydown::sql_tree::{SortEntry, SqlConditionSet, SqlConditionSetEntry};

fn keywords() -> SqlKeywords {
    SqlKeywords {
        and: "AND".to_string(),
        or: "OR".to_string(),
        asc: "ASC".to_string(),
        desc: "DESC".to_string(),
        nulls_first: "NULLS FIRST".to_string(),
        nulls_last: "NULLS LAST".to_string(),
    }
}

fn cond(s: &str) -> SqlConditionSetEntry {
    SqlConditionSetEntry::Expression(s.to_string())
}

#[test]
fn condition_sets_render_one_entry_per_line() {
    let cs = SqlConditionSet {
        conjunction: Conjunction::And,
        entries: vec![
            cond("a = 1"),
            SqlConditionSetEntry::ConditionSet(SqlConditionSet {
                conjunction: Conjunction::Or,
                entries: vec![cond("b"), cond("c")],
            }),
        ],
    };
    assert_eq!(cs.render(0, &keywords()), "a = 1 AND\n(\n  b OR\n  c\n)\n");
    assert_eq!(cs.render(1, &keywords()), "  a = 1 AND\n  (\n    b OR\n    c\n  )\n");
}

#[test]
fn empty_sets_render_as_nothing() {
    let empty = SqlConditionSet { conjunction: Conjunction::And, entries: vec![] };
    assert_eq!(empty.render(3, &keywords()), "");
    assert_eq!(SqlConditionSetEntry::empty().render(2, &keywords()), "");
    assert_eq!(cond("x").render(5, &keywords()), "x");
}

#[test]
fn sort_entries_render_with_direction_and_nulls() {
    let entries = vec![
        SortEntry {
            expression: "a".to_string(),
            direction: SortDirection::Asc,
            nulls_sort: NullsSort::Last,
        },
        SortEntry {
            expression: "b".to_string(),
            direction: SortDirection::Desc,
            nulls_sort: NullsSort::First,
        },
    ];
    assert_eq!(
        render_sort_entries(&entries, &keywords()),
        "a ASC NULLS LAST, b DESC NULLS FIRST"
    );
    assert_eq!(render_sort_entries(&vec![], &keywords()), "");
}
