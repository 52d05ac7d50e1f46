//! Comparisons between sets of expressions, expanded into sets of comparisons between single
//! expressions.
use vstd::prelude::*;

use crate::ast::{Conjunction, Operator};
use crate::syntax::{Comparison, ComparisonPart, Expression};

verus! {

pub struct SimpleConditionSet {
    pub conjunction: Conjunction,
    pub entries: Vec<SimpleConditionSetEntry>,
}

pub enum SimpleConditionSetEntry {
    SimpleComparison(SimpleComparison),
    SimpleConditionSet(SimpleConditionSet),
}

pub struct SimpleComparison {
    pub left: Expression,
    pub operator: Operator,
    pub right: Expression,
}

impl SimpleConditionSet {
    pub fn new(conjunction: Conjunction, entries: Vec<SimpleConditionSetEntry>) -> (r: SimpleConditionSet)
        ensures
            r.conjunction == conjunction,
            r.entries == entries,
    {
        SimpleConditionSet { conjunction, entries }
    }
}

impl SimpleConditionSetEntry {
    pub fn new_comparison(left: Expression, operator: Operator, right: Expression) -> (r:
        SimpleConditionSetEntry)
        ensures
            r == SimpleConditionSetEntry::SimpleComparison(SimpleComparison { left, operator, right }),
    {
        SimpleConditionSetEntry::SimpleComparison(SimpleComparison::new(left, operator, right))
    }

    pub fn new_set(conjunction: Conjunction, entries: Vec<SimpleConditionSetEntry>) -> (r:
        SimpleConditionSetEntry)
        ensures
            r == SimpleConditionSetEntry::SimpleConditionSet(SimpleConditionSet { conjunction, entries }),
    {
        SimpleConditionSetEntry::SimpleConditionSet(SimpleConditionSet::new(conjunction, entries))
    }
}

impl SimpleComparison {
    pub fn new(left: Expression, operator: Operator, right: Expression) -> (r: SimpleComparison)
        ensures
            r == (SimpleComparison { left, operator, right }),
    {
        SimpleComparison { left, operator, right }
    }
}

/// `e` compares a copy of `l` with a copy of `r` by `operator`.
pub open spec fn compares(e: SimpleConditionSetEntry, l: Expression, operator: Operator, r: Expression) -> bool {
    &&& e matches SimpleConditionSetEntry::SimpleComparison(c)
    &&& cloned(l, c.left)
    &&& c.operator == operator
    &&& cloned(r, c.right)
}

/// `e` is a set joined by `conjunction` that compares each of `ls`, in order, with `r`.
pub open spec fn compares_each_left(
    e: SimpleConditionSetEntry,
    conjunction: Conjunction,
    ls: Seq<Expression>,
    operator: Operator,
    r: Expression,
) -> bool {
    &&& e matches SimpleConditionSetEntry::SimpleConditionSet(cs)
    &&& cs.conjunction == conjunction
    &&& cs.entries@.len() == ls.len()
    &&& forall|k: int| 0 <= k < ls.len() ==> compares(#[trigger] cs.entries@[k], ls[k], operator, r)
}

/// `e` is a set joined by `conjunction` that compares `l` with each of `rs`, in order.
pub open spec fn compares_each_right(
    e: SimpleConditionSetEntry,
    conjunction: Conjunction,
    l: Expression,
    operator: Operator,
    rs: Seq<Expression>,
) -> bool {
    &&& e matches SimpleConditionSetEntry::SimpleConditionSet(cs)
    &&& cs.conjunction == conjunction
    &&& cs.entries@.len() == rs.len()
    &&& forall|k: int| 0 <= k < rs.len() ==> compares(#[trigger] cs.entries@[k], l, operator, rs[k])
}

/// Expands a comparison into comparisons between single expressions. A set on one side becomes a
/// set (with that side's conjunction) of comparisons with each of its expressions; sets on both
/// sides become a set, joined as the left set, of sets joined as the right set.
pub fn expand_comparison(comparison: &Comparison) -> (r: SimpleConditionSetEntry)
    ensures
        match (comparison.left, comparison.right) {
            (ComparisonPart::Expression(l), ComparisonPart::Expression(rt)) => compares(
                r,
                l,
                comparison.operator,
                rt,
            ),
            (ComparisonPart::ExpressionSet(ls), ComparisonPart::Expression(rt)) => compares_each_left(
                r,
                ls.conjunction,
                ls.entries@,
                comparison.operator,
                rt,
            ),
            (ComparisonPart::Expression(l), ComparisonPart::ExpressionSet(rs)) => compares_each_right(
                r,
                rs.conjunction,
                l,
                comparison.operator,
                rs.entries@,
            ),
            (ComparisonPart::ExpressionSet(ls), ComparisonPart::ExpressionSet(rs)) => {
                &&& r matches SimpleConditionSetEntry::SimpleConditionSet(cs)
                &&& cs.conjunction == ls.conjunction
                &&& cs.entries@.len() == ls.entries@.len()
                &&& forall|k: int|
                    0 <= k < ls.entries@.len() ==> compares_each_right(
                        #[trigger] cs.entries@[k],
                        rs.conjunction,
                        ls.entries@[k],
                        comparison.operator,
                        rs.entries@,
                    )
            },
        },
{
    let operator = comparison.operator;
    match (&comparison.left, &comparison.right) {
        (ComparisonPart::Expression(l), ComparisonPart::Expression(r)) => {
            SimpleConditionSetEntry::new_comparison(l.clone(), operator, r.clone())
        },
        (ComparisonPart::ExpressionSet(ls), ComparisonPart::Expression(r)) => {
            let mut entries: Vec<SimpleConditionSetEntry> = Vec::new();
            let mut k: usize = 0;
            while k < ls.entries.len()
                invariant
                    k <= ls.entries@.len(),
                    entries@.len() == k,
                    forall|j: int|
                        0 <= j < k ==> compares(#[trigger] entries@[j], ls.entries@[j], operator, *r),
                decreases ls.entries.len() - k,
            {
                entries.push(
                    SimpleConditionSetEntry::new_comparison(ls.entries[k].clone(), operator, r.clone()),
                );
                k = k + 1;
            }
            SimpleConditionSetEntry::new_set(ls.conjunction, entries)
        },
        (ComparisonPart::Expression(l), ComparisonPart::ExpressionSet(rs)) => {
            expand_right(l, operator, rs.conjunction, &rs.entries)
        },
        (ComparisonPart::ExpressionSet(ls), ComparisonPart::ExpressionSet(rs)) => {
            let mut entries: Vec<SimpleConditionSetEntry> = Vec::new();
            let mut k: usize = 0;
            while k < ls.entries.len()
                invariant
                    k <= ls.entries@.len(),
                    entries@.len() == k,
                    forall|j: int|
                        0 <= j < k ==> compares_each_right(
                            #[trigger] entries@[j],
                            rs.conjunction,
                            ls.entries@[j],
                            operator,
                            rs.entries@,
                        ),
                decreases ls.entries.len() - k,
            {
                entries.push(expand_right(&ls.entries[k], operator, rs.conjunction, &rs.entries));
                k = k + 1;
            }
            SimpleConditionSetEntry::new_set(ls.conjunction, entries)
        },
    }
}

fn expand_right(l: &Expression, operator: Operator, conjunction: Conjunction, rs: &Vec<Expression>) -> (r:
    SimpleConditionSetEntry)
    ensures
        compares_each_right(r, conjunction, *l, operator, rs@),
{
    let mut entries: Vec<SimpleConditionSetEntry> = Vec::new();
    let mut k: usize = 0;
    while k < rs.len()
        invariant
            k <= rs@.len(),
            entries@.len() == k,
            forall|j: int| 0 <= j < k ==> compares(#[trigger] entries@[j], *l, operator, rs@[j]),
        decreases rs.len() - k,
    {
        entries.push(SimpleConditionSetEntry::new_comparison(l.clone(), operator, rs[k].clone()));
        k = k + 1;
    }
    SimpleConditionSetEntry::new_set(conjunction, entries)
}

} // verus!
