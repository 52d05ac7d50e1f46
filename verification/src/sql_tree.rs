//! The SQL statement being built: a `SELECT` with its common table expressions, joins, conditions
//! and ordering, before it is rendered as text.
use vstd::prelude::*;

use crate::ast::{Conjunction, NullsSort, SortDirection};

verus! {

#[derive(Debug)]
pub struct Select {
    pub base_table: String,
    pub columns: Vec<Column>,
    pub ctes: Vec<Cte>,
    pub joins: Vec<Join>,
    pub condition_set: SqlConditionSet,
    pub sorting: Vec<SortEntry>,
    pub grouping: Vec<String>,
}

impl Select {
    /// A select of every column of `base_table`, with nothing joined, filtered, sorted or grouped.
    pub fn from_base_table(base_table: String) -> (r: Select)
        ensures
            r.base_table == base_table,
            r.columns@.len() == 0,
            r.ctes@.len() == 0,
            r.joins@.len() == 0,
            r.condition_set.conjunction == Conjunction::And,
            r.condition_set.entries@.len() == 0,
            r.sorting@.len() == 0,
            r.grouping@.len() == 0,
    {
        Select {
            base_table,
            columns: Vec::new(),
            ctes: Vec::new(),
            joins: Vec::new(),
            condition_set: SqlConditionSet::new_and(),
            sorting: Vec::new(),
            grouping: Vec::new(),
        }
    }

    /// Simplifies the `WHERE` conditions (see [`SqlConditionSet::simplify`]); nothing else changes.
    pub fn simplify(&mut self)
        ensures
            set_simplifies_to(old(self).condition_set, final(self).condition_set),
            final(self).base_table == old(self).base_table,
            final(self).columns == old(self).columns,
            final(self).ctes == old(self).ctes,
            final(self).joins == old(self).joins,
            final(self).sorting == old(self).sorting,
            final(self).grouping == old(self).grouping,
    {
        self.condition_set.simplify();
    }
}

#[derive(Debug)]
pub struct Column {
    pub expression: String,
    pub alias: Option<String>,
}

impl Column {
    pub fn new(expression: String, alias: Option<String>) -> (r: Column)
        ensures
            r.expression == expression,
            r.alias == alias,
    {
        Column { expression, alias }
    }
}

#[derive(Debug)]
pub struct Cte {
    pub alias: String,
    pub select: Select,
    pub purpose: CtePurpose,
    /// The column of the other table to which this CTE is joined (usually its primary key). The
    /// table itself is known from the join tree.
    pub join_column_name: String,
}

#[derive(Debug, Clone, Copy, PartialEq, Eq)]
pub enum CtePurpose {
    /// Filters the base table on the presence of related records: joined with an inner join.
    Inclusion,
    /// Filters the base table on the absence of related records: joined with a left outer join,
    /// and a `WHERE` clause keeps only the rows without a related record.
    Exclusion,
    /// Supplies a value used by the query: joined with a left outer join.
    AggregateValue,
}

#[derive(Debug)]
pub struct Join {
    pub table: String,
    pub alias: String,
    pub condition_set: SqlConditionSet,
    pub join_type: JoinType,
}

#[derive(Debug)]
pub enum JoinType {
    Inner,
    LeftOuter,
}

#[derive(Debug)]
pub struct SqlConditionSet {
    pub conjunction: Conjunction,
    pub entries: Vec<SqlConditionSetEntry>,
}

#[derive(Debug)]
pub enum SqlConditionSetEntry {
    Expression(String),
    ConditionSet(SqlConditionSet),
}

#[derive(Debug)]
pub struct SortEntry {
    pub expression: String,
    pub direction: SortDirection,
    pub nulls_sort: NullsSort,
}

/// An entry that holds no condition at all once simplified: a condition set whose entries are all
/// such entries (an empty set among them).
pub open spec fn vacuous(e: SqlConditionSetEntry) -> bool
    decreases e, 0int,
{
    match e {
        SqlConditionSetEntry::Expression(_) => false,
        SqlConditionSetEntry::ConditionSet(cs) => {
            proof {
                assert(decreases_to!(cs.entries => cs.entries@));
            }
            all_vacuous(cs.entries@)
        },
    }
}

/// Every entry of `es` is vacuous.
pub open spec fn all_vacuous(es: Seq<SqlConditionSetEntry>) -> bool
    decreases es, 1int,
{
    if es.len() == 0 {
        true
    } else {
        vacuous(es.last()) && all_vacuous(es.drop_last())
    }
}

/// `n` is what simplifying `o` gives: an expression stays as it is, and a condition set keeps its
/// conjunction and has its entries simplified.
pub open spec fn simplifies_to(o: SqlConditionSetEntry, n: SqlConditionSetEntry) -> bool
    decreases o, 2int,
{
    match o {
        SqlConditionSetEntry::Expression(x) => n == SqlConditionSetEntry::Expression(x),
        SqlConditionSetEntry::ConditionSet(cs) => match n {
            SqlConditionSetEntry::ConditionSet(ncs) => set_simplifies_to(cs, ncs),
            SqlConditionSetEntry::Expression(_) => false,
        },
    }
}

/// `n` is what simplifying the set `o` gives: the same conjunction, and the entries of `o` that
/// are not vacuous, each simplified, in their order.
pub open spec fn set_simplifies_to(o: SqlConditionSet, n: SqlConditionSet) -> bool
    decreases o, 1int,
{
    proof {
        assert(decreases_to!(o.entries => o.entries@));
    }
    n.conjunction == o.conjunction && entries_simplify_to(o.entries@, n.entries@)
}

/// `ns` holds, in order, the simplified forms of the entries of `os` that are not vacuous.
pub open spec fn entries_simplify_to(os: Seq<SqlConditionSetEntry>, ns: Seq<SqlConditionSetEntry>) -> bool
    decreases os, 0int,
{
    if os.len() == 0 {
        ns.len() == 0
    } else if vacuous(os.last()) {
        entries_simplify_to(os.drop_last(), ns)
    } else {
        ns.len() > 0 && simplifies_to(os.last(), ns.last()) && entries_simplify_to(
            os.drop_last(),
            ns.drop_last(),
        )
    }
}

/// A condition set in simplest form: none of its entries, at any depth, is vacuous.
pub open spec fn set_is_simple(cs: SqlConditionSet) -> bool
    decreases cs, 1int,
{
    proof {
        assert(decreases_to!(cs.entries => cs.entries@));
    }
    entries_are_simple(cs.entries@)
}

pub open spec fn entries_are_simple(es: Seq<SqlConditionSetEntry>) -> bool
    decreases es, 0int,
{
    if es.len() == 0 {
        true
    } else {
        !vacuous(es.last()) && entry_is_simple(es.last()) && entries_are_simple(es.drop_last())
    }
}

pub open spec fn entry_is_simple(e: SqlConditionSetEntry) -> bool
    decreases e, 2int,
{
    match e {
        SqlConditionSetEntry::Expression(_) => true,
        SqlConditionSetEntry::ConditionSet(cs) => set_is_simple(cs),
    }
}

impl SqlConditionSet {
    /// An empty set joined with `AND`.
    pub fn new_and() -> (r: SqlConditionSet)
        ensures
            r.conjunction == Conjunction::And,
            r.entries@.len() == 0,
    {
        SqlConditionSet { conjunction: Conjunction::And, entries: Vec::new() }
    }

    /// Adds the conditions of `new` to this set. Nothing changes when `new` has no entries. Sets
    /// with the same conjunction are flattened into one. An `OR` set merged into an `AND` set
    /// becomes one nested entry; when this set is the `OR` one, `new` takes its place and this set
    /// is nested as the last entry of `new`.
    pub fn merge(&mut self, new: SqlConditionSet)
        ensures
            new.entries@.len() == 0 ==> *final(self) == *old(self),
            new.entries@.len() > 0 && new.conjunction == old(self).conjunction ==> {
                &&& final(self).conjunction == old(self).conjunction
                &&& final(self).entries@ == old(self).entries@ + new.entries@
            },
            new.entries@.len() > 0 && old(self).conjunction == Conjunction::And
                && new.conjunction == Conjunction::Or ==> {
                &&& final(self).conjunction == Conjunction::And
                &&& final(self).entries@ == old(self).entries@.push(
                    SqlConditionSetEntry::ConditionSet(new),
                )
            },
            new.entries@.len() > 0 && old(self).conjunction == Conjunction::Or
                && new.conjunction == Conjunction::And ==> {
                &&& final(self).conjunction == Conjunction::And
                &&& final(self).entries@ == new.entries@.push(
                    SqlConditionSetEntry::ConditionSet(*old(self)),
                )
            },
    {
        let mut new = new;
        if new.entries.len() == 0 {
            return;
        }
        match (self.conjunction, new.conjunction) {
            (Conjunction::And, Conjunction::And) | (Conjunction::Or, Conjunction::Or) => {
                self.entries.append(&mut new.entries);
            },
            (Conjunction::And, Conjunction::Or) => {
                self.entries.push(SqlConditionSetEntry::ConditionSet(new));
            },
            (Conjunction::Or, Conjunction::And) => {
                std::mem::swap(self, &mut new);
                self.entries.push(SqlConditionSetEntry::ConditionSet(new));
            },
        }
    }

    /// Removes, at every depth, the entries that hold no condition (empty sets, and sets made only
    /// of such entries).
    pub fn simplify(&mut self)
        ensures
            set_simplifies_to(*old(self), *final(self)),
            set_is_simple(*final(self)),
        decreases *old(self),
    {
        let mut rest: Vec<SqlConditionSetEntry> = Vec::new();
        std::mem::swap(&mut rest, &mut self.entries);
        let ghost os = rest@;
        let count = rest.len();
        assert(os.len() == count);
        let mut new_entries: Vec<SqlConditionSetEntry> = Vec::new();
        let mut i: usize = 0;
        while rest.len() > 0
            invariant
                i + rest@.len() == os.len(),
                os.len() <= usize::MAX,
                rest@ == os.skip(i as int),
                entries_simplify_to(os.take(i as int), new_entries@),
                entries_are_simple(new_entries@),
                forall|k: int| 0 <= k < os.len() ==> decreases_to!(*old(self) => #[trigger] os[k]),
            decreases rest@.len(),
        {
            let mut entry = rest.remove(0);
            proof {
                assert(entry == os[i as int]);
                assert(decreases_to!(*old(self) => entry));
            }
            let ghost before = entry;
            entry.simplify();
            let empty = entry.is_empty();
            proof {
                lemma_simplified_empty_iff_vacuous(before, entry);
                assert(os.take(i + 1).drop_last() =~= os.take(i as int));
                assert(os.take(i + 1).last() == before);
            }
            if !empty {
                let ghost prev = new_entries@;
                new_entries.push(entry);
                proof {
                    assert(new_entries@.drop_last() =~= prev);
                }
            }
            i = i + 1;
            proof {
                assert(rest@ =~= os.skip(i as int));
            }
        }
        proof {
            assert(os.take(i as int) =~= os);
        }
        self.entries = new_entries;
    }
}

impl SqlConditionSetEntry {
    /// Simplifies a nested condition set (see [`SqlConditionSet::simplify`]); an expression stays
    /// as it is.
    pub fn simplify(&mut self)
        ensures
            simplifies_to(*old(self), *final(self)),
            entry_is_simple(*final(self)),
        decreases *old(self),
    {
        match self {
            SqlConditionSetEntry::Expression(_) => {},
            SqlConditionSetEntry::ConditionSet(condition_set) => {
                condition_set.simplify();
            },
        }
    }

    /// A condition set with no entries.
    pub fn empty() -> (r: SqlConditionSetEntry)
        ensures
            r matches SqlConditionSetEntry::ConditionSet(cs) && cs.conjunction == Conjunction::And
                && cs.entries@.len() == 0,
    {
        SqlConditionSetEntry::ConditionSet(SqlConditionSet::new_and())
    }

    /// Whether this entry is a condition set with no entries.
    pub fn is_empty(&self) -> (r: bool)
        ensures
            r == (self matches SqlConditionSetEntry::ConditionSet(cs) && cs.entries@.len() == 0),
    {
        match self {
            SqlConditionSetEntry::Expression(_) => false,
            SqlConditionSetEntry::ConditionSet(condition_set) => condition_set.entries.len() == 0,
        }
    }
}

/// A condition set already in simplest form is its own simplification: simplifying never changes
/// a set that has no vacuous entry at any depth.
pub proof fn law_simple_set_is_own_simplification(cs: SqlConditionSet)
    requires
        set_is_simple(cs),
    ensures
        set_simplifies_to(cs, cs),
    decreases cs, 1int,
{
    assert(decreases_to!(cs.entries => cs.entries@));
    lemma_simple_entries_simplify_to_themselves(cs.entries@);
}

proof fn lemma_simple_entries_simplify_to_themselves(es: Seq<SqlConditionSetEntry>)
    requires
        entries_are_simple(es),
    ensures
        entries_simplify_to(es, es),
    decreases es, 0int,
{
    if es.len() > 0 {
        let e = es.last();
        assert(es.last() == es[es.len() - 1]);
        match e {
            SqlConditionSetEntry::Expression(_) => {},
            SqlConditionSetEntry::ConditionSet(cs) => {
                assert(entry_is_simple(e));
                assert(set_is_simple(cs));
                law_simple_set_is_own_simplification(cs);
            },
        }
        lemma_simple_entries_simplify_to_themselves(es.drop_last());
        assert(simplifies_to(e, e));
    }
}

/// Entries simplify to an empty sequence exactly when they are all vacuous.
proof fn lemma_entries_simplify_to_empty(os: Seq<SqlConditionSetEntry>, ns: Seq<SqlConditionSetEntry>)
    requires
        entries_simplify_to(os, ns),
    ensures
        ns.len() == 0 <==> all_vacuous(os),
    decreases os.len(),
{
    if os.len() > 0 {
        if vacuous(os.last()) {
            lemma_entries_simplify_to_empty(os.drop_last(), ns);
        }
    }
}

/// A simplified entry is an empty set exactly when the entry was vacuous.
proof fn lemma_simplified_empty_iff_vacuous(o: SqlConditionSetEntry, n: SqlConditionSetEntry)
    requires
        simplifies_to(o, n),
    ensures
        (n matches SqlConditionSetEntry::ConditionSet(cs) && cs.entries@.len() == 0) <==> vacuous(o),
{
    match o {
        SqlConditionSetEntry::Expression(_) => {},
        SqlConditionSetEntry::ConditionSet(cs) => {
            let ncs = n->ConditionSet_0;
            lemma_entries_simplify_to_empty(cs.entries@, ncs.entries@);
        },
    }
}

} // verus!
