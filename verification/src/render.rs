//! Rendering parts of a SQL statement as text: `WHERE` condition sets, indented by nesting depth,
//! and `ORDER BY` entries.
use vstd::prelude::*;

use crate::ast::{Conjunction, NullsSort, SortDirection};
use crate::sql_tree::{SortEntry, SqlConditionSet, SqlConditionSetEntry};
use crate::strings::{joined, lemma_joined_len, lemma_joined_push};

verus! {

/// The keywords of the SQL dialect used for conditions and ordering.
pub struct SqlKeywords {
    pub and: String,
    pub or: String,
    pub asc: String,
    pub desc: String,
    pub nulls_first: String,
    pub nulls_last: String,
}

/// The indentation of `level`: two spaces per level.
pub open spec fn indentation(level: nat) -> Seq<char>
    decreases level,
{
    if level == 0 {
        Seq::empty()
    } else {
        indentation((level - 1) as nat) + "  "@
    }
}

/// One level deeper, saturating at the largest level.
pub open spec fn deeper(level: usize) -> usize {
    if level == usize::MAX {
        level
    } else {
        (level + 1) as usize
    }
}

pub open spec fn conjunction_word(c: Conjunction, k: SqlKeywords) -> Seq<char> {
    match c {
        Conjunction::And => k.and@,
        Conjunction::Or => k.or@,
    }
}

/// A condition set at `level`: each entry on its own line, indented, the lines after the first
/// preceded on the line before by the conjunction. Nothing for an empty set.
pub open spec fn set_sql(cs: SqlConditionSet, level: usize, k: SqlKeywords) -> Seq<char>
    decreases cs, 1int,
{
    proof {
        assert(decreases_to!(cs.entries => cs.entries@));
    }
    entries_sql(cs.entries@, cs.conjunction, level, k)
}

pub open spec fn entries_sql(
    es: Seq<SqlConditionSetEntry>,
    conjunction: Conjunction,
    level: usize,
    k: SqlKeywords,
) -> Seq<char>
    decreases es, 0int,
{
    if es.len() == 0 {
        Seq::empty()
    } else if es.len() == 1 {
        indentation(level as nat) + entry_sql(es[0], level, k)
    } else {
        entries_sql(es.drop_last(), conjunction, level, k) + " "@ + conjunction_word(conjunction, k)
            + "\n"@ + indentation(level as nat) + entry_sql(es.last(), level, k)
    }
}

/// One entry at `level`: an expression as it is, or a non-empty nested set in parentheses on
/// lines of their own, its entries one level deeper. Nothing for an empty nested set.
pub open spec fn entry_sql(e: SqlConditionSetEntry, level: usize, k: SqlKeywords) -> Seq<char>
    decreases e, 2int,
{
    match e {
        SqlConditionSetEntry::Expression(x) => x@,
        SqlConditionSetEntry::ConditionSet(cs) => {
            if cs.entries@.len() == 0 {
                Seq::empty()
            } else {
                "(\n"@ + set_sql(cs, deeper(level), k) + "\n"@ + indentation(level as nat) + ")\n"@
            }
        },
    }
}

fn push_indentation(r: &mut String, level: usize)
    ensures
        final(r)@ == old(r)@ + indentation(level as nat),
{
    let mut i: usize = 0;
    while i < level
        invariant
            i <= level,
            r@ == old(r)@ + indentation(i as nat),
        decreases level - i,
    {
        r.append("  ");
        i = i + 1;
        proof {
            assert(indentation(i as nat) == indentation((i - 1) as nat) + "  "@);
        }
    }
}

fn conjunction_text(c: Conjunction, k: &SqlKeywords) -> (r: &String)
    ensures
        r@ == conjunction_word(c, *k),
{
    match c {
        Conjunction::And => &k.and,
        Conjunction::Or => &k.or,
    }
}

impl SqlConditionSet {
    /// The set as SQL text at indentation `level` (see [`set_sql`]).
    pub fn render(&self, level: usize, keywords: &SqlKeywords) -> (r: String)
        ensures
            r@ == set_sql(*self, level, *keywords),
        decreases *self, 1int,
    {
        let mut r = String::new();
        let mut i: usize = 0;
        while i < self.entries.len()
            invariant
                i <= self.entries@.len(),
                r@ == entries_sql(self.entries@.take(i as int), self.conjunction, level, *keywords),
                forall|j: int|
                    0 <= j < self.entries@.len() ==> decreases_to!(*self => #[trigger] self.entries@[j]),
            decreases self.entries.len() - i,
        {
            proof {
                assert(self.entries@.take(i + 1).drop_last() =~= self.entries@.take(i as int));
                assert(self.entries@.take(i + 1).last() == self.entries@[i as int]);
                assert(decreases_to!(*self => self.entries@[i as int]));
            }
            if i > 0 {
                r.append(" ");
                r.append(conjunction_text(self.conjunction, keywords).as_str());
                r.append("\n");
            }
            push_indentation(&mut r, level);
            let entry = self.entries[i].render(level, keywords);
            r.append(entry.as_str());
            i = i + 1;
        }
        proof {
            assert(self.entries@.take(i as int) =~= self.entries@);
        }
        r
    }
}

impl SqlConditionSetEntry {
    /// The entry as SQL text at indentation `level` (see [`entry_sql`]).
    pub fn render(&self, level: usize, keywords: &SqlKeywords) -> (r: String)
        ensures
            r@ == entry_sql(*self, level, *keywords),
        decreases *self, 2int,
    {
        match self {
            SqlConditionSetEntry::Expression(x) => x.clone(),
            SqlConditionSetEntry::ConditionSet(cs) => {
                if cs.entries.len() == 0 {
                    return String::new();
                }
                let mut r = "(\n".to_owned();
                let inner = cs.render(level.saturating_add(1), keywords);
                r.append(inner.as_str());
                r.append("\n");
                push_indentation(&mut r, level);
                r.append(")\n");
                r
            },
        }
    }
}

/// An `ORDER BY` entry: the expression, the direction and where nulls go.
pub open spec fn sort_entry_sql(e: SortEntry, k: SqlKeywords) -> Seq<char> {
    e.expression@ + " "@ + match e.direction {
        SortDirection::Asc => k.asc@,
        SortDirection::Desc => k.desc@,
    } + " "@ + match e.nulls_sort {
        NullsSort::First => k.nulls_first@,
        NullsSort::Last => k.nulls_last@,
    }
}

/// `ORDER BY` entries separated by `, `.
pub open spec fn sort_entries_sql(es: Seq<SortEntry>, k: SqlKeywords) -> Seq<char>
    decreases es.len(),
{
    if es.len() == 0 {
        Seq::empty()
    } else if es.len() == 1 {
        sort_entry_sql(es[0], k)
    } else {
        sort_entries_sql(es.drop_last(), k) + ", "@ + sort_entry_sql(es.last(), k)
    }
}

impl SortEntry {
    pub fn render(&self, keywords: &SqlKeywords) -> (r: String)
        ensures
            r@ == sort_entry_sql(*self, *keywords),
    {
        let mut r = self.expression.clone();
        r.append(" ");
        match self.direction {
            SortDirection::Asc => r.append(keywords.asc.as_str()),
            SortDirection::Desc => r.append(keywords.desc.as_str()),
        }
        r.append(" ");
        match self.nulls_sort {
            NullsSort::First => r.append(keywords.nulls_first.as_str()),
            NullsSort::Last => r.append(keywords.nulls_last.as_str()),
        }
        r
    }
}

/// The `ORDER BY` list of sort entries.
pub fn render_sort_entries(entries: &Vec<SortEntry>, keywords: &SqlKeywords) -> (r: String)
    ensures
        r@ == sort_entries_sql(entries@, *keywords),
{
    let mut r = String::new();
    let mut i: usize = 0;
    while i < entries.len()
        invariant
            i <= entries@.len(),
            r@ == sort_entries_sql(entries@.take(i as int), *keywords),
        decreases entries.len() - i,
    {
        proof {
            assert(entries@.take(i + 1).drop_last() =~= entries@.take(i as int));
            assert(entries@.take(i + 1).last() == entries@[i as int]);
        }
        if i > 0 {
            r.append(", ");
        }
        let one = entries[i].render(keywords);
        r.append(one.as_str());
        i = i + 1;
    }
    proof {
        assert(entries@.take(i as int) =~= entries@);
    }
    r
}


/// The renderings of the entries of a condition set at `level`, each on its own line, indented.
pub open spec fn entry_lines(es: Seq<SqlConditionSetEntry>, level: usize, k: SqlKeywords) -> Seq<Seq<char>> {
    es.map_values(|e: SqlConditionSetEntry| indentation(level as nat) + entry_sql(e, level, k))
}

/// A condition set renders as the lines of all of its entries, in order, each two separated by a
/// space, the set's own conjunction and a line break: the same conjunction between every two
/// entries, whatever their positions.
pub proof fn law_condition_set_joins_every_entry(
    es: Seq<SqlConditionSetEntry>,
    conjunction: Conjunction,
    level: usize,
    k: SqlKeywords,
)
    ensures
        entries_sql(es, conjunction, level, k) == joined(
            entry_lines(es, level, k),
            " "@ + conjunction_word(conjunction, k) + "\n"@,
        ),
    decreases es.len(),
{
    let sep = " "@ + conjunction_word(conjunction, k) + "\n"@;
    if es.len() == 1 {
        assert(entry_lines(es, level, k).len() == 1);
    } else if es.len() > 1 {
        let front = es.drop_last();
        law_condition_set_joins_every_entry(front, conjunction, level, k);
        assert(entry_lines(es, level, k) =~= entry_lines(front, level, k).push(
            indentation(level as nat) + entry_sql(es.last(), level, k),
        ));
        lemma_joined_push(
            entry_lines(front, level, k),
            sep,
            indentation(level as nat) + entry_sql(es.last(), level, k),
        );
        assert(entries_sql(es, conjunction, level, k) =~= entries_sql(front, conjunction, level, k) + sep + (
        indentation(level as nat) + entry_sql(es.last(), level, k)));
    } else {
        assert(entry_lines(es, level, k).len() == 0);
    }
}

/// The renderings of `ORDER BY` entries, in order.
pub open spec fn sort_entry_texts(es: Seq<SortEntry>, k: SqlKeywords) -> Seq<Seq<char>> {
    es.map_values(|e: SortEntry| sort_entry_sql(e, k))
}

/// `ORDER BY` entries render as every entry's rendering, in order, separated by `, `; so the
/// rendering is as long as all the entries' renderings together and two characters between each
/// two of them.
pub proof fn law_order_by_lists_every_entry(es: Seq<SortEntry>, k: SqlKeywords)
    ensures
        sort_entries_sql(es, k) == joined(sort_entry_texts(es, k), ", "@),
        es.len() > 0 ==> sort_entries_sql(es, k).len() == sort_entry_texts(es, k).fold_left(
            0int,
            |acc: int, p: Seq<char>| acc + p.len(),
        ) + 2 * (es.len() - 1),
    decreases es.len(),
{
    if es.len() == 1 {
        assert(sort_entry_texts(es, k).len() == 1);
    } else if es.len() > 1 {
        let front = es.drop_last();
        law_order_by_lists_every_entry(front, k);
        assert(sort_entry_texts(es, k) =~= sort_entry_texts(front, k).push(sort_entry_sql(es.last(), k)));
        lemma_joined_push(sort_entry_texts(front, k), ", "@, sort_entry_sql(es.last(), k));
    } else {
        assert(sort_entry_texts(es, k).len() == 0);
    }
    if es.len() > 0 {
        lemma_joined_len(
            sort_entry_texts(es, k),
            ", "@,
            sort_entry_texts(es, k).fold_left(0int, |acc: int, p: Seq<char>| acc + p.len()),
        );
        reveal_strlit(", ");
    }
}

} // verus!
