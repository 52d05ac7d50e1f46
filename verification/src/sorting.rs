//! Collecting `ORDER BY` entries, each with an optional ordinal that decides its place.
use vstd::prelude::*;

use crate::ast::SortSpec;
use crate::order::{is_stably_sorted, stable_sort_by_key};
use crate::sql_tree::SortEntry;

verus! {

/// A sort entry waiting for its place: entries with an ordinal come in ascending order of it, and
/// entries without one come after all of them, in the order they were pushed.
pub struct UnplacedSortEntry {
    pub entry: SortEntry,
    pub ordinal: Option<u32>,
}

pub struct SortingStack {
    pub entries: Vec<UnplacedSortEntry>,
}

/// The largest ordinal among the entries, or 0 when none has one.
pub open spec fn max_ordinal(es: Seq<UnplacedSortEntry>) -> u32
    decreases es.len(),
{
    if es.len() == 0 {
        0
    } else {
        let rest = max_ordinal(es.drop_last());
        match es.last().ordinal {
            Some(o) => if o > rest {
                o
            } else {
                rest
            },
            None => rest,
        }
    }
}

/// The key an entry is placed by: its ordinal, or one more than the largest ordinal (saturating)
/// when it has none.
pub open spec fn placement_key(ordinal: Option<u32>, max: u32) -> u64 {
    match ordinal {
        Some(o) => o as u64,
        None => if max == u32::MAX {
            u32::MAX as u64
        } else {
            (max + 1) as u64
        },
    }
}

/// The entries paired with their placement keys.
pub open spec fn keyed_entries(es: Seq<UnplacedSortEntry>) -> Seq<(u64, SortEntry)> {
    es.map_values(|e: UnplacedSortEntry| (placement_key(e.ordinal, max_ordinal(es)), e.entry))
}

proof fn lemma_ordinals_at_most_max(es: Seq<UnplacedSortEntry>, i: int)
    requires
        0 <= i < es.len(),
        es[i].ordinal is Some,
    ensures
        es[i].ordinal->0 <= max_ordinal(es),
    decreases es.len(),
{
    if i < es.len() - 1 {
        lemma_ordinals_at_most_max(es.drop_last(), i);
    }
}

/// When no ordinal is the largest `u32`, every entry with an ordinal is placed before every entry
/// without one, and entries with ordinals are placed in ascending order of them.
pub proof fn law_ordinals_come_first(es: Seq<UnplacedSortEntry>)
    requires
        max_ordinal(es) < u32::MAX,
    ensures
        forall|i: int, j: int|
            0 <= i < es.len() && 0 <= j < es.len() && es[i].ordinal is Some && es[j].ordinal is None
                ==> #[trigger] keyed_entries(es)[i].0 < #[trigger] keyed_entries(es)[j].0,
        forall|i: int, j: int|
            0 <= i < es.len() && 0 <= j < es.len() && es[i].ordinal is Some && es[j].ordinal is Some
                ==> (#[trigger] keyed_entries(es)[i].0 <= #[trigger] keyed_entries(es)[j].0
                <==> es[i].ordinal->0 <= es[j].ordinal->0),
{
    assert forall|i: int, j: int|
        0 <= i < es.len() && 0 <= j < es.len() && es[i].ordinal is Some && es[j].ordinal
            is None implies #[trigger] keyed_entries(es)[i].0 < #[trigger] keyed_entries(es)[j].0 by {
        lemma_ordinals_at_most_max(es, i);
    }
}

impl SortingStack {
    pub fn new() -> (r: SortingStack)
        ensures
            r.entries@.len() == 0,
    {
        SortingStack { entries: Vec::new() }
    }

    /// Adds an entry sorting by `expression` as `sort_spec` says.
    pub fn push(&mut self, expression: String, sort_spec: SortSpec)
        ensures
            final(self).entries@ == old(self).entries@.push(
                UnplacedSortEntry {
                    entry: SortEntry {
                        expression,
                        direction: sort_spec.direction,
                        nulls_sort: sort_spec.nulls_sort,
                    },
                    ordinal: sort_spec.ordinal,
                },
            ),
    {
        let entry = UnplacedSortEntry {
            entry: SortEntry {
                expression,
                direction: sort_spec.direction,
                nulls_sort: sort_spec.nulls_sort,
            },
            ordinal: sort_spec.ordinal,
        };
        self.entries.push(entry);
    }

    /// The entries in their places: stably sorted by placement key.
    pub fn into_entries(self) -> (r: Vec<SortEntry>)
        ensures
            exists|sorted: Seq<(u64, SortEntry)>|
                is_stably_sorted(keyed_entries(self.entries@), sorted) && r@ == sorted.map_values(
                    |x: (u64, SortEntry)| x.1,
                ),
    {
        let ghost es = self.entries@;
        let mut entries = self.entries;
        let max = max_ordinal_exec(&entries);
        let mut keyed: Vec<(u64, SortEntry)> = Vec::new();
        let n = entries.len();
        let mut i: usize = 0;
        while entries.len() > 0
            invariant
                i + entries@.len() == n,
                n == es.len(),
                max == max_ordinal(es),
                entries@ == es.skip(i as int),
                keyed@ == keyed_entries(es).take(i as int),
            decreases entries@.len(),
        {
            let e = entries.remove(0);
            proof {
                assert(e == es[i as int]);
            }
            let key: u64 = match e.ordinal {
                Some(o) => o as u64,
                None => max.saturating_add(1) as u64,
            };
            keyed.push((key, e.entry));
            i = i + 1;
            proof {
                assert(entries@ =~= es.skip(i as int));
                assert(keyed@ =~= keyed_entries(es).take(i as int));
            }
        }
        proof {
            assert(keyed@ =~= keyed_entries(es));
        }
        let sorted = stable_sort_by_key(keyed);
        let ghost sorted_view = sorted@;
        let mut out: Vec<SortEntry> = Vec::new();
        let mut rest = sorted;
        let m = rest.len();
        let mut j: usize = 0;
        while rest.len() > 0
            invariant
                j + rest@.len() == m,
                m == sorted_view.len(),
                rest@ == sorted_view.skip(j as int),
                out@ == sorted_view.take(j as int).map_values(|x: (u64, SortEntry)| x.1),
            decreases rest@.len(),
        {
            let (_, entry) = rest.remove(0);
            out.push(entry);
            j = j + 1;
            proof {
                assert(rest@ =~= sorted_view.skip(j as int));
                assert(out@ =~= sorted_view.take(j as int).map_values(|x: (u64, SortEntry)| x.1));
            }
        }
        proof {
            assert(sorted_view.take(j as int) =~= sorted_view);
        }
        out
    }
}

fn max_ordinal_exec(es: &Vec<UnplacedSortEntry>) -> (r: u32)
    ensures
        r == max_ordinal(es@),
{
    let mut max: u32 = 0;
    let mut i: usize = 0;
    while i < es.len()
        invariant
            i <= es.len(),
            max == max_ordinal(es@.take(i as int)),
        decreases es.len() - i,
    {
        proof {
            assert(es@.take(i + 1).drop_last() =~= es@.take(i as int));
        }
        match es[i].ordinal {
            Some(o) => {
                if o > max {
                    max = o;
                }
            },
            None => {},
        }
        i = i + 1;
    }
    proof {
        assert(es@.take(i as int) =~= es@);
    }
    max
}

} // verus!
