//! The table aliases given out within one query, so that each is unique.
use vstd::prelude::*;
use vstd::relations::injective_on;
use vstd::set_lib::*;

use crate::strings::{decimal_digits, decimal_string, lemma_decimal_digits_injective};

verus! {

/// The aliases already given out, and the index the next CTE alias is tried with.
pub struct Aliases {
    pub taken: Vec<String>,
    pub cte_naming_index: usize,
}

/// Whether `alias` has been given out.
pub open spec fn taken_in(taken: Seq<String>, alias: Seq<char>) -> bool {
    exists|i: int| 0 <= i < taken.len() && #[trigger] taken[i]@ == alias
}

/// The alias tried for a table after `k` tries: the ideal alias itself, then with `_1`, `_2`, ...
pub open spec fn alias_candidate(ideal: Seq<char>, k: nat) -> Seq<char> {
    if k == 0 {
        ideal
    } else {
        ideal + "_"@ + decimal_digits(k)
    }
}

/// The alias of a common table expression with index `k`.
pub open spec fn cte_candidate(prefix: Seq<char>, k: nat) -> Seq<char> {
    prefix + decimal_digits(k)
}

proof fn lemma_alias_candidates_distinct(ideal: Seq<char>, a: nat, b: nat)
    requires
        alias_candidate(ideal, a) == alias_candidate(ideal, b),
    ensures
        a == b,
{
    reveal_strlit("_");
    if a > 0 && b > 0 {
        let n = ideal.len() + 1int;
        assert(alias_candidate(ideal, a).skip(n) =~= decimal_digits(a));
        assert(alias_candidate(ideal, b).skip(n) =~= decimal_digits(b));
        lemma_decimal_digits_injective(a, b);
    } else if a > 0 || b > 0 {
        assert(decimal_digits(a).len() > 0);
        assert(decimal_digits(b).len() > 0);
        assert(alias_candidate(ideal, a).len() != alias_candidate(ideal, b).len());
    }
}

proof fn lemma_cte_candidates_distinct(prefix: Seq<char>, a: nat, b: nat)
    requires
        cte_candidate(prefix, a) == cte_candidate(prefix, b),
    ensures
        a == b,
{
    assert(cte_candidate(prefix, a).skip(prefix.len() as int) =~= decimal_digits(a));
    assert(cte_candidate(prefix, b).skip(prefix.len() as int) =~= decimal_digits(b));
    lemma_decimal_digits_injective(a, b);
}

/// More distinct names than there are taken aliases cannot all be taken: if the names given by
/// `f` for `lo..hi` are distinct and all taken, there are at most as many as taken aliases.
proof fn lemma_pigeonhole(taken: Seq<String>, f: spec_fn(int) -> Seq<char>, lo: int, hi: int)
    requires
        lo <= hi,
        forall|a: int, b: int| lo <= a < hi && lo <= b < hi && #[trigger] f(a) == #[trigger] f(b) ==> a == b,
        forall|j: int| lo <= j < hi ==> taken_in(taken, #[trigger] f(j)),
    ensures
        hi - lo <= taken.len(),
{
    let views = taken.map_values(|s: String| s@);
    let all = views.to_set();
    views.lemma_cardinality_of_set();
    let range = set_int_range(lo, hi);
    lemma_int_range(lo, hi);
    let names = range.map(f);
    assert(injective_on(f, range)) by {
        assert forall|a: int, b: int| range.contains(a) && range.contains(b) && #[trigger] f(a)
            == #[trigger] f(b) implies a == b by {}
    }
    lemma_map_size(range, names, f);
    assert forall|x: Seq<char>| names.contains(x) implies all.contains(x) by {
        let j = choose|j: int| range.contains(j) && f(j) == x;
        assert(taken_in(taken, f(j)));
        let i = choose|i: int| 0 <= i < taken.len() && taken[i]@ == f(j);
        assert(views[i] == x);
    }
    lemma_len_subset(names, all);
}

/// No alias has been given out twice.
pub open spec fn all_distinct(taken: Seq<String>) -> bool {
    forall|a: int, b: int| 0 <= a < b < taken.len() ==> #[trigger] taken[a]@ != #[trigger] taken[b]@
}

/// Aliases stay unique: giving out an alias that had not been given out keeps every alias
/// distinct, as [`Aliases::get_alias`] and [`Aliases::get_cte_alias`] do.
pub proof fn law_aliases_stay_distinct(taken: Seq<String>, given: String)
    requires
        all_distinct(taken),
        !taken_in(taken, given@),
    ensures
        all_distinct(taken.push(given)),
{
    assert forall|a: int, b: int| 0 <= a < b < taken.push(given).len() implies #[trigger] taken.push(
        given,
    )[a]@ != #[trigger] taken.push(given)[b]@ by {
        if b == taken.len() {
            assert(taken.push(given)[a] == taken[a]);
        }
    }
}

impl Aliases {
    /// No alias has been given out twice.
    pub open spec fn wf(&self) -> bool {
        all_distinct(self.taken@)
    }

    pub fn new() -> (r: Aliases)
        ensures
            r.wf(),
            r.taken@.len() == 0,
            r.cte_naming_index == 0,
    {
        Aliases { taken: Vec::new(), cte_naming_index: 0 }
    }

    /// Whether `alias` has been given out.
    pub fn contains(&self, alias: &String) -> (r: bool)
        ensures
            r == taken_in(self.taken@, alias@),
    {
        let mut i: usize = 0;
        while i < self.taken.len()
            invariant
                i <= self.taken@.len(),
                forall|j: int| 0 <= j < i ==> self.taken@[j]@ != alias@,
            decreases self.taken.len() - i,
        {
            if self.taken[i] == *alias {
                assert(self.taken@[i as int]@ == alias@);
                return true;
            }
            i = i + 1;
        }
        false
    }

    /// Gives out the first of `ideal`, `ideal_1`, `ideal_2`, ... that has not been given out.
    pub fn get_alias(&mut self, ideal: &str) -> (r: String)
        ensures
            exists|k: nat|
                r@ == alias_candidate(ideal@, k) && forall|j: nat|
                    j < k ==> taken_in(old(self).taken@, #[trigger] alias_candidate(ideal@, j)),
            !taken_in(old(self).taken@, r@),
            final(self).taken@ == old(self).taken@.push(r),
            final(self).cte_naming_index == old(self).cte_naming_index,
            old(self).wf() ==> final(self).wf(),
    {
        let ghost f = |j: int| alias_candidate(ideal@, j as nat);
        let count = self.taken.len();
        let mut suffix: usize = 0;
        loop
            invariant
                self.taken@ == old(self).taken@,
                self.taken@.len() == count,
                self.cte_naming_index == old(self).cte_naming_index,
                suffix <= self.taken@.len(),
                forall|j: nat| j < suffix ==> taken_in(self.taken@, #[trigger] alias_candidate(ideal@, j)),
                f == (|j: int| alias_candidate(ideal@, j as nat)),
            decreases self.taken@.len() - suffix,
        {
            let alias = if suffix == 0 {
                ideal.to_owned()
            } else {
                let mut a = ideal.to_owned();
                a.append("_");
                let digits = decimal_string(suffix as u64);
                a.append(digits.as_str());
                a
            };
            assert(alias@ == alias_candidate(ideal@, suffix as nat));
            if !self.contains(&alias) {
                self.taken.push(alias.clone());
                proof {
                    if old(self).wf() {
                        law_aliases_stay_distinct(old(self).taken@, alias);
                    }
                }
                return alias;
            }
            proof {
                assert forall|a: int, b: int| 0 <= a < suffix + 1 && 0 <= b < suffix + 1 && #[trigger] f(a)
                    == #[trigger] f(b) implies a == b by {
                    lemma_alias_candidates_distinct(ideal@, a as nat, b as nat);
                }
                assert forall|j: int| 0 <= j < suffix + 1 implies taken_in(self.taken@, #[trigger] f(j)) by {
                    assert(f(j) == alias_candidate(ideal@, j as nat));
                }
                lemma_pigeonhole(self.taken@, f, 0, suffix + 1);
            }
            suffix = suffix + 1;
        }
    }

    /// Gives out the first CTE alias `prefix` followed by an index, from the current index on,
    /// that has not been given out; the next one is tried from the index after it.
    pub fn get_cte_alias(&mut self, prefix: &str) -> (r: String)
        requires
            old(self).cte_naming_index + old(self).taken@.len() < usize::MAX,
        ensures
            exists|k: nat|
                old(self).cte_naming_index <= k && r@ == cte_candidate(prefix@, k)
                    && final(self).cte_naming_index == k + 1 && forall|j: nat|
                    old(self).cte_naming_index <= j < k ==> taken_in(
                        old(self).taken@,
                        #[trigger] cte_candidate(prefix@, j),
                    ),
            !taken_in(old(self).taken@, r@),
            final(self).taken@ == old(self).taken@.push(r),
            old(self).wf() ==> final(self).wf(),
    {
        let ghost f = |j: int| cte_candidate(prefix@, j as nat);
        let ghost start = self.cte_naming_index;
        loop
            invariant
                self.taken@ == old(self).taken@,
                start == old(self).cte_naming_index,
                start <= self.cte_naming_index <= start + self.taken@.len(),
                start + self.taken@.len() < usize::MAX,
                forall|j: nat|
                    start <= j < self.cte_naming_index ==> taken_in(
                        self.taken@,
                        #[trigger] cte_candidate(prefix@, j),
                    ),
                f == (|j: int| cte_candidate(prefix@, j as nat)),
            decreases start + self.taken@.len() - self.cte_naming_index,
        {
            let k = self.cte_naming_index;
            let mut alias = prefix.to_owned();
            let digits = decimal_string(k as u64);
            alias.append(digits.as_str());
            assert(alias@ == cte_candidate(prefix@, k as nat));
            self.cte_naming_index = k + 1;
            if !self.contains(&alias) {
                self.taken.push(alias.clone());
                proof {
                    if old(self).wf() {
                        law_aliases_stay_distinct(old(self).taken@, alias);
                    }
                }
                return alias;
            }
            proof {
                assert forall|a: int, b: int|
                    start <= a < k + 1 && start <= b < k + 1 && #[trigger] f(a) == #[trigger] f(
                        b,
                    ) implies a == b by {
                    lemma_cte_candidates_distinct(prefix@, a as nat, b as nat);
                }
                assert forall|j: int| start <= j < k + 1 implies taken_in(self.taken@, #[trigger] f(j)) by {
                    assert(f(j) == cte_candidate(prefix@, j as nat));
                }
                lemma_pigeonhole(self.taken@, f, start as int, k + 1);
            }
        }
    }
}

} // verus!
