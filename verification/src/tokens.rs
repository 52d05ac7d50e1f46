//! Fixed-form tokens of the Querydown grammar: dates, durations, comparison operators, sort flags
//! and column control flags.
use vstd::prelude::*;

use crate::ast::{ColumnControl, Date, Duration, GroupSpec, NullsSort, Operator, SortDirection, SortSpec};
use crate::decimal::{trim_trailing_zeros, Decimal};
use crate::lex::{at, at2, at2_exec, at_exec, digit_value_exec, digits_exactly, digits_exactly_exec, digits_value, fraction_end, fraction_end_exec, int_at, int_at_exec, lemma_digits_end};
use crate::strings::{digit_value, is_digit};

verus! {

// ---------------------------------------------------------------------------------------------
// Dates
// ---------------------------------------------------------------------------------------------

/// A date literal at `i`: `@YYYY-MM-DD`, with exactly four, two and two digits. Returns the
/// year, month and day values and the end.
pub open spec fn date_at(s: Seq<char>, i: int) -> Option<(nat, nat, nat, int)> {
    if at(s, i, '@') && digits_exactly(s, i + 1, 4) && at(s, i + 5, '-') && digits_exactly(
        s,
        i + 6,
        2,
    ) && at(s, i + 8, '-') && digits_exactly(s, i + 9, 2) {
        Some(
            (
                digits_value(s, i + 1, i + 5),
                digits_value(s, i + 6, i + 8),
                digits_value(s, i + 9, i + 11),
                i + 11,
            ),
        )
    } else {
        None
    }
}

pub fn date(s: &[char], i: usize) -> (r: Option<(Date, usize)>)
    requires
        i <= s.len(),
    ensures
        r matches Some((d, e)) ==> date_at(s@, i as int) == Some(
            (d.year as nat, d.month as nat, d.day as nat, e as int),
        ) && i < e <= s.len(),
        r is None ==> date_at(s@, i as int) is None,
{
    if !at_exec(s, i, '@') || s.len() - i < 11 {
        return None;
    }
    let year = match digits_exactly_exec(s, i + 1, 4) {
        Some(v) => v,
        None => return None,
    };
    if !at_exec(s, i + 5, '-') {
        return None;
    }
    let month = match digits_exactly_exec(s, i + 6, 2) {
        Some(v) => v,
        None => return None,
    };
    if !at_exec(s, i + 8, '-') {
        return None;
    }
    let day = match digits_exactly_exec(s, i + 9, 2) {
        Some(v) => v,
        None => return None,
    };
    Some((Date { year, month, day }, i + 11))
}

// ---------------------------------------------------------------------------------------------
// Durations
// ---------------------------------------------------------------------------------------------

/// The unit of one part of a duration literal.
#[derive(Debug, Clone, Copy, PartialEq, Eq, Structural)]
pub enum DurationUnit {
    Year,
    Month,
    Week,
    Day,
    Hour,
    Minute,
    Second,
}

/// The character at `i` is `c` in either case (`c` being an uppercase letter).
pub open spec fn at_ci(s: Seq<char>, i: int, upper: char, lower: char) -> bool {
    at(s, i, upper) || at(s, i, lower)
}

fn at_ci_exec(s: &[char], i: usize, upper: char, lower: char) -> (r: bool)
    ensures
        r == at_ci(s@, i as int, upper, lower),
{
    at_exec(s, i, upper) || at_exec(s, i, lower)
}

/// A duration unit at `i`, in either case: `min` (minutes) is tried before `m` (months).
pub open spec fn unit_at(s: Seq<char>, i: int) -> Option<(DurationUnit, int)> {
    if at_ci(s, i, 'M', 'm') && at_ci(s, i + 1, 'I', 'i') && at_ci(s, i + 2, 'N', 'n') {
        Some((DurationUnit::Minute, i + 3))
    } else if at_ci(s, i, 'Y', 'y') {
        Some((DurationUnit::Year, i + 1))
    } else if at_ci(s, i, 'M', 'm') {
        Some((DurationUnit::Month, i + 1))
    } else if at_ci(s, i, 'W', 'w') {
        Some((DurationUnit::Week, i + 1))
    } else if at_ci(s, i, 'D', 'd') {
        Some((DurationUnit::Day, i + 1))
    } else if at_ci(s, i, 'H', 'h') {
        Some((DurationUnit::Hour, i + 1))
    } else if at_ci(s, i, 'S', 's') {
        Some((DurationUnit::Second, i + 1))
    } else {
        None
    }
}

fn unit_exec(s: &[char], i: usize) -> (r: Option<(DurationUnit, usize)>)
    requires
        i <= s.len(),
    ensures
        r matches Some((u, e)) ==> unit_at(s@, i as int) == Some((u, e as int)) && i < e <= s.len(),
        r is None ==> unit_at(s@, i as int) is None,
{
    if s.len() - i >= 3 && at_ci_exec(s, i, 'M', 'm') && at_ci_exec(s, i + 1, 'I', 'i')
        && at_ci_exec(s, i + 2, 'N', 'n') {
        Some((DurationUnit::Minute, i + 3))
    } else if at_ci_exec(s, i, 'Y', 'y') {
        Some((DurationUnit::Year, i + 1))
    } else if at_ci_exec(s, i, 'M', 'm') {
        Some((DurationUnit::Month, i + 1))
    } else if at_ci_exec(s, i, 'W', 'w') {
        Some((DurationUnit::Week, i + 1))
    } else if at_ci_exec(s, i, 'D', 'd') {
        Some((DurationUnit::Day, i + 1))
    } else if at_ci_exec(s, i, 'H', 'h') {
        Some((DurationUnit::Hour, i + 1))
    } else if at_ci_exec(s, i, 'S', 's') {
        Some((DurationUnit::Second, i + 1))
    } else {
        None
    }
}

/// One part of a duration literal: a non-negative number immediately followed by a unit.
pub struct DurationPart {
    pub unit: DurationUnit,
    /// Where the integer digits start and end.
    pub whole_from: usize,
    pub whole_to: usize,
    /// Where the fractional digits start and end (an empty range when there are none).
    pub frac_from: usize,
    pub frac_to: usize,
    /// Where the part ends.
    pub end: usize,
}

/// A duration part at `i`.
pub open spec fn part_at(s: Seq<char>, i: int) -> Option<DurationPart> {
    match int_at(s, i) {
        Some(w) => {
            let f = fraction_end(s, w);
            match unit_at(s, f) {
                Some((u, e)) => Some(
                    DurationPart {
                        unit: u,
                        whole_from: i as usize,
                        whole_to: w as usize,
                        frac_from: (if f > w {
                            w + 1
                        } else {
                            w
                        }) as usize,
                        frac_to: f as usize,
                        end: e as usize,
                    },
                ),
                None => None,
            }
        },
        None => None,
    }
}

pub proof fn lemma_part_at(s: Seq<char>, i: int)
    requires
        0 <= i <= s.len(),
        s.len() <= usize::MAX,
    ensures
        part_at(s, i) matches Some(p) ==> i <= p.whole_from <= p.whole_to <= p.frac_from
            <= p.frac_to < p.end <= s.len() && p.whole_from == i,
{
    if let Some(w) = int_at(s, i) {
        if !at(s, i, '0') {
            lemma_digits_end(s, i + 1);
        }
        let f = fraction_end(s, w);
        if at(s, w, '.') && 0 <= w + 1 < s.len() && is_digit(s[w + 1]) {
            lemma_digits_end(s, w + 2);
        }
    }
}

/// The maximal run of duration parts starting at `i`.
pub open spec fn parts_from(s: Seq<char>, i: int) -> Seq<DurationPart>
    decreases s.len() - i,
{
    if 0 <= i <= s.len() && s.len() <= usize::MAX {
        match part_at(s, i) {
            Some(p) => {
                proof {
                    lemma_part_at(s, i);
                }
                seq![p] + parts_from(s, p.end as int)
            },
            None => Seq::empty(),
        }
    } else {
        Seq::empty()
    }
}

/// No two parts share a unit.
pub open spec fn units_distinct(parts: Seq<DurationPart>) -> bool {
    forall|a: int, b: int|
        0 <= a < b < parts.len() ==> #[trigger] parts[a].unit != #[trigger] parts[b].unit
}

/// The decimal `d` is the number that part `p` of `s` writes.
pub open spec fn decimal_of_part(d: Decimal, s: Seq<char>, p: DurationPart) -> bool {
    &&& d.whole@ == s.subrange(p.whole_from as int, p.whole_to as int)
    &&& d.fraction@ == trim_trailing_zeros(s.subrange(p.frac_from as int, p.frac_to as int))
}

/// The duration component for `unit`.
pub open spec fn component(d: Duration, unit: DurationUnit) -> Decimal {
    match unit {
        DurationUnit::Year => d.years,
        DurationUnit::Month => d.months,
        DurationUnit::Week => d.weeks,
        DurationUnit::Day => d.days,
        DurationUnit::Hour => d.hours,
        DurationUnit::Minute => d.minutes,
        DurationUnit::Second => d.seconds,
    }
}

/// `d` holds, for each unit, the number of the part with that unit, or zero if there is none.
pub open spec fn duration_from_parts(d: Duration, s: Seq<char>, parts: Seq<DurationPart>) -> bool {
    forall|u: DurationUnit|
        {
            ||| exists|k: int|
                0 <= k < parts.len() && parts[k].unit == u && decimal_of_part(
                    #[trigger] component(d, u),
                    s,
                    parts[k],
                )
            ||| (forall|k: int| 0 <= k < parts.len() ==> #[trigger] parts[k].unit != u)
                && component(d, u).spec_is_zero()
        }
}

fn part_exec(s: &[char], i: usize) -> (r: Option<DurationPart>)
    requires
        i <= s.len(),
    ensures
        r matches Some(p) ==> part_at(s@, i as int) == Some(p),
        r is None ==> part_at(s@, i as int) is None,
{
    match int_at_exec(s, i) {
        Some(w) => {
            let f = fraction_end_exec(s, w);
            match unit_exec(s, f) {
                Some((u, e)) => Some(
                    DurationPart {
                        unit: u,
                        whole_from: i,
                        whole_to: w,
                        frac_from: if f > w {
                            w + 1
                        } else {
                            w
                        },
                        frac_to: f,
                        end: e,
                    },
                ),
                None => None,
            }
        },
        None => None,
    }
}

fn set_component(d: &mut Duration, unit: DurationUnit, v: Decimal)
    ensures
        component(*final(d), unit) == v,
        forall|u: DurationUnit| u != unit ==> component(*final(d), u) == component(*old(d), u),
{
    match unit {
        DurationUnit::Year => d.years = v,
        DurationUnit::Month => d.months = v,
        DurationUnit::Week => d.weeks = v,
        DurationUnit::Day => d.days = v,
        DurationUnit::Hour => d.hours = v,
        DurationUnit::Minute => d.minutes = v,
        DurationUnit::Second => d.seconds = v,
    }
}

/// A duration literal at `i`, e.g. `2y6m3d8h9min34.89s`: a non-empty run of parts whose units
/// are all different. Returns the duration and its end.
pub fn duration(s: &[char], i: usize) -> (r: Option<(Duration, usize)>)
    requires
        i <= s.len(),
    ensures
        r matches Some((d, e)) ==> {
            let parts = parts_from(s@, i as int);
            &&& parts.len() > 0
            &&& units_distinct(parts)
            &&& e == parts.last().end
            &&& duration_from_parts(d, s@, parts)
            &&& i < e <= s.len()
        },
        r is None ==> parts_from(s@, i as int).len() == 0 || !units_distinct(
            parts_from(s@, i as int),
        ),
{
    let mut d = Duration::zero();
    let mut j = i;
    let mut units: Vec<DurationUnit> = Vec::new();
    let ghost mut seen: Seq<DurationPart> = Seq::empty();
    loop
        invariant
            i <= j <= s.len(),
            units@.len() == seen.len(),
            forall|k: int| 0 <= k < seen.len() ==> #[trigger] units@[k] == seen[k].unit,
            parts_from(s@, i as int) == seen + parts_from(s@, j as int),
            seen.len() > 0 ==> j == seen.last().end && i < j,
            seen.len() == 0 ==> j == i,
            units_distinct(seen),
            duration_from_parts(d, s@, seen),
        decreases s.len() - j,
    {
        proof {
            lemma_part_at(s@, j as int);
        }
        match part_exec(s, j) {
            Some(p) => {
                proof {
                    assert(parts_from(s@, j as int) == seq![p] + parts_from(s@, p.end as int));
                }
                // A unit seen before makes the whole literal invalid.
                if contains_unit(&units, p.unit) {
                    proof {
                        let k = choose|k: int| 0 <= k < units@.len() && units@[k] == p.unit;
                        let all = parts_from(s@, i as int);
                        assert(all == seen + (seq![p] + parts_from(s@, p.end as int)));
                        assert(all[k] == seen[k]);
                        assert(all[seen.len() as int] == p);
                    }
                    return None;
                }
                let v = Decimal::from_digits(s, p.whole_from, p.whole_to, p.frac_from, p.frac_to);
                set_component(&mut d, p.unit, v);
                proof {
                    let new_seen = seen.push(p);
                    assert(parts_from(s@, i as int) == new_seen + parts_from(s@, p.end as int)) by {
                        assert(seen + (seq![p] + parts_from(s@, p.end as int)) =~= new_seen
                            + parts_from(s@, p.end as int));
                    }
                    assert forall|u: DurationUnit|
                        {
                            ||| exists|k: int|
                                0 <= k < new_seen.len() && new_seen[k].unit == u
                                    && decimal_of_part(#[trigger] component(d, u), s@, new_seen[k])
                            ||| (forall|k: int|
                                0 <= k < new_seen.len() ==> #[trigger] new_seen[k].unit != u)
                                && component(d, u).spec_is_zero()
                        } by {
                        if u == p.unit {
                            assert(new_seen[seen.len() as int] == p);
                        } else {
                            if exists|k: int|
                                0 <= k < seen.len() && seen[k].unit == u && decimal_of_part(
                                    component(d, u),
                                    s@,
                                    seen[k],
                                ) {
                                let k = choose|k: int|
                                    0 <= k < seen.len() && seen[k].unit == u && decimal_of_part(
                                        component(d, u),
                                        s@,
                                        seen[k],
                                    );
                                assert(new_seen[k] == seen[k]);
                            } else {
                                assert forall|k: int| 0 <= k < new_seen.len() implies #[trigger] new_seen[k].unit != u by {
                                    if k < seen.len() {
                                        assert(new_seen[k] == seen[k]);
                                    }
                                }
                            }
                        }
                    }
                    assert(units_distinct(new_seen)) by {
                        assert forall|a: int, b: int|
                            0 <= a < b < new_seen.len() implies #[trigger] new_seen[a].unit
                            != #[trigger] new_seen[b].unit by {
                            if b < seen.len() {
                                assert(new_seen[a] == seen[a]);
                                assert(new_seen[b] == seen[b]);
                            } else {
                                assert(new_seen[a] == seen[a]);
                                assert(units@[a] == seen[a].unit);
                            }
                        }
                    }
                    seen = new_seen;
                }
                units.push(p.unit);
                j = p.end;
            },
            None => {
                proof {
                    assert(parts_from(s@, j as int) =~= Seq::<DurationPart>::empty());
                    assert(parts_from(s@, i as int) =~= seen);
                }
                if j == i {
                    return None;
                }
                return Some((d, j));
            },
        }
    }
}

/// Whether `unit` occurs in `units`.
fn contains_unit(units: &Vec<DurationUnit>, unit: DurationUnit) -> (r: bool)
    ensures
        r == exists|k: int| 0 <= k < units@.len() && units@[k] == unit,
{
    let mut k: usize = 0;
    while k < units.len()
        invariant
            k <= units.len(),
            forall|m: int| 0 <= m < k ==> units@[m] != unit,
        decreases units.len() - k,
    {
        if units[k] == unit {
            return true;
        }
        k = k + 1;
    }
    false
}


// ---------------------------------------------------------------------------------------------
// Comparison operators
// ---------------------------------------------------------------------------------------------

/// A comparison operator at `i`. Longer operators are tried first: `:>=`, `:<=`, `:~~`, then
/// `:~`, `:=`, `:>`, `:<`, then `:`.
pub open spec fn operator_at(s: Seq<char>, i: int) -> Option<(Operator, int)> {
    if !at(s, i, ':') {
        None
    } else if at2(s, i + 1, '>', '=') {
        Some((Operator::Gte, i + 3))
    } else if at2(s, i + 1, '<', '=') {
        Some((Operator::Lte, i + 3))
    } else if at2(s, i + 1, '~', '~') {
        Some((Operator::Like, i + 3))
    } else if at(s, i + 1, '~') {
        Some((Operator::RegexMatch, i + 2))
    } else if at(s, i + 1, '=') {
        Some((Operator::Eq, i + 2))
    } else if at(s, i + 1, '>') {
        Some((Operator::Gt, i + 2))
    } else if at(s, i + 1, '<') {
        Some((Operator::Lt, i + 2))
    } else {
        Some((Operator::Match, i + 1))
    }
}

pub fn comparison_operator(s: &[char], i: usize) -> (r: Option<(Operator, usize)>)
    requires
        i <= s.len(),
    ensures
        r matches Some((o, e)) ==> operator_at(s@, i as int) == Some((o, e as int)) && i < e
            <= s.len(),
        r is None ==> operator_at(s@, i as int) is None,
{
    if !at_exec(s, i, ':') {
        None
    } else if at2_exec(s, i + 1, '>', '=') {
        Some((Operator::Gte, i + 3))
    } else if at2_exec(s, i + 1, '<', '=') {
        Some((Operator::Lte, i + 3))
    } else if at2_exec(s, i + 1, '~', '~') {
        Some((Operator::Like, i + 3))
    } else if at_exec(s, i + 1, '~') {
        Some((Operator::RegexMatch, i + 2))
    } else if at_exec(s, i + 1, '=') {
        Some((Operator::Eq, i + 2))
    } else if at_exec(s, i + 1, '>') {
        Some((Operator::Gt, i + 2))
    } else if at_exec(s, i + 1, '<') {
        Some((Operator::Lt, i + 2))
    } else {
        Some((Operator::Match, i + 1))
    }
}

// ---------------------------------------------------------------------------------------------
// Sort flags
// ---------------------------------------------------------------------------------------------

pub open spec fn is_sort_flag(c: char) -> bool {
    c == 'd' || c == 'n'
}

/// The end of the run of `d`/`n` flag characters starting at `i`.
pub open spec fn sort_flags_end(s: Seq<char>, i: int) -> int
    decreases s.len() - i,
{
    if 0 <= i < s.len() && is_sort_flag(s[i]) {
        sort_flags_end(s, i + 1)
    } else {
        i
    }
}

pub proof fn lemma_sort_flags_end(s: Seq<char>, i: int)
    requires
        0 <= i <= s.len(),
    ensures
        i <= sort_flags_end(s, i) <= s.len(),
        forall|j: int| i <= j < sort_flags_end(s, i) ==> is_sort_flag(#[trigger] s[j]),
    decreases s.len() - i,
{
    if i < s.len() && is_sort_flag(s[i]) {
        lemma_sort_flags_end(s, i + 1);
    }
}

/// The flags `\d` (descending) and `\n` (nulls first) of a standalone sorting expression, at `i`:
/// a backslash followed by at least one of `d` and `n`, in any order and number. Returns whether
/// the sort is descending, whether nulls come first, and the end.
pub open spec fn sort_flags_at(s: Seq<char>, i: int) -> Option<(bool, bool, int)> {
    let e = sort_flags_end(s, i + 1);
    if at(s, i, '\\') && e > i + 1 {
        Some(
            (
                exists|j: int| i + 1 <= j < e && s[j] == 'd',
                exists|j: int| i + 1 <= j < e && s[j] == 'n',
                e,
            ),
        )
    } else {
        None
    }
}

pub fn sort_flags(s: &[char], i: usize) -> (r: Option<(SortDirection, NullsSort, usize)>)
    requires
        i <= s.len(),
    ensures
        r matches Some((dir, nulls, e)) ==> sort_flags_at(s@, i as int) matches Some((desc, first, e2))
            && e2 == e && (dir == SortDirection::Desc) == desc && (nulls == NullsSort::First)
            == first && i < e <= s.len(),
        r is None ==> sort_flags_at(s@, i as int) is None,
{
    if !at_exec(s, i, '\\') {
        return None;
    }
    let mut j = i + 1;
    let mut desc = false;
    let mut first = false;
    while j < s.len() && (s[j] == 'd' || s[j] == 'n')
        invariant
            i + 1 <= j <= s.len(),
            sort_flags_end(s@, i + 1) == sort_flags_end(s@, j as int),
            desc == exists|k: int| i + 1 <= k < j && s@[k] == 'd',
            first == exists|k: int| i + 1 <= k < j && s@[k] == 'n',
        decreases s.len() - j,
    {
        if s[j] == 'd' {
            desc = true;
        } else {
            first = true;
        }
        j = j + 1;
    }
    if j == i + 1 {
        return None;
    }
    let dir = if desc {
        SortDirection::Desc
    } else {
        SortDirection::Asc
    };
    let nulls = if first {
        NullsSort::First
    } else {
        NullsSort::Last
    };
    Some((dir, nulls, j))
}

// ---------------------------------------------------------------------------------------------
// Column control flags
// ---------------------------------------------------------------------------------------------

/// One column control flag.
#[derive(Debug, Clone, Copy, PartialEq, Eq)]
pub enum ControlFlag {
    /// `s`: sort by this column; a following ordinal is the sort's.
    Sort,
    /// `d`: sort descending.
    Desc,
    /// A number: the ordinal of the most recent `s` or `g`.
    Ordinal(u32),
    /// `g`: group by this column; a following ordinal is the grouping's.
    Group,
    /// `n`: nulls first.
    NullsFirst,
    /// `h`: hide the column.
    Hide,
    /// `p`: partition by this column.
    Partition,
}

/// A column control flag at `i`. An ordinal must fit in 32 bits.
pub open spec fn control_flag_at(s: Seq<char>, i: int) -> Option<(ControlFlag, int)> {
    if at(s, i, 's') {
        Some((ControlFlag::Sort, i + 1))
    } else if at(s, i, 'd') {
        Some((ControlFlag::Desc, i + 1))
    } else if int_at(s, i) is Some && digits_value(s, i, int_at(s, i).unwrap()) <= u32::MAX {
        Some((ControlFlag::Ordinal(digits_value(s, i, int_at(s, i).unwrap()) as u32), int_at(s, i).unwrap()))
    } else if at(s, i, 'g') {
        Some((ControlFlag::Group, i + 1))
    } else if at(s, i, 'n') {
        Some((ControlFlag::NullsFirst, i + 1))
    } else if at(s, i, 'h') {
        Some((ControlFlag::Hide, i + 1))
    } else if at(s, i, 'p') {
        Some((ControlFlag::Partition, i + 1))
    } else {
        None
    }
}

pub proof fn lemma_control_flag_at(s: Seq<char>, i: int)
    requires
        0 <= i <= s.len(),
    ensures
        control_flag_at(s, i) matches Some((_, e)) ==> i < e <= s.len(),
{
    if int_at(s, i) is Some && !at(s, i, '0') {
        lemma_digits_end(s, i + 1);
    }
}

/// The maximal run of column control flags at `i`, and its end.
pub open spec fn control_flags_from(s: Seq<char>, i: int) -> (Seq<ControlFlag>, int)
    decreases s.len() - i,
{
    if 0 <= i <= s.len() {
        match control_flag_at(s, i) {
            Some((f, e)) => {
                proof {
                    lemma_control_flag_at(s, i);
                }
                let (rest, end) = control_flags_from(s, e);
                (seq![f] + rest, end)
            },
            None => (Seq::empty(), i),
        }
    } else {
        (Seq::empty(), i)
    }
}

/// What the flags read so far have set. `context` is 1 after `s`, 2 after `g`, and 0 before
/// either.
pub struct ControlState {
    pub context: u8,
    pub sort: bool,
    pub sort_ordinal: Option<u32>,
    pub desc: bool,
    pub nulls_first: bool,
    pub group: bool,
    pub group_ordinal: Option<u32>,
    pub partition: bool,
    pub hide: bool,
}

pub open spec fn initial_control_state() -> ControlState {
    ControlState {
        context: 0,
        sort: false,
        sort_ordinal: None,
        desc: false,
        nulls_first: false,
        group: false,
        group_ordinal: None,
        partition: false,
        hide: false,
    }
}

/// The effect of one flag. An ordinal applies to the most recent `s` or `g`, and is ignored
/// before either.
pub open spec fn control_step(st: ControlState, f: ControlFlag) -> ControlState {
    match f {
        ControlFlag::Sort => ControlState { sort: true, context: 1, ..st },
        ControlFlag::Desc => ControlState { desc: true, ..st },
        ControlFlag::Ordinal(o) => if st.context == 1 {
            ControlState { sort_ordinal: Some(o), ..st }
        } else if st.context == 2 {
            ControlState { group_ordinal: Some(o), ..st }
        } else {
            st
        },
        ControlFlag::Group => ControlState { group: true, context: 2, ..st },
        ControlFlag::NullsFirst => ControlState { nulls_first: true, ..st },
        ControlFlag::Hide => ControlState { hide: true, ..st },
        ControlFlag::Partition => ControlState { partition: true, ..st },
    }
}

/// Applies the flags in order.
pub open spec fn control_fold(st: ControlState, flags: Seq<ControlFlag>) -> ControlState
    decreases flags.len(),
{
    if flags.len() == 0 {
        st
    } else {
        control_fold(control_step(st, flags[0]), flags.drop_first())
    }
}

/// The column control that a final state stands for: a sort spec only if `s` was given, a group
/// spec only if `g` was given.
pub open spec fn control_of_state(st: ControlState) -> ColumnControl {
    ColumnControl {
        sort: if st.sort {
            Some(
                SortSpec {
                    ordinal: st.sort_ordinal,
                    direction: if st.desc {
                        SortDirection::Desc
                    } else {
                        SortDirection::Asc
                    },
                    nulls_sort: if st.nulls_first {
                        NullsSort::First
                    } else {
                        NullsSort::Last
                    },
                },
            )
        } else {
            None
        },
        group: if st.group {
            Some(GroupSpec { ordinal: st.group_ordinal })
        } else {
            None
        },
        is_partition_by: st.partition,
        is_hidden: st.hide,
    }
}

/// Column control flags at `i`: a backslash and at least one flag, e.g. `\s1d`.
pub open spec fn column_control_at(s: Seq<char>, i: int) -> Option<(ColumnControl, int)> {
    let (flags, end) = control_flags_from(s, i + 1);
    if at(s, i, '\\') && flags.len() > 0 {
        Some((control_of_state(control_fold(initial_control_state(), flags)), end))
    } else {
        None
    }
}

/// The value of the digits `s[i..e]` if it fits in 32 bits.
fn digits_u32(s: &[char], i: usize, e: usize) -> (r: Option<u32>)
    requires
        i <= e <= s.len(),
        forall|j: int| i <= j < e ==> is_digit(#[trigger] s@[j]),
    ensures
        r matches Some(v) ==> v == digits_value(s@, i as int, e as int),
        r is None ==> digits_value(s@, i as int, e as int) > u32::MAX,
{
    let mut v: u64 = 0;
    let mut k = i;
    while k < e
        invariant
            i <= k <= e <= s.len(),
            v == digits_value(s@, i as int, k as int),
            v <= u32::MAX,
        decreases e - k,
    {
        let d = digit_value_exec(s[k]) as u64;
        v = v * 10 + d;
        k = k + 1;
        if v > u32::MAX as u64 {
            proof {
                lemma_digits_value_grows(s@, i as int, k as int, e as int);
            }
            return None;
        }
    }
    Some(v as u32)
}

proof fn lemma_digits_value_grows(s: Seq<char>, i: int, k: int, e: int)
    requires
        i <= k <= e,
    ensures
        digits_value(s, i, k) <= digits_value(s, i, e),
    decreases e - k,
{
    if k < e {
        lemma_digits_value_grows(s, i, k + 1, e);
        assert(digits_value(s, i, k + 1) == digits_value(s, i, k) * 10 + digit_value(s[k]));
    }
}

fn control_flag_exec(s: &[char], i: usize) -> (r: Option<(ControlFlag, usize)>)
    requires
        i <= s.len(),
    ensures
        r matches Some((f, e)) ==> control_flag_at(s@, i as int) == Some((f, e as int)),
        r is None ==> control_flag_at(s@, i as int) is None,
{
    if at_exec(s, i, 's') {
        return Some((ControlFlag::Sort, i + 1));
    } else if at_exec(s, i, 'd') {
        return Some((ControlFlag::Desc, i + 1));
    }
    match int_at_exec(s, i) {
        Some(e) => {
            proof {
                if !at(s@, i as int, '0') {
                    lemma_digits_end(s@, i + 1);
                }
            }
            match digits_u32(s, i, e) {
                Some(v) => {
                    return Some((ControlFlag::Ordinal(v), e));
                },
                None => {},
            }
        },
        None => {},
    }
    if at_exec(s, i, 'g') {
        Some((ControlFlag::Group, i + 1))
    } else if at_exec(s, i, 'n') {
        Some((ControlFlag::NullsFirst, i + 1))
    } else if at_exec(s, i, 'h') {
        Some((ControlFlag::Hide, i + 1))
    } else if at_exec(s, i, 'p') {
        Some((ControlFlag::Partition, i + 1))
    } else {
        None
    }
}

fn apply_control_flag(st: &mut ControlState, f: ControlFlag)
    ensures
        *final(st) == control_step(*old(st), f),
{
    match f {
        ControlFlag::Sort => {
            st.sort = true;
            st.context = 1;
        },
        ControlFlag::Desc => {
            st.desc = true;
        },
        ControlFlag::Ordinal(o) => {
            if st.context == 1 {
                st.sort_ordinal = Some(o);
            } else if st.context == 2 {
                st.group_ordinal = Some(o);
            }
        },
        ControlFlag::Group => {
            st.group = true;
            st.context = 2;
        },
        ControlFlag::NullsFirst => {
            st.nulls_first = true;
        },
        ControlFlag::Hide => {
            st.hide = true;
        },
        ControlFlag::Partition => {
            st.partition = true;
        },
    }
}

/// Column control flags at `i`, e.g. `\s1d`, folded into a [`ColumnControl`], with their end.
pub fn column_control(s: &[char], i: usize) -> (r: Option<(ColumnControl, usize)>)
    requires
        i <= s.len(),
    ensures
        r matches Some((c, e)) ==> column_control_at(s@, i as int) == Some((c, e as int)) && i < e
            <= s.len(),
        r is None ==> column_control_at(s@, i as int) is None,
{
    if !at_exec(s, i, '\\') {
        return None;
    }
    let mut st = ControlState {
        context: 0,
        sort: false,
        sort_ordinal: None,
        desc: false,
        nulls_first: false,
        group: false,
        group_ordinal: None,
        partition: false,
        hide: false,
    };
    let mut j = i + 1;
    let ghost all = control_flags_from(s@, i + 1);
    loop
        invariant
            i + 1 <= j <= s.len(),
            at(s@, i as int, '\\'),
            all == control_flags_from(s@, i + 1),
            control_fold(initial_control_state(), all.0) == control_fold(
                st,
                control_flags_from(s@, j as int).0,
            ),
            all.1 == control_flags_from(s@, j as int).1,
            (j == i + 1) == (st == initial_control_state()) || j > i + 1,
            j > i + 1 ==> all.0.len() > 0,
            j == i + 1 ==> st == initial_control_state(),
        decreases s.len() - j,
    {
        proof {
            lemma_control_flag_at(s@, j as int);
        }
        match control_flag_exec(s, j) {
            Some((f, e)) => {
                proof {
                    let rest = control_flags_from(s@, e as int);
                    assert((seq![f] + rest.0).drop_first() =~= rest.0);
                    assert((seq![f] + rest.0)[0] == f);
                }
                apply_control_flag(&mut st, f);
                j = e;
            },
            None => {
                if j == i + 1 {
                    return None;
                }
                proof {
                    assert(control_flags_from(s@, j as int).0 =~= Seq::<ControlFlag>::empty());
                    assert(control_fold(st, control_flags_from(s@, j as int).0) == st);
                }
                let sort = if st.sort {
                    Some(
                        SortSpec {
                            ordinal: st.sort_ordinal,
                            direction: if st.desc {
                                SortDirection::Desc
                            } else {
                                SortDirection::Asc
                            },
                            nulls_sort: if st.nulls_first {
                                NullsSort::First
                            } else {
                                NullsSort::Last
                            },
                        },
                    )
                } else {
                    None
                };
                let group = if st.group {
                    Some(GroupSpec { ordinal: st.group_ordinal })
                } else {
                    None
                };
                let c = ColumnControl { sort, group, is_partition_by: st.partition, is_hidden: st.hide };
                proof {
                    assert(c == control_of_state(st));
                    assert(all.1 == j);
                    assert(all.0.len() > 0);
                    assert(control_fold(initial_control_state(), all.0) == st);
                }
                return Some((c, j));
            },
        }
    }
}

} // verus!
