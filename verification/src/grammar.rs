//! The expression grammar of Querydown, as a recursive-descent parser over characters.
//!
//! Every parser takes the text and a starting position and returns what it parsed together with
//! the position just after it, or `None` when the text at that position does not match. Choices
//! are ordered: the first alternative that matches wins, and a failed alternative consumes nothing.
//!
//! Expressions come in two modes. In identifier mode (`string_mode == false`) a bare word is a
//! column reference; in string mode, used for the whole right-hand side of a comparison, a bare
//! word at any depth is a string literal. A comparison's left side is always read in identifier
//! mode and its right side always in string mode, whichever mode the comparison appears in.
//!
//! Every parser that succeeds consumes at least one character; recursion into a full expression
//! only happens after some character has been consumed, which is what makes the parser terminate.
use vstd::prelude::*;

use crate::ast::{
    AnonymousFunctionCall, Assignment, Date, Call, CallSyntax, Case, CaseVariant, ColumnControl, Comparison,
    ComparisonSide, ConditionSet, Conjunction, Exclusivity, Expr, FunctionBody, FunctionDimension,
    HasQuantity, NullsSort, PathPart, Quantity, Range, RangeBound, ScopedConditionSet, SortDirection,
    SortExpr, TableWithMany, WindowFn,
};
use crate::lex::{
    alnum_end, alnum_end_exec, at, at2, at2_exec, at_exec, db_identifier, db_identifier_at, ident,
    ident_at, is_alpha, is_alpha_exec, is_ws_exec, lemma_alnum_end, lemma_pad_end, number_at, pad,
    pad_end, quoted, quoted_at, variable_at, ws_end,
};
use crate::nesting::has_leading_column;
use crate::tree::{
    lemma_leads_with_column, leads_with_column,
    anonymous_function_call_v, assignment_v, call_v, case_v, case_variant_v, window_fn_v, comparison_side_v, comparison_v, condition_set_v, duration_value,
    expr_v, function_body_v, has_quantity_v, lemma_duration_value, lemma_push_assoc,
    lemma_vec_assignment_v_push, lemma_vec_case_variant_v, lemma_vec_case_variant_v_push,
    lemma_vec_expr_v, lemma_vec_expr_v_append, lemma_vec_expr_v_push, lemma_vec_path_part_v,
    lemma_vec_path_part_v_push, lemma_vec_sort_expr_v_push, path_part_v, range_v, scoped_condition_set_v,
    sort_expr_v, strings_v, table_with_many_v, vec_assignment_v, vec_case_variant_v, vec_expr_v,
    vec_path_part_v, vec_sort_expr_v, AnonymousFunctionCallV, AssignmentV, CallV, CaseV, CaseVariantV,
    ComparisonSideV, ComparisonV, ConditionSetV, ExprV, FunctionBodyV, HasQuantityV, PathPartV, RangeBoundV,
    RangeV, ScopedConditionSetV, SortExprV, TableWithManyV, WindowFnV,
};
use crate::tokens::{
    column_control, column_control_at, comparison_operator, date, date_at, duration, operator_at,
    parts_from, sort_flags, sort_flags_at, units_distinct,
};

verus! {

/// Characters that, right after a bare word, make it the start of a larger expression rather than
/// a standalone search term.
pub open spec fn is_operand_continuation(c: char) -> bool {
    c == '.' || c == '_' || c == '|' || c == '%' || c == '*' || c == '/' || c == '+' || c == '-'
        || c == ':'
}

/// Like [`is_operand_continuation`], with the comma of the "OR" shorthand added.
pub open spec fn is_entry_continuation(c: char) -> bool {
    is_operand_continuation(c) || c == ','
}

fn is_continuation_exec(c: char, with_comma: bool) -> (r: bool)
    ensures
        r == if with_comma {
            is_entry_continuation(c)
        } else {
            is_operand_continuation(c)
        },
{
    c == '.' || c == '_' || c == '|' || c == '%' || c == '*' || c == '/' || c == '+' || c == '-'
        || c == ':' || (with_comma && c == ',')
}

/// A bare word at `i`: a letter followed by letters and digits, standing alone: it is not
/// followed (after padding) by a continuation character, nor immediately by `{` or `[`. Returns
/// the end of the word.
pub open spec fn bare_word_at(s: Seq<char>, i: int, with_comma: bool) -> Option<int> {
    if 0 <= i < s.len() && is_alpha(s[i]) {
        let e = alnum_end(s, i + 1);
        let q = pad_end(s, e);
        let continued = q < s.len() && if with_comma {
            is_entry_continuation(s[q])
        } else {
            is_operand_continuation(s[q])
        };
        if continued || at(s, e, '{') || at(s, e, '[') {
            None
        } else {
            Some(e)
        }
    } else {
        None
    }
}

/// A bare word at `i`, as a string together with its end.
pub(crate) fn bare_word(s: &[char], i: usize, with_comma: bool) -> (r: Option<(String, usize)>)
    requires
        i <= s.len(),
    ensures
        r matches Some((w, e)) ==> bare_word_at(s@, i as int, with_comma) == Some(e as int) && i < e
            <= s.len() && w@ == s@.subrange(i as int, e as int),
        r is None ==> bare_word_at(s@, i as int, with_comma) is None,
{
    if !(i < s.len() && is_alpha_exec(s[i])) {
        return None;
    }
    proof {
        lemma_alnum_end(s@, i + 1);
    }
    let e = alnum_end_exec(s, i + 1);
    let q = pad(s, e);
    if q < s.len() && is_continuation_exec(s[q], with_comma) {
        return None;
    }
    if at_exec(s, e, '{') || at_exec(s, e, '[') {
        return None;
    }
    Some((crate::strings::string_from_range(s, i, e), e))
}

/// One operand of the comma "OR" shorthand in identifier mode: a bare word kept as a word, or an
/// expression.
pub enum OrOperand {
    Bare(String),
    Expr(Expr),
}

/// A full expression at `i`.
#[verifier::spinoff_prover]
#[verifier::rlimit(80)]
pub(crate) fn expr(s: &[char], i: usize, string_mode: bool) -> (r: Option<(Expr, usize)>)
    requires
        i <= s.len(),
    ensures
        r matches Some((x, e)) ==> expr_at(s@, i as int, string_mode) == Some((expr_v(x), e as int)),
        r is None ==> expr_at(s@, i as int, string_mode) is None,
        r matches Some((_, e)) ==> i < e <= s.len(),
    decreases s.len() - i, 30int,
{
    if string_mode {
        let (first, e0) = match negation(s, i, true) {
            Some(x) => x,
            None => return None,
        };
        let mut rest: Vec<Expr> = Vec::new();
        let mut cur = e0;
        proof {
            assert(vec_expr_v(rest@) + or_tail(s@, e0 as int, true).0 =~= or_tail(s@, e0 as int, true).0);
        }
        loop
            invariant
                i < e0 <= cur <= s.len(),
                string_mode,
                vec_expr_v(rest@) + or_tail(s@, cur as int, true).0 == or_tail(s@, e0 as int, true).0,
                or_tail(s@, cur as int, true).1 == or_tail(s@, e0 as int, true).1,
                rest@.len() == 0 <==> cur == e0,
            ensures
                or_tail(s@, cur as int, true) == (Seq::<ExprV>::empty(), cur as int),
            decreases s.len() - cur,
        {
            let q = pad(s, cur);
            if !at_exec(s, q, ',') {
                break;
            }
            let q2 = pad(s, q + 1);
            match negation(s, q2, true) {
                Some((e, end)) => {
                    proof {
                        lemma_vec_expr_v_push(rest@, e);
                        let t = or_tail(s@, end as int, true);
                        assert(vec_expr_v(rest@).push(expr_v(e)) + t.0 =~= vec_expr_v(rest@) + (seq![expr_v(e)]
                            + t.0));
                    }
                    rest.push(e);
                    cur = end;
                },
                None => {
                    break;
                },
            }
        }
        proof {
            assert(vec_expr_v(rest@) + Seq::<ExprV>::empty() =~= vec_expr_v(rest@));
            lemma_vec_expr_v(rest@);
        }
        if rest.len() == 0 {
            Some((first, cur))
        } else {
            let ghost fx = first;
            let ghost rs = rest@;
            let mut entries = Vec::new();
            entries.push(first);
            entries.append(&mut rest);
            proof {
                assert(entries@ =~= seq![fx] + rs);
                lemma_first_and_rest(fx, rs);
            }
            let cs = ConditionSet::via_or(entries);
            proof {
                assert(condition_set_v(cs) == ConditionSetV {
                    conjunction: cs.conjunction,
                    entries: vec_expr_v(cs.entries@),
                });
            }
            Some((Expr::ConditionSet(cs), cur))
        }
    } else {
        let (first, e0) = match or_operand(s, i) {
            Some(x) => x,
            None => return None,
        };
        let mut rest: Vec<Expr> = Vec::new();
        let mut cur = e0;
        let ghost opv = operand_v(first);
        proof {
            assert(vec_expr_v(rest@) + or_tail(s@, e0 as int, false).0 =~= or_tail(s@, e0 as int, false).0);
        }
        loop
            invariant
                i < e0 <= cur <= s.len(),
                !string_mode,
                vec_expr_v(rest@) + or_tail(s@, cur as int, false).0 == or_tail(s@, e0 as int, false).0,
                or_tail(s@, cur as int, false).1 == or_tail(s@, e0 as int, false).1,
                rest@.len() == 0 <==> cur == e0,
            ensures
                or_tail(s@, cur as int, false) == (Seq::<ExprV>::empty(), cur as int),
            decreases s.len() - cur,
        {
            let q = pad(s, cur);
            if !at_exec(s, q, ',') {
                break;
            }
            let q2 = pad(s, q + 1);
            match or_operand(s, q2) {
                Some((e, end)) => {
                    let item = or_entry(e);
                    proof {
                        lemma_vec_expr_v_push(rest@, item);
                        let t = or_tail(s@, end as int, false);
                        assert(vec_expr_v(rest@).push(expr_v(item)) + t.0 =~= vec_expr_v(rest@) + (seq![
                            expr_v(item),
                        ] + t.0));
                    }
                    rest.push(item);
                    cur = end;
                },
                None => {
                    break;
                },
            }
        }
        proof {
            assert(vec_expr_v(rest@) + Seq::<ExprV>::empty() =~= vec_expr_v(rest@));
            lemma_vec_expr_v(rest@);
        }
        if rest.len() == 0 {
            let e = match first {
                OrOperand::Bare(word) => {
                    let mut parts = Vec::new();
                    parts.push(PathPart::Column(word));
                    proof {
                        lemma_vec_path_part_v(parts@);
                        assert(vec_path_part_v(parts@) =~= seq![PathPartV::Column(word@)]);
                    }
                    Expr::Path(parts)
                },
                OrOperand::Expr(e) => e,
            };
            Some((e, cur))
        } else {
            let first_entry = or_entry(first);
            let ghost fx = first_entry;
            let ghost rs = rest@;
            let mut entries = Vec::new();
            entries.push(first_entry);
            entries.append(&mut rest);
            proof {
                assert(entries@ =~= seq![fx] + rs);
                lemma_first_and_rest(fx, rs);
            }
            let cs = ConditionSet::via_or(entries);
            proof {
                assert(condition_set_v(cs) == ConditionSetV {
                    conjunction: cs.conjunction,
                    entries: vec_expr_v(cs.entries@),
                });
            }
            Some((Expr::ConditionSet(cs), cur))
        }
    }
}

/// The plain model of an operand.
pub open spec fn operand_v(op: OrOperand) -> OperandV {
    match op {
        OrOperand::Bare(w) => OperandV::Bare(w@),
        OrOperand::Expr(e) => OperandV::Expr(expr_v(e)),
    }
}

/// The plain model of a pipe step.
pub open spec fn pipe_step_v(st: PipeStep) -> PipeStepV {
    match st {
        PipeStep::Call { dimension, name, extra_args, order_by } => PipeStepV::Call {
            dimension,
            name: name@,
            extra_args: vec_expr_v(extra_args@),
            order_by: vec_sort_expr_v(order_by@),
        },
        PipeStep::AnonymousFn { params, body, extra_args } => PipeStepV::AnonymousFn {
            params: strings_v(params@),
            body: function_body_v(body),
            extra_args: vec_expr_v(extra_args@),
        },
    }
}

proof fn lemma_first_and_rest(a: Expr, rest: Seq<Expr>)
    ensures
        vec_expr_v(seq![a] + rest) == seq![expr_v(a)] + vec_expr_v(rest),
{
    lemma_vec_expr_v_append(seq![a], rest);
    lemma_vec_expr_v_push(Seq::empty(), a);
    assert(Seq::<Expr>::empty().push(a) =~= seq![a]);
    assert(vec_expr_v(Seq::<Expr>::empty()) =~= Seq::<ExprV>::empty());
    assert(Seq::<ExprV>::empty().push(expr_v(a)) =~= seq![expr_v(a)]);
}

/// How an operand resolves as one of several comma-separated operands: a bare word is a default
/// text search term.
fn or_entry(op: OrOperand) -> (r: Expr)
    ensures
        op matches OrOperand::Bare(w) ==> r == Expr::String(w),
        op matches OrOperand::Expr(e) ==> r == e,
        expr_v(r) == or_entry_v(operand_v(op)),
{
    match op {
        OrOperand::Bare(w) => Expr::String(w),
        OrOperand::Expr(e) => e,
    }
}

fn or_operand(s: &[char], i: usize) -> (r: Option<(OrOperand, usize)>)
    requires
        i <= s.len(),
    ensures
        r matches Some((OrOperand::Bare(_), _)) ==> bare_word_at(s@, i as int, false) is Some,
        r matches Some((OrOperand::Expr(x), _)) ==> bare_word_at(s@, i as int, false) is None,
        r matches Some((x, e)) ==> or_operand_at(s@, i as int) == Some((operand_v(x), e as int)),
        r is None ==> or_operand_at(s@, i as int) is None,
        r matches Some((_, e)) ==> i < e <= s.len(),
    decreases s.len() - i, 29int,
{
    match bare_word(s, i, false) {
        Some((w, e)) => Some((OrOperand::Bare(w), e)),
        None => match negation(s, i, false) {
            Some((e, end)) => Some((OrOperand::Expr(e), end)),
            None => None,
        },
    }
}

/// Any number of `!` prefixes (each followed by padding) applied to a comparison or an
/// arithmetic expression.
#[verifier::spinoff_prover]
#[verifier::rlimit(80)]
fn negation(s: &[char], i: usize, string_mode: bool) -> (r: Option<(Expr, usize)>)
    requires
        i <= s.len(),
    ensures
        r matches Some((x, e)) ==> negation_at(s@, i as int, string_mode) == Some((expr_v(x), e as int)),
        r is None ==> negation_at(s@, i as int, string_mode) is None,
        r matches Some((_, e)) ==> i < e <= s.len(),
    decreases s.len() - i, 28int,
{
    let mut count: usize = 0;
    let mut cur = i;
    while at_exec(s, cur, '!')
        invariant
            i <= cur <= s.len(),
            count <= cur - i,
            bangs_end(s@, i as int) == bangs_end(s@, cur as int),
            bangs_count(s@, i as int) == count + bangs_count(s@, cur as int),
        decreases s.len() - cur,
    {
        cur = pad(s, cur + 1);
        count = count + 1;
    }
    let (mut e, end) = match comparison_or_addition(s, cur, string_mode) {
        Some(x) => x,
        None => return None,
    };
    let ghost x0 = expr_v(e);
    let mut k: usize = 0;
    while k < count
        invariant
            k <= count,
            expr_v(e) == nots(k as nat, x0),
        decreases count - k,
    {
        e = Expr::Not(Box::new(e));
        k = k + 1;
    }
    Some((e, end))
}

#[verifier::spinoff_prover]
#[verifier::rlimit(80)]
fn comparison_or_addition(s: &[char], i: usize, string_mode: bool) -> (r: Option<(Expr, usize)>)
    requires
        i <= s.len(),
    ensures
        r matches Some((x, e)) ==> comparison_or_addition_at(s@, i as int, string_mode) == Some((expr_v(x), e as int)),
        r is None ==> comparison_or_addition_at(s@, i as int, string_mode) is None,
        r matches Some((_, e)) ==> i < e <= s.len(),
    decreases s.len() - i, 27int,
{
    match comparison(s, i) {
        Some((c, e)) => Some((Expr::Comparison(Box::new(c)), e)),
        None => addition(s, i, string_mode),
    }
}

/// A comparison: a left side in identifier mode, an operator (padded), and a right side in
/// string mode.
pub(crate) fn comparison(s: &[char], i: usize) -> (r: Option<(Comparison, usize)>)
    requires
        i <= s.len(),
    ensures
        r matches Some((x, e)) ==> comparison_at(s@, i as int) == Some((comparison_v(x), e as int)),
        r is None ==> comparison_at(s@, i as int) is None,
        r matches Some((_, e)) ==> i < e <= s.len(),
    decreases s.len() - i, 26int,
{
    let (left, e1) = match comparison_side(s, i, false) {
        Some(x) => x,
        None => return None,
    };
    let q = pad(s, e1);
    let (operator, e2) = match comparison_operator(s, q) {
        Some(x) => x,
        None => return None,
    };
    let q2 = pad(s, e2);
    let (right, e3) = match comparison_side(s, q2, true) {
        Some(x) => x,
        None => return None,
    };
    Some((Comparison { left, operator, right }, e3))
}

/// One side of a comparison: an expansion set, a range, or an arithmetic expression.
fn comparison_side(s: &[char], i: usize, string_mode: bool) -> (r: Option<(ComparisonSide, usize)>)
    requires
        i <= s.len(),
    ensures
        r matches Some((x, e)) ==> comparison_side_at(s@, i as int, string_mode) == Some((comparison_side_v(x), e as int)),
        r is None ==> comparison_side_at(s@, i as int, string_mode) is None,
        r matches Some((_, e)) ==> i < e <= s.len(),
    decreases s.len() - i, 25int,
{
    match set_of(s, i, string_mode, false) {
        Some((cs, e)) => {
            return Some((ComparisonSide::Expansion(cs), e));
        },
        None => {},
    }
    match range(s, i, string_mode) {
        Some((r, e)) => {
            return Some((ComparisonSide::Range(r), e));
        },
        None => {},
    }
    match addition(s, i, string_mode) {
        Some((a, e)) => Some((ComparisonSide::Expr(a), e)),
        None => None,
    }
}

/// A range `lower..upper`, where either bound may be marked exclusive with `<`, e.g. `@a<..<@b`.
fn range(s: &[char], i: usize, string_mode: bool) -> (r: Option<(Range, usize)>)
    requires
        i <= s.len(),
    ensures
        r matches Some((x, e)) ==> range_at(s@, i as int, string_mode) == Some((range_v(x), e as int)),
        r is None ==> range_at(s@, i as int, string_mode) is None,
        r matches Some((_, e)) ==> i < e <= s.len(),
    decreases s.len() - i, 24int,
{
    let (lower, e1) = match atom(s, i, string_mode) {
        Some(x) => x,
        None => return None,
    };
    let mut q = pad(s, e1);
    let lower_exclusivity = if at_exec(s, q, '<') {
        q = q + 1;
        Exclusivity::Exclusive
    } else {
        Exclusivity::Inclusive
    };
    let q2 = pad(s, q);
    if !at2_exec(s, q2, '.', '.') {
        return None;
    }
    let mut q3 = pad(s, q2 + 2);
    let upper_exclusivity = if at_exec(s, q3, '<') {
        q3 = q3 + 1;
        Exclusivity::Exclusive
    } else {
        Exclusivity::Inclusive
    };
    let q4 = pad(s, q3);
    let (upper, e2) = match atom(s, q4, string_mode) {
        Some(x) => x,
        None => return None,
    };
    Some(
        (
            Range {
                lower: RangeBound { expr: lower, exclusivity: lower_exclusivity },
                upper: RangeBound { expr: upper, exclusivity: upper_exclusivity },
            },
            e2,
        ),
    )
}

/// Sums and differences, folded to the left.
#[verifier::spinoff_prover]
#[verifier::rlimit(80)]
fn addition(s: &[char], i: usize, string_mode: bool) -> (r: Option<(Expr, usize)>)
    requires
        i <= s.len(),
    ensures
        r matches Some((x, e)) ==> addition_at(s@, i as int, string_mode) == Some((expr_v(x), e as int)),
        r is None ==> addition_at(s@, i as int, string_mode) is None,
        r matches Some((_, e)) ==> i < e <= s.len(),
    decreases s.len() - i, 23int,
{
    let (mut acc, mut cur) = match multiplication(s, i, string_mode) {
        Some(x) => x,
        None => return None,
    };
    let ghost e0 = cur;
    let ghost x0 = expr_v(acc);
    loop
        invariant
            i < e0 <= cur <= s.len(),
            addition_tail(s@, e0 as int, string_mode, x0) == addition_tail(s@, cur as int, string_mode, expr_v(acc)),
        ensures
            addition_tail(s@, cur as int, string_mode, expr_v(acc)) == (expr_v(acc), cur as int),
        decreases s.len() - cur,
    {
        let q = pad(s, cur);
        let is_plus = at_exec(s, q, '+');
        if !is_plus && !at_exec(s, q, '-') {
            break;
        }
        let q2 = pad(s, q + 1);
        match multiplication(s, q2, string_mode) {
            Some((rhs, e)) => {
                acc = if is_plus {
                    Expr::Sum(Box::new(acc), Box::new(rhs))
                } else {
                    Expr::Difference(Box::new(acc), Box::new(rhs))
                };
                cur = e;
            },
            None => {
                break;
            },
        }
    }
    Some((acc, cur))
}

/// Products and quotients, folded to the left.
#[verifier::spinoff_prover]
#[verifier::rlimit(80)]
fn multiplication(s: &[char], i: usize, string_mode: bool) -> (r: Option<(Expr, usize)>)
    requires
        i <= s.len(),
    ensures
        r matches Some((x, e)) ==> multiplication_at(s@, i as int, string_mode) == Some((expr_v(x), e as int)),
        r is None ==> multiplication_at(s@, i as int, string_mode) is None,
        r matches Some((_, e)) ==> i < e <= s.len(),
    decreases s.len() - i, 22int,
{
    let (mut acc, mut cur) = match pipe(s, i, string_mode) {
        Some(x) => x,
        None => return None,
    };
    let ghost e0 = cur;
    let ghost x0 = expr_v(acc);
    loop
        invariant
            i < e0 <= cur <= s.len(),
            multiplication_tail(s@, e0 as int, string_mode, x0) == multiplication_tail(s@, cur as int, string_mode, expr_v(acc)),
        ensures
            multiplication_tail(s@, cur as int, string_mode, expr_v(acc)) == (expr_v(acc), cur as int),
        decreases s.len() - cur,
    {
        let q = pad(s, cur);
        let is_times = at_exec(s, q, '*');
        if !is_times && !at_exec(s, q, '/') {
            break;
        }
        let q2 = pad(s, q + 1);
        match pipe(s, q2, string_mode) {
            Some((rhs, e)) => {
                acc = if is_times {
                    Expr::Product(Box::new(acc), Box::new(rhs))
                } else {
                    Expr::Quotient(Box::new(acc), Box::new(rhs))
                };
                cur = e;
            },
            None => {
                break;
            },
        }
    }
    Some((acc, cur))
}

/// One step of a pipe chain.
pub enum PipeStep {
    Call { dimension: FunctionDimension, name: String, extra_args: Vec<Expr>, order_by: Vec<SortExpr> },
    AnonymousFn { params: Vec<String>, body: FunctionBody, extra_args: Vec<Expr> },
}

/// A value followed by any number of function applications: `|f`, `|f(args)`, `|(@x => body)`,
/// `%agg` or `%agg(\\order)`. A leading `%agg` has nothing piped into it.
#[verifier::spinoff_prover]
#[verifier::rlimit(80)]
fn pipe(s: &[char], i: usize, string_mode: bool) -> (r: Option<(Expr, usize)>)
    requires
        i <= s.len(),
    ensures
        r matches Some((x, e)) ==> pipe_at(s@, i as int, string_mode) == Some((expr_v(x), e as int)),
        r is None ==> pipe_at(s@, i as int, string_mode) is None,
        r matches Some((_, e)) ==> i < e <= s.len(),
    decreases s.len() - i, 21int,
{
    let (mut acc, mut cur) = match leading_aggregate(s, i, string_mode) {
        Some(x) => x,
        None => match atom(s, i, string_mode) {
            Some(x) => x,
            None => return None,
        },
    };
    let ghost e0 = cur;
    let ghost x0 = expr_v(acc);
    loop
        invariant
            i < e0 <= cur <= s.len(),
            pipe_tail(s@, e0 as int, string_mode, x0) == pipe_tail(s@, cur as int, string_mode, expr_v(acc)),
        ensures
            pipe_tail(s@, cur as int, string_mode, expr_v(acc)) == (expr_v(acc), cur as int),
        decreases s.len() - cur,
    {
        let (step, e) = match pipe_step(s, cur, string_mode) {
            Some(x) => x,
            None => {
                break;
            },
        };
        let ghost old_acc = acc;
        let ghost sv = pipe_step_v(step);
        let mut args = Vec::new();
        args.push(acc);
        acc = match step {
            PipeStep::Call { dimension, name, extra_args, order_by } => {
                let ghost ex = extra_args@;
                let mut extra_args = extra_args;
                args.append(&mut extra_args);
                assert(args@[0] == old_acc);
                proof {
                    assert(args@ =~= seq![old_acc] + ex);
                    lemma_first_and_rest(old_acc, ex);
                }
                let call = Call { name, dimension, args, syntax: CallSyntax::Piped, order_by };
                proof {
                    assert(call_v(call) == CallV {
                        name: call.name@,
                        dimension: call.dimension,
                        args: vec_expr_v(call.args@),
                        syntax: call.syntax,
                        order_by: vec_sort_expr_v(call.order_by@),
                    });
                }
                Expr::Call(call)
            },
            PipeStep::AnonymousFn { params, body, extra_args } => {
                let ghost ex = extra_args@;
                let mut extra_args = extra_args;
                args.append(&mut extra_args);
                assert(args@[0] == old_acc);
                proof {
                    assert(args@ =~= seq![old_acc] + ex);
                    lemma_first_and_rest(old_acc, ex);
                }
                let call = AnonymousFunctionCall { params, body, args };
                proof {
                    assert(anonymous_function_call_v(call) == AnonymousFunctionCallV {
                        params: strings_v(call.params@),
                        body: function_body_v(call.body),
                        args: vec_expr_v(call.args@),
                    });
                }
                Expr::AnonymousFunctionCall(Box::new(call))
            },
        };
        cur = e;
    }
    Some((acc, cur))
}

/// A standalone aggregate such as `%count`, with optional ordering `(\\expr ...)`.
#[verifier::spinoff_prover]
#[verifier::rlimit(80)]
fn leading_aggregate(s: &[char], i: usize, string_mode: bool) -> (r: Option<(Expr, usize)>)
    requires
        i <= s.len(),
    ensures
        r matches Some((x, e)) ==> leading_aggregate_at(s@, i as int, string_mode) == Some((expr_v(x), e as int)),
        r is None ==> leading_aggregate_at(s@, i as int, string_mode) is None,
        r matches Some((_, e)) ==> i < e <= s.len(),
    decreases s.len() - i, 20int,
{
    let q = pad(s, i);
    if !at_exec(s, q, '%') {
        return None;
    }
    let q2 = pad(s, q + 1);
    let (name, e) = match ident(s, q2) {
        Some(x) => x,
        None => return None,
    };
    let (order_by, end) = match aggregate_order_by(s, e, string_mode) {
        Some(x) => x,
        None => (Vec::new(), e),
    };
    let call = Call {
        name,
        dimension: FunctionDimension::Aggregate,
        syntax: CallSyntax::Piped,
        args: Vec::new(),
        order_by,
    };
    proof {
        assert(vec_expr_v(call.args@) =~= Seq::<ExprV>::empty());
        assert(vec_sort_expr_v(Seq::<SortExpr>::empty()) =~= Seq::<SortExprV>::empty());
        assert(call_v(call) == CallV {
            name: call.name@,
            dimension: call.dimension,
            args: vec_expr_v(call.args@),
            syntax: call.syntax,
            order_by: vec_sort_expr_v(call.order_by@),
        });
    }
    Some((Expr::Call(call), end))
}

/// One pipe step at `i` (which may be preceded by padding).
fn pipe_step(s: &[char], i: usize, string_mode: bool) -> (r: Option<(PipeStep, usize)>)
    requires
        i <= s.len(),
    ensures
        r matches Some((x, e)) ==> pipe_step_at(s@, i as int, string_mode) == Some((pipe_step_v(x), e as int)),
        r is None ==> pipe_step_at(s@, i as int, string_mode) is None,
        r matches Some((_, e)) ==> i < e <= s.len(),
    decreases s.len() - i, 20int,
{
    let q = pad(s, i);
    if at_exec(s, q, '|') {
        let q2 = pad(s, q + 1);
        // An anonymous function is tried before a named one.
        match anonymous_function(s, q2, string_mode) {
            Some((params, body, e)) => {
                let (extra_args, end) = match expr_list(s, e, string_mode) {
                    Some(x) => x,
                    None => (Vec::new(), e),
                };
                return Some((PipeStep::AnonymousFn { params, body, extra_args }, end));
            },
            None => {},
        }
        let (name, e) = match ident(s, q2) {
            Some(x) => x,
            None => return None,
        };
        let (extra_args, end) = match expr_list(s, e, string_mode) {
            Some(x) => x,
            None => (Vec::new(), e),
        };
        Some(
            (
                PipeStep::Call {
                    dimension: FunctionDimension::Scalar,
                    name,
                    extra_args,
                    order_by: Vec::new(),
                },
                end,
            ),
        )
    } else if at_exec(s, q, '%') {
        let q2 = pad(s, q + 1);
        let (name, e) = match ident(s, q2) {
            Some(x) => x,
            None => return None,
        };
        let (order_by, end) = match aggregate_order_by(s, e, string_mode) {
            Some(x) => x,
            None => (Vec::new(), e),
        };
        Some(
            (
                PipeStep::Call {
                    dimension: FunctionDimension::Aggregate,
                    name,
                    extra_args: Vec::new(),
                    order_by,
                },
                end,
            ),
        )
    } else {
        None
    }
}

/// A parenthesized, space-separated list of expressions `( a b c )`, e.g. the arguments of a
/// function.
fn expr_list(s: &[char], i: usize, string_mode: bool) -> (r: Option<(Vec<Expr>, usize)>)
    requires
        i <= s.len(),
    ensures
        r matches Some((x, e)) ==> expr_list_at(s@, i as int, string_mode) == Some((vec_expr_v(x@), e as int)),
        r is None ==> expr_list_at(s@, i as int, string_mode) is None,
        r matches Some((_, e)) ==> i < e <= s.len(),
    decreases s.len() - i, 19int,
{
    if !at_exec(s, i, '(') {
        return None;
    }
    let mut items: Vec<Expr> = Vec::new();
    let mut cur = i + 1;
    proof {
        assert(vec_expr_v(items@) + expr_items(s@, i + 1, string_mode).0 =~= expr_items(s@, i + 1, string_mode).0);
    }
    loop
        invariant
            i < cur <= s.len(),
            expr_items(s@, cur as int, string_mode).1 == expr_items(s@, i + 1, string_mode).1,
            vec_expr_v(items@) + expr_items(s@, cur as int, string_mode).0 == expr_items(s@, i + 1, string_mode).0,
        ensures
            expr_items(s@, cur as int, string_mode) == (Seq::<ExprV>::empty(), cur as int),
        decreases s.len() - cur,
    {
        let q = pad(s, cur);
        match expr(s, q, string_mode) {
            Some((e, end)) => {
                let ghost before = vec_expr_v(items@);
                proof {
                    lemma_vec_expr_v_push(items@, e);
                }
                items.push(e);
                cur = pad(s, end);
                proof {
                    lemma_push_assoc(before, expr_v(e), expr_items(s@, cur as int, string_mode).0);
                }
            },
            None => {
                break;
            },
        }
    }
    proof {
        assert(vec_expr_v(items@) + Seq::<ExprV>::empty() =~= vec_expr_v(items@));
    }
    if at_exec(s, cur, ')') {
        Some((items, cur + 1))
    } else {
        None
    }
}

/// An aggregate's ordering `(\\expr \d ...)`.
fn aggregate_order_by(s: &[char], i: usize, string_mode: bool) -> (r: Option<(Vec<SortExpr>, usize)>)
    requires
        i <= s.len(),
    ensures
        r matches Some((x, e)) ==> aggregate_order_by_at(s@, i as int, string_mode) == Some((vec_sort_expr_v(x@), e as int)),
        r is None ==> aggregate_order_by_at(s@, i as int, string_mode) is None,
        r matches Some((_, e)) ==> i < e <= s.len(),
    decreases s.len() - i, 19int,
{
    if !at_exec(s, i, '(') {
        return None;
    }
    let mut items: Vec<SortExpr> = Vec::new();
    let mut cur = i + 1;
    proof {
        assert(vec_sort_expr_v(items@) + order_items(s@, i + 1, string_mode).0 =~= order_items(s@, i + 1, string_mode).0);
    }
    loop
        invariant
            i < cur <= s.len(),
            order_items(s@, cur as int, string_mode).1 == order_items(s@, i + 1, string_mode).1,
            vec_sort_expr_v(items@) + order_items(s@, cur as int, string_mode).0 == order_items(s@, i + 1, string_mode).0,
        ensures
            order_items(s@, cur as int, string_mode) == (Seq::<SortExprV>::empty(), cur as int),
        decreases s.len() - cur,
    {
        let q = pad(s, cur);
        match prefixed_sort_expr(s, q, string_mode) {
            Some((e, end)) => {
                let ghost before = vec_sort_expr_v(items@);
                proof {
                    lemma_vec_sort_expr_v_push(items@, e);
                }
                items.push(e);
                cur = pad(s, end);
                proof {
                    lemma_push_assoc(before, sort_expr_v(e), order_items(s@, cur as int, string_mode).0);
                }
            },
            None => {
                break;
            },
        }
    }
    proof {
        assert(vec_sort_expr_v(items@) + Seq::<SortExprV>::empty() =~= vec_sort_expr_v(items@));
    }
    if at_exec(s, cur, ')') {
        Some((items, cur + 1))
    } else {
        None
    }
}

/// A sort expression written `\\expr`, with optional flags `\d`/`\n` after padding.
pub(crate) fn prefixed_sort_expr(s: &[char], i: usize, string_mode: bool) -> (r: Option<(SortExpr, usize)>)
    requires
        i <= s.len(),
    ensures
        r matches Some((x, e)) ==> prefixed_sort_expr_at(s@, i as int, string_mode) == Some((sort_expr_v(x), e as int)),
        r is None ==> prefixed_sort_expr_at(s@, i as int, string_mode) is None,
        r matches Some((_, e)) ==> i < e <= s.len(),
    decreases s.len() - i, 18int,
{
    if !at2_exec(s, i, '\\', '\\') {
        return None;
    }
    let q = pad(s, i + 2);
    sort_expr_tail(s, q, string_mode)
}

/// An expression followed by optional sort flags (after padding).
pub(crate) fn sort_expr_tail(s: &[char], i: usize, string_mode: bool) -> (r: Option<(SortExpr, usize)>)
    requires
        i <= s.len(),
    ensures
        r matches Some((x, e)) ==> sort_expr_tail_at(s@, i as int, string_mode) == Some((sort_expr_v(x), e as int)),
        r matches Some((x, _)) ==> has_leading_column(x.expr) == expr_leads(s@, i as int, string_mode),
        r is None ==> sort_expr_tail_at(s@, i as int, string_mode) is None,
        r matches Some((_, e)) ==> i < e <= s.len(),
    decreases s.len() - i, 31int,
{
    let (e, end) = match expr(s, i, string_mode) {
        Some(x) => x,
        None => return None,
    };
    proof {
        lemma_leads_with_column(e);
    }
    let q = pad(s, end);
    match sort_flags(s, q) {
        Some((direction, nulls_sort, e2)) => Some((SortExpr { expr: e, direction, nulls_sort }, e2)),
        None => Some(
            (SortExpr { expr: e, direction: SortDirection::Asc, nulls_sort: NullsSort::Last }, end),
        ),
    }
}

/// A variable reference `@name`, returning the name.
fn variable(s: &[char], i: usize) -> (r: Option<(String, usize)>)
    requires
        i <= s.len(),
    ensures
        r matches Some((n, e)) ==> variable_at(s@, i as int) == Some(e as int) && i < e <= s.len()
            && n@ == s@.subrange(i + 1, e as int),
        r is None ==> variable_at(s@, i as int) is None,
{
    if !at_exec(s, i, '@') {
        return None;
    }
    ident(s, i + 1)
}

/// The variables that follow position `cur`, each after padding, as names, with the end of the
/// last one (`cur` where none follows).
pub open spec fn more_variables(s: Seq<char>, cur: int) -> (Seq<Seq<char>>, int)
    decreases s.len() - cur,
{
    let q = pad_end(s, cur);
    match variable_at(s, q) {
        Some(e) => if cur < e <= s.len() {
            let rest = more_variables(s, e);
            (seq![s.subrange(q + 1, e)] + rest.0, rest.1)
        } else {
            (Seq::empty(), cur)
        },
        None => (Seq::empty(), cur),
    }
}

/// One or more variables separated by padding, e.g. the parameters `@a @b` of a function.
fn params(s: &[char], i: usize) -> (r: Option<(Vec<String>, usize)>)
    requires
        i <= s.len(),
    ensures
        r is Some <==> variable_at(s@, i as int) is Some,
        r matches Some((ps, e)) ==> {
            let first = variable_at(s@, i as int).unwrap();
            let more = more_variables(s@, first);
            &&& strings_v(ps@) == seq![s@.subrange(i + 1, first)] + more.0
            &&& e == more.1
            &&& i < e <= s.len()
            &&& ps.len() >= 1
        },
{
    let (first, e0) = match variable(s, i) {
        Some(x) => x,
        None => return None,
    };
    let ghost head = seq![s@.subrange(i + 1, e0 as int)];
    let mut ps = Vec::new();
    ps.push(first);
    let mut cur = e0;
    proof {
        assert(strings_v(ps@) =~= head);
        assert(head + more_variables(s@, e0 as int).0 =~= strings_v(ps@) + more_variables(s@, cur as int).0);
    }
    loop
        invariant
            i < e0 <= cur <= s.len(),
            head == seq![s@.subrange(i + 1, e0 as int)],
            strings_v(ps@) + more_variables(s@, cur as int).0 == head + more_variables(s@, e0 as int).0,
            more_variables(s@, cur as int).1 == more_variables(s@, e0 as int).1,
            ps.len() >= 1,
        ensures
            more_variables(s@, cur as int) == (Seq::<Seq<char>>::empty(), cur as int),
        decreases s.len() - cur,
    {
        let q = pad(s, cur);
        match variable(s, q) {
            Some((p, e)) => {
                let ghost before = strings_v(ps@);
                ps.push(p);
                proof {
                    assert(strings_v(ps@) =~= before.push(p@));
                    let rest = more_variables(s@, e as int);
                    assert(more_variables(s@, cur as int).0 == seq![s@.subrange(q + 1, e as int)] + rest.0);
                    assert(before + (seq![p@] + rest.0) =~= before.push(p@) + rest.0);
                }
                cur = e;
            },
            None => {
                proof {
                    assert(more_variables(s@, cur as int).0 =~= Seq::<Seq<char>>::empty());
                    assert(more_variables(s@, cur as int).1 == cur);
                    assert(strings_v(ps@) + Seq::<Seq<char>>::empty() =~= strings_v(ps@));
                }
                break;
            },
        }
    }
    proof {
        assert(strings_v(ps@) + Seq::<Seq<char>>::empty() =~= strings_v(ps@));
    }
    Some((ps, cur))
}

/// A function body: local assignments `@name = expr`, each followed by padding, then the result
/// expression.
pub(crate) fn function_body(s: &[char], i: usize, string_mode: bool) -> (r: Option<(FunctionBody, usize)>)
    requires
        i <= s.len(),
    ensures
        r matches Some((x, e)) ==> function_body_at(s@, i as int, string_mode) == Some((function_body_v(x), e as int)),
        r is None ==> function_body_at(s@, i as int, string_mode) is None,
        r matches Some((_, e)) ==> i < e <= s.len(),
    decreases s.len() - i, 32int,
{
    let mut assignments: Vec<Assignment> = Vec::new();
    let mut cur = i;
    proof {
        assert(vec_assignment_v(assignments@) + assignments_items(s@, i as int, string_mode).0 =~= assignments_items(s@, i as int, string_mode).0);
    }
    loop
        invariant
            i <= cur <= s.len(),
            assignments_items(s@, cur as int, string_mode).1 == assignments_items(s@, i as int, string_mode).1,
            vec_assignment_v(assignments@) + assignments_items(s@, cur as int, string_mode).0 == assignments_items(s@, i as int, string_mode).0,
        ensures
            assignments_items(s@, cur as int, string_mode) == (Seq::<AssignmentV>::empty(), cur as int),
        decreases s.len() - cur,
    {
        match assignment(s, cur, string_mode) {
            Some((a, e)) => {
                let ghost before = vec_assignment_v(assignments@);
                proof {
                    lemma_vec_assignment_v_push(assignments@, a);
                }
                assignments.push(a);
                cur = pad(s, e);
                proof {
                    lemma_push_assoc(before, assignment_v(a), assignments_items(s@, cur as int, string_mode).0);
                }
            },
            None => {
                break;
            },
        }
    }
    proof {
        assert(vec_assignment_v(assignments@) + Seq::<AssignmentV>::empty() =~= vec_assignment_v(assignments@));
    }
    match expr(s, cur, string_mode) {
        Some((e, end)) => Some((FunctionBody { assignments, expr: e }, end)),
        None => None,
    }
}

/// A local assignment `@name = expr` (the `=` must not begin a `=>`).
fn assignment(s: &[char], i: usize, string_mode: bool) -> (r: Option<(Assignment, usize)>)
    requires
        i <= s.len(),
    ensures
        r matches Some((x, e)) ==> assignment_at(s@, i as int, string_mode) == Some((assignment_v(x), e as int)),
        r is None ==> assignment_at(s@, i as int, string_mode) is None,
        r matches Some((_, e)) ==> i < e <= s.len(),
    decreases s.len() - i, 31int,
{
    let (name, e) = match variable(s, i) {
        Some(x) => x,
        None => return None,
    };
    let q = pad(s, e);
    if !at_exec(s, q, '=') || at_exec(s, q + 1, '>') {
        return None;
    }
    let q2 = pad(s, q + 1);
    match expr(s, q2, string_mode) {
        Some((value, end)) => Some((Assignment { name, expr: value }, end)),
        None => None,
    }
}

/// An anonymous function `( @a @b => body )`.
fn anonymous_function(s: &[char], i: usize, string_mode: bool) -> (r: Option<
    (Vec<String>, FunctionBody, usize),
>)
    requires
        i <= s.len(),
    ensures
        r matches Some((ps, b, e)) ==> anonymous_function_at(s@, i as int, string_mode) == Some(
            (strings_v(ps@), function_body_v(b), e as int),
        ),
        r is None ==> anonymous_function_at(s@, i as int, string_mode) is None,
        r matches Some((ps, _, e)) ==> i < e <= s.len() && ps.len() >= 1,
    decreases s.len() - i, 19int,
{
    if !at_exec(s, i, '(') {
        return None;
    }
    let q = pad(s, i + 1);
    let (ps, e) = match params(s, q) {
        Some(x) => x,
        None => return None,
    };
    let q2 = pad(s, e);
    if !at2_exec(s, q2, '=', '>') {
        return None;
    }
    let q3 = pad(s, q2 + 2);
    let (body, e2) = match function_body(s, q3, string_mode) {
        Some(x) => x,
        None => return None,
    };
    let q4 = pad(s, e2);
    if !at_exec(s, q4, ')') {
        return None;
    }
    Some((ps, body, q4 + 1))
}

/// The highest-precedence expressions.
#[verifier::spinoff_prover]
#[verifier::rlimit(80)]
fn atom(s: &[char], i: usize, string_mode: bool) -> (r: Option<(Expr, usize)>)
    requires
        i <= s.len(),
    ensures
        r matches Some((x, e)) ==> atom_at(s@, i as int, string_mode) == Some((expr_v(x), e as int)),
        r is None ==> atom_at(s@, i as int, string_mode) is None,
        r matches Some((_, e)) ==> i < e <= s.len(),
    decreases s.len() - i, 17int,
{
    // A duration is tried before a number: both begin with a digit, and a duration needs a unit.
    match duration(s, i) {
        Some((d, e)) => {
            proof {
                lemma_duration_value(d, s@, parts_from(s@, i as int));
            }
            return Some((Expr::Duration(d), e));
        },
        None => {},
    }
    match crate::lex::number(s, i) {
        Some((n, e)) => {
            return Some((Expr::Number(n), e));
        },
        None => {},
    }
    match date(s, i) {
        Some((d, e)) => {
            return Some((Expr::Date(d), e));
        },
        None => {},
    }
    match string_literal(s, i) {
        Some((t, e)) => {
            return Some((Expr::String(t), e));
        },
        None => {},
    }
    // A function call is tried before a variable: both begin with `@`.
    match function_call(s, i, string_mode) {
        Some((c, e)) => {
            return Some((c, e));
        },
        None => {},
    }
    match variable(s, i) {
        Some((v, e)) => {
            return Some((Expr::Variable(v), e));
        },
        None => {},
    }
    if !string_mode {
        match window(s, i) {
            Some((w, e)) => {
                return Some((w, e));
            },
            None => {},
        }
        match scoped_condition_set(s, i) {
            Some((sc, e)) => {
                return Some((Expr::ScopedConditionSet(sc), e));
            },
            None => {},
        }
        match path(s, i, false) {
            Some((p, e)) => {
                return Some((Expr::Path(p), e));
            },
            None => {},
        }
    } else {
        match comparison_rhs_value(s, i) {
            Some((v, e)) => {
                return Some((v, e));
            },
            None => {},
        }
    }
    match has_quantity(s, i, string_mode) {
        Some((h, e)) => {
            return Some((Expr::HasQuantity(h), e));
        },
        None => {},
    }
    if !string_mode {
        match case(s, i) {
            Some((c, e)) => {
                return Some((Expr::Case(c), e));
            },
            None => {},
        }
    }
    match set_of(s, i, string_mode, true) {
        Some((cs, e)) => {
            return Some((Expr::ConditionSet(cs), e));
        },
        None => {},
    }
    parenthetical(s, i, string_mode)
}

/// A quoted string literal at `i`, in single or double quotes: the text it stands for and its end.
pub open spec fn string_literal_at(s: Seq<char>, i: int) -> Option<(Seq<char>, int)> {
    match quoted_at(s, i, '\'') {
        Some(x) => Some(x),
        None => quoted_at(s, i, '"'),
    }
}

/// A quoted string literal, in single or double quotes.
pub(crate) fn string_literal(s: &[char], i: usize) -> (r: Option<(String, usize)>)
    requires
        i <= s.len(),
    ensures
        r matches Some((t, e)) ==> string_literal_at(s@, i as int) == Some((t@, e as int)) && i < e
            <= s.len(),
        r is None ==> string_literal_at(s@, i as int) is None,
{
    match quoted(s, i, '\'') {
        Some(x) => Some(x),
        None => quoted(s, i, '"'),
    }
}

/// A direct function call `@@name(args)`.
#[verifier::spinoff_prover]
#[verifier::rlimit(80)]
fn function_call(s: &[char], i: usize, string_mode: bool) -> (r: Option<(Expr, usize)>)
    requires
        i <= s.len(),
    ensures
        r matches Some((x, e)) ==> function_call_at(s@, i as int, string_mode) == Some((expr_v(x), e as int)),
        r is None ==> function_call_at(s@, i as int, string_mode) is None,
        r matches Some((_, e)) ==> i < e <= s.len(),
    decreases s.len() - i, 16int,
{
    if !at2_exec(s, i, '@', '@') {
        return None;
    }
    let (name, e) = match ident(s, i + 2) {
        Some(x) => x,
        None => return None,
    };
    let (args, end) = match expr_list(s, e, string_mode) {
        Some(x) => x,
        None => return None,
    };
    let call = Call {
        name,
        dimension: FunctionDimension::Scalar,
        syntax: CallSyntax::Standalone,
        args,
        order_by: Vec::new(),
    };
    proof {
        assert(vec_sort_expr_v(call.order_by@) =~= Seq::<SortExprV>::empty());
        assert(call_v(call) == CallV {
            name: call.name@,
            dimension: call.dimension,
            args: vec_expr_v(call.args@),
            syntax: call.syntax,
            order_by: vec_sort_expr_v(call.order_by@),
        });
    }
    Some((Expr::Call(call), end))
}

/// In string mode, a bare identifier not followed (after padding) by `.` is a string; otherwise a
/// path.
fn comparison_rhs_value(s: &[char], i: usize) -> (r: Option<(Expr, usize)>)
    requires
        i <= s.len(),
    ensures
        r matches Some((x, e)) ==> comparison_rhs_value_at(s@, i as int) == Some((expr_v(x), e as int)),
        r is None ==> comparison_rhs_value_at(s@, i as int) is None,
        r matches Some((_, e)) ==> i < e <= s.len(),
    decreases s.len() - i, 16int,
{
    match ident(s, i) {
        Some((w, e)) => {
            let q = pad(s, e);
            if !at_exec(s, q, '.') {
                return Some((Expr::String(w), e));
            }
        },
        None => {},
    }
    match path(s, i, true) {
        Some((p, e)) => Some((Expr::Path(p), e)),
        None => None,
    }
}

/// A window function application `%%( entries )%func(args)`.
#[verifier::spinoff_prover]
#[verifier::rlimit(80)]
fn window(s: &[char], i: usize) -> (r: Option<(Expr, usize)>)
    requires
        i <= s.len(),
    ensures
        r matches Some((x, e)) ==> window_at(s@, i as int) == Some((expr_v(x), e as int)),
        r is None ==> window_at(s@, i as int) is None,
        r matches Some((_, e)) ==> i < e <= s.len(),
    decreases s.len() - i, 16int,
{
    if !at2_exec(s, i, '%', '%') {
        return None;
    }
    let q = pad(s, i + 2);
    if !at_exec(s, q, '(') {
        return None;
    }
    let mut items: Vec<(Expr, Option<ColumnControl>)> = Vec::new();
    let mut cur = q + 1;
    loop
        invariant
            i < q < cur <= s.len(),
            window_items(s@, q + 1) == window_items(s@, cur as int),
        ensures
            window_items(s@, cur as int) == cur,
        decreases s.len() - cur,
    {
        let q1 = pad(s, cur);
        match expr(s, q1, false) {
            Some((e, end)) => {
                let q2 = pad(s, end);
                match column_control(s, q2) {
                    Some((c, e2)) => {
                        items.push((e, Some(c)));
                        cur = pad(s, e2);
                    },
                    None => {
                        items.push((e, None));
                        cur = pad(s, end);
                    },
                }
            },
            None => {
                break;
            },
        }
    }
    if !at_exec(s, cur, ')') {
        return None;
    }
    let q3 = pad(s, cur + 1);
    if !at_exec(s, q3, '%') {
        return None;
    }
    let (function, e) = match ident(s, q3 + 1) {
        Some(x) => x,
        None => return None,
    };
    let (args, end) = match expr_list(s, e, false) {
        Some(x) => x,
        None => (Vec::new(), e),
    };
    proof {
        assert(vec_expr_v(Seq::<Expr>::empty()) =~= Seq::<ExprV>::empty());
    }
    let (partition_by, order_by) = crate::nesting::split_window_items(items);
    let w = WindowFn { function, args, partition_by, order_by };
    proof {
        assert(window_fn_v(w) == WindowFnV { function: w.function@, args: vec_expr_v(w.args@) });
    }
    Some((Expr::Window(w), end))
}

/// A path immediately followed by a condition set, e.g. `issue{title:dashboard}`.
fn scoped_condition_set(s: &[char], i: usize) -> (r: Option<(ScopedConditionSet, usize)>)
    requires
        i <= s.len(),
    ensures
        r matches Some((x, e)) ==> scoped_condition_set_at(s@, i as int) == Some((scoped_condition_set_v(x), e as int)),
        r is None ==> scoped_condition_set_at(s@, i as int) is None,
        r matches Some((_, e)) ==> i < e <= s.len(),
    decreases s.len() - i, 16int,
{
    let (p, e) = match path(s, i, false) {
        Some(x) => x,
        None => return None,
    };
    match set_of(s, e, false, true) {
        Some((cs, end)) => Some((ScopedConditionSet { path: p, condition_set: cs }, end)),
        None => None,
    }
}

/// A path: path parts separated by `.`, with only plain whitespace allowed before each `.`.
pub(crate) fn path(s: &[char], i: usize, string_mode: bool) -> (r: Option<(Vec<PathPart>, usize)>)
    requires
        i <= s.len(),
    ensures
        r matches Some((x, e)) ==> path_at(s@, i as int, string_mode) == Some((vec_path_part_v(x@), e as int)),
        r is None ==> path_at(s@, i as int, string_mode) is None,
        r matches Some((ps, e)) ==> i < e <= s.len() && ps.len() >= 1,
    decreases s.len() - i, 15int,
{
    let (first, e0) = match path_part(s, i, string_mode) {
        Some(x) => x,
        None => return None,
    };
    let ghost head = seq![path_part_v(first)];
    let mut parts = Vec::new();
    parts.push(first);
    let mut cur = e0;
    proof {
        lemma_vec_path_part_v_push(Seq::empty(), parts@[0]);
        assert(parts@ =~= Seq::<PathPart>::empty().push(parts@[0]));
        assert(Seq::<PathPartV>::empty().push(path_part_v(parts@[0])) =~= head);
    }
    loop
        invariant
            i < e0 <= cur <= s.len(),
            parts.len() >= 1,
            path_tail(s@, cur as int, string_mode).1 == path_tail(s@, e0 as int, string_mode).1,
            vec_path_part_v(parts@) + path_tail(s@, cur as int, string_mode).0 == head + path_tail(
                s@,
                e0 as int,
                string_mode,
            ).0,
        ensures
            path_tail(s@, cur as int, string_mode) == (Seq::<PathPartV>::empty(), cur as int),
        decreases s.len() - cur,
    {
        let q = whitespace_end(s, cur);
        if !at_exec(s, q, '.') {
            break;
        }
        match path_part(s, q + 1, string_mode) {
            Some((part, e)) => {
                let ghost before = vec_path_part_v(parts@);
                proof {
                    lemma_vec_path_part_v_push(parts@, part);
                }
                parts.push(part);
                cur = e;
                proof {
                    lemma_push_assoc(before, path_part_v(part), path_tail(s@, cur as int, string_mode).0);
                }
            },
            None => {
                break;
            },
        }
    }
    proof {
        assert(vec_path_part_v(parts@) + Seq::<PathPartV>::empty() =~= vec_path_part_v(parts@));
    }
    Some((parts, cur))
}

/// The end of the run of whitespace characters (not comments) starting at `i`.
fn whitespace_end(s: &[char], i: usize) -> (r: usize)
    requires
        i <= s.len(),
    ensures
        r == ws_end(s@, i as int),
        i <= r <= s.len(),
{
    let mut j = i;
    while j < s.len() && is_ws_exec(s[j])
        invariant
            i <= j <= s.len(),
            ws_end(s@, i as int) == ws_end(s@, j as int),
        decreases s.len() - j,
    {
        j = j + 1;
    }
    j
}

/// A column, a `#table` with many records, or a `>>table` with one record.
fn path_part(s: &[char], i: usize, string_mode: bool) -> (r: Option<(PathPart, usize)>)
    requires
        i <= s.len(),
    ensures
        r matches Some((x, e)) ==> path_part_at(s@, i as int, string_mode) == Some((path_part_v(x), e as int)),
        r is None ==> path_part_at(s@, i as int, string_mode) is None,
        r matches Some((_, e)) ==> i < e <= s.len(),
    decreases s.len() - i, 14int,
{
    match db_identifier(s, i) {
        Some((name, e)) => {
            return Some((PathPart::Column(name), e));
        },
        None => {},
    }
    match table_with_many(s, i, string_mode) {
        Some((t, e)) => {
            return Some((PathPart::TableWithMany(t), e));
        },
        None => {},
    }
    if at2_exec(s, i, '>', '>') {
        match db_identifier(s, i + 2) {
            Some((name, e)) => Some((PathPart::TableWithOne(name), e)),
            None => None,
        }
    } else {
        None
    }
}

/// `#table`, with an optional linking column `(column)` and an optional condition set.
fn table_with_many(s: &[char], i: usize, string_mode: bool) -> (r: Option<(TableWithMany, usize)>)
    requires
        i <= s.len(),
    ensures
        r matches Some((x, e)) ==> table_with_many_at(s@, i as int, string_mode) == Some((table_with_many_v(x), e as int)),
        r is None ==> table_with_many_at(s@, i as int, string_mode) is None,
        r matches Some((_, e)) ==> i < e <= s.len(),
    decreases s.len() - i, 13int,
{
    if !at_exec(s, i, '#') {
        return None;
    }
    let (table, e) = match db_identifier(s, i + 1) {
        Some(x) => x,
        None => return None,
    };
    let (linking_column, e2) = match linking_column(s, e) {
        Some((c, e2)) => (Some(c), e2),
        None => (None, e),
    };
    let (condition_set, e3) = match set_of(s, e2, string_mode, true) {
        Some(x) => x,
        None => (ConditionSet { conjunction: Conjunction::And, entries: Vec::new() }, e2),
    };
    Some((TableWithMany { table, condition_set, linking_column }, e3))
}

/// `( column )` at `i`, with only plain whitespace inside the parentheses: the column and the end.
pub open spec fn linking_column_at(s: Seq<char>, i: int) -> Option<(Seq<char>, int)> {
    if at(s, i, '(') {
        match db_identifier_at(s, ws_end(s, i + 1)) {
            Some((c, e)) => if at(s, ws_end(s, e), ')') {
                Some((c, ws_end(s, e) + 1))
            } else {
                None
            },
            None => None,
        }
    } else {
        None
    }
}

/// `( column )`, with only plain whitespace inside the parentheses.
fn linking_column(s: &[char], i: usize) -> (r: Option<(String, usize)>)
    requires
        i <= s.len(),
    ensures
        r matches Some((c, e)) ==> linking_column_at(s@, i as int) == Some((c@, e as int)) && i < e
            <= s.len(),
        r is None ==> linking_column_at(s@, i as int) is None,
{
    if !at_exec(s, i, '(') {
        return None;
    }
    let q = whitespace_end(s, i + 1);
    let (c, e) = match db_identifier(s, q) {
        Some(x) => x,
        None => return None,
    };
    let q2 = whitespace_end(s, e);
    if !at_exec(s, q2, ')') {
        return None;
    }
    Some((c, q2 + 1))
}

/// `++path` or `--path`.
fn has_quantity(s: &[char], i: usize, string_mode: bool) -> (r: Option<(HasQuantity, usize)>)
    requires
        i <= s.len(),
    ensures
        r matches Some((x, e)) ==> has_quantity_at(s@, i as int, string_mode) == Some((has_quantity_v(x), e as int)),
        r is None ==> has_quantity_at(s@, i as int, string_mode) is None,
        r matches Some((_, e)) ==> i < e <= s.len(),
    decreases s.len() - i, 16int,
{
    let quantity = if at2_exec(s, i, '+', '+') {
        Quantity::AtLeastOne
    } else if at2_exec(s, i, '-', '-') {
        Quantity::Zero
    } else {
        return None;
    };
    let q = pad(s, i + 2);
    match path(s, q, string_mode) {
        Some((path_parts, e)) => Some((HasQuantity { quantity, path_parts }, e)),
        None => None,
    }
}

/// A case expression `? cond ~ value ... ~~ fallback`, with at least one variant.
fn case(s: &[char], i: usize) -> (r: Option<(Case, usize)>)
    requires
        i <= s.len(),
    ensures
        r matches Some((x, e)) ==> case_at(s@, i as int) == Some((case_v(x), e as int)),
        r is None ==> case_at(s@, i as int) is None,
        r matches Some((c, e)) ==> i < e <= s.len() && c.variants.len() >= 1,
    decreases s.len() - i, 16int,
{
    if !at_exec(s, i, '?') {
        return None;
    }
    let mut variants: Vec<CaseVariant> = Vec::new();
    let mut cur = pad(s, i + 1);
    let ghost cur0 = cur;
    proof {
        assert(vec_case_variant_v(variants@) + case_variants(s@, cur0 as int).0 =~= case_variants(
            s@,
            cur0 as int,
        ).0);
    }
    loop
        invariant
            i < cur0 <= cur <= s.len(),
            cur0 == pad_end(s@, i + 1),
            case_variants(s@, cur as int).1 == case_variants(s@, cur0 as int).1,
            vec_case_variant_v(variants@) + case_variants(s@, cur as int).0 == case_variants(
                s@,
                cur0 as int,
            ).0,
        ensures
            case_variants(s@, cur as int) == (Seq::<CaseVariantV>::empty(), cur as int),
        decreases s.len() - cur,
    {
        let (condition, e1) = match expr(s, cur, false) {
            Some(x) => x,
            None => {
                break;
            },
        };
        let q = pad(s, e1);
        if !at_exec(s, q, '~') {
            break;
        }
        let q2 = pad(s, q + 1);
        match expr(s, q2, false) {
            Some((value, e2)) => {
                let cv = CaseVariant { condition, value };
                let ghost before = vec_case_variant_v(variants@);
                proof {
                    lemma_vec_case_variant_v_push(variants@, cv);
                }
                variants.push(cv);
                cur = pad(s, e2);
                proof {
                    lemma_push_assoc(before, case_variant_v(cv), case_variants(s@, cur as int).0);
                }
            },
            None => {
                break;
            },
        }
    }
    proof {
        assert(vec_case_variant_v(variants@) + Seq::<CaseVariantV>::empty() =~= vec_case_variant_v(
            variants@,
        ));
        lemma_vec_case_variant_v(variants@);
    }
    if variants.len() == 0 || !at2_exec(s, cur, '~', '~') {
        return None;
    }
    let q = pad(s, cur + 2);
    match expr(s, q, false) {
        Some((fallback, e)) => Some((Case { variants, fallback: Box::new(fallback) }, e)),
        None => None,
    }
}

/// A set `{ ... }` (AND) or `[ ... ]` (OR). With `boolean`, its entries are condition entries (a
/// lone bare word is a search term); otherwise they are plain expressions, as in an expansion.
pub(crate) fn set_of(s: &[char], i: usize, string_mode: bool, boolean: bool) -> (r: Option<
    (ConditionSet, usize),
>)
    requires
        i <= s.len(),
    ensures
        r matches Some((x, e)) ==> set_at(s@, i as int, string_mode, boolean) == Some((condition_set_v(x), e as int)),
        r is None ==> set_at(s@, i as int, string_mode, boolean) is None,
        r matches Some((cs, e)) ==> i < e <= s.len() && (cs.conjunction == Conjunction::And
            <==> s@[i as int] == '{'),
    decreases s.len() - i, 16int,
{
    let (conjunction, close) = if at_exec(s, i, '{') {
        (Conjunction::And, '}')
    } else if at_exec(s, i, '[') {
        (Conjunction::Or, ']')
    } else {
        return None;
    };
    let mut entries: Vec<Expr> = Vec::new();
    let mut cur = i + 1;
    proof {
        assert(vec_expr_v(entries@) + set_items(s@, i + 1, string_mode, boolean).0 =~= set_items(s@, i + 1, string_mode, boolean).0);
    }
    loop
        invariant
            i < cur <= s.len(),
            close == if at(s@, i as int, '{') { '}' } else { ']' },
            at(s@, i as int, '{') || at(s@, i as int, '['),
            set_items(s@, cur as int, string_mode, boolean).1 == set_items(s@, i + 1, string_mode, boolean).1,
            vec_expr_v(entries@) + set_items(s@, cur as int, string_mode, boolean).0 == set_items(s@, i + 1, string_mode, boolean).0,
        ensures
            set_items(s@, cur as int, string_mode, boolean) == (Seq::<ExprV>::empty(), cur as int),
        decreases s.len() - cur,
    {
        let q = pad(s, cur);
        let item = if boolean {
            condition_entry(s, q, string_mode)
        } else {
            expr(s, q, string_mode)
        };
        match item {
            Some((e, end)) => {
                let ghost before = vec_expr_v(entries@);
                proof {
                    lemma_vec_expr_v_push(entries@, e);
                }
                entries.push(e);
                cur = pad(s, end);
                proof {
                    lemma_push_assoc(before, expr_v(e), set_items(s@, cur as int, string_mode, boolean).0);
                }
            },
            None => {
                break;
            },
        }
    }
    proof {
        assert(vec_expr_v(entries@) + Seq::<ExprV>::empty() =~= vec_expr_v(entries@));
    }
    if at_exec(s, cur, close) {
        Some((ConditionSet { conjunction, entries }, cur + 1))
    } else {
        None
    }
}

/// An entry of a boolean condition set: a bare word (a default text search term) or an
/// expression.
pub(crate) fn condition_entry(s: &[char], i: usize, string_mode: bool) -> (r: Option<(Expr, usize)>)
    requires
        i <= s.len(),
    ensures
        r matches Some((x, e)) ==> condition_entry_at(s@, i as int, string_mode) == Some((expr_v(x), e as int)),
        r is None ==> condition_entry_at(s@, i as int, string_mode) is None,
        r matches Some((_, e)) ==> i < e <= s.len(),
    decreases s.len() - i, 33int,
{
    match bare_word(s, i, true) {
        Some((w, e)) => Some((Expr::String(w), e)),
        None => expr(s, i, string_mode),
    }
}

/// `( expr )`, with padding inside the parentheses.
fn parenthetical(s: &[char], i: usize, string_mode: bool) -> (r: Option<(Expr, usize)>)
    requires
        i <= s.len(),
    ensures
        r matches Some((x, e)) ==> parenthetical_at(s@, i as int, string_mode) == Some((expr_v(x), e as int)),
        r is None ==> parenthetical_at(s@, i as int, string_mode) is None,
        r matches Some((_, e)) ==> i < e <= s.len(),
    decreases s.len() - i, 16int,
{
    if !at_exec(s, i, '(') {
        return None;
    }
    let q = pad(s, i + 1);
    let (e, end) = match expr(s, q, string_mode) {
        Some(x) => x,
        None => return None,
    };
    let q2 = pad(s, end);
    if at_exec(s, q2, ')') {
        Some((e, q2 + 1))
    } else {
        None
    }
}

// ---------------------------------------------------------------------------------------------
// What each grammar element parses to
// ---------------------------------------------------------------------------------------------
//
// Each `*_at` function below says, of the text `s` and a position, whether the element of that
// name is there, which tree it parses to (as a plain model, see [`crate::tree`]) and where it
// ends, following the same ordered choices as the parser of that name. The `*_tail`/`*_items`
// functions say what a run of repeated parts that starts at `cur` gives and where it ends (`cur`
// where none is there). The `*_end` functions keep only the end.

/// An operand of the comma "OR" shorthand in identifier mode: a bare word or an expression.
pub enum OperandV {
    Bare(Seq<char>),
    Expr(ExprV),
}

/// One step of a pipe chain, as a plain model.
pub enum PipeStepV {
    Call { dimension: FunctionDimension, name: Seq<char>, extra_args: Seq<ExprV>, order_by: Seq<SortExprV> },
    AnonymousFn { params: Seq<Seq<char>>, body: FunctionBodyV, extra_args: Seq<ExprV> },
}

/// The end of a parse result, if there is one.
pub open spec fn end_of<T>(r: Option<(T, int)>) -> Option<int> {
    match r {
        Some((_, e)) => Some(e),
        None => None,
    }
}

/// An operand standing among several comma-separated ones: a bare word is a search term.
pub open spec fn or_entry_v(op: OperandV) -> ExprV {
    match op {
        OperandV::Bare(w) => ExprV::String(w),
        OperandV::Expr(e) => e,
    }
}

/// An operand standing alone: a bare word is a column reference.
pub open spec fn operand_alone_v(op: OperandV) -> ExprV {
    match op {
        OperandV::Bare(w) => ExprV::Path(seq![PathPartV::Column(w)]),
        OperandV::Expr(e) => e,
    }
}

/// `x` under `n` negations.
pub open spec fn nots(n: nat, x: ExprV) -> ExprV
    decreases n,
{
    if n == 0 {
        x
    } else {
        ExprV::Not(Box::new(nots((n - 1) as nat, x)))
    }
}

/// The value that a pipe step makes of the value piped into it: the piped-in value is the first
/// argument, the step's own arguments follow.
pub open spec fn apply_step(acc: ExprV, step: PipeStepV) -> ExprV {
    match step {
        PipeStepV::Call { dimension, name, extra_args, order_by } => ExprV::Call(
            CallV { name, dimension, args: seq![acc] + extra_args, syntax: CallSyntax::Piped, order_by },
        ),
        PipeStepV::AnonymousFn { params, body, extra_args } => ExprV::AnonymousFunctionCall(
            Box::new(AnonymousFunctionCallV { params, body, args: seq![acc] + extra_args }),
        ),
    }
}

/// The expression at `i`, if one is there.
pub open spec fn expr_at(s: Seq<char>, i: int, m: bool) -> Option<(ExprV, int)>
    decreases s.len() - i, 60int,
{
    if 0 <= i <= s.len() {
        if m {
            match negation_at(s, i, true) {
                Some((x, e0)) => if i < e0 <= s.len() {
                    let t = or_tail(s, e0, true);
                    if t.0.len() == 0 {
                        Some((x, t.1))
                    } else {
                        Some(
                            (
                                ExprV::ConditionSet(
                                    ConditionSetV { conjunction: Conjunction::Or, entries: seq![x] + t.0 },
                                ),
                                t.1,
                            ),
                        )
                    }
                } else {
                    None
                },
                None => None,
            }
        } else {
            match or_operand_at(s, i) {
                Some((op, e0)) => if i < e0 <= s.len() {
                    let t = or_tail(s, e0, false);
                    if t.0.len() == 0 {
                        Some((operand_alone_v(op), t.1))
                    } else {
                        Some(
                            (
                                ExprV::ConditionSet(
                                    ConditionSetV {
                                        conjunction: Conjunction::Or,
                                        entries: seq![or_entry_v(op)] + t.0,
                                    },
                                ),
                                t.1,
                            ),
                        )
                    }
                } else {
                    None
                },
                None => None,
            }
        }
    } else {
        None
    }
}

/// The comma-separated operands that follow `cur`.
pub open spec fn or_tail(s: Seq<char>, cur: int, m: bool) -> (Seq<ExprV>, int)
    decreases s.len() - cur, 100int,
{
    let q = pad_end(s, cur);
    let q2 = pad_end(s, q + 1);
    if 0 <= cur <= q && q < q2 <= s.len() && at(s, q, ',') {
        let item = if m {
            negation_at(s, q2, true)
        } else {
            match or_operand_at(s, q2) {
                Some((op, e)) => Some((or_entry_v(op), e)),
                None => None,
            }
        };
        match item {
            Some((x, e)) => if q2 < e <= s.len() {
                let rest = or_tail(s, e, m);
                (seq![x] + rest.0, rest.1)
            } else {
                (Seq::empty(), cur)
            },
            None => (Seq::empty(), cur),
        }
    } else {
        (Seq::empty(), cur)
    }
}

/// The operand of the comma "OR" shorthand at `i`, in identifier mode.
pub open spec fn or_operand_at(s: Seq<char>, i: int) -> Option<(OperandV, int)>
    decreases s.len() - i, 58int,
{
    if 0 <= i <= s.len() {
        match bare_word_at(s, i, false) {
            Some(e) => Some((OperandV::Bare(s.subrange(i, e)), e)),
            None => match negation_at(s, i, false) {
                Some((x, e)) => Some((OperandV::Expr(x), e)),
                None => None,
            },
        }
    } else {
        None
    }
}

/// Where the run of `!` prefixes (each followed by padding) that starts at `cur` ends.
pub open spec fn bangs_end(s: Seq<char>, cur: int) -> int
    decreases s.len() - cur,
{
    if 0 <= cur < s.len() && at(s, cur, '!') {
        proof {
            lemma_pad_end(s, cur + 1);
        }
        bangs_end(s, pad_end(s, cur + 1))
    } else {
        cur
    }
}

/// How many `!` prefixes the run that starts at `cur` holds.
pub open spec fn bangs_count(s: Seq<char>, cur: int) -> nat
    decreases s.len() - cur,
{
    if 0 <= cur < s.len() && at(s, cur, '!') {
        proof {
            lemma_pad_end(s, cur + 1);
        }
        1 + bangs_count(s, pad_end(s, cur + 1))
    } else {
        0
    }
}

/// The possibly negated expression at `i`.
pub open spec fn negation_at(s: Seq<char>, i: int, m: bool) -> Option<(ExprV, int)>
    decreases s.len() - i, 56int,
{
    let cur = bangs_end(s, i);
    if 0 <= i <= cur <= s.len() {
        match comparison_or_addition_at(s, cur, m) {
            Some((x, e)) => Some((nots(bangs_count(s, i), x), e)),
            None => None,
        }
    } else {
        None
    }
}

/// The comparison or arithmetic expression at `i`.
pub open spec fn comparison_or_addition_at(s: Seq<char>, i: int, m: bool) -> Option<(ExprV, int)>
    decreases s.len() - i, 54int,
{
    if 0 <= i <= s.len() {
        match comparison_at(s, i) {
            Some((c, e)) => Some((ExprV::Comparison(Box::new(c)), e)),
            None => addition_at(s, i, m),
        }
    } else {
        None
    }
}

/// The comparison at `i`: its left side in identifier mode, its operator, its right side in
/// string mode.
pub open spec fn comparison_at(s: Seq<char>, i: int) -> Option<(ComparisonV, int)>
    decreases s.len() - i, 52int,
{
    if 0 <= i <= s.len() {
        match comparison_side_at(s, i, false) {
            Some((l, e1)) => match operator_at(s, pad_end(s, e1)) {
                Some((o, e2)) => if i < pad_end(s, e2) <= s.len() {
                    match comparison_side_at(s, pad_end(s, e2), true) {
                        Some((r, e3)) => Some((ComparisonV { left: l, operator: o, right: r }, e3)),
                        None => None,
                    }
                } else {
                    None
                },
                None => None,
            },
            None => None,
        }
    } else {
        None
    }
}

/// The comparison side at `i`.
pub open spec fn comparison_side_at(s: Seq<char>, i: int, m: bool) -> Option<(ComparisonSideV, int)>
    decreases s.len() - i, 50int,
{
    if 0 <= i <= s.len() {
        match set_at(s, i, m, false) {
            Some((cs, e)) => Some((ComparisonSideV::Expansion(cs), e)),
            None => match range_at(s, i, m) {
                Some((r, e)) => Some((ComparisonSideV::Range(r), e)),
                None => match addition_at(s, i, m) {
                    Some((a, e)) => Some((ComparisonSideV::Expr(a), e)),
                    None => None,
                },
            },
        }
    } else {
        None
    }
}

/// The range at `i`.
pub open spec fn range_at(s: Seq<char>, i: int, m: bool) -> Option<(RangeV, int)>
    decreases s.len() - i, 48int,
{
    if 0 <= i <= s.len() {
        match atom_at(s, i, m) {
            Some((lower, e1)) => {
                let q = pad_end(s, e1);
                let q1 = if at(s, q, '<') {
                    q + 1
                } else {
                    q
                };
                let q2 = pad_end(s, q1);
                let q3 = pad_end(s, q2 + 2);
                let q3b = if at(s, q3, '<') {
                    q3 + 1
                } else {
                    q3
                };
                let q4 = pad_end(s, q3b);
                let lx = if at(s, q, '<') {
                    Exclusivity::Exclusive
                } else {
                    Exclusivity::Inclusive
                };
                let ux = if at(s, q3, '<') {
                    Exclusivity::Exclusive
                } else {
                    Exclusivity::Inclusive
                };
                if at2(s, q2, '.', '.') && i < q4 <= s.len() {
                    match atom_at(s, q4, m) {
                        Some((upper, e2)) => Some(
                            (
                                RangeV {
                                    lower: RangeBoundV { expr: lower, exclusivity: lx },
                                    upper: RangeBoundV { expr: upper, exclusivity: ux },
                                },
                                e2,
                            ),
                        ),
                        None => None,
                    }
                } else {
                    None
                }
            },
            None => None,
        }
    } else {
        None
    }
}

/// The sums and differences at `i`, folded to the left.
pub open spec fn addition_at(s: Seq<char>, i: int, m: bool) -> Option<(ExprV, int)>
    decreases s.len() - i, 46int,
{
    if 0 <= i <= s.len() {
        match multiplication_at(s, i, m) {
            Some((x, e0)) => if i < e0 <= s.len() {
                Some(addition_tail(s, e0, m, x))
            } else {
                None
            },
            None => None,
        }
    } else {
        None
    }
}

/// The `+ operand` and `- operand` steps that follow `cur`, applied to `acc` from the left.
pub open spec fn addition_tail(s: Seq<char>, cur: int, m: bool, acc: ExprV) -> (ExprV, int)
    decreases s.len() - cur, 100int,
{
    let q = pad_end(s, cur);
    let q2 = pad_end(s, q + 1);
    if 0 <= cur <= q && q < q2 <= s.len() && (at(s, q, '+') || at(s, q, '-')) {
        match multiplication_at(s, q2, m) {
            Some((rhs, e)) => if q2 < e <= s.len() {
                addition_tail(
                    s,
                    e,
                    m,
                    if at(s, q, '+') {
                        ExprV::Sum(Box::new(acc), Box::new(rhs))
                    } else {
                        ExprV::Difference(Box::new(acc), Box::new(rhs))
                    },
                )
            } else {
                (acc, cur)
            },
            None => (acc, cur),
        }
    } else {
        (acc, cur)
    }
}

/// The products and quotients at `i`, folded to the left.
pub open spec fn multiplication_at(s: Seq<char>, i: int, m: bool) -> Option<(ExprV, int)>
    decreases s.len() - i, 44int,
{
    if 0 <= i <= s.len() {
        match pipe_at(s, i, m) {
            Some((x, e0)) => if i < e0 <= s.len() {
                Some(multiplication_tail(s, e0, m, x))
            } else {
                None
            },
            None => None,
        }
    } else {
        None
    }
}

/// The `* operand` and `/ operand` steps that follow `cur`, applied to `acc` from the left.
pub open spec fn multiplication_tail(s: Seq<char>, cur: int, m: bool, acc: ExprV) -> (ExprV, int)
    decreases s.len() - cur, 100int,
{
    let q = pad_end(s, cur);
    let q2 = pad_end(s, q + 1);
    if 0 <= cur <= q && q < q2 <= s.len() && (at(s, q, '*') || at(s, q, '/')) {
        match pipe_at(s, q2, m) {
            Some((rhs, e)) => if q2 < e <= s.len() {
                multiplication_tail(
                    s,
                    e,
                    m,
                    if at(s, q, '*') {
                        ExprV::Product(Box::new(acc), Box::new(rhs))
                    } else {
                        ExprV::Quotient(Box::new(acc), Box::new(rhs))
                    },
                )
            } else {
                (acc, cur)
            },
            None => (acc, cur),
        }
    } else {
        (acc, cur)
    }
}

/// The value with its pipe steps at `i`.
pub open spec fn pipe_at(s: Seq<char>, i: int, m: bool) -> Option<(ExprV, int)>
    decreases s.len() - i, 42int,
{
    if 0 <= i <= s.len() {
        let first = match leading_aggregate_at(s, i, m) {
            Some(x) => Some(x),
            None => atom_at(s, i, m),
        };
        match first {
            Some((x, e0)) => if i < e0 <= s.len() {
                Some(pipe_tail(s, e0, m, x))
            } else {
                None
            },
            None => None,
        }
    } else {
        None
    }
}

/// The pipe steps that follow `cur`, applied to `acc` from the left.
pub open spec fn pipe_tail(s: Seq<char>, cur: int, m: bool, acc: ExprV) -> (ExprV, int)
    decreases s.len() - cur, 100int,
{
    if 0 <= cur <= s.len() {
        match pipe_step_at(s, cur, m) {
            Some((step, e)) => if cur < e <= s.len() {
                pipe_tail(s, e, m, apply_step(acc, step))
            } else {
                (acc, cur)
            },
            None => (acc, cur),
        }
    } else {
        (acc, cur)
    }
}

/// The leading aggregate at `i`: an aggregate call with nothing piped into it.
pub open spec fn leading_aggregate_at(s: Seq<char>, i: int, m: bool) -> Option<(ExprV, int)>
    decreases s.len() - i, 40int,
{
    let q = pad_end(s, i);
    let q2 = pad_end(s, q + 1);
    if 0 <= i <= s.len() && at(s, q, '%') {
        match ident_at(s, q2) {
            Some(e) => if i < e <= s.len() {
                let ob = match aggregate_order_by_at(s, e, m) {
                    Some(x) => x,
                    None => (Seq::empty(), e),
                };
                Some(
                    (
                        ExprV::Call(
                            CallV {
                                name: s.subrange(q2, e),
                                dimension: FunctionDimension::Aggregate,
                                args: Seq::empty(),
                                syntax: CallSyntax::Piped,
                                order_by: ob.0,
                            },
                        ),
                        ob.1,
                    ),
                )
            } else {
                None
            },
            None => None,
        }
    } else {
        None
    }
}

/// The pipe step at `i`.
pub open spec fn pipe_step_at(s: Seq<char>, i: int, m: bool) -> Option<(PipeStepV, int)>
    decreases s.len() - i, 40int,
{
    let q = pad_end(s, i);
    let q2 = pad_end(s, q + 1);
    if 0 <= i <= q && q < q2 <= s.len() {
        if at(s, q, '|') {
            match anonymous_function_at(s, q2, m) {
                Some((params, body, e)) => if q2 < e <= s.len() {
                    let a = match expr_list_at(s, e, m) {
                        Some(x) => x,
                        None => (Seq::empty(), e),
                    };
                    Some((PipeStepV::AnonymousFn { params, body, extra_args: a.0 }, a.1))
                } else {
                    None
                },
                None => match ident_at(s, q2) {
                    Some(e) => if q2 < e <= s.len() {
                        let a = match expr_list_at(s, e, m) {
                            Some(x) => x,
                            None => (Seq::empty(), e),
                        };
                        Some(
                            (
                                PipeStepV::Call {
                                    dimension: FunctionDimension::Scalar,
                                    name: s.subrange(q2, e),
                                    extra_args: a.0,
                                    order_by: Seq::empty(),
                                },
                                a.1,
                            ),
                        )
                    } else {
                        None
                    },
                    None => None,
                },
            }
        } else if at(s, q, '%') {
            match ident_at(s, q2) {
                Some(e) => if q2 < e <= s.len() {
                    let ob = match aggregate_order_by_at(s, e, m) {
                        Some(x) => x,
                        None => (Seq::empty(), e),
                    };
                    Some(
                        (
                            PipeStepV::Call {
                                dimension: FunctionDimension::Aggregate,
                                name: s.subrange(q2, e),
                                extra_args: Seq::empty(),
                                order_by: ob.0,
                            },
                            ob.1,
                        ),
                    )
                } else {
                    None
                },
                None => None,
            }
        } else {
            None
        }
    } else {
        None
    }
}

/// The parenthesized expression list at `i`.
pub open spec fn expr_list_at(s: Seq<char>, i: int, m: bool) -> Option<(Seq<ExprV>, int)>
    decreases s.len() - i, 38int,
{
    if 0 <= i <= s.len() && at(s, i, '(') {
        let items = expr_items(s, i + 1, m);
        if at(s, items.1, ')') {
            Some((items.0, items.1 + 1))
        } else {
            None
        }
    } else {
        None
    }
}

/// The padded expressions that start at `cur`.
pub open spec fn expr_items(s: Seq<char>, cur: int, m: bool) -> (Seq<ExprV>, int)
    decreases s.len() - cur, 100int,
{
    let q = pad_end(s, cur);
    if 0 <= cur <= q <= s.len() {
        match expr_at(s, q, m) {
            Some((x, e)) => if cur < pad_end(s, e) <= s.len() {
                let rest = expr_items(s, pad_end(s, e), m);
                (seq![x] + rest.0, rest.1)
            } else {
                (Seq::empty(), cur)
            },
            None => (Seq::empty(), cur),
        }
    } else {
        (Seq::empty(), cur)
    }
}

/// The aggregate ordering at `i`.
pub open spec fn aggregate_order_by_at(s: Seq<char>, i: int, m: bool) -> Option<(Seq<SortExprV>, int)>
    decreases s.len() - i, 38int,
{
    if 0 <= i <= s.len() && at(s, i, '(') {
        let items = order_items(s, i + 1, m);
        if at(s, items.1, ')') {
            Some((items.0, items.1 + 1))
        } else {
            None
        }
    } else {
        None
    }
}

/// The padded `\\` sort expressions that start at `cur`.
pub open spec fn order_items(s: Seq<char>, cur: int, m: bool) -> (Seq<SortExprV>, int)
    decreases s.len() - cur, 100int,
{
    let q = pad_end(s, cur);
    if 0 <= cur <= q <= s.len() {
        match prefixed_sort_expr_at(s, q, m) {
            Some((x, e)) => if cur < pad_end(s, e) <= s.len() {
                let rest = order_items(s, pad_end(s, e), m);
                (seq![x] + rest.0, rest.1)
            } else {
                (Seq::empty(), cur)
            },
            None => (Seq::empty(), cur),
        }
    } else {
        (Seq::empty(), cur)
    }
}

/// The `\\` sort expression at `i`.
pub open spec fn prefixed_sort_expr_at(s: Seq<char>, i: int, m: bool) -> Option<(SortExprV, int)>
    decreases s.len() - i, 36int,
{
    let q = pad_end(s, i + 2);
    if 0 <= i < q <= s.len() && at2(s, i, '\\', '\\') {
        sort_expr_tail_at(s, q, m)
    } else {
        None
    }
}

/// The expression with its optional sort flags at `i`; without flags it sorts ascending with
/// nulls last.
pub open spec fn sort_expr_tail_at(s: Seq<char>, i: int, m: bool) -> Option<(SortExprV, int)>
    decreases s.len() - i, 62int,
{
    if 0 <= i <= s.len() {
        match expr_at(s, i, m) {
            Some((x, end)) => match sort_flags_at(s, pad_end(s, end)) {
                Some((desc, first, e2)) => Some(
                    (
                        SortExprV {
                            expr: x,
                            direction: if desc {
                                SortDirection::Desc
                            } else {
                                SortDirection::Asc
                            },
                            nulls_sort: if first {
                                NullsSort::First
                            } else {
                                NullsSort::Last
                            },
                        },
                        e2,
                    ),
                ),
                None => Some(
                    (SortExprV { expr: x, direction: SortDirection::Asc, nulls_sort: NullsSort::Last }, end),
                ),
            },
            None => None,
        }
    } else {
        None
    }
}

/// The parameters at `i`: their names and where they end.
pub open spec fn params_at(s: Seq<char>, i: int) -> Option<(Seq<Seq<char>>, int)> {
    match variable_at(s, i) {
        Some(e0) => Some((seq![s.subrange(i + 1, e0)] + more_variables(s, e0).0, more_variables(s, e0).1)),
        None => None,
    }
}

/// The function body at `i`.
pub open spec fn function_body_at(s: Seq<char>, i: int, m: bool) -> Option<(FunctionBodyV, int)>
    decreases s.len() - i, 64int,
{
    let a = assignments_items(s, i, m);
    if 0 <= i <= a.1 <= s.len() {
        match expr_at(s, a.1, m) {
            Some((x, end)) => Some((FunctionBodyV { assignments: a.0, expr: x }, end)),
            None => None,
        }
    } else {
        None
    }
}

/// The padded local assignments that start at `cur`.
pub open spec fn assignments_items(s: Seq<char>, cur: int, m: bool) -> (Seq<AssignmentV>, int)
    decreases s.len() - cur, 63int,
{
    if 0 <= cur <= s.len() {
        match assignment_at(s, cur, m) {
            Some((x, e)) => if cur < pad_end(s, e) <= s.len() {
                let rest = assignments_items(s, pad_end(s, e), m);
                (seq![x] + rest.0, rest.1)
            } else {
                (Seq::empty(), cur)
            },
            None => (Seq::empty(), cur),
        }
    } else {
        (Seq::empty(), cur)
    }
}

/// The local assignment at `i`.
pub open spec fn assignment_at(s: Seq<char>, i: int, m: bool) -> Option<(AssignmentV, int)>
    decreases s.len() - i, 62int,
{
    match variable_at(s, i) {
        Some(e) => {
            let q = pad_end(s, e);
            let q2 = pad_end(s, q + 1);
            if 0 <= i < q2 <= s.len() && at(s, q, '=') && !at(s, q + 1, '>') {
                match expr_at(s, q2, m) {
                    Some((x, end)) => Some((AssignmentV { name: s.subrange(i + 1, e), expr: x }, end)),
                    None => None,
                }
            } else {
                None
            }
        },
        None => None,
    }
}

/// The anonymous function at `i`: its parameters and body, and where it ends.
pub open spec fn anonymous_function_at(s: Seq<char>, i: int, m: bool) -> Option<
    (Seq<Seq<char>>, FunctionBodyV, int),
>
    decreases s.len() - i, 38int,
{
    if 0 <= i <= s.len() && at(s, i, '(') {
        match params_at(s, pad_end(s, i + 1)) {
            Some((ps, e)) => {
                let q2 = pad_end(s, e);
                let q3 = pad_end(s, q2 + 2);
                if at2(s, q2, '=', '>') && i < q3 <= s.len() {
                    match function_body_at(s, q3, m) {
                        Some((body, e2)) => if at(s, pad_end(s, e2), ')') {
                            Some((ps, body, pad_end(s, e2) + 1))
                        } else {
                            None
                        },
                        None => None,
                    }
                } else {
                    None
                }
            },
            None => None,
        }
    } else {
        None
    }
}

/// Where the duration literal at `i` ends, if one is there.
pub open spec fn duration_end(s: Seq<char>, i: int) -> Option<int> {
    let parts = parts_from(s, i);
    if parts.len() > 0 && units_distinct(parts) {
        Some(parts.last().end as int)
    } else {
        None
    }
}

/// The highest-precedence expression at `i`.
pub open spec fn atom_at(s: Seq<char>, i: int, m: bool) -> Option<(ExprV, int)>
    decreases s.len() - i, 34int,
{
    if !(0 <= i <= s.len()) {
        None
    } else if duration_end(s, i) is Some {
        Some((ExprV::Duration(duration_value(s, parts_from(s, i))), duration_end(s, i).unwrap()))
    } else if number_at(s, i) is Some {
        Some((ExprV::Number(s.subrange(i, number_at(s, i).unwrap())), number_at(s, i).unwrap()))
    } else if date_at(s, i) is Some {
        let d = date_at(s, i).unwrap();
        Some((ExprV::Date(Date { year: d.0 as u32, month: d.1 as u32, day: d.2 as u32 }), d.3))
    } else if string_literal_at(s, i) is Some {
        Some((ExprV::String(string_literal_at(s, i).unwrap().0), string_literal_at(s, i).unwrap().1))
    } else if function_call_at(s, i, m) is Some {
        function_call_at(s, i, m)
    } else if variable_at(s, i) is Some {
        Some((ExprV::Variable(s.subrange(i + 1, variable_at(s, i).unwrap())), variable_at(s, i).unwrap()))
    } else if !m && window_at(s, i) is Some {
        window_at(s, i)
    } else if !m && scoped_condition_set_at(s, i) is Some {
        let x = scoped_condition_set_at(s, i).unwrap();
        Some((ExprV::ScopedConditionSet(x.0), x.1))
    } else if !m && path_at(s, i, false) is Some {
        let x = path_at(s, i, false).unwrap();
        Some((ExprV::Path(x.0), x.1))
    } else if m && comparison_rhs_value_at(s, i) is Some {
        comparison_rhs_value_at(s, i)
    } else if has_quantity_at(s, i, m) is Some {
        let x = has_quantity_at(s, i, m).unwrap();
        Some((ExprV::HasQuantity(x.0), x.1))
    } else if !m && case_at(s, i) is Some {
        let x = case_at(s, i).unwrap();
        Some((ExprV::Case(x.0), x.1))
    } else if set_at(s, i, m, true) is Some {
        let x = set_at(s, i, m, true).unwrap();
        Some((ExprV::ConditionSet(x.0), x.1))
    } else {
        parenthetical_at(s, i, m)
    }
}

/// The direct function call at `i`.
pub open spec fn function_call_at(s: Seq<char>, i: int, m: bool) -> Option<(ExprV, int)>
    decreases s.len() - i, 32int,
{
    if 0 <= i <= s.len() && at2(s, i, '@', '@') {
        match ident_at(s, i + 2) {
            Some(e) => if i < e <= s.len() {
                match expr_list_at(s, e, m) {
                    Some((args, end)) => Some(
                        (
                            ExprV::Call(
                                CallV {
                                    name: s.subrange(i + 2, e),
                                    dimension: FunctionDimension::Scalar,
                                    args,
                                    syntax: CallSyntax::Standalone,
                                    order_by: Seq::empty(),
                                },
                            ),
                            end,
                        ),
                    ),
                    None => None,
                }
            } else {
                None
            },
            None => None,
        }
    } else {
        None
    }
}

/// The string-mode value at `i`: a bare identifier not followed by `.` is a string, otherwise a
/// path.
pub open spec fn comparison_rhs_value_at(s: Seq<char>, i: int) -> Option<(ExprV, int)>
    decreases s.len() - i, 32int,
{
    if 0 <= i <= s.len() {
        if ident_at(s, i) is Some && !at(s, pad_end(s, ident_at(s, i).unwrap()), '.') {
            Some((ExprV::String(s.subrange(i, ident_at(s, i).unwrap())), ident_at(s, i).unwrap()))
        } else {
            match path_at(s, i, true) {
                Some((ps, e)) => Some((ExprV::Path(ps), e)),
                None => None,
            }
        }
    } else {
        None
    }
}

/// The window function application at `i` (its partition and ordering are not modelled).
pub open spec fn window_at(s: Seq<char>, i: int) -> Option<(ExprV, int)>
    decreases s.len() - i, 32int,
{
    let q = pad_end(s, i + 2);
    if 0 <= i < q <= s.len() && at2(s, i, '%', '%') && at(s, q, '(') {
        let cur = window_items(s, q + 1);
        let q3 = pad_end(s, cur + 1);
        if at(s, cur, ')') && at(s, q3, '%') {
            match ident_at(s, q3 + 1) {
                Some(e) => if i < e <= s.len() {
                    let a = match expr_list_at(s, e, false) {
                        Some(x) => x,
                        None => (Seq::empty(), e),
                    };
                    Some((ExprV::Window(WindowFnV { function: s.subrange(q3 + 1, e), args: a.0 }), a.1))
                } else {
                    None
                },
                None => None,
            }
        } else {
            None
        }
    } else {
        None
    }
}

/// Where the padded window entries (each an expression with optional column control flags) that
/// start at `cur` end.
pub open spec fn window_items(s: Seq<char>, cur: int) -> int
    decreases s.len() - cur, 100int,
{
    let q1 = pad_end(s, cur);
    if 0 <= cur <= q1 <= s.len() {
        match expr_at(s, q1, false) {
            Some((_, end)) => {
                let q2 = pad_end(s, end);
                let n = match column_control_at(s, q2) {
                    Some((_, e2)) => pad_end(s, e2),
                    None => pad_end(s, end),
                };
                if cur < n <= s.len() {
                    window_items(s, n)
                } else {
                    cur
                }
            },
            None => cur,
        }
    } else {
        cur
    }
}

/// The path followed by a condition set at `i`.
pub open spec fn scoped_condition_set_at(s: Seq<char>, i: int) -> Option<(ScopedConditionSetV, int)>
    decreases s.len() - i, 32int,
{
    if 0 <= i <= s.len() {
        match path_at(s, i, false) {
            Some((p, e)) => if i < e <= s.len() {
                match set_at(s, e, false, true) {
                    Some((cs, end)) => Some((ScopedConditionSetV { path: p, condition_set: cs }, end)),
                    None => None,
                }
            } else {
                None
            },
            None => None,
        }
    } else {
        None
    }
}

/// The path at `i`.
pub open spec fn path_at(s: Seq<char>, i: int, m: bool) -> Option<(Seq<PathPartV>, int)>
    decreases s.len() - i, 30int,
{
    if 0 <= i <= s.len() {
        match path_part_at(s, i, m) {
            Some((p, e0)) => if i < e0 <= s.len() {
                let t = path_tail(s, e0, m);
                Some((seq![p] + t.0, t.1))
            } else {
                None
            },
            None => None,
        }
    } else {
        None
    }
}

/// The `.part` steps that follow `cur`.
pub open spec fn path_tail(s: Seq<char>, cur: int, m: bool) -> (Seq<PathPartV>, int)
    decreases s.len() - cur, 100int,
{
    let q = ws_end(s, cur);
    if 0 <= cur <= q < s.len() && at(s, q, '.') {
        match path_part_at(s, q + 1, m) {
            Some((p, e)) => if cur < e <= s.len() {
                let rest = path_tail(s, e, m);
                (seq![p] + rest.0, rest.1)
            } else {
                (Seq::empty(), cur)
            },
            None => (Seq::empty(), cur),
        }
    } else {
        (Seq::empty(), cur)
    }
}

/// The path part at `i`.
pub open spec fn path_part_at(s: Seq<char>, i: int, m: bool) -> Option<(PathPartV, int)>
    decreases s.len() - i, 28int,
{
    if 0 <= i <= s.len() {
        match db_identifier_at(s, i) {
            Some((name, e)) => Some((PathPartV::Column(name), e)),
            None => match table_with_many_at(s, i, m) {
                Some((t, e)) => Some((PathPartV::TableWithMany(t), e)),
                None => if at2(s, i, '>', '>') {
                    match db_identifier_at(s, i + 2) {
                        Some((name, e)) => Some((PathPartV::TableWithOne(name), e)),
                        None => None,
                    }
                } else {
                    None
                },
            },
        }
    } else {
        None
    }
}

/// The `#table` with many records at `i`; without a condition set it has an empty AND set.
pub open spec fn table_with_many_at(s: Seq<char>, i: int, m: bool) -> Option<(TableWithManyV, int)>
    decreases s.len() - i, 26int,
{
    if 0 <= i <= s.len() && at(s, i, '#') {
        match db_identifier_at(s, i + 1) {
            Some((table, e)) => {
                let lc = match linking_column_at(s, e) {
                    Some((c, e2)) => (Some(c), e2),
                    None => (None, e),
                };
                if i < lc.1 <= s.len() {
                    let cs = match set_at(s, lc.1, m, true) {
                        Some(x) => x,
                        None => (ConditionSetV { conjunction: Conjunction::And, entries: Seq::empty() }, lc.1),
                    };
                    Some((TableWithManyV { table, condition_set: cs.0, linking_column: lc.0 }, cs.1))
                } else {
                    None
                }
            },
            None => None,
        }
    } else {
        None
    }
}

/// The `++path` or `--path` at `i`.
pub open spec fn has_quantity_at(s: Seq<char>, i: int, m: bool) -> Option<(HasQuantityV, int)>
    decreases s.len() - i, 32int,
{
    let q = pad_end(s, i + 2);
    if 0 <= i < q <= s.len() && (at2(s, i, '+', '+') || at2(s, i, '-', '-')) {
        match path_at(s, q, m) {
            Some((ps, e)) => Some(
                (
                    HasQuantityV {
                        quantity: if at2(s, i, '+', '+') {
                            Quantity::AtLeastOne
                        } else {
                            Quantity::Zero
                        },
                        path_parts: ps,
                    },
                    e,
                ),
            ),
            None => None,
        }
    } else {
        None
    }
}

/// The case expression at `i`.
pub open spec fn case_at(s: Seq<char>, i: int) -> Option<(CaseV, int)>
    decreases s.len() - i, 32int,
{
    let cur0 = pad_end(s, i + 1);
    if 0 <= i < cur0 <= s.len() && at(s, i, '?') {
        let vs = case_variants(s, cur0);
        let q = pad_end(s, vs.1 + 2);
        if vs.0.len() > 0 && at2(s, vs.1, '~', '~') && i < q <= s.len() {
            match expr_at(s, q, false) {
                Some((x, e)) => Some((CaseV { variants: vs.0, fallback: Box::new(x) }, e)),
                None => None,
            }
        } else {
            None
        }
    } else {
        None
    }
}

/// The padded `condition ~ value` variants that start at `cur`.
pub open spec fn case_variants(s: Seq<char>, cur: int) -> (Seq<CaseVariantV>, int)
    decreases s.len() - cur, 100int,
{
    if 0 <= cur <= s.len() {
        match expr_at(s, cur, false) {
            Some((c, e1)) => {
                let q = pad_end(s, e1);
                let q2 = pad_end(s, q + 1);
                if at(s, q, '~') && cur < q2 <= s.len() {
                    match expr_at(s, q2, false) {
                        Some((v, e2)) => if cur < pad_end(s, e2) <= s.len() {
                            let rest = case_variants(s, pad_end(s, e2));
                            (seq![CaseVariantV { condition: c, value: v }] + rest.0, rest.1)
                        } else {
                            (Seq::empty(), cur)
                        },
                        None => (Seq::empty(), cur),
                    }
                } else {
                    (Seq::empty(), cur)
                }
            },
            None => (Seq::empty(), cur),
        }
    } else {
        (Seq::empty(), cur)
    }
}

/// The set `{ ... }` (AND) or `[ ... ]` (OR) at `i`; `boolean` as for [`set_of`].
pub open spec fn set_at(s: Seq<char>, i: int, m: bool, boolean: bool) -> Option<(ConditionSetV, int)>
    decreases s.len() - i, 32int,
{
    if 0 <= i <= s.len() && (at(s, i, '{') || at(s, i, '[')) {
        let close = if at(s, i, '{') {
            '}'
        } else {
            ']'
        };
        let items = set_items(s, i + 1, m, boolean);
        if at(s, items.1, close) {
            Some(
                (
                    ConditionSetV {
                        conjunction: if at(s, i, '{') {
                            Conjunction::And
                        } else {
                            Conjunction::Or
                        },
                        entries: items.0,
                    },
                    items.1 + 1,
                ),
            )
        } else {
            None
        }
    } else {
        None
    }
}

/// The padded set entries that start at `cur`.
pub open spec fn set_items(s: Seq<char>, cur: int, m: bool, boolean: bool) -> (Seq<ExprV>, int)
    decreases s.len() - cur, 100int,
{
    let q = pad_end(s, cur);
    if 0 <= cur <= q <= s.len() {
        let item = if boolean {
            condition_entry_at(s, q, m)
        } else {
            expr_at(s, q, m)
        };
        match item {
            Some((x, e)) => if cur < pad_end(s, e) <= s.len() {
                let rest = set_items(s, pad_end(s, e), m, boolean);
                (seq![x] + rest.0, rest.1)
            } else {
                (Seq::empty(), cur)
            },
            None => (Seq::empty(), cur),
        }
    } else {
        (Seq::empty(), cur)
    }
}

/// The condition entry at `i`: a bare word is a search term.
pub open spec fn condition_entry_at(s: Seq<char>, i: int, m: bool) -> Option<(ExprV, int)>
    decreases s.len() - i, 66int,
{
    if 0 <= i <= s.len() {
        match bare_word_at(s, i, true) {
            Some(e) => Some((ExprV::String(s.subrange(i, e)), e)),
            None => expr_at(s, i, m),
        }
    } else {
        None
    }
}

/// The parenthesized expression at `i`: the expression inside.
pub open spec fn parenthetical_at(s: Seq<char>, i: int, m: bool) -> Option<(ExprV, int)>
    decreases s.len() - i, 32int,
{
    let q = pad_end(s, i + 1);
    if 0 <= i < q <= s.len() && at(s, i, '(') {
        match expr_at(s, q, m) {
            Some((x, end)) => if at(s, pad_end(s, end), ')') {
                Some((x, pad_end(s, end) + 1))
            } else {
                None
            },
            None => None,
        }
    } else {
        None
    }
}


/// Where the element parsed by [`expr_at`] ends, if it is there.
pub open spec fn expr_end(s: Seq<char>, i: int, m: bool) -> Option<int> {
    end_of(expr_at(s, i, m))
}

/// Where the element parsed by [`or_operand_at`] ends, if it is there.
pub open spec fn or_operand_end(s: Seq<char>, i: int) -> Option<int> {
    end_of(or_operand_at(s, i))
}

/// Where the element parsed by [`negation_at`] ends, if it is there.
pub open spec fn negation_end(s: Seq<char>, i: int, m: bool) -> Option<int> {
    end_of(negation_at(s, i, m))
}

/// Where the element parsed by [`comparison_or_addition_at`] ends, if it is there.
pub open spec fn comparison_or_addition_end(s: Seq<char>, i: int, m: bool) -> Option<int> {
    end_of(comparison_or_addition_at(s, i, m))
}

/// Where the element parsed by [`comparison_at`] ends, if it is there.
pub open spec fn comparison_end(s: Seq<char>, i: int) -> Option<int> {
    end_of(comparison_at(s, i))
}

/// Where the element parsed by [`comparison_side_at`] ends, if it is there.
pub open spec fn comparison_side_end(s: Seq<char>, i: int, m: bool) -> Option<int> {
    end_of(comparison_side_at(s, i, m))
}

/// Where the element parsed by [`range_at`] ends, if it is there.
pub open spec fn range_end(s: Seq<char>, i: int, m: bool) -> Option<int> {
    end_of(range_at(s, i, m))
}

/// Where the element parsed by [`addition_at`] ends, if it is there.
pub open spec fn addition_end(s: Seq<char>, i: int, m: bool) -> Option<int> {
    end_of(addition_at(s, i, m))
}

/// Where the element parsed by [`multiplication_at`] ends, if it is there.
pub open spec fn multiplication_end(s: Seq<char>, i: int, m: bool) -> Option<int> {
    end_of(multiplication_at(s, i, m))
}

/// Where the element parsed by [`pipe_at`] ends, if it is there.
pub open spec fn pipe_end(s: Seq<char>, i: int, m: bool) -> Option<int> {
    end_of(pipe_at(s, i, m))
}

/// Where the element parsed by [`leading_aggregate_at`] ends, if it is there.
pub open spec fn leading_aggregate_end(s: Seq<char>, i: int, m: bool) -> Option<int> {
    end_of(leading_aggregate_at(s, i, m))
}

/// Where the element parsed by [`pipe_step_at`] ends, if it is there.
pub open spec fn pipe_step_end(s: Seq<char>, i: int, m: bool) -> Option<int> {
    end_of(pipe_step_at(s, i, m))
}

/// Where the element parsed by [`expr_list_at`] ends, if it is there.
pub open spec fn expr_list_end(s: Seq<char>, i: int, m: bool) -> Option<int> {
    end_of(expr_list_at(s, i, m))
}

/// Where the element parsed by [`aggregate_order_by_at`] ends, if it is there.
pub open spec fn aggregate_order_by_end(s: Seq<char>, i: int, m: bool) -> Option<int> {
    end_of(aggregate_order_by_at(s, i, m))
}

/// Where the element parsed by [`prefixed_sort_expr_at`] ends, if it is there.
pub open spec fn prefixed_sort_expr_end(s: Seq<char>, i: int, m: bool) -> Option<int> {
    end_of(prefixed_sort_expr_at(s, i, m))
}

/// Where the element parsed by [`sort_expr_tail_at`] ends, if it is there.
pub open spec fn sort_expr_tail_end(s: Seq<char>, i: int, m: bool) -> Option<int> {
    end_of(sort_expr_tail_at(s, i, m))
}

/// Where the element parsed by [`params_at`] ends, if it is there.
pub open spec fn params_end(s: Seq<char>, i: int) -> Option<int> {
    end_of(params_at(s, i))
}

/// Where the element parsed by [`function_body_at`] ends, if it is there.
pub open spec fn function_body_end(s: Seq<char>, i: int, m: bool) -> Option<int> {
    end_of(function_body_at(s, i, m))
}

/// Where the element parsed by [`assignment_at`] ends, if it is there.
pub open spec fn assignment_end(s: Seq<char>, i: int, m: bool) -> Option<int> {
    end_of(assignment_at(s, i, m))
}

/// Where the element parsed by [`atom_at`] ends, if it is there.
pub open spec fn atom_end(s: Seq<char>, i: int, m: bool) -> Option<int> {
    end_of(atom_at(s, i, m))
}

/// Where the element parsed by [`function_call_at`] ends, if it is there.
pub open spec fn function_call_end(s: Seq<char>, i: int, m: bool) -> Option<int> {
    end_of(function_call_at(s, i, m))
}

/// Where the element parsed by [`comparison_rhs_value_at`] ends, if it is there.
pub open spec fn comparison_rhs_value_end(s: Seq<char>, i: int) -> Option<int> {
    end_of(comparison_rhs_value_at(s, i))
}

/// Where the element parsed by [`window_at`] ends, if it is there.
pub open spec fn window_end(s: Seq<char>, i: int) -> Option<int> {
    end_of(window_at(s, i))
}

/// Where the element parsed by [`scoped_condition_set_at`] ends, if it is there.
pub open spec fn scoped_condition_set_end(s: Seq<char>, i: int) -> Option<int> {
    end_of(scoped_condition_set_at(s, i))
}

/// Where the element parsed by [`path_at`] ends, if it is there.
pub open spec fn path_end(s: Seq<char>, i: int, m: bool) -> Option<int> {
    end_of(path_at(s, i, m))
}

/// Where the element parsed by [`path_part_at`] ends, if it is there.
pub open spec fn path_part_end(s: Seq<char>, i: int, m: bool) -> Option<int> {
    end_of(path_part_at(s, i, m))
}

/// Where the element parsed by [`table_with_many_at`] ends, if it is there.
pub open spec fn table_with_many_end(s: Seq<char>, i: int, m: bool) -> Option<int> {
    end_of(table_with_many_at(s, i, m))
}

/// Where the element parsed by [`has_quantity_at`] ends, if it is there.
pub open spec fn has_quantity_end(s: Seq<char>, i: int, m: bool) -> Option<int> {
    end_of(has_quantity_at(s, i, m))
}

/// Where the element parsed by [`case_at`] ends, if it is there.
pub open spec fn case_end(s: Seq<char>, i: int) -> Option<int> {
    end_of(case_at(s, i))
}

/// Where the element parsed by [`set_at`] ends, if it is there.
pub open spec fn set_end(s: Seq<char>, i: int, m: bool, boolean: bool) -> Option<int> {
    end_of(set_at(s, i, m, boolean))
}

/// Where the element parsed by [`condition_entry_at`] ends, if it is there.
pub open spec fn condition_entry_end(s: Seq<char>, i: int, m: bool) -> Option<int> {
    end_of(condition_entry_at(s, i, m))
}

/// Where the element parsed by [`parenthetical_at`] ends, if it is there.
pub open spec fn parenthetical_end(s: Seq<char>, i: int, m: bool) -> Option<int> {
    end_of(parenthetical_at(s, i, m))
}

/// Where the anonymous function at `i` ends, if it is there.
pub open spec fn anonymous_function_end(s: Seq<char>, i: int, m: bool) -> Option<int> {
    match anonymous_function_at(s, i, m) {
        Some((_, _, e)) => Some(e),
        None => None,
    }
}

/// Whether the expression at `i`, if one is there, begins with a column reference.
pub open spec fn expr_leads(s: Seq<char>, i: int, m: bool) -> bool {
    match expr_at(s, i, m) {
        Some((x, _)) => leads_with_column(x),
        None => false,
    }
}

} // verus!
