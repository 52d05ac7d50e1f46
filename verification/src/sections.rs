//! The sections of a query around its expressions: column annotations, result columns (with
//! `.( )` nesting), standalone sorting (with `.( )` nesting), definitions, filtering, and whole
//! queries. Parsers follow the conventions of [`crate::grammar`]: each takes the text and a
//! position and returns what it parsed with the position after it.
use vstd::prelude::*;

use crate::ast::{
    AnnotationValue, ColumnControl, ColumnGlob, ColumnSpec, ComputedColumn, ConditionSet,
    Conjunction, ConstantDef, CustomComparisonDef, Definitions, Expr, FunctionDef, PathPart, Query,
    ResultColumnStatement, SortExpr, TableDef, Transformation,
};
use crate::grammar::{
    condition_entry, condition_entry_at, condition_entry_end, expr, expr_at, expr_end, expr_leads,
    function_body, function_body_end, more_variables, path, path_at, path_end, sort_expr_tail,
    sort_expr_tail_at, sort_expr_tail_end,
};
use crate::lex::{
    at, at2, at2_exec, at_exec, db_identifier, db_identifier_at, ident, ident_at, number, number_at,
    pad, pad_end, quoted, quoted_at, starts_with, starts_with_exec, variable_at, ws_end,
};
use crate::nesting::{
    has_leading_column, lemma_prefixed_has_leading_column, prefix_leading_path, prefixed_parts, prefixes,
};
use crate::tokens::{column_control, column_control_at, comparison_operator, operator_at};
use crate::tree::{
    column_glob_v, column_spec_v, condition_set_v, expr_v, lemma_prefixed_parts_v, lemma_prefixes_v,
    lemma_push_assoc, lemma_vec_column_spec_v_push, lemma_vec_expr_v_push, lemma_vec_path_part_v,
    lemma_vec_result_column_statement_v, lemma_vec_result_column_statement_v_append,
    lemma_vec_result_column_statement_v_push, opt_annotation_v, opt_string_v, prefix_v,
    result_column_statement_v, sort_expr_v, vec_column_spec_v, vec_sort_expr_v, lemma_vec_sort_expr_v,
    lemma_vec_sort_expr_v_append, lemma_vec_sort_expr_v_push, SortExprV, vec_expr_v, vec_path_part_v,
    vec_result_column_statement_v, ColumnGlobV, ColumnSpecV, ConditionSetV, ExprV, PathPartV,
    ResultColumnStatementV, TransformationV, lemma_vec_transformation_v, lemma_vec_transformation_v_push,
    transformation_v, vec_transformation_v,
};

verus! {

// ---------------------------------------------------------------------------------------------
// Annotations
// ---------------------------------------------------------------------------------------------

/// An annotation value with its strings and lists as sequences.
pub enum AnnotationValueV {
    Null,
    Bool(bool),
    Number(Seq<char>),
    String(Seq<char>),
    Array(Seq<AnnotationValueV>),
    Object(Seq<(Seq<char>, AnnotationValueV)>),
}

/// The plain model of an annotation value.
pub open spec fn annotation_value_v(a: AnnotationValue) -> AnnotationValueV
    decreases a,
{
    match a {
        AnnotationValue::Null => AnnotationValueV::Null,
        AnnotationValue::Bool(b) => AnnotationValueV::Bool(b),
        AnnotationValue::Number(n) => AnnotationValueV::Number(n@),
        AnnotationValue::String(t) => AnnotationValueV::String(t@),
        AnnotationValue::Array(x) => {
            proof {
                assert(decreases_to!(x => x@));
            }
            AnnotationValueV::Array(annotation_values_v(x@))
        },
        AnnotationValue::Object(x) => {
            proof {
                assert(decreases_to!(x => x@));
            }
            AnnotationValueV::Object(annotation_entries_v(x@))
        },
    }
}

/// The plain models of annotation values, in order.
pub open spec fn annotation_values_v(a: Seq<AnnotationValue>) -> Seq<AnnotationValueV>
    decreases a,
{
    if a.len() == 0 {
        Seq::empty()
    } else {
        annotation_values_v(a.drop_last()).push(annotation_value_v(a.last()))
    }
}

/// The plain models of annotation object entries, in order.
pub open spec fn annotation_entries_v(a: Seq<(String, AnnotationValue)>) -> Seq<(Seq<char>, AnnotationValueV)>
    decreases a,
{
    if a.len() == 0 {
        Seq::empty()
    } else {
        annotation_entries_v(a.drop_last()).push((a.last().0@, annotation_value_v(a.last().1)))
    }
}

/// The column annotation at `i`, and where it ends.
pub open spec fn annotation_at(s: Seq<char>, i: int) -> Option<(AnnotationValueV, int)> {
    if at(s, i, '@') {
        annotation_object_at(s, i + 1)
    } else {
        None
    }
}

/// Where the column annotation at `i` ends, if one is there.
pub open spec fn annotation_end(s: Seq<char>, i: int) -> Option<int> {
    match annotation_at(s, i) {
        Some((_, e)) => Some(e),
        None => None,
    }
}

/// `word` is written at `i`, and is not empty.
pub open spec fn word_written(s: Seq<char>, i: int, word: Seq<char>) -> bool {
    word.len() > 0 && starts_with(s, i, word)
}

/// The annotation value at `i`, and where it ends: an object, an array, `@true`, `@false` or
/// `@null`, a number (with its sign), a quoted string or a bare identifier (a string).
pub open spec fn annotation_value_at(s: Seq<char>, i: int) -> Option<(AnnotationValueV, int)>
    decreases s.len() - i, 2int,
{
    if !(0 <= i <= s.len()) {
        None
    } else if annotation_object_at(s, i) is Some {
        annotation_object_at(s, i)
    } else if at(s, i, '[') {
        let items = annotation_items(s, i + 1);
        if at(s, items.1, ']') {
            Some((AnnotationValueV::Array(items.0), items.1 + 1))
        } else {
            None
        }
    } else if at(s, i, '@') {
        if word_written(s, i + 1, "true"@) {
            Some((AnnotationValueV::Bool(true), i + 1 + "true"@.len()))
        } else if word_written(s, i + 1, "false"@) {
            Some((AnnotationValueV::Bool(false), i + 1 + "false"@.len()))
        } else if word_written(s, i + 1, "null"@) {
            Some((AnnotationValueV::Null, i + 1 + "null"@.len()))
        } else {
            None
        }
    } else if number_at(s, if at(s, i, '-') { i + 1 } else { i }) is Some {
        let e = number_at(s, if at(s, i, '-') { i + 1 } else { i }).unwrap();
        Some((AnnotationValueV::Number(s.subrange(i, e)), e))
    } else {
        match quoted_at(s, i, '\'') {
            Some((t, e)) => Some((AnnotationValueV::String(t), e)),
            None => match quoted_at(s, i, '"') {
                Some((t, e)) => Some((AnnotationValueV::String(t), e)),
                None => match ident_at(s, i) {
                    Some(e) => Some((AnnotationValueV::String(s.subrange(i, e)), e)),
                    None => None,
                },
            },
        }
    }
}

/// Where the annotation value at `i` ends, if one is there.
pub open spec fn annotation_value_end(s: Seq<char>, i: int) -> Option<int> {
    match annotation_value_at(s, i) {
        Some((_, e)) => Some(e),
        None => None,
    }
}

/// The padded array items that start at `cur`, and where they end (`cur` where none is there).
pub open spec fn annotation_items(s: Seq<char>, cur: int) -> (Seq<AnnotationValueV>, int)
    decreases s.len() - cur, 3int,
{
    let q = pad_end(s, cur);
    if 0 <= cur <= q <= s.len() {
        match annotation_value_at(s, q) {
            Some((v, e)) => {
                let n = pad_end(s, e);
                if cur < n <= s.len() {
                    let rest = annotation_items(s, n);
                    (seq![v] + rest.0, rest.1)
                } else {
                    (Seq::empty(), cur)
                }
            },
            None => (Seq::empty(), cur),
        }
    } else {
        (Seq::empty(), cur)
    }
}

/// The annotation object at `i`, and where it ends.
pub open spec fn annotation_object_at(s: Seq<char>, i: int) -> Option<(AnnotationValueV, int)>
    decreases s.len() - i, 1int,
{
    if 0 <= i <= s.len() && at(s, i, '{') {
        let entries = annotation_entries(s, i + 1);
        if at(s, entries.1, '}') {
            Some((AnnotationValueV::Object(entries.0), entries.1 + 1))
        } else {
            None
        }
    } else {
        None
    }
}

/// The key of an annotation entry at `q` (an identifier or a quoted string), and where it ends.
pub open spec fn annotation_key_at(s: Seq<char>, q: int) -> Option<(Seq<char>, int)> {
    match ident_at(s, q) {
        Some(e) => Some((s.subrange(q, e), e)),
        None => match quoted_at(s, q, '\'') {
            Some(x) => Some(x),
            None => quoted_at(s, q, '"'),
        },
    }
}

/// The padded `key:value` entries that start at `cur`, and where they end (`cur` where none is
/// there).
pub open spec fn annotation_entries(s: Seq<char>, cur: int) -> (Seq<(Seq<char>, AnnotationValueV)>, int)
    decreases s.len() - cur, 3int,
{
    let q = pad_end(s, cur);
    match annotation_key_at(s, q) {
        Some((key, e)) => {
            let q2 = pad_end(s, e);
            let q3 = pad_end(s, q2 + 1);
            if at(s, q2, ':') && 0 <= cur <= q3 <= s.len() {
                match annotation_value_at(s, q3) {
                    Some((v, e2)) => {
                        let n = pad_end(s, e2);
                        if cur < n <= s.len() {
                            let rest = annotation_entries(s, n);
                            (seq![(key, v)] + rest.0, rest.1)
                        } else {
                            (Seq::empty(), cur)
                        }
                    },
                    None => (Seq::empty(), cur),
                }
            } else {
                (Seq::empty(), cur)
            }
        },
        None => (Seq::empty(), cur),
    }
}

/// Pushing onto the front part of a concatenation is prepending to its back part.
proof fn lemma_push_front_part<T>(a: Seq<T>, x: T, b: Seq<T>)
    ensures
        a.push(x) + b == a + (seq![x] + b),
{
    assert(a.push(x) + b =~= a + (seq![x] + b));
}

/// A column annotation: an object introduced by `@`, e.g. `@{width:100}`. Inside, entries and
/// elements are separated by whitespace, strings may be bare identifiers, and `null`, `true` and
/// `false` are written `@null`, `@true` and `@false`.
pub(crate) fn annotation(s: &[char], i: usize) -> (r: Option<(AnnotationValue, usize)>)
    requires
        i <= s.len(),
    ensures
        r matches Some((v, e)) ==> annotation_at(s@, i as int) == Some((annotation_value_v(v), e as int))
            && i < e <= s.len() && v is Object,
        r is None ==> annotation_at(s@, i as int) is None,
{
    if !at_exec(s, i, '@') {
        return None;
    }
    annotation_object(s, i + 1)
}

/// Whether `word` is written at `i`.
fn word_at(s: &[char], i: usize, word: &str) -> (r: Option<usize>)
    requires
        i <= s.len(),
    ensures
        r is Some <==> word@.len() > 0 && starts_with(s@, i as int, word@),
        r matches Some(e) ==> e == i + word@.len() && i < e <= s.len(),
{
    let w = crate::strings::chars_of(word);
    if w.len() > 0 && starts_with_exec(s, i, w.as_slice()) {
        assert(i + w@.len() <= s.len());
        Some(i + w.len())
    } else {
        None
    }
}

/// Any annotation value: an object, an array, `@true`/`@false`/`@null`, a number, a quoted string
/// or a bare identifier (a string).
fn annotation_value(s: &[char], i: usize) -> (r: Option<(AnnotationValue, usize)>)
    requires
        i <= s.len(),
    ensures
        r matches Some((v, e)) ==> annotation_value_at(s@, i as int) == Some(
            (annotation_value_v(v), e as int),
        ) && i < e <= s.len(),
        r is None ==> annotation_value_at(s@, i as int) is None,
    decreases s.len() - i, 2int,
{
    match annotation_object(s, i) {
        Some(x) => {
            return Some(x);
        },
        None => {},
    }
    if at_exec(s, i, '[') {
        let mut items: Vec<AnnotationValue> = Vec::new();
        let mut cur = i + 1;
        proof {
            assert(annotation_values_v(items@) + annotation_items(s@, i + 1).0 =~= annotation_items(
                s@,
                i + 1,
            ).0);
        }
        loop
            invariant
                i < cur <= s.len(),
                annotation_items(s@, cur as int).1 == annotation_items(s@, i + 1).1,
                annotation_values_v(items@) + annotation_items(s@, cur as int).0 == annotation_items(
                    s@,
                    i + 1,
                ).0,
            ensures
                annotation_items(s@, cur as int) == (Seq::<AnnotationValueV>::empty(), cur as int),
            decreases s.len() - cur,
        {
            let q = pad(s, cur);
            match annotation_value(s, q) {
                Some((v, e)) => {
                    let ghost before = annotation_values_v(items@);
                    let ghost old_items = items@;
                    items.push(v);
                    proof {
                        assert(items@.drop_last() =~= old_items);
                    }
                    cur = pad(s, e);
                    proof {
                        lemma_push_front_part(before, annotation_value_v(v), annotation_items(s@, cur as int).0);
                    }
                },
                None => {
                    break;
                },
            }
        }
        proof {
            assert(annotation_values_v(items@) + Seq::<AnnotationValueV>::empty() =~= annotation_values_v(
                items@,
            ));
        }
        if at_exec(s, cur, ']') {
            return Some((AnnotationValue::Array(items), cur + 1));
        } else {
            return None;
        }
    }
    if at_exec(s, i, '@') {
        match word_at(s, i + 1, "true") {
            Some(e) => {
                return Some((AnnotationValue::Bool(true), e));
            },
            None => {},
        }
        match word_at(s, i + 1, "false") {
            Some(e) => {
                return Some((AnnotationValue::Bool(false), e));
            },
            None => {},
        }
        return match word_at(s, i + 1, "null") {
            Some(e) => Some((AnnotationValue::Null, e)),
            None => None,
        };
    }
    let digits_from = if at_exec(s, i, '-') {
        i + 1
    } else {
        i
    };
    match number(s, digits_from) {
        Some((_, e)) => {
            return Some((AnnotationValue::Number(crate::strings::string_from_range(s, i, e)), e));
        },
        None => {},
    }
    match quoted(s, i, '\'') {
        Some((t, e)) => {
            return Some((AnnotationValue::String(t), e));
        },
        None => {},
    }
    match quoted(s, i, '"') {
        Some((t, e)) => {
            return Some((AnnotationValue::String(t), e));
        },
        None => {},
    }
    match ident(s, i) {
        Some((w, e)) => Some((AnnotationValue::String(w), e)),
        None => None,
    }
}

/// An annotation object `{ key:value ... }`; a key is an identifier or a quoted string.
fn annotation_object(s: &[char], i: usize) -> (r: Option<(AnnotationValue, usize)>)
    requires
        i <= s.len(),
    ensures
        r matches Some((v, e)) ==> annotation_object_at(s@, i as int) == Some(
            (annotation_value_v(v), e as int),
        ) && i < e <= s.len() && v is Object,
        r is None ==> annotation_object_at(s@, i as int) is None,
    decreases s.len() - i, 1int,
{
    if !at_exec(s, i, '{') {
        return None;
    }
    let mut entries: Vec<(String, AnnotationValue)> = Vec::new();
    let mut cur = i + 1;
    proof {
        assert(annotation_entries_v(entries@) + annotation_entries(s@, i + 1).0 =~= annotation_entries(
            s@,
            i + 1,
        ).0);
    }
    loop
        invariant
            i < cur <= s.len(),
            annotation_entries(s@, cur as int).1 == annotation_entries(s@, i + 1).1,
            annotation_entries_v(entries@) + annotation_entries(s@, cur as int).0 == annotation_entries(
                s@,
                i + 1,
            ).0,
        ensures
            annotation_entries(s@, cur as int) == (Seq::<(Seq<char>, AnnotationValueV)>::empty(), cur as int),
        decreases s.len() - cur,
    {
        let q = pad(s, cur);
        let key = match ident(s, q) {
            Some(k) => Some(k),
            None => match quoted(s, q, '\'') {
                Some(k) => Some(k),
                None => quoted(s, q, '"'),
            },
        };
        let (key, e) = match key {
            Some(k) => k,
            None => {
                break;
            },
        };
        let q2 = pad(s, e);
        if !at_exec(s, q2, ':') {
            break;
        }
        let q3 = pad(s, q2 + 1);
        match annotation_value(s, q3) {
            Some((v, e2)) => {
                let ghost before = annotation_entries_v(entries@);
                let ghost old_entries = entries@;
                let ghost item = (key@, annotation_value_v(v));
                entries.push((key, v));
                proof {
                    assert(entries@.drop_last() =~= old_entries);
                }
                cur = pad(s, e2);
                proof {
                    lemma_push_front_part(before, item, annotation_entries(s@, cur as int).0);
                }
            },
            None => {
                break;
            },
        }
    }
    proof {
        assert(annotation_entries_v(entries@) + Seq::<(Seq<char>, AnnotationValueV)>::empty()
            =~= annotation_entries_v(entries@));
    }
    if at_exec(s, cur, '}') {
        Some((AnnotationValue::Object(entries), cur + 1))
    } else {
        None
    }
}

// ---------------------------------------------------------------------------------------------
// Result columns
// ---------------------------------------------------------------------------------------------

/// A result column statement can be put under a nesting group's head: a glob always can, a
/// column spec only where its expression begins with a column reference.
pub open spec fn can_take_head(st: ResultColumnStatement) -> bool {
    match st {
        ResultColumnStatement::Glob(_) => true,
        ResultColumnStatement::Spec(spec) => has_leading_column(spec.expr),
    }
}

/// A statement put under a nesting group's head: in front of a glob's own head, or onto the leading
/// column reference of a spec's expression.
pub open spec fn prefix_statement_v(head: Seq<PathPartV>, st: ResultColumnStatementV) -> ResultColumnStatementV {
    match st {
        ResultColumnStatementV::Spec(c) => ResultColumnStatementV::Spec(
            ColumnSpecV {
                expr: prefix_v(head, c.expr),
                alias: c.alias,
                column_control: c.column_control,
                annotation: c.annotation,
            },
        ),
        ResultColumnStatementV::Glob(g) => ResultColumnStatementV::Glob(
            ColumnGlobV { head: head + g.head, specs: g.specs },
        ),
    }
}

/// Each statement of `v` put under a nesting group's head.
pub open spec fn prefix_statements_v(head: Seq<PathPartV>, v: Seq<ResultColumnStatementV>) -> Seq<
    ResultColumnStatementV,
> {
    v.map_values(|st: ResultColumnStatementV| prefix_statement_v(head, st))
}

/// The statements that the `$` statement at `i` gives, where [`statement_end`] finds one.
pub open spec fn statement_value(s: Seq<char>, i: int) -> Seq<ResultColumnStatementV>
    decreases s.len() - i, 2int,
{
    let q = pad_end(s, i + 1);
    if 0 <= i < q <= s.len() {
        if nested_statements_end(s, q) is Some {
            nested_statements_value(s, q)
        } else if column_glob_end(s, q) is Some {
            seq![ResultColumnStatementV::Glob(column_glob_value(s, q))]
        } else {
            match column_spec_at(s, q) {
                Some((c, _)) => seq![ResultColumnStatementV::Spec(c)],
                None => Seq::empty(),
            }
        }
    } else {
        Seq::empty()
    }
}

/// The statements that the nesting group at `i` gives, where [`nested_statements_end`] finds one:
/// the statements of its entries, each put under its head.
pub open spec fn nested_statements_value(s: Seq<char>, i: int) -> Seq<ResultColumnStatementV>
    decreases s.len() - i, 1int,
{
    if 0 <= i <= s.len() {
        match path_at(s, i, false) {
            Some((head, e)) => {
                let q = pad_end(s, e);
                let cur0 = pad_end(s, q + 2);
                if i < cur0 <= s.len() {
                    prefix_statements_v(head, statement_values(s, cur0))
                } else {
                    Seq::empty()
                }
            },
            None => Seq::empty(),
        }
    } else {
        Seq::empty()
    }
}

/// The statements that the padded `$` statements starting at `cur` give, in order.
pub open spec fn statement_values(s: Seq<char>, cur: int) -> Seq<ResultColumnStatementV>
    decreases s.len() - cur, 3int,
{
    if 0 <= cur <= s.len() {
        match statement_end(s, cur) {
            Some((e, _)) => if cur < pad_end(s, e) <= s.len() {
                statement_value(s, cur) + statement_values(s, pad_end(s, e))
            } else {
                Seq::empty()
            },
            None => Seq::empty(),
        }
    } else {
        Seq::empty()
    }
}

/// Every statement of `v` can be put under a nesting group's head.
pub open spec fn all_take_head(v: Seq<ResultColumnStatement>) -> bool {
    forall|k: int| 0 <= k < v.len() ==> can_take_head(#[trigger] v[k])
}

/// A sort expression put under a nesting group's head, onto its leading column reference.
pub open spec fn prefix_sort_v(head: Seq<PathPartV>, x: SortExprV) -> SortExprV {
    SortExprV { expr: prefix_v(head, x.expr), direction: x.direction, nulls_sort: x.nulls_sort }
}

/// Each sort expression of `v` put under a nesting group's head.
pub open spec fn prefix_sorts_v(head: Seq<PathPartV>, v: Seq<SortExprV>) -> Seq<SortExprV> {
    v.map_values(|x: SortExprV| prefix_sort_v(head, x))
}

/// The sort expressions that the `\\` statement at `i` gives, where [`sort_statement_end`] finds
/// one.
pub open spec fn sort_statement_value(s: Seq<char>, i: int) -> Seq<SortExprV>
    decreases s.len() - i, 2int,
{
    let q = pad_end(s, i + 2);
    if 0 <= i < q <= s.len() {
        if nested_sort_end(s, q) is Some {
            nested_sort_value(s, q)
        } else {
            match sort_expr_tail_at(s, q, false) {
                Some((x, _)) => seq![x],
                None => Seq::empty(),
            }
        }
    } else {
        Seq::empty()
    }
}

/// The sort expressions that the sorting nesting group at `i` gives, where [`nested_sort_end`]
/// finds one: those of its entries, each put under its head.
pub open spec fn nested_sort_value(s: Seq<char>, i: int) -> Seq<SortExprV>
    decreases s.len() - i, 1int,
{
    if 0 <= i <= s.len() {
        match path_at(s, i, false) {
            Some((head, e)) => {
                let q = pad_end(s, e);
                let cur0 = pad_end(s, q + 2);
                if i < cur0 <= s.len() {
                    prefix_sorts_v(head, sort_values(s, cur0))
                } else {
                    Seq::empty()
                }
            },
            None => Seq::empty(),
        }
    } else {
        Seq::empty()
    }
}

/// The sort expressions that the padded `\\` statements starting at `cur` give, in order.
pub open spec fn sort_values(s: Seq<char>, cur: int) -> Seq<SortExprV>
    decreases s.len() - cur, 3int,
{
    if 0 <= cur <= s.len() {
        match sort_statement_end(s, cur) {
            Some((e, _)) => if cur < pad_end(s, e) <= s.len() {
                sort_statement_value(s, cur) + sort_values(s, pad_end(s, e))
            } else {
                Seq::empty()
            },
            None => Seq::empty(),
        }
    } else {
        Seq::empty()
    }
}

/// Every sort expression of `v` begins with a column reference.
pub open spec fn all_sorts_lead(v: Seq<SortExpr>) -> bool {
    forall|k: int| 0 <= k < v.len() ==> has_leading_column(#[trigger] v[k].expr)
}

/// Where the padded result column statements that start at `cur` end, and whether every
/// statement that they give can be put under a nesting group's head.
pub open spec fn statement_items(s: Seq<char>, cur: int) -> (int, bool)
    decreases s.len() - cur, 3int,
{
    if 0 <= cur <= s.len() {
        match statement_end(s, cur) {
            Some((e, ok)) => if cur < pad_end(s, e) <= s.len() {
                let rest = statement_items(s, pad_end(s, e));
                (rest.0, ok && rest.1)
            } else {
                (cur, true)
            },
            None => (cur, true),
        }
    } else {
        (cur, true)
    }
}

/// Where the `$` statement at `i` ends, if one is there, and whether every statement that it gives
/// can be put under a nesting group's head.
pub open spec fn statement_end(s: Seq<char>, i: int) -> Option<(int, bool)>
    decreases s.len() - i, 2int,
{
    let q = pad_end(s, i + 1);
    if 0 <= i < q <= s.len() && at(s, i, '$') {
        match nested_statements_end(s, q) {
            Some(e) => Some((e, true)),
            None => match column_glob_end(s, q) {
                Some(e) => Some((e, true)),
                None => match column_spec_end(s, q) {
                    Some(e) => Some((e, expr_leads(s, q, false))),
                    None => None,
                },
            },
        }
    } else {
        None
    }
}

/// Where the result column nesting group at `i` ends, if one is there: each of its entries must
/// be able to take the head.
pub open spec fn nested_statements_end(s: Seq<char>, i: int) -> Option<int>
    decreases s.len() - i, 1int,
{
    if 0 <= i <= s.len() {
        match path_end(s, i, false) {
            Some(e) => {
                let q = pad_end(s, e);
                let cur0 = pad_end(s, q + 2);
                if at2(s, q, '.', '(') && i < cur0 <= s.len() {
                    let items = statement_items(s, cur0);
                    if at(s, items.0, ')') && items.1 {
                        Some(items.0 + 1)
                    } else {
                        None
                    }
                } else {
                    None
                }
            },
            None => None,
        }
    } else {
        None
    }
}

proof fn lemma_all_take_head_append(a: Seq<ResultColumnStatement>, b: Seq<ResultColumnStatement>)
    ensures
        all_take_head(a + b) == (all_take_head(a) && all_take_head(b)),
{
    if all_take_head(a) && all_take_head(b) {
        assert forall|k: int| 0 <= k < (a + b).len() implies can_take_head(#[trigger] (a + b)[k]) by {
            if k >= a.len() {
                assert((a + b)[k] == b[k - a.len()]);
            }
        }
    }
    if all_take_head(a + b) {
        assert forall|k: int| 0 <= k < a.len() implies can_take_head(#[trigger] a[k]) by {
            assert((a + b)[k] == a[k]);
        }
        assert forall|k: int| 0 <= k < b.len() implies can_take_head(#[trigger] b[k]) by {
            assert((a + b)[a.len() + k] == b[k]);
        }
    }
}

proof fn lemma_all_take_head_first(v: Seq<ResultColumnStatement>)
    requires
        v.len() > 0,
    ensures
        all_take_head(v) == (can_take_head(v[0]) && all_take_head(v.subrange(1, v.len() as int))),
{
    lemma_all_take_head_append(seq![v[0]], v.subrange(1, v.len() as int));
    assert(seq![v[0]] + v.subrange(1, v.len() as int) =~= v);
}

proof fn lemma_all_sorts_lead_append(a: Seq<SortExpr>, b: Seq<SortExpr>)
    ensures
        all_sorts_lead(a + b) == (all_sorts_lead(a) && all_sorts_lead(b)),
{
    if all_sorts_lead(a) && all_sorts_lead(b) {
        assert forall|k: int| 0 <= k < (a + b).len() implies has_leading_column(#[trigger] (a + b)[k].expr) by {
            if k >= a.len() {
                assert((a + b)[k] == b[k - a.len()]);
            }
        }
    }
    if all_sorts_lead(a + b) {
        assert forall|k: int| 0 <= k < a.len() implies has_leading_column(#[trigger] a[k].expr) by {
            assert((a + b)[k] == a[k]);
        }
        assert forall|k: int| 0 <= k < b.len() implies has_leading_column(#[trigger] b[k].expr) by {
            assert((a + b)[a.len() + k] == b[k]);
        }
    }
}

proof fn lemma_all_sorts_lead_first(v: Seq<SortExpr>)
    requires
        v.len() > 0,
    ensures
        all_sorts_lead(v) == (has_leading_column(v[0].expr) && all_sorts_lead(v.subrange(1, v.len() as int))),
{
    lemma_all_sorts_lead_append(seq![v[0]], v.subrange(1, v.len() as int));
    assert(seq![v[0]] + v.subrange(1, v.len() as int) =~= v);
}

/// The `$`-prefixed result column statements, each followed by padding. A nesting group yields one
/// statement per nested entry.
#[verifier::spinoff_prover]
#[verifier::rlimit(60)]
pub(crate) fn result_columns(s: &[char], i: usize) -> (r: (Vec<ResultColumnStatement>, usize))
    requires
        i <= s.len(),
    ensures
        vec_result_column_statement_v(r.0@) == statement_values(s@, i as int),
        r.1 == statement_items(s@, i as int).0,
        i <= r.1 <= s.len(),
    decreases s.len() - i, 3int,
{
    let mut all: Vec<ResultColumnStatement> = Vec::new();
    let mut cur = i;
    proof {
        assert(vec_result_column_statement_v(all@) + statement_values(s@, i as int) =~= statement_values(
            s@,
            i as int,
        ));
    }
    loop
        invariant
            i <= cur <= s.len(),
            statement_items(s@, i as int).0 == statement_items(s@, cur as int).0,
            vec_result_column_statement_v(all@) + statement_values(s@, cur as int) == statement_values(
                s@,
                i as int,
            ),
        ensures
            statement_items(s@, cur as int).0 == cur,
            statement_values(s@, cur as int) == Seq::<ResultColumnStatementV>::empty(),
        decreases s.len() - cur,
    {
        match result_column_statement(s, cur) {
            Some((mut group, e)) => {
                let ghost a0 = all@;
                let ghost g0 = group@;
                all.append(&mut group);
                cur = pad(s, e);
                proof {
                    lemma_vec_result_column_statement_v_append(a0, g0);
                    assert(all@ =~= a0 + g0);
                    let t = statement_values(s@, cur as int);
                    assert(vec_result_column_statement_v(a0) + vec_result_column_statement_v(g0) + t
                        =~= vec_result_column_statement_v(a0) + (vec_result_column_statement_v(g0) + t));
                }
            },
            None => {
                break;
            },
        }
    }
    proof {
        assert(vec_result_column_statement_v(all@) + Seq::<ResultColumnStatementV>::empty()
            =~= vec_result_column_statement_v(all@));
    }
    (all, cur)
}

/// One `$`-prefixed statement: a nesting group, a glob or a column spec.
#[verifier::spinoff_prover]
#[verifier::rlimit(50)]
fn result_column_statement(s: &[char], i: usize) -> (r: Option<(Vec<ResultColumnStatement>, usize)>)
    requires
        i <= s.len(),
    ensures
        r matches Some((v, _)) ==> vec_result_column_statement_v(v@) == statement_value(s@, i as int),
        r matches Some((v, e)) ==> statement_end(s@, i as int) == Some((e as int, all_take_head(v@))),
        r is None ==> statement_end(s@, i as int) is None,
        r matches Some((_, e)) ==> i < e <= s.len(),
    decreases s.len() - i, 2int,
{
    if !at_exec(s, i, '$') {
        return None;
    }
    let q = pad(s, i + 1);
    match nested_result_columns(s, q) {
        Some(x) => {
            return Some(x);
        },
        None => {},
    }
    match column_glob(s, q) {
        Some((glob, e)) => {
            let mut v = Vec::new();
            v.push(ResultColumnStatement::Glob(glob));
            proof {
                lemma_vec_result_column_statement_v(v@);
                assert(vec_result_column_statement_v(v@) =~= seq![
                    ResultColumnStatementV::Glob(column_glob_v(glob)),
                ]);
                lemma_all_take_head_first(v@);
                assert(v@.subrange(1, 1) =~= Seq::<ResultColumnStatement>::empty());
            }
            return Some((v, e));
        },
        None => {},
    }
    match column_spec(s, q) {
        Some((spec, e)) => {
            let mut v = Vec::new();
            v.push(ResultColumnStatement::Spec(spec));
            proof {
                lemma_vec_result_column_statement_v(v@);
                assert(vec_result_column_statement_v(v@) =~= seq![
                    ResultColumnStatementV::Spec(column_spec_v(spec)),
                ]);
                lemma_all_take_head_first(v@);
                assert(v@.subrange(1, 1) =~= Seq::<ResultColumnStatement>::empty());
            }
            Some((v, e))
        },
        None => None,
    }
}

/// A nesting group `head.( $entry ... )`, desugared into flat statements by applying the head to
/// each entry. It does not match when an entry cannot take the head.
#[verifier::spinoff_prover]
#[verifier::rlimit(60)]
fn nested_result_columns(s: &[char], i: usize) -> (r: Option<(Vec<ResultColumnStatement>, usize)>)
    requires
        i <= s.len(),
    ensures
        r matches Some((v, _)) ==> vec_result_column_statement_v(v@) == nested_statements_value(s@, i as int),
        r matches Some((v, e)) ==> nested_statements_end(s@, i as int) == Some(e as int) && all_take_head(v@),
        r is None ==> nested_statements_end(s@, i as int) is None,
        r matches Some((_, e)) ==> i < e <= s.len(),
    decreases s.len() - i, 1int,
{
    let (head, e) = match path(s, i, false) {
        Some(x) => x,
        None => return None,
    };
    let q = pad(s, e);
    if !at2_exec(s, q, '.', '(') {
        return None;
    }
    let mut entries: Vec<ResultColumnStatement> = Vec::new();
    let mut cur = pad(s, q + 2);
    let ghost cur0 = cur;
    proof {
        assert(vec_result_column_statement_v(entries@) + statement_values(s@, cur0 as int) =~= statement_values(
            s@,
            cur0 as int,
        ));
    }
    loop
        invariant
            i < cur0 <= cur <= s.len(),
            statement_items(s@, cur0 as int).0 == statement_items(s@, cur as int).0,
            statement_items(s@, cur0 as int).1 == (all_take_head(entries@) && statement_items(s@, cur as int).1),
            vec_result_column_statement_v(entries@) + statement_values(s@, cur as int) == statement_values(
                s@,
                cur0 as int,
            ),
        ensures
            statement_items(s@, cur as int) == (cur as int, true),
            statement_values(s@, cur as int) == Seq::<ResultColumnStatementV>::empty(),
        decreases s.len() - cur,
    {
        match result_column_statement(s, cur) {
            Some((mut group, e2)) => {
                proof {
                    lemma_all_take_head_append(entries@, group@);
                }
                let ghost a0 = entries@;
                let ghost g0 = group@;
                entries.append(&mut group);
                cur = pad(s, e2);
                proof {
                    lemma_vec_result_column_statement_v_append(a0, g0);
                    assert(entries@ =~= a0 + g0);
                    let t = statement_values(s@, cur as int);
                    assert(vec_result_column_statement_v(a0) + vec_result_column_statement_v(g0) + t
                        =~= vec_result_column_statement_v(a0) + (vec_result_column_statement_v(g0) + t));
                }
            },
            None => {
                break;
            },
        }
    }
    if !at_exec(s, cur, ')') {
        return None;
    }
    proof {
        assert(vec_result_column_statement_v(entries@) + Seq::<ResultColumnStatementV>::empty()
            =~= vec_result_column_statement_v(entries@));
    }
    let ghost hv = vec_path_part_v(head@);
    let mut out: Vec<ResultColumnStatement> = Vec::new();
    let ghost all = entries@;
    proof {
        assert(vec_result_column_statement_v(out@) + prefix_statements_v(hv, vec_result_column_statement_v(all))
            =~= prefix_statements_v(hv, vec_result_column_statement_v(all)));
    }
    let ghost expected = nested_statements_end(s@, i as int);
    assert(expected == if all_take_head(all) {
        Some(cur + 1)
    } else {
        None::<int>
    });
    let mut rest = entries;
    while rest.len() > 0
        invariant
            all_take_head(all) == all_take_head(rest@),
            all_take_head(out@),
            expected == nested_statements_end(s@, i as int),
            expected == if all_take_head(all) {
                Some(cur + 1)
            } else {
                None::<int>
            },
            cur < s.len(),
            hv == vec_path_part_v(head@),
            vec_result_column_statement_v(out@) + prefix_statements_v(hv, vec_result_column_statement_v(rest@))
                == prefix_statements_v(hv, vec_result_column_statement_v(all)),
        decreases rest@.len(),
    {
        proof {
            lemma_all_take_head_first(rest@);
        }
        let ghost r0 = rest@;
        let statement = rest.remove(0);
        proof {
            assert(r0 =~= seq![statement] + rest@);
            lemma_vec_result_column_statement_v_append(seq![statement], rest@);
            lemma_vec_result_column_statement_v(seq![statement]);
            assert(vec_result_column_statement_v(seq![statement]) =~= seq![result_column_statement_v(statement)]);
            assert(prefix_statements_v(hv, seq![result_column_statement_v(statement)] + vec_result_column_statement_v(rest@))
                =~= seq![prefix_statement_v(hv, result_column_statement_v(statement))] + prefix_statements_v(
                hv,
                vec_result_column_statement_v(rest@),
            ));
        }
        match apply_path_prefix(head.as_slice(), statement) {
            Ok(x) => {
                proof {
                    lemma_all_take_head_append(out@, seq![x]);
                    lemma_vec_result_column_statement_v_push(out@, x);
                    lemma_push_assoc(
                        vec_result_column_statement_v(out@),
                        result_column_statement_v(x),
                        prefix_statements_v(hv, vec_result_column_statement_v(rest@)),
                    );
                }
                out.push(x);
            },
            Err(_) => {
                return None;
            },
        }
    }
    proof {
        assert(prefix_statements_v(hv, vec_result_column_statement_v(rest@)) =~= Seq::<ResultColumnStatementV>::empty());
        assert(vec_result_column_statement_v(out@) + Seq::<ResultColumnStatementV>::empty() =~= vec_result_column_statement_v(out@));
    }
    Some((out, cur + 1))
}

/// Applies a nesting group's head to one statement within it: it goes in front of a glob's own
/// head, or onto the leading column reference of a spec's expression.
pub(crate) fn apply_path_prefix(head: &[PathPart], statement: ResultColumnStatement) -> (r: Result<
    ResultColumnStatement,
    String,
>)
    ensures
        r matches Ok(x) ==> result_column_statement_v(x) == prefix_statement_v(
            vec_path_part_v(head@),
            result_column_statement_v(statement),
        ),
        r matches Ok(x) ==> can_take_head(x),
        statement matches ResultColumnStatement::Glob(_) ==> r is Ok,
        statement matches ResultColumnStatement::Spec(spec) ==> (r is Ok
            <==> crate::nesting::has_leading_column(spec.expr)),
        match statement {
            ResultColumnStatement::Spec(spec) => r is Ok ==> (r->Ok_0 matches ResultColumnStatement::Spec(x)
                && prefixes(head@, spec.expr, x.expr) && x.alias == spec.alias && x.column_control
                == spec.column_control && x.annotation == spec.annotation),
            ResultColumnStatement::Glob(g) => r matches Ok(ResultColumnStatement::Glob(h))
                && prefixed_parts(head@, g.head@, h.head@) && h.specs == g.specs,
        },
{
    match statement {
        ResultColumnStatement::Spec(spec) => {
            let ColumnSpec { expr, alias, column_control, annotation } = spec;
            let ghost original = expr;
            match prefix_leading_path(head, expr) {
                Ok(expr) => {
                    proof {
                        lemma_prefixed_has_leading_column(head@, original, expr);
                        lemma_prefixes_v(head@, original, expr);
                        let before = ColumnSpec { expr: original, alias, column_control, annotation };
                        let after = ColumnSpec { expr, alias, column_control, annotation };
                        assert(column_spec_v(before) == ColumnSpecV {
                            expr: expr_v(original),
                            alias: opt_string_v(alias),
                            column_control,
                            annotation: opt_annotation_v(annotation),
                        });
                        assert(column_spec_v(after) == ColumnSpecV {
                            expr: expr_v(expr),
                            alias: opt_string_v(alias),
                            column_control,
                            annotation: opt_annotation_v(annotation),
                        });
                    }
                    Ok(
                    ResultColumnStatement::Spec(ColumnSpec { expr, alias, column_control, annotation }),
                    )
                },
                Err(e) => Err(e),
            }
        },
        ResultColumnStatement::Glob(glob) => {
            let mut new_head: Vec<PathPart> = Vec::new();
            let mut k: usize = 0;
            while k < head.len()
                invariant
                    k <= head@.len(),
                    new_head@.len() == k,
                    forall|j: int| 0 <= j < k ==> cloned(head@[j], #[trigger] new_head@[j]),
                decreases head.len() - k,
            {
                new_head.push(head[k].clone());
                k = k + 1;
            }
            let ghost own_parts = glob.head@;
            let mut own = glob.head;
            new_head.append(&mut own);
            proof {
                assert(new_head@.skip(head@.len() as int) =~= own_parts);
                assert(new_head@.len() == head@.len() + own_parts.len());
                assert forall|j: int| 0 <= j < head@.len() implies cloned(head@[j], #[trigger] new_head@[j]) by {
                    assert(new_head@[j] == (new_head@.subrange(0, head@.len() as int))[j]);
                }
            }
            let g = ColumnGlob { head: new_head, specs: glob.specs };
            proof {
                lemma_prefixed_parts_v(head@, own_parts, g.head@);
                assert(column_glob_v(g) == ColumnGlobV { head: vec_path_part_v(g.head@), specs: vec_column_spec_v(g.specs@) });
                assert(column_glob_v(glob) == ColumnGlobV { head: vec_path_part_v(own_parts), specs: vec_column_spec_v(glob.specs@) });
            }
            Ok(ResultColumnStatement::Glob(g))
        },
    }
}

/// A path part reaching one record at `i`: whether it is a `>>table` (rather than a column), its
/// name, and its end.
pub open spec fn part_to_one_at(s: Seq<char>, i: int) -> Option<(bool, Seq<char>, int)> {
    match db_identifier_at(s, i) {
        Some((name, e)) => Some((false, name, e)),
        None => if at2(s, i, '>', '>') {
            match db_identifier_at(s, i + 2) {
                Some((name, e)) => Some((true, name, e)),
                None => None,
            }
        } else {
            None
        },
    }
}

/// `p` is the `>>table` named `name` where `to_table`, else the column named `name`.
pub open spec fn is_part_to_one(p: PathPart, to_table: bool, name: Seq<char>) -> bool {
    if to_table {
        p matches PathPart::TableWithOne(t) && t@ == name
    } else {
        p matches PathPart::Column(c) && c@ == name
    }
}

/// A path part reaching one record: a column or `>>table`.
fn path_part_to_one(s: &[char], i: usize) -> (r: Option<(PathPart, usize)>)
    requires
        i <= s.len(),
    ensures
        r is Some <==> part_to_one_at(s@, i as int) is Some,
        r matches Some((p, e)) ==> part_to_one_at(s@, i as int) matches Some((t, n, e2)) && e2
            == e && is_part_to_one(p, t, n) && i < e <= s.len(),
{
    match db_identifier(s, i) {
        Some((name, e)) => {
            return Some((PathPart::Column(name), e));
        },
        None => {},
    }
    if at2_exec(s, i, '>', '>') {
        match db_identifier(s, i + 2) {
            Some((name, e)) => Some((PathPart::TableWithOne(name), e)),
            None => None,
        }
    } else {
        None
    }
}

/// The end of the run of whitespace characters (not comments) starting at `i`.
fn whitespace_end(s: &[char], i: usize) -> (r: usize)
    requires
        i <= s.len(),
    ensures
        r == ws_end(s@, i as int),
        i <= r <= s.len(),
{
    let mut j = i;
    while j < s.len() && crate::lex::is_ws_exec(s[j])
        invariant
            i <= j <= s.len(),
            ws_end(s@, i as int) == ws_end(s@, j as int),
        decreases s.len() - j,
    {
        j = j + 1;
    }
    j
}

/// The path parts reaching one record that follow position `cur`, each after whitespace and a
/// `.`, as described by [`part_to_one_at`], with the end of the last one (`cur` where none
/// follows).
pub open spec fn more_parts_to_one(s: Seq<char>, cur: int) -> (Seq<(bool, Seq<char>)>, int)
    decreases s.len() - cur,
{
    let q = ws_end(s, cur);
    if at(s, q, '.') {
        match part_to_one_at(s, q + 1) {
            Some((t, n, e)) => if cur < e <= s.len() {
                let rest = more_parts_to_one(s, e);
                (seq![(t, n)] + rest.0, rest.1)
            } else {
                (Seq::empty(), cur)
            },
            None => (Seq::empty(), cur),
        }
    } else {
        (Seq::empty(), cur)
    }
}

/// Each of `ps` is the part that `d` describes at its position.
pub open spec fn describes_parts_to_one(ps: Seq<PathPart>, d: Seq<(bool, Seq<char>)>) -> bool {
    &&& ps.len() == d.len()
    &&& forall|k: int| 0 <= k < ps.len() ==> is_part_to_one(#[trigger] ps[k], d[k].0, d[k].1)
}

/// A path of parts reaching one record, separated by `.` (with whitespace allowed before it).
pub(crate) fn path_to_one(s: &[char], i: usize) -> (r: Option<(Vec<PathPart>, usize)>)
    requires
        i <= s.len(),
    ensures
        r is Some <==> part_to_one_at(s@, i as int) is Some,
        r matches Some((ps, e)) ==> part_to_one_at(s@, i as int) matches Some((t, n, e0))
            && describes_parts_to_one(ps@, seq![(t, n)] + more_parts_to_one(s@, e0).0) && e
            == more_parts_to_one(s@, e0).1 && i < e <= s.len() && ps@.len() >= 1,
{
    let (first, e0) = match path_part_to_one(s, i) {
        Some(x) => x,
        None => return None,
    };
    let ghost head = match part_to_one_at(s@, i as int) {
        Some((t, n, _)) => seq![(t, n)],
        None => Seq::empty(),
    };
    let ghost done = head;
    let mut parts: Vec<PathPart> = Vec::new();
    parts.push(first);
    let mut cur = e0;
    proof {
        assert(describes_parts_to_one(parts@, done));
    }
    loop
        invariant
            i < e0 <= cur <= s.len(),
            parts@.len() >= 1,
            describes_parts_to_one(parts@, done),
            done + more_parts_to_one(s@, cur as int).0 == head + more_parts_to_one(s@, e0 as int).0,
            more_parts_to_one(s@, cur as int).1 == more_parts_to_one(s@, e0 as int).1,
        ensures
            more_parts_to_one(s@, cur as int) == (Seq::<(bool, Seq<char>)>::empty(), cur as int),
        decreases s.len() - cur,
    {
        let q = whitespace_end(s, cur);
        if !at_exec(s, q, '.') {
            break;
        }
        match path_part_to_one(s, q + 1) {
            Some((part, e)) => {
                let ghost d = match part_to_one_at(s@, q + 1) {
                    Some((t, n, _)) => (t, n),
                    None => (false, Seq::empty()),
                };
                proof {
                    let rest = more_parts_to_one(s@, e as int);
                    assert(more_parts_to_one(s@, cur as int).0 == seq![d] + rest.0);
                    assert(done + (seq![d] + rest.0) =~= done.push(d) + rest.0);
                }
                parts.push(part);
                proof {
                    done = done.push(d);
                    assert(describes_parts_to_one(parts@, done));
                }
                cur = e;
            },
            None => {
                break;
            },
        }
    }
    proof {
        assert(done + Seq::<(bool, Seq<char>)>::empty() =~= done);
    }
    Some((parts, cur))
}

/// The plain model of a path part reaching one record, as [`part_to_one_at`] describes it.
pub open spec fn part_to_one_v(to_table: bool, name: Seq<char>) -> PathPartV {
    if to_table {
        PathPartV::TableWithOne(name)
    } else {
        PathPartV::Column(name)
    }
}

/// The plain models of the path parts that `d` describes.
pub open spec fn parts_to_one_v(d: Seq<(bool, Seq<char>)>) -> Seq<PathPartV> {
    d.map_values(|x: (bool, Seq<char>)| part_to_one_v(x.0, x.1))
}

proof fn lemma_describes_parts_v(ps: Seq<PathPart>, d: Seq<(bool, Seq<char>)>)
    requires
        describes_parts_to_one(ps, d),
    ensures
        vec_path_part_v(ps) == parts_to_one_v(d),
{
    lemma_vec_path_part_v(ps);
    assert forall|k: int| 0 <= k < ps.len() implies #[trigger] vec_path_part_v(ps)[k] == parts_to_one_v(d)[k] by {
        assert(is_part_to_one(ps[k], d[k].0, d[k].1));
    }
    assert(vec_path_part_v(ps) =~= parts_to_one_v(d));
}

/// The padded column specs that start at `cur`, and where they end.
pub open spec fn column_spec_values(s: Seq<char>, cur: int) -> (Seq<ColumnSpecV>, int)
    decreases s.len() - cur,
{
    let q = pad_end(s, cur);
    if 0 <= cur <= q <= s.len() {
        match column_spec_at(s, q) {
            Some((c, e)) => if cur < pad_end(s, e) <= s.len() {
                let rest = column_spec_values(s, pad_end(s, e));
                (seq![c] + rest.0, rest.1)
            } else {
                (Seq::empty(), cur)
            },
            None => (Seq::empty(), cur),
        }
    } else {
        (Seq::empty(), cur)
    }
}

/// The column glob at `i`, where [`column_glob_end`] finds one: its head and its adjusted specs.
pub open spec fn column_glob_value(s: Seq<char>, i: int) -> ColumnGlobV {
    let head = match part_to_one_at(s, i) {
        Some((t, n, e0)) => if at(s, more_parts_to_one(s, e0).1, '.') {
            parts_to_one_v(seq![(t, n)] + more_parts_to_one(s, e0).0)
        } else {
            Seq::empty()
        },
        None => Seq::empty(),
    };
    let star = match part_to_one_at(s, i) {
        Some((_, _, e0)) => if at(s, more_parts_to_one(s, e0).1, '.') {
            more_parts_to_one(s, e0).1 + 1
        } else {
            i
        },
        None => i,
    };
    let after = star + 1;
    let specs = if at(s, after, '(') && at(s, column_spec_values(s, after + 1).1, ')') {
        column_spec_values(s, after + 1).0
    } else {
        Seq::empty()
    };
    ColumnGlobV { head, specs }
}

/// Where the column glob at `i` ends, if one is there.
pub open spec fn column_glob_end(s: Seq<char>, i: int) -> Option<int> {
    let star = match part_to_one_at(s, i) {
        Some((_, _, e0)) => if at(s, more_parts_to_one(s, e0).1, '.') {
            more_parts_to_one(s, e0).1 + 1
        } else {
            i
        },
        None => i,
    };
    if at(s, star, '*') {
        let after = star + 1;
        if at(s, after, '(') && at(s, column_spec_items(s, after + 1), ')') {
            Some(column_spec_items(s, after + 1) + 1)
        } else {
            Some(after)
        }
    } else {
        None
    }
}

/// Where the padded column specs that start at `cur` end (`cur` where none is there).
pub open spec fn column_spec_items(s: Seq<char>, cur: int) -> int
    decreases s.len() - cur,
{
    let q = pad_end(s, cur);
    if 0 <= cur <= q <= s.len() {
        match column_spec_end(s, q) {
            Some(e) => if cur < pad_end(s, e) <= s.len() {
                column_spec_items(s, pad_end(s, e))
            } else {
                cur
            },
            None => cur,
        }
    } else {
        cur
    }
}

/// A glob `head.*` (the head is optional), with optional adjustments `( spec ... )`.
fn column_glob(s: &[char], i: usize) -> (r: Option<(ColumnGlob, usize)>)
    requires
        i <= s.len(),
    ensures
        r matches Some((g, _)) ==> column_glob_v(g) == column_glob_value(s@, i as int),
        r matches Some((_, e)) ==> column_glob_end(s@, i as int) == Some(e as int),
        r is None ==> column_glob_end(s@, i as int) is None,
        r matches Some((_, e)) ==> i < e <= s.len(),
{
    let (head, star) = match path_to_one(s, i) {
        Some((ps, e)) => if at_exec(s, e, '.') {
            proof {
                let (t, n, e0) = part_to_one_at(s@, i as int).unwrap();
                lemma_describes_parts_v(ps@, seq![(t, n)] + more_parts_to_one(s@, e0).0);
            }
            (ps, e + 1)
        } else {
            (Vec::new(), i)
        },
        None => (Vec::new(), i),
    };
    proof {
        assert(vec_path_part_v(head@) == column_glob_value(s@, i as int).head);
    }
    if !at_exec(s, star, '*') {
        return None;
    }
    let after = star + 1;
    if at_exec(s, after, '(') {
        let mut specs: Vec<ColumnSpec> = Vec::new();
        let mut cur = after + 1;
        proof {
            assert(vec_column_spec_v(specs@) + column_spec_values(s@, after + 1).0 =~= column_spec_values(
                s@,
                after + 1,
            ).0);
        }
        loop
            invariant
                after < cur <= s.len(),
                column_spec_items(s@, after + 1) == column_spec_items(s@, cur as int),
                column_spec_values(s@, cur as int).1 == column_spec_values(s@, after + 1).1,
                vec_column_spec_v(specs@) + column_spec_values(s@, cur as int).0 == column_spec_values(
                    s@,
                    after + 1,
                ).0,
            ensures
                column_spec_items(s@, cur as int) == cur,
                column_spec_values(s@, cur as int) == (Seq::<ColumnSpecV>::empty(), cur as int),
            decreases s.len() - cur,
        {
            let q = pad(s, cur);
            match column_spec(s, q) {
                Some((spec, e)) => {
                    let ghost before = vec_column_spec_v(specs@);
                    proof {
                        lemma_vec_column_spec_v_push(specs@, spec);
                    }
                    specs.push(spec);
                    cur = pad(s, e);
                    proof {
                        lemma_push_assoc(before, column_spec_v(spec), column_spec_values(s@, cur as int).0);
                    }
                },
                None => {
                    break;
                },
            }
        }
        proof {
            assert(vec_column_spec_v(specs@) + Seq::<ColumnSpecV>::empty() =~= vec_column_spec_v(specs@));
        }
        if at_exec(s, cur, ')') {
            let g = ColumnGlob { head, specs };
            proof {
                assert(column_glob_v(g) == ColumnGlobV {
                    head: vec_path_part_v(g.head@),
                    specs: vec_column_spec_v(g.specs@),
                });
            }
            return Some((g, cur + 1));
        }
    }
    let g = ColumnGlob { head, specs: Vec::new() };
    proof {
        assert(vec_column_spec_v(g.specs@) =~= Seq::<ColumnSpecV>::empty());
        assert(column_glob_v(g) == ColumnGlobV { head: vec_path_part_v(g.head@), specs: vec_column_spec_v(g.specs@) });
    }
    Some((g, after))
}

/// Where the column spec at `i` ends, if one is there.
pub open spec fn column_spec_end(s: Seq<char>, i: int) -> Option<int> {
    match expr_end(s, i, false) {
        Some(end) => {
            let q = pad_end(s, end);
            let after_alias = if at2(s, q, '-', '>') {
                match db_identifier_at(s, pad_end(s, q + 2)) {
                    Some((_, e2)) => e2,
                    None => end,
                }
            } else {
                end
            };
            let q3 = pad_end(s, after_alias);
            let after_control = match column_control_at(s, q3) {
                Some((_, e3)) => e3,
                None => q3,
            };
            match annotation_end(s, pad_end(s, after_control)) {
                Some(e4) => Some(e4),
                None => Some(after_control),
            }
        },
        None => None,
    }
}

/// The column spec at `i`: its expression, alias, control flags and annotation, and where it ends.
/// Without flags its control is the default one.
pub open spec fn column_spec_at(s: Seq<char>, i: int) -> Option<(ColumnSpecV, int)> {
    match expr_at(s, i, false) {
        Some((x, end)) => {
            let q = pad_end(s, end);
            let al = if at2(s, q, '-', '>') {
                match db_identifier_at(s, pad_end(s, q + 2)) {
                    Some((n, e2)) => (Some(n), e2),
                    None => (None, end),
                }
            } else {
                (None, end)
            };
            let q3 = pad_end(s, al.1);
            let cc = match column_control_at(s, q3) {
                Some((c, e3)) => (c, e3),
                None => (
                    ColumnControl { sort: None, group: None, is_partition_by: false, is_hidden: false },
                    q3,
                ),
            };
            let an = match annotation_at(s, pad_end(s, cc.1)) {
                Some((a, e4)) => (Some(a), e4),
                None => (None, cc.1),
            };
            Some((ColumnSpecV { expr: x, alias: al.0, column_control: cc.0, annotation: an.0 }, an.1))
        },
        None => None,
    }
}

/// A column spec: an expression, an optional alias `-> name`, optional control flags, and an
/// optional annotation, which comes last.
pub(crate) fn column_spec(s: &[char], i: usize) -> (r: Option<(ColumnSpec, usize)>)
    requires
        i <= s.len(),
    ensures
        r matches Some((c, e)) ==> column_spec_at(s@, i as int) == Some((column_spec_v(c), e as int)),
        r is None ==> column_spec_at(s@, i as int) is None,
        r matches Some((c, _)) ==> has_leading_column(c.expr) == expr_leads(s@, i as int, false),
        r matches Some((_, e)) ==> column_spec_end(s@, i as int) == Some(e as int),
        r is None ==> column_spec_end(s@, i as int) is None,
        r matches Some((_, e)) ==> i < e <= s.len(),
{
    let (e, end) = match expr(s, i, false) {
        Some(x) => x,
        None => return None,
    };
    proof {
        crate::tree::lemma_leads_with_column(e);
    }
    let q = pad(s, end);
    let (alias, after_alias) = if at2_exec(s, q, '-', '>') {
        let q2 = pad(s, q + 2);
        match db_identifier(s, q2) {
            Some((name, e2)) => (Some(name), e2),
            None => (None, end),
        }
    } else {
        (None, end)
    };
    let q3 = pad(s, after_alias);
    let (control, after_control) = match column_control(s, q3) {
        Some((c, e3)) => (c, e3),
        None => (
            ColumnControl { sort: None, group: None, is_partition_by: false, is_hidden: false },
            q3,
        ),
    };
    let q4 = pad(s, after_control);
    let (annotation, finish) = match annotation(s, q4) {
        Some((a, e4)) => (Some(a), e4),
        None => (None, after_control),
    };
    Some((ColumnSpec { expr: e, alias, column_control: control, annotation }, finish))
}

// ---------------------------------------------------------------------------------------------
// Sorting
// ---------------------------------------------------------------------------------------------

/// Where the padded `\\` sorting statements that start at `cur` end, and whether every sort
/// expression that they give begins with a column reference.
pub open spec fn sort_items(s: Seq<char>, cur: int) -> (int, bool)
    decreases s.len() - cur, 3int,
{
    if 0 <= cur <= s.len() {
        match sort_statement_end(s, cur) {
            Some((e, ok)) => if cur < pad_end(s, e) <= s.len() {
                let rest = sort_items(s, pad_end(s, e));
                (rest.0, ok && rest.1)
            } else {
                (cur, true)
            },
            None => (cur, true),
        }
    } else {
        (cur, true)
    }
}

/// Where the `\\` sorting statement at `i` ends, if one is there, and whether every sort
/// expression that it gives begins with a column reference.
pub open spec fn sort_statement_end(s: Seq<char>, i: int) -> Option<(int, bool)>
    decreases s.len() - i, 2int,
{
    let q = pad_end(s, i + 2);
    if 0 <= i < q <= s.len() && at2(s, i, '\\', '\\') {
        match nested_sort_end(s, q) {
            Some(e) => Some((e, true)),
            None => match sort_expr_tail_end(s, q, false) {
                Some(e) => Some((e, expr_leads(s, q, false))),
                None => None,
            },
        }
    } else {
        None
    }
}

/// Where the sorting nesting group at `i` ends, if one is there: each of its entries must begin
/// with a column reference.
pub open spec fn nested_sort_end(s: Seq<char>, i: int) -> Option<int>
    decreases s.len() - i, 1int,
{
    if 0 <= i <= s.len() {
        match path_end(s, i, false) {
            Some(e) => {
                let q = pad_end(s, e);
                let cur0 = pad_end(s, q + 2);
                if at2(s, q, '.', '(') && i < cur0 <= s.len() {
                    let items = sort_items(s, cur0);
                    if at(s, items.0, ')') && items.1 {
                        Some(items.0 + 1)
                    } else {
                        None
                    }
                } else {
                    None
                }
            },
            None => None,
        }
    } else {
        None
    }
}

/// The standalone sorting expressions, each prefixed with `\\` and followed by padding. A nesting
/// group yields one sort expression per nested entry.
#[verifier::spinoff_prover]
#[verifier::rlimit(60)]
pub(crate) fn sorting(s: &[char], i: usize) -> (r: (Vec<SortExpr>, usize))
    requires
        i <= s.len(),
    ensures
        vec_sort_expr_v(r.0@) == sort_values(s@, i as int),
        r.1 == sort_items(s@, i as int).0,
        i <= r.1 <= s.len(),
{
    let mut all: Vec<SortExpr> = Vec::new();
    let mut cur = i;
    proof {
        assert(vec_sort_expr_v(all@) + sort_values(s@, i as int) =~= sort_values(s@, i as int));
    }
    loop
        invariant
            i <= cur <= s.len(),
            sort_items(s@, i as int).0 == sort_items(s@, cur as int).0,
            vec_sort_expr_v(all@) + sort_values(s@, cur as int) == sort_values(s@, i as int),
        ensures
            sort_items(s@, cur as int).0 == cur,
            sort_values(s@, cur as int) == Seq::<SortExprV>::empty(),
        decreases s.len() - cur,
    {
        match sort_statement(s, cur) {
            Some((mut group, e)) => {
                let ghost a0 = all@;
                let ghost g0 = group@;
                all.append(&mut group);
                cur = pad(s, e);
                proof {
                    lemma_vec_sort_expr_v_append(a0, g0);
                    assert(all@ =~= a0 + g0);
                    let t = sort_values(s@, cur as int);
                    assert(vec_sort_expr_v(a0) + vec_sort_expr_v(g0) + t =~= vec_sort_expr_v(a0) + (vec_sort_expr_v(g0) + t));
                }
            },
            None => {
                break;
            },
        }
    }
    proof {
        assert(vec_sort_expr_v(all@) + Seq::<SortExprV>::empty() =~= vec_sort_expr_v(all@));
    }
    (all, cur)
}

/// One `\\`-prefixed sorting statement: a nesting group or a sort expression.
#[verifier::spinoff_prover]
#[verifier::rlimit(50)]
fn sort_statement(s: &[char], i: usize) -> (r: Option<(Vec<SortExpr>, usize)>)
    requires
        i <= s.len(),
    ensures
        r matches Some((v, _)) ==> vec_sort_expr_v(v@) == sort_statement_value(s@, i as int),
        r matches Some((v, e)) ==> sort_statement_end(s@, i as int) == Some((e as int, all_sorts_lead(v@))),
        r is None ==> sort_statement_end(s@, i as int) is None,
        r matches Some((_, e)) ==> i < e <= s.len(),
    decreases s.len() - i, 2int,
{
    if !at2_exec(s, i, '\\', '\\') {
        return None;
    }
    let q = pad(s, i + 2);
    match nested_sort_exprs(s, q) {
        Some(x) => {
            return Some(x);
        },
        None => {},
    }
    match sort_expr_tail(s, q, false) {
        Some((e, end)) => {
            let mut v = Vec::new();
            v.push(e);
            proof {
                lemma_vec_sort_expr_v(v@);
                assert(vec_sort_expr_v(v@) =~= seq![sort_expr_v(e)]);
                lemma_all_sorts_lead_first(v@);
                assert(v@.subrange(1, 1) =~= Seq::<SortExpr>::empty());
            }
            Some((v, end))
        },
        None => None,
    }
}

/// A sorting nesting group `head.( \\entry ... )`, desugared by applying the head to each entry's
/// leading column reference. It does not match when an entry cannot take the head.
#[verifier::spinoff_prover]
#[verifier::rlimit(60)]
fn nested_sort_exprs(s: &[char], i: usize) -> (r: Option<(Vec<SortExpr>, usize)>)
    requires
        i <= s.len(),
    ensures
        r matches Some((v, _)) ==> vec_sort_expr_v(v@) == nested_sort_value(s@, i as int),
        r matches Some((v, e)) ==> nested_sort_end(s@, i as int) == Some(e as int) && all_sorts_lead(v@),
        r is None ==> nested_sort_end(s@, i as int) is None,
        r matches Some((_, e)) ==> i < e <= s.len(),
    decreases s.len() - i, 1int,
{
    let (head, e) = match path(s, i, false) {
        Some(x) => x,
        None => return None,
    };
    let q = pad(s, e);
    if !at2_exec(s, q, '.', '(') {
        return None;
    }
    let mut entries: Vec<SortExpr> = Vec::new();
    let mut cur = pad(s, q + 2);
    let ghost cur0 = cur;
    proof {
        assert(vec_sort_expr_v(entries@) + sort_values(s@, cur0 as int) =~= sort_values(s@, cur0 as int));
    }
    loop
        invariant
            i < cur0 <= cur <= s.len(),
            sort_items(s@, cur0 as int).0 == sort_items(s@, cur as int).0,
            sort_items(s@, cur0 as int).1 == (all_sorts_lead(entries@) && sort_items(s@, cur as int).1),
            vec_sort_expr_v(entries@) + sort_values(s@, cur as int) == sort_values(s@, cur0 as int),
        ensures
            sort_items(s@, cur as int) == (cur as int, true),
            sort_values(s@, cur as int) == Seq::<SortExprV>::empty(),
        decreases s.len() - cur,
    {
        match sort_statement(s, cur) {
            Some((mut group, e2)) => {
                proof {
                    lemma_all_sorts_lead_append(entries@, group@);
                }
                let ghost a0 = entries@;
                let ghost g0 = group@;
                entries.append(&mut group);
                cur = pad(s, e2);
                proof {
                    lemma_vec_sort_expr_v_append(a0, g0);
                    assert(entries@ =~= a0 + g0);
                    let t = sort_values(s@, cur as int);
                    assert(vec_sort_expr_v(a0) + vec_sort_expr_v(g0) + t =~= vec_sort_expr_v(a0) + (vec_sort_expr_v(g0) + t));
                }
            },
            None => {
                break;
            },
        }
    }
    if !at_exec(s, cur, ')') {
        return None;
    }
    proof {
        assert(vec_sort_expr_v(entries@) + Seq::<SortExprV>::empty() =~= vec_sort_expr_v(entries@));
    }
    let ghost hv = vec_path_part_v(head@);
    let mut out: Vec<SortExpr> = Vec::new();
    let ghost all = entries@;
    proof {
        assert(vec_sort_expr_v(out@) + prefix_sorts_v(hv, vec_sort_expr_v(all)) =~= prefix_sorts_v(hv, vec_sort_expr_v(all)));
    }
    let ghost expected = nested_sort_end(s@, i as int);
    assert(expected == if all_sorts_lead(all) {
        Some(cur + 1)
    } else {
        None::<int>
    });
    let mut rest = entries;
    while rest.len() > 0
        invariant
            all_sorts_lead(all) == all_sorts_lead(rest@),
            all_sorts_lead(out@),
            expected == nested_sort_end(s@, i as int),
            expected == if all_sorts_lead(all) {
                Some(cur + 1)
            } else {
                None::<int>
            },
            cur < s.len(),
            hv == vec_path_part_v(head@),
            vec_sort_expr_v(out@) + prefix_sorts_v(hv, vec_sort_expr_v(rest@)) == prefix_sorts_v(hv, vec_sort_expr_v(all)),
        decreases rest@.len(),
    {
        proof {
            lemma_all_sorts_lead_first(rest@);
        }
        let ghost r0 = rest@;
        let sort_expr = rest.remove(0);
        proof {
            assert(r0 =~= seq![sort_expr] + rest@);
            lemma_vec_sort_expr_v_append(seq![sort_expr], rest@);
            lemma_vec_sort_expr_v(seq![sort_expr]);
            assert(vec_sort_expr_v(seq![sort_expr]) =~= seq![sort_expr_v(sort_expr)]);
            assert(prefix_sorts_v(hv, seq![sort_expr_v(sort_expr)] + vec_sort_expr_v(rest@)) =~= seq![
                prefix_sort_v(hv, sort_expr_v(sort_expr)),
            ] + prefix_sorts_v(hv, vec_sort_expr_v(rest@)));
        }
        let SortExpr { expr, direction, nulls_sort } = sort_expr;
        match prefix_leading_path(head.as_slice(), expr) {
            Ok(x) => {
                let ns = SortExpr { expr: x, direction, nulls_sort };
                proof {
                    lemma_prefixed_has_leading_column(head@, expr, x);
                    lemma_all_sorts_lead_append(out@, seq![ns]);
                    lemma_prefixes_v(head@, expr, x);
                    assert(sort_expr_v(ns) == SortExprV { expr: expr_v(x), direction, nulls_sort });
                    assert(sort_expr_v(sort_expr) == SortExprV { expr: expr_v(expr), direction, nulls_sort });
                    lemma_vec_sort_expr_v_push(out@, ns);
                    lemma_push_assoc(vec_sort_expr_v(out@), sort_expr_v(ns), prefix_sorts_v(hv, vec_sort_expr_v(rest@)));
                }
                out.push(ns);
            },
            Err(_) => {
                return None;
            },
        }
    }
    proof {
        assert(prefix_sorts_v(hv, vec_sort_expr_v(rest@)) =~= Seq::<SortExprV>::empty());
        assert(vec_sort_expr_v(out@) + Seq::<SortExprV>::empty() =~= vec_sort_expr_v(out@));
    }
    Some((out, cur + 1))
}

// ---------------------------------------------------------------------------------------------
// Filtering, definitions and queries
// ---------------------------------------------------------------------------------------------

/// Where the padded condition entries of a filtering section that start at `cur` end (`cur`
/// where none is there).
pub open spec fn condition_items(s: Seq<char>, cur: int) -> int
    decreases s.len() - cur,
{
    let q = pad_end(s, cur);
    if 0 <= cur <= q <= s.len() {
        match condition_entry_end(s, q, false) {
            Some(e) => if cur < pad_end(s, e) <= s.len() {
                condition_items(s, pad_end(s, e))
            } else {
                cur
            },
            None => cur,
        }
    } else {
        cur
    }
}

/// The padded condition entries of a filtering section that start at `cur`, and where they end.
pub open spec fn condition_entries(s: Seq<char>, cur: int) -> (Seq<ExprV>, int)
    decreases s.len() - cur,
{
    let q = pad_end(s, cur);
    if 0 <= cur <= q <= s.len() {
        match condition_entry_at(s, q, false) {
            Some((x, e)) => if cur < pad_end(s, e) <= s.len() {
                let rest = condition_entries(s, pad_end(s, e));
                (seq![x] + rest.0, rest.1)
            } else {
                (Seq::empty(), cur)
            },
            None => (Seq::empty(), cur),
        }
    } else {
        (Seq::empty(), cur)
    }
}

/// The filtering section: condition entries separated by padding, joined with `AND`. A lone bare
/// word here is a default text search term.
pub(crate) fn conditions(s: &[char], i: usize) -> (r: (ConditionSet, usize))
    requires
        i <= s.len(),
    ensures
        r.1 == condition_items(s@, i as int),
        i <= r.1 <= s.len(),
        r.0.conjunction == Conjunction::And,
        condition_set_v(r.0) == (ConditionSetV {
            conjunction: Conjunction::And,
            entries: condition_entries(s@, i as int).0,
        }),
{
    let mut entries: Vec<Expr> = Vec::new();
    let mut cur = i;
    proof {
        assert(vec_expr_v(entries@) + condition_entries(s@, i as int).0 =~= condition_entries(
            s@,
            i as int,
        ).0);
    }
    loop
        invariant
            i <= cur <= s.len(),
            condition_items(s@, i as int) == condition_items(s@, cur as int),
            vec_expr_v(entries@) + condition_entries(s@, cur as int).0 == condition_entries(s@, i as int).0,
        ensures
            condition_items(s@, cur as int) == cur,
            condition_entries(s@, cur as int).0 == Seq::<ExprV>::empty(),
        decreases s.len() - cur,
    {
        let q = pad(s, cur);
        match condition_entry(s, q, false) {
            Some((e, end)) => {
                let ghost before = vec_expr_v(entries@);
                proof {
                    lemma_vec_expr_v_push(entries@, e);
                }
                entries.push(e);
                cur = pad(s, end);
                proof {
                    lemma_push_assoc(before, expr_v(e), condition_entries(s@, cur as int).0);
                }
            },
            None => {
                break;
            },
        }
    }
    proof {
        assert(vec_expr_v(entries@) + Seq::<ExprV>::empty() =~= vec_expr_v(entries@));
    }
    let cs = ConditionSet { conjunction: Conjunction::And, entries };
    proof {
        assert(condition_set_v(cs) == ConditionSetV {
            conjunction: cs.conjunction,
            entries: vec_expr_v(cs.entries@),
        });
    }
    (cs, cur)
}

/// Where the transformation at `i` ends: its filtering, then padding and its sorting, then padding
/// and its result columns, each of which may be empty.
#[verifier::opaque]
pub open spec fn transformation_end(s: Seq<char>, i: int) -> int {
    let e1 = condition_items(s, i);
    let e2 = sort_items(s, pad_end(s, e1)).0;
    statement_items(s, pad_end(s, e2)).0
}

/// Where the `~~~`-separated transformations that follow `cur` end.
pub open spec fn transformations_tail(s: Seq<char>, cur: int) -> int
    decreases s.len() - cur,
{
    let q = pad_end(s, cur);
    let end = transformation_end(s, pad_end(s, q + 3));
    if 0 <= cur <= q && at2(s, q, '~', '~') && at(s, q + 2, '~') && cur < end <= s.len() {
        transformations_tail(s, end)
    } else {
        cur
    }
}

/// The transformation at `i`: its filtering (joined with AND), its sorting and its result columns.
#[verifier::opaque]
pub open spec fn transformation_value(s: Seq<char>, i: int) -> TransformationV {
    let e1 = condition_items(s, i);
    let e2 = sort_items(s, pad_end(s, e1)).0;
    TransformationV {
        conditions: ConditionSetV { conjunction: Conjunction::And, entries: condition_entries(s, i).0 },
        sorting: sort_values(s, pad_end(s, e1)),
        result_columns: statement_values(s, pad_end(s, e2)),
    }
}

/// The `~~~`-separated transformations that follow `cur`, in order.
pub open spec fn transformations_tail_values(s: Seq<char>, cur: int) -> Seq<TransformationV>
    decreases s.len() - cur,
{
    let q = pad_end(s, cur);
    let end = transformation_end(s, pad_end(s, q + 3));
    if 0 <= cur <= q && at2(s, q, '~', '~') && at(s, q + 2, '~') && cur < end <= s.len() {
        seq![transformation_value(s, pad_end(s, q + 3))] + transformations_tail_values(s, end)
    } else {
        Seq::empty()
    }
}

/// The transformations at `i`: the first one and those that follow it.
pub open spec fn transformations_values(s: Seq<char>, i: int) -> Seq<TransformationV> {
    seq![transformation_value(s, i)] + transformations_tail_values(s, transformation_end(s, i))
}

/// What [`transformation_end`] and [`transformation_value`] say at `i`.
proof fn lemma_transformation_parts(s: Seq<char>, i: int)
    ensures
        transformation_end(s, i) == statement_items(
            s,
            pad_end(s, sort_items(s, pad_end(s, condition_items(s, i))).0),
        ).0,
        transformation_value(s, i) == (TransformationV {
            conditions: ConditionSetV { conjunction: Conjunction::And, entries: condition_entries(s, i).0 },
            sorting: sort_values(s, pad_end(s, condition_items(s, i))),
            result_columns: statement_values(
                s,
                pad_end(s, sort_items(s, pad_end(s, condition_items(s, i))).0),
            ),
        }),
{
    reveal(transformation_end);
    reveal(transformation_value);
}

/// How many `~~~` delimiters, each followed by a transformation, follow `cur`.
pub open spec fn delimiter_count(s: Seq<char>, cur: int) -> nat
    decreases s.len() - cur,
{
    let q = pad_end(s, cur);
    let end = transformation_end(s, pad_end(s, q + 3));
    if 0 <= cur <= q && at2(s, q, '~', '~') && at(s, q + 2, '~') && cur < end <= s.len() {
        1 + delimiter_count(s, end)
    } else {
        0
    }
}

/// Where the segment after a `~~~` delimiter that follows `cur` (with padding around it) begins.
pub open spec fn next_segment(s: Seq<char>, cur: int) -> int {
    pad_end(s, pad_end(s, cur) + 3)
}

/// Where the `k`-th `~~~`-separated segment begins, counting from the one at `i`.
pub open spec fn segment_start(s: Seq<char>, i: int, k: nat) -> int
    decreases k,
{
    if k == 0 {
        i
    } else {
        next_segment(s, transformation_end(s, segment_start(s, i, (k - 1) as nat)))
    }
}

proof fn lemma_segment_shift(s: Seq<char>, i: int, j: int, k: nat)
    requires
        k >= 1,
        segment_start(s, i, 1) == j,
    ensures
        segment_start(s, i, k) == segment_start(s, j, (k - 1) as nat),
    decreases k,
{
    if k > 1 {
        lemma_segment_shift(s, i, j, (k - 1) as nat);
    }
}

/// One transformation per `~~~`-separated segment, in order: the transformations parsed at `i`
/// are one more than the delimiters that follow the first of them, and the `k`-th of them is the
/// transformation parsed where the `k`-th segment begins.
pub proof fn law_one_transformation_per_segment(s: Seq<char>, i: int)
    ensures
        transformations_values(s, i).len() == 1 + delimiter_count(s, transformation_end(s, i)),
        forall|k: int|
            0 <= k < transformations_values(s, i).len() ==> #[trigger] transformations_values(s, i)[k]
                == transformation_value(s, segment_start(s, i, k as nat)),
    decreases delimiter_count(s, transformation_end(s, i)),
{
    let e = transformation_end(s, i);
    let q = pad_end(s, e);
    let q2 = pad_end(s, q + 3);
    let end = transformation_end(s, q2);
    if 0 <= e <= q && at2(s, q, '~', '~') && at(s, q + 2, '~') && e < end <= s.len() {
        assert(transformations_tail_values(s, e) == transformations_values(s, q2));
        law_one_transformation_per_segment(s, q2);
        assert(segment_start(s, i, 0) == i);
        assert(segment_start(s, i, 1) == next_segment(s, transformation_end(s, i)));
        assert(segment_start(s, i, 1) == q2);
        assert forall|k: int| 0 <= k < transformations_values(s, i).len() implies #[trigger] transformations_values(
            s,
            i,
        )[k] == transformation_value(s, segment_start(s, i, k as nat)) by {
            if k > 0 {
                lemma_segment_shift(s, i, q2, k as nat);
                assert(transformations_values(s, i)[k] == transformations_values(s, q2)[k - 1]);
                assert(transformations_values(s, q2)[k - 1] == transformation_value(
                    s,
                    segment_start(s, q2, (k - 1) as nat),
                ));
            }
        }
    } else {
        assert(transformations_tail_values(s, e) =~= Seq::<TransformationV>::empty());
        assert forall|k: int| 0 <= k < transformations_values(s, i).len() implies #[trigger] transformations_values(
            s,
            i,
        )[k] == transformation_value(s, segment_start(s, i, k as nat)) by {
            assert(k == 0);
        }
    }
}

/// One transformation: filtering, then sorting, then result columns, each after padding.
fn transformation(s: &[char], i: usize) -> (r: (Transformation, usize))
    requires
        i <= s.len(),
    ensures
        transformation_v(r.0) == transformation_value(s@, i as int),
        r.1 == transformation_end(s@, i as int),
        i <= r.1 <= s.len(),
{
    proof {
        lemma_transformation_parts(s@, i as int);
    }
    let (conditions, e1) = conditions(s, i);
    let q = pad(s, e1);
    let (sorting, e2) = sorting(s, q);
    let q2 = pad(s, e2);
    let (result_columns, e3) = result_columns(s, q2);
    let t = Transformation { conditions, sorting, result_columns };
    proof {
        assert(transformation_v(t) == TransformationV {
            conditions: condition_set_v(t.conditions),
            sorting: vec_sort_expr_v(t.sorting@),
            result_columns: vec_result_column_statement_v(t.result_columns@),
        });
    }
    (t, e3)
}

/// Transformations separated by `~~~` (with padding around it).
fn transformations(s: &[char], i: usize) -> (r: (Vec<Transformation>, usize))
    requires
        i <= s.len(),
    ensures
        vec_transformation_v(r.0@) == transformations_values(s@, i as int),
        r.1 == transformations_tail(s@, transformation_end(s@, i as int)),
        i <= r.1 <= s.len(),
{
    let (first, e) = transformation(s, i);
    let mut all: Vec<Transformation> = Vec::new();
    all.push(first);
    let mut cur = e;
    proof {
        lemma_vec_transformation_v(all@);
        assert(vec_transformation_v(all@) + transformations_tail_values(s@, cur as int) =~= transformations_values(
            s@,
            i as int,
        ));
    }
    loop
        invariant
            i <= cur <= s.len(),
            transformations_tail(s@, transformation_end(s@, i as int)) == transformations_tail(s@, cur as int),
            vec_transformation_v(all@) + transformations_tail_values(s@, cur as int) == transformations_values(
                s@,
                i as int,
            ),
        ensures
            transformations_tail(s@, cur as int) == cur,
            transformations_tail_values(s@, cur as int) == Seq::<TransformationV>::empty(),
        decreases s.len() - cur,
    {
        let q = pad(s, cur);
        if !(at2_exec(s, q, '~', '~') && at_exec(s, q + 2, '~')) {
            break;
        }
        let q2 = pad(s, q + 3);
        let (t, end) = transformation(s, q2);
        let ghost before = vec_transformation_v(all@);
        proof {
            lemma_vec_transformation_v_push(all@, t);
        }
        all.push(t);
        cur = end;
        proof {
            lemma_push_assoc(before, transformation_v(t), transformations_tail_values(s@, cur as int));
        }
    }
    proof {
        assert(vec_transformation_v(all@) + Seq::<TransformationV>::empty() =~= vec_transformation_v(all@));
    }
    (all, cur)
}

/// Where the query body at `i` ends, if one is there.
pub open spec fn query_body_end(s: Seq<char>, i: int) -> Option<int>
    decreases s.len() - i, 5int,
{
    let e1 = definitions_items(s, i);
    if 0 <= i <= e1 <= s.len() && at(s, e1, '#') {
        match db_identifier_at(s, e1 + 1) {
            Some((_, e2)) => Some(transformations_tail(s, transformation_end(s, pad_end(s, e2)))),
            None => None,
        }
    } else {
        None
    }
}

/// Where the padded definitions that start at `cur` end (`cur` where none is there).
pub open spec fn definitions_items(s: Seq<char>, cur: int) -> int
    decreases s.len() - cur, 4int,
{
    if 0 <= cur <= s.len() {
        match definition_end(s, cur) {
            Some(e) => if cur < pad_end(s, e) <= s.len() {
                definitions_items(s, pad_end(s, e))
            } else {
                cur
            },
            None => cur,
        }
    } else {
        cur
    }
}

/// Where the definition at `i` ends, if one is there.
pub open spec fn definition_end(s: Seq<char>, i: int) -> Option<int>
    decreases s.len() - i, 3int,
{
    if !(0 <= i <= s.len()) {
        None
    } else if function_def_end(s, i) is Some {
        function_def_end(s, i)
    } else if constant_end(s, i) is Some {
        constant_end(s, i)
    } else if table_def_end(s, i) is Some {
        table_def_end(s, i)
    } else if custom_comparison_end(s, i) is Some {
        custom_comparison_end(s, i)
    } else {
        computed_column_end(s, i)
    }
}

/// Where the constant definition at `i` ends, if one is there.
pub open spec fn constant_end(s: Seq<char>, i: int) -> Option<int>
    decreases s.len() - i, 2int,
{
    if 0 <= i <= s.len() && at(s, i, '@') {
        match ident_at(s, i + 1) {
            Some(e) => match assign_end(s, e) {
                Some(q) => if i < q <= s.len() {
                    match table_subquery_end(s, q) {
                        Some(end) => Some(end),
                        None => expr_end(s, q, false),
                    }
                } else {
                    None
                },
                None => None,
            },
            None => None,
        }
    } else {
        None
    }
}

/// Where the table definition at `i` ends, if one is there.
pub open spec fn table_def_end(s: Seq<char>, i: int) -> Option<int>
    decreases s.len() - i, 2int,
{
    if 0 <= i <= s.len() && at(s, i, '#') {
        match db_identifier_at(s, i + 1) {
            Some((_, e)) => match assign_end(s, e) {
                Some(q) => if i < q <= s.len() {
                    table_subquery_end(s, q)
                } else {
                    None
                },
                None => None,
            },
            None => None,
        }
    } else {
        None
    }
}

/// Where the subquery `#( query )` at `i` ends, if one is there.
pub open spec fn table_subquery_end(s: Seq<char>, i: int) -> Option<int>
    decreases s.len() - i, 1int,
{
    let q = pad_end(s, i + 2);
    if 0 <= i < q <= s.len() && at2(s, i, '#', '(') {
        match query_body_end(s, q) {
            Some(e) => if at(s, pad_end(s, e), ')') {
                Some(pad_end(s, e) + 1)
            } else {
                None
            },
            None => None,
        }
    } else {
        None
    }
}

/// The body of a query: its definitions, then the base table `#name`, then padding and the
/// transformations.
pub(crate) fn query_body(s: &[char], i: usize) -> (r: Option<(Query, usize)>)
    requires
        i <= s.len(),
    ensures
        r matches Some((_, e)) ==> query_body_end(s@, i as int) == Some(e as int),
        r is None ==> query_body_end(s@, i as int) is None,
        r matches Some((_, e)) ==> i < e <= s.len(),
    decreases s.len() - i, 5int,
{
    let (definitions, e1) = definitions(s, i);
    if !at_exec(s, e1, '#') {
        return None;
    }
    let (base_table, e2) = match db_identifier(s, e1 + 1) {
        Some(x) => x,
        None => return None,
    };
    let q = pad(s, e2);
    let (transformations, e3) = transformations(s, q);
    Some((Query { definitions, base_table, transformations }, e3))
}

/// A definition that may precede the base table.
enum Definition {
    Constant(ConstantDef),
    Function(FunctionDef),
    CustomComparison(CustomComparisonDef),
    ComputedColumn(ComputedColumn),
    Table(TableDef),
}

/// The kinds of definitions, in the order in which the parser tries them.
#[derive(PartialEq, Eq, Structural, Clone, Copy)]
pub enum DefinitionKind {
    Function,
    Constant,
    Table,
    CustomComparison,
    ComputedColumn,
}

/// The kind of the definition at `i`, where [`definition_end`] finds one.
#[verifier::opaque]
pub open spec fn def_kind(s: Seq<char>, i: int) -> DefinitionKind {
    if function_def_end(s, i) is Some {
        DefinitionKind::Function
    } else if constant_end(s, i) is Some {
        DefinitionKind::Constant
    } else if table_def_end(s, i) is Some {
        DefinitionKind::Table
    } else if custom_comparison_end(s, i) is Some {
        DefinitionKind::CustomComparison
    } else {
        DefinitionKind::ComputedColumn
    }
}

/// The name that the definition at `i` defines: a function's or constant's name after `@@` or `@`,
/// a table's name after `#`, or a custom comparison's or computed column's name after `#table.`.
#[verifier::opaque]
pub open spec fn def_name(s: Seq<char>, i: int) -> Seq<char> {
    match def_kind(s, i) {
        DefinitionKind::Function => s.subrange(i + 2, ident_at(s, i + 2).unwrap()),
        DefinitionKind::Constant => s.subrange(i + 1, ident_at(s, i + 1).unwrap()),
        DefinitionKind::Table => db_identifier_at(s, i + 1).unwrap().0,
        _ => table_member_at(s, i).unwrap().1,
    }
}

/// The names, in source order, of the definitions of `kind` among the padded definitions that
/// start at `cur`.
#[verifier::opaque]
pub open spec fn def_names(s: Seq<char>, cur: int, kind: DefinitionKind) -> Seq<Seq<char>>
    decreases s.len() - cur,
{
    if 0 <= cur <= s.len() {
        match definition_end(s, cur) {
            Some(e) => if cur < pad_end(s, e) <= s.len() {
                (if def_kind(s, cur) == kind {
                    seq![def_name(s, cur)]
                } else {
                    Seq::empty()
                }) + def_names(s, pad_end(s, e), kind)
            } else {
                Seq::empty()
            },
            None => Seq::empty(),
        }
    } else {
        Seq::empty()
    }
}

/// How many definitions the padded definitions that start at `cur` hold.
pub open spec fn def_count(s: Seq<char>, cur: int) -> nat
    decreases s.len() - cur,
{
    if 0 <= cur <= s.len() {
        match definition_end(s, cur) {
            Some(e) => if cur < pad_end(s, e) <= s.len() {
                1 + def_count(s, pad_end(s, e))
            } else {
                0
            },
            None => 0,
        }
    } else {
        0
    }
}

/// Every definition found lands in exactly one of the five lists: together, the lists of names of
/// each kind hold as many names as there are definitions.
pub proof fn law_each_definition_kept_once(s: Seq<char>, cur: int)
    ensures
        def_names(s, cur, DefinitionKind::Function).len() + def_names(s, cur, DefinitionKind::Constant).len()
            + def_names(s, cur, DefinitionKind::Table).len() + def_names(
            s,
            cur,
            DefinitionKind::CustomComparison,
        ).len() + def_names(s, cur, DefinitionKind::ComputedColumn).len() == def_count(s, cur),
    decreases s.len() - cur,
{
    reveal_with_fuel(def_names, 1);
    if 0 <= cur <= s.len() {
        if let Some(e) = definition_end(s, cur) {
            if cur < pad_end(s, e) <= s.len() {
                law_each_definition_kept_once(s, pad_end(s, e));
            }
        }
    }
}

/// What [`def_kind`] and [`def_name`] say at `i`.
proof fn lemma_def_kind_name(s: Seq<char>, i: int)
    ensures
        def_kind(s, i) == if function_def_end(s, i) is Some {
            DefinitionKind::Function
        } else if constant_end(s, i) is Some {
            DefinitionKind::Constant
        } else if table_def_end(s, i) is Some {
            DefinitionKind::Table
        } else if custom_comparison_end(s, i) is Some {
            DefinitionKind::CustomComparison
        } else {
            DefinitionKind::ComputedColumn
        },
        def_name(s, i) == match def_kind(s, i) {
            DefinitionKind::Function => s.subrange(i + 2, ident_at(s, i + 2).unwrap()),
            DefinitionKind::Constant => s.subrange(i + 1, ident_at(s, i + 1).unwrap()),
            DefinitionKind::Table => db_identifier_at(s, i + 1).unwrap().0,
            _ => table_member_at(s, i).unwrap().1,
        },
{
    reveal(def_kind);
    reveal(def_name);
}

/// Where no definition is found, no names follow.
proof fn lemma_def_names_none(s: Seq<char>, cur: int)
    requires
        definition_end(s, cur) is None,
    ensures
        def_names(s, cur, DefinitionKind::Constant) == Seq::<Seq<char>>::empty(),
        def_names(s, cur, DefinitionKind::Function) == Seq::<Seq<char>>::empty(),
        def_names(s, cur, DefinitionKind::Table) == Seq::<Seq<char>>::empty(),
        def_names(s, cur, DefinitionKind::CustomComparison) == Seq::<Seq<char>>::empty(),
        def_names(s, cur, DefinitionKind::ComputedColumn) == Seq::<Seq<char>>::empty(),
{
    reveal_with_fuel(def_names, 1);
}

/// The kind of a parsed definition.
spec fn kind_of(d: Definition) -> DefinitionKind {
    match d {
        Definition::Function(_) => DefinitionKind::Function,
        Definition::Constant(_) => DefinitionKind::Constant,
        Definition::Table(_) => DefinitionKind::Table,
        Definition::CustomComparison(_) => DefinitionKind::CustomComparison,
        Definition::ComputedColumn(_) => DefinitionKind::ComputedColumn,
    }
}

/// The name that a parsed definition defines.
spec fn name_of(d: Definition) -> Seq<char> {
    match d {
        Definition::Function(f) => f.name@,
        Definition::Constant(c) => c.name@,
        Definition::Table(t) => t.name@,
        Definition::CustomComparison(c) => c.name@,
        Definition::ComputedColumn(c) => c.name@,
    }
}

/// The names of constant definitions, in order.
pub open spec fn constant_names(v: Seq<ConstantDef>) -> Seq<Seq<char>> {
    v.map_values(|x: ConstantDef| x.name@)
}

/// The names of function definitions, in order.
pub open spec fn function_names(v: Seq<FunctionDef>) -> Seq<Seq<char>> {
    v.map_values(|x: FunctionDef| x.name@)
}

/// The names of table definitions, in order.
pub open spec fn table_names(v: Seq<TableDef>) -> Seq<Seq<char>> {
    v.map_values(|x: TableDef| x.name@)
}

/// The names of custom comparison definitions, in order.
pub open spec fn custom_comparison_names(v: Seq<CustomComparisonDef>) -> Seq<Seq<char>> {
    v.map_values(|x: CustomComparisonDef| x.name@)
}

/// The names of computed column definitions, in order.
pub open spec fn computed_column_names(v: Seq<ComputedColumn>) -> Seq<Seq<char>> {
    v.map_values(|x: ComputedColumn| x.name@)
}

proof fn lemma_prepend_nothing(x: Seq<Seq<char>>)
    ensures
        Seq::<Seq<char>>::empty() + x == x,
{
    assert(Seq::<Seq<char>>::empty() + x =~= x);
}

/// The names before `next` followed by the names from `next` on, for one kind, once a definition
/// of kind `k` and name `nm` found at `cur` has been added to the list of its kind.
proof fn lemma_kind_step(
    before: Seq<Seq<char>>,
    after: Seq<Seq<char>>,
    here: Seq<Seq<char>>,
    rest: Seq<Seq<char>>,
    total: Seq<Seq<char>>,
    added: bool,
    nm: Seq<char>,
)
    requires
        before + (here + rest) == total,
        here == if added {
            seq![nm]
        } else {
            Seq::<Seq<char>>::empty()
        },
        after == if added {
            before.push(nm)
        } else {
            before
        },
    ensures
        after + rest == total,
{
    if added {
        assert(before.push(nm) + rest =~= before + (seq![nm] + rest));
    } else {
        assert(Seq::<Seq<char>>::empty() + rest =~= rest);
    }
}

proof fn lemma_definition_step(
    s: Seq<char>,
    cur: int,
    next: int,
    k: DefinitionKind,
    nm: Seq<char>,
    old_result: Definitions,
    result: Definitions,
    i: int,
)
    requires
        0 <= cur <= s.len(),
        definition_end(s, cur) is Some,
        next == pad_end(s, definition_end(s, cur).unwrap()),
        cur < next <= s.len(),
        k == def_kind(s, cur),
        nm == def_name(s, cur),
        constant_names(old_result.constants@) + def_names(s, cur, DefinitionKind::Constant) == def_names(s, i, DefinitionKind::Constant),
        function_names(old_result.functions@) + def_names(s, cur, DefinitionKind::Function) == def_names(s, i, DefinitionKind::Function),
        table_names(old_result.tables@) + def_names(s, cur, DefinitionKind::Table) == def_names(s, i, DefinitionKind::Table),
        custom_comparison_names(old_result.custom_comparisons@) + def_names(s, cur, DefinitionKind::CustomComparison) == def_names(s, i, DefinitionKind::CustomComparison),
        computed_column_names(old_result.computed_columns@) + def_names(s, cur, DefinitionKind::ComputedColumn) == def_names(s, i, DefinitionKind::ComputedColumn),
        constant_names(result.constants@) == if k == DefinitionKind::Constant { constant_names(old_result.constants@).push(nm) } else { constant_names(old_result.constants@) },
        function_names(result.functions@) == if k == DefinitionKind::Function { function_names(old_result.functions@).push(nm) } else { function_names(old_result.functions@) },
        table_names(result.tables@) == if k == DefinitionKind::Table { table_names(old_result.tables@).push(nm) } else { table_names(old_result.tables@) },
        custom_comparison_names(result.custom_comparisons@) == if k == DefinitionKind::CustomComparison { custom_comparison_names(old_result.custom_comparisons@).push(nm) } else { custom_comparison_names(old_result.custom_comparisons@) },
        computed_column_names(result.computed_columns@) == if k == DefinitionKind::ComputedColumn { computed_column_names(old_result.computed_columns@).push(nm) } else { computed_column_names(old_result.computed_columns@) },
    ensures
        constant_names(result.constants@) + def_names(s, next, DefinitionKind::Constant) == def_names(s, i, DefinitionKind::Constant),
        function_names(result.functions@) + def_names(s, next, DefinitionKind::Function) == def_names(s, i, DefinitionKind::Function),
        table_names(result.tables@) + def_names(s, next, DefinitionKind::Table) == def_names(s, i, DefinitionKind::Table),
        custom_comparison_names(result.custom_comparisons@) + def_names(s, next, DefinitionKind::CustomComparison) == def_names(s, i, DefinitionKind::CustomComparison),
        computed_column_names(result.computed_columns@) + def_names(s, next, DefinitionKind::ComputedColumn) == def_names(s, i, DefinitionKind::ComputedColumn),
{
    reveal_with_fuel(def_names, 1);
    lemma_kind_step(constant_names(old_result.constants@), constant_names(result.constants@), if k == DefinitionKind::Constant { seq![nm] } else { Seq::empty() }, def_names(s, next, DefinitionKind::Constant), def_names(s, i, DefinitionKind::Constant), k == DefinitionKind::Constant, nm);
    lemma_kind_step(function_names(old_result.functions@), function_names(result.functions@), if k == DefinitionKind::Function { seq![nm] } else { Seq::empty() }, def_names(s, next, DefinitionKind::Function), def_names(s, i, DefinitionKind::Function), k == DefinitionKind::Function, nm);
    lemma_kind_step(table_names(old_result.tables@), table_names(result.tables@), if k == DefinitionKind::Table { seq![nm] } else { Seq::empty() }, def_names(s, next, DefinitionKind::Table), def_names(s, i, DefinitionKind::Table), k == DefinitionKind::Table, nm);
    lemma_kind_step(custom_comparison_names(old_result.custom_comparisons@), custom_comparison_names(result.custom_comparisons@), if k == DefinitionKind::CustomComparison { seq![nm] } else { Seq::empty() }, def_names(s, next, DefinitionKind::CustomComparison), def_names(s, i, DefinitionKind::CustomComparison), k == DefinitionKind::CustomComparison, nm);
    lemma_kind_step(computed_column_names(old_result.computed_columns@), computed_column_names(result.computed_columns@), if k == DefinitionKind::ComputedColumn { seq![nm] } else { Seq::empty() }, def_names(s, next, DefinitionKind::ComputedColumn), def_names(s, i, DefinitionKind::ComputedColumn), k == DefinitionKind::ComputedColumn, nm);
}

/// The run of definitions before the base table, each followed by padding, sorted by kind.
pub(crate) fn definitions(s: &[char], i: usize) -> (r: (Definitions, usize))
    requires
        i <= s.len(),
    ensures
        constant_names(r.0.constants@) == def_names(s@, i as int, DefinitionKind::Constant),
        function_names(r.0.functions@) == def_names(s@, i as int, DefinitionKind::Function),
        table_names(r.0.tables@) == def_names(s@, i as int, DefinitionKind::Table),
        custom_comparison_names(r.0.custom_comparisons@) == def_names(s@, i as int, DefinitionKind::CustomComparison),
        computed_column_names(r.0.computed_columns@) == def_names(s@, i as int, DefinitionKind::ComputedColumn),
        r.1 == definitions_items(s@, i as int),
        i <= r.1 <= s.len(),
    decreases s.len() - i, 4int,
{
    let mut result = Definitions {
        constants: Vec::new(),
        functions: Vec::new(),
        custom_comparisons: Vec::new(),
        computed_columns: Vec::new(),
        tables: Vec::new(),
    };
    let mut cur = i;
    proof {
        assert(constant_names(result.constants@) =~= Seq::<Seq<char>>::empty());
        assert(function_names(result.functions@) =~= Seq::<Seq<char>>::empty());
        assert(table_names(result.tables@) =~= Seq::<Seq<char>>::empty());
        assert(custom_comparison_names(result.custom_comparisons@) =~= Seq::<Seq<char>>::empty());
        assert(computed_column_names(result.computed_columns@) =~= Seq::<Seq<char>>::empty());
        lemma_prepend_nothing(def_names(s@, i as int, DefinitionKind::Constant));
        lemma_prepend_nothing(def_names(s@, i as int, DefinitionKind::Function));
        lemma_prepend_nothing(def_names(s@, i as int, DefinitionKind::Table));
        lemma_prepend_nothing(def_names(s@, i as int, DefinitionKind::CustomComparison));
        lemma_prepend_nothing(def_names(s@, i as int, DefinitionKind::ComputedColumn));
    }
    loop
        invariant
            i <= cur <= s.len(),
            definitions_items(s@, i as int) == definitions_items(s@, cur as int),
            constant_names(result.constants@) + def_names(s@, cur as int, DefinitionKind::Constant) == def_names(s@, i as int, DefinitionKind::Constant),
            function_names(result.functions@) + def_names(s@, cur as int, DefinitionKind::Function) == def_names(s@, i as int, DefinitionKind::Function),
            table_names(result.tables@) + def_names(s@, cur as int, DefinitionKind::Table) == def_names(s@, i as int, DefinitionKind::Table),
            custom_comparison_names(result.custom_comparisons@) + def_names(s@, cur as int, DefinitionKind::CustomComparison) == def_names(s@, i as int, DefinitionKind::CustomComparison),
            computed_column_names(result.computed_columns@) + def_names(s@, cur as int, DefinitionKind::ComputedColumn) == def_names(s@, i as int, DefinitionKind::ComputedColumn),
        ensures
            definitions_items(s@, cur as int) == cur,
            def_names(s@, cur as int, DefinitionKind::Constant) == Seq::<Seq<char>>::empty(),
            def_names(s@, cur as int, DefinitionKind::Function) == Seq::<Seq<char>>::empty(),
            def_names(s@, cur as int, DefinitionKind::Table) == Seq::<Seq<char>>::empty(),
            def_names(s@, cur as int, DefinitionKind::CustomComparison) == Seq::<Seq<char>>::empty(),
            def_names(s@, cur as int, DefinitionKind::ComputedColumn) == Seq::<Seq<char>>::empty(),
        decreases s.len() - cur,
    {
        match definition(s, cur) {
            Some((d, e)) => {
                let ghost old_result = result;
                let ghost old_cur = cur as int;
                let ghost k = kind_of(d);
                let ghost nm = name_of(d);
                match d {
                    Definition::Constant(c) => {
                        result.constants.push(c);
                        proof {
                            assert(constant_names(result.constants@) =~= constant_names(old_result.constants@).push(nm));
                        }
                    },
                    Definition::Function(f) => {
                        result.functions.push(f);
                        proof {
                            assert(function_names(result.functions@) =~= function_names(old_result.functions@).push(nm));
                        }
                    },
                    Definition::CustomComparison(c) => {
                        result.custom_comparisons.push(c);
                        proof {
                            assert(custom_comparison_names(result.custom_comparisons@) =~= custom_comparison_names(old_result.custom_comparisons@).push(nm));
                        }
                    },
                    Definition::ComputedColumn(c) => {
                        result.computed_columns.push(c);
                        proof {
                            assert(computed_column_names(result.computed_columns@) =~= computed_column_names(old_result.computed_columns@).push(nm));
                        }
                    },
                    Definition::Table(t) => {
                        result.tables.push(t);
                        proof {
                            assert(table_names(result.tables@) =~= table_names(old_result.tables@).push(nm));
                        }
                    },
                }
                cur = pad(s, e);
                proof {
                    lemma_definition_step(s@, old_cur, cur as int, k, nm, old_result, result, i as int);
                }
            },
            None => {
                proof {
                    lemma_def_names_none(s@, cur as int);
                }
                break;
            },
        }
    }
    (result, cur)
}

/// Any one definition: a function `@@name = ...`, a constant `@name = ...`, a table
/// `#name = #( ... )`, a custom comparison `#table.name:@param = ...` or a computed column
/// `#table.name = ...`, tried in that order.
fn definition(s: &[char], i: usize) -> (r: Option<(Definition, usize)>)
    requires
        i <= s.len(),
    ensures
        r matches Some((d, _)) ==> kind_of(d) == def_kind(s@, i as int) && name_of(d) == def_name(s@, i as int),
        r matches Some((_, e)) ==> definition_end(s@, i as int) == Some(e as int),
        r is None ==> definition_end(s@, i as int) is None,
        r matches Some((_, e)) ==> i < e <= s.len(),
    decreases s.len() - i, 3int,
{
    proof {
        lemma_def_kind_name(s@, i as int);
    }
    match function_def(s, i) {
        Some((f, e)) => {
            return Some((Definition::Function(f), e));
        },
        None => {},
    }
    match constant(s, i) {
        Some((c, e)) => {
            return Some((Definition::Constant(c), e));
        },
        None => {},
    }
    match table_def(s, i) {
        Some((t, e)) => {
            return Some((Definition::Table(t), e));
        },
        None => {},
    }
    match custom_comparison(s, i) {
        Some((c, e)) => {
            return Some((Definition::CustomComparison(c), e));
        },
        None => {},
    }
    match computed_column(s, i) {
        Some((c, e)) => Some((Definition::ComputedColumn(c), e)),
        None => None,
    }
}

/// The position after `=` surrounded by padding, starting at `i`.
pub open spec fn assign_end(s: Seq<char>, i: int) -> Option<int> {
    if at(s, pad_end(s, i), '=') {
        Some(pad_end(s, pad_end(s, i) + 1))
    } else {
        None
    }
}

/// The position after `=` surrounded by padding, starting at `i`.
fn assign_at(s: &[char], i: usize) -> (r: Option<usize>)
    requires
        i <= s.len(),
    ensures
        r matches Some(e) ==> assign_end(s@, i as int) == Some(e as int) && i < e <= s.len(),
        r is None ==> assign_end(s@, i as int) is None,
{
    let q = pad(s, i);
    if at_exec(s, q, '=') {
        Some(pad(s, q + 1))
    } else {
        None
    }
}

/// A constant `@name = value`, where the value is a `#( ... )` subquery or an expression.
fn constant(s: &[char], i: usize) -> (r: Option<(ConstantDef, usize)>)
    requires
        i <= s.len(),
    ensures
        r matches Some((x, _)) ==> x.name@ == s@.subrange(i + 1, ident_at(s@, i + 1).unwrap()),
        r matches Some((_, e)) ==> constant_end(s@, i as int) == Some(e as int),
        r is None ==> constant_end(s@, i as int) is None,
        r matches Some((_, e)) ==> i < e <= s.len(),
    decreases s.len() - i, 2int,
{
    if !at_exec(s, i, '@') {
        return None;
    }
    let (name, e) = match ident(s, i + 1) {
        Some(x) => x,
        None => return None,
    };
    let q = match assign_at(s, e) {
        Some(q) => q,
        None => return None,
    };
    match table_subquery(s, q) {
        Some((query, end)) => {
            return Some((ConstantDef { name, expr: Expr::Subquery(Box::new(query)) }, end));
        },
        None => {},
    }
    match expr(s, q, false) {
        Some((value, end)) => Some((ConstantDef { name, expr: value }, end)),
        None => None,
    }
}

/// A table definition `#name = #( query )`.
fn table_def(s: &[char], i: usize) -> (r: Option<(TableDef, usize)>)
    requires
        i <= s.len(),
    ensures
        r matches Some((x, _)) ==> x.name@ == db_identifier_at(s@, i + 1).unwrap().0,
        r matches Some((_, e)) ==> table_def_end(s@, i as int) == Some(e as int),
        r is None ==> table_def_end(s@, i as int) is None,
        r matches Some((_, e)) ==> i < e <= s.len(),
    decreases s.len() - i, 2int,
{
    if !at_exec(s, i, '#') {
        return None;
    }
    let (name, e) = match db_identifier(s, i + 1) {
        Some(x) => x,
        None => return None,
    };
    let q = match assign_at(s, e) {
        Some(q) => q,
        None => return None,
    };
    match table_subquery(s, q) {
        Some((query, end)) => Some((TableDef { name, query }, end)),
        None => None,
    }
}

/// A subquery `#( query )`, with padding inside the parentheses.
fn table_subquery(s: &[char], i: usize) -> (r: Option<(Query, usize)>)
    requires
        i <= s.len(),
    ensures
        r matches Some((_, e)) ==> table_subquery_end(s@, i as int) == Some(e as int),
        r is None ==> table_subquery_end(s@, i as int) is None,
        r matches Some((_, e)) ==> i < e <= s.len(),
    decreases s.len() - i, 1int,
{
    if !at2_exec(s, i, '#', '(') {
        return None;
    }
    let q = pad(s, i + 2);
    let (query, e) = match query_body(s, q) {
        Some(x) => x,
        None => return None,
    };
    let q2 = pad(s, e);
    if at_exec(s, q2, ')') {
        Some((query, q2 + 1))
    } else {
        None
    }
}

/// A variable name `@name`, returning the name.
fn variable_name(s: &[char], i: usize) -> (r: Option<(String, usize)>)
    requires
        i <= s.len(),
    ensures
        r matches Some((n, e)) ==> variable_at(s@, i as int) == Some(e as int) && i < e <= s.len()
            && n@ == s@.subrange(i + 1, e as int),
        r is None ==> variable_at(s@, i as int) is None,
{
    if !at_exec(s, i, '@') {
        return None;
    }
    ident(s, i + 1)
}

/// Where the function definition at `i` ends, if one is there.
pub open spec fn function_def_end(s: Seq<char>, i: int) -> Option<int> {
    if at2(s, i, '@', '@') {
        match ident_at(s, i + 2) {
            Some(e) => match assign_end(s, e) {
                Some(q) => match variable_at(s, q) {
                    Some(e1) => {
                        let q3 = pad_end(s, more_variables(s, e1).1);
                        if at2(s, q3, '=', '>') {
                            function_body_end(s, pad_end(s, q3 + 2), false)
                        } else {
                            None
                        }
                    },
                    None => None,
                },
                None => None,
            },
            None => None,
        }
    } else {
        None
    }
}

/// A function `@@name = @param ... => body`, with at least one parameter.
fn function_def(s: &[char], i: usize) -> (r: Option<(FunctionDef, usize)>)
    requires
        i <= s.len(),
    ensures
        r matches Some((x, _)) ==> x.name@ == s@.subrange(i + 2, ident_at(s@, i + 2).unwrap()),
        r matches Some((_, e)) ==> function_def_end(s@, i as int) == Some(e as int),
        r is None ==> function_def_end(s@, i as int) is None,
        r matches Some((_, e)) ==> i < e <= s.len(),
{
    if !at2_exec(s, i, '@', '@') {
        return None;
    }
    let (name, e) = match ident(s, i + 2) {
        Some(x) => x,
        None => return None,
    };
    let q = match assign_at(s, e) {
        Some(q) => q,
        None => return None,
    };
    let (first, e1) = match variable_name(s, q) {
        Some(x) => x,
        None => return None,
    };
    let mut params: Vec<String> = Vec::new();
    params.push(first);
    let mut cur = e1;
    loop
        invariant
            i < e1 <= cur <= s.len(),
            more_variables(s@, e1 as int).1 == more_variables(s@, cur as int).1,
        ensures
            more_variables(s@, cur as int).1 == cur,
        decreases s.len() - cur,
    {
        let q2 = pad(s, cur);
        match variable_name(s, q2) {
            Some((p, e2)) => {
                params.push(p);
                cur = e2;
            },
            None => {
                break;
            },
        }
    }
    let q3 = pad(s, cur);
    if !at2_exec(s, q3, '=', '>') {
        return None;
    }
    let q4 = pad(s, q3 + 2);
    match function_body(s, q4, false) {
        Some((body, end)) => Some((FunctionDef { name, params, body }, end)),
        None => None,
    }
}

/// `#table.name` at `i`: the table, the name and the end.
pub open spec fn table_member_at(s: Seq<char>, i: int) -> Option<(Seq<char>, Seq<char>, int)> {
    if at(s, i, '#') {
        match db_identifier_at(s, i + 1) {
            Some((table, e)) => if at(s, e, '.') {
                match db_identifier_at(s, e + 1) {
                    Some((name, e2)) => Some((table, name, e2)),
                    None => None,
                }
            } else {
                None
            },
            None => None,
        }
    } else {
        None
    }
}

/// `#table.name`, returning the table and the name.
fn table_member(s: &[char], i: usize) -> (r: Option<(String, String, usize)>)
    requires
        i <= s.len(),
    ensures
        r matches Some((t, n, e)) ==> table_member_at(s@, i as int) == Some((t@, n@, e as int)) && i
            < e <= s.len(),
        r is None ==> table_member_at(s@, i as int) is None,
{
    if !at_exec(s, i, '#') {
        return None;
    }
    let (table, e) = match db_identifier(s, i + 1) {
        Some(x) => x,
        None => return None,
    };
    if !at_exec(s, e, '.') {
        return None;
    }
    match db_identifier(s, e + 1) {
        Some((name, e2)) => Some((table, name, e2)),
        None => None,
    }
}

/// Where the custom comparison definition at `i` ends, if one is there.
pub open spec fn custom_comparison_end(s: Seq<char>, i: int) -> Option<int> {
    match table_member_at(s, i) {
        Some((_, _, e)) => match operator_at(s, e) {
            Some((_, e2)) => match variable_at(s, pad_end(s, e2)) {
                Some(e3) => match assign_end(s, e3) {
                    Some(q2) => expr_end(s, q2, false),
                    None => None,
                },
                None => None,
            },
            None => None,
        },
        None => None,
    }
}

/// A custom comparison `#table.name:@param = body`, with any comparison operator.
fn custom_comparison(s: &[char], i: usize) -> (r: Option<(CustomComparisonDef, usize)>)
    requires
        i <= s.len(),
    ensures
        r matches Some((x, _)) ==> x.name@ == table_member_at(s@, i as int).unwrap().1,
        r matches Some((_, e)) ==> custom_comparison_end(s@, i as int) == Some(e as int),
        r is None ==> custom_comparison_end(s@, i as int) is None,
        r matches Some((_, e)) ==> i < e <= s.len(),
{
    let (table, name, e) = match table_member(s, i) {
        Some(x) => x,
        None => return None,
    };
    let (operator, e2) = match comparison_operator(s, e) {
        Some(x) => x,
        None => return None,
    };
    let q = pad(s, e2);
    let (param, e3) = match variable_name(s, q) {
        Some(x) => x,
        None => return None,
    };
    let q2 = match assign_at(s, e3) {
        Some(q2) => q2,
        None => return None,
    };
    match expr(s, q2, false) {
        Some((body, end)) => Some((CustomComparisonDef { table, name, operator, param, body }, end)),
        None => None,
    }
}

/// Where the computed column definition at `i` ends, if one is there.
pub open spec fn computed_column_end(s: Seq<char>, i: int) -> Option<int> {
    match table_member_at(s, i) {
        Some((_, _, e)) => match assign_end(s, e) {
            Some(q) => expr_end(s, q, false),
            None => None,
        },
        None => None,
    }
}

/// A computed column `#table.name = expr`.
fn computed_column(s: &[char], i: usize) -> (r: Option<(ComputedColumn, usize)>)
    requires
        i <= s.len(),
    ensures
        r matches Some((x, _)) ==> x.name@ == table_member_at(s@, i as int).unwrap().1,
        r matches Some((_, e)) ==> computed_column_end(s@, i as int) == Some(e as int),
        r is None ==> computed_column_end(s@, i as int) is None,
        r matches Some((_, e)) ==> i < e <= s.len(),
{
    let (table, name, e) = match table_member(s, i) {
        Some(x) => x,
        None => return None,
    };
    let q = match assign_at(s, e) {
        Some(q) => q,
        None => return None,
    };
    match expr(s, q, false) {
        Some((value, end)) => Some((ComputedColumn { table, name, expr: value }, end)),
        None => None,
    }
}

} // verus!
