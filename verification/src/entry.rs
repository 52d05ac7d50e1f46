//! Parsing whole texts: a complete query, or one section of a query on its own. The section
//! parsers let a consumer parse each part of a query separately and reassemble them with
//! [`Query::from_parts`]; text given for one section cannot bring in constructs that belong to
//! another. Also the exact parsers of single grammar elements over a whole text.
use vstd::prelude::*;

use crate::ast::{
    AnnotationValue, ColumnControl, ColumnSpec, ConditionSet, Definitions, Duration, Expr, PathPart,
    Query, ResultColumnStatement, SortExpr,
};
use crate::grammar::{expr, expr_at, expr_end, path, path_at, path_end};
use crate::tree::{
    column_spec_v, condition_set_v, expr_v, vec_path_part_v, vec_result_column_statement_v, vec_sort_expr_v,
    ConditionSetV,
};
use crate::lex::{pad, pad_end};
use crate::sections::{
    annotation, annotation_at, annotation_end, annotation_value_v, column_spec_at, condition_entries, column_spec, column_spec_end, condition_items, conditions, definitions,
    definitions_items, query_body, query_body_end, result_columns, sort_items, sort_values, sorting,
    statement_items, statement_values,
};
use crate::strings::chars_of;
use crate::tokens::{column_control, duration};

verus! {

/// The message of every parse error.
pub open spec fn invalid_code_message() -> Seq<char> {
    "Invalid querydown code"@
}

fn invalid_code() -> (r: String)
    ensures
        r@ == invalid_code_message(),
{
    "Invalid querydown code".to_owned()
}

/// Whether `e`, after padding, is the end of the text.
fn ends_at(s: &[char], e: usize) -> (r: bool)
    requires
        e <= s.len(),
    ensures
        r == (crate::lex::pad_end(s@, e as int) == s@.len()),
{
    pad(s, e) == s.len()
}

/// Parses a complete query (definitions, base table and transformations), with padding allowed
/// around it.
pub fn parse(input: &str) -> (r: Result<Query, String>)
    ensures
        r is Ok <==> (query_body_end(input@, pad_end(input@, 0)) matches Some(e) && pad_end(input@, e)
            == input@.len()),
        r matches Err(m) ==> m@ == invalid_code_message(),
{
    let s = chars_of(input);
    let q = pad(s.as_slice(), 0);
    match query_body(s.as_slice(), q) {
        Some((x, e)) => if ends_at(s.as_slice(), e) {
            Ok(x)
        } else {
            Err(invalid_code())
        },
        None => Err(invalid_code()),
    }
}

/// Parses the definitions section alone (constants, functions, custom comparisons, computed
/// columns and tables), with no base table or transformations.
pub fn parse_definitions(input: &str) -> (r: Result<Definitions, String>)
    ensures
        r is Ok <==> pad_end(input@, definitions_items(input@, pad_end(input@, 0))) == input@.len(),
        r matches Err(m) ==> m@ == invalid_code_message(),
{
    let s = chars_of(input);
    let q = pad(s.as_slice(), 0);
    let (x, e) = definitions(s.as_slice(), q);
    if ends_at(s.as_slice(), e) {
        Ok(x)
    } else {
        Err(invalid_code())
    }
}

/// Parses the filtering section alone: boolean expressions separated by whitespace, joined with
/// `AND`.
pub fn parse_conditions(input: &str) -> (r: Result<ConditionSet, String>)
    ensures
        r is Ok <==> crate::lex::pad_end(
            input@,
            condition_items(input@, crate::lex::pad_end(input@, 0)),
        ) == input@.len(),
        r matches Err(m) ==> m@ == invalid_code_message(),
        r matches Ok(cs) ==> cs.conjunction == crate::ast::Conjunction::And,
        r matches Ok(cs) ==> condition_set_v(cs) == (ConditionSetV {
            conjunction: crate::ast::Conjunction::And,
            entries: condition_entries(input@, pad_end(input@, 0)).0,
        }),
{
    let s = chars_of(input);
    let q = pad(s.as_slice(), 0);
    let (x, e) = conditions(s.as_slice(), q);
    if ends_at(s.as_slice(), e) {
        Ok(x)
    } else {
        Err(invalid_code())
    }
}

/// Parses the sorting section alone: standalone `\\` sorting expressions.
pub fn parse_sorting(input: &str) -> (r: Result<Vec<SortExpr>, String>)
    ensures
        r is Ok <==> pad_end(input@, sort_items(input@, pad_end(input@, 0)).0) == input@.len(),
        r matches Ok(v) ==> vec_sort_expr_v(v@) == sort_values(input@, pad_end(input@, 0)),
        r matches Err(m) ==> m@ == invalid_code_message(),
{
    let s = chars_of(input);
    let q = pad(s.as_slice(), 0);
    let (x, e) = sorting(s.as_slice(), q);
    if ends_at(s.as_slice(), e) {
        Ok(x)
    } else {
        Err(invalid_code())
    }
}

/// Parses the display section alone: the `$`-prefixed result column statements.
pub fn parse_display(input: &str) -> (r: Result<Vec<ResultColumnStatement>, String>)
    ensures
        r is Ok <==> pad_end(input@, statement_items(input@, pad_end(input@, 0)).0) == input@.len(),
        r matches Ok(v) ==> vec_result_column_statement_v(v@) == statement_values(input@, pad_end(input@, 0)),
        r matches Err(m) ==> m@ == invalid_code_message(),
{
    let s = chars_of(input);
    let q = pad(s.as_slice(), 0);
    let (x, e) = result_columns(s.as_slice(), q);
    if ends_at(s.as_slice(), e) {
        Ok(x)
    } else {
        Err(invalid_code())
    }
}

/// An expression that is the whole text.
pub fn expression(input: &str) -> (r: Option<Expr>)
    ensures
        r is Some <==> expr_end(input@, 0, false) == Some(input@.len() as int),
        r matches Some(x) ==> expr_at(input@, 0, false) == Some((expr_v(x), input@.len() as int)),
{
    let s = chars_of(input);
    match expr(s.as_slice(), 0, false) {
        Some((x, e)) => if e == s.len() {
            Some(x)
        } else {
            None
        },
        None => None,
    }
}

/// A path that is the whole text.
pub fn path_parts(input: &str) -> (r: Option<Vec<PathPart>>)
    ensures
        r is Some <==> path_end(input@, 0, false) == Some(input@.len() as int),
        r matches Some(ps) ==> path_at(input@, 0, false) == Some(
            (vec_path_part_v(ps@), input@.len() as int),
        ),
{
    let s = chars_of(input);
    match path(s.as_slice(), 0, false) {
        Some((x, e)) => if e == s.len() {
            Some(x)
        } else {
            None
        },
        None => None,
    }
}

/// Column control flags that are the whole text.
pub fn control_flags(input: &str) -> (r: Option<ColumnControl>)
    ensures
        r matches Some(c) ==> crate::tokens::column_control_at(input@, 0) == Some(
            (c, input@.len() as int),
        ),
        r is None ==> !(crate::tokens::column_control_at(input@, 0) matches Some((_, e)) && e
            == input@.len()),
{
    let s = chars_of(input);
    match column_control(s.as_slice(), 0) {
        Some((x, e)) => if e == s.len() {
            Some(x)
        } else {
            None
        },
        None => None,
    }
}

/// A duration literal that is the whole text: duration parts with distinct units, the last of
/// them ending the text.
pub fn duration_literal(input: &str) -> (r: Option<Duration>)
    ensures
        ({
            let parts = crate::tokens::parts_from(input@, 0);
            r is Some <==> (parts.len() > 0 && crate::tokens::units_distinct(parts) && parts.last().end
                == input@.len())
        }),
        r matches Some(d) ==> crate::tokens::duration_from_parts(
            d,
            input@,
            crate::tokens::parts_from(input@, 0),
        ),
{
    let s = chars_of(input);
    match duration(s.as_slice(), 0) {
        Some((x, e)) => if e == s.len() {
            Some(x)
        } else {
            None
        },
        None => None,
    }
}

/// A column annotation that is the whole text.
pub fn column_annotation(input: &str) -> (r: Option<AnnotationValue>)
    ensures
        r is Some <==> annotation_end(input@, 0) == Some(input@.len() as int),
        r matches Some(v) ==> annotation_at(input@, 0) == Some(
            (annotation_value_v(v), input@.len() as int),
        ) && v is Object,
{
    let s = chars_of(input);
    match annotation(s.as_slice(), 0) {
        Some((x, e)) => if e == s.len() {
            Some(x)
        } else {
            None
        },
        None => None,
    }
}

/// A column spec that is the whole text.
pub fn single_column(input: &str) -> (r: Option<ColumnSpec>)
    ensures
        r is Some <==> column_spec_end(input@, 0) == Some(input@.len() as int),
        r matches Some(c) ==> column_spec_at(input@, 0) == Some((column_spec_v(c), input@.len() as int)),
{
    let s = chars_of(input);
    match column_spec(s.as_slice(), 0) {
        Some((x, e)) => if e == s.len() {
            Some(x)
        } else {
            None
        },
        None => None,
    }
}

/// Result column statements that make up the whole text.
pub fn display_statements(input: &str) -> (r: Option<Vec<ResultColumnStatement>>)
    ensures
        r is Some <==> statement_items(input@, 0).0 == input@.len(),
        r matches Some(v) ==> vec_result_column_statement_v(v@) == statement_values(input@, 0),
{
    let s = chars_of(input);
    let (x, e) = result_columns(s.as_slice(), 0);
    if e == s.len() {
        Some(x)
    } else {
        None
    }
}

/// Sorting statements that make up the whole text.
pub fn sort_statements(input: &str) -> (r: Option<Vec<SortExpr>>)
    ensures
        r is Some <==> sort_items(input@, 0).0 == input@.len(),
        r matches Some(v) ==> vec_sort_expr_v(v@) == sort_values(input@, 0),
{
    let s = chars_of(input);
    let (x, e) = sorting(s.as_slice(), 0);
    if e == s.len() {
        Some(x)
    } else {
        None
    }
}

/// Whether the whole text is whitespace and comments.
pub fn is_padding(input: &str) -> (r: bool)
    ensures
        r == (crate::lex::pad_end(input@, 0) == input@.len()),
{
    let s = chars_of(input);
    pad(s.as_slice(), 0) == s.len()
}

} // verus!
