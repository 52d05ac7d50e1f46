//! Copies of syntax trees, each string copied and each nested value copied in turn, and the
//! relation between a tree and its copy.
use vstd::prelude::*;

use crate::ast::{
    AnnotationValue, AnonymousFunctionCall, Assignment, Call, Case, CaseVariant, ColumnGlob,
    ColumnSpec, Comparison, ComparisonSide, ComputedColumn, ConditionSet, ConstantDef,
    CustomComparisonDef, Date, Definitions, Duration, Expr, FunctionBody, FunctionDef, HasQuantity,
    PathPart, Query, Range, RangeBound, ResultColumnStatement, ScopedConditionSet, SortExpr,
    TableDef, TableWithMany, Transformation, WindowFn,
};
use crate::decimal::Decimal;
use crate::strings::copy_string;

verus! {

/// `b` is a copy of `a`.
pub open spec fn same_opt_annotation(a: Option<AnnotationValue>, b: Option<AnnotationValue>) -> bool
    decreases a,
{
    match a {
        Some(x) => b matches Some(y) && same_annotation_value(x, y),
        None => b is None,
    }
}

fn copy_opt_string(v: &Option<String>) -> (r: Option<String>)
    ensures
        r == *v,
{
    match v {
        Some(x) => Some(copy_string(x)),
        None => None,
    }
}

fn copy_opt_annotation(v: &Option<AnnotationValue>) -> (r: Option<AnnotationValue>)
    ensures
        same_opt_annotation(*v, r),
    decreases v,
{
    match v {
        Some(x) => Some(copy_annotation_value(x)),
        None => None,
    }
}

pub(crate) fn copy_date(v: &Date) -> (r: Date)
    ensures
        r == *v,
{
    Date { year: v.year, month: v.month, day: v.day }
}

fn copy_decimal(v: &Decimal) -> (r: Decimal)
    ensures
        r == *v,
{
    Decimal { whole: copy_string(&v.whole), fraction: copy_string(&v.fraction) }
}

pub(crate) fn copy_duration(v: &Duration) -> (r: Duration)
    ensures
        r == *v,
{
    Duration {
        years: copy_decimal(&v.years),
        months: copy_decimal(&v.months),
        weeks: copy_decimal(&v.weeks),
        days: copy_decimal(&v.days),
        hours: copy_decimal(&v.hours),
        minutes: copy_decimal(&v.minutes),
        seconds: copy_decimal(&v.seconds),
    }
}

fn copy_vec_string(v: &Vec<String>) -> (r: Vec<String>)
    ensures
        r@ == v@,
{
    let mut r: Vec<String> = Vec::new();
    let mut i: usize = 0;
    while i < v.len()
        invariant
            i <= v.len(),
            r@ == v@.take(i as int),
        decreases v.len() - i,
    {
        r.push(copy_string(&v[i]));
        assert(r@ =~= v@.take(i + 1));
        i = i + 1;
    }
    assert(r@ =~= v@);
    r
}

/// `b` is a copy of `a`.
pub open spec fn same_query(a: Query, b: Query) -> bool
    decreases a,
{
    proof {
        assert(decreases_to!(a.transformations => a.transformations@));
    }
    &&& same_definitions(a.definitions, b.definitions)
    &&& b.base_table == a.base_table
    &&& same_vec_transformation(a.transformations@, b.transformations@)
}

/// `b` is a copy of `a`.
pub open spec fn same_definitions(a: Definitions, b: Definitions) -> bool
    decreases a,
{
    proof {
        assert(decreases_to!(a.constants => a.constants@));
        assert(decreases_to!(a.functions => a.functions@));
        assert(decreases_to!(a.custom_comparisons => a.custom_comparisons@));
        assert(decreases_to!(a.computed_columns => a.computed_columns@));
        assert(decreases_to!(a.tables => a.tables@));
    }
    &&& same_vec_constant_def(a.constants@, b.constants@)
    &&& same_vec_function_def(a.functions@, b.functions@)
    &&& same_vec_custom_comparison_def(a.custom_comparisons@, b.custom_comparisons@)
    &&& same_vec_computed_column(a.computed_columns@, b.computed_columns@)
    &&& same_vec_table_def(a.tables@, b.tables@)
}

/// `b` is a copy of `a`.
pub open spec fn same_table_def(a: TableDef, b: TableDef) -> bool
    decreases a,
{
    &&& b.name == a.name
    &&& same_query(a.query, b.query)
}

/// `b` is a copy of `a`.
pub open spec fn same_computed_column(a: ComputedColumn, b: ComputedColumn) -> bool
    decreases a,
{
    &&& b.table == a.table
    &&& b.name == a.name
    &&& same_expr(a.expr, b.expr)
}

/// `b` is a copy of `a`.
pub open spec fn same_constant_def(a: ConstantDef, b: ConstantDef) -> bool
    decreases a,
{
    &&& b.name == a.name
    &&& same_expr(a.expr, b.expr)
}

/// `b` is a copy of `a`.
pub open spec fn same_function_def(a: FunctionDef, b: FunctionDef) -> bool
    decreases a,
{
    &&& b.name == a.name
    &&& b.params@ == a.params@
    &&& same_function_body(a.body, b.body)
}

/// `b` is a copy of `a`.
pub open spec fn same_function_body(a: FunctionBody, b: FunctionBody) -> bool
    decreases a,
{
    proof {
        assert(decreases_to!(a.assignments => a.assignments@));
    }
    &&& same_vec_assignment(a.assignments@, b.assignments@)
    &&& same_expr(a.expr, b.expr)
}

/// `b` is a copy of `a`.
pub open spec fn same_assignment(a: Assignment, b: Assignment) -> bool
    decreases a,
{
    &&& b.name == a.name
    &&& same_expr(a.expr, b.expr)
}

/// `b` is a copy of `a`.
pub open spec fn same_custom_comparison_def(a: CustomComparisonDef, b: CustomComparisonDef) -> bool
    decreases a,
{
    &&& b.table == a.table
    &&& b.name == a.name
    &&& b.operator == a.operator
    &&& b.param == a.param
    &&& same_expr(a.body, b.body)
}

/// `b` is a copy of `a`.
pub open spec fn same_transformation(a: Transformation, b: Transformation) -> bool
    decreases a,
{
    proof {
        assert(decreases_to!(a.sorting => a.sorting@));
        assert(decreases_to!(a.result_columns => a.result_columns@));
    }
    &&& same_condition_set(a.conditions, b.conditions)
    &&& same_vec_sort_expr(a.sorting@, b.sorting@)
    &&& same_vec_result_column_statement(a.result_columns@, b.result_columns@)
}

/// `b` is a copy of `a`.
pub open spec fn same_sort_expr(a: SortExpr, b: SortExpr) -> bool
    decreases a,
{
    &&& same_expr(a.expr, b.expr)
    &&& b.direction == a.direction
    &&& b.nulls_sort == a.nulls_sort
}

/// `b` is a copy of `a`.
pub open spec fn same_anonymous_function_call(a: AnonymousFunctionCall, b: AnonymousFunctionCall) -> bool
    decreases a,
{
    proof {
        assert(decreases_to!(a.args => a.args@));
    }
    &&& b.params@ == a.params@
    &&& same_function_body(a.body, b.body)
    &&& same_vec_expr(a.args@, b.args@)
}

/// `b` is a copy of `a`.
pub open spec fn same_window_fn(a: WindowFn, b: WindowFn) -> bool
    decreases a,
{
    proof {
        assert(decreases_to!(a.args => a.args@));
        assert(decreases_to!(a.partition_by => a.partition_by@));
        assert(decreases_to!(a.order_by => a.order_by@));
    }
    &&& b.function == a.function
    &&& same_vec_expr(a.args@, b.args@)
    &&& same_vec_expr(a.partition_by@, b.partition_by@)
    &&& same_vec_sort_expr(a.order_by@, b.order_by@)
}

/// `b` is a copy of `a`.
pub open spec fn same_table_with_many(a: TableWithMany, b: TableWithMany) -> bool
    decreases a,
{
    &&& b.table == a.table
    &&& same_condition_set(a.condition_set, b.condition_set)
    &&& b.linking_column == a.linking_column
}

/// `b` is a copy of `a`.
pub open spec fn same_comparison(a: Comparison, b: Comparison) -> bool
    decreases a,
{
    &&& same_comparison_side(a.left, b.left)
    &&& b.operator == a.operator
    &&& same_comparison_side(a.right, b.right)
}

/// `b` is a copy of `a`.
pub open spec fn same_range(a: Range, b: Range) -> bool
    decreases a,
{
    &&& same_range_bound(a.lower, b.lower)
    &&& same_range_bound(a.upper, b.upper)
}

/// `b` is a copy of `a`.
pub open spec fn same_range_bound(a: RangeBound, b: RangeBound) -> bool
    decreases a,
{
    &&& same_expr(a.expr, b.expr)
    &&& b.exclusivity == a.exclusivity
}

/// `b` is a copy of `a`.
pub open spec fn same_condition_set(a: ConditionSet, b: ConditionSet) -> bool
    decreases a,
{
    proof {
        assert(decreases_to!(a.entries => a.entries@));
    }
    &&& b.conjunction == a.conjunction
    &&& same_vec_expr(a.entries@, b.entries@)
}

/// `b` is a copy of `a`.
pub open spec fn same_scoped_condition_set(a: ScopedConditionSet, b: ScopedConditionSet) -> bool
    decreases a,
{
    proof {
        assert(decreases_to!(a.path => a.path@));
    }
    &&& same_vec_path_part(a.path@, b.path@)
    &&& same_condition_set(a.condition_set, b.condition_set)
}

/// `b` is a copy of `a`.
pub open spec fn same_has_quantity(a: HasQuantity, b: HasQuantity) -> bool
    decreases a,
{
    proof {
        assert(decreases_to!(a.path_parts => a.path_parts@));
    }
    &&& b.quantity == a.quantity
    &&& same_vec_path_part(a.path_parts@, b.path_parts@)
}

/// `b` is a copy of `a`.
pub open spec fn same_case(a: Case, b: Case) -> bool
    decreases a,
{
    proof {
        assert(decreases_to!(a.variants => a.variants@));
    }
    &&& same_vec_case_variant(a.variants@, b.variants@)
    &&& same_expr(*a.fallback, *b.fallback)
}

/// `b` is a copy of `a`.
pub open spec fn same_case_variant(a: CaseVariant, b: CaseVariant) -> bool
    decreases a,
{
    &&& same_expr(a.condition, b.condition)
    &&& same_expr(a.value, b.value)
}

/// `b` is a copy of `a`.
pub open spec fn same_call(a: Call, b: Call) -> bool
    decreases a,
{
    proof {
        assert(decreases_to!(a.args => a.args@));
        assert(decreases_to!(a.order_by => a.order_by@));
    }
    &&& b.name == a.name
    &&& b.dimension == a.dimension
    &&& same_vec_expr(a.args@, b.args@)
    &&& b.syntax == a.syntax
    &&& same_vec_sort_expr(a.order_by@, b.order_by@)
}

/// `b` is a copy of `a`.
pub open spec fn same_column_spec(a: ColumnSpec, b: ColumnSpec) -> bool
    decreases a,
{
    &&& same_expr(a.expr, b.expr)
    &&& b.alias == a.alias
    &&& b.column_control == a.column_control
    &&& same_opt_annotation(a.annotation, b.annotation)
}

/// `b` is a copy of `a`.
pub open spec fn same_column_glob(a: ColumnGlob, b: ColumnGlob) -> bool
    decreases a,
{
    proof {
        assert(decreases_to!(a.head => a.head@));
        assert(decreases_to!(a.specs => a.specs@));
    }
    &&& same_vec_path_part(a.head@, b.head@)
    &&& same_vec_column_spec(a.specs@, b.specs@)
}

/// `b` is a copy of `a`.
pub open spec fn same_annotation_value(a: AnnotationValue, b: AnnotationValue) -> bool
    decreases a,
{
    match a {
        AnnotationValue::Null => b is Null,
        AnnotationValue::Bool(x) => b matches AnnotationValue::Bool(y) && y == x,
        AnnotationValue::Number(x) => b matches AnnotationValue::Number(y) && y == x,
        AnnotationValue::String(x) => b matches AnnotationValue::String(y) && y == x,
        AnnotationValue::Array(x) => {
            proof {
                assert(decreases_to!(x => x@));
            }
            b matches AnnotationValue::Array(y) && same_vec_annotation_value(x@, y@)
        },
        AnnotationValue::Object(x) => {
            proof {
                assert(decreases_to!(x => x@));
            }
            b matches AnnotationValue::Object(y) && same_vec_entry(x@, y@)
        },
    }
}

/// `b` is a copy of `a`.
pub open spec fn same_expr(a: Expr, b: Expr) -> bool
    decreases a,
{
    match a {
        Expr::Number(x) => b matches Expr::Number(y) && y == x,
        Expr::Date(x) => b matches Expr::Date(y) && y == x,
        Expr::Duration(x) => b matches Expr::Duration(y) && y == x,
        Expr::String(x) => b matches Expr::String(y) && y == x,
        Expr::Variable(x) => b matches Expr::Variable(y) && y == x,
        Expr::Path(x) => {
            proof {
                assert(decreases_to!(x => x@));
            }
            b matches Expr::Path(y) && same_vec_path_part(x@, y@)
        },
        Expr::ConditionSet(x) => b matches Expr::ConditionSet(y) && same_condition_set(x, y),
        Expr::ScopedConditionSet(x) => b matches Expr::ScopedConditionSet(y) && same_scoped_condition_set(x, y),
        Expr::HasQuantity(x) => b matches Expr::HasQuantity(y) && same_has_quantity(x, y),
        Expr::Case(x) => b matches Expr::Case(y) && same_case(x, y),
        Expr::Call(x) => b matches Expr::Call(y) && same_call(x, y),
        Expr::Product(x1, x2) => b matches Expr::Product(y1, y2) && same_expr(*x1, *y1) && same_expr(*x2, *y2),
        Expr::Quotient(x1, x2) => b matches Expr::Quotient(y1, y2) && same_expr(*x1, *y1) && same_expr(*x2, *y2),
        Expr::Sum(x1, x2) => b matches Expr::Sum(y1, y2) && same_expr(*x1, *y1) && same_expr(*x2, *y2),
        Expr::Difference(x1, x2) => b matches Expr::Difference(y1, y2) && same_expr(*x1, *y1) && same_expr(*x2, *y2),
        Expr::Comparison(x) => b matches Expr::Comparison(y) && same_comparison(*x, *y),
        Expr::Not(x) => b matches Expr::Not(y) && same_expr(*x, *y),
        Expr::Window(x) => b matches Expr::Window(y) && same_window_fn(x, y),
        Expr::AnonymousFunctionCall(x) => b matches Expr::AnonymousFunctionCall(y) && same_anonymous_function_call(*x, *y),
        Expr::Subquery(x) => b matches Expr::Subquery(y) && same_query(*x, *y),
    }
}

/// `b` is a copy of `a`.
pub open spec fn same_path_part(a: PathPart, b: PathPart) -> bool
    decreases a,
{
    match a {
        PathPart::Column(x) => b matches PathPart::Column(y) && y == x,
        PathPart::TableWithOne(x) => b matches PathPart::TableWithOne(y) && y == x,
        PathPart::TableWithMany(x) => b matches PathPart::TableWithMany(y) && same_table_with_many(x, y),
    }
}

/// `b` is a copy of `a`.
pub open spec fn same_comparison_side(a: ComparisonSide, b: ComparisonSide) -> bool
    decreases a,
{
    match a {
        ComparisonSide::Expr(x) => b matches ComparisonSide::Expr(y) && same_expr(x, y),
        ComparisonSide::Expansion(x) => b matches ComparisonSide::Expansion(y) && same_condition_set(x, y),
        ComparisonSide::Range(x) => b matches ComparisonSide::Range(y) && same_range(x, y),
    }
}

/// `b` is a copy of `a`.
pub open spec fn same_result_column_statement(a: ResultColumnStatement, b: ResultColumnStatement) -> bool
    decreases a,
{
    match a {
        ResultColumnStatement::Spec(x) => b matches ResultColumnStatement::Spec(y) && same_column_spec(x, y),
        ResultColumnStatement::Glob(x) => b matches ResultColumnStatement::Glob(y) && same_column_glob(x, y),
    }
}

/// `b` holds copies of the items of `a`, in order.
pub open spec fn same_vec_entry(a: Seq<(String, AnnotationValue)>, b: Seq<(String, AnnotationValue)>) -> bool
    decreases a,
{
    a.len() == b.len() && (a.len() == 0 || (same_vec_entry(a.drop_last(), b.drop_last())
        && b.last().0 == a.last().0 && same_annotation_value(a.last().1, b.last().1)))
}

/// `b` holds copies of the items of `a`, in order.
pub open spec fn same_vec_annotation_value(a: Seq<AnnotationValue>, b: Seq<AnnotationValue>) -> bool
    decreases a,
{
    a.len() == b.len() && (a.len() == 0 || (same_vec_annotation_value(a.drop_last(), b.drop_last())
        && same_annotation_value(a.last(), b.last())))
}

/// `b` holds copies of the items of `a`, in order.
pub open spec fn same_vec_assignment(a: Seq<Assignment>, b: Seq<Assignment>) -> bool
    decreases a,
{
    a.len() == b.len() && (a.len() == 0 || (same_vec_assignment(a.drop_last(), b.drop_last())
        && same_assignment(a.last(), b.last())))
}

/// `b` holds copies of the items of `a`, in order.
pub open spec fn same_vec_case_variant(a: Seq<CaseVariant>, b: Seq<CaseVariant>) -> bool
    decreases a,
{
    a.len() == b.len() && (a.len() == 0 || (same_vec_case_variant(a.drop_last(), b.drop_last())
        && same_case_variant(a.last(), b.last())))
}

/// `b` holds copies of the items of `a`, in order.
pub open spec fn same_vec_column_spec(a: Seq<ColumnSpec>, b: Seq<ColumnSpec>) -> bool
    decreases a,
{
    a.len() == b.len() && (a.len() == 0 || (same_vec_column_spec(a.drop_last(), b.drop_last())
        && same_column_spec(a.last(), b.last())))
}

/// `b` holds copies of the items of `a`, in order.
pub open spec fn same_vec_computed_column(a: Seq<ComputedColumn>, b: Seq<ComputedColumn>) -> bool
    decreases a,
{
    a.len() == b.len() && (a.len() == 0 || (same_vec_computed_column(a.drop_last(), b.drop_last())
        && same_computed_column(a.last(), b.last())))
}

/// `b` holds copies of the items of `a`, in order.
pub open spec fn same_vec_constant_def(a: Seq<ConstantDef>, b: Seq<ConstantDef>) -> bool
    decreases a,
{
    a.len() == b.len() && (a.len() == 0 || (same_vec_constant_def(a.drop_last(), b.drop_last())
        && same_constant_def(a.last(), b.last())))
}

/// `b` holds copies of the items of `a`, in order.
pub open spec fn same_vec_custom_comparison_def(a: Seq<CustomComparisonDef>, b: Seq<CustomComparisonDef>) -> bool
    decreases a,
{
    a.len() == b.len() && (a.len() == 0 || (same_vec_custom_comparison_def(a.drop_last(), b.drop_last())
        && same_custom_comparison_def(a.last(), b.last())))
}

/// `b` holds copies of the items of `a`, in order.
pub open spec fn same_vec_expr(a: Seq<Expr>, b: Seq<Expr>) -> bool
    decreases a,
{
    a.len() == b.len() && (a.len() == 0 || (same_vec_expr(a.drop_last(), b.drop_last())
        && same_expr(a.last(), b.last())))
}

/// `b` holds copies of the items of `a`, in order.
pub open spec fn same_vec_function_def(a: Seq<FunctionDef>, b: Seq<FunctionDef>) -> bool
    decreases a,
{
    a.len() == b.len() && (a.len() == 0 || (same_vec_function_def(a.drop_last(), b.drop_last())
        && same_function_def(a.last(), b.last())))
}

/// `b` holds copies of the items of `a`, in order.
pub open spec fn same_vec_path_part(a: Seq<PathPart>, b: Seq<PathPart>) -> bool
    decreases a,
{
    a.len() == b.len() && (a.len() == 0 || (same_vec_path_part(a.drop_last(), b.drop_last())
        && same_path_part(a.last(), b.last())))
}

/// `b` holds copies of the items of `a`, in order.
pub open spec fn same_vec_result_column_statement(a: Seq<ResultColumnStatement>, b: Seq<ResultColumnStatement>) -> bool
    decreases a,
{
    a.len() == b.len() && (a.len() == 0 || (same_vec_result_column_statement(a.drop_last(), b.drop_last())
        && same_result_column_statement(a.last(), b.last())))
}

/// `b` holds copies of the items of `a`, in order.
pub open spec fn same_vec_sort_expr(a: Seq<SortExpr>, b: Seq<SortExpr>) -> bool
    decreases a,
{
    a.len() == b.len() && (a.len() == 0 || (same_vec_sort_expr(a.drop_last(), b.drop_last())
        && same_sort_expr(a.last(), b.last())))
}

/// `b` holds copies of the items of `a`, in order.
pub open spec fn same_vec_table_def(a: Seq<TableDef>, b: Seq<TableDef>) -> bool
    decreases a,
{
    a.len() == b.len() && (a.len() == 0 || (same_vec_table_def(a.drop_last(), b.drop_last())
        && same_table_def(a.last(), b.last())))
}

/// `b` holds copies of the items of `a`, in order.
pub open spec fn same_vec_transformation(a: Seq<Transformation>, b: Seq<Transformation>) -> bool
    decreases a,
{
    a.len() == b.len() && (a.len() == 0 || (same_vec_transformation(a.drop_last(), b.drop_last())
        && same_transformation(a.last(), b.last())))
}

fn copy_query(v: &Query) -> (r: Query)
    ensures
        same_query(*v, r),
    decreases v,
{
    Query {
        definitions: copy_definitions(&v.definitions),
        base_table: copy_string(&v.base_table),
        transformations: copy_vec_transformation(&v.transformations),
    }
}

impl Clone for Query {
    fn clone(&self) -> (r: Query)
        ensures
            same_query(*self, r),
    {
        copy_query(self)
    }
}

fn copy_definitions(v: &Definitions) -> (r: Definitions)
    ensures
        same_definitions(*v, r),
    decreases v,
{
    Definitions {
        constants: copy_vec_constant_def(&v.constants),
        functions: copy_vec_function_def(&v.functions),
        custom_comparisons: copy_vec_custom_comparison_def(&v.custom_comparisons),
        computed_columns: copy_vec_computed_column(&v.computed_columns),
        tables: copy_vec_table_def(&v.tables),
    }
}

impl Clone for Definitions {
    fn clone(&self) -> (r: Definitions)
        ensures
            same_definitions(*self, r),
    {
        copy_definitions(self)
    }
}

fn copy_table_def(v: &TableDef) -> (r: TableDef)
    ensures
        same_table_def(*v, r),
    decreases v,
{
    TableDef {
        name: copy_string(&v.name),
        query: copy_query(&v.query),
    }
}

impl Clone for TableDef {
    fn clone(&self) -> (r: TableDef)
        ensures
            same_table_def(*self, r),
    {
        copy_table_def(self)
    }
}

fn copy_computed_column(v: &ComputedColumn) -> (r: ComputedColumn)
    ensures
        same_computed_column(*v, r),
    decreases v,
{
    ComputedColumn {
        table: copy_string(&v.table),
        name: copy_string(&v.name),
        expr: copy_expr(&v.expr),
    }
}

impl Clone for ComputedColumn {
    fn clone(&self) -> (r: ComputedColumn)
        ensures
            same_computed_column(*self, r),
    {
        copy_computed_column(self)
    }
}

fn copy_constant_def(v: &ConstantDef) -> (r: ConstantDef)
    ensures
        same_constant_def(*v, r),
    decreases v,
{
    ConstantDef {
        name: copy_string(&v.name),
        expr: copy_expr(&v.expr),
    }
}

impl Clone for ConstantDef {
    fn clone(&self) -> (r: ConstantDef)
        ensures
            same_constant_def(*self, r),
    {
        copy_constant_def(self)
    }
}

fn copy_function_def(v: &FunctionDef) -> (r: FunctionDef)
    ensures
        same_function_def(*v, r),
    decreases v,
{
    FunctionDef {
        name: copy_string(&v.name),
        params: copy_vec_string(&v.params),
        body: copy_function_body(&v.body),
    }
}

impl Clone for FunctionDef {
    fn clone(&self) -> (r: FunctionDef)
        ensures
            same_function_def(*self, r),
    {
        copy_function_def(self)
    }
}

fn copy_function_body(v: &FunctionBody) -> (r: FunctionBody)
    ensures
        same_function_body(*v, r),
    decreases v,
{
    FunctionBody {
        assignments: copy_vec_assignment(&v.assignments),
        expr: copy_expr(&v.expr),
    }
}

impl Clone for FunctionBody {
    fn clone(&self) -> (r: FunctionBody)
        ensures
            same_function_body(*self, r),
    {
        copy_function_body(self)
    }
}

fn copy_assignment(v: &Assignment) -> (r: Assignment)
    ensures
        same_assignment(*v, r),
    decreases v,
{
    Assignment {
        name: copy_string(&v.name),
        expr: copy_expr(&v.expr),
    }
}

impl Clone for Assignment {
    fn clone(&self) -> (r: Assignment)
        ensures
            same_assignment(*self, r),
    {
        copy_assignment(self)
    }
}

fn copy_custom_comparison_def(v: &CustomComparisonDef) -> (r: CustomComparisonDef)
    ensures
        same_custom_comparison_def(*v, r),
    decreases v,
{
    CustomComparisonDef {
        table: copy_string(&v.table),
        name: copy_string(&v.name),
        operator: v.operator,
        param: copy_string(&v.param),
        body: copy_expr(&v.body),
    }
}

impl Clone for CustomComparisonDef {
    fn clone(&self) -> (r: CustomComparisonDef)
        ensures
            same_custom_comparison_def(*self, r),
    {
        copy_custom_comparison_def(self)
    }
}

fn copy_transformation(v: &Transformation) -> (r: Transformation)
    ensures
        same_transformation(*v, r),
    decreases v,
{
    Transformation {
        conditions: copy_condition_set(&v.conditions),
        sorting: copy_vec_sort_expr(&v.sorting),
        result_columns: copy_vec_result_column_statement(&v.result_columns),
    }
}

impl Clone for Transformation {
    fn clone(&self) -> (r: Transformation)
        ensures
            same_transformation(*self, r),
    {
        copy_transformation(self)
    }
}

fn copy_sort_expr(v: &SortExpr) -> (r: SortExpr)
    ensures
        same_sort_expr(*v, r),
    decreases v,
{
    SortExpr {
        expr: copy_expr(&v.expr),
        direction: v.direction,
        nulls_sort: v.nulls_sort,
    }
}

impl Clone for SortExpr {
    fn clone(&self) -> (r: SortExpr)
        ensures
            same_sort_expr(*self, r),
    {
        copy_sort_expr(self)
    }
}

fn copy_anonymous_function_call(v: &AnonymousFunctionCall) -> (r: AnonymousFunctionCall)
    ensures
        same_anonymous_function_call(*v, r),
    decreases v,
{
    AnonymousFunctionCall {
        params: copy_vec_string(&v.params),
        body: copy_function_body(&v.body),
        args: copy_vec_expr(&v.args),
    }
}

impl Clone for AnonymousFunctionCall {
    fn clone(&self) -> (r: AnonymousFunctionCall)
        ensures
            same_anonymous_function_call(*self, r),
    {
        copy_anonymous_function_call(self)
    }
}

fn copy_window_fn(v: &WindowFn) -> (r: WindowFn)
    ensures
        same_window_fn(*v, r),
    decreases v,
{
    WindowFn {
        function: copy_string(&v.function),
        args: copy_vec_expr(&v.args),
        partition_by: copy_vec_expr(&v.partition_by),
        order_by: copy_vec_sort_expr(&v.order_by),
    }
}

impl Clone for WindowFn {
    fn clone(&self) -> (r: WindowFn)
        ensures
            same_window_fn(*self, r),
    {
        copy_window_fn(self)
    }
}

fn copy_table_with_many(v: &TableWithMany) -> (r: TableWithMany)
    ensures
        same_table_with_many(*v, r),
    decreases v,
{
    TableWithMany {
        table: copy_string(&v.table),
        condition_set: copy_condition_set(&v.condition_set),
        linking_column: copy_opt_string(&v.linking_column),
    }
}

impl Clone for TableWithMany {
    fn clone(&self) -> (r: TableWithMany)
        ensures
            same_table_with_many(*self, r),
    {
        copy_table_with_many(self)
    }
}

fn copy_comparison(v: &Comparison) -> (r: Comparison)
    ensures
        same_comparison(*v, r),
    decreases v,
{
    Comparison {
        left: copy_comparison_side(&v.left),
        operator: v.operator,
        right: copy_comparison_side(&v.right),
    }
}

impl Clone for Comparison {
    fn clone(&self) -> (r: Comparison)
        ensures
            same_comparison(*self, r),
    {
        copy_comparison(self)
    }
}

fn copy_range(v: &Range) -> (r: Range)
    ensures
        same_range(*v, r),
    decreases v,
{
    Range {
        lower: copy_range_bound(&v.lower),
        upper: copy_range_bound(&v.upper),
    }
}

impl Clone for Range {
    fn clone(&self) -> (r: Range)
        ensures
            same_range(*self, r),
    {
        copy_range(self)
    }
}

fn copy_range_bound(v: &RangeBound) -> (r: RangeBound)
    ensures
        same_range_bound(*v, r),
    decreases v,
{
    RangeBound {
        expr: copy_expr(&v.expr),
        exclusivity: v.exclusivity,
    }
}

impl Clone for RangeBound {
    fn clone(&self) -> (r: RangeBound)
        ensures
            same_range_bound(*self, r),
    {
        copy_range_bound(self)
    }
}

fn copy_condition_set(v: &ConditionSet) -> (r: ConditionSet)
    ensures
        same_condition_set(*v, r),
    decreases v,
{
    ConditionSet {
        conjunction: v.conjunction,
        entries: copy_vec_expr(&v.entries),
    }
}

impl Clone for ConditionSet {
    fn clone(&self) -> (r: ConditionSet)
        ensures
            same_condition_set(*self, r),
    {
        copy_condition_set(self)
    }
}

fn copy_scoped_condition_set(v: &ScopedConditionSet) -> (r: ScopedConditionSet)
    ensures
        same_scoped_condition_set(*v, r),
    decreases v,
{
    ScopedConditionSet {
        path: copy_vec_path_part(&v.path),
        condition_set: copy_condition_set(&v.condition_set),
    }
}

impl Clone for ScopedConditionSet {
    fn clone(&self) -> (r: ScopedConditionSet)
        ensures
            same_scoped_condition_set(*self, r),
    {
        copy_scoped_condition_set(self)
    }
}

fn copy_has_quantity(v: &HasQuantity) -> (r: HasQuantity)
    ensures
        same_has_quantity(*v, r),
    decreases v,
{
    HasQuantity {
        quantity: v.quantity,
        path_parts: copy_vec_path_part(&v.path_parts),
    }
}

impl Clone for HasQuantity {
    fn clone(&self) -> (r: HasQuantity)
        ensures
            same_has_quantity(*self, r),
    {
        copy_has_quantity(self)
    }
}

fn copy_case(v: &Case) -> (r: Case)
    ensures
        same_case(*v, r),
    decreases v,
{
    Case {
        variants: copy_vec_case_variant(&v.variants),
        fallback: Box::new(copy_expr(&v.fallback)),
    }
}

impl Clone for Case {
    fn clone(&self) -> (r: Case)
        ensures
            same_case(*self, r),
    {
        copy_case(self)
    }
}

fn copy_case_variant(v: &CaseVariant) -> (r: CaseVariant)
    ensures
        same_case_variant(*v, r),
    decreases v,
{
    CaseVariant {
        condition: copy_expr(&v.condition),
        value: copy_expr(&v.value),
    }
}

impl Clone for CaseVariant {
    fn clone(&self) -> (r: CaseVariant)
        ensures
            same_case_variant(*self, r),
    {
        copy_case_variant(self)
    }
}

fn copy_call(v: &Call) -> (r: Call)
    ensures
        same_call(*v, r),
    decreases v,
{
    Call {
        name: copy_string(&v.name),
        dimension: v.dimension,
        args: copy_vec_expr(&v.args),
        syntax: v.syntax,
        order_by: copy_vec_sort_expr(&v.order_by),
    }
}

impl Clone for Call {
    fn clone(&self) -> (r: Call)
        ensures
            same_call(*self, r),
    {
        copy_call(self)
    }
}

fn copy_column_spec(v: &ColumnSpec) -> (r: ColumnSpec)
    ensures
        same_column_spec(*v, r),
    decreases v,
{
    ColumnSpec {
        expr: copy_expr(&v.expr),
        alias: copy_opt_string(&v.alias),
        column_control: v.column_control,
        annotation: copy_opt_annotation(&v.annotation),
    }
}

impl Clone for ColumnSpec {
    fn clone(&self) -> (r: ColumnSpec)
        ensures
            same_column_spec(*self, r),
    {
        copy_column_spec(self)
    }
}

fn copy_column_glob(v: &ColumnGlob) -> (r: ColumnGlob)
    ensures
        same_column_glob(*v, r),
    decreases v,
{
    ColumnGlob {
        head: copy_vec_path_part(&v.head),
        specs: copy_vec_column_spec(&v.specs),
    }
}

impl Clone for ColumnGlob {
    fn clone(&self) -> (r: ColumnGlob)
        ensures
            same_column_glob(*self, r),
    {
        copy_column_glob(self)
    }
}

fn copy_annotation_value(v: &AnnotationValue) -> (r: AnnotationValue)
    ensures
        same_annotation_value(*v, r),
    decreases v,
{
    match v {
        AnnotationValue::Null => AnnotationValue::Null,
        AnnotationValue::Bool(x) => AnnotationValue::Bool(*x),
        AnnotationValue::Number(x) => AnnotationValue::Number(copy_string(x)),
        AnnotationValue::String(x) => AnnotationValue::String(copy_string(x)),
        AnnotationValue::Array(x) => AnnotationValue::Array(copy_vec_annotation_value(x)),
        AnnotationValue::Object(x) => AnnotationValue::Object(copy_vec_entry(x)),
    }
}

impl Clone for AnnotationValue {
    fn clone(&self) -> (r: AnnotationValue)
        ensures
            same_annotation_value(*self, r),
    {
        copy_annotation_value(self)
    }
}

fn copy_expr(v: &Expr) -> (r: Expr)
    ensures
        same_expr(*v, r),
    decreases v,
{
    match v {
        Expr::Number(x) => Expr::Number(copy_string(x)),
        Expr::Date(x) => Expr::Date(copy_date(x)),
        Expr::Duration(x) => Expr::Duration(copy_duration(x)),
        Expr::String(x) => Expr::String(copy_string(x)),
        Expr::Variable(x) => Expr::Variable(copy_string(x)),
        Expr::Path(x) => Expr::Path(copy_vec_path_part(x)),
        Expr::ConditionSet(x) => Expr::ConditionSet(copy_condition_set(x)),
        Expr::ScopedConditionSet(x) => Expr::ScopedConditionSet(copy_scoped_condition_set(x)),
        Expr::HasQuantity(x) => Expr::HasQuantity(copy_has_quantity(x)),
        Expr::Case(x) => Expr::Case(copy_case(x)),
        Expr::Call(x) => Expr::Call(copy_call(x)),
        Expr::Product(x1, x2) => Expr::Product(Box::new(copy_expr(x1)), Box::new(copy_expr(x2))),
        Expr::Quotient(x1, x2) => Expr::Quotient(Box::new(copy_expr(x1)), Box::new(copy_expr(x2))),
        Expr::Sum(x1, x2) => Expr::Sum(Box::new(copy_expr(x1)), Box::new(copy_expr(x2))),
        Expr::Difference(x1, x2) => Expr::Difference(Box::new(copy_expr(x1)), Box::new(copy_expr(x2))),
        Expr::Comparison(x) => Expr::Comparison(Box::new(copy_comparison(x))),
        Expr::Not(x) => Expr::Not(Box::new(copy_expr(x))),
        Expr::Window(x) => Expr::Window(copy_window_fn(x)),
        Expr::AnonymousFunctionCall(x) => Expr::AnonymousFunctionCall(Box::new(copy_anonymous_function_call(x))),
        Expr::Subquery(x) => Expr::Subquery(Box::new(copy_query(x))),
    }
}

impl Clone for Expr {
    fn clone(&self) -> (r: Expr)
        ensures
            same_expr(*self, r),
    {
        copy_expr(self)
    }
}

fn copy_path_part(v: &PathPart) -> (r: PathPart)
    ensures
        same_path_part(*v, r),
    decreases v,
{
    match v {
        PathPart::Column(x) => PathPart::Column(copy_string(x)),
        PathPart::TableWithOne(x) => PathPart::TableWithOne(copy_string(x)),
        PathPart::TableWithMany(x) => PathPart::TableWithMany(copy_table_with_many(x)),
    }
}

impl Clone for PathPart {
    fn clone(&self) -> (r: PathPart)
        ensures
            same_path_part(*self, r),
    {
        copy_path_part(self)
    }
}

fn copy_comparison_side(v: &ComparisonSide) -> (r: ComparisonSide)
    ensures
        same_comparison_side(*v, r),
    decreases v,
{
    match v {
        ComparisonSide::Expr(x) => ComparisonSide::Expr(copy_expr(x)),
        ComparisonSide::Expansion(x) => ComparisonSide::Expansion(copy_condition_set(x)),
        ComparisonSide::Range(x) => ComparisonSide::Range(copy_range(x)),
    }
}

impl Clone for ComparisonSide {
    fn clone(&self) -> (r: ComparisonSide)
        ensures
            same_comparison_side(*self, r),
    {
        copy_comparison_side(self)
    }
}

fn copy_result_column_statement(v: &ResultColumnStatement) -> (r: ResultColumnStatement)
    ensures
        same_result_column_statement(*v, r),
    decreases v,
{
    match v {
        ResultColumnStatement::Spec(x) => ResultColumnStatement::Spec(copy_column_spec(x)),
        ResultColumnStatement::Glob(x) => ResultColumnStatement::Glob(copy_column_glob(x)),
    }
}

impl Clone for ResultColumnStatement {
    fn clone(&self) -> (r: ResultColumnStatement)
        ensures
            same_result_column_statement(*self, r),
    {
        copy_result_column_statement(self)
    }
}

pub(crate) fn copy_vec_entry(v: &Vec<(String, AnnotationValue)>) -> (r: Vec<(String, AnnotationValue)>)
    ensures
        same_vec_entry(v@, r@),
    decreases v,
{
    let mut r: Vec<(String, AnnotationValue)> = Vec::new();
    let mut i: usize = 0;
    while i < v.len()
        invariant
            i <= v.len(),
            same_vec_entry(v@.take(i as int), r@),
        decreases v.len() - i,
    {
        proof {
            assert(decreases_to!(v => v@));
            assert(decreases_to!(v@ => v@[i as int]));
        }
        let item = (copy_string(&v[i].0), copy_annotation_value(&v[i].1));
        let ghost before = r@;
        r.push(item);
        proof {
            assert(v@.take(i + 1).drop_last() =~= v@.take(i as int));
            assert(r@.drop_last() =~= before);
            assert(v@.take(i + 1).last() == v@[i as int]);
        }
        i = i + 1;
    }
    proof {
        assert(v@.take(i as int) =~= v@);
    }
    r
}

pub(crate) fn copy_vec_annotation_value(v: &Vec<AnnotationValue>) -> (r: Vec<AnnotationValue>)
    ensures
        same_vec_annotation_value(v@, r@),
    decreases v,
{
    let mut r: Vec<AnnotationValue> = Vec::new();
    let mut i: usize = 0;
    while i < v.len()
        invariant
            i <= v.len(),
            same_vec_annotation_value(v@.take(i as int), r@),
        decreases v.len() - i,
    {
        proof {
            assert(decreases_to!(v => v@));
            assert(decreases_to!(v@ => v@[i as int]));
        }
        let item = copy_annotation_value(&v[i]);
        let ghost before = r@;
        r.push(item);
        proof {
            assert(v@.take(i + 1).drop_last() =~= v@.take(i as int));
            assert(r@.drop_last() =~= before);
            assert(v@.take(i + 1).last() == v@[i as int]);
        }
        i = i + 1;
    }
    proof {
        assert(v@.take(i as int) =~= v@);
    }
    r
}

pub(crate) fn copy_vec_assignment(v: &Vec<Assignment>) -> (r: Vec<Assignment>)
    ensures
        same_vec_assignment(v@, r@),
    decreases v,
{
    let mut r: Vec<Assignment> = Vec::new();
    let mut i: usize = 0;
    while i < v.len()
        invariant
            i <= v.len(),
            same_vec_assignment(v@.take(i as int), r@),
        decreases v.len() - i,
    {
        proof {
            assert(decreases_to!(v => v@));
            assert(decreases_to!(v@ => v@[i as int]));
        }
        let item = copy_assignment(&v[i]);
        let ghost before = r@;
        r.push(item);
        proof {
            assert(v@.take(i + 1).drop_last() =~= v@.take(i as int));
            assert(r@.drop_last() =~= before);
            assert(v@.take(i + 1).last() == v@[i as int]);
        }
        i = i + 1;
    }
    proof {
        assert(v@.take(i as int) =~= v@);
    }
    r
}

pub(crate) fn copy_vec_case_variant(v: &Vec<CaseVariant>) -> (r: Vec<CaseVariant>)
    ensures
        same_vec_case_variant(v@, r@),
    decreases v,
{
    let mut r: Vec<CaseVariant> = Vec::new();
    let mut i: usize = 0;
    while i < v.len()
        invariant
            i <= v.len(),
            same_vec_case_variant(v@.take(i as int), r@),
        decreases v.len() - i,
    {
        proof {
            assert(decreases_to!(v => v@));
            assert(decreases_to!(v@ => v@[i as int]));
        }
        let item = copy_case_variant(&v[i]);
        let ghost before = r@;
        r.push(item);
        proof {
            assert(v@.take(i + 1).drop_last() =~= v@.take(i as int));
            assert(r@.drop_last() =~= before);
            assert(v@.take(i + 1).last() == v@[i as int]);
        }
        i = i + 1;
    }
    proof {
        assert(v@.take(i as int) =~= v@);
    }
    r
}

pub(crate) fn copy_vec_column_spec(v: &Vec<ColumnSpec>) -> (r: Vec<ColumnSpec>)
    ensures
        same_vec_column_spec(v@, r@),
    decreases v,
{
    let mut r: Vec<ColumnSpec> = Vec::new();
    let mut i: usize = 0;
    while i < v.len()
        invariant
            i <= v.len(),
            same_vec_column_spec(v@.take(i as int), r@),
        decreases v.len() - i,
    {
        proof {
            assert(decreases_to!(v => v@));
            assert(decreases_to!(v@ => v@[i as int]));
        }
        let item = copy_column_spec(&v[i]);
        let ghost before = r@;
        r.push(item);
        proof {
            assert(v@.take(i + 1).drop_last() =~= v@.take(i as int));
            assert(r@.drop_last() =~= before);
            assert(v@.take(i + 1).last() == v@[i as int]);
        }
        i = i + 1;
    }
    proof {
        assert(v@.take(i as int) =~= v@);
    }
    r
}

pub(crate) fn copy_vec_computed_column(v: &Vec<ComputedColumn>) -> (r: Vec<ComputedColumn>)
    ensures
        same_vec_computed_column(v@, r@),
    decreases v,
{
    let mut r: Vec<ComputedColumn> = Vec::new();
    let mut i: usize = 0;
    while i < v.len()
        invariant
            i <= v.len(),
            same_vec_computed_column(v@.take(i as int), r@),
        decreases v.len() - i,
    {
        proof {
            assert(decreases_to!(v => v@));
            assert(decreases_to!(v@ => v@[i as int]));
        }
        let item = copy_computed_column(&v[i]);
        let ghost before = r@;
        r.push(item);
        proof {
            assert(v@.take(i + 1).drop_last() =~= v@.take(i as int));
            assert(r@.drop_last() =~= before);
            assert(v@.take(i + 1).last() == v@[i as int]);
        }
        i = i + 1;
    }
    proof {
        assert(v@.take(i as int) =~= v@);
    }
    r
}

pub(crate) fn copy_vec_constant_def(v: &Vec<ConstantDef>) -> (r: Vec<ConstantDef>)
    ensures
        same_vec_constant_def(v@, r@),
    decreases v,
{
    let mut r: Vec<ConstantDef> = Vec::new();
    let mut i: usize = 0;
    while i < v.len()
        invariant
            i <= v.len(),
            same_vec_constant_def(v@.take(i as int), r@),
        decreases v.len() - i,
    {
        proof {
            assert(decreases_to!(v => v@));
            assert(decreases_to!(v@ => v@[i as int]));
        }
        let item = copy_constant_def(&v[i]);
        let ghost before = r@;
        r.push(item);
        proof {
            assert(v@.take(i + 1).drop_last() =~= v@.take(i as int));
            assert(r@.drop_last() =~= before);
            assert(v@.take(i + 1).last() == v@[i as int]);
        }
        i = i + 1;
    }
    proof {
        assert(v@.take(i as int) =~= v@);
    }
    r
}

pub(crate) fn copy_vec_custom_comparison_def(v: &Vec<CustomComparisonDef>) -> (r: Vec<CustomComparisonDef>)
    ensures
        same_vec_custom_comparison_def(v@, r@),
    decreases v,
{
    let mut r: Vec<CustomComparisonDef> = Vec::new();
    let mut i: usize = 0;
    while i < v.len()
        invariant
            i <= v.len(),
            same_vec_custom_comparison_def(v@.take(i as int), r@),
        decreases v.len() - i,
    {
        proof {
            assert(decreases_to!(v => v@));
            assert(decreases_to!(v@ => v@[i as int]));
        }
        let item = copy_custom_comparison_def(&v[i]);
        let ghost before = r@;
        r.push(item);
        proof {
            assert(v@.take(i + 1).drop_last() =~= v@.take(i as int));
            assert(r@.drop_last() =~= before);
            assert(v@.take(i + 1).last() == v@[i as int]);
        }
        i = i + 1;
    }
    proof {
        assert(v@.take(i as int) =~= v@);
    }
    r
}

pub(crate) fn copy_vec_expr(v: &Vec<Expr>) -> (r: Vec<Expr>)
    ensures
        same_vec_expr(v@, r@),
    decreases v,
{
    let mut r: Vec<Expr> = Vec::new();
    let mut i: usize = 0;
    while i < v.len()
        invariant
            i <= v.len(),
            same_vec_expr(v@.take(i as int), r@),
        decreases v.len() - i,
    {
        proof {
            assert(decreases_to!(v => v@));
            assert(decreases_to!(v@ => v@[i as int]));
        }
        let item = copy_expr(&v[i]);
        let ghost before = r@;
        r.push(item);
        proof {
            assert(v@.take(i + 1).drop_last() =~= v@.take(i as int));
            assert(r@.drop_last() =~= before);
            assert(v@.take(i + 1).last() == v@[i as int]);
        }
        i = i + 1;
    }
    proof {
        assert(v@.take(i as int) =~= v@);
    }
    r
}

pub(crate) fn copy_vec_function_def(v: &Vec<FunctionDef>) -> (r: Vec<FunctionDef>)
    ensures
        same_vec_function_def(v@, r@),
    decreases v,
{
    let mut r: Vec<FunctionDef> = Vec::new();
    let mut i: usize = 0;
    while i < v.len()
        invariant
            i <= v.len(),
            same_vec_function_def(v@.take(i as int), r@),
        decreases v.len() - i,
    {
        proof {
            assert(decreases_to!(v => v@));
            assert(decreases_to!(v@ => v@[i as int]));
        }
        let item = copy_function_def(&v[i]);
        let ghost before = r@;
        r.push(item);
        proof {
            assert(v@.take(i + 1).drop_last() =~= v@.take(i as int));
            assert(r@.drop_last() =~= before);
            assert(v@.take(i + 1).last() == v@[i as int]);
        }
        i = i + 1;
    }
    proof {
        assert(v@.take(i as int) =~= v@);
    }
    r
}

pub(crate) fn copy_vec_path_part(v: &Vec<PathPart>) -> (r: Vec<PathPart>)
    ensures
        same_vec_path_part(v@, r@),
    decreases v,
{
    let mut r: Vec<PathPart> = Vec::new();
    let mut i: usize = 0;
    while i < v.len()
        invariant
            i <= v.len(),
            same_vec_path_part(v@.take(i as int), r@),
        decreases v.len() - i,
    {
        proof {
            assert(decreases_to!(v => v@));
            assert(decreases_to!(v@ => v@[i as int]));
        }
        let item = copy_path_part(&v[i]);
        let ghost before = r@;
        r.push(item);
        proof {
            assert(v@.take(i + 1).drop_last() =~= v@.take(i as int));
            assert(r@.drop_last() =~= before);
            assert(v@.take(i + 1).last() == v@[i as int]);
        }
        i = i + 1;
    }
    proof {
        assert(v@.take(i as int) =~= v@);
    }
    r
}

pub(crate) fn copy_vec_result_column_statement(v: &Vec<ResultColumnStatement>) -> (r: Vec<ResultColumnStatement>)
    ensures
        same_vec_result_column_statement(v@, r@),
    decreases v,
{
    let mut r: Vec<ResultColumnStatement> = Vec::new();
    let mut i: usize = 0;
    while i < v.len()
        invariant
            i <= v.len(),
            same_vec_result_column_statement(v@.take(i as int), r@),
        decreases v.len() - i,
    {
        proof {
            assert(decreases_to!(v => v@));
            assert(decreases_to!(v@ => v@[i as int]));
        }
        let item = copy_result_column_statement(&v[i]);
        let ghost before = r@;
        r.push(item);
        proof {
            assert(v@.take(i + 1).drop_last() =~= v@.take(i as int));
            assert(r@.drop_last() =~= before);
            assert(v@.take(i + 1).last() == v@[i as int]);
        }
        i = i + 1;
    }
    proof {
        assert(v@.take(i as int) =~= v@);
    }
    r
}

pub(crate) fn copy_vec_sort_expr(v: &Vec<SortExpr>) -> (r: Vec<SortExpr>)
    ensures
        same_vec_sort_expr(v@, r@),
    decreases v,
{
    let mut r: Vec<SortExpr> = Vec::new();
    let mut i: usize = 0;
    while i < v.len()
        invariant
            i <= v.len(),
            same_vec_sort_expr(v@.take(i as int), r@),
        decreases v.len() - i,
    {
        proof {
            assert(decreases_to!(v => v@));
            assert(decreases_to!(v@ => v@[i as int]));
        }
        let item = copy_sort_expr(&v[i]);
        let ghost before = r@;
        r.push(item);
        proof {
            assert(v@.take(i + 1).drop_last() =~= v@.take(i as int));
            assert(r@.drop_last() =~= before);
            assert(v@.take(i + 1).last() == v@[i as int]);
        }
        i = i + 1;
    }
    proof {
        assert(v@.take(i as int) =~= v@);
    }
    r
}

pub(crate) fn copy_vec_table_def(v: &Vec<TableDef>) -> (r: Vec<TableDef>)
    ensures
        same_vec_table_def(v@, r@),
    decreases v,
{
    let mut r: Vec<TableDef> = Vec::new();
    let mut i: usize = 0;
    while i < v.len()
        invariant
            i <= v.len(),
            same_vec_table_def(v@.take(i as int), r@),
        decreases v.len() - i,
    {
        proof {
            assert(decreases_to!(v => v@));
            assert(decreases_to!(v@ => v@[i as int]));
        }
        let item = copy_table_def(&v[i]);
        let ghost before = r@;
        r.push(item);
        proof {
            assert(v@.take(i + 1).drop_last() =~= v@.take(i as int));
            assert(r@.drop_last() =~= before);
            assert(v@.take(i + 1).last() == v@[i as int]);
        }
        i = i + 1;
    }
    proof {
        assert(v@.take(i as int) =~= v@);
    }
    r
}

pub(crate) fn copy_vec_transformation(v: &Vec<Transformation>) -> (r: Vec<Transformation>)
    ensures
        same_vec_transformation(v@, r@),
    decreases v,
{
    let mut r: Vec<Transformation> = Vec::new();
    let mut i: usize = 0;
    while i < v.len()
        invariant
            i <= v.len(),
            same_vec_transformation(v@.take(i as int), r@),
        decreases v.len() - i,
    {
        proof {
            assert(decreases_to!(v => v@));
            assert(decreases_to!(v@ => v@[i as int]));
        }
        let item = copy_transformation(&v[i]);
        let ghost before = r@;
        r.push(item);
        proof {
            assert(v@.take(i + 1).drop_last() =~= v@.take(i as int));
            assert(r@.drop_last() =~= before);
            assert(v@.take(i + 1).last() == v@[i as int]);
        }
        i = i + 1;
    }
    proof {
        assert(v@.take(i as int) =~= v@);
    }
    r
}

} // verus!
