//! Plain models of syntax trees: the same shapes with strings as character sequences and lists as
//! sequences, so that contracts can say which tree a parser builds.
use vstd::prelude::*;

use crate::ast::{
    AnnotationValue, AnonymousFunctionCall, Assignment, Call, CallSyntax, Case, CaseVariant, ColumnControl,
    ColumnGlob, ColumnSpec, Comparison, ComparisonSide, ComputedColumn, ConditionSet, Conjunction,
    ConstantDef, CustomComparisonDef, Date, Definitions, Duration, Exclusivity, Expr, FunctionBody,
    FunctionDef, FunctionDimension, HasQuantity, NullsSort, Operator, PathPart, Quantity, Query, Range,
    RangeBound, ResultColumnStatement, ScopedConditionSet, SortDirection, SortExpr, TableDef,
    TableWithMany, Transformation, WindowFn,
};
use crate::decimal::{trim_trailing_zeros, Decimal};
use crate::nesting::{has_leading_column, prefixed_parts, prefixes};
use crate::sections::{annotation_entries_v, annotation_value_v, annotation_values_v, AnnotationValueV};
use crate::copy::{
    same_annotation_value, same_anonymous_function_call, same_assignment, same_call, same_case, same_case_variant, same_column_glob, same_column_spec, same_comparison, same_comparison_side, same_computed_column, same_condition_set, same_constant_def, same_custom_comparison_def, same_definitions, same_expr, same_function_body, same_function_def, same_has_quantity, same_opt_annotation, same_path_part, same_query, same_range, same_range_bound, same_result_column_statement, same_scoped_condition_set, same_sort_expr, same_table_def, same_table_with_many, same_transformation, same_vec_annotation_value, same_vec_assignment, same_vec_case_variant, same_vec_column_spec, same_vec_computed_column, same_vec_constant_def, same_vec_custom_comparison_def, same_vec_entry, same_vec_expr, same_vec_function_def, same_vec_path_part, same_vec_result_column_statement, same_vec_sort_expr, same_vec_table_def, same_vec_transformation, same_window_fn,
};
use crate::tokens::{
    component, decimal_of_part, duration_from_parts, units_distinct, DurationPart, DurationUnit,
};

verus! {

/// A [`Decimal`] as its two digit sequences.
pub struct DecimalV {
    pub whole: Seq<char>,
    pub fraction: Seq<char>,
}

/// A [`Duration`] with each component as a [`DecimalV`].
pub struct DurationV {
    pub years: DecimalV,
    pub months: DecimalV,
    pub weeks: DecimalV,
    pub days: DecimalV,
    pub hours: DecimalV,
    pub minutes: DecimalV,
    pub seconds: DecimalV,
}

/// The plain model of a [`Decimal`].
pub open spec fn decimal_v(d: Decimal) -> DecimalV {
    DecimalV { whole: d.whole@, fraction: d.fraction@ }
}

/// The plain model of a [`Duration`].
pub open spec fn duration_v(d: Duration) -> DurationV {
    DurationV {
        years: decimal_v(d.years),
        months: decimal_v(d.months),
        weeks: decimal_v(d.weeks),
        days: decimal_v(d.days),
        hours: decimal_v(d.hours),
        minutes: decimal_v(d.minutes),
        seconds: decimal_v(d.seconds),
    }
}

/// The index of the last part with unit `u`, if any.
pub open spec fn part_with_unit(parts: Seq<DurationPart>, u: DurationUnit) -> Option<int>
    decreases parts.len(),
{
    if parts.len() == 0 {
        None
    } else if parts.last().unit == u {
        Some(parts.len() - 1)
    } else {
        part_with_unit(parts.drop_last(), u)
    }
}

proof fn lemma_part_with_unit(parts: Seq<DurationPart>, u: DurationUnit)
    ensures
        part_with_unit(parts, u) matches Some(k) ==> 0 <= k < parts.len() && parts[k].unit == u,
        part_with_unit(parts, u) is None ==> forall|k: int| 0 <= k < parts.len() ==> parts[k].unit != u,
    decreases parts.len(),
{
    if parts.len() > 0 && parts.last().unit != u {
        lemma_part_with_unit(parts.drop_last(), u);
        assert forall|k: int| 0 <= k < parts.len() - 1 implies parts[k] == parts.drop_last()[k] by {}
    }
}

/// The component for unit `u` of the duration that `parts` of `s` write: the number of the part
/// with that unit, or zero.
pub open spec fn component_value(s: Seq<char>, parts: Seq<DurationPart>, u: DurationUnit) -> DecimalV {
    match part_with_unit(parts, u) {
        Some(k) => DecimalV {
            whole: s.subrange(parts[k].whole_from as int, parts[k].whole_to as int),
            fraction: trim_trailing_zeros(s.subrange(parts[k].frac_from as int, parts[k].frac_to as int)),
        },
        None => DecimalV { whole: seq!['0'], fraction: Seq::empty() },
    }
}

/// The duration that `parts` of `s` write.
pub open spec fn duration_value(s: Seq<char>, parts: Seq<DurationPart>) -> DurationV {
    DurationV {
        years: component_value(s, parts, DurationUnit::Year),
        months: component_value(s, parts, DurationUnit::Month),
        weeks: component_value(s, parts, DurationUnit::Week),
        days: component_value(s, parts, DurationUnit::Day),
        hours: component_value(s, parts, DurationUnit::Hour),
        minutes: component_value(s, parts, DurationUnit::Minute),
        seconds: component_value(s, parts, DurationUnit::Second),
    }
}

proof fn lemma_component_value(d: Duration, s: Seq<char>, parts: Seq<DurationPart>, u: DurationUnit)
    requires
        duration_from_parts(d, s, parts),
        units_distinct(parts),
    ensures
        decimal_v(component(d, u)) == component_value(s, parts, u),
{
    lemma_part_with_unit(parts, u);
    let c = component(d, u);
    match part_with_unit(parts, u) {
        Some(k) => {
            if exists|j: int| 0 <= j < parts.len() && parts[j].unit == u && decimal_of_part(c, s, parts[j]) {
                let j = choose|j: int| 0 <= j < parts.len() && parts[j].unit == u && decimal_of_part(c, s, parts[j]);
                if j != k {
                    if j < k {
                        assert(parts[j].unit != parts[k].unit);
                    } else {
                        assert(parts[k].unit != parts[j].unit);
                    }
                }
            } else {
                assert(parts[k].unit != u);
            }
        },
        None => {
            assert(c.spec_is_zero());
            assert(c.fraction@ =~= Seq::<char>::empty());
        },
    }
}

/// A duration is modelled by the duration that its parts write.
pub proof fn lemma_duration_value(d: Duration, s: Seq<char>, parts: Seq<DurationPart>)
    requires
        duration_from_parts(d, s, parts),
        units_distinct(parts),
    ensures
        duration_v(d) == duration_value(s, parts),
{
    lemma_component_value(d, s, parts, DurationUnit::Year);
    lemma_component_value(d, s, parts, DurationUnit::Month);
    lemma_component_value(d, s, parts, DurationUnit::Week);
    lemma_component_value(d, s, parts, DurationUnit::Day);
    lemma_component_value(d, s, parts, DurationUnit::Hour);
    lemma_component_value(d, s, parts, DurationUnit::Minute);
    lemma_component_value(d, s, parts, DurationUnit::Second);
}

/// Pushing onto the front part of a concatenation is prepending to its back part.
pub proof fn lemma_push_assoc<T>(a: Seq<T>, x: T, b: Seq<T>)
    ensures
        a.push(x) + b == a + (seq![x] + b),
{
    assert(a.push(x) + b =~= a + (seq![x] + b));
}

/// The character sequences of a list of strings.
pub open spec fn strings_v(a: Seq<String>) -> Seq<Seq<char>> {
    a.map_values(|x: String| x@)
}

/// The character sequence of an optional string.
pub open spec fn opt_string_v(a: Option<String>) -> Option<Seq<char>> {
    match a {
        Some(x) => Some(x@),
        None => None,
    }
}

/// The plain model of an optional annotation.
pub open spec fn opt_annotation_v(a: Option<AnnotationValue>) -> Option<AnnotationValueV> {
    match a {
        Some(x) => Some(annotation_value_v(x)),
        None => None,
    }
}

/// A [`Query`] with its strings and lists as sequences.
pub struct QueryV {
    pub definitions: DefinitionsV,
    pub base_table: Seq<char>,
    pub transformations: Seq<TransformationV>,
}

/// A [`Definitions`] with its strings and lists as sequences.
pub struct DefinitionsV {
    pub constants: Seq<ConstantDefV>,
    pub functions: Seq<FunctionDefV>,
    pub custom_comparisons: Seq<CustomComparisonDefV>,
    pub computed_columns: Seq<ComputedColumnV>,
    pub tables: Seq<TableDefV>,
}

/// A [`TableDef`] with its strings and lists as sequences.
pub struct TableDefV {
    pub name: Seq<char>,
    pub query: QueryV,
}

/// A [`ComputedColumn`] with its strings and lists as sequences.
pub struct ComputedColumnV {
    pub table: Seq<char>,
    pub name: Seq<char>,
    pub expr: ExprV,
}

/// A [`ConstantDef`] with its strings and lists as sequences.
pub struct ConstantDefV {
    pub name: Seq<char>,
    pub expr: ExprV,
}

/// A [`FunctionDef`] with its strings and lists as sequences.
pub struct FunctionDefV {
    pub name: Seq<char>,
    pub params: Seq<Seq<char>>,
    pub body: FunctionBodyV,
}

/// A [`FunctionBody`] with its strings and lists as sequences.
pub struct FunctionBodyV {
    pub assignments: Seq<AssignmentV>,
    pub expr: ExprV,
}

/// A [`Assignment`] with its strings and lists as sequences.
pub struct AssignmentV {
    pub name: Seq<char>,
    pub expr: ExprV,
}

/// A [`CustomComparisonDef`] with its strings and lists as sequences.
pub struct CustomComparisonDefV {
    pub table: Seq<char>,
    pub name: Seq<char>,
    pub operator: Operator,
    pub param: Seq<char>,
    pub body: ExprV,
}

/// A [`Transformation`] with its strings and lists as sequences.
pub struct TransformationV {
    pub conditions: ConditionSetV,
    pub sorting: Seq<SortExprV>,
    pub result_columns: Seq<ResultColumnStatementV>,
}

/// A [`SortExpr`] with its strings and lists as sequences.
pub struct SortExprV {
    pub expr: ExprV,
    pub direction: SortDirection,
    pub nulls_sort: NullsSort,
}

/// A [`AnonymousFunctionCall`] with its strings and lists as sequences.
pub struct AnonymousFunctionCallV {
    pub params: Seq<Seq<char>>,
    pub body: FunctionBodyV,
    pub args: Seq<ExprV>,
}

/// A [`WindowFn`]: its function and arguments. The partition and the ordering are left out of
/// the model.
pub struct WindowFnV {
    pub function: Seq<char>,
    pub args: Seq<ExprV>,
}

/// A [`TableWithMany`] with its strings and lists as sequences.
pub struct TableWithManyV {
    pub table: Seq<char>,
    pub condition_set: ConditionSetV,
    pub linking_column: Option<Seq<char>>,
}

/// A [`Comparison`] with its strings and lists as sequences.
pub struct ComparisonV {
    pub left: ComparisonSideV,
    pub operator: Operator,
    pub right: ComparisonSideV,
}

/// A [`Range`] with its strings and lists as sequences.
pub struct RangeV {
    pub lower: RangeBoundV,
    pub upper: RangeBoundV,
}

/// A [`RangeBound`] with its strings and lists as sequences.
pub struct RangeBoundV {
    pub expr: ExprV,
    pub exclusivity: Exclusivity,
}

/// A [`ConditionSet`] with its strings and lists as sequences.
pub struct ConditionSetV {
    pub conjunction: Conjunction,
    pub entries: Seq<ExprV>,
}

/// A [`ScopedConditionSet`] with its strings and lists as sequences.
pub struct ScopedConditionSetV {
    pub path: Seq<PathPartV>,
    pub condition_set: ConditionSetV,
}

/// A [`HasQuantity`] with its strings and lists as sequences.
pub struct HasQuantityV {
    pub quantity: Quantity,
    pub path_parts: Seq<PathPartV>,
}

/// A [`Case`] with its strings and lists as sequences.
pub struct CaseV {
    pub variants: Seq<CaseVariantV>,
    pub fallback: Box<ExprV>,
}

/// A [`CaseVariant`] with its strings and lists as sequences.
pub struct CaseVariantV {
    pub condition: ExprV,
    pub value: ExprV,
}

/// A [`Call`] with its strings and lists as sequences.
pub struct CallV {
    pub name: Seq<char>,
    pub dimension: FunctionDimension,
    pub args: Seq<ExprV>,
    pub syntax: CallSyntax,
    pub order_by: Seq<SortExprV>,
}

/// A [`ColumnSpec`] with its strings and lists as sequences.
pub struct ColumnSpecV {
    pub expr: ExprV,
    pub alias: Option<Seq<char>>,
    pub column_control: ColumnControl,
    pub annotation: Option<AnnotationValueV>,
}

/// A [`ColumnGlob`] with its strings and lists as sequences.
pub struct ColumnGlobV {
    pub head: Seq<PathPartV>,
    pub specs: Seq<ColumnSpecV>,
}


/// An [`Expr`] with its strings and lists as sequences.
pub enum ExprV {
    Number(Seq<char>),
    Date(Date),
    Duration(DurationV),
    String(Seq<char>),
    Variable(Seq<char>),
    Path(Seq<PathPartV>),
    ConditionSet(ConditionSetV),
    ScopedConditionSet(ScopedConditionSetV),
    HasQuantity(HasQuantityV),
    Case(CaseV),
    Call(CallV),
    Product(Box<ExprV>, Box<ExprV>),
    Quotient(Box<ExprV>, Box<ExprV>),
    Sum(Box<ExprV>, Box<ExprV>),
    Difference(Box<ExprV>, Box<ExprV>),
    Comparison(Box<ComparisonV>),
    Not(Box<ExprV>),
    Window(WindowFnV),
    AnonymousFunctionCall(Box<AnonymousFunctionCallV>),
    Subquery(Box<QueryV>),
}

/// An [`PathPart`] with its strings and lists as sequences.
pub enum PathPartV {
    Column(Seq<char>),
    TableWithOne(Seq<char>),
    TableWithMany(TableWithManyV),
}

/// An [`ComparisonSide`] with its strings and lists as sequences.
pub enum ComparisonSideV {
    Expr(ExprV),
    Expansion(ConditionSetV),
    Range(RangeV),
}

/// An [`ResultColumnStatement`] with its strings and lists as sequences.
pub enum ResultColumnStatementV {
    Spec(ColumnSpecV),
    Glob(ColumnGlobV),
}

/// The plain model of a [`Query`].
pub open spec fn query_v(a: Query) -> QueryV
    decreases a,
{
    proof {
        assert(decreases_to!(a.transformations => a.transformations@));
    }
    QueryV {
        definitions: definitions_v(a.definitions),
        base_table: a.base_table@,
        transformations: vec_transformation_v(a.transformations@)
    }
}

/// The plain model of a [`Definitions`].
pub open spec fn definitions_v(a: Definitions) -> DefinitionsV
    decreases a,
{
    proof {
        assert(decreases_to!(a.constants => a.constants@));
        assert(decreases_to!(a.functions => a.functions@));
        assert(decreases_to!(a.custom_comparisons => a.custom_comparisons@));
        assert(decreases_to!(a.computed_columns => a.computed_columns@));
        assert(decreases_to!(a.tables => a.tables@));
    }
    DefinitionsV {
        constants: vec_constant_def_v(a.constants@),
        functions: vec_function_def_v(a.functions@),
        custom_comparisons: vec_custom_comparison_def_v(a.custom_comparisons@),
        computed_columns: vec_computed_column_v(a.computed_columns@),
        tables: vec_table_def_v(a.tables@)
    }
}

/// The plain model of a [`TableDef`].
pub open spec fn table_def_v(a: TableDef) -> TableDefV
    decreases a,
{
    TableDefV {
        name: a.name@,
        query: query_v(a.query)
    }
}

/// The plain model of a [`ComputedColumn`].
pub open spec fn computed_column_v(a: ComputedColumn) -> ComputedColumnV
    decreases a,
{
    ComputedColumnV {
        table: a.table@,
        name: a.name@,
        expr: expr_v(a.expr)
    }
}

/// The plain model of a [`ConstantDef`].
pub open spec fn constant_def_v(a: ConstantDef) -> ConstantDefV
    decreases a,
{
    ConstantDefV {
        name: a.name@,
        expr: expr_v(a.expr)
    }
}

/// The plain model of a [`FunctionDef`].
pub open spec fn function_def_v(a: FunctionDef) -> FunctionDefV
    decreases a,
{
    FunctionDefV {
        name: a.name@,
        params: strings_v(a.params@),
        body: function_body_v(a.body)
    }
}

/// The plain model of a [`FunctionBody`].
pub open spec fn function_body_v(a: FunctionBody) -> FunctionBodyV
    decreases a,
{
    proof {
        assert(decreases_to!(a.assignments => a.assignments@));
    }
    FunctionBodyV {
        assignments: vec_assignment_v(a.assignments@),
        expr: expr_v(a.expr)
    }
}

/// The plain model of a [`Assignment`].
pub open spec fn assignment_v(a: Assignment) -> AssignmentV
    decreases a,
{
    AssignmentV {
        name: a.name@,
        expr: expr_v(a.expr)
    }
}

/// The plain model of a [`CustomComparisonDef`].
pub open spec fn custom_comparison_def_v(a: CustomComparisonDef) -> CustomComparisonDefV
    decreases a,
{
    CustomComparisonDefV {
        table: a.table@,
        name: a.name@,
        operator: a.operator,
        param: a.param@,
        body: expr_v(a.body)
    }
}

/// The plain model of a [`Transformation`].
pub open spec fn transformation_v(a: Transformation) -> TransformationV
    decreases a,
{
    proof {
        assert(decreases_to!(a.sorting => a.sorting@));
        assert(decreases_to!(a.result_columns => a.result_columns@));
    }
    TransformationV {
        conditions: condition_set_v(a.conditions),
        sorting: vec_sort_expr_v(a.sorting@),
        result_columns: vec_result_column_statement_v(a.result_columns@)
    }
}

/// The plain model of a [`SortExpr`].
pub open spec fn sort_expr_v(a: SortExpr) -> SortExprV
    decreases a,
{
    SortExprV {
        expr: expr_v(a.expr),
        direction: a.direction,
        nulls_sort: a.nulls_sort
    }
}

/// The plain model of a [`AnonymousFunctionCall`].
pub open spec fn anonymous_function_call_v(a: AnonymousFunctionCall) -> AnonymousFunctionCallV
    decreases a,
{
    proof {
        assert(decreases_to!(a.args => a.args@));
    }
    AnonymousFunctionCallV {
        params: strings_v(a.params@),
        body: function_body_v(a.body),
        args: vec_expr_v(a.args@)
    }
}

/// The plain model of a [`WindowFn`].
pub open spec fn window_fn_v(a: WindowFn) -> WindowFnV
    decreases a,
{
    proof {
        assert(decreases_to!(a.args => a.args@));
    }
    WindowFnV {
        function: a.function@,
        args: vec_expr_v(a.args@)
    }
}

/// The plain model of a [`TableWithMany`].
pub open spec fn table_with_many_v(a: TableWithMany) -> TableWithManyV
    decreases a,
{
    TableWithManyV {
        table: a.table@,
        condition_set: condition_set_v(a.condition_set),
        linking_column: opt_string_v(a.linking_column)
    }
}

/// The plain model of a [`Comparison`].
pub open spec fn comparison_v(a: Comparison) -> ComparisonV
    decreases a,
{
    ComparisonV {
        left: comparison_side_v(a.left),
        operator: a.operator,
        right: comparison_side_v(a.right)
    }
}

/// The plain model of a [`Range`].
pub open spec fn range_v(a: Range) -> RangeV
    decreases a,
{
    RangeV {
        lower: range_bound_v(a.lower),
        upper: range_bound_v(a.upper)
    }
}

/// The plain model of a [`RangeBound`].
pub open spec fn range_bound_v(a: RangeBound) -> RangeBoundV
    decreases a,
{
    RangeBoundV {
        expr: expr_v(a.expr),
        exclusivity: a.exclusivity
    }
}

/// The plain model of a [`ConditionSet`].
pub open spec fn condition_set_v(a: ConditionSet) -> ConditionSetV
    decreases a,
{
    proof {
        assert(decreases_to!(a.entries => a.entries@));
    }
    ConditionSetV {
        conjunction: a.conjunction,
        entries: vec_expr_v(a.entries@)
    }
}

/// The plain model of a [`ScopedConditionSet`].
pub open spec fn scoped_condition_set_v(a: ScopedConditionSet) -> ScopedConditionSetV
    decreases a,
{
    proof {
        assert(decreases_to!(a.path => a.path@));
    }
    ScopedConditionSetV {
        path: vec_path_part_v(a.path@),
        condition_set: condition_set_v(a.condition_set)
    }
}

/// The plain model of a [`HasQuantity`].
pub open spec fn has_quantity_v(a: HasQuantity) -> HasQuantityV
    decreases a,
{
    proof {
        assert(decreases_to!(a.path_parts => a.path_parts@));
    }
    HasQuantityV {
        quantity: a.quantity,
        path_parts: vec_path_part_v(a.path_parts@)
    }
}

/// The plain model of a [`Case`].
pub open spec fn case_v(a: Case) -> CaseV
    decreases a,
{
    proof {
        assert(decreases_to!(a.variants => a.variants@));
    }
    CaseV {
        variants: vec_case_variant_v(a.variants@),
        fallback: Box::new(expr_v(*a.fallback))
    }
}

/// The plain model of a [`CaseVariant`].
pub open spec fn case_variant_v(a: CaseVariant) -> CaseVariantV
    decreases a,
{
    CaseVariantV {
        condition: expr_v(a.condition),
        value: expr_v(a.value)
    }
}

/// The plain model of a [`Call`].
pub open spec fn call_v(a: Call) -> CallV
    decreases a,
{
    proof {
        assert(decreases_to!(a.args => a.args@));
        assert(decreases_to!(a.order_by => a.order_by@));
    }
    CallV {
        name: a.name@,
        dimension: a.dimension,
        args: vec_expr_v(a.args@),
        syntax: a.syntax,
        order_by: vec_sort_expr_v(a.order_by@)
    }
}

/// The plain model of a [`ColumnSpec`].
pub open spec fn column_spec_v(a: ColumnSpec) -> ColumnSpecV
    decreases a,
{
    ColumnSpecV {
        expr: expr_v(a.expr),
        alias: opt_string_v(a.alias),
        column_control: a.column_control,
        annotation: opt_annotation_v(a.annotation)
    }
}

/// The plain model of a [`ColumnGlob`].
pub open spec fn column_glob_v(a: ColumnGlob) -> ColumnGlobV
    decreases a,
{
    proof {
        assert(decreases_to!(a.head => a.head@));
        assert(decreases_to!(a.specs => a.specs@));
    }
    ColumnGlobV {
        head: vec_path_part_v(a.head@),
        specs: vec_column_spec_v(a.specs@)
    }
}


/// The plain model of a [`Expr`].
pub open spec fn expr_v(a: Expr) -> ExprV
    decreases a,
{
    match a {
        Expr::Number(x) => ExprV::Number(x@),
        Expr::Date(x) => ExprV::Date(x),
        Expr::Duration(x) => ExprV::Duration(duration_v(x)),
        Expr::String(x) => ExprV::String(x@),
        Expr::Variable(x) => ExprV::Variable(x@),
        Expr::Path(x) => {
            proof {
                assert(decreases_to!(x => x@));
            }
            ExprV::Path(vec_path_part_v(x@))
        },
        Expr::ConditionSet(x) => ExprV::ConditionSet(condition_set_v(x)),
        Expr::ScopedConditionSet(x) => ExprV::ScopedConditionSet(scoped_condition_set_v(x)),
        Expr::HasQuantity(x) => ExprV::HasQuantity(has_quantity_v(x)),
        Expr::Case(x) => ExprV::Case(case_v(x)),
        Expr::Call(x) => ExprV::Call(call_v(x)),
        Expr::Product(x, y) => ExprV::Product(Box::new(expr_v(*x)), Box::new(expr_v(*y))),
        Expr::Quotient(x, y) => ExprV::Quotient(Box::new(expr_v(*x)), Box::new(expr_v(*y))),
        Expr::Sum(x, y) => ExprV::Sum(Box::new(expr_v(*x)), Box::new(expr_v(*y))),
        Expr::Difference(x, y) => ExprV::Difference(Box::new(expr_v(*x)), Box::new(expr_v(*y))),
        Expr::Comparison(x) => ExprV::Comparison(Box::new(comparison_v(*x))),
        Expr::Not(x) => ExprV::Not(Box::new(expr_v(*x))),
        Expr::Window(x) => ExprV::Window(window_fn_v(x)),
        Expr::AnonymousFunctionCall(x) => ExprV::AnonymousFunctionCall(Box::new(anonymous_function_call_v(*x))),
        Expr::Subquery(x) => ExprV::Subquery(Box::new(query_v(*x))),
    }
}

/// The plain model of a [`PathPart`].
pub open spec fn path_part_v(a: PathPart) -> PathPartV
    decreases a,
{
    match a {
        PathPart::Column(x) => PathPartV::Column(x@),
        PathPart::TableWithOne(x) => PathPartV::TableWithOne(x@),
        PathPart::TableWithMany(x) => PathPartV::TableWithMany(table_with_many_v(x)),
    }
}

/// The plain model of a [`ComparisonSide`].
pub open spec fn comparison_side_v(a: ComparisonSide) -> ComparisonSideV
    decreases a,
{
    match a {
        ComparisonSide::Expr(x) => ComparisonSideV::Expr(expr_v(x)),
        ComparisonSide::Expansion(x) => ComparisonSideV::Expansion(condition_set_v(x)),
        ComparisonSide::Range(x) => ComparisonSideV::Range(range_v(x)),
    }
}

/// The plain model of a [`ResultColumnStatement`].
pub open spec fn result_column_statement_v(a: ResultColumnStatement) -> ResultColumnStatementV
    decreases a,
{
    match a {
        ResultColumnStatement::Spec(x) => ResultColumnStatementV::Spec(column_spec_v(x)),
        ResultColumnStatement::Glob(x) => ResultColumnStatementV::Glob(column_glob_v(x)),
    }
}

/// The plain models of a list of items, in order.
pub open spec fn vec_transformation_v(a: Seq<Transformation>) -> Seq<TransformationV>
    decreases a,
{
    if a.len() == 0 {
        Seq::empty()
    } else {
        vec_transformation_v(a.drop_last()).push(transformation_v(a.last()))
    }
}

pub proof fn lemma_vec_transformation_v(a: Seq<Transformation>)
    ensures
        vec_transformation_v(a).len() == a.len(),
        forall|k: int| 0 <= k < a.len() ==> #[trigger] vec_transformation_v(a)[k] == transformation_v(a[k]),
    decreases a.len(),
{
    if a.len() > 0 {
        lemma_vec_transformation_v(a.drop_last());
    }
}

pub proof fn lemma_vec_transformation_v_push(a: Seq<Transformation>, x: Transformation)
    ensures
        vec_transformation_v(a.push(x)) == vec_transformation_v(a).push(transformation_v(x)),
{
    assert(a.push(x).drop_last() =~= a);
}

pub proof fn lemma_vec_transformation_v_append(a: Seq<Transformation>, b: Seq<Transformation>)
    ensures
        vec_transformation_v(a + b) == vec_transformation_v(a) + vec_transformation_v(b),
{
    lemma_vec_transformation_v(a);
    lemma_vec_transformation_v(b);
    lemma_vec_transformation_v(a + b);
    assert(vec_transformation_v(a + b) =~= vec_transformation_v(a) + vec_transformation_v(b));
}

/// The plain models of a list of items, in order.
pub open spec fn vec_constant_def_v(a: Seq<ConstantDef>) -> Seq<ConstantDefV>
    decreases a,
{
    if a.len() == 0 {
        Seq::empty()
    } else {
        vec_constant_def_v(a.drop_last()).push(constant_def_v(a.last()))
    }
}

pub proof fn lemma_vec_constant_def_v(a: Seq<ConstantDef>)
    ensures
        vec_constant_def_v(a).len() == a.len(),
        forall|k: int| 0 <= k < a.len() ==> #[trigger] vec_constant_def_v(a)[k] == constant_def_v(a[k]),
    decreases a.len(),
{
    if a.len() > 0 {
        lemma_vec_constant_def_v(a.drop_last());
    }
}

pub proof fn lemma_vec_constant_def_v_push(a: Seq<ConstantDef>, x: ConstantDef)
    ensures
        vec_constant_def_v(a.push(x)) == vec_constant_def_v(a).push(constant_def_v(x)),
{
    assert(a.push(x).drop_last() =~= a);
}

pub proof fn lemma_vec_constant_def_v_append(a: Seq<ConstantDef>, b: Seq<ConstantDef>)
    ensures
        vec_constant_def_v(a + b) == vec_constant_def_v(a) + vec_constant_def_v(b),
{
    lemma_vec_constant_def_v(a);
    lemma_vec_constant_def_v(b);
    lemma_vec_constant_def_v(a + b);
    assert(vec_constant_def_v(a + b) =~= vec_constant_def_v(a) + vec_constant_def_v(b));
}

/// The plain models of a list of items, in order.
pub open spec fn vec_function_def_v(a: Seq<FunctionDef>) -> Seq<FunctionDefV>
    decreases a,
{
    if a.len() == 0 {
        Seq::empty()
    } else {
        vec_function_def_v(a.drop_last()).push(function_def_v(a.last()))
    }
}

pub proof fn lemma_vec_function_def_v(a: Seq<FunctionDef>)
    ensures
        vec_function_def_v(a).len() == a.len(),
        forall|k: int| 0 <= k < a.len() ==> #[trigger] vec_function_def_v(a)[k] == function_def_v(a[k]),
    decreases a.len(),
{
    if a.len() > 0 {
        lemma_vec_function_def_v(a.drop_last());
    }
}

pub proof fn lemma_vec_function_def_v_push(a: Seq<FunctionDef>, x: FunctionDef)
    ensures
        vec_function_def_v(a.push(x)) == vec_function_def_v(a).push(function_def_v(x)),
{
    assert(a.push(x).drop_last() =~= a);
}

pub proof fn lemma_vec_function_def_v_append(a: Seq<FunctionDef>, b: Seq<FunctionDef>)
    ensures
        vec_function_def_v(a + b) == vec_function_def_v(a) + vec_function_def_v(b),
{
    lemma_vec_function_def_v(a);
    lemma_vec_function_def_v(b);
    lemma_vec_function_def_v(a + b);
    assert(vec_function_def_v(a + b) =~= vec_function_def_v(a) + vec_function_def_v(b));
}

/// The plain models of a list of items, in order.
pub open spec fn vec_custom_comparison_def_v(a: Seq<CustomComparisonDef>) -> Seq<CustomComparisonDefV>
    decreases a,
{
    if a.len() == 0 {
        Seq::empty()
    } else {
        vec_custom_comparison_def_v(a.drop_last()).push(custom_comparison_def_v(a.last()))
    }
}

pub proof fn lemma_vec_custom_comparison_def_v(a: Seq<CustomComparisonDef>)
    ensures
        vec_custom_comparison_def_v(a).len() == a.len(),
        forall|k: int| 0 <= k < a.len() ==> #[trigger] vec_custom_comparison_def_v(a)[k] == custom_comparison_def_v(a[k]),
    decreases a.len(),
{
    if a.len() > 0 {
        lemma_vec_custom_comparison_def_v(a.drop_last());
    }
}

pub proof fn lemma_vec_custom_comparison_def_v_push(a: Seq<CustomComparisonDef>, x: CustomComparisonDef)
    ensures
        vec_custom_comparison_def_v(a.push(x)) == vec_custom_comparison_def_v(a).push(custom_comparison_def_v(x)),
{
    assert(a.push(x).drop_last() =~= a);
}

pub proof fn lemma_vec_custom_comparison_def_v_append(a: Seq<CustomComparisonDef>, b: Seq<CustomComparisonDef>)
    ensures
        vec_custom_comparison_def_v(a + b) == vec_custom_comparison_def_v(a) + vec_custom_comparison_def_v(b),
{
    lemma_vec_custom_comparison_def_v(a);
    lemma_vec_custom_comparison_def_v(b);
    lemma_vec_custom_comparison_def_v(a + b);
    assert(vec_custom_comparison_def_v(a + b) =~= vec_custom_comparison_def_v(a) + vec_custom_comparison_def_v(b));
}

/// The plain models of a list of items, in order.
pub open spec fn vec_computed_column_v(a: Seq<ComputedColumn>) -> Seq<ComputedColumnV>
    decreases a,
{
    if a.len() == 0 {
        Seq::empty()
    } else {
        vec_computed_column_v(a.drop_last()).push(computed_column_v(a.last()))
    }
}

pub proof fn lemma_vec_computed_column_v(a: Seq<ComputedColumn>)
    ensures
        vec_computed_column_v(a).len() == a.len(),
        forall|k: int| 0 <= k < a.len() ==> #[trigger] vec_computed_column_v(a)[k] == computed_column_v(a[k]),
    decreases a.len(),
{
    if a.len() > 0 {
        lemma_vec_computed_column_v(a.drop_last());
    }
}

pub proof fn lemma_vec_computed_column_v_push(a: Seq<ComputedColumn>, x: ComputedColumn)
    ensures
        vec_computed_column_v(a.push(x)) == vec_computed_column_v(a).push(computed_column_v(x)),
{
    assert(a.push(x).drop_last() =~= a);
}

pub proof fn lemma_vec_computed_column_v_append(a: Seq<ComputedColumn>, b: Seq<ComputedColumn>)
    ensures
        vec_computed_column_v(a + b) == vec_computed_column_v(a) + vec_computed_column_v(b),
{
    lemma_vec_computed_column_v(a);
    lemma_vec_computed_column_v(b);
    lemma_vec_computed_column_v(a + b);
    assert(vec_computed_column_v(a + b) =~= vec_computed_column_v(a) + vec_computed_column_v(b));
}

/// The plain models of a list of items, in order.
pub open spec fn vec_table_def_v(a: Seq<TableDef>) -> Seq<TableDefV>
    decreases a,
{
    if a.len() == 0 {
        Seq::empty()
    } else {
        vec_table_def_v(a.drop_last()).push(table_def_v(a.last()))
    }
}

pub proof fn lemma_vec_table_def_v(a: Seq<TableDef>)
    ensures
        vec_table_def_v(a).len() == a.len(),
        forall|k: int| 0 <= k < a.len() ==> #[trigger] vec_table_def_v(a)[k] == table_def_v(a[k]),
    decreases a.len(),
{
    if a.len() > 0 {
        lemma_vec_table_def_v(a.drop_last());
    }
}

pub proof fn lemma_vec_table_def_v_push(a: Seq<TableDef>, x: TableDef)
    ensures
        vec_table_def_v(a.push(x)) == vec_table_def_v(a).push(table_def_v(x)),
{
    assert(a.push(x).drop_last() =~= a);
}

pub proof fn lemma_vec_table_def_v_append(a: Seq<TableDef>, b: Seq<TableDef>)
    ensures
        vec_table_def_v(a + b) == vec_table_def_v(a) + vec_table_def_v(b),
{
    lemma_vec_table_def_v(a);
    lemma_vec_table_def_v(b);
    lemma_vec_table_def_v(a + b);
    assert(vec_table_def_v(a + b) =~= vec_table_def_v(a) + vec_table_def_v(b));
}

/// The plain models of a list of items, in order.
pub open spec fn vec_assignment_v(a: Seq<Assignment>) -> Seq<AssignmentV>
    decreases a,
{
    if a.len() == 0 {
        Seq::empty()
    } else {
        vec_assignment_v(a.drop_last()).push(assignment_v(a.last()))
    }
}

pub proof fn lemma_vec_assignment_v(a: Seq<Assignment>)
    ensures
        vec_assignment_v(a).len() == a.len(),
        forall|k: int| 0 <= k < a.len() ==> #[trigger] vec_assignment_v(a)[k] == assignment_v(a[k]),
    decreases a.len(),
{
    if a.len() > 0 {
        lemma_vec_assignment_v(a.drop_last());
    }
}

pub proof fn lemma_vec_assignment_v_push(a: Seq<Assignment>, x: Assignment)
    ensures
        vec_assignment_v(a.push(x)) == vec_assignment_v(a).push(assignment_v(x)),
{
    assert(a.push(x).drop_last() =~= a);
}

pub proof fn lemma_vec_assignment_v_append(a: Seq<Assignment>, b: Seq<Assignment>)
    ensures
        vec_assignment_v(a + b) == vec_assignment_v(a) + vec_assignment_v(b),
{
    lemma_vec_assignment_v(a);
    lemma_vec_assignment_v(b);
    lemma_vec_assignment_v(a + b);
    assert(vec_assignment_v(a + b) =~= vec_assignment_v(a) + vec_assignment_v(b));
}

/// The plain models of a list of items, in order.
pub open spec fn vec_sort_expr_v(a: Seq<SortExpr>) -> Seq<SortExprV>
    decreases a,
{
    if a.len() == 0 {
        Seq::empty()
    } else {
        vec_sort_expr_v(a.drop_last()).push(sort_expr_v(a.last()))
    }
}

pub proof fn lemma_vec_sort_expr_v(a: Seq<SortExpr>)
    ensures
        vec_sort_expr_v(a).len() == a.len(),
        forall|k: int| 0 <= k < a.len() ==> #[trigger] vec_sort_expr_v(a)[k] == sort_expr_v(a[k]),
    decreases a.len(),
{
    if a.len() > 0 {
        lemma_vec_sort_expr_v(a.drop_last());
    }
}

pub proof fn lemma_vec_sort_expr_v_push(a: Seq<SortExpr>, x: SortExpr)
    ensures
        vec_sort_expr_v(a.push(x)) == vec_sort_expr_v(a).push(sort_expr_v(x)),
{
    assert(a.push(x).drop_last() =~= a);
}

pub proof fn lemma_vec_sort_expr_v_append(a: Seq<SortExpr>, b: Seq<SortExpr>)
    ensures
        vec_sort_expr_v(a + b) == vec_sort_expr_v(a) + vec_sort_expr_v(b),
{
    lemma_vec_sort_expr_v(a);
    lemma_vec_sort_expr_v(b);
    lemma_vec_sort_expr_v(a + b);
    assert(vec_sort_expr_v(a + b) =~= vec_sort_expr_v(a) + vec_sort_expr_v(b));
}

/// The plain models of a list of items, in order.
pub open spec fn vec_result_column_statement_v(a: Seq<ResultColumnStatement>) -> Seq<ResultColumnStatementV>
    decreases a,
{
    if a.len() == 0 {
        Seq::empty()
    } else {
        vec_result_column_statement_v(a.drop_last()).push(result_column_statement_v(a.last()))
    }
}

pub proof fn lemma_vec_result_column_statement_v(a: Seq<ResultColumnStatement>)
    ensures
        vec_result_column_statement_v(a).len() == a.len(),
        forall|k: int| 0 <= k < a.len() ==> #[trigger] vec_result_column_statement_v(a)[k] == result_column_statement_v(a[k]),
    decreases a.len(),
{
    if a.len() > 0 {
        lemma_vec_result_column_statement_v(a.drop_last());
    }
}

pub proof fn lemma_vec_result_column_statement_v_push(a: Seq<ResultColumnStatement>, x: ResultColumnStatement)
    ensures
        vec_result_column_statement_v(a.push(x)) == vec_result_column_statement_v(a).push(result_column_statement_v(x)),
{
    assert(a.push(x).drop_last() =~= a);
}

pub proof fn lemma_vec_result_column_statement_v_append(a: Seq<ResultColumnStatement>, b: Seq<ResultColumnStatement>)
    ensures
        vec_result_column_statement_v(a + b) == vec_result_column_statement_v(a) + vec_result_column_statement_v(b),
{
    lemma_vec_result_column_statement_v(a);
    lemma_vec_result_column_statement_v(b);
    lemma_vec_result_column_statement_v(a + b);
    assert(vec_result_column_statement_v(a + b) =~= vec_result_column_statement_v(a) + vec_result_column_statement_v(b));
}

/// The plain models of a list of items, in order.
pub open spec fn vec_expr_v(a: Seq<Expr>) -> Seq<ExprV>
    decreases a,
{
    if a.len() == 0 {
        Seq::empty()
    } else {
        vec_expr_v(a.drop_last()).push(expr_v(a.last()))
    }
}

pub proof fn lemma_vec_expr_v(a: Seq<Expr>)
    ensures
        vec_expr_v(a).len() == a.len(),
        forall|k: int| 0 <= k < a.len() ==> #[trigger] vec_expr_v(a)[k] == expr_v(a[k]),
    decreases a.len(),
{
    if a.len() > 0 {
        lemma_vec_expr_v(a.drop_last());
    }
}

pub proof fn lemma_vec_expr_v_push(a: Seq<Expr>, x: Expr)
    ensures
        vec_expr_v(a.push(x)) == vec_expr_v(a).push(expr_v(x)),
{
    assert(a.push(x).drop_last() =~= a);
}

pub proof fn lemma_vec_expr_v_append(a: Seq<Expr>, b: Seq<Expr>)
    ensures
        vec_expr_v(a + b) == vec_expr_v(a) + vec_expr_v(b),
{
    lemma_vec_expr_v(a);
    lemma_vec_expr_v(b);
    lemma_vec_expr_v(a + b);
    assert(vec_expr_v(a + b) =~= vec_expr_v(a) + vec_expr_v(b));
}

/// The plain models of a list of items, in order.
pub open spec fn vec_path_part_v(a: Seq<PathPart>) -> Seq<PathPartV>
    decreases a,
{
    if a.len() == 0 {
        Seq::empty()
    } else {
        vec_path_part_v(a.drop_last()).push(path_part_v(a.last()))
    }
}

pub proof fn lemma_vec_path_part_v(a: Seq<PathPart>)
    ensures
        vec_path_part_v(a).len() == a.len(),
        forall|k: int| 0 <= k < a.len() ==> #[trigger] vec_path_part_v(a)[k] == path_part_v(a[k]),
    decreases a.len(),
{
    if a.len() > 0 {
        lemma_vec_path_part_v(a.drop_last());
    }
}

pub proof fn lemma_vec_path_part_v_push(a: Seq<PathPart>, x: PathPart)
    ensures
        vec_path_part_v(a.push(x)) == vec_path_part_v(a).push(path_part_v(x)),
{
    assert(a.push(x).drop_last() =~= a);
}

pub proof fn lemma_vec_path_part_v_append(a: Seq<PathPart>, b: Seq<PathPart>)
    ensures
        vec_path_part_v(a + b) == vec_path_part_v(a) + vec_path_part_v(b),
{
    lemma_vec_path_part_v(a);
    lemma_vec_path_part_v(b);
    lemma_vec_path_part_v(a + b);
    assert(vec_path_part_v(a + b) =~= vec_path_part_v(a) + vec_path_part_v(b));
}

/// The plain models of a list of items, in order.
pub open spec fn vec_case_variant_v(a: Seq<CaseVariant>) -> Seq<CaseVariantV>
    decreases a,
{
    if a.len() == 0 {
        Seq::empty()
    } else {
        vec_case_variant_v(a.drop_last()).push(case_variant_v(a.last()))
    }
}

pub proof fn lemma_vec_case_variant_v(a: Seq<CaseVariant>)
    ensures
        vec_case_variant_v(a).len() == a.len(),
        forall|k: int| 0 <= k < a.len() ==> #[trigger] vec_case_variant_v(a)[k] == case_variant_v(a[k]),
    decreases a.len(),
{
    if a.len() > 0 {
        lemma_vec_case_variant_v(a.drop_last());
    }
}

pub proof fn lemma_vec_case_variant_v_push(a: Seq<CaseVariant>, x: CaseVariant)
    ensures
        vec_case_variant_v(a.push(x)) == vec_case_variant_v(a).push(case_variant_v(x)),
{
    assert(a.push(x).drop_last() =~= a);
}

pub proof fn lemma_vec_case_variant_v_append(a: Seq<CaseVariant>, b: Seq<CaseVariant>)
    ensures
        vec_case_variant_v(a + b) == vec_case_variant_v(a) + vec_case_variant_v(b),
{
    lemma_vec_case_variant_v(a);
    lemma_vec_case_variant_v(b);
    lemma_vec_case_variant_v(a + b);
    assert(vec_case_variant_v(a + b) =~= vec_case_variant_v(a) + vec_case_variant_v(b));
}

/// The plain models of a list of items, in order.
pub open spec fn vec_column_spec_v(a: Seq<ColumnSpec>) -> Seq<ColumnSpecV>
    decreases a,
{
    if a.len() == 0 {
        Seq::empty()
    } else {
        vec_column_spec_v(a.drop_last()).push(column_spec_v(a.last()))
    }
}

pub proof fn lemma_vec_column_spec_v(a: Seq<ColumnSpec>)
    ensures
        vec_column_spec_v(a).len() == a.len(),
        forall|k: int| 0 <= k < a.len() ==> #[trigger] vec_column_spec_v(a)[k] == column_spec_v(a[k]),
    decreases a.len(),
{
    if a.len() > 0 {
        lemma_vec_column_spec_v(a.drop_last());
    }
}

pub proof fn lemma_vec_column_spec_v_push(a: Seq<ColumnSpec>, x: ColumnSpec)
    ensures
        vec_column_spec_v(a.push(x)) == vec_column_spec_v(a).push(column_spec_v(x)),
{
    assert(a.push(x).drop_last() =~= a);
}

pub proof fn lemma_vec_column_spec_v_append(a: Seq<ColumnSpec>, b: Seq<ColumnSpec>)
    ensures
        vec_column_spec_v(a + b) == vec_column_spec_v(a) + vec_column_spec_v(b),
{
    lemma_vec_column_spec_v(a);
    lemma_vec_column_spec_v(b);
    lemma_vec_column_spec_v(a + b);
    assert(vec_column_spec_v(a + b) =~= vec_column_spec_v(a) + vec_column_spec_v(b));
}









/// Whether a modelled expression begins with a column reference, as [`has_leading_column`] says
/// of expressions.
pub open spec fn leads_with_column(e: ExprV) -> bool
    decreases e,
{
    match e {
        ExprV::Path(_) => true,
        ExprV::HasQuantity(_) => true,
        ExprV::Call(c) => c.syntax == CallSyntax::Piped && c.args.len() > 0 && leads_with_column(c.args[0]),
        ExprV::AnonymousFunctionCall(a) => a.args.len() > 0 && leads_with_column(a.args[0]),
        ExprV::Product(a, _) => leads_with_column(*a),
        ExprV::Quotient(a, _) => leads_with_column(*a),
        ExprV::Sum(a, _) => leads_with_column(*a),
        ExprV::Difference(a, _) => leads_with_column(*a),
        ExprV::Comparison(c) => match c.left {
            ComparisonSideV::Expr(l) => leads_with_column(l),
            _ => false,
        },
        ExprV::Not(a) => leads_with_column(*a),
        _ => false,
    }
}

/// An expression begins with a column reference exactly when its model does.
pub proof fn lemma_leads_with_column(x: Expr)
    ensures
        has_leading_column(x) == leads_with_column(expr_v(x)),
    decreases x,
{
    match x {
        Expr::Call(c) => {
            assert(decreases_to!(c.args => c.args@));
            lemma_vec_expr_v(c.args@);
            assert(call_v(c).args == vec_expr_v(c.args@));
            assert(call_v(c).syntax == c.syntax);
            let cv = call_v(c);
            assert(expr_v(x) == ExprV::Call(cv));
            if c.args@.len() > 0 {
                lemma_leads_with_column(c.args@[0]);
                assert(cv.args[0] == expr_v(c.args@[0]));
            }
            assert(leads_with_column(ExprV::Call(cv)) == (cv.syntax == CallSyntax::Piped && cv.args.len() > 0
                && leads_with_column(cv.args[0])));
            assert(has_leading_column(x) == (c.syntax == CallSyntax::Piped && c.args@.len() > 0
                && has_leading_column(c.args@[0])));
            assert(cv.args.len() == c.args@.len());
            if c.syntax == CallSyntax::Piped && c.args@.len() > 0 {
                assert(has_leading_column(c.args@[0]) == leads_with_column(cv.args[0]));
            }
            assert(has_leading_column(x) == leads_with_column(ExprV::Call(cv)));
            assert(has_leading_column(x) == leads_with_column(expr_v(x)));
        },
        Expr::AnonymousFunctionCall(a) => {
            assert(decreases_to!(a.args => a.args@));
            lemma_vec_expr_v(a.args@);
            let av = anonymous_function_call_v(*a);
            assert(av.args == vec_expr_v(a.args@));
            assert(expr_v(x) == ExprV::AnonymousFunctionCall(Box::new(av)));
            assert(av.args.len() == a.args@.len());
            if a.args@.len() > 0 {
                lemma_leads_with_column(a.args@[0]);
                assert(av.args[0] == expr_v(a.args@[0]));
            }
            assert(has_leading_column(x) == leads_with_column(ExprV::AnonymousFunctionCall(Box::new(av))));
        },
        Expr::Product(a, _) => lemma_leads_with_column(*a),
        Expr::Quotient(a, _) => lemma_leads_with_column(*a),
        Expr::Sum(a, _) => lemma_leads_with_column(*a),
        Expr::Difference(a, _) => lemma_leads_with_column(*a),
        Expr::Comparison(c) => {
            let cv = comparison_v(*c);
            assert(cv.left == comparison_side_v(c.left));
            assert(expr_v(x) == ExprV::Comparison(Box::new(cv)));
            if let ComparisonSide::Expr(l) = c.left {
                lemma_leads_with_column(l);
                assert(comparison_side_v(c.left) == ComparisonSideV::Expr(expr_v(l)));
            } else {
                assert(!(comparison_side_v(c.left) is Expr));
            }
        },
        Expr::Not(a) => lemma_leads_with_column(*a),
        _ => {},
    }
}

/// A copy has the same plain model as what it copies.
pub proof fn lemma_same_query_v(a: Query, b: Query)
    requires
        same_query(a, b),
    ensures
        query_v(a) == query_v(b),
    decreases a,
{
    assert(decreases_to!(a.transformations => a.transformations@));
    lemma_same_definitions_v(a.definitions, b.definitions);
    lemma_same_vec_transformation_v(a.transformations@, b.transformations@);
}

pub proof fn lemma_same_definitions_v(a: Definitions, b: Definitions)
    requires
        same_definitions(a, b),
    ensures
        definitions_v(a) == definitions_v(b),
    decreases a,
{
    assert(decreases_to!(a.constants => a.constants@));
    assert(decreases_to!(a.functions => a.functions@));
    assert(decreases_to!(a.custom_comparisons => a.custom_comparisons@));
    assert(decreases_to!(a.computed_columns => a.computed_columns@));
    assert(decreases_to!(a.tables => a.tables@));
    lemma_same_vec_constant_def_v(a.constants@, b.constants@);
    lemma_same_vec_function_def_v(a.functions@, b.functions@);
    lemma_same_vec_custom_comparison_def_v(a.custom_comparisons@, b.custom_comparisons@);
    lemma_same_vec_computed_column_v(a.computed_columns@, b.computed_columns@);
    lemma_same_vec_table_def_v(a.tables@, b.tables@);
}

pub proof fn lemma_same_table_def_v(a: TableDef, b: TableDef)
    requires
        same_table_def(a, b),
    ensures
        table_def_v(a) == table_def_v(b),
    decreases a,
{
    lemma_same_query_v(a.query, b.query);
}

pub proof fn lemma_same_computed_column_v(a: ComputedColumn, b: ComputedColumn)
    requires
        same_computed_column(a, b),
    ensures
        computed_column_v(a) == computed_column_v(b),
    decreases a,
{
    lemma_same_expr_v(a.expr, b.expr);
}

pub proof fn lemma_same_constant_def_v(a: ConstantDef, b: ConstantDef)
    requires
        same_constant_def(a, b),
    ensures
        constant_def_v(a) == constant_def_v(b),
    decreases a,
{
    lemma_same_expr_v(a.expr, b.expr);
}

pub proof fn lemma_same_function_def_v(a: FunctionDef, b: FunctionDef)
    requires
        same_function_def(a, b),
    ensures
        function_def_v(a) == function_def_v(b),
    decreases a,
{
    lemma_same_function_body_v(a.body, b.body);
    assert(strings_v(a.params@) == strings_v(b.params@));
}

pub proof fn lemma_same_function_body_v(a: FunctionBody, b: FunctionBody)
    requires
        same_function_body(a, b),
    ensures
        function_body_v(a) == function_body_v(b),
    decreases a,
{
    assert(decreases_to!(a.assignments => a.assignments@));
    lemma_same_vec_assignment_v(a.assignments@, b.assignments@);
    lemma_same_expr_v(a.expr, b.expr);
}

pub proof fn lemma_same_assignment_v(a: Assignment, b: Assignment)
    requires
        same_assignment(a, b),
    ensures
        assignment_v(a) == assignment_v(b),
    decreases a,
{
    lemma_same_expr_v(a.expr, b.expr);
}

pub proof fn lemma_same_custom_comparison_def_v(a: CustomComparisonDef, b: CustomComparisonDef)
    requires
        same_custom_comparison_def(a, b),
    ensures
        custom_comparison_def_v(a) == custom_comparison_def_v(b),
    decreases a,
{
    lemma_same_expr_v(a.body, b.body);
}

pub proof fn lemma_same_transformation_v(a: Transformation, b: Transformation)
    requires
        same_transformation(a, b),
    ensures
        transformation_v(a) == transformation_v(b),
    decreases a,
{
    assert(decreases_to!(a.sorting => a.sorting@));
    assert(decreases_to!(a.result_columns => a.result_columns@));
    lemma_same_condition_set_v(a.conditions, b.conditions);
    lemma_same_vec_sort_expr_v(a.sorting@, b.sorting@);
    lemma_same_vec_result_column_statement_v(a.result_columns@, b.result_columns@);
}

pub proof fn lemma_same_sort_expr_v(a: SortExpr, b: SortExpr)
    requires
        same_sort_expr(a, b),
    ensures
        sort_expr_v(a) == sort_expr_v(b),
    decreases a,
{
    lemma_same_expr_v(a.expr, b.expr);
}

pub proof fn lemma_same_anonymous_function_call_v(a: AnonymousFunctionCall, b: AnonymousFunctionCall)
    requires
        same_anonymous_function_call(a, b),
    ensures
        anonymous_function_call_v(a) == anonymous_function_call_v(b),
    decreases a,
{
    assert(decreases_to!(a.args => a.args@));
    lemma_same_function_body_v(a.body, b.body);
    lemma_same_vec_expr_v(a.args@, b.args@);
    assert(strings_v(a.params@) == strings_v(b.params@));
}

pub proof fn lemma_same_window_fn_v(a: WindowFn, b: WindowFn)
    requires
        same_window_fn(a, b),
    ensures
        window_fn_v(a) == window_fn_v(b),
    decreases a,
{
    assert(decreases_to!(a.args => a.args@));
    assert(decreases_to!(a.partition_by => a.partition_by@));
    assert(decreases_to!(a.order_by => a.order_by@));
    lemma_same_vec_expr_v(a.args@, b.args@);
}

pub proof fn lemma_same_table_with_many_v(a: TableWithMany, b: TableWithMany)
    requires
        same_table_with_many(a, b),
    ensures
        table_with_many_v(a) == table_with_many_v(b),
    decreases a,
{
    lemma_same_condition_set_v(a.condition_set, b.condition_set);
}

pub proof fn lemma_same_comparison_v(a: Comparison, b: Comparison)
    requires
        same_comparison(a, b),
    ensures
        comparison_v(a) == comparison_v(b),
    decreases a,
{
    lemma_same_comparison_side_v(a.left, b.left);
    lemma_same_comparison_side_v(a.right, b.right);
}

pub proof fn lemma_same_range_v(a: Range, b: Range)
    requires
        same_range(a, b),
    ensures
        range_v(a) == range_v(b),
    decreases a,
{
    lemma_same_range_bound_v(a.lower, b.lower);
    lemma_same_range_bound_v(a.upper, b.upper);
}

pub proof fn lemma_same_range_bound_v(a: RangeBound, b: RangeBound)
    requires
        same_range_bound(a, b),
    ensures
        range_bound_v(a) == range_bound_v(b),
    decreases a,
{
    lemma_same_expr_v(a.expr, b.expr);
}

pub proof fn lemma_same_condition_set_v(a: ConditionSet, b: ConditionSet)
    requires
        same_condition_set(a, b),
    ensures
        condition_set_v(a) == condition_set_v(b),
    decreases a,
{
    assert(decreases_to!(a.entries => a.entries@));
    lemma_same_vec_expr_v(a.entries@, b.entries@);
}

pub proof fn lemma_same_scoped_condition_set_v(a: ScopedConditionSet, b: ScopedConditionSet)
    requires
        same_scoped_condition_set(a, b),
    ensures
        scoped_condition_set_v(a) == scoped_condition_set_v(b),
    decreases a,
{
    assert(decreases_to!(a.path => a.path@));
    lemma_same_vec_path_part_v(a.path@, b.path@);
    lemma_same_condition_set_v(a.condition_set, b.condition_set);
}

pub proof fn lemma_same_has_quantity_v(a: HasQuantity, b: HasQuantity)
    requires
        same_has_quantity(a, b),
    ensures
        has_quantity_v(a) == has_quantity_v(b),
    decreases a,
{
    assert(decreases_to!(a.path_parts => a.path_parts@));
    lemma_same_vec_path_part_v(a.path_parts@, b.path_parts@);
}

pub proof fn lemma_same_case_v(a: Case, b: Case)
    requires
        same_case(a, b),
    ensures
        case_v(a) == case_v(b),
    decreases a,
{
    assert(decreases_to!(a.variants => a.variants@));
    lemma_same_vec_case_variant_v(a.variants@, b.variants@);
    lemma_same_expr_v(*a.fallback, *b.fallback);
}

pub proof fn lemma_same_case_variant_v(a: CaseVariant, b: CaseVariant)
    requires
        same_case_variant(a, b),
    ensures
        case_variant_v(a) == case_variant_v(b),
    decreases a,
{
    lemma_same_expr_v(a.condition, b.condition);
    lemma_same_expr_v(a.value, b.value);
}

pub proof fn lemma_same_call_v(a: Call, b: Call)
    requires
        same_call(a, b),
    ensures
        call_v(a) == call_v(b),
    decreases a,
{
    assert(decreases_to!(a.args => a.args@));
    assert(decreases_to!(a.order_by => a.order_by@));
    lemma_same_vec_expr_v(a.args@, b.args@);
    lemma_same_vec_sort_expr_v(a.order_by@, b.order_by@);
}

pub proof fn lemma_same_column_spec_v(a: ColumnSpec, b: ColumnSpec)
    requires
        same_column_spec(a, b),
    ensures
        column_spec_v(a) == column_spec_v(b),
    decreases a,
{
    lemma_same_expr_v(a.expr, b.expr);
    lemma_same_opt_annotation_v(a.annotation, b.annotation);
}

pub proof fn lemma_same_column_glob_v(a: ColumnGlob, b: ColumnGlob)
    requires
        same_column_glob(a, b),
    ensures
        column_glob_v(a) == column_glob_v(b),
    decreases a,
{
    assert(decreases_to!(a.head => a.head@));
    assert(decreases_to!(a.specs => a.specs@));
    lemma_same_vec_path_part_v(a.head@, b.head@);
    lemma_same_vec_column_spec_v(a.specs@, b.specs@);
}

pub proof fn lemma_same_expr_v(a: Expr, b: Expr)
    requires
        same_expr(a, b),
    ensures
        expr_v(a) == expr_v(b),
    decreases a,
{
    match a {
        Expr::Number(_) => {},
        Expr::Date(_) => {},
        Expr::Duration(_) => {},
        Expr::String(_) => {},
        Expr::Variable(_) => {},
        Expr::Path(x) => {
            if let Expr::Path(y) = b {
                assert(decreases_to!(x => x@));
                lemma_same_vec_path_part_v(x@, y@);
            }
        },
        Expr::ConditionSet(x) => {
            if let Expr::ConditionSet(y) = b {
                lemma_same_condition_set_v(x, y);
            }
        },
        Expr::ScopedConditionSet(x) => {
            if let Expr::ScopedConditionSet(y) = b {
                lemma_same_scoped_condition_set_v(x, y);
            }
        },
        Expr::HasQuantity(x) => {
            if let Expr::HasQuantity(y) = b {
                lemma_same_has_quantity_v(x, y);
            }
        },
        Expr::Case(x) => {
            if let Expr::Case(y) = b {
                lemma_same_case_v(x, y);
            }
        },
        Expr::Call(x) => {
            if let Expr::Call(y) = b {
                lemma_same_call_v(x, y);
            }
        },
        Expr::Product(x1, x2) => {
            if let Expr::Product(y1, y2) = b {
                lemma_same_expr_v(*x1, *y1);
                lemma_same_expr_v(*x2, *y2);
            }
        },
        Expr::Quotient(x1, x2) => {
            if let Expr::Quotient(y1, y2) = b {
                lemma_same_expr_v(*x1, *y1);
                lemma_same_expr_v(*x2, *y2);
            }
        },
        Expr::Sum(x1, x2) => {
            if let Expr::Sum(y1, y2) = b {
                lemma_same_expr_v(*x1, *y1);
                lemma_same_expr_v(*x2, *y2);
            }
        },
        Expr::Difference(x1, x2) => {
            if let Expr::Difference(y1, y2) = b {
                lemma_same_expr_v(*x1, *y1);
                lemma_same_expr_v(*x2, *y2);
            }
        },
        Expr::Comparison(x) => {
            if let Expr::Comparison(y) = b {
                lemma_same_comparison_v(*x, *y);
            }
        },
        Expr::Not(x) => {
            if let Expr::Not(y) = b {
                lemma_same_expr_v(*x, *y);
            }
        },
        Expr::Window(x) => {
            if let Expr::Window(y) = b {
                lemma_same_window_fn_v(x, y);
            }
        },
        Expr::AnonymousFunctionCall(x) => {
            if let Expr::AnonymousFunctionCall(y) = b {
                lemma_same_anonymous_function_call_v(*x, *y);
            }
        },
        Expr::Subquery(x) => {
            if let Expr::Subquery(y) = b {
                lemma_same_query_v(*x, *y);
            }
        },
    }
}

pub proof fn lemma_same_path_part_v(a: PathPart, b: PathPart)
    requires
        same_path_part(a, b),
    ensures
        path_part_v(a) == path_part_v(b),
    decreases a,
{
    match a {
        PathPart::Column(_) => {},
        PathPart::TableWithOne(_) => {},
        PathPart::TableWithMany(x) => {
            if let PathPart::TableWithMany(y) = b {
                lemma_same_table_with_many_v(x, y);
            }
        },
    }
}

pub proof fn lemma_same_comparison_side_v(a: ComparisonSide, b: ComparisonSide)
    requires
        same_comparison_side(a, b),
    ensures
        comparison_side_v(a) == comparison_side_v(b),
    decreases a,
{
    match a {
        ComparisonSide::Expr(x) => {
            if let ComparisonSide::Expr(y) = b {
                lemma_same_expr_v(x, y);
            }
        },
        ComparisonSide::Expansion(x) => {
            if let ComparisonSide::Expansion(y) = b {
                lemma_same_condition_set_v(x, y);
            }
        },
        ComparisonSide::Range(x) => {
            if let ComparisonSide::Range(y) = b {
                lemma_same_range_v(x, y);
            }
        },
    }
}

pub proof fn lemma_same_result_column_statement_v(a: ResultColumnStatement, b: ResultColumnStatement)
    requires
        same_result_column_statement(a, b),
    ensures
        result_column_statement_v(a) == result_column_statement_v(b),
    decreases a,
{
    match a {
        ResultColumnStatement::Spec(x) => {
            if let ResultColumnStatement::Spec(y) = b {
                lemma_same_column_spec_v(x, y);
            }
        },
        ResultColumnStatement::Glob(x) => {
            if let ResultColumnStatement::Glob(y) = b {
                lemma_same_column_glob_v(x, y);
            }
        },
    }
}

pub proof fn lemma_same_vec_transformation_v(a: Seq<Transformation>, b: Seq<Transformation>)
    requires
        same_vec_transformation(a, b),
    ensures
        vec_transformation_v(a) == vec_transformation_v(b),
    decreases a,
{
    if a.len() > 0 {
        lemma_same_vec_transformation_v(a.drop_last(), b.drop_last());
        lemma_same_transformation_v(a.last(), b.last());
    }
}

pub proof fn lemma_same_vec_constant_def_v(a: Seq<ConstantDef>, b: Seq<ConstantDef>)
    requires
        same_vec_constant_def(a, b),
    ensures
        vec_constant_def_v(a) == vec_constant_def_v(b),
    decreases a,
{
    if a.len() > 0 {
        lemma_same_vec_constant_def_v(a.drop_last(), b.drop_last());
        lemma_same_constant_def_v(a.last(), b.last());
    }
}

pub proof fn lemma_same_vec_function_def_v(a: Seq<FunctionDef>, b: Seq<FunctionDef>)
    requires
        same_vec_function_def(a, b),
    ensures
        vec_function_def_v(a) == vec_function_def_v(b),
    decreases a,
{
    if a.len() > 0 {
        lemma_same_vec_function_def_v(a.drop_last(), b.drop_last());
        lemma_same_function_def_v(a.last(), b.last());
    }
}

pub proof fn lemma_same_vec_custom_comparison_def_v(a: Seq<CustomComparisonDef>, b: Seq<CustomComparisonDef>)
    requires
        same_vec_custom_comparison_def(a, b),
    ensures
        vec_custom_comparison_def_v(a) == vec_custom_comparison_def_v(b),
    decreases a,
{
    if a.len() > 0 {
        lemma_same_vec_custom_comparison_def_v(a.drop_last(), b.drop_last());
        lemma_same_custom_comparison_def_v(a.last(), b.last());
    }
}

pub proof fn lemma_same_vec_computed_column_v(a: Seq<ComputedColumn>, b: Seq<ComputedColumn>)
    requires
        same_vec_computed_column(a, b),
    ensures
        vec_computed_column_v(a) == vec_computed_column_v(b),
    decreases a,
{
    if a.len() > 0 {
        lemma_same_vec_computed_column_v(a.drop_last(), b.drop_last());
        lemma_same_computed_column_v(a.last(), b.last());
    }
}

pub proof fn lemma_same_vec_table_def_v(a: Seq<TableDef>, b: Seq<TableDef>)
    requires
        same_vec_table_def(a, b),
    ensures
        vec_table_def_v(a) == vec_table_def_v(b),
    decreases a,
{
    if a.len() > 0 {
        lemma_same_vec_table_def_v(a.drop_last(), b.drop_last());
        lemma_same_table_def_v(a.last(), b.last());
    }
}

pub proof fn lemma_same_vec_assignment_v(a: Seq<Assignment>, b: Seq<Assignment>)
    requires
        same_vec_assignment(a, b),
    ensures
        vec_assignment_v(a) == vec_assignment_v(b),
    decreases a,
{
    if a.len() > 0 {
        lemma_same_vec_assignment_v(a.drop_last(), b.drop_last());
        lemma_same_assignment_v(a.last(), b.last());
    }
}

pub proof fn lemma_same_vec_sort_expr_v(a: Seq<SortExpr>, b: Seq<SortExpr>)
    requires
        same_vec_sort_expr(a, b),
    ensures
        vec_sort_expr_v(a) == vec_sort_expr_v(b),
    decreases a,
{
    if a.len() > 0 {
        lemma_same_vec_sort_expr_v(a.drop_last(), b.drop_last());
        lemma_same_sort_expr_v(a.last(), b.last());
    }
}

pub proof fn lemma_same_vec_result_column_statement_v(a: Seq<ResultColumnStatement>, b: Seq<ResultColumnStatement>)
    requires
        same_vec_result_column_statement(a, b),
    ensures
        vec_result_column_statement_v(a) == vec_result_column_statement_v(b),
    decreases a,
{
    if a.len() > 0 {
        lemma_same_vec_result_column_statement_v(a.drop_last(), b.drop_last());
        lemma_same_result_column_statement_v(a.last(), b.last());
    }
}

pub proof fn lemma_same_vec_expr_v(a: Seq<Expr>, b: Seq<Expr>)
    requires
        same_vec_expr(a, b),
    ensures
        vec_expr_v(a) == vec_expr_v(b),
    decreases a,
{
    if a.len() > 0 {
        lemma_same_vec_expr_v(a.drop_last(), b.drop_last());
        lemma_same_expr_v(a.last(), b.last());
    }
}

pub proof fn lemma_same_vec_path_part_v(a: Seq<PathPart>, b: Seq<PathPart>)
    requires
        same_vec_path_part(a, b),
    ensures
        vec_path_part_v(a) == vec_path_part_v(b),
    decreases a,
{
    if a.len() > 0 {
        lemma_same_vec_path_part_v(a.drop_last(), b.drop_last());
        lemma_same_path_part_v(a.last(), b.last());
    }
}

pub proof fn lemma_same_vec_case_variant_v(a: Seq<CaseVariant>, b: Seq<CaseVariant>)
    requires
        same_vec_case_variant(a, b),
    ensures
        vec_case_variant_v(a) == vec_case_variant_v(b),
    decreases a,
{
    if a.len() > 0 {
        lemma_same_vec_case_variant_v(a.drop_last(), b.drop_last());
        lemma_same_case_variant_v(a.last(), b.last());
    }
}

pub proof fn lemma_same_vec_column_spec_v(a: Seq<ColumnSpec>, b: Seq<ColumnSpec>)
    requires
        same_vec_column_spec(a, b),
    ensures
        vec_column_spec_v(a) == vec_column_spec_v(b),
    decreases a,
{
    if a.len() > 0 {
        lemma_same_vec_column_spec_v(a.drop_last(), b.drop_last());
        lemma_same_column_spec_v(a.last(), b.last());
    }
}

pub proof fn lemma_same_annotation_value_v(a: AnnotationValue, b: AnnotationValue)
    requires
        same_annotation_value(a, b),
    ensures
        annotation_value_v(a) == annotation_value_v(b),
    decreases a,
{
    match a {
        AnnotationValue::Array(x) => {
            if let AnnotationValue::Array(y) = b {
                assert(decreases_to!(x => x@));
                lemma_same_vec_annotation_value_v(x@, y@);
            }
        },
        AnnotationValue::Object(x) => {
            if let AnnotationValue::Object(y) = b {
                assert(decreases_to!(x => x@));
                lemma_same_vec_entry_v(x@, y@);
            }
        },
        _ => {},
    }
}

pub proof fn lemma_same_vec_annotation_value_v(a: Seq<AnnotationValue>, b: Seq<AnnotationValue>)
    requires
        same_vec_annotation_value(a, b),
    ensures
        annotation_values_v(a) == annotation_values_v(b),
    decreases a,
{
    if a.len() > 0 {
        lemma_same_vec_annotation_value_v(a.drop_last(), b.drop_last());
        lemma_same_annotation_value_v(a.last(), b.last());
    }
}

pub proof fn lemma_same_vec_entry_v(a: Seq<(String, AnnotationValue)>, b: Seq<(String, AnnotationValue)>)
    requires
        same_vec_entry(a, b),
    ensures
        annotation_entries_v(a) == annotation_entries_v(b),
    decreases a,
{
    if a.len() > 0 {
        lemma_same_vec_entry_v(a.drop_last(), b.drop_last());
        lemma_same_annotation_value_v(a.last().1, b.last().1);
    }
}

pub proof fn lemma_same_opt_annotation_v(a: Option<AnnotationValue>, b: Option<AnnotationValue>)
    requires
        same_opt_annotation(a, b),
    ensures
        opt_annotation_v(a) == opt_annotation_v(b),
{
    if let Some(x) = a {
        if let Some(y) = b {
            lemma_same_annotation_value_v(x, y);
        }
    }
}

/// The model of an expression with `head` put in front of its leading column reference (the
/// expression unchanged where it has none).
pub open spec fn prefix_v(head: Seq<PathPartV>, e: ExprV) -> ExprV
    decreases e,
{
    match e {
        ExprV::Path(p) => ExprV::Path(head + p),
        ExprV::HasQuantity(h) => ExprV::HasQuantity(
            HasQuantityV { quantity: h.quantity, path_parts: head + h.path_parts },
        ),
        ExprV::Call(c) => if c.syntax == CallSyntax::Piped && c.args.len() > 0 {
            ExprV::Call(
                CallV {
                    name: c.name,
                    dimension: c.dimension,
                    args: seq![prefix_v(head, c.args[0])] + c.args.skip(1),
                    syntax: c.syntax,
                    order_by: c.order_by,
                },
            )
        } else {
            e
        },
        ExprV::AnonymousFunctionCall(a) => if a.args.len() > 0 {
            ExprV::AnonymousFunctionCall(
                Box::new(
                    AnonymousFunctionCallV {
                        params: a.params,
                        body: a.body,
                        args: seq![prefix_v(head, a.args[0])] + a.args.skip(1),
                    },
                ),
            )
        } else {
            e
        },
        ExprV::Product(a, b) => ExprV::Product(Box::new(prefix_v(head, *a)), b),
        ExprV::Quotient(a, b) => ExprV::Quotient(Box::new(prefix_v(head, *a)), b),
        ExprV::Sum(a, b) => ExprV::Sum(Box::new(prefix_v(head, *a)), b),
        ExprV::Difference(a, b) => ExprV::Difference(Box::new(prefix_v(head, *a)), b),
        ExprV::Comparison(c) => match c.left {
            ComparisonSideV::Expr(l) => ExprV::Comparison(
                Box::new(
                    ComparisonV {
                        left: ComparisonSideV::Expr(prefix_v(head, l)),
                        operator: c.operator,
                        right: c.right,
                    },
                ),
            ),
            _ => e,
        },
        ExprV::Not(a) => ExprV::Not(Box::new(prefix_v(head, *a))),
        _ => e,
    }
}

/// Copies of path parts have the same models.
pub proof fn lemma_prefixed_parts_v(head: Seq<PathPart>, parts: Seq<PathPart>, r: Seq<PathPart>)
    requires
        prefixed_parts(head, parts, r),
    ensures
        vec_path_part_v(r) == vec_path_part_v(head) + vec_path_part_v(parts),
{
    lemma_vec_path_part_v(head);
    lemma_vec_path_part_v(parts);
    lemma_vec_path_part_v(r);
    assert forall|i: int| 0 <= i < r.len() implies #[trigger] vec_path_part_v(r)[i] == (vec_path_part_v(head)
        + vec_path_part_v(parts))[i] by {
        if i < head.len() {
            assert(cloned(head[i], r[i]));
            if head[i] != r[i] {
                lemma_same_path_part_v(head[i], r[i]);
            }
        } else {
            assert(r[i] == r.skip(head.len() as int)[i - head.len()]);
        }
    }
    assert(vec_path_part_v(r) =~= vec_path_part_v(head) + vec_path_part_v(parts));
}

/// The model of an expression with a head put in front of its leading column reference is the
/// model of the expression with the model of the head put there.
pub proof fn lemma_prefixes_v(head: Seq<PathPart>, e: Expr, r: Expr)
    requires
        prefixes(head, e, r),
    ensures
        expr_v(r) == prefix_v(vec_path_part_v(head), expr_v(e)),
    decreases e,
{
    let hv = vec_path_part_v(head);
    match e {
        Expr::Path(p) => {
            if let Expr::Path(q) = r {
                lemma_prefixed_parts_v(head, p@, q@);
            }
        },
        Expr::HasQuantity(h) => {
            if let Expr::HasQuantity(g) = r {
                lemma_prefixed_parts_v(head, h.path_parts@, g.path_parts@);
                assert(has_quantity_v(g) == HasQuantityV { quantity: g.quantity, path_parts: vec_path_part_v(g.path_parts@) });
                assert(has_quantity_v(h) == HasQuantityV { quantity: h.quantity, path_parts: vec_path_part_v(h.path_parts@) });
            }
        },
        Expr::Call(c) => {
            if let Expr::Call(d) = r {
                assert(decreases_to!(c.args => c.args@));
                lemma_prefixes_v(head, c.args@[0], d.args@[0]);
                lemma_vec_expr_v(c.args@);
                lemma_vec_expr_v(d.args@);
                let cv = call_v(c);
                let dv = call_v(d);
                assert(cv.args == vec_expr_v(c.args@));
                assert(dv.args == vec_expr_v(d.args@));
                assert(dv.args =~= seq![prefix_v(hv, cv.args[0])] + cv.args.skip(1)) by {
                    assert forall|i: int| 1 <= i < d.args@.len() implies d.args@[i] == c.args@[i] by {
                        assert(d.args@[i] == d.args@.skip(1)[i - 1]);
                    }
                }
                assert(expr_v(r) == ExprV::Call(dv));
                assert(expr_v(e) == ExprV::Call(cv));
            }
        },
        Expr::AnonymousFunctionCall(a) => {
            if let Expr::AnonymousFunctionCall(b) = r {
                assert(decreases_to!(a.args => a.args@));
                lemma_prefixes_v(head, a.args@[0], b.args@[0]);
                lemma_vec_expr_v(a.args@);
                lemma_vec_expr_v(b.args@);
                let av = anonymous_function_call_v(*a);
                let bv = anonymous_function_call_v(*b);
                assert(av.args == vec_expr_v(a.args@));
                assert(bv.args == vec_expr_v(b.args@));
                assert(bv.args =~= seq![prefix_v(hv, av.args[0])] + av.args.skip(1)) by {
                    assert forall|i: int| 1 <= i < b.args@.len() implies b.args@[i] == a.args@[i] by {
                        assert(b.args@[i] == b.args@.skip(1)[i - 1]);
                    }
                }
                assert(expr_v(r) == ExprV::AnonymousFunctionCall(Box::new(bv)));
                assert(expr_v(e) == ExprV::AnonymousFunctionCall(Box::new(av)));
            }
        },
        Expr::Product(a, _) => {
            if let Expr::Product(x, _) = r {
                lemma_prefixes_v(head, *a, *x);
            }
        },
        Expr::Quotient(a, _) => {
            if let Expr::Quotient(x, _) = r {
                lemma_prefixes_v(head, *a, *x);
            }
        },
        Expr::Sum(a, _) => {
            if let Expr::Sum(x, _) = r {
                lemma_prefixes_v(head, *a, *x);
            }
        },
        Expr::Difference(a, _) => {
            if let Expr::Difference(x, _) = r {
                lemma_prefixes_v(head, *a, *x);
            }
        },
        Expr::Comparison(c) => {
            if let ComparisonSide::Expr(l) = c.left {
                if let Expr::Comparison(d) = r {
                    if let ComparisonSide::Expr(m) = d.left {
                        lemma_prefixes_v(head, l, m);
                        let cv = comparison_v(*c);
                        let dv = comparison_v(*d);
                        assert(cv.left == comparison_side_v(c.left));
                        assert(dv.left == comparison_side_v(d.left));
                        assert(cv.right == comparison_side_v(c.right));
                        assert(dv.right == comparison_side_v(d.right));
                        assert(comparison_side_v(c.left) == ComparisonSideV::Expr(expr_v(l)));
                        assert(comparison_side_v(d.left) == ComparisonSideV::Expr(expr_v(m)));
                        assert(expr_v(r) == ExprV::Comparison(Box::new(dv)));
                        assert(expr_v(e) == ExprV::Comparison(Box::new(cv)));
                    }
                }
            }
        },
        Expr::Not(a) => {
            if let Expr::Not(x) = r {
                lemma_prefixes_v(head, *a, *x);
            }
        },
        _ => {},
    }
}

} // verus!
