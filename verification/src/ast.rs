//! The syntax tree produced by the Querydown parser.
use vstd::prelude::*;

use crate::decimal::Decimal;
use crate::strings::{append_string, push_char, zero_padded, zero_padded_string};

verus! {

/// A value in Querydown's JSON-like annotation sub-language. It carries arbitrary,
/// application-defined annotations for result columns from the source code through to the compiler
/// output, separate from the generated SQL.
#[derive(Debug, PartialEq)]
pub enum AnnotationValue {
    Null,
    Bool(bool),
    /// The number is kept as text so that the exact way it was written is preserved.
    Number(String),
    String(String),
    Array(Vec<AnnotationValue>),
    /// Object entries are kept in a `Vec` so that key order is preserved.
    Object(Vec<(String, AnnotationValue)>),
}

#[derive(Debug, PartialEq)]
pub struct Query {
    /// The definitions written before the base table.
    pub definitions: Definitions,
    pub base_table: String,
    pub transformations: Vec<Transformation>,
}

/// The definitions that may precede a query's base table.
#[derive(Debug, PartialEq, Default)]
pub struct Definitions {
    /// `@name = expr`
    pub constants: Vec<ConstantDef>,
    /// `@@name = @param => body`
    pub functions: Vec<FunctionDef>,
    /// `#table.name:@param = body`
    pub custom_comparisons: Vec<CustomComparisonDef>,
    /// `#table.name = expr`
    pub computed_columns: Vec<ComputedColumn>,
    /// `#name = #( query )`
    pub tables: Vec<TableDef>,
}

/// A user-defined table definition, written as `#name = #( query )`.
#[derive(Debug, PartialEq)]
pub struct TableDef {
    pub name: String,
    pub query: Query,
}

/// A computed column definition, written as `#table.name = expr`.
#[derive(Debug, PartialEq)]
pub struct ComputedColumn {
    pub table: String,
    pub name: String,
    pub expr: Expr,
}

/// A user-defined constant definition, written as `@name = expr`.
#[derive(Debug, PartialEq)]
pub struct ConstantDef {
    pub name: String,
    pub expr: Expr,
}

/// A user-defined function definition, written as `@@name = @param1 @param2 => body`.
#[derive(Debug, PartialEq)]
pub struct FunctionDef {
    pub name: String,
    /// Parameter names, without the `@` sigil, in order.
    pub params: Vec<String>,
    pub body: FunctionBody,
}

/// Zero or more local assignments followed by a single result expression.
#[derive(Debug, PartialEq)]
pub struct FunctionBody {
    pub assignments: Vec<Assignment>,
    pub expr: Expr,
}

/// A local assignment within a function body, written as `@name = expr`.
#[derive(Debug, PartialEq)]
pub struct Assignment {
    pub name: String,
    pub expr: Expr,
}

/// A custom comparison definition, written as `#table.name:@param = body`.
#[derive(Debug, PartialEq)]
pub struct CustomComparisonDef {
    pub table: String,
    pub name: String,
    pub operator: Operator,
    /// The parameter name, without the `@` sigil.
    pub param: String,
    pub body: Expr,
}

#[derive(Debug, PartialEq, Default)]
pub struct Transformation {
    pub conditions: ConditionSet,
    pub sorting: Vec<SortExpr>,
    pub result_columns: Vec<ResultColumnStatement>,
}

/// A standalone sorting expression, written with the `\\` prefix, e.g. `\\created_at \d`.
#[derive(Debug, PartialEq)]
pub struct SortExpr {
    pub expr: Expr,
    pub direction: SortDirection,
    pub nulls_sort: NullsSort,
}

#[derive(Debug, PartialEq)]
pub enum Expr {
    Number(String),
    Date(Date),
    Duration(Duration),
    String(String),
    Variable(String),
    Path(Vec<PathPart>),
    ConditionSet(ConditionSet),
    /// A condition set scoped to a single related record, e.g. `issue{title:dashboard}`.
    ScopedConditionSet(ScopedConditionSet),
    HasQuantity(HasQuantity),
    Case(Case),
    Call(Call),
    Product(Box<Expr>, Box<Expr>),
    Quotient(Box<Expr>, Box<Expr>),
    Sum(Box<Expr>, Box<Expr>),
    Difference(Box<Expr>, Box<Expr>),
    Comparison(Box<Comparison>),
    /// Boolean negation, written with a `!` prefix.
    Not(Box<Expr>),
    /// A window function application, written as `%%( ... )%func(args)`.
    Window(WindowFn),
    /// An anonymous function applied to arguments, e.g. `value|(@d => @d:<0)`.
    AnonymousFunctionCall(Box<AnonymousFunctionCall>),
    /// A scalar subquery, written as `#( query )`.
    Subquery(Box<Query>),
}

#[derive(Debug, PartialEq)]
pub struct AnonymousFunctionCall {
    pub params: Vec<String>,
    pub body: FunctionBody,
    /// The first argument is the piped-in value.
    pub args: Vec<Expr>,
}

#[derive(Debug, PartialEq)]
pub struct WindowFn {
    pub function: String,
    pub args: Vec<Expr>,
    pub partition_by: Vec<Expr>,
    pub order_by: Vec<SortExpr>,
}

#[derive(Debug, Clone, PartialEq)]
pub struct Date {
    pub year: u32,
    pub month: u32,
    pub day: u32,
}

/// A duration. Each component is an exact non-negative decimal number.
#[derive(Debug, Clone, PartialEq, Default)]
pub struct Duration {
    pub years: Decimal,
    pub months: Decimal,
    pub weeks: Decimal,
    pub days: Decimal,
    pub hours: Decimal,
    pub minutes: Decimal,
    pub seconds: Decimal,
}

#[derive(Debug, PartialEq)]
pub enum PathPart {
    Column(String),
    TableWithOne(String),
    TableWithMany(TableWithMany),
}

#[derive(Debug, PartialEq)]
pub struct TableWithMany {
    pub table: String,
    pub condition_set: ConditionSet,
    pub linking_column: Option<String>,
}

#[derive(Debug, PartialEq)]
pub struct Comparison {
    pub left: ComparisonSide,
    pub operator: Operator,
    pub right: ComparisonSide,
}

#[derive(Debug, PartialEq)]
pub enum ComparisonSide {
    Expr(Expr),
    Expansion(ConditionSet),
    Range(Range),
}

#[derive(Debug, PartialEq)]
pub struct Range {
    pub lower: RangeBound,
    pub upper: RangeBound,
}

#[derive(Debug, PartialEq)]
pub struct RangeBound {
    pub expr: Expr,
    pub exclusivity: Exclusivity,
}

#[derive(Debug, Clone, Copy, PartialEq, Eq)]
pub enum Exclusivity {
    Inclusive,
    Exclusive,
}

#[derive(Debug, Clone, Copy, PartialEq, Eq)]
pub enum Operator {
    /// Exact equality (`:=`).
    Eq,
    Gt,
    Gte,
    Lt,
    Lte,
    Like,
    /// Regular-expression match (`:~`).
    RegexMatch,
    /// The general-purpose "match" operator (`:`).
    Match,
}

#[derive(Debug, Default, PartialEq)]
pub struct ConditionSet {
    pub conjunction: Conjunction,
    pub entries: Vec<Expr>,
}

#[derive(Debug, Clone, Copy, Default, PartialEq, Eq)]
pub enum Conjunction {
    #[default]
    And,
    Or,
}

/// A condition set scoped to a single related record, e.g. `issue{title:dashboard}`.
#[derive(Debug, PartialEq)]
pub struct ScopedConditionSet {
    pub path: Vec<PathPart>,
    pub condition_set: ConditionSet,
}

#[derive(Debug, PartialEq)]
pub struct HasQuantity {
    pub quantity: Quantity,
    pub path_parts: Vec<PathPart>,
}

#[derive(Debug, Clone, Copy, PartialEq, Eq)]
pub enum Quantity {
    AtLeastOne,
    Zero,
}

/// A case expression, e.g. `? a:1 ~ "one" a:2 ~ "two" ~~ "other"`.
#[derive(Debug, PartialEq)]
pub struct Case {
    pub variants: Vec<CaseVariant>,
    pub fallback: Box<Expr>,
}

/// One `condition ~ value` arm of a [`Case`] expression.
#[derive(Debug, PartialEq)]
pub struct CaseVariant {
    pub condition: Expr,
    pub value: Expr,
}

#[derive(Debug, PartialEq)]
pub struct Call {
    pub name: String,
    pub dimension: FunctionDimension,
    pub args: Vec<Expr>,
    pub syntax: CallSyntax,
    pub order_by: Vec<SortExpr>,
}

#[derive(Debug, Clone, Copy, PartialEq, Eq)]
pub enum CallSyntax {
    Standalone,
    Piped,
}

#[derive(Debug, Clone, Copy, PartialEq, Eq)]
pub enum FunctionDimension {
    Scalar,
    Aggregate,
}

#[derive(Debug, PartialEq)]
pub enum ResultColumnStatement {
    Spec(ColumnSpec),
    Glob(ColumnGlob),
}

#[derive(Debug, PartialEq)]
pub struct ColumnSpec {
    pub expr: Expr,
    pub alias: Option<String>,
    pub column_control: ColumnControl,
    /// Optional column-level annotation, always an [`AnnotationValue::Object`] when present.
    pub annotation: Option<AnnotationValue>,
}

#[derive(Debug, Clone, Copy, PartialEq, Eq, Default)]
pub struct ColumnControl {
    pub sort: Option<SortSpec>,
    pub group: Option<GroupSpec>,
    pub is_partition_by: bool,
    pub is_hidden: bool,
}

#[derive(Debug, Default, Clone, Copy, PartialEq, Eq)]
pub struct GroupSpec {
    pub ordinal: Option<u32>,
}

#[derive(Debug, Default, Clone, Copy, PartialEq, Eq)]
pub struct SortSpec {
    pub ordinal: Option<u32>,
    pub direction: SortDirection,
    pub nulls_sort: NullsSort,
}

#[derive(Debug, Default, Clone, Copy, PartialEq, Eq)]
pub enum NullsSort {
    First,
    #[default]
    Last,
}

#[derive(Debug, Default, Clone, Copy, PartialEq, Eq)]
pub enum SortDirection {
    #[default]
    Asc,
    Desc,
}

#[derive(Debug, Default, PartialEq)]
pub struct ColumnGlob {
    pub head: Vec<PathPart>,
    pub specs: Vec<ColumnSpec>,
}

impl Query {
    /// Assembles a query from independently-parsed sections plus a base table: the conditions,
    /// sorting and display sections become a single transformation.
    pub fn from_parts(
        base_table: String,
        definitions: Definitions,
        conditions: ConditionSet,
        sorting: Vec<SortExpr>,
        display: Vec<ResultColumnStatement>,
    ) -> (r: Query)
        ensures
            r.definitions == definitions,
            r.base_table == base_table,
            r.transformations.len() == 1,
            r.transformations[0].conditions == conditions,
            r.transformations[0].sorting == sorting,
            r.transformations[0].result_columns == display,
    {
        let mut transformations = Vec::new();
        transformations.push(Transformation { conditions, sorting, result_columns: display });
        Query { definitions, base_table, transformations }
    }
}

/// The number of entries of a condition set expression (zero for any other expression).
pub open spec fn entry_count(e: Expr) -> int {
    match e {
        Expr::ConditionSet(cs) => cs.entries@.len() as int,
        _ => 0,
    }
}

/// Whether `e` is a condition set whose entries from index `i` on are all empty.
pub open spec fn empty_from(e: Expr, i: int) -> bool
    decreases e, entry_count(e) - i,
    when 0 <= i
{
    match e {
        Expr::ConditionSet(cs) => i >= cs.entries@.len() || (empty_from(cs.entries@[i], 0)
            && empty_from(e, i + 1)),
        _ => false,
    }
}

/// An expression is empty when it is a condition set all of whose entries are empty.
pub open spec fn expr_is_empty(e: Expr) -> bool {
    empty_from(e, 0)
}

/// A condition set is empty when all of its entries are empty (in particular when it has none).
pub open spec fn condition_set_is_empty(cs: ConditionSet) -> bool {
    empty_from(Expr::ConditionSet(cs), 0)
}

impl Expr {
    /// The number zero.
    pub fn zero() -> (r: Expr)
        ensures
            r matches Expr::Number(n) && n@ == seq!['0'],
    {
        let mut n = String::new();
        push_char(&mut n, '0');
        Expr::Number(n)
    }

    /// Whether this is the number literal `0`, written exactly so.
    pub fn is_zero(&self) -> (r: bool)
        ensures
            r == (self matches Expr::Number(n) && n@ == seq!['0']),
    {
        match self {
            Expr::Number(num) => {
                let s = num.as_str();
                if s.unicode_len() == 1 && s.get_char(0) == '0' {
                    assert(num@ =~= seq!['0']);
                    true
                } else {
                    false
                }
            },
            _ => false,
        }
    }

    /// Whether this is the variable `null`.
    pub fn is_null(&self) -> (r: bool)
        ensures
            r == (self matches Expr::Variable(name) && name@ == seq!['n', 'u', 'l', 'l']),
    {
        match self {
            Expr::Variable(name) => {
                let s = name.as_str();
                if s.unicode_len() == 4 && s.get_char(0) == 'n' && s.get_char(1) == 'u'
                    && s.get_char(2) == 'l' && s.get_char(3) == 'l' {
                    assert(name@ =~= seq!['n', 'u', 'l', 'l']);
                    true
                } else {
                    false
                }
            },
            _ => false,
        }
    }

    /// Whether this is a condition set whose entries are all empty.
    pub fn is_empty(&self) -> (r: bool)
        ensures
            r == expr_is_empty(*self),
        decreases self,
    {
        match self {
            Expr::ConditionSet(cs) => cs.is_empty(),
            _ => false,
        }
    }
}

impl ConditionSet {
    /// Whether every entry of this condition set is empty (true for a set with no entries).
    pub fn is_empty(&self) -> (r: bool)
        ensures
            r == condition_set_is_empty(*self),
        decreases self,
    {
        let ghost e = Expr::ConditionSet(*self);
        let mut i: usize = 0;
        while i < self.entries.len()
            invariant
                i <= self.entries.len(),
                e == Expr::ConditionSet(*self),
                empty_from(e, 0) == empty_from(e, i as int),
            decreases self.entries.len() - i,
        {
            proof {
                assert(decreases_to!(self => self.entries));
                assert(decreases_to!(self.entries => self.entries@[i as int]));
            }
            if !self.entries[i].is_empty() {
                return false;
            }
            i = i + 1;
        }
        assert(empty_from(e, i as int));
        true
    }

    pub fn via_and(entries: Vec<Expr>) -> (r: ConditionSet)
        ensures
            r.conjunction == Conjunction::And,
            r.entries == entries,
    {
        ConditionSet { conjunction: Conjunction::And, entries }
    }

    pub fn via_or(entries: Vec<Expr>) -> (r: ConditionSet)
        ensures
            r.conjunction == Conjunction::Or,
            r.entries == entries,
    {
        ConditionSet { conjunction: Conjunction::Or, entries }
    }
}

/// The ISO 8601 rendering `YYYY-MM-DD`, each part zero-padded to its width.
pub open spec fn date_iso(d: Date) -> Seq<char> {
    zero_padded(d.year as nat, 4) + seq!['-'] + zero_padded(d.month as nat, 2) + seq!['-']
        + zero_padded(d.day as nat, 2)
}

impl Date {
    pub fn to_iso(&self) -> (r: String)
        ensures
            r@ == date_iso(*self),
    {
        let mut r = zero_padded_string(self.year, 4);
        push_char(&mut r, '-');
        let m = zero_padded_string(self.month, 2);
        append_string(&mut r, &m);
        push_char(&mut r, '-');
        let d = zero_padded_string(self.day, 2);
        append_string(&mut r, &d);
        r
    }
}

/// The rendering of one duration component: nothing when it is zero, else its digits and unit.
pub open spec fn iso_component(d: Decimal, unit: char) -> Seq<char> {
    if d.spec_is_zero() {
        Seq::empty()
    } else {
        d.rendering().push(unit)
    }
}

/// The rendering of a duration by its non-zero components, each followed by its unit letter and
/// the time components after a `T`, e.g. `1Y2MT3H`. Unlike an ISO 8601 duration it has no leading
/// `P`, except for `PT0S`, given when every component is zero.
pub open spec fn duration_iso(d: Duration) -> Seq<char> {
    let date_part = iso_component(d.years, 'Y') + iso_component(d.months, 'M') + iso_component(
        d.weeks,
        'W',
    ) + iso_component(d.days, 'D');
    let time_part = if d.hours.spec_is_zero() && d.minutes.spec_is_zero()
        && d.seconds.spec_is_zero() {
        Seq::empty()
    } else {
        seq!['T'] + iso_component(d.hours, 'H') + iso_component(d.minutes, 'M') + iso_component(
            d.seconds,
            'S',
        )
    };
    let all = date_part + time_part;
    if all.len() == 0 {
        seq!['P', 'T', '0', 'S']
    } else {
        all
    }
}

fn push_component(r: &mut String, d: &Decimal, unit: char)
    ensures
        final(r)@ == old(r)@ + iso_component(*d, unit),
{
    if !d.is_zero() {
        let t = d.render();
        append_string(r, &t);
        push_char(r, unit);
    } else {
        assert(old(r)@ + iso_component(*d, unit) =~= old(r)@);
    }
}

impl Duration {
    /// A duration with every component zero.
    pub fn zero() -> (r: Duration)
        ensures
            r.years.spec_is_zero() && r.months.spec_is_zero() && r.weeks.spec_is_zero()
                && r.days.spec_is_zero() && r.hours.spec_is_zero() && r.minutes.spec_is_zero()
                && r.seconds.spec_is_zero(),
    {
        Duration {
            years: Decimal::zero(),
            months: Decimal::zero(),
            weeks: Decimal::zero(),
            days: Decimal::zero(),
            hours: Decimal::zero(),
            minutes: Decimal::zero(),
            seconds: Decimal::zero(),
        }
    }

    pub fn to_iso(&self) -> (r: String)
        ensures
            r@ == duration_iso(*self),
    {
        let mut r = String::new();
        push_component(&mut r, &self.years, 'Y');
        push_component(&mut r, &self.months, 'M');
        push_component(&mut r, &self.weeks, 'W');
        push_component(&mut r, &self.days, 'D');
        let ghost date_part = r@;
        if !self.hours.is_zero() || !self.minutes.is_zero() || !self.seconds.is_zero() {
            push_char(&mut r, 'T');
            push_component(&mut r, &self.hours, 'H');
            push_component(&mut r, &self.minutes, 'M');
            push_component(&mut r, &self.seconds, 'S');
        }
        assert(r@ =~= duration_iso(*self) || r@.len() == 0);
        if r.as_str().unicode_len() == 0 {
            let z = String::from_str("PT0S");
            proof {
                reveal_strlit("PT0S");
            }
            z
        } else {
            r
        }
    }
}

} // verus!
