//! The expressions that the compiler turns into SQL: a base value followed by compositions
//! (function applications), and comparisons between such expressions or sets of them.
use vstd::prelude::*;

use crate::ast::{Conjunction, Date, Duration, FunctionDimension, Operator, PathPart};
use crate::copy::{copy_date, copy_duration, copy_vec_path_part, same_vec_path_part};
use crate::strings::copy_string;

verus! {

#[derive(Debug, Clone)]
pub enum Literal {
    Date(Date),
    Duration(Duration),
    False,
    Infinity,
    Now,
    Null,
    Number(String),
    String(String),
    True,
    TableColumnReference(String, String),
}

#[derive(Debug, Clone)]
pub struct Function {
    pub name: String,
    pub dimension: FunctionDimension,
}

#[derive(Debug)]
pub struct Composition {
    pub function: Function,
    pub argument: Option<Box<Expression>>,
}

#[derive(Debug, Clone)]
pub enum Value {
    Literal(Literal),
    Path(Vec<PathPart>),
}

#[derive(Debug)]
pub struct Expression {
    pub base: Value,
    pub compositions: Vec<Composition>,
}

#[derive(Debug)]
pub struct ExpressionSet {
    pub conjunction: Conjunction,
    pub entries: Vec<Expression>,
}

#[derive(Debug)]
pub enum ComparisonPart {
    Expression(Expression),
    ExpressionSet(ExpressionSet),
}

#[derive(Debug)]
pub struct Comparison {
    pub left: ComparisonPart,
    pub operator: Operator,
    pub right: ComparisonPart,
}

/// The aggregate function `count`, applied with no argument.
pub open spec fn is_count(c: Composition) -> bool {
    &&& c.function.name@ == "count"@
    &&& c.function.dimension == FunctionDimension::Aggregate
    &&& c.argument is None
}

impl Composition {
    /// The aggregate composition `%count`.
    pub fn count() -> (r: Composition)
        ensures
            is_count(r),
    {
        Composition {
            function: Function { name: "count".to_owned(), dimension: FunctionDimension::Aggregate },
            argument: None,
        }
    }
}

/// `b` is a copy of `a`.
pub open spec fn same_value(a: Value, b: Value) -> bool {
    match a {
        Value::Literal(x) => b matches Value::Literal(y) && y == x,
        Value::Path(x) => b matches Value::Path(y) && same_vec_path_part(x@, y@),
    }
}

/// `b` is a copy of `a`.
pub open spec fn same_expression(a: Expression, b: Expression) -> bool
    decreases a,
{
    proof {
        assert(decreases_to!(a.compositions => a.compositions@));
    }
    &&& same_value(a.base, b.base)
    &&& same_compositions(a.compositions@, b.compositions@)
}

/// `b` holds copies of the compositions of `a`, in order.
pub open spec fn same_compositions(a: Seq<Composition>, b: Seq<Composition>) -> bool
    decreases a,
{
    a.len() == b.len() && (a.len() == 0 || (same_compositions(a.drop_last(), b.drop_last())
        && same_composition(a.last(), b.last())))
}

/// `b` is a copy of `a`.
pub open spec fn same_composition(a: Composition, b: Composition) -> bool
    decreases a,
{
    &&& b.function == a.function
    &&& match a.argument {
        Some(x) => b.argument matches Some(y) && same_expression(*x, *y),
        None => b.argument is None,
    }
}

fn copy_literal(l: &Literal) -> (r: Literal)
    ensures
        r == *l,
{
    match l {
        Literal::Date(d) => Literal::Date(copy_date(d)),
        Literal::Duration(d) => Literal::Duration(copy_duration(d)),
        Literal::False => Literal::False,
        Literal::Infinity => Literal::Infinity,
        Literal::Now => Literal::Now,
        Literal::Null => Literal::Null,
        Literal::Number(n) => Literal::Number(copy_string(n)),
        Literal::String(t) => Literal::String(copy_string(t)),
        Literal::True => Literal::True,
        Literal::TableColumnReference(t, c) => Literal::TableColumnReference(copy_string(t), copy_string(c)),
    }
}

fn copy_value(v: &Value) -> (r: Value)
    ensures
        same_value(*v, r),
{
    match v {
        Value::Literal(l) => Value::Literal(copy_literal(l)),
        Value::Path(p) => Value::Path(copy_vec_path_part(p)),
    }
}

fn copy_function(f: &Function) -> (r: Function)
    ensures
        r == *f,
{
    Function { name: copy_string(&f.name), dimension: f.dimension }
}

fn copy_expression(e: &Expression) -> (r: Expression)
    ensures
        same_expression(*e, r),
    decreases e,
{
    let mut compositions: Vec<Composition> = Vec::new();
    let mut i: usize = 0;
    while i < e.compositions.len()
        invariant
            i <= e.compositions.len(),
            same_compositions(e.compositions@.take(i as int), compositions@),
        decreases e.compositions.len() - i,
    {
        proof {
            assert(decreases_to!(e => e.compositions));
            assert(decreases_to!(e.compositions => e.compositions@));
            assert(decreases_to!(e.compositions@ => e.compositions@[i as int]));
        }
        let item = copy_composition(&e.compositions[i]);
        let ghost before = compositions@;
        compositions.push(item);
        proof {
            assert(e.compositions@.take(i + 1).drop_last() =~= e.compositions@.take(i as int));
            assert(compositions@.drop_last() =~= before);
            assert(e.compositions@.take(i + 1).last() == e.compositions@[i as int]);
        }
        i = i + 1;
    }
    proof {
        assert(e.compositions@.take(i as int) =~= e.compositions@);
    }
    Expression { base: copy_value(&e.base), compositions }
}

fn copy_composition(c: &Composition) -> (r: Composition)
    ensures
        same_composition(*c, r),
    decreases c,
{
    let argument = match &c.argument {
        Some(a) => Some(Box::new(copy_expression(a))),
        None => None,
    };
    Composition { function: copy_function(&c.function), argument }
}

impl Clone for Expression {
    fn clone(&self) -> (r: Expression)
        ensures
            same_expression(*self, r),
    {
        copy_expression(self)
    }
}

impl Clone for Composition {
    fn clone(&self) -> (r: Composition)
        ensures
            same_composition(*self, r),
    {
        copy_composition(self)
    }
}

} // verus!
