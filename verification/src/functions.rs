//! Function applications in SQL: splitting compositions around an aggregate, and rendering one
//! composition over an already rendered value.
use vstd::prelude::*;

use crate::ast::FunctionDimension;
use crate::msg::multiple_agg_fns;
use crate::strings::same_str;
use crate::syntax::{is_count, Composition};

verus! {

/// The number of aggregate compositions in `cs`.
pub open spec fn aggregate_count(cs: Seq<Composition>) -> nat
    decreases cs.len(),
{
    if cs.len() == 0 {
        0
    } else {
        aggregate_count(cs.drop_last()) + aggregate_mark(cs.last())
    }
}

/// 1 for an aggregate composition, 0 for a scalar one.
pub open spec fn aggregate_mark(c: Composition) -> nat {
    if c.function.dimension == FunctionDimension::Aggregate {
        1
    } else {
        0
    }
}

/// The position of the first aggregate composition in `cs`, or its length when there is none.
pub open spec fn first_aggregate(cs: Seq<Composition>) -> int
    decreases cs.len(),
{
    if cs.len() == 0 {
        0
    } else if cs[0].function.dimension == FunctionDimension::Aggregate {
        0
    } else {
        1 + first_aggregate(cs.drop_first())
    }
}

proof fn lemma_aggregates_take(cs: Seq<Composition>, i: int)
    requires
        0 <= i < cs.len(),
    ensures
        aggregate_count(cs.take(i + 1)) == aggregate_count(cs.take(i)) + aggregate_mark(cs[i]),
{
    assert(cs.take(i + 1).drop_last() =~= cs.take(i));
}

proof fn lemma_first_aggregate(cs: Seq<Composition>, i: int)
    requires
        0 <= i <= cs.len(),
        aggregate_count(cs.take(i)) == 0,
    ensures
        i <= first_aggregate(cs) <= cs.len(),
        first_aggregate(cs) < cs.len() ==> cs[first_aggregate(cs)].function.dimension
            == FunctionDimension::Aggregate,
        i < cs.len() && cs[i].function.dimension == FunctionDimension::Aggregate
            ==> first_aggregate(cs) == i,
    decreases i, cs.len(),
{
    if cs.len() > 0 {
        if i > 0 {
            assert(cs.take(i).drop_first() =~= cs.drop_first().take(i - 1));
            lemma_count_drop_first(cs.take(i));
            lemma_first_aggregate(cs.drop_first(), i - 1);
            assert(cs.take(i)[0] == cs[0]);
            assert(cs[0].function.dimension != FunctionDimension::Aggregate) by {
                lemma_count_drop_first(cs.take(i));
            }
        } else {
            if cs[0].function.dimension != FunctionDimension::Aggregate {
                assert(cs.drop_first().take(0) =~= Seq::<Composition>::empty());
                lemma_first_aggregate(cs.drop_first(), 0);
            }
        }
    }
}

proof fn lemma_count_drop_first(cs: Seq<Composition>)
    requires
        cs.len() > 0,
    ensures
        aggregate_count(cs) == aggregate_count(cs.drop_first()) + aggregate_mark(cs[0]),
    decreases cs.len(),
{
    if cs.len() > 1 {
        lemma_count_drop_first(cs.drop_last());
        assert(cs.drop_last().drop_first() =~= cs.drop_first().drop_last());
        assert(cs.drop_last()[0] == cs[0]);
        assert(cs.drop_first().last() == cs.last());
    } else {
        assert(cs.drop_first() =~= Seq::<Composition>::empty());
        assert(cs.drop_last() =~= Seq::<Composition>::empty());
        assert(cs.last() == cs[0]);
    }
}

/// Splits compositions around their aggregate into those applied in a CTE (everything up to and
/// including the aggregate, which comes last) and those applied afterwards. Without an aggregate,
/// the CTE counts rows and every composition comes afterwards. More than one aggregate is an
/// error.
pub fn prepare_compositions_for_aggregation(compositions: Vec<Composition>) -> (r: Result<
    (Vec<Composition>, Vec<Composition>),
    String,
>)
    ensures
        aggregate_count(compositions@) > 1 ==> (r matches Err(e) && e@
            == "Cannot apply more than one aggregate function to the same expression."@),
        aggregate_count(compositions@) == 1 ==> (r matches Ok((pre, post)) && pre@
            == compositions@.take(first_aggregate(compositions@) + 1) && post@ == compositions@.skip(
            first_aggregate(compositions@) + 1,
        )),
        aggregate_count(compositions@) == 0 ==> (r matches Ok((pre, post)) && pre@.len() == 1
            && is_count(pre@[0]) && post@ == compositions@),
{
    let ghost cs = compositions@;
    proof {
        assert(cs.take(0) =~= Seq::<Composition>::empty());
        lemma_first_aggregate(cs, 0);
    }
    let mut rest = compositions;
    let n = rest.len();
    let mut pre: Vec<Composition> = Vec::new();
    let mut aggregate: Option<Composition> = None;
    let mut post: Vec<Composition> = Vec::new();
    let mut i: usize = 0;
    while rest.len() > 0
        invariant
            i + rest@.len() == n,
            n == cs.len(),
            cs == compositions@,
            0 <= first_aggregate(cs) <= cs.len(),
            rest@ == cs.skip(i as int),
            aggregate_count(cs.take(i as int)) <= 1,
            aggregate_count(cs.take(i as int)) == 0 ==> aggregate is None && pre@ == cs.take(
                i as int,
            ) && post@.len() == 0,
            aggregate_count(cs.take(i as int)) == 1 ==> {
                &&& first_aggregate(cs) < i
                &&& aggregate == Some(cs[first_aggregate(cs)])
                &&& pre@ == cs.take(first_aggregate(cs))
                &&& post@ == cs.subrange(first_aggregate(cs) + 1, i as int)
            },
        decreases rest@.len(),
    {
        let c = rest.remove(0);
        proof {
            assert(c == cs[i as int]);
            lemma_aggregates_take(cs, i as int);
            if aggregate_count(cs.take(i as int)) == 0 {
                lemma_first_aggregate(cs, i as int);
            }
        }
        let is_aggregate = match c.function.dimension {
            FunctionDimension::Aggregate => true,
            FunctionDimension::Scalar => false,
        };
        if is_aggregate {
            if aggregate.is_some() {
                proof {
                    assert(aggregate_count(cs.take(i as int)) == 1);
                    assert(aggregate_mark(cs[i as int]) == 1);
                    assert(aggregate_count(cs.take(i + 1)) == 2);
                    lemma_count_monotone(cs, i + 1);
                    assert(aggregate_count(cs) >= 2);
                }
                return Err(multiple_agg_fns());
            }
            aggregate = Some(c);
            proof {
                assert(first_aggregate(cs) == i);
                assert(post@ =~= cs.subrange(first_aggregate(cs) + 1, i + 1));
            }
        } else if aggregate.is_none() {
            pre.push(c);
            proof {
                assert(pre@ =~= cs.take(i + 1));
            }
        } else {
            let ghost before = post@;
            post.push(c);
            proof {
                assert(aggregate_count(cs.take(i as int)) == 1);
                assert(before == cs.subrange(first_aggregate(cs) + 1, i as int));
                assert(post@ == before.push(cs[i as int]));
                assert(post@ =~= cs.subrange(first_aggregate(cs) + 1, i + 1));
            }
        }
        i = i + 1;
        proof {
            assert(rest@ =~= cs.skip(i as int));
        }
    }
    proof {
        assert(cs.take(i as int) =~= cs);
    }
    match aggregate {
        Some(a) => {
            pre.push(a);
            proof {
                assert(pre@ =~= cs.take(first_aggregate(cs) + 1));
                assert(post@ =~= cs.skip(first_aggregate(cs) + 1));
            }
            Ok((pre, post))
        },
        None => {
            let mut counted: Vec<Composition> = Vec::new();
            counted.push(Composition::count());
            Ok((counted, pre))
        },
    }
}

/// The number of aggregates in two sequences together is the sum of their numbers.
proof fn lemma_count_concat(a: Seq<Composition>, b: Seq<Composition>)
    ensures
        aggregate_count(a + b) == aggregate_count(a) + aggregate_count(b),
    decreases b.len(),
{
    if b.len() == 0 {
        assert(a + b =~= a);
    } else {
        lemma_count_concat(a, b.drop_last());
        assert((a + b).drop_last() =~= a + b.drop_last());
        assert((a + b).last() == b.last());
    }
}

/// No aggregate comes before the first one.
proof fn lemma_none_before_first(cs: Seq<Composition>)
    ensures
        aggregate_count(cs.take(first_aggregate(cs))) == 0,
        0 <= first_aggregate(cs) <= cs.len(),
    decreases cs.len(),
{
    if cs.len() == 0 {
        assert(cs.take(0).len() == 0);
    } else if cs[0].function.dimension == FunctionDimension::Aggregate {
        assert(cs.take(0).len() == 0);
    } else {
        let rest = cs.drop_first();
        lemma_none_before_first(rest);
        let k = first_aggregate(rest);
        assert(cs.take(k + 1) =~= seq![cs[0]] + rest.take(k));
        lemma_count_concat(seq![cs[0]], rest.take(k));
        assert(seq![cs[0]].drop_last() =~= Seq::<Composition>::empty());
        assert(seq![cs[0]].last() == cs[0]);
        assert(aggregate_count(Seq::<Composition>::empty()) == 0);
        assert(aggregate_mark(cs[0]) == 0);
        assert(aggregate_count(seq![cs[0]]) == 0);
    }
}

/// With exactly one aggregate, the compositions applied in the CTE end with it and hold no other,
/// and none of those applied afterwards is an aggregate.
pub proof fn law_split_around_the_aggregate(cs: Seq<Composition>)
    requires
        aggregate_count(cs) == 1,
    ensures
        0 <= first_aggregate(cs) < cs.len(),
        cs.take(first_aggregate(cs) + 1).last().function.dimension == FunctionDimension::Aggregate,
        aggregate_count(cs.take(first_aggregate(cs) + 1)) == 1,
        aggregate_count(cs.skip(first_aggregate(cs) + 1)) == 0,
{
    lemma_none_before_first(cs);
    let k = first_aggregate(cs);
    assert(cs.take(0) =~= Seq::<Composition>::empty());
    lemma_first_aggregate(cs, 0);
    if k == cs.len() {
        assert(cs.take(k) =~= cs);
    }
    lemma_aggregates_take(cs, k);
    assert(cs =~= cs.take(k + 1) + cs.skip(k + 1));
    lemma_count_concat(cs.take(k + 1), cs.skip(k + 1));
}

/// Aggregates only accumulate: a prefix with `k` of them has at least `k` in any longer prefix.
proof fn lemma_count_monotone(cs: Seq<Composition>, i: int)
    requires
        0 <= i <= cs.len(),
    ensures
        aggregate_count(cs.take(i)) <= aggregate_count(cs),
    decreases cs.len() - i,
{
    if i < cs.len() {
        lemma_aggregates_take(cs, i);
        lemma_count_monotone(cs, i + 1);
    } else {
        assert(cs.take(i) =~= cs);
    }
}

/// The words of the SQL dialect that compositions render to.
pub struct SqlWords {
    pub plus: String,
    pub minus: String,
    pub times: String,
    pub divide: String,
    pub now: String,
    pub max: String,
    pub min: String,
}

/// `base op arg`, or `base` alone when there is no argument.
pub open spec fn operator_sql(base: Seq<char>, op: Seq<char>, arg: Option<Seq<char>>) -> Seq<char> {
    match arg {
        None => base,
        Some(a) => base + " "@ + op + " "@ + a,
    }
}

/// `f(base)`, or `f(base, arg)`.
pub open spec fn function_sql(f: Seq<char>, base: Seq<char>, arg: Option<Seq<char>>) -> Seq<char> {
    match arg {
        None => f + "("@ + base + ")"@,
        Some(a) => f + "("@ + base + ", "@ + a + ")"@,
    }
}

/// The characters of an optional string.
pub open spec fn opt_view(s: Option<String>) -> Option<Seq<char>> {
    match s {
        Some(x) => Some(x@),
        None => None,
    }
}

/// The SQL for the function `name` applied to the rendered `base`, with an optional rendered
/// argument. An unknown function leaves `base` as it is.
pub open spec fn composition_sql(name: Seq<char>, base: Seq<char>, arg: Option<Seq<char>>, w: SqlWords) -> Seq<
    char,
> {
    if name == "plus"@ {
        operator_sql(base, w.plus@, arg)
    } else if name == "minus"@ {
        operator_sql(base, w.minus@, arg)
    } else if name == "times"@ {
        operator_sql(base, w.times@, arg)
    } else if name == "divide"@ {
        operator_sql(base, w.divide@, arg)
    } else if name == "ago"@ {
        "("@ + w.now@ + " "@ + w.minus@ + " "@ + base + ")"@
    } else if name == "from_now"@ {
        "("@ + w.now@ + " "@ + w.plus@ + " "@ + base + ")"@
    } else if name == "max"@ {
        function_sql(w.max@, base, arg)
    } else if name == "min"@ {
        function_sql(w.min@, base, arg)
    } else {
        base
    }
}

fn render_operator(base: &str, op: &String, arg: &Option<String>) -> (r: String)
    ensures
        r@ == operator_sql(base@, op@, opt_view(*arg)),
{
    let mut r = base.to_owned();
    match arg {
        None => {},
        Some(a) => {
            r.append(" ");
            r.append(op.as_str());
            r.append(" ");
            r.append(a.as_str());
        },
    }
    r
}

fn render_function(f: &String, base: &str, arg: &Option<String>) -> (r: String)
    ensures
        r@ == function_sql(f@, base@, opt_view(*arg)),
{
    let mut r = f.clone();
    r.append("(");
    r.append(base);
    match arg {
        None => {},
        Some(a) => {
            r.append(", ");
            r.append(a.as_str());
        },
    }
    r.append(")");
    r
}

fn render_relative_to_now(now: &String, op: &String, base: &str) -> (r: String)
    ensures
        r@ == "("@ + now@ + " "@ + op@ + " "@ + base@ + ")"@,
{
    let mut r = "(".to_owned();
    r.append(now.as_str());
    r.append(" ");
    r.append(op.as_str());
    r.append(" ");
    r.append(base);
    r.append(")");
    r
}

/// Renders the composition `function_name` over the rendered `base`, with the rendered argument
/// `arg` if there is one.
pub fn render_composition(function_name: &str, base: &str, arg: Option<String>, words: &SqlWords) -> (r:
    String)
    ensures
        r@ == composition_sql(function_name@, base@, opt_view(arg), *words),
{
    if same_str(function_name, "plus") {
        render_operator(base, &words.plus, &arg)
    } else if same_str(function_name, "minus") {
        render_operator(base, &words.minus, &arg)
    } else if same_str(function_name, "times") {
        render_operator(base, &words.times, &arg)
    } else if same_str(function_name, "divide") {
        render_operator(base, &words.divide, &arg)
    } else if same_str(function_name, "ago") {
        render_relative_to_now(&words.now, &words.minus, base)
    } else if same_str(function_name, "from_now") {
        render_relative_to_now(&words.now, &words.plus, base)
    } else if same_str(function_name, "max") {
        render_function(&words.max, base, &arg)
    } else if same_str(function_name, "min") {
        render_function(&words.min, base, &arg)
    } else {
        base.to_owned()
    }
}

/// Whether a value last composed with `inner` needs parentheses before `outer` applies to it.
pub open spec fn parens_needed(outer: Seq<char>, inner: Option<Seq<char>>) -> bool {
    match inner {
        None => false,
        Some(i) => (i == "plus"@ || i == "minus"@) && (outer == "times"@ || outer == "divide"@),
    }
}

/// `text` in parentheses when `needed`.
pub open spec fn parenthesized(text: Seq<char>, needed: bool) -> Seq<char> {
    if needed {
        "("@ + text + ")"@
    } else {
        text
    }
}

/// A rendered value with the last function applied to it, if any.
pub struct ExpressionRenderingOutput {
    pub rendered: String,
    pub last_applied_function: Option<String>,
}

/// One composition to apply to a rendered value: the function's name and its argument, already
/// rendered, if it has one.
pub struct CompositionStep {
    pub function_name: String,
    pub argument: Option<ExpressionRenderingOutput>,
}

/// The rendering of `steps` applied in turn to `base` (last composed with `last`): before each
/// step, an argument or a value last composed with a sum or difference is put in parentheses when
/// the step is a product or quotient; the rendering ends with the last step's function.
pub open spec fn applied_sql(
    base: Seq<char>,
    last: Option<Seq<char>>,
    steps: Seq<CompositionStep>,
    w: SqlWords,
) -> (Seq<char>, Option<Seq<char>>)
    decreases steps.len(),
{
    if steps.len() == 0 {
        (base, last)
    } else {
        let (before, before_last) = applied_sql(base, last, steps.drop_last(), w);
        let step = steps.last();
        let name = step.function_name@;
        let arg = match step.argument {
            Some(a) => Some(
                parenthesized(a.rendered@, parens_needed(name, opt_view(a.last_applied_function))),
            ),
            None => None,
        };
        (
            composition_sql(name, parenthesized(before, parens_needed(name, before_last)), arg, w),
            Some(name),
        )
    }
}

fn parenthesize(text: String) -> (r: String)
    ensures
        r@ == "("@ + text@ + ")"@,
{
    let mut r = "(".to_owned();
    r.append(text.as_str());
    r.append(")");
    r
}

fn opt_str(s: &Option<String>) -> (r: Option<&str>)
    ensures
        match r {
            Some(x) => s matches Some(y) && x@ == y@,
            None => s is None,
        },
{
    match s {
        Some(x) => Some(x.as_str()),
        None => None,
    }
}

/// Applies compositions in turn to a rendered value, parenthesizing sums and differences under
/// products and quotients (see [`applied_sql`]).
pub fn render_compositions(base: String, steps: Vec<CompositionStep>, words: &SqlWords) -> (r:
    ExpressionRenderingOutput)
    ensures
        applied_sql(base@, None, steps@, *words) == (r.rendered@, opt_view(r.last_applied_function)),
{
    let ghost all = steps@;
    let mut rendered = base;
    let mut last: Option<String> = None;
    let mut rest = steps;
    let n = rest.len();
    let mut i: usize = 0;
    while rest.len() > 0
        invariant
            i + rest@.len() == n,
            n == all.len(),
            rest@ == all.skip(i as int),
            applied_sql(base@, None, all.take(i as int), *words) == (rendered@, opt_view(last)),
        decreases rest@.len(),
    {
        let step = rest.remove(0);
        proof {
            assert(step == all[i as int]);
            assert(all.take(i + 1).drop_last() =~= all.take(i as int));
            assert(all.take(i + 1).last() == all[i as int]);
        }
        let CompositionStep { function_name, argument } = step;
        let arg = match argument {
            Some(a) => {
                let paren = needs_parens(function_name.as_str(), opt_str(&a.last_applied_function));
                if paren {
                    Some(parenthesize(a.rendered))
                } else {
                    Some(a.rendered)
                }
            },
            None => None,
        };
        if needs_parens(function_name.as_str(), opt_str(&last)) {
            rendered = parenthesize(rendered);
        }
        rendered = render_composition(function_name.as_str(), rendered.as_str(), arg, words);
        last = Some(function_name);
        i = i + 1;
        proof {
            assert(rest@ =~= all.skip(i as int));
        }
    }
    proof {
        assert(all.take(i as int) =~= all);
    }
    ExpressionRenderingOutput { rendered, last_applied_function: last }
}

/// Whether a value last composed with `inner_fn` needs parentheses before `outer_fn` applies to
/// it: a sum or difference under a product or quotient.
pub fn needs_parens(outer_fn: &str, inner_fn: Option<&str>) -> (r: bool)
    ensures
        r == match inner_fn {
            None => false,
            Some(i) => (i@ == "plus"@ || i@ == "minus"@) && (outer_fn@ == "times"@ || outer_fn@
                == "divide"@),
        },
{
    match inner_fn {
        None => false,
        Some(i) => (same_str(i, "plus") || same_str(i, "minus")) && (same_str(outer_fn, "times")
            || same_str(outer_fn, "divide")),
    }
}


/// Rendering `min` uses the dialect's word for the minimum, whatever the base and the argument:
/// the word, then the base (and the argument, after a comma) in parentheses. So does `max` with
/// the word for the maximum.
pub proof fn law_min_and_max_use_their_own_words(base: Seq<char>, arg: Option<Seq<char>>, w: SqlWords)
    ensures
        composition_sql("min"@, base, arg, w) == match arg {
            None => w.min@ + "("@ + base + ")"@,
            Some(a) => w.min@ + "("@ + base + ", "@ + a + ")"@,
        },
        composition_sql("max"@, base, arg, w) == match arg {
            None => w.max@ + "("@ + base + ")"@,
            Some(a) => w.max@ + "("@ + base + ", "@ + a + ")"@,
        },
        composition_sql("min"@, base, arg, w).take(w.min@.len() as int) == w.min@,
        composition_sql("max"@, base, arg, w).take(w.max@.len() as int) == w.max@,
{
    reveal_strlit("min");
    reveal_strlit("max");
    reveal_strlit("plus");
    reveal_strlit("minus");
    reveal_strlit("times");
    reveal_strlit("divide");
    reveal_strlit("ago");
    reveal_strlit("from_now");
    assert("min"@[0] != "plus"@[0] && "min"@.len() != "minus"@.len() && "min"@[0] != "times"@[0]
        && "min"@[0] != "divide"@[0]);
    assert("min"@[0] != "ago"@[0] && "min"@[0] != "from_now"@[0] && "min"@[1] != "max"@[1]);
    assert("max"@[0] != "plus"@[0] && "max"@[0] != "minus"@[0] || "max"@[1] != "minus"@[1]);
    assert("max"@[1] != "minus"@[1] && "max"@[0] != "times"@[0] && "max"@[0] != "divide"@[0]);
    assert("max"@[0] != "ago"@[0] && "max"@[0] != "from_now"@[0]);
    assert("min"@ != "plus"@ && "min"@ != "minus"@ && "min"@ != "times"@ && "min"@ != "divide"@);
    assert("min"@ != "ago"@ && "min"@ != "from_now"@ && "min"@ != "max"@);
    assert("max"@ != "plus"@ && "max"@ != "minus"@ && "max"@ != "times"@ && "max"@ != "divide"@);
    assert("max"@ != "ago"@ && "max"@ != "from_now"@);
    let m = composition_sql("min"@, base, arg, w);
    let x = composition_sql("max"@, base, arg, w);
    assert(m.take(w.min@.len() as int) =~= w.min@);
    assert(x.take(w.max@.len() as int) =~= w.max@);
}

} // verus!
