//! Desugaring of `.( )` nesting groups, shared by result column nesting and scoped sorting: the
//! head path before the group is applied to the leading column reference of each entry. Also the
//! split of a window definition's entries into partitioning and ordering.
use vstd::prelude::*;

use crate::ast::{
    AnonymousFunctionCall, Call, CallSyntax, ColumnControl, Comparison, ComparisonSide, Expr,
    HasQuantity, PathPart, SortExpr, SortSpec,
};
use crate::order::{is_stably_sorted, stable_sort_by_key};
use crate::sorting::placement_key;

verus! {

/// Whether `e` begins with a column reference, looking through a `!` prefix, a `++`/`--`
/// quantity prefix, the piped-in value of a function application, the left operand of an
/// arithmetic expression and the left side of a comparison.
pub open spec fn has_leading_column(e: Expr) -> bool
    decreases e,
{
    match e {
        Expr::Path(_) => true,
        Expr::HasQuantity(_) => true,
        Expr::Call(c) => {
            proof {
                assert(decreases_to!(c.args => c.args@));
            }
            c.syntax == CallSyntax::Piped && c.args@.len() > 0 && has_leading_column(c.args@[0])
        },
        Expr::AnonymousFunctionCall(a) => {
            proof {
                assert(decreases_to!(a.args => a.args@));
            }
            a.args@.len() > 0 && has_leading_column(a.args@[0])
        },
        Expr::Product(a, _) => has_leading_column(*a),
        Expr::Quotient(a, _) => has_leading_column(*a),
        Expr::Sum(a, _) => has_leading_column(*a),
        Expr::Difference(a, _) => has_leading_column(*a),
        Expr::Comparison(c) => match c.left {
            ComparisonSide::Expr(l) => has_leading_column(l),
            _ => false,
        },
        Expr::Not(a) => has_leading_column(*a),
        _ => false,
    }
}

/// `r` is `parts` with copies of the parts of `head` in front.
pub open spec fn prefixed_parts(head: Seq<PathPart>, parts: Seq<PathPart>, r: Seq<PathPart>) -> bool {
    &&& r.len() == head.len() + parts.len()
    &&& forall|i: int| 0 <= i < head.len() ==> cloned(head[i], #[trigger] r[i])
    &&& r.skip(head.len() as int) == parts
}

/// `r` is `e` with `head` put in front of its leading column reference, and nothing else changed.
pub open spec fn prefixes(head: Seq<PathPart>, e: Expr, r: Expr) -> bool
    decreases e,
{
    match e {
        Expr::Path(p) => r matches Expr::Path(q) && prefixed_parts(head, p@, q@),
        Expr::HasQuantity(h) => r matches Expr::HasQuantity(g) && g.quantity == h.quantity
            && prefixed_parts(head, h.path_parts@, g.path_parts@),
        Expr::Call(c) => {
            proof {
                assert(decreases_to!(c.args => c.args@));
            }
            &&& r matches Expr::Call(d)
            &&& c.syntax == CallSyntax::Piped
            &&& d.name == c.name
            &&& d.dimension == c.dimension
            &&& d.syntax == c.syntax
            &&& d.order_by == c.order_by
            &&& c.args@.len() > 0
            &&& d.args@.len() == c.args@.len()
            &&& prefixes(head, c.args@[0], d.args@[0])
            &&& d.args@.skip(1) == c.args@.skip(1)
        },
        Expr::AnonymousFunctionCall(a) => {
            proof {
                assert(decreases_to!(a.args => a.args@));
            }
            &&& r matches Expr::AnonymousFunctionCall(b)
            &&& b.params == a.params
            &&& b.body == a.body
            &&& a.args@.len() > 0
            &&& b.args@.len() == a.args@.len()
            &&& prefixes(head, a.args@[0], b.args@[0])
            &&& b.args@.skip(1) == a.args@.skip(1)
        },
        Expr::Product(a, b) => r matches Expr::Product(x, y) && y == b && prefixes(head, *a, *x),
        Expr::Quotient(a, b) => r matches Expr::Quotient(x, y) && y == b && prefixes(head, *a, *x),
        Expr::Sum(a, b) => r matches Expr::Sum(x, y) && y == b && prefixes(head, *a, *x),
        Expr::Difference(a, b) => r matches Expr::Difference(x, y) && y == b && prefixes(
            head,
            *a,
            *x,
        ),
        Expr::Comparison(c) => match c.left {
            ComparisonSide::Expr(l) => {
                &&& r matches Expr::Comparison(d)
                &&& d.operator == c.operator
                &&& d.right == c.right
                &&& d.left matches ComparisonSide::Expr(m)
                &&& prefixes(head, l, m)
            },
            _ => false,
        },
        Expr::Not(a) => r matches Expr::Not(x) && prefixes(head, *a, *x),
        _ => false,
    }
}

/// An expression with a head put in front of its leading column reference still begins with a
/// column reference, so it can take another head.
pub proof fn lemma_prefixed_has_leading_column(head: Seq<PathPart>, e: Expr, r: Expr)
    requires
        prefixes(head, e, r),
    ensures
        has_leading_column(r),
    decreases e,
{
    match e {
        Expr::Call(c) => {
            assert(decreases_to!(c.args => c.args@));
            if let Expr::Call(d) = r {
                lemma_prefixed_has_leading_column(head, c.args@[0], d.args@[0]);
            }
        },
        Expr::AnonymousFunctionCall(a) => {
            assert(decreases_to!(a.args => a.args@));
            if let Expr::AnonymousFunctionCall(b) = r {
                lemma_prefixed_has_leading_column(head, a.args@[0], b.args@[0]);
            }
        },
        Expr::Product(a, _) => {
            if let Expr::Product(x, _) = r {
                lemma_prefixed_has_leading_column(head, *a, *x);
            }
        },
        Expr::Quotient(a, _) => {
            if let Expr::Quotient(x, _) = r {
                lemma_prefixed_has_leading_column(head, *a, *x);
            }
        },
        Expr::Sum(a, _) => {
            if let Expr::Sum(x, _) = r {
                lemma_prefixed_has_leading_column(head, *a, *x);
            }
        },
        Expr::Difference(a, _) => {
            if let Expr::Difference(x, _) = r {
                lemma_prefixed_has_leading_column(head, *a, *x);
            }
        },
        Expr::Comparison(c) => {
            if let ComparisonSide::Expr(l) = c.left {
                if let Expr::Comparison(d) = r {
                    if let ComparisonSide::Expr(m) = d.left {
                        lemma_prefixed_has_leading_column(head, l, m);
                    }
                }
            }
        },
        Expr::Not(a) => {
            if let Expr::Not(x) = r {
                lemma_prefixed_has_leading_column(head, *a, *x);
            }
        },
        _ => {},
    }
}

/// The parts of the leading column reference of `e` (none when it has none).
pub open spec fn leading_parts(e: Expr) -> Seq<PathPart>
    decreases e,
{
    match e {
        Expr::Path(p) => p@,
        Expr::HasQuantity(h) => h.path_parts@,
        Expr::Call(c) => {
            proof {
                assert(decreases_to!(c.args => c.args@));
            }
            if c.syntax == CallSyntax::Piped && c.args@.len() > 0 {
                leading_parts(c.args@[0])
            } else {
                Seq::empty()
            }
        },
        Expr::AnonymousFunctionCall(a) => {
            proof {
                assert(decreases_to!(a.args => a.args@));
            }
            if a.args@.len() > 0 {
                leading_parts(a.args@[0])
            } else {
                Seq::empty()
            }
        },
        Expr::Product(a, _) => leading_parts(*a),
        Expr::Quotient(a, _) => leading_parts(*a),
        Expr::Sum(a, _) => leading_parts(*a),
        Expr::Difference(a, _) => leading_parts(*a),
        Expr::Comparison(c) => match c.left {
            ComparisonSide::Expr(l) => leading_parts(l),
            _ => Seq::empty(),
        },
        Expr::Not(a) => leading_parts(*a),
        _ => Seq::empty(),
    }
}

/// Putting a head before the leading column reference gives an expression that still has one,
/// whose parts are copies of the head followed by the parts it had.
pub proof fn lemma_prefixes_leading_parts(head: Seq<PathPart>, e: Expr, r: Expr)
    requires
        prefixes(head, e, r),
    ensures
        has_leading_column(r),
        prefixed_parts(head, leading_parts(e), leading_parts(r)),
    decreases e,
{
    match e {
        Expr::Call(c) => {
            assert(decreases_to!(c.args => c.args@));
            lemma_prefixes_leading_parts(head, c.args@[0], r->Call_0.args@[0]);
        },
        Expr::AnonymousFunctionCall(a) => {
            assert(decreases_to!(a.args => a.args@));
            lemma_prefixes_leading_parts(head, a.args@[0], r->AnonymousFunctionCall_0.args@[0]);
        },
        Expr::Product(a, _) => {
            lemma_prefixes_leading_parts(head, *a, *r->Product_0);
        },
        Expr::Quotient(a, _) => {
            lemma_prefixes_leading_parts(head, *a, *r->Quotient_0);
        },
        Expr::Sum(a, _) => {
            lemma_prefixes_leading_parts(head, *a, *r->Sum_0);
        },
        Expr::Difference(a, _) => {
            lemma_prefixes_leading_parts(head, *a, *r->Difference_0);
        },
        Expr::Comparison(c) => {
            match c.left {
                ComparisonSide::Expr(l) => {
                    let m = r->Comparison_0.left->Expr_0;
                    lemma_prefixes_leading_parts(head, l, m);
                },
                _ => {},
            }
        },
        Expr::Not(a) => {
            lemma_prefixes_leading_parts(head, *a, *r->Not_0);
        },
        _ => {},
    }
}

/// Nesting groups compose: an entry nested under `inner` and then under `outer` gets copies of the
/// parts of `outer`, then copies of the parts of `inner`, in front of its own leading column
/// reference, as if `outer.inner.` had been written before it.
pub proof fn law_heads_compose(outer: Seq<PathPart>, inner: Seq<PathPart>, e: Expr, once: Expr, twice: Expr)
    requires
        prefixes(inner, e, once),
        prefixes(outer, once, twice),
    ensures
        leading_parts(twice).len() == outer.len() + inner.len() + leading_parts(e).len(),
        forall|i: int| 0 <= i < outer.len() ==> cloned(outer[i], #[trigger] leading_parts(twice)[i]),
        forall|i: int|
            0 <= i < inner.len() ==> cloned(inner[i], #[trigger] leading_parts(twice)[outer.len() + i]),
        leading_parts(twice).skip((outer.len() + inner.len()) as int) == leading_parts(e),
{
    lemma_prefixes_leading_parts(inner, e, once);
    lemma_prefixes_leading_parts(outer, once, twice);
    let t = leading_parts(twice);
    let o = leading_parts(once);
    assert forall|i: int| 0 <= i < inner.len() implies cloned(inner[i], #[trigger] t[outer.len() + i]) by {
        assert(t[outer.len() + i] == t.skip(outer.len() as int)[i]);
        assert(cloned(inner[i], o[i]));
    }
    assert(t.skip((outer.len() + inner.len()) as int) =~= o.skip(inner.len() as int));
}

/// The message of the error for an entry that does not begin with a column reference.
pub open spec fn no_leading_column_reference_message() -> Seq<char> {
    "An entry nested within `.( )` must begin with a column reference so that the path before `.( )` can be applied to it."@
}

pub fn msg_no_leading_column_reference() -> (r: String)
    ensures
        r@ == no_leading_column_reference_message(),
{
    "An entry nested within `.( )` must begin with a column reference so that the path before `.( )` can be applied to it.".to_owned()
}

/// Copies of the parts of `head`, followed by `parts`.
fn prefixed(head: &[PathPart], parts: Vec<PathPart>) -> (r: Vec<PathPart>)
    ensures
        prefixed_parts(head@, parts@, r@),
{
    let mut r: Vec<PathPart> = Vec::new();
    let mut i: usize = 0;
    while i < head.len()
        invariant
            i <= head@.len(),
            r@.len() == i,
            forall|k: int| 0 <= k < i ==> cloned(head@[k], #[trigger] r@[k]),
        decreases head.len() - i,
    {
        r.push(head[i].clone());
        i = i + 1;
    }
    let mut parts = parts;
    let ghost before = r@;
    let ghost p = parts@;
    r.append(&mut parts);
    proof {
        assert(r@ == before + p);
        assert(r@.skip(head@.len() as int) =~= p);
        assert forall|k: int| 0 <= k < head@.len() implies cloned(head@[k], #[trigger] r@[k]) by {
            assert(r@[k] == before[k]);
        }
    }
    r
}

/// Puts `head` in front of the leading column reference of `expr` (the position the head would
/// take had it been written inline). An expression without one cannot be nested.
pub fn prefix_leading_path(head: &[PathPart], expr: Expr) -> (r: Result<Expr, String>)
    ensures
        r is Ok <==> has_leading_column(expr),
        r matches Ok(x) ==> prefixes(head@, expr, x),
        r matches Err(m) ==> m@ == no_leading_column_reference_message(),
    decreases expr,
{
    match expr {
        Expr::Path(parts) => Ok(Expr::Path(prefixed(head, parts))),
        Expr::HasQuantity(has_quantity) => Ok(
            Expr::HasQuantity(
                HasQuantity {
                    quantity: has_quantity.quantity,
                    path_parts: prefixed(head, has_quantity.path_parts),
                },
            ),
        ),
        Expr::Call(call) => {
            let piped = match call.syntax {
                CallSyntax::Piped => true,
                CallSyntax::Standalone => false,
            };
            if piped && call.args.len() > 0 {
                let Call { name, dimension, args, syntax, order_by } = call;
                match prefix_first_arg(head, args) {
                    Ok(args) => Ok(Expr::Call(Call { name, dimension, args, syntax, order_by })),
                    Err(e) => Err(e),
                }
            } else {
                Err(msg_no_leading_column_reference())
            }
        },
        Expr::AnonymousFunctionCall(call) => {
            if call.args.len() > 0 {
                let AnonymousFunctionCall { params, body, args } = *call;
                match prefix_first_arg(head, args) {
                    Ok(args) => Ok(
                        Expr::AnonymousFunctionCall(
                            Box::new(AnonymousFunctionCall { params, body, args }),
                        ),
                    ),
                    Err(e) => Err(e),
                }
            } else {
                Err(msg_no_leading_column_reference())
            }
        },
        Expr::Product(a, b) => match prefix_leading_path(head, *a) {
            Ok(x) => Ok(Expr::Product(Box::new(x), b)),
            Err(e) => Err(e),
        },
        Expr::Quotient(a, b) => match prefix_leading_path(head, *a) {
            Ok(x) => Ok(Expr::Quotient(Box::new(x), b)),
            Err(e) => Err(e),
        },
        Expr::Sum(a, b) => match prefix_leading_path(head, *a) {
            Ok(x) => Ok(Expr::Sum(Box::new(x), b)),
            Err(e) => Err(e),
        },
        Expr::Difference(a, b) => match prefix_leading_path(head, *a) {
            Ok(x) => Ok(Expr::Difference(Box::new(x), b)),
            Err(e) => Err(e),
        },
        Expr::Comparison(comparison) => {
            let Comparison { left, operator, right } = *comparison;
            match left {
                ComparisonSide::Expr(l) => match prefix_leading_path(head, l) {
                    Ok(x) => Ok(
                        Expr::Comparison(
                            Box::new(Comparison { left: ComparisonSide::Expr(x), operator, right }),
                        ),
                    ),
                    Err(e) => Err(e),
                },
                _ => Err(msg_no_leading_column_reference()),
            }
        },
        Expr::Not(inner) => match prefix_leading_path(head, *inner) {
            Ok(x) => Ok(Expr::Not(Box::new(x))),
            Err(e) => Err(e),
        },
        _ => Err(msg_no_leading_column_reference()),
    }
}

/// Applies the head to the first (piped-in) argument of a call, leaving the rest untouched.
fn prefix_first_arg(head: &[PathPart], args: Vec<Expr>) -> (r: Result<Vec<Expr>, String>)
    requires
        args@.len() > 0,
    ensures
        r is Ok <==> has_leading_column(args@[0]),
        r matches Ok(x) ==> x@.len() == args@.len() && prefixes(head@, args@[0], x@[0]) && x@.skip(1)
            == args@.skip(1),
        r matches Err(m) ==> m@ == no_leading_column_reference_message(),
    decreases args,
{
    let ghost orig = args@;
    proof {
        assert(decreases_to!(args => args@));
        assert(decreases_to!(args@ => args@[0]));
    }
    let mut rest = args;
    let first = rest.remove(0);
    proof {
        assert(first == orig[0]);
    }
    match prefix_leading_path(head, first) {
        Ok(x) => {
            rest.insert(0, x);
            proof {
                assert(rest@.skip(1) =~= orig.skip(1));
            }
            Ok(rest)
        },
        Err(e) => Err(e),
    }
}

/// The sort flag of an entry's control, if any.
pub open spec fn sort_of(c: Option<ColumnControl>) -> Option<SortSpec> {
    match c {
        Some(cc) => cc.sort,
        None => None,
    }
}

/// The entries of a window definition without a sort flag: the partitioning expressions.
pub open spec fn window_partition(items: Seq<(Expr, Option<ColumnControl>)>) -> Seq<Expr>
    decreases items.len(),
{
    if items.len() == 0 {
        Seq::empty()
    } else {
        let rest = window_partition(items.drop_last());
        match sort_of(items.last().1) {
            Some(_) => rest,
            None => rest.push(items.last().0),
        }
    }
}

/// The entries of a window definition with a sort flag, as ordering entries with their ordinals.
pub open spec fn window_orderings(items: Seq<(Expr, Option<ColumnControl>)>) -> Seq<
    (Option<u32>, SortExpr),
>
    decreases items.len(),
{
    if items.len() == 0 {
        Seq::empty()
    } else {
        let rest = window_orderings(items.drop_last());
        match sort_of(items.last().1) {
            Some(s) => rest.push(
                (
                    s.ordinal,
                    SortExpr { expr: items.last().0, direction: s.direction, nulls_sort: s.nulls_sort },
                ),
            ),
            None => rest,
        }
    }
}

/// The largest ordinal among ordering entries, or 0 when none has one.
pub open spec fn max_window_ordinal(os: Seq<(Option<u32>, SortExpr)>) -> u32
    decreases os.len(),
{
    if os.len() == 0 {
        0
    } else {
        let rest = max_window_ordinal(os.drop_last());
        match os.last().0 {
            Some(o) => if o > rest {
                o
            } else {
                rest
            },
            None => rest,
        }
    }
}

/// Ordering entries paired with the keys they are placed by.
pub open spec fn keyed_orderings(os: Seq<(Option<u32>, SortExpr)>) -> Seq<(u64, SortExpr)> {
    os.map_values(|x: (Option<u32>, SortExpr)| (placement_key(x.0, max_window_ordinal(os)), x.1))
}

/// Splits a window definition's entries into partition expressions (entries without a `\s`
/// flag) and ordering entries (those with one), the latter placed by their ordinals as sort
/// ordinals of result columns are.
pub fn split_window_items(items: Vec<(Expr, Option<ColumnControl>)>) -> (r: (Vec<Expr>, Vec<SortExpr>))
    ensures
        r.0@ == window_partition(items@),
        exists|sorted: Seq<(u64, SortExpr)>|
            is_stably_sorted(keyed_orderings(window_orderings(items@)), sorted) && r.1@
                == sorted.map_values(|x: (u64, SortExpr)| x.1),
{
    let ghost its = items@;
    let mut rest = items;
    let n = rest.len();
    let mut partition_by: Vec<Expr> = Vec::new();
    let mut ordering: Vec<(Option<u32>, SortExpr)> = Vec::new();
    let mut i: usize = 0;
    while rest.len() > 0
        invariant
            i + rest@.len() == n,
            n == its.len(),
            rest@ == its.skip(i as int),
            partition_by@ == window_partition(its.take(i as int)),
            ordering@ == window_orderings(its.take(i as int)),
        decreases rest@.len(),
    {
        let (expr, control) = rest.remove(0);
        proof {
            assert((expr, control) == its[i as int]);
            assert(its.take(i + 1).drop_last() =~= its.take(i as int));
        }
        let sort = match control {
            Some(c) => c.sort,
            None => None,
        };
        match sort {
            Some(s) => {
                ordering.push(
                    (s.ordinal, SortExpr { expr, direction: s.direction, nulls_sort: s.nulls_sort }),
                );
            },
            None => {
                partition_by.push(expr);
            },
        }
        i = i + 1;
        proof {
            assert(rest@ =~= its.skip(i as int));
        }
    }
    proof {
        assert(its.take(i as int) =~= its);
    }
    let ghost os = ordering@;
    let max = max_window_ordinal_exec(&ordering);
    let mut keyed: Vec<(u64, SortExpr)> = Vec::new();
    let m = ordering.len();
    let mut j: usize = 0;
    while ordering.len() > 0
        invariant
            j + ordering@.len() == m,
            m == os.len(),
            max == max_window_ordinal(os),
            ordering@ == os.skip(j as int),
            keyed@ == keyed_orderings(os).take(j as int),
        decreases ordering@.len(),
    {
        let (ordinal, sort) = ordering.remove(0);
        proof {
            assert((ordinal, sort) == os[j as int]);
        }
        let key: u64 = match ordinal {
            Some(o) => o as u64,
            None => max.saturating_add(1) as u64,
        };
        keyed.push((key, sort));
        j = j + 1;
        proof {
            assert(ordering@ =~= os.skip(j as int));
            assert(keyed@ =~= keyed_orderings(os).take(j as int));
        }
    }
    proof {
        assert(keyed@ =~= keyed_orderings(os));
    }
    let sorted = stable_sort_by_key(keyed);
    let ghost sorted_view = sorted@;
    let mut order_by: Vec<SortExpr> = Vec::new();
    let mut left = sorted;
    let count = left.len();
    let mut k: usize = 0;
    while left.len() > 0
        invariant
            k + left@.len() == count,
            count == sorted_view.len(),
            left@ == sorted_view.skip(k as int),
            order_by@ == sorted_view.take(k as int).map_values(|x: (u64, SortExpr)| x.1),
        decreases left@.len(),
    {
        let (_, entry) = left.remove(0);
        order_by.push(entry);
        k = k + 1;
        proof {
            assert(left@ =~= sorted_view.skip(k as int));
            assert(order_by@ =~= sorted_view.take(k as int).map_values(|x: (u64, SortExpr)| x.1));
        }
    }
    proof {
        assert(sorted_view.take(k as int) =~= sorted_view);
    }
    (partition_by, order_by)
}

fn max_window_ordinal_exec(os: &Vec<(Option<u32>, SortExpr)>) -> (r: u32)
    ensures
        r == max_window_ordinal(os@),
{
    let mut max: u32 = 0;
    let mut i: usize = 0;
    while i < os.len()
        invariant
            i <= os.len(),
            max == max_window_ordinal(os@.take(i as int)),
        decreases os.len() - i,
    {
        proof {
            assert(os@.take(i + 1).drop_last() =~= os@.take(i as int));
        }
        match os[i].0 {
            Some(o) => {
                if o > max {
                    max = o;
                }
            },
            None => {},
        }
        i = i + 1;
    }
    proof {
        assert(os@.take(i as int) =~= os@);
    }
    max
}

} // verus!
