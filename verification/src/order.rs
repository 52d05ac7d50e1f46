//! Stable ordering of items by a numeric key.
use vstd::prelude::*;

verus! {

/// `perm` lists the positions `0..keys.len()` in stable order of their keys: each position once,
/// keys never decreasing, and positions with equal keys keeping the order they came in.
pub open spec fn is_stable_order(keys: Seq<u64>, perm: Seq<int>) -> bool {
    &&& perm.len() == keys.len()
    &&& forall|k: int| 0 <= k < perm.len() ==> 0 <= #[trigger] perm[k] < keys.len()
    &&& forall|a: int, b: int|
        0 <= a < b < perm.len() ==> #[trigger] perm[a] != #[trigger] perm[b]
    &&& forall|a: int, b: int|
        0 <= a < b < perm.len() ==> keys[#[trigger] perm[a]] <= keys[#[trigger] perm[b]]
    &&& forall|a: int, b: int|
        0 <= a < b < perm.len() && keys[#[trigger] perm[a]] == keys[#[trigger] perm[b]] ==> perm[a]
            < perm[b]
}

/// The keys of keyed items.
pub open spec fn keys_of<T>(items: Seq<(u64, T)>) -> Seq<u64> {
    items.map_values(|x: (u64, T)| x.0)
}

/// `out` is `items` in stable order of their keys.
pub open spec fn is_stably_sorted<T>(items: Seq<(u64, T)>, out: Seq<(u64, T)>) -> bool {
    exists|perm: Seq<int>|
        is_stable_order(keys_of(items), perm) && out.len() == items.len() && forall|k: int|
            0 <= k < out.len() ==> #[trigger] out[k] == items[perm[k]]
}

/// Sorts keyed items by key, keeping items with equal keys in the order they came in.
pub fn stable_sort_by_key<T>(items: Vec<(u64, T)>) -> (r: Vec<(u64, T)>)
    ensures
        is_stably_sorted(items@, r@),
{
    let ghost orig = items@;
    let ghost keys = keys_of(orig);
    let mut src = items;
    let mut out: Vec<(u64, T)> = Vec::new();
    let ghost mut perm: Seq<int> = Seq::empty();
    let n = src.len();
    let mut i: usize = 0;
    while i < n
        invariant
            orig.len() == n,
            keys == keys_of(orig),
            i <= n,
            src@ == orig.subrange(i as int, n as int),
            out@.len() == i,
            perm.len() == i,
            forall|k: int| 0 <= k < perm.len() ==> 0 <= #[trigger] perm[k] < i,
            forall|a: int, b: int|
                0 <= a < b < perm.len() ==> #[trigger] perm[a] != #[trigger] perm[b],
            forall|a: int, b: int|
                0 <= a < b < perm.len() ==> keys[#[trigger] perm[a]] <= keys[#[trigger] perm[b]],
            forall|a: int, b: int|
                0 <= a < b < perm.len() && keys[#[trigger] perm[a]] == keys[#[trigger] perm[b]]
                    ==> perm[a] < perm[b],
            forall|k: int| 0 <= k < out@.len() ==> #[trigger] out@[k] == orig[perm[k]],
        decreases n - i,
    {
        let x = src.remove(0);
        assert(x == orig[i as int]);
        assert(src@ =~= orig.subrange(i + 1, n as int));
        // The first position whose key is greater than the new item's.
        let mut p: usize = 0;
        while p < out.len() && out[p].0 <= x.0
            invariant
                p <= out@.len(),
                forall|k: int| 0 <= k < p ==> (#[trigger] out@[k]).0 <= x.0,
            decreases out@.len() - p,
        {
            p = p + 1;
        }
        proof {
            // Keys along `out` never decrease, so every item from `p` on has a greater key.
            assert forall|k: int| p <= k < out@.len() implies (#[trigger] out@[k]).0 > x.0 by {
                if p < out@.len() {
                    assert(out@[p as int].0 > x.0);
                    if k > p {
                        assert(out@[p as int] == orig[perm[p as int]]);
                        assert(out@[k] == orig[perm[k]]);
                        assert(keys[perm[p as int]] <= keys[perm[k]]);
                    }
                }
            }
        }
        let ghost old_out = out@;
        let ghost old_perm = perm;
        out.insert(p, x);
        proof {
            perm = old_perm.insert(p as int, i as int);
            assert(keys[i as int] == x.0);
            assert forall|k: int| 0 <= k < perm.len() implies 0 <= #[trigger] perm[k] < i + 1 by {
                if k < p {
                    assert(perm[k] == old_perm[k]);
                } else if k > p {
                    assert(perm[k] == old_perm[k - 1]);
                }
            }
            assert forall|k: int| 0 <= k < out@.len() implies #[trigger] out@[k] == orig[perm[k]] by {
                if k < p {
                    assert(out@[k] == old_out[k]);
                    assert(perm[k] == old_perm[k]);
                } else if k > p {
                    assert(out@[k] == old_out[k - 1]);
                    assert(perm[k] == old_perm[k - 1]);
                }
            }
            assert forall|a: int, b: int| 0 <= a < b < perm.len() implies #[trigger] perm[a]
                != #[trigger] perm[b] by {
                if a == p {
                    assert(perm[b] == old_perm[b - 1]);
                } else if b == p {
                    assert(perm[a] == old_perm[a]);
                } else {
                    let a0 = if a < p {
                        a
                    } else {
                        a - 1
                    };
                    let b0 = if b < p {
                        b
                    } else {
                        b - 1
                    };
                    assert(perm[a] == old_perm[a0]);
                    assert(perm[b] == old_perm[b0]);
                }
            }
            assert forall|a: int, b: int| 0 <= a < b < perm.len() implies keys[#[trigger] perm[a]]
                <= keys[#[trigger] perm[b]] && (keys[perm[a]] == keys[perm[b]] ==> perm[a]
                < perm[b]) by {
                if a == p {
                    assert(perm[b] == old_perm[b - 1]);
                    assert(old_out[b - 1] == orig[old_perm[b - 1]]);
                    assert(old_out[b - 1].0 > x.0);
                } else if b == p {
                    assert(perm[a] == old_perm[a]);
                    assert(old_out[a] == orig[old_perm[a]]);
                    assert(old_out[a].0 <= x.0);
                } else {
                    let a0 = if a < p {
                        a
                    } else {
                        a - 1
                    };
                    let b0 = if b < p {
                        b
                    } else {
                        b - 1
                    };
                    assert(perm[a] == old_perm[a0]);
                    assert(perm[b] == old_perm[b0]);
                }
            }
        }
        i = i + 1;
    }
    proof {
        assert(is_stable_order(keys, perm));
    }
    out
}

} // verus!
