//! Sums of an integer function over a finite set of accounts.
use vstd::prelude::*;

verus! {

/// The sum of `f` over the finite set `s`.
pub open spec fn set_sum(s: Set<u128>, f: spec_fn(u128) -> int) -> int
    decreases s.len(),
    when s.finite()
{
    if s.len() == 0 {
        0
    } else {
        let a = s.choose();
        f(a) + set_sum(s.remove(a), f)
    }
}

/// Any element can be taken out of a sum first.
pub proof fn lemma_set_sum_remove(s: Set<u128>, f: spec_fn(u128) -> int, x: u128)
    requires
        s.finite(),
        s.contains(x),
    ensures
        set_sum(s, f) == f(x) + set_sum(s.remove(x), f),
    decreases s.len(),
{
    let a = s.choose();
    if a != x {
        lemma_set_sum_remove(s.remove(a), f, x);
        lemma_set_sum_remove(s.remove(x), f, a);
        assert(s.remove(a).remove(x) =~= s.remove(x).remove(a));
    }
}

/// Adding a new element adds its value.
pub proof fn lemma_set_sum_insert(s: Set<u128>, f: spec_fn(u128) -> int, x: u128)
    requires
        s.finite(),
        !s.contains(x),
    ensures
        set_sum(s.insert(x), f) == set_sum(s, f) + f(x),
{
    lemma_set_sum_remove(s.insert(x), f, x);
    assert(s.insert(x).remove(x) =~= s);
}

/// Two functions that agree on `s` have the same sum over it.
pub proof fn lemma_set_sum_ext(s: Set<u128>, f: spec_fn(u128) -> int, g: spec_fn(u128) -> int)
    requires
        s.finite(),
        forall|a: u128| s.contains(a) ==> #[trigger] f(a) == g(a),
    ensures
        set_sum(s, f) == set_sum(s, g),
    decreases s.len(),
{
    if s.len() != 0 {
        let a = s.choose();
        lemma_set_sum_ext(s.remove(a), f, g);
    }
}

/// Changing `f` at one element of `s` changes the sum by the difference.
pub proof fn lemma_set_sum_update(
    s: Set<u128>,
    f: spec_fn(u128) -> int,
    g: spec_fn(u128) -> int,
    x: u128,
)
    requires
        s.finite(),
        s.contains(x),
        forall|a: u128| a != x ==> #[trigger] f(a) == g(a),
    ensures
        set_sum(s, g) == set_sum(s, f) - f(x) + g(x),
{
    lemma_set_sum_remove(s, f, x);
    lemma_set_sum_remove(s, g, x);
    lemma_set_sum_ext(s.remove(x), f, g);
}

/// A sum of non-negative values bounds each of them.
pub proof fn lemma_set_sum_nonneg(s: Set<u128>, f: spec_fn(u128) -> int)
    requires
        s.finite(),
        forall|a: u128| #[trigger] f(a) >= 0,
    ensures
        set_sum(s, f) >= 0,
    decreases s.len(),
{
    if s.len() != 0 {
        lemma_set_sum_nonneg(s.remove(s.choose()), f);
    }
}

/// Two distinct elements' non-negative values together are at most the sum.
pub proof fn lemma_set_sum_pair_bound(s: Set<u128>, f: spec_fn(u128) -> int, x: u128, y: u128)
    requires
        s.finite(),
        s.contains(x),
        forall|a: u128| #[trigger] f(a) >= 0,
    ensures
        f(x) <= set_sum(s, f),
        (s.contains(y) && x != y) ==> f(x) + f(y) <= set_sum(s, f),
{
    lemma_set_sum_remove(s, f, x);
    lemma_set_sum_nonneg(s.remove(x), f);
    if s.contains(y) && x != y {
        lemma_set_sum_remove(s.remove(x), f, y);
        lemma_set_sum_nonneg(s.remove(x).remove(y), f);
    }
}

} // verus!
