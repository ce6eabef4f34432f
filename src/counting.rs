//! Sums over edge indices, and how list lengths, scans and retained sequences relate to them.
use vstd::prelude::*;
use crate::edge::EdgeView;
use crate::incidence::{count_index, IncidenceRecord};
use crate::model::{edges_into, one_if, retained_from};

verus! {

/// `f(0) + f(1) + ... + f(n - 1)`.
pub open spec fn sum_to(n: int, f: spec_fn(int) -> nat) -> nat
    decreases n,
{
    if n <= 0 {
        0
    } else {
        sum_to(n - 1, f) + f(n - 1)
    }
}

pub proof fn lemma_sum_congruent(n: int, f: spec_fn(int) -> nat, g: spec_fn(int) -> nat)
    requires
        forall|e: int| 0 <= e < n ==> #[trigger] f(e) == g(e),
    ensures
        sum_to(n, f) == sum_to(n, g),
    decreases n,
{
    if n > 0 {
        lemma_sum_congruent(n - 1, f, g);
    }
}

pub proof fn lemma_sum_add(n: int, f: spec_fn(int) -> nat, g: spec_fn(int) -> nat)
    ensures
        sum_to(n, |e: int| f(e) + g(e)) == sum_to(n, f) + sum_to(n, g),
    decreases n,
{
    if n > 0 {
        lemma_sum_add(n - 1, f, g);
    }
}

/// Summing the indicator of one position below `n` gives one.
pub proof fn lemma_sum_indicator(n: int, x: int)
    requires
        0 <= x < n,
    ensures
        sum_to(n, |e: int| one_if(e == x)) == 1,
    decreases n,
{
    if n - 1 > x {
        lemma_sum_indicator(n - 1, x);
    } else {
        lemma_sum_zero(n - 1, x);
    }
}

proof fn lemma_sum_zero(n: int, x: int)
    requires
        n <= x,
    ensures
        sum_to(n, |e: int| one_if(e == x)) == 0,
    decreases n,
{
    if n > 0 {
        lemma_sum_zero(n - 1, x);
    }
}

/// A list whose records all name edges below `n` is as long as the sum, over
/// those edges, of how often each is named.
pub proof fn lemma_len_is_sum_of_counts(s: Seq<IncidenceRecord>, n: int)
    requires
        forall|k: int| 0 <= k < s.len() ==> (#[trigger] s[k]).edge_index < n,
    ensures
        s.len() == sum_to(n, |e: int| count_index(s, e)),
    decreases s.len(),
{
    if s.len() > 0 {
        let p = s.drop_last();
        assert forall|k: int| 0 <= k < p.len() implies (#[trigger] p[k]).edge_index < n by {
            assert(p[k] == s[k]);
        }
        lemma_len_is_sum_of_counts(p, n);
        let x = s.last().edge_index as int;
        assert(s[s.len() - 1].edge_index < n);
        let f = |e: int| count_index(p, e);
        let g = |e: int| one_if(e == x);
        lemma_sum_add(n, f, g);
        lemma_sum_indicator(n, x);
        assert forall|e: int| 0 <= e < n implies #[trigger] count_index(s, e) == f(e) + g(e) by {
            assert(s.drop_last() == p);
        }
        lemma_sum_congruent(n, |e: int| count_index(s, e), |e: int| f(e) + g(e));
        lemma_sum_congruent(n, |e: int| count_index(p, e), f);
        lemma_sum_congruent(n, |e: int| one_if(e == x), g);
        assert(sum_to(n, f) == p.len());
        assert(sum_to(n, g) == 1);
    } else {
        lemma_sum_vanishes(n, |e: int| count_index(s, e));
    }
}

pub proof fn lemma_sum_vanishes(n: int, f: spec_fn(int) -> nat)
    requires
        forall|e: int| 0 <= e < n ==> #[trigger] f(e) == 0,
    ensures
        sum_to(n, f) == 0,
    decreases n,
{
    if n > 0 {
        lemma_sum_vanishes(n - 1, f);
    }
}

/// The scan for edges into `v` finds as many edges as there are with target `v`.
pub proof fn lemma_edges_into_len<E>(edges: Seq<EdgeView<usize, E>>, v: int, n: int)
    ensures
        edges_into(edges, v, n).len() == sum_to(n, |e: int| one_if(edges[e].target == v)),
    decreases n,
{
    if n > 0 {
        lemma_edges_into_len(edges, v, n - 1);
    }
}

/// What is retained from position `i` on is as long as the unselected positions there.
pub proof fn lemma_retained_len<A>(s: Seq<A>, drop: spec_fn(int) -> bool, i: int)
    requires
        0 <= i <= s.len(),
    ensures
        retained_from(s, drop, i).len() + sum_to(s.len() as int, |j: int| one_if(drop(j))) == s.len() - i
            + sum_to(i, |j: int| one_if(drop(j))),
    decreases s.len() - i,
{
    if i < s.len() {
        lemma_retained_len(s, drop, i + 1);
    }
}

} // verus!
