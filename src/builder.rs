//! Facts shared by the three builders: how collected edges raise the vertex count.
use vstd::prelude::*;
use crate::edge::EdgeView;

verus! {

/// The vertex count `n` raised to cover both endpoints of an edge `s -> t`.
pub open spec fn raised(n: nat, s: usize, t: usize) -> nat {
    vstd::math::max(n as int, vstd::math::max(s as int, t as int) + 1) as nat
}

/// The vertex count `n` raised to cover every endpoint of `edges`.
pub open spec fn cover(n: nat, edges: Seq<(usize, usize)>) -> nat
    decreases edges.len(),
{
    if edges.len() == 0 {
        n
    } else {
        raised(cover(n, edges.drop_last()), edges.last().0, edges.last().1)
    }
}

/// The least vertex count that covers every endpoint of `edges`.
pub open spec fn span<E>(edges: Seq<EdgeView<usize, E>>) -> nat
    decreases edges.len(),
{
    if edges.len() == 0 {
        0
    } else {
        raised(span(edges.drop_last()), edges.last().source, edges.last().target)
    }
}

/// Edges built from endpoint pairs and properties taken position by position.
pub open spec fn zip_edges<E>(edges: Seq<(usize, usize)>, properties: Seq<E>) -> Seq<EdgeView<usize, E>> {
    Seq::new(
        edges.len(),
        |j: int| EdgeView { source: edges[j].0, target: edges[j].1, property: properties[j] },
    )
}

/// `n` raised to cover an edge `s -> t`.
pub fn raise(n: usize, s: usize, t: usize) -> (r: usize)
    requires
        s < usize::MAX,
        t < usize::MAX,
    ensures
        r == raised(n as nat, s, t),
{
    let m = if s < t {
        t
    } else {
        s
    };
    if n < m + 1 {
        m + 1
    } else {
        n
    }
}

pub proof fn lemma_cover_push(n: nat, edges: Seq<(usize, usize)>, k: int)
    requires
        0 <= k < edges.len(),
    ensures
        cover(n, edges.subrange(0, k + 1)) == raised(cover(n, edges.subrange(0, k)), edges[k].0, edges[k].1),
{
    assert(edges.subrange(0, k + 1).drop_last() =~= edges.subrange(0, k));
}

pub proof fn lemma_span_push<E>(edges: Seq<EdgeView<usize, E>>, k: int)
    requires
        0 <= k < edges.len(),
    ensures
        span(edges.subrange(0, k + 1)) == raised(span(edges.subrange(0, k)), edges[k].source, edges[k].target),
{
    assert(edges.subrange(0, k + 1).drop_last() =~= edges.subrange(0, k));
}

pub proof fn lemma_zip_push<E>(edges: Seq<(usize, usize)>, properties: Seq<E>, k: int)
    requires
        0 <= k < edges.len(),
    ensures
        zip_edges(edges.subrange(0, k + 1), properties) =~= zip_edges(edges.subrange(0, k), properties).push(
            EdgeView { source: edges[k].0, target: edges[k].1, property: properties[k] },
        ),
{
}

} // verus!
