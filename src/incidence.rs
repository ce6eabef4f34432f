//! Incidence records and the counting facts that keep them consistent with the edge store.
use vstd::prelude::*;

verus! {

/// A vertex-held back-reference to an edge: the neighbouring vertex and the edge's index.
#[derive(Clone, Copy, PartialEq, Eq, Structural, Debug)]
pub struct IncidenceRecord {
    pub neighbor: usize,
    pub edge_index: usize,
}

/// The number of records in `s` that name edge `e`.
pub open spec fn count_index(s: Seq<IncidenceRecord>, e: int) -> nat
    decreases s.len(),
{
    if s.len() == 0 {
        0
    } else {
        count_index(s.drop_last(), e) + if s.last().edge_index == e {
            1nat
        } else {
            0nat
        }
    }
}

/// `s` after the element at `k` is replaced by the last one and the last slot is dropped.
pub open spec fn swap_removed<A>(s: Seq<A>, k: int) -> Seq<A> {
    s.update(k, s.last()).drop_last()
}

/// The edge indices named by a list of records, in list order.
pub open spec fn edge_indices(s: Seq<IncidenceRecord>) -> Seq<usize> {
    s.map_values(|r: IncidenceRecord| r.edge_index)
}

/// The neighbours named by a list of records, in list order.
pub open spec fn neighbors(s: Seq<IncidenceRecord>) -> Seq<usize> {
    s.map_values(|r: IncidenceRecord| r.neighbor)
}

pub proof fn lemma_count_push(s: Seq<IncidenceRecord>, r: IncidenceRecord, e: int)
    ensures
        count_index(s.push(r), e) == count_index(s, e) + if r.edge_index == e {
            1nat
        } else {
            0nat
        },
{
    assert(s.push(r).drop_last() =~= s);
}

pub proof fn lemma_count_update(s: Seq<IncidenceRecord>, k: int, r: IncidenceRecord, e: int)
    requires
        0 <= k < s.len(),
    ensures
        count_index(s.update(k, r), e) + (if s[k].edge_index == e {
            1nat
        } else {
            0nat
        }) == count_index(s, e) + if r.edge_index == e {
            1nat
        } else {
            0nat
        },
    decreases s.len(),
{
    if k == s.len() - 1 {
        assert(s.update(k, r).drop_last() =~= s.drop_last());
    } else {
        lemma_count_update(s.drop_last(), k, r, e);
        assert(s.update(k, r).drop_last() =~= s.drop_last().update(k, r));
    }
}

pub proof fn lemma_count_swap_removed(s: Seq<IncidenceRecord>, k: int, e: int)
    requires
        0 <= k < s.len(),
    ensures
        count_index(swap_removed(s, k), e) + (if s[k].edge_index == e {
            1nat
        } else {
            0nat
        }) == count_index(s, e),
{
    lemma_count_update(s, k, s.last(), e);
}

/// A list in which edge `e` is counted zero times holds no record naming it.
pub proof fn lemma_count_zero(s: Seq<IncidenceRecord>, e: int)
    requires
        count_index(s, e) == 0,
    ensures
        forall|k: int| 0 <= k < s.len() ==> #[trigger] s[k].edge_index != e,
    decreases s.len(),
{
    if s.len() > 0 {
        lemma_count_zero(s.drop_last(), e);
        assert forall|k: int| 0 <= k < s.len() implies #[trigger] s[k].edge_index != e by {
            if k < s.len() - 1 {
                assert(s[k] == s.drop_last()[k]);
            }
        }
    }
}

/// A list holding no record that names edge `e` counts it zero times.
pub proof fn lemma_count_absent(s: Seq<IncidenceRecord>, e: int)
    requires
        forall|k: int| 0 <= k < s.len() ==> #[trigger] s[k].edge_index != e,
    ensures
        count_index(s, e) == 0,
    decreases s.len(),
{
    if s.len() > 0 {
        assert forall|k: int| 0 <= k < s.len() - 1 implies #[trigger] s.drop_last()[k].edge_index != e by {
            assert(s.drop_last()[k] == s[k]);
        }
        lemma_count_absent(s.drop_last(), e);
    }
}

/// A list in which edge `e` is counted holds a record naming it.
pub proof fn lemma_count_positive(s: Seq<IncidenceRecord>, e: int) -> (k: int)
    requires
        count_index(s, e) > 0,
    ensures
        0 <= k < s.len(),
        s[k].edge_index == e,
    decreases s.len(),
{
    if s.last().edge_index == e {
        s.len() - 1
    } else {
        let k = lemma_count_positive(s.drop_last(), e);
        assert(s[k] == s.drop_last()[k]);
        k
    }
}

/// Position of the first record in `list` that names edge `e`.
pub fn find_record(list: &Vec<IncidenceRecord>, e: usize) -> (r: Option<usize>)
    ensures
        match r {
            Some(k) => k < list@.len() && list@[k as int].edge_index == e && forall|j: int|
                0 <= j < k ==> #[trigger] list@[j].edge_index != e,
            None => forall|j: int| 0 <= j < list@.len() ==> #[trigger] list@[j].edge_index != e,
        },
{
    let mut k: usize = 0;
    while k < list.len()
        invariant
            k <= list@.len(),
            forall|j: int| 0 <= j < k ==> #[trigger] list@[j].edge_index != e,
        decreases list@.len() - k,
    {
        if list[k].edge_index == e {
            return Some(k);
        }
        k += 1;
    }
    None
}

} // verus!
