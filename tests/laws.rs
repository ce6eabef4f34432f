use graph::bidirectional::{BidirectionalVecAdjList, BidirectionalVecAdjListBuilder};
use graph::directed::{DirectedVecAdjList, DirectedVecAdjListBuilder};
use graph::undirected::{UndirectedVecAdjList, UndirectedVecAdjListBuilder};

fn undirected(edges: Vec<(usize, usize)>) -> UndirectedVecAdjList<(), (), u32> {
    let mut b: UndirectedVecAdjListBuilder<(), (), u32> = UndirectedVecAdjListBuilder::default();
    b.edges(edges);
    b.build()
}

fn directed(edges: Vec<(usize, usize)>) -> DirectedVecAdjList<(), (), u32> {
    let mut b: DirectedVecAdjListBuilder<(), (), u32> = DirectedVecAdjListBuilder::default();
    b.edges(edges);
    b.build()
}

fn bidirectional(edges: Vec<(usize, usize)>) -> BidirectionalVecAdjList<(), (), u32> {
    let mut b: BidirectionalVecAdjListBuilder<(), (), u32> = BidirectionalVecAdjListBuilder::default();
    b.edges(edges);
    b.build()
}

fn sorted(mut v: Vec<usize>) -> Vec<usize> {
    v.sort();
    v
}

fn targets(edges: &[(usize, usize)], v: usize) -> usize {
    edges.iter().filter(|e| e.1 == v).count()
}

#[test]
fn degree_matches_edge_lists_directed_and_bidirectional() {
    let es = vec![(0, 1), (1, 2), (2, 0), (0, 2), (3, 3), (1, 2)];
    let d = directed(es.clone());
    let b = bidirectional(es.clone());
    for v in 0..4 {
        assert_eq!(d.out_degree(v), d.out_edges(v).len());
        assert_eq!(b.out_degree(v), b.out_edges(v).len());
        assert_eq!(d.in_degree(v), targets(&es, v));
        assert_eq!(b.in_degree(v), targets(&es, v));
        assert_eq!(d.degree(v), d.in_degree(v) + d.out_degree(v));
        assert_eq!(b.degree(v), b.in_degree(v) + b.out_degree(v));
        assert_eq!(sorted(d.in_edges(v)), sorted(b.in_edges(v)));
    }
    assert_eq!(d.in_edges(2), vec![1, 3, 5]);
    assert_eq!(d.inv_adjacent_vertices(2), vec![1, 0, 1]);
    assert_eq!(sorted(b.inv_adjacent_vertices(2)), vec![0, 1, 1]);
}

#[test]
fn undirected_edges_are_listed_at_both_endpoints() {
    let g = undirected(vec![(0, 1), (1, 2), (2, 2), (3, 1)]);
    for e in 0..g.num_edges() {
        assert!(g.out_edges(g.source(e)).contains(&e));
        assert!(g.out_edges(g.target(e)).contains(&e));
    }
    // A self-loop is recorded twice at its vertex.
    assert_eq!(g.degree(2), 3);
    assert_eq!(g.degree(1), 3);
    assert_eq!(sorted(g.in_edges(1)), sorted(g.out_edges(1)));
    assert_eq!(sorted(g.adjacent_vertices(1)), vec![0, 2, 3]);
    assert_eq!(sorted(g.inv_adjacent_vertices(1)), vec![0, 2, 3]);
}

#[test]
fn bidirectional_edges_are_listed_at_source_and_target_only() {
    let g = bidirectional(vec![(0, 1), (1, 2), (2, 0), (1, 1)]);
    for e in 0..g.num_edges() {
        let (s, t) = (g.source(e), g.target(e));
        assert!(g.out_edges(s).contains(&e));
        assert!(g.in_edges(t).contains(&e));
        for w in 0..g.num_vertices() {
            if w != s {
                assert!(!g.out_edges(w).contains(&e));
            }
            if w != t {
                assert!(!g.in_edges(w).contains(&e));
            }
        }
    }
}

fn check_reindexing(before: Vec<(usize, usize)>, after: Vec<(usize, usize)>, i: usize) {
    assert_eq!(after.len(), before.len() - 1);
    for (j, e) in before.iter().enumerate() {
        if j == i {
            continue;
        }
        let k = if j == before.len() - 1 { i } else { j };
        assert_eq!(after[k], *e);
    }
}

#[test]
fn removing_an_edge_keeps_the_others_reachable() {
    let es = vec![(0, 1), (1, 2), (2, 3), (3, 0), (1, 3)];
    for i in 0..es.len() {
        let mut u = undirected(es.clone());
        u.remove_edge_at(i);
        check_reindexing(es.clone(), u.edges(), i);
        for e in 0..u.num_edges() {
            assert!(u.get_edges(u.source(e), u.target(e)).contains(&e));
            assert!(u.get_edges(u.target(e), u.source(e)).contains(&e));
        }
        let mut d = directed(es.clone());
        d.remove_edge_at(i);
        check_reindexing(es.clone(), d.edges(), i);
        for e in 0..d.num_edges() {
            assert!(d.get_edge(d.source(e), d.target(e)).is_some());
            assert!(d.get_edges(d.source(e), d.target(e)).contains(&e));
        }
        let mut b = bidirectional(es.clone());
        b.remove_edge_at(i);
        check_reindexing(es.clone(), b.edges(), i);
        for e in 0..b.num_edges() {
            assert!(b.get_edges(b.source(e), b.target(e)).contains(&e));
            assert!(b.in_edges(b.target(e)).contains(&e));
        }
    }
}

#[test]
fn removing_a_vertex_drops_exactly_its_edges() {
    let es = vec![(0, 1), (1, 2), (2, 3), (3, 0), (1, 3), (4, 1)];
    for v in 0..5 {
        let mut u = undirected(es.clone());
        let deg = u.degree(v);
        u.remove_vertex(v);
        assert_eq!(u.num_edges(), es.len() - deg);
        let mut d = directed(es.clone());
        let deg = d.degree(v);
        d.remove_vertex(v);
        assert_eq!(d.num_edges(), es.len() - deg);
        let mut b = bidirectional(es.clone());
        let deg = b.degree(v);
        b.remove_vertex(v);
        assert_eq!(b.num_edges(), es.len() - deg);
        for g in [d.edges(), b.edges(), u.edges()] {
            for (s, t) in g {
                assert!(s < 4 && t < 4);
            }
        }
        // The edges left are the old edges away from v, with vertex 4 renamed v.
        let rename = |x: usize| if x == 4 { v } else { x };
        let mut expected: Vec<(usize, usize)> = es
            .iter()
            .filter(|e| e.0 != v && e.1 != v)
            .map(|e| (rename(e.0), rename(e.1)))
            .collect();
        expected.sort();
        let mut got = b.edges();
        got.sort();
        assert_eq!(got, expected);
    }
}
