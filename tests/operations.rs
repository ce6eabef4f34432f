use graph::bidirectional::{BidirectionalVecAdjList, BidirectionalVecAdjListBuilder};
use graph::directed::{DirectedVecAdjList, DirectedVecAdjListBuilder};
use graph::edge::Edge;
use graph::selectors::{Directed, Undirected};
use graph::undirected::{UndirectedVecAdjList, UndirectedVecAdjListBuilder};
use graph::vertex::{BidirectionalRandVertex, BidirectionalStableVertex, RandVertex, StableVertex};

fn sorted<T: Ord>(mut v: Vec<T>) -> Vec<T> {
    v.sort();
    v
}

fn undirected(edges: Vec<(usize, usize)>) -> UndirectedVecAdjList<&'static str, i32, i32> {
    let mut b: UndirectedVecAdjListBuilder<&'static str, i32, i32> = UndirectedVecAdjListBuilder::default();
    b.edges(edges);
    b.build()
}

fn directed(edges: Vec<(usize, usize)>) -> DirectedVecAdjList<(), i32, i32> {
    let mut b: DirectedVecAdjListBuilder<(), i32, i32> = DirectedVecAdjListBuilder::default();
    b.edges(edges);
    b.build()
}

fn bidirectional(edges: Vec<(usize, usize)>) -> BidirectionalVecAdjList<(), i32, i32> {
    let mut b: BidirectionalVecAdjListBuilder<(), i32, i32> = BidirectionalVecAdjListBuilder::default();
    b.edges(edges);
    b.build()
}

#[test]
fn empty_builder_gives_empty_graph() {
    let g = undirected(vec![]);
    assert_eq!(g.num_vertices(), 0);
    assert_eq!(g.num_edges(), 0);
    assert!(g.vertices().is_empty());
    assert!(g.edges().is_empty());
    assert_eq!(*g.get_graph_properties(), "");
}

#[test]
fn builder_infers_vertex_count_and_keeps_larger_explicit_count() {
    let mut b: DirectedVecAdjListBuilder<u8, (), ()> = DirectedVecAdjListBuilder::default();
    b.num_vertices(10).edges(vec![(2, 3)]).property(5);
    let g = b.build();
    assert_eq!(g.num_vertices(), 10);
    assert_eq!(*g.get_graph_properties(), 5);
    let mut b: DirectedVecAdjListBuilder<u8, (), ()> = DirectedVecAdjListBuilder::default();
    b.edges(vec![(2, 3), (7, 1)]);
    let g = b.build();
    assert_eq!(g.num_vertices(), 8);
    assert_eq!(g.vertices(), (0..8).collect::<Vec<usize>>());
    assert_eq!(g.edges(), vec![(2, 3), (7, 1)]);
}

#[test]
fn builder_with_properties_pairs_by_position() {
    let mut b: BidirectionalVecAdjListBuilder<(), (), &'static str> = BidirectionalVecAdjListBuilder::default();
    b.edges_with_properties(vec![(0, 1), (1, 2)], vec!["a", "b", "unused"]);
    b.edges(vec![(2, 0)]);
    let g = b.build();
    assert_eq!(g.num_edges(), 3);
    assert_eq!(*g.get_edge_properties(0), "a");
    assert_eq!(*g.get_edge_properties(1), "b");
    assert_eq!(*g.get_edge_properties(2), "");
    assert_eq!(g.in_edges(0), vec![2]);
}

#[test]
fn parallel_edges_are_kept_and_found_in_order() {
    let mut g = directed(vec![(0, 1), (0, 2), (0, 1)]);
    assert_eq!(g.get_edges(0, 1), vec![0, 2]);
    assert_eq!(g.get_edge(0, 1), Some(0));
    assert_eq!(g.get_edge(1, 0), None);
    g.remove_edge(0, 1);
    assert_eq!(g.num_edges(), 1);
    assert_eq!(g.edges(), vec![(0, 2)]);
    assert_eq!(g.out_edges(0), vec![0]);
    assert_eq!(g.get_edges(0, 1), Vec::<usize>::new());
}

#[test]
fn remove_edge_on_missing_pair_changes_nothing() {
    let mut g = bidirectional(vec![(0, 1)]);
    g.remove_edge(1, 0);
    g.remove_edge(5, 7);
    assert_eq!(g.edges(), vec![(0, 1)]);
    let mut u = undirected(vec![(0, 1)]);
    u.remove_edge(1, 0);
    assert_eq!(u.num_edges(), 0);
    assert!(u.out_edges(0).is_empty() && u.out_edges(1).is_empty());
}

#[test]
fn remove_edge_at_past_the_end_changes_nothing() {
    let mut g = undirected(vec![(0, 1), (1, 2)]);
    g.remove_edge_at(2);
    g.remove_edge_at(usize::MAX);
    assert_eq!(g.edges(), vec![(0, 1), (1, 2)]);
}

#[test]
fn remove_edge_at_moves_last_edge_and_fixes_its_records() {
    let mut g = bidirectional(vec![(0, 1), (1, 2), (2, 0)]);
    g.set_edge_properties(2, 42);
    g.remove_edge_at(0);
    assert_eq!(g.edges(), vec![(2, 0), (1, 2)]);
    assert_eq!(*g.get_edge_properties(0), 42);
    assert_eq!(g.out_edges(2), vec![0]);
    assert_eq!(g.in_edges(0), vec![0]);
    assert!(g.out_edges(0).is_empty());
    assert!(g.in_edges(1).is_empty());
    assert_eq!(g.get_edge(2, 0), Some(0));
}

#[test]
fn undirected_self_loop_counts_twice_and_leaves_cleanly() {
    let mut g = undirected(vec![(1, 1), (0, 1)]);
    assert_eq!(g.degree(1), 3);
    assert_eq!(sorted(g.out_edges(1)), vec![0, 0, 1]);
    g.remove_edge_at(0);
    assert_eq!(g.degree(1), 1);
    assert_eq!(g.out_edges(1), vec![0]);
    assert_eq!(g.out_edges(0), vec![0]);
}

#[test]
fn predicate_removals_ask_about_edge_ids() {
    let es = vec![(0, 1), (0, 2), (1, 0), (2, 0), (0, 0)];
    let mut d = directed(es.clone());
    d.remove_out_edge_if(0, |e: &usize| *e != 1);
    assert_eq!(sorted(d.edges()), vec![(0, 2), (1, 0), (2, 0)]);
    let mut d = directed(es.clone());
    d.remove_in_edge_if(0, |e: &usize| *e >= 3);
    assert_eq!(sorted(d.edges()), vec![(0, 1), (0, 2), (1, 0)]);
    let mut d = directed(es.clone());
    d.remove_edge_if(|e: &usize| e % 2 == 0);
    assert_eq!(sorted(d.edges()), vec![(0, 2), (2, 0)]);
    let mut u = undirected(es.clone());
    u.remove_out_edge_if(1, |_e: &usize| true);
    assert_eq!(sorted(u.edges()), vec![(0, 0), (0, 2), (2, 0)]);
}

#[test]
fn clearing_edges_of_a_vertex() {
    let es = vec![(0, 1), (1, 2), (2, 1), (1, 1), (2, 0)];
    let mut d = directed(es.clone());
    d.clear_out_edges(1);
    assert_eq!(sorted(d.edges()), vec![(0, 1), (2, 0), (2, 1)]);
    let mut d = directed(es.clone());
    d.clear_in_edges(1);
    assert_eq!(sorted(d.edges()), vec![(1, 2), (2, 0)]);
    let mut b = bidirectional(es.clone());
    b.clear_vertex(1);
    assert_eq!(b.edges(), vec![(2, 0)]);
    assert_eq!(b.num_vertices(), 3);
    assert!(b.in_edges(1).is_empty() && b.out_edges(1).is_empty());
    let mut u = undirected(es.clone());
    u.clear_in_edges(2);
    assert_eq!(sorted(u.edges()), vec![(0, 1), (1, 1)]);
}

#[test]
fn remove_last_vertex_renames_nothing() {
    let mut g = directed(vec![(0, 1), (1, 2), (2, 0)]);
    g.remove_vertex(2);
    assert_eq!(g.num_vertices(), 2);
    assert_eq!(g.edges(), vec![(0, 1)]);
    assert_eq!(g.adjacent_vertices(0), vec![1]);
}

#[test]
fn remove_vertex_moves_last_vertex_with_its_property() {
    let mut g = bidirectional(vec![(0, 3), (3, 1), (2, 3)]);
    g.set_vertex_properties(3, 33);
    g.remove_vertex(0);
    assert_eq!(g.num_vertices(), 3);
    assert_eq!(*g.get_vertex_properties(0), 33);
    assert_eq!(sorted(g.edges()), vec![(0, 1), (2, 0)]);
    assert_eq!(g.adjacent_vertices(0), vec![1]);
    assert_eq!(g.inv_adjacent_vertices(0), vec![2]);
    assert_eq!(g.inv_adjacent_vertices(1), vec![0]);
}

#[test]
fn add_vertex_and_properties() {
    let mut g = undirected(vec![]);
    assert_eq!(g.add_vertex(), 0);
    assert_eq!(g.add_vertex_with_property(4), 1);
    assert_eq!(*g.get_vertex_properties(0), 0);
    assert_eq!(*g.get_vertex_properties(1), 4);
    g.set_graph_properties("named");
    assert_eq!(*g.get_graph_properties(), "named");
    let e = g.add_edge_with_property(0, 1, 11).unwrap();
    g.set_edge_properties(e, 12);
    assert_eq!(*g.get_edge_properties(e), 12);
    g.clear();
    assert_eq!(g.num_vertices(), 0);
    assert_eq!(g.num_edges(), 0);
    assert_eq!(*g.get_graph_properties(), "named");
}

#[test]
fn edge_accessors() {
    let mut e: Edge<Directed, usize, i32> = Edge::new(3, 4);
    assert_eq!((*e.source(), *e.target(), *e.get_property()), (3, 4, 0));
    e.set_property(5);
    assert_eq!(*e.get_property(), 5);
    *e.get_mut_property() += 1;
    assert_eq!(*e.get_property(), 6);
    let f: Edge<Undirected, usize, &str> = Edge::with_property(1, 2, "x");
    assert_eq!(*f.get_property(), "x");
}

#[test]
fn vertex_records_start_empty() {
    let _a: RandVertex<Vec<usize>, i32> = RandVertex::new(1);
    let _b: StableVertex<Vec<usize>, i32> = StableVertex::new(2);
    let _c: BidirectionalRandVertex<Vec<usize>, i32> = BidirectionalRandVertex::new(3);
    let _d: BidirectionalStableVertex<Vec<usize>, i32> = BidirectionalStableVertex::new(4);
}

#[test]
fn adding_an_edge_appends_records_in_order() {
    let mut u = undirected(vec![(0, 1), (2, 1)]);
    assert_eq!(u.out_edges(1), vec![0, 1]);
    assert_eq!(u.add_edge(1, 1), Some(2));
    assert_eq!(u.out_edges(1), vec![0, 1, 2, 2]);
    assert_eq!(u.adjacent_vertices(1), vec![0, 2, 1, 1]);
    assert_eq!(u.out_edges(0), vec![0]);
    let mut b = bidirectional(vec![(0, 1), (2, 1)]);
    assert_eq!(b.add_edge(3, 1), Some(2));
    assert_eq!(b.in_edges(1), vec![0, 1, 2]);
    assert_eq!(b.inv_adjacent_vertices(1), vec![0, 2, 3]);
    assert_eq!(b.out_edges(3), vec![2]);
    assert!(b.in_edges(3).is_empty());
}

#[test]
fn build_lists_edges_in_insertion_order() {
    let b = bidirectional(vec![(1, 0), (0, 2), (1, 2), (0, 1), (2, 2)]);
    assert_eq!(b.out_edges(0), vec![1, 3]);
    assert_eq!(b.out_edges(1), vec![0, 2]);
    assert_eq!(b.in_edges(2), vec![1, 2, 4]);
    assert_eq!(b.in_edges(0), vec![0]);
    let d = directed(vec![(1, 0), (0, 2), (1, 2), (0, 1)]);
    assert_eq!(d.out_edges(1), vec![0, 2]);
    assert_eq!(d.get_edges(0, 2), vec![1]);
}

#[test]
fn removals_that_match_nothing_change_nothing() {
    let es = vec![(0, 1), (1, 2), (2, 0)];
    let mut d = directed(es.clone());
    d.remove_edge(1, 0);
    d.remove_out_edge_if(0, |_e: &usize| false);
    d.remove_edge_if(|_e: &usize| false);
    d.clear_in_edges(5);
    assert_eq!(d.edges(), es);
    assert_eq!(d.out_edges(0), vec![0]);
}
