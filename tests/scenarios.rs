use graph::directed::{DirectedVecAdjList, DirectedVecAdjListBuilder};
use graph::undirected::{UndirectedVecAdjList, UndirectedVecAdjListBuilder};

fn undirected(n: usize, edges: Vec<(usize, usize)>) -> UndirectedVecAdjList<(), i32, i32> {
    let mut b: UndirectedVecAdjListBuilder<(), i32, i32> = UndirectedVecAdjListBuilder::default();
    b.num_vertices(n).edges(edges);
    b.build()
}

fn directed(n: usize, edges: Vec<(usize, usize)>) -> DirectedVecAdjList<(), i32, i32> {
    let mut b: DirectedVecAdjListBuilder<(), i32, i32> = DirectedVecAdjListBuilder::default();
    b.num_vertices(n).edges(edges);
    b.build()
}

#[test]
fn undirected_path_remove_middle_vertex() {
    let mut g = undirected(4, vec![(0, 1), (1, 2), (2, 3)]);
    assert_eq!(g.degree(1), 2);
    g.remove_vertex(1);
    assert_eq!(g.num_vertices(), 3);
    assert_eq!(g.num_edges(), 1);
    // The surviving edge was (2, 3); vertex 3 now sits in slot 1.
    assert_eq!((g.source(0), g.target(0)), (2, 1));
    assert_eq!(g.get_edge(2, 1), Some(0));
    assert_eq!(g.get_edge(1, 2), Some(0));
    assert_eq!(g.get_edge(0, 1), None);
}

#[test]
fn directed_fan_out_degrees() {
    let g = directed(0, vec![(0, 1), (0, 2)]);
    assert_eq!(g.in_degree(1), 1);
    assert_eq!(g.in_degree(2), 1);
    assert_eq!(g.out_degree(0), 2);
    assert_eq!(g.in_degree(0), 0);
    assert_eq!(g.num_vertices(), 3);
}

#[test]
fn add_edge_beyond_vertex_count_pads_with_defaults() {
    let mut g = undirected(2, vec![]);
    g.set_vertex_properties(0, 7);
    g.set_vertex_properties(1, 8);
    assert_eq!(g.add_edge(0, 5), Some(0));
    assert_eq!(g.num_vertices(), 6);
    assert_eq!(*g.get_vertex_properties(0), 7);
    assert_eq!(*g.get_vertex_properties(1), 8);
    for v in 2..6 {
        assert_eq!(*g.get_vertex_properties(v), 0);
    }
    assert_eq!(g.out_edges(5), vec![0]);
    assert_eq!(g.out_edges(0), vec![0]);
}

#[test]
fn directed_add_edge_beyond_vertex_count() {
    let mut g = directed(2, vec![]);
    assert_eq!(g.add_edge_with_property(4, 1, 9), Some(0));
    assert_eq!(g.num_vertices(), 5);
    assert_eq!(*g.get_edge_properties(0), 9);
    assert_eq!(*g.get_vertex_properties(4), 0);
}
