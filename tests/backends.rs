use graph::backend::{ContainerGen, ContainerGenTrait, DenseStore, StableStore};
use graph::config::{Config, ConfigTrait};
use graph::edge::Edge;
use graph::selectors::{Directed, MapS, VecS};
use graph::vertex::{RandVertex, StableVertex, VertexTypeSelector, VertexTypeSelectorTrait};

#[test]
fn dense_store_reports_the_moved_element() {
    let mut s: DenseStore<char> = DenseStore::new();
    assert_eq!(s.insert('a'), 0);
    assert_eq!(s.insert('b'), 1);
    assert_eq!(s.insert('c'), 2);
    assert_eq!(s.remove(0), ('a', Some(2)));
    assert_eq!(s.iter(), &['c', 'b']);
    assert_eq!(s.remove(1), ('b', None));
    assert_eq!(s.len(), 1);
    assert_eq!(s.get(0), Some(&'c'));
    assert_eq!(s.get(1), None);
    *s.at_mut(0) = 'z';
    assert_eq!(*s.at(0), 'z');
    s.clear();
    assert_eq!(s.len(), 0);
}

#[test]
fn stable_store_never_reuses_keys() {
    let mut s: StableStore<&str> = StableStore::new();
    let a = s.insert("a");
    let b = s.insert("b");
    assert_eq!((a, b), (0, 1));
    assert_eq!(s.remove(a), Some("a"));
    assert_eq!(s.remove(a), None);
    let c = s.insert("c");
    assert_eq!(c, 2);
    assert_eq!(s.get(b), Some(&"b"));
    assert_eq!(s.get(a), None);
    assert_eq!(s.len(), 2);
}

#[test]
fn selectors_choose_the_backend_and_vertex_record() {
    let mut dense: <ContainerGen<VecS, u8> as ContainerGenTrait<u8>>::Type = DenseStore::new();
    assert_eq!(dense.insert(3), 0);
    let mut stable: <ContainerGen<MapS, u8> as ContainerGenTrait<u8>>::Type = StableStore::new();
    assert_eq!(stable.insert(3), 0);
    let _r: <VertexTypeSelector<Vec<usize>, VecS, i32> as VertexTypeSelectorTrait>::Type = RandVertex::new(1);
    let _s: <VertexTypeSelector<Vec<usize>, MapS, i32> as VertexTypeSelectorTrait>::Type = StableVertex::new(1);
}

#[test]
fn config_bundles_the_selected_types() {
    type Cfg = Config<VecS, VecS, Directed, MapS, (), i32, u8>;
    let mut edges: <Cfg as ConfigTrait>::EdgeStorage = StableStore::new();
    let e: <Cfg as ConfigTrait>::EdgeType = Edge::with_property(0, 1, 7);
    assert_eq!(edges.insert(e), 0);
    assert_eq!(*edges.get(0).unwrap().get_property(), 7);
    let mut vertices: <Cfg as ConfigTrait>::VertexStorage = DenseStore::default();
    let v: <Cfg as ConfigTrait>::VertexType = RandVertex::new(5);
    assert_eq!(vertices.insert(v), 0);
    assert_eq!(vertices.len(), 1);
}

#[test]
fn stable_store_iterates_in_key_order() {
    let mut s: StableStore<char> = StableStore::new();
    s.insert('a');
    s.insert('b');
    s.insert('c');
    s.remove(1);
    assert_eq!(s.iter(), vec![&'a', &'c']);
}
