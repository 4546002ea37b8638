use rusty_apple::graph::{
    sum, CSRGraph, EdgeList, Edges, Graph, Idx, NodeValue, NodeValues, Target,
    UndirectNeighborWithValues, UndirectedCSRGraph,
};

#[test]
fn from_sorted_edges() {
    let edge_list = EdgeList::new(vec![
        (0, 1, 1),
        (0, 2, 1),
        (1, 2, 1),
        (1, 3, 1),
        (2, 3, 1),
        (3, 1, 0),
    ]);
    let graph = CSRGraph::from_sorted_edges(&edge_list, 4).unwrap();
    let graph = UndirectedCSRGraph::new(graph, NodeValues::new(vec![1, 2, 3, 4]));

    assert_eq!(graph.node_count(), 4);
    assert_eq!(graph.edge_count(), 6);

    let n0 = graph.neighbors_with_values(0);
    let n1 = graph.neighbors_with_values(1);

    assert!(n0 == &[Target::new(1, 1), Target::new(2, 1)]);
    assert!(
        n1 == &[
            Target {
                target: 2,
                value: 1
            },
            Target {
                target: 3,
                value: 1
            },
            Target {
                target: 0,
                value: 1
            },
            Target {
                target: 3,
                value: 0
            }
        ],
        "{:?}",
        n1
    );

    let n0v = graph.node_value(0);
    assert!(n0v == &1);
    let n1v = graph.node_value(1);
    assert!(n1v == &2);
    let n2v = graph.node_value(2);
    assert!(n2v == &3);
    let n3v = graph.node_value(3);
    assert!(n3v == &4);
}

#[test]
fn csr_rows_of_every_node() {
    let edge_list: EdgeList<u32, char> =
        EdgeList::new(vec![(2, 0, 'a'), (0, 1, 'b'), (2, 2, 'c'), (1, 0, 'd')]);
    let graph: CSRGraph<u32, u32, char> = CSRGraph::from_sorted_edges(&edge_list, 4).unwrap();
    assert_eq!(graph.node_count(), 4);
    assert_eq!(graph.edge_count(), 8);
    assert_eq!(
        graph.targets_with_values(0),
        &[Target::new(1, 'b'), Target::new(2, 'a'), Target::new(1, 'd')]
    );
    assert_eq!(graph.targets_with_values(1), &[Target::new(0, 'd'), Target::new(0, 'b')]);
    assert_eq!(
        graph.targets_with_values(2),
        &[Target::new(0, 'a'), Target::new(2, 'c'), Target::new(2, 'c')]
    );
    assert_eq!(graph.targets_with_values(3), &[]);
}

#[test]
fn csr_of_no_edges() {
    let edge_list: EdgeList<u8, ()> = EdgeList::new_unweighted(vec![]);
    let graph: CSRGraph<u8, u8, ()> = CSRGraph::from_sorted_edges(&edge_list, 3).unwrap();
    assert_eq!(graph.node_count(), 3);
    assert_eq!(graph.edge_count(), 0);
    for n in 0..3 {
        assert!(graph.targets(n).is_empty());
    }
}

#[test]
fn targets_without_values() {
    let edge_list: EdgeList<usize, ()> = EdgeList::new_unweighted(vec![(0, 1), (1, 2), (2, 0)]);
    assert_eq!(edge_list.edges(), vec![(0, 1, ()), (1, 2, ()), (2, 0, ())]);
    let graph: CSRGraph<usize, usize, ()> = CSRGraph::from_sorted_edges(&edge_list, 3).unwrap();
    assert_eq!(graph.targets(0), vec![&1, &2]);
    assert_eq!(graph.targets(1), vec![&2, &0]);
    assert_eq!(graph.targets(2), vec![&0, &1]);
}

#[test]
fn neighbours_of_a_node_outside_the_graph_are_none() {
    let edge_list: EdgeList<u16, u8> = EdgeList::new(vec![(0, 1, 7)]);
    let graph = UndirectedCSRGraph::new(
        CSRGraph::from_sorted_edges(&edge_list, 2).unwrap(),
        NodeValues::new(vec!["a", "b"]),
    );
    assert_eq!(graph.neighbors_with_values(0), &[Target::new(1, 7)]);
    assert_eq!(graph.neighbors_with_values(1), &[Target::new(0, 7)]);
    assert!(graph.neighbors_with_values(2).is_empty());
    assert!(graph.neighbors_with_values(9).is_empty());
    assert_eq!(graph.node_count(), 2);
    assert_eq!(graph.edge_count(), 1);
    assert_eq!(graph.node_value(1), &"b");
}

#[test]
fn degrees_and_max_node_id() {
    let edge_list: EdgeList<i32, ()> = EdgeList::new_unweighted(vec![(0, 3), (3, 1), (3, 3)]);
    assert_eq!(edge_list.degrees(4), vec![1, 1, 0, 4]);
    assert_eq!(edge_list.max_node_id(), 3);
    let edge_list: EdgeList<u64, ()> = EdgeList::new_unweighted(vec![(5, 2)]);
    assert_eq!(edge_list.max_node_id(), 5);
    assert_eq!(edge_list.degrees(6), vec![0, 0, 1, 0, 0, 1]);
}

#[test]
fn sum_gives_running_totals() {
    assert_eq!(sum(&vec![2u32, 4, 2, 4]), vec![0, 2, 6, 8, 12]);
    assert_eq!(sum(&vec![0u8]), vec![0, 0]);
    assert_eq!(sum(&vec![250u8, 5]), vec![0, 250, 255]);
}

#[test]
fn idx_of_every_integer_type() {
    assert_eq!(<u8 as Idx>::new(255), 255u8);
    assert_eq!(<u16 as Idx>::new(7).index(), 7);
    assert_eq!(<u32 as Idx>::zero(), 0);
    assert_eq!(<u64 as Idx>::new(9), 9u64);
    assert_eq!(<usize as Idx>::new(usize::MAX), usize::MAX);
    assert_eq!(<i8 as Idx>::new(127), 127i8);
    assert_eq!(<i16 as Idx>::zero().index(), 0);
    assert_eq!(<i32 as Idx>::new(5).index(), 5);
    assert_eq!(<i64 as Idx>::new(11), 11i64);
    assert_eq!(<isize as Idx>::new(3), 3isize);
    assert_eq!((-1i8).index(), usize::MAX);
    let mut n = 41u32;
    assert_eq!(Idx::get_and_increment(&mut n), 41);
    assert_eq!(n, 42);
    let mut m = -1i64;
    assert_eq!(Idx::get_and_increment(&mut m), -1);
    assert_eq!(m, 0);
}
