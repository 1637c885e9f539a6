use knowledge_os::graph::{
    assemble_traversal, reconstruct_edges, reconstruct_path, relationship_kind, ReachedNode, TraversalDirection,
    TraversalEdge,
};

fn edge(s: u128, t: u128, r: &str) -> TraversalEdge {
    TraversalEdge { source_id: s, target_id: t, relationship_type: r.to_string() }
}

#[test]
fn edges_along_a_path() {
    let rows = vec![edge(1, 2, "HasMessage"), edge(2, 3, "Cites"), edge(4, 3, "Mentions")];
    let e = reconstruct_edges(&vec![1, 2, 3], &rows, TraversalDirection::Outgoing);
    assert_eq!(e, vec![edge(1, 2, "HasMessage"), edge(2, 3, "References")]);
    assert!(reconstruct_edges(&vec![1], &rows, TraversalDirection::Both).is_empty());
    assert!(reconstruct_edges(&vec![], &rows, TraversalDirection::Both).is_empty());
}

#[test]
fn edges_against_direction_only_when_both() {
    let rows = vec![edge(4, 3, "Mentions")];
    assert!(reconstruct_edges(&vec![3, 4], &rows, TraversalDirection::Incoming).is_empty());
    assert_eq!(
        reconstruct_edges(&vec![3, 4], &rows, TraversalDirection::Both),
        vec![edge(4, 3, "References")]
    );
}

#[test]
fn later_row_decides_the_edge_type() {
    let rows = vec![edge(1, 2, "References"), edge(1, 2, "HasMessage")];
    assert_eq!(
        reconstruct_edges(&vec![1, 2], &rows, TraversalDirection::Outgoing),
        vec![edge(1, 2, "HasMessage")]
    );
}

#[test]
fn stored_type_text_names_a_known_type_or_references() {
    assert_eq!(relationship_kind("HasMessage".to_string()), "HasMessage");
    assert_eq!(relationship_kind("References".to_string()), "References");
    assert_eq!(relationship_kind("\"HasMessage\"".to_string()), "References");
    assert_eq!(relationship_kind("Mentions".to_string()), "References");
    assert_eq!(relationship_kind(String::new()), "References");
}

#[test]
fn path_found_breadth_first() {
    let rows = vec![edge(1, 2, "a"), edge(2, 3, "a"), edge(1, 4, "a"), edge(4, 3, "a"), edge(5, 3, "a")];
    assert_eq!(reconstruct_path(1, 3, &rows), vec![1, 2, 3]);
    assert_eq!(reconstruct_path(1, 5, &rows), vec![1, 2, 3, 5]);
    assert_eq!(reconstruct_path(3, 1, &rows), vec![3, 2, 1]);
    assert_eq!(reconstruct_path(7, 7, &rows), vec![7]);
}

#[test]
fn unreachable_target_gives_both_ends() {
    let rows = vec![edge(1, 2, "a"), edge(3, 4, "a")];
    assert_eq!(reconstruct_path(1, 4, &rows), vec![1, 4]);
    assert_eq!(reconstruct_path(1, 9, &Vec::new()), vec![1, 9]);
}

#[test]
fn traversal_results_skip_start_and_respect_limit() {
    let rows = vec![edge(1, 2, "a"), edge(2, 3, "b")];
    let reached = vec![
        ReachedNode { id: 1, depth: 0, path: vec![1] },
        ReachedNode { id: 2, depth: 1, path: vec![1, 2] },
        ReachedNode { id: 3, depth: 2, path: vec![1, 2, 3] },
    ];
    let all = assemble_traversal(1, &reached, 10, &rows, TraversalDirection::Outgoing);
    assert_eq!(all.len(), 2);
    assert_eq!(all[0].path, vec![1, 2]);
    assert_eq!(all[0].depth, 1);
    assert_eq!(all[0].edges, vec![edge(1, 2, "References")]);
    assert_eq!(all[1].edges, vec![edge(1, 2, "References"), edge(2, 3, "References")]);
    let one = assemble_traversal(1, &reached, 1, &rows, TraversalDirection::Outgoing);
    assert_eq!(one.len(), 1);
    assert_eq!(one[0].path, vec![1, 2]);
    assert!(assemble_traversal(1, &reached, 0, &rows, TraversalDirection::Both).is_empty());
}
