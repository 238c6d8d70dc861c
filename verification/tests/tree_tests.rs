use query_format::cursor::{Cursor, Walker};
use query_format::kind::NodeKind;
use query_format::parser::TreeRecorder;
use query_format::tree::{SyntaxNode, SyntaxTree};

fn node(
    kind: NodeKind,
    start: usize,
    end: usize,
    parent: Option<usize>,
    first_child: Option<usize>,
    next_sibling: Option<usize>,
) -> SyntaxNode {
    SyntaxNode { kind, start, end, parent, first_child, next_sibling }
}

/// The tree of `(a (b))`: a program with one named node that holds another.
fn sample() -> Vec<SyntaxNode> {
    vec![
        node(NodeKind::Other, 0, 7, None, Some(1), None),
        node(NodeKind::NamedNode, 0, 7, Some(0), Some(2), None),
        node(NodeKind::OpenParen, 0, 1, Some(1), None, Some(3)),
        node(NodeKind::Identifier, 1, 2, Some(1), None, Some(4)),
        node(NodeKind::NamedNode, 3, 6, Some(1), Some(5), Some(8)),
        node(NodeKind::OpenParen, 3, 4, Some(4), None, Some(6)),
        node(NodeKind::Identifier, 4, 5, Some(4), None, Some(7)),
        node(NodeKind::CloseParen, 5, 6, Some(4), None, None),
        node(NodeKind::CloseParen, 6, 7, Some(1), None, None),
    ]
}

#[test]
fn from_nodes_accepts_a_tree_in_document_order() {
    let tree = SyntaxTree::from_nodes(sample()).unwrap();
    assert_eq!(tree.len(), 9);
    assert_eq!(tree.get(4), Some(sample()[4]));
    assert_eq!(tree.node(8), sample()[8]);
    assert_eq!(tree.get(9), None);
}

#[test]
fn from_nodes_accepts_a_lone_root() {
    let tree = SyntaxTree::from_nodes(vec![node(NodeKind::Other, 0, 0, None, None, None)]);
    assert_eq!(tree.unwrap().len(), 1);
}

#[test]
fn from_nodes_refuses_no_nodes() {
    assert!(SyntaxTree::from_nodes(Vec::new()).is_none());
}

#[test]
fn from_nodes_refuses_a_root_with_a_parent() {
    let mut nodes = sample();
    nodes[0].parent = Some(0);
    assert!(SyntaxTree::from_nodes(nodes).is_none());
}

#[test]
fn from_nodes_refuses_a_second_root() {
    let mut nodes = sample();
    nodes[8].parent = None;
    assert!(SyntaxTree::from_nodes(nodes).is_none());
}

#[test]
fn from_nodes_refuses_a_parent_that_comes_later() {
    let mut nodes = sample();
    nodes[3].parent = Some(4);
    assert!(SyntaxTree::from_nodes(nodes).is_none());
}

#[test]
fn from_nodes_refuses_a_first_child_that_does_not_follow() {
    let mut nodes = sample();
    nodes[1].first_child = Some(3);
    assert!(SyntaxTree::from_nodes(nodes).is_none());
}

#[test]
fn from_nodes_refuses_a_first_child_of_another_parent() {
    let mut nodes = sample();
    nodes[2].first_child = Some(3);
    assert!(SyntaxTree::from_nodes(nodes).is_none());
}

#[test]
fn from_nodes_refuses_a_missing_first_child_link() {
    let mut nodes = sample();
    nodes[4].first_child = None;
    assert!(SyntaxTree::from_nodes(nodes).is_none());
}

#[test]
fn from_nodes_refuses_a_missing_sibling_link() {
    let mut nodes = sample();
    nodes[3].next_sibling = None;
    assert!(SyntaxTree::from_nodes(nodes).is_none());
}

#[test]
fn from_nodes_refuses_a_sibling_link_that_skips_a_node() {
    let mut nodes = sample();
    nodes[2].next_sibling = Some(4);
    assert!(SyntaxTree::from_nodes(nodes).is_none());
}

#[test]
fn from_nodes_refuses_a_sibling_of_another_parent() {
    let mut nodes = sample();
    nodes[7].next_sibling = Some(8);
    assert!(SyntaxTree::from_nodes(nodes).is_none());
}

#[test]
fn from_nodes_refuses_links_out_of_range() {
    let mut nodes = sample();
    nodes[8].next_sibling = Some(9);
    assert!(SyntaxTree::from_nodes(nodes).is_none());
    let mut nodes = sample();
    nodes[8].first_child = Some(9);
    assert!(SyntaxTree::from_nodes(nodes).is_none());
}

#[test]
fn from_nodes_refuses_a_span_that_ends_before_it_starts() {
    let mut nodes = sample();
    nodes[3].start = 2;
    nodes[3].end = 1;
    assert!(SyntaxTree::from_nodes(nodes).is_none());
}

#[test]
fn from_nodes_refuses_a_span_outside_the_parent() {
    let mut nodes = sample();
    nodes[7].end = 8;
    assert!(SyntaxTree::from_nodes(nodes).is_none());
    let mut nodes = sample();
    nodes[4].start = 0;
    nodes[1].start = 1;
    assert!(SyntaxTree::from_nodes(nodes).is_none());
}

#[test]
fn from_nodes_refuses_siblings_that_overlap() {
    let mut nodes = sample();
    nodes[3].end = 4;
    assert!(SyntaxTree::from_nodes(nodes).is_none());
}

#[test]
fn cursor_follows_the_links() {
    let tree = SyntaxTree::from_nodes(sample()).unwrap();
    let mut cursor = Cursor::new(&tree);
    assert_eq!(cursor.index(), 0);
    assert!(!cursor.goto_parent());
    assert!(!cursor.goto_next_sibling());
    assert_eq!(cursor.index(), 0);
    assert!(cursor.goto_first_child());
    assert_eq!(cursor.index(), 1);
    assert!(cursor.goto_first_child());
    assert_eq!(cursor.index(), 2);
    assert!(!cursor.goto_first_child());
    assert_eq!(cursor.index(), 2);
    assert!(cursor.goto_next_sibling());
    assert!(cursor.goto_next_sibling());
    assert_eq!(cursor.index(), 4);
    assert_eq!(cursor.node(), sample()[4]);
    assert!(cursor.goto_next_sibling());
    assert_eq!(cursor.index(), 8);
    assert!(!cursor.goto_next_sibling());
    assert!(cursor.goto_parent());
    assert_eq!(cursor.index(), 1);
    assert_eq!(cursor.tree().len(), 9);
}

#[test]
fn walker_visits_every_node_once_in_document_order() {
    let tree = SyntaxTree::from_nodes(sample()).unwrap();
    let mut walker = Walker::new(&tree);
    let mut seen = vec![(walker.index(), walker.depth())];
    while walker.advance() {
        seen.push((walker.index(), walker.depth()));
    }
    assert_eq!(
        seen,
        vec![(0, 0), (1, 1), (2, 2), (3, 2), (4, 2), (5, 3), (6, 3), (7, 3), (8, 2)]
    );
}

#[test]
fn walker_ends_at_the_root() {
    let tree = SyntaxTree::from_nodes(sample()).unwrap();
    let mut walker = Walker::new(&tree);
    let mut steps = 0;
    while walker.advance() {
        steps += 1;
    }
    assert_eq!(steps, 8);
    assert_eq!(walker.index(), 0);
    assert_eq!(walker.depth(), 0);
    assert_eq!(walker.node(), sample()[0]);
    assert_eq!(walker.tree().len(), 9);
}

#[test]
fn walker_on_a_lone_root_has_nowhere_to_go() {
    let tree =
        SyntaxTree::from_nodes(vec![node(NodeKind::Other, 0, 0, None, None, None)]).unwrap();
    let mut walker = Walker::new(&tree);
    assert!(!walker.advance());
    assert_eq!(walker.index(), 0);
}

#[test]
fn recorder_links_what_a_traversal_reports() {
    let mut r = TreeRecorder::new(NodeKind::Other, 0, 7);
    assert_eq!(r.len(), 1);
    r = r.push_child(NodeKind::NamedNode, 0, 7);
    r = r.push_child(NodeKind::OpenParen, 0, 1);
    r = r.push_sibling(NodeKind::Identifier, 1, 2);
    r = r.push_sibling(NodeKind::NamedNode, 3, 6);
    r = r.push_child(NodeKind::OpenParen, 3, 4);
    r = r.push_sibling(NodeKind::Identifier, 4, 5);
    r = r.push_sibling(NodeKind::CloseParen, 5, 6);
    assert!(r.ascend());
    r = r.push_sibling(NodeKind::CloseParen, 6, 7);
    assert_eq!(r.len(), 9);
    assert!(r.ascend());
    assert!(r.ascend());
    assert!(!r.ascend());
    let tree = r.finish().unwrap();
    for i in 0..9 {
        assert_eq!(tree.get(i), Some(sample()[i]));
    }
}

#[test]
fn recorder_gives_no_tree_for_a_broken_record() {
    let mut r = TreeRecorder::new(NodeKind::Other, 0, 3);
    r = r.push_child(NodeKind::Identifier, 0, 1);
    assert!(r.ascend());
    r = r.push_child(NodeKind::Identifier, 2, 3);
    assert!(r.finish().is_none());
    let mut r = TreeRecorder::new(NodeKind::Other, 0, 3);
    r = r.push_sibling(NodeKind::Identifier, 0, 1);
    assert!(r.finish().is_none());
    let mut r = TreeRecorder::new(NodeKind::Other, 0, 3);
    r = r.push_child(NodeKind::Identifier, 0, 4);
    assert!(r.finish().is_none());
}
