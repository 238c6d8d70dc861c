//! The concrete syntax tree as an arena: nodes stored in document order and
//! addressed by index, each with optional links to its parent, its first
//! child and its next sibling.

use vstd::prelude::*;
use crate::kind::NodeKind;

verus! {

/// One node of the syntax tree.
#[derive(Clone, Copy, Debug, PartialEq, Eq, Structural)]
pub struct SyntaxNode {
    /// The node's kind.
    pub kind: NodeKind,
    /// Byte offset in the source at which the node starts.
    pub start: usize,
    /// Byte offset in the source at which the node ends.
    pub end: usize,
    /// Index of the parent; `None` for the root.
    pub parent: Option<usize>,
    /// Index of the first child, if the node has children.
    pub first_child: Option<usize>,
    /// Index of the next sibling, if there is one.
    pub next_sibling: Option<usize>,
}

/// The number of ancestors of node `i`.
pub open spec fn depth_of(nodes: Seq<SyntaxNode>, i: int) -> nat
    decreases i,
{
    if 0 < i < nodes.len() {
        match nodes[i].parent {
            Some(p) => if (p as int) < i {
                depth_of(nodes, p as int) + 1
            } else {
                0
            },
            None => 0,
        }
    } else {
        0
    }
}

/// The index just past the subtree of node `i`: its next sibling where it has
/// one, else what follows the subtree of its parent, else the end of the
/// arena.
pub open spec fn subtree_end(nodes: Seq<SyntaxNode>, i: int) -> int
    decreases i,
{
    if 0 <= i < nodes.len() {
        match nodes[i].next_sibling {
            Some(s) => s as int,
            None => match nodes[i].parent {
                Some(p) => if (p as int) < i {
                    subtree_end(nodes, p as int)
                } else {
                    nodes.len() as int
                },
                None => nodes.len() as int,
            },
        }
    } else {
        nodes.len() as int
    }
}

/// Node `i` has a parent exactly if it is not the root, and the parent
/// stands before it.
pub open spec fn parent_ok(nodes: Seq<SyntaxNode>, i: int) -> bool {
    match nodes[i].parent {
        Some(p) => (p as int) < i,
        None => i == 0,
    }
}

/// A first child directly follows its parent in the arena; a node without
/// children is directly followed by what comes after its subtree.
pub open spec fn first_child_ok(nodes: Seq<SyntaxNode>, i: int) -> bool {
    match nodes[i].first_child {
        Some(c) => c == i + 1 && c < nodes.len() && nodes[c as int].parent == Some(i as usize),
        None => subtree_end(nodes, i) == i + 1,
    }
}

/// A next sibling stands later in the arena and has the same parent.
pub open spec fn next_sibling_ok(nodes: Seq<SyntaxNode>, i: int) -> bool {
    match nodes[i].next_sibling {
        Some(s) => i < s < nodes.len() && nodes[s as int].parent == nodes[i].parent,
        None => true,
    }
}

/// The span of node `i` is ordered, lies inside the span of its parent and
/// ends before its next sibling starts.
pub open spec fn span_ok(nodes: Seq<SyntaxNode>, i: int) -> bool {
    &&& nodes[i].start <= nodes[i].end
    &&& match nodes[i].parent {
        Some(p) => p < nodes.len() ==> nodes[p as int].start <= nodes[i].start && nodes[i].end
            <= nodes[p as int].end,
        None => true,
    }
    &&& match nodes[i].next_sibling {
        Some(s) => s < nodes.len() ==> nodes[i].end <= nodes[s as int].start,
        None => true,
    }
}

/// Everything that is asked of node `i` in a well-formed arena.
pub open spec fn node_ok(nodes: Seq<SyntaxNode>, i: int) -> bool {
    &&& parent_ok(nodes, i)
    &&& first_child_ok(nodes, i)
    &&& next_sibling_ok(nodes, i)
    &&& span_ok(nodes, i)
}

/// A well-formed arena holds one tree in document order: node 0 is the
/// root, every other node comes after its parent, and the links of each node
/// agree with that order.
pub open spec fn well_formed(nodes: Seq<SyntaxNode>) -> bool {
    &&& nodes.len() > 0
    &&& forall|i: int| 0 <= i < nodes.len() ==> #[trigger] node_ok(nodes, i)
}

/// A node is no deeper than its index.
pub proof fn lemma_depth_bound(nodes: Seq<SyntaxNode>, i: int)
    requires
        0 <= i < nodes.len(),
    ensures
        depth_of(nodes, i) <= i,
    decreases i,
{
    if i > 0 {
        match nodes[i].parent {
            Some(p) => {
                if (p as int) < i {
                    lemma_depth_bound(nodes, p as int);
                }
            },
            None => {},
        }
    }
}

/// In a well-formed arena a child is one level deeper than its parent.
pub proof fn lemma_child_depth(nodes: Seq<SyntaxNode>, i: int)
    requires
        well_formed(nodes),
        0 < i < nodes.len(),
    ensures
        nodes[i].parent is Some,
        0 <= nodes[i].parent->0 < i,
        depth_of(nodes, i) == depth_of(nodes, nodes[i].parent->0 as int) + 1,
{
    assert(node_ok(nodes, i));
}

/// In a well-formed arena the root has no sibling.
pub proof fn lemma_root_alone(nodes: Seq<SyntaxNode>)
    requires
        well_formed(nodes),
    ensures
        nodes[0].parent is None,
        nodes[0].next_sibling is None,
{
    assert(node_ok(nodes, 0));
    if let Some(s) = nodes[0].next_sibling {
        assert(node_ok(nodes, s as int));
    }
}

/// The node that the depth-first walk comes to after node `i`: its first
/// child where it has one, else what follows its subtree.
pub open spec fn next_in_walk(nodes: Seq<SyntaxNode>, i: int) -> int {
    match nodes[i].first_child {
        Some(c) => c as int,
        None => subtree_end(nodes, i),
    }
}

/// In a well-formed arena the depth-first walk is the document order: after
/// node `i` it comes to node `i + 1`, or to the end. Every node stands after
/// its parent, so it is reached after all of its ancestors.
pub proof fn lemma_walk_order(nodes: Seq<SyntaxNode>, i: int)
    requires
        well_formed(nodes),
        0 <= i < nodes.len(),
    ensures
        next_in_walk(nodes, i) == i + 1,
        nodes[i].parent matches Some(p) ==> p < i,
{
    assert(node_ok(nodes, i));
}

/// What is asked of the links of node `i` in an arena in document order.
pub open spec fn links_ok(nodes: Seq<SyntaxNode>, i: int) -> bool {
    &&& parent_ok(nodes, i)
    &&& first_child_ok(nodes, i)
    &&& next_sibling_ok(nodes, i)
}

/// The arena holds one tree in document order: node 0 is the root, every
/// other node comes after its parent, and the links of each node agree with
/// that order. Nothing is asked of the spans.
pub open spec fn in_document_order(nodes: Seq<SyntaxNode>) -> bool {
    &&& nodes.len() > 0
    &&& forall|i: int| 0 <= i < nodes.len() ==> #[trigger] links_ok(nodes, i)
}

/// The node at which the climb from node `i` ends: `i` itself where it has
/// a next sibling or no parent, else where the climb from its parent ends.
pub open spec fn climb_end(nodes: Seq<SyntaxNode>, i: int) -> int
    decreases i,
{
    if 0 <= i < nodes.len() {
        match nodes[i].next_sibling {
            Some(s) => i,
            None => match nodes[i].parent {
                Some(p) => if (p as int) < i {
                    climb_end(nodes, p as int)
                } else {
                    i
                },
                None => i,
            },
        }
    } else {
        i
    }
}

/// Where the subtree of node `i` ends before the arena does, the climb from
/// `i` ends at a node whose next sibling stands there.
pub proof fn lemma_climb_end(nodes: Seq<SyntaxNode>, i: int)
    requires
        in_document_order(nodes),
        0 <= i < nodes.len(),
        subtree_end(nodes, i) < nodes.len(),
    ensures
        0 <= climb_end(nodes, i) <= i,
        nodes[climb_end(nodes, i)].next_sibling == Some(subtree_end(nodes, i) as usize),
    decreases i,
{
    assert(links_ok(nodes, i));
    match nodes[i].next_sibling {
        Some(s) => {},
        None => {
            match nodes[i].parent {
                Some(p) => {
                    lemma_climb_end(nodes, p as int);
                },
                None => {},
            }
        },
    }
}

/// In an arena in document order the link to the next sibling skips no
/// sibling: between a node and its next sibling stands no node with the
/// same parent.
pub proof fn lemma_no_skipped_sibling(nodes: Seq<SyntaxNode>, i: int, j: int)
    requires
        in_document_order(nodes),
        0 <= i < j < nodes.len(),
        nodes[i].next_sibling is Some,
        j < nodes[i].next_sibling->0,
    ensures
        nodes[j].parent != nodes[i].parent,
    decreases j,
{
    if nodes[j].parent == nodes[i].parent {
        assert(links_ok(nodes, i));
        assert(links_ok(nodes, j));
        assert(links_ok(nodes, j - 1));
        match nodes[j - 1].first_child {
            Some(c) => {
                // Then `j - 1` would be the parent of `j`, and of `i` too.
                assert(false);
            },
            None => {
                // What comes before `j` ends its subtree at `j`, so the
                // climb from there ends at the previous sibling of `j`.
                lemma_climb_end(nodes, j - 1);
                let a = climb_end(nodes, j - 1);
                assert(links_ok(nodes, a));
                if a > i {
                    lemma_no_skipped_sibling(nodes, i, a);
                } else if a < i {
                    lemma_no_skipped_sibling(nodes, a, i);
                }
            },
        }
    }
}

/// In an arena in document order no node is the next sibling of two nodes.
pub proof fn lemma_one_previous_sibling(nodes: Seq<SyntaxNode>, i: int, j: int)
    requires
        in_document_order(nodes),
        0 <= i < j < nodes.len(),
        nodes[i].next_sibling is Some,
    ensures
        nodes[j].next_sibling != nodes[i].next_sibling,
{
    if nodes[j].next_sibling == nodes[i].next_sibling {
        assert(links_ok(nodes, i));
        assert(links_ok(nodes, j));
        lemma_no_skipped_sibling(nodes, i, j);
    }
}

/// A syntax tree: a well-formed arena of nodes.
pub struct SyntaxTree {
    nodes: Vec<SyntaxNode>,
}

impl View for SyntaxTree {
    type V = Seq<SyntaxNode>;

    closed spec fn view(&self) -> Seq<SyntaxNode> {
        self.nodes@
    }
}

/// Follows the parent links upwards from node `i` to the index just past
/// its subtree.
fn find_subtree_end(nodes: &Vec<SyntaxNode>, i: usize) -> (end: usize)
    requires
        i < nodes.len(),
        forall|j: int| 0 <= j < nodes.len() ==> #[trigger] parent_ok(nodes@, j),
        forall|j: int| 0 <= j < nodes.len() ==> #[trigger] next_sibling_ok(nodes@, j),
    ensures
        end == subtree_end(nodes@, i as int),
{
    let mut cur = i;
    loop
        invariant
            cur < nodes.len(),
            subtree_end(nodes@, cur as int) == subtree_end(nodes@, i as int),
            forall|j: int| 0 <= j < nodes.len() ==> #[trigger] parent_ok(nodes@, j),
            forall|j: int| 0 <= j < nodes.len() ==> #[trigger] next_sibling_ok(nodes@, j),
        decreases cur,
    {
        let node = nodes[cur];
        assert(parent_ok(nodes@, cur as int));
        assert(next_sibling_ok(nodes@, cur as int));
        match node.next_sibling {
            Some(s) => {
                return s;
            },
            None => {
                match node.parent {
                    Some(p) => {
                        cur = p;
                    },
                    None => {
                        return nodes.len();
                    },
                }
            },
        }
    }
}

/// Checks what `parent_ok`, `next_sibling_ok` and `span_ok` ask of node
/// `i`, and of its first child that it directly follows.
fn check_node(nodes: &Vec<SyntaxNode>, i: usize) -> (ok: bool)
    requires
        i < nodes.len(),
    ensures
        ok == (parent_ok(nodes@, i as int) && next_sibling_ok(nodes@, i as int) && span_ok(
            nodes@,
            i as int,
        ) && (nodes@[i as int].first_child matches Some(c) ==> c == i + 1 && c < nodes.len()
            && nodes@[c as int].parent == Some(i))),
{
    let n = nodes.len();
    let node = nodes[i];
    if node.start > node.end {
        return false;
    }
    match node.parent {
        Some(p) => {
            if p >= i {
                return false;
            }
            let up = nodes[p];
            if up.start > node.start || node.end > up.end {
                return false;
            }
        },
        None => {
            if i != 0 {
                return false;
            }
        },
    }
    match node.next_sibling {
        Some(s) => {
            if s <= i || s >= n {
                return false;
            }
            let next = nodes[s];
            if next.parent != node.parent || node.end > next.start {
                return false;
            }
        },
        None => {},
    }
    match node.first_child {
        Some(c) => {
            if c >= n || c == 0 || c - 1 != i {
                return false;
            }
            let child = nodes[c];
            match child.parent {
                Some(q) => q == i,
                None => false,
            }
        },
        None => true,
    }
}

impl SyntaxTree {
    /// Makes a syntax tree of `nodes` where they form a well-formed arena.
    pub fn from_nodes(nodes: Vec<SyntaxNode>) -> (tree: Option<SyntaxTree>)
        ensures
            tree is Some <==> well_formed(nodes@),
            tree matches Some(t) ==> t@ == nodes@,
    {
        let n = nodes.len();
        if n == 0 {
            return None;
        }
        let mut i: usize = 0;
        while i < n
            invariant
                i <= n,
                n == nodes.len(),
                forall|j: int| 0 <= j < i ==> #[trigger] parent_ok(nodes@, j),
                forall|j: int| 0 <= j < i ==> #[trigger] next_sibling_ok(nodes@, j),
                forall|j: int| 0 <= j < i ==> #[trigger] span_ok(nodes@, j),
                forall|j: int|
                    0 <= j < i ==> (#[trigger] nodes@[j].first_child matches Some(c) ==> c == j + 1
                        && c < n && nodes@[c as int].parent == Some(j as usize)),
            decreases n - i,
        {
            if !check_node(&nodes, i) {
                assert(!node_ok(nodes@, i as int));
                return None;
            }
            i = i + 1;
        }
        let mut k: usize = 0;
        while k < n
            invariant
                k <= n,
                n == nodes.len(),
                forall|j: int| 0 <= j < n ==> #[trigger] parent_ok(nodes@, j),
                forall|j: int| 0 <= j < n ==> #[trigger] next_sibling_ok(nodes@, j),
                forall|j: int| 0 <= j < n ==> #[trigger] span_ok(nodes@, j),
                forall|j: int|
                    0 <= j < n ==> (#[trigger] nodes@[j].first_child matches Some(c) ==> c == j + 1
                        && c < n && nodes@[c as int].parent == Some(j as usize)),
                forall|j: int| 0 <= j < k ==> #[trigger] first_child_ok(nodes@, j),
            decreases n - k,
        {
            if nodes[k].first_child.is_none() {
                let end = find_subtree_end(&nodes, k);
                if end == 0 || end - 1 != k {
                    assert(!node_ok(nodes@, k as int));
                    return None;
                }
            }
            k = k + 1;
        }
        assert forall|j: int| 0 <= j < nodes.len() implies #[trigger] node_ok(nodes@, j) by {
            assert(parent_ok(nodes@, j));
            assert(next_sibling_ok(nodes@, j));
            assert(span_ok(nodes@, j));
            assert(first_child_ok(nodes@, j));
        }
        Some(SyntaxTree { nodes })
    }

    #[verifier::type_invariant]
    spec fn inv(self) -> bool {
        well_formed(self.nodes@)
    }

    /// The number of nodes, which is at least one.
    pub fn len(&self) -> (n: usize)
        ensures
            n == self@.len(),
            n > 0,
            well_formed(self@),
    {
        proof {
            use_type_invariant(self);
        }
        self.nodes.len()
    }

    /// The node at index `i`, if there is one.
    pub fn get(&self, i: usize) -> (node: Option<SyntaxNode>)
        ensures
            node == if i < self@.len() {
                Some(self@[i as int])
            } else {
                None
            },
    {
        if i < self.nodes.len() {
            Some(self.nodes[i])
        } else {
            None
        }
    }

    /// The node at index `i`.
    pub fn node(&self, i: usize) -> (node: SyntaxNode)
        requires
            i < self@.len(),
        ensures
            node == self@[i as int],
            well_formed(self@),
            node_ok(self@, i as int),
    {
        proof {
            use_type_invariant(self);
        }
        self.nodes[i]
    }
}

} // verus!
