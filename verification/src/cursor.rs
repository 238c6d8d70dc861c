//! The traversal: a cursor that follows the links of a syntax tree, and the
//! depth-first walker that drives it through every node in document order.

use vstd::prelude::*;
use crate::tree::{
    depth_of, lemma_child_depth, lemma_depth_bound, lemma_root_alone, node_ok, subtree_end,
    well_formed, SyntaxNode, SyntaxTree,
};

verus! {

/// A position in a syntax tree. It points at exactly one node and moves
/// along the node's links.
#[derive(Clone, Copy)]
pub struct Cursor<'a> {
    tree: &'a SyntaxTree,
    index: usize,
}

impl<'a> Cursor<'a> {
    #[verifier::type_invariant]
    spec fn inv(self) -> bool {
        self.index < self.tree@.len() && well_formed(self.tree@)
    }

    /// The arena that the cursor moves in.
    pub closed spec fn nodes(self) -> Seq<SyntaxNode> {
        self.tree@
    }

    /// The index of the node that the cursor points at.
    pub closed spec fn position(self) -> int {
        self.index as int
    }

    /// A cursor at the root of `tree`.
    pub fn new(tree: &'a SyntaxTree) -> (cursor: Cursor<'a>)
        ensures
            cursor.nodes() == tree@,
            cursor.position() == 0,
    {
        let _ = tree.len();
        Cursor { tree, index: 0 }
    }

    /// The index of the current node.
    pub fn index(&self) -> (i: usize)
        ensures
            i == self.position(),
            i < self.nodes().len(),
            well_formed(self.nodes()),
    {
        proof {
            use_type_invariant(self);
        }
        self.index
    }

    /// The current node.
    pub fn node(&self) -> (node: SyntaxNode)
        ensures
            0 <= self.position() < self.nodes().len(),
            node == self.nodes()[self.position()],
    {
        proof {
            use_type_invariant(self);
        }
        self.tree.node(self.index)
    }

    /// The tree that the cursor moves in.
    pub fn tree(&self) -> (tree: &'a SyntaxTree)
        ensures
            tree@ == self.nodes(),
    {
        self.tree
    }

    /// Moves to the first child of the current node. Returns `false`, and
    /// stays, where the node has no children.
    pub fn goto_first_child(&mut self) -> (moved: bool)
        ensures
            final(self).nodes() == old(self).nodes(),
            moved == old(self).nodes()[old(self).position()].first_child.is_some(),
            final(self).position() == match old(self).nodes()[old(self).position()].first_child {
                Some(c) => c as int,
                None => old(self).position(),
            },
    {
        proof {
            use_type_invariant(&*self);
        }
        let node = self.tree.node(self.index);
        match node.first_child {
            Some(c) => {
                *self = Cursor { tree: self.tree, index: c };
                true
            },
            None => false,
        }
    }

    /// Moves to the next sibling of the current node. Returns `false`, and
    /// stays, where there is none.
    pub fn goto_next_sibling(&mut self) -> (moved: bool)
        ensures
            final(self).nodes() == old(self).nodes(),
            moved == old(self).nodes()[old(self).position()].next_sibling.is_some(),
            final(self).position() == match old(self).nodes()[old(self).position()].next_sibling {
                Some(s) => s as int,
                None => old(self).position(),
            },
    {
        proof {
            use_type_invariant(&*self);
        }
        let node = self.tree.node(self.index);
        match node.next_sibling {
            Some(s) => {
                *self = Cursor { tree: self.tree, index: s };
                true
            },
            None => false,
        }
    }

    /// Moves to the parent of the current node. Returns `false`, and stays,
    /// where the cursor is at the root.
    pub fn goto_parent(&mut self) -> (moved: bool)
        ensures
            final(self).nodes() == old(self).nodes(),
            moved == old(self).nodes()[old(self).position()].parent.is_some(),
            final(self).position() == match old(self).nodes()[old(self).position()].parent {
                Some(p) => p as int,
                None => old(self).position(),
            },
    {
        proof {
            use_type_invariant(&*self);
        }
        let node = self.tree.node(self.index);
        match node.parent {
            Some(p) => {
                *self = Cursor { tree: self.tree, index: p };
                true
            },
            None => false,
        }
    }
}

/// The depth-first walker: one cursor and the nesting depth of the node it
/// points at.
#[derive(Clone, Copy)]
pub struct Walker<'a> {
    cursor: Cursor<'a>,
    depth: usize,
}

impl<'a> Walker<'a> {
    #[verifier::type_invariant]
    spec fn inv(self) -> bool {
        &&& well_formed(self.cursor.nodes())
        &&& 0 <= self.cursor.position() < self.cursor.nodes().len()
        &&& self.depth == depth_of(self.cursor.nodes(), self.cursor.position())
    }

    /// The arena that the walker goes through.
    pub closed spec fn nodes(self) -> Seq<SyntaxNode> {
        self.cursor.nodes()
    }

    /// The index of the node that the walker is at.
    pub closed spec fn position(self) -> int {
        self.cursor.position()
    }

    /// A walker at the root of `tree`, at depth 0.
    pub fn new(tree: &'a SyntaxTree) -> (walker: Walker<'a>)
        ensures
            walker.nodes() == tree@,
            walker.position() == 0,
    {
        let cursor = Cursor::new(tree);
        let _ = cursor.index();
        Walker { cursor, depth: 0 }
    }

    /// The index of the current node.
    pub fn index(&self) -> (i: usize)
        ensures
            i == self.position(),
            i < self.nodes().len(),
            well_formed(self.nodes()),
    {
        self.cursor.index()
    }

    /// The nesting depth of the current node: the number of its ancestors.
    pub fn depth(&self) -> (d: usize)
        ensures
            d == depth_of(self.nodes(), self.position()),
    {
        proof {
            use_type_invariant(self);
        }
        self.depth
    }

    /// The current node.
    pub fn node(&self) -> (node: SyntaxNode)
        ensures
            0 <= self.position() < self.nodes().len(),
            node == self.nodes()[self.position()],
    {
        self.cursor.node()
    }

    /// The tree that the walker goes through.
    pub fn tree(&self) -> (tree: &'a SyntaxTree)
        ensures
            tree@ == self.nodes(),
    {
        self.cursor.tree()
    }

    /// Moves to the next node of the traversal: to the first child where
    /// there is one, else to the next sibling, else up through the parents to
    /// the first of them that has a next sibling, and to that sibling.
    /// Returns `false` where that climb ends at the root: the traversal is
    /// then over and the walker is at the root again.
    ///
    /// The next node always is the one that follows in the arena, so the
    /// walk visits every node once, in document order.
    pub fn advance(&mut self) -> (more: bool)
        ensures
            final(self).nodes() == old(self).nodes(),
            more == (old(self).position() + 1 < old(self).nodes().len()),
            final(self).position() == if more {
                old(self).position() + 1
            } else {
                0
            },
    {
        proof {
            use_type_invariant(&*self);
        }
        let mut cursor = self.cursor;
        let mut depth = self.depth;
        let ghost nodes = cursor.nodes();
        let ghost start = cursor.position();
        proof {
            assert(node_ok(nodes, start));
            lemma_depth_bound(nodes, start);
        }
        if cursor.goto_first_child() {
            proof {
                lemma_child_depth(nodes, start + 1);
            }
            depth = depth + 1;
            *self = Walker { cursor, depth };
            return true;
        }
        if cursor.goto_next_sibling() {
            proof {
                let s = cursor.position();
                assert(node_ok(nodes, s));
                lemma_root_alone(nodes);
                lemma_child_depth(nodes, start);
                lemma_child_depth(nodes, s);
            }
            *self = Walker { cursor, depth };
            return true;
        }
        loop
            invariant
                old(self).nodes() == nodes,
                old(self).position() == start,
                cursor.nodes() == nodes,
                well_formed(nodes),
                0 <= cursor.position() <= start < nodes.len(),
                nodes[cursor.position()].next_sibling is None,
                subtree_end(nodes, cursor.position()) == start + 1,
                depth == depth_of(nodes, cursor.position()),
            decreases cursor.position(),
        {
            let ghost cur = cursor.position();
            proof {
                assert(node_ok(nodes, cur));
            }
            if !cursor.goto_parent() {
                *self = Walker { cursor, depth };
                return false;
            }
            let ghost up = cursor.position();
            proof {
                lemma_child_depth(nodes, cur);
                assert(subtree_end(nodes, cur) == subtree_end(nodes, up));
            }
            depth = depth - 1;
            if cursor.goto_next_sibling() {
                proof {
                    let s = cursor.position();
                    assert(node_ok(nodes, up));
                    assert(node_ok(nodes, s));
                    lemma_root_alone(nodes);
                    lemma_child_depth(nodes, up);
                    lemma_child_depth(nodes, s);
                }
                *self = Walker { cursor, depth };
                return true;
            }
        }
    }
}

} // verus!
