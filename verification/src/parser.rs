//! Reading a syntax tree out of the tree-sitter parser: the parse itself,
//! and the walk with the parser's cursor that records every node in the
//! arena.

use vstd::prelude::*;
use tree_sitter::{Parser, Tree, TreeCursor};
use crate::error::FormatError;
use crate::format::{format_tree, formatted};
use crate::kind::{kind_of_name, NodeKind};
use crate::layout::LayoutConfig;
use crate::tree::{
    in_document_order, lemma_one_previous_sibling, links_ok, subtree_end, well_formed, SyntaxNode,
    SyntaxTree,
};

verus! {

/// tree-sitter's `Parser`, carried through as it is.
#[verifier::external_type_specification]
#[verifier::external_body]
pub struct ExParser(Parser);

/// tree-sitter's `Tree`, carried through as it is.
#[verifier::external_type_specification]
#[verifier::external_body]
pub struct ExTree(Tree);

/// tree-sitter's `TreeCursor`, carried through as it is.
#[verifier::external_type_specification]
#[verifier::external_body]
pub struct ExTreeCursor<'a>(TreeCursor<'a>);

/// tree-sitter's `Node`, carried through as it is.
#[verifier::external_type_specification]
#[verifier::external_body]
pub struct ExNode<'a>(tree_sitter::Node<'a>);

/// The nodes of a parsed tree in document order, each with its kind, its
/// span and, as indices into this sequence, its parent, its first child and
/// its next sibling.
pub uninterp spec fn tree_nodes(tree: Tree) -> Seq<SyntaxNode>;

/// The nodes, in document order, of the tree that a cursor moves in.
pub uninterp spec fn cursor_nodes(cursor: TreeCursor) -> Seq<SyntaxNode>;

/// The index, in document order, of the node that a cursor is at.
pub uninterp spec fn cursor_position(cursor: TreeCursor) -> int;

/// The grammar's name for the kind of a node.
pub uninterp spec fn node_name(node: tree_sitter::Node) -> Seq<char>;

/// The byte offset at which a node starts.
pub uninterp spec fn node_start(node: tree_sitter::Node) -> usize;

/// The byte offset at which a node ends.
pub uninterp spec fn node_end(node: tree_sitter::Node) -> usize;

/// `Tree::walk` gives a cursor at the root of the tree: it moves in the
/// tree's nodes and stands at the first of them. The nodes of a tree, taken
/// in document order, stand in that order: the root first, every node after
/// its parent, a first child directly after its parent, a next sibling
/// directly after the subtree before it.
pub assume_specification[ Tree::walk ](tree: &Tree) -> (cursor: TreeCursor<'_>)
    ensures
        cursor_nodes(cursor) == tree_nodes(*tree),
        cursor_position(cursor) == 0,
        in_document_order(cursor_nodes(cursor)),
;

/// `TreeCursor::node` gives the node that the cursor is at: its kind, read
/// from its name, and its span are those of the node at the cursor's
/// position.
pub assume_specification<'a>[ TreeCursor::<'a>::node ](cursor: &TreeCursor<'a>) -> (node:
    tree_sitter::Node<'a>)
    ensures
        kind_of_name(node_name(node)) == cursor_nodes(*cursor)[cursor_position(*cursor)].kind,
        node_start(node) == cursor_nodes(*cursor)[cursor_position(*cursor)].start,
        node_end(node) == cursor_nodes(*cursor)[cursor_position(*cursor)].end,
;

/// `TreeCursor::goto_first_child` moves the cursor to the first child of
/// its node and returns `true`, or leaves it where it is and returns
/// `false` where the node has no children.
pub assume_specification<'a>[ TreeCursor::<'a>::goto_first_child ](
    cursor: &mut TreeCursor<'a>,
) -> (moved: bool)
    ensures
        cursor_nodes(*final(cursor)) == cursor_nodes(*old(cursor)),
        moved == cursor_nodes(*old(cursor))[cursor_position(*old(cursor))].first_child.is_some(),
        cursor_position(*final(cursor)) == match cursor_nodes(*old(cursor))[cursor_position(
            *old(cursor),
        )].first_child {
            Some(c) => c as int,
            None => cursor_position(*old(cursor)),
        },
;

/// `TreeCursor::goto_next_sibling` moves the cursor to the next sibling of
/// its node and returns `true`, or leaves it where it is and returns
/// `false` where there is no next sibling.
pub assume_specification<'a>[ TreeCursor::<'a>::goto_next_sibling ](
    cursor: &mut TreeCursor<'a>,
) -> (moved: bool)
    ensures
        cursor_nodes(*final(cursor)) == cursor_nodes(*old(cursor)),
        moved == cursor_nodes(*old(cursor))[cursor_position(*old(cursor))].next_sibling.is_some(),
        cursor_position(*final(cursor)) == match cursor_nodes(*old(cursor))[cursor_position(
            *old(cursor),
        )].next_sibling {
            Some(s) => s as int,
            None => cursor_position(*old(cursor)),
        },
;

/// `TreeCursor::goto_parent` moves the cursor to the parent of its node and
/// returns `true`, or leaves it where it is and returns `false` where the
/// cursor is at the root.
pub assume_specification<'a>[ TreeCursor::<'a>::goto_parent ](cursor: &mut TreeCursor<'a>) -> (moved:
    bool)
    ensures
        cursor_nodes(*final(cursor)) == cursor_nodes(*old(cursor)),
        moved == cursor_nodes(*old(cursor))[cursor_position(*old(cursor))].parent.is_some(),
        cursor_position(*final(cursor)) == match cursor_nodes(*old(cursor))[cursor_position(
            *old(cursor),
        )].parent {
            Some(p) => p as int,
            None => cursor_position(*old(cursor)),
        },
;

/// `Node::kind` gives the grammar's name for the node's kind.
pub assume_specification<'tree>[ tree_sitter::Node::<'tree>::kind ](
    node: &tree_sitter::Node<'tree>,
) -> (kind: &'static str)
    ensures
        kind@ == node_name(*node),
;

/// `Node::start_byte` gives the offset at which the node starts.
pub assume_specification<'tree>[ tree_sitter::Node::<'tree>::start_byte ](
    node: &tree_sitter::Node<'tree>,
) -> (start: usize)
    ensures
        start == node_start(*node),
;

/// `Node::end_byte` gives the offset at which the node ends.
pub assume_specification<'tree>[ tree_sitter::Node::<'tree>::end_byte ](
    node: &tree_sitter::Node<'tree>,
) -> (end: usize)
    ensures
        end == node_end(*node),
;

/// `Parser::parse` on the whole of `source`, with no earlier tree. It gives
/// no tree where the parser has no language, or was stopped; nothing is
/// claimed of the tree it gives.
#[verifier::external_body]
fn parse_text(parser: &mut Parser, source: &str) -> (tree: Option<Tree>) {
    parser.parse(source, None)
}

/// A node as it is first recorded: without children and without a next
/// sibling.
pub open spec fn fresh_node(kind: NodeKind, start: usize, end: usize, parent: Option<usize>)
    -> SyntaxNode {
    SyntaxNode { kind, start, end, parent, first_child: None, next_sibling: None }
}

/// The nodes that a traversal has reported so far, with their links, and
/// the index of the node that the traversal is at.
pub struct TreeRecorder {
    nodes: Vec<SyntaxNode>,
    current: usize,
}

impl TreeRecorder {
    #[verifier::type_invariant]
    spec fn inv(self) -> bool {
        &&& self.current < self.nodes@.len()
        &&& forall|j: int|
            0 <= j < self.nodes@.len() ==> (#[trigger] self.nodes@[j].parent matches Some(p) ==> p
                < j)
    }

    /// The nodes recorded so far.
    pub closed spec fn nodes(self) -> Seq<SyntaxNode> {
        self.nodes@
    }

    /// The index of the node that the traversal is at.
    pub closed spec fn current(self) -> int {
        self.current as int
    }

    /// Starts a record at the root.
    pub fn new(kind: NodeKind, start: usize, end: usize) -> (recorder: TreeRecorder)
        ensures
            recorder.nodes() == seq![fresh_node(kind, start, end, None)],
            recorder.current() == 0,
    {
        let mut nodes: Vec<SyntaxNode> = Vec::new();
        nodes.push(
            SyntaxNode { kind, start, end, parent: None, first_child: None, next_sibling: None },
        );
        assert(nodes@ =~= seq![fresh_node(kind, start, end, None)]);
        TreeRecorder { nodes, current: 0 }
    }

    /// The number of nodes recorded so far.
    pub fn len(&self) -> (n: usize)
        ensures
            n == self.nodes().len(),
            0 <= self.current() < n,
    {
        proof {
            use_type_invariant(self);
        }
        self.nodes.len()
    }

    /// Records that the traversal went down to the first child of the
    /// current node.
    pub fn push_child(self, kind: NodeKind, start: usize, end: usize) -> (next: TreeRecorder)
        ensures
            0 <= self.current() < self.nodes().len(),
            next.current() == self.nodes().len(),
            next.nodes() == self.nodes().update(
                self.current(),
                (SyntaxNode {
                    first_child: Some(self.nodes().len() as usize),
                    ..self.nodes()[self.current()]
                }),
            ).push(fresh_node(kind, start, end, Some(self.current() as usize))),
    {
        proof {
            use_type_invariant(&self);
        }
        let current = self.current;
        let mut nodes = self.nodes;
        let index = nodes.len();
        let mut parent = nodes[current];
        parent.first_child = Some(index);
        nodes.set(current, parent);
        nodes.push(
            SyntaxNode {
                kind,
                start,
                end,
                parent: Some(current),
                first_child: None,
                next_sibling: None,
            },
        );
        let _ = nodes.len();
        TreeRecorder { nodes, current: index }
    }

    /// Records that the traversal went on to the next sibling of the current
    /// node.
    pub fn push_sibling(self, kind: NodeKind, start: usize, end: usize) -> (next: TreeRecorder)
        ensures
            0 <= self.current() < self.nodes().len(),
            next.current() == self.nodes().len(),
            next.nodes() == self.nodes().update(
                self.current(),
                (SyntaxNode {
                    next_sibling: Some(self.nodes().len() as usize),
                    ..self.nodes()[self.current()]
                }),
            ).push(fresh_node(kind, start, end, self.nodes()[self.current()].parent)),
    {
        proof {
            use_type_invariant(&self);
        }
        let current = self.current;
        let mut nodes = self.nodes;
        let index = nodes.len();
        let mut before = nodes[current];
        let parent = before.parent;
        before.next_sibling = Some(index);
        nodes.set(current, before);
        nodes.push(
            SyntaxNode { kind, start, end, parent, first_child: None, next_sibling: None },
        );
        let _ = nodes.len();
        TreeRecorder { nodes, current: index }
    }

    /// Records that the traversal went up to the parent of the current
    /// node. Returns `false`, and stays, where the current node is the root.
    pub fn ascend(&mut self) -> (moved: bool)
        ensures
            0 <= old(self).current() < old(self).nodes().len(),
            final(self).nodes() == old(self).nodes(),
            moved == old(self).nodes()[old(self).current()].parent.is_some(),
            final(self).current() == match old(self).nodes()[old(self).current()].parent {
                Some(p) => p as int,
                None => old(self).current(),
            },
            moved ==> final(self).current() < old(self).current(),
    {
        proof {
            use_type_invariant(&*self);
        }
        match self.nodes[self.current].parent {
            Some(p) => {
                self.current = p;
                true
            },
            None => false,
        }
    }

    /// Ends the record. Gives the tree where the recorded nodes form a
    /// well-formed arena.
    pub fn finish(self) -> (tree: Option<SyntaxTree>)
        ensures
            tree is Some <==> well_formed(self.nodes()),
            tree matches Some(t) ==> t@ == self.nodes(),
    {
        SyntaxTree::from_nodes(self.nodes)
    }
}

/// A link as a record of the first `count` nodes holds it: links to nodes
/// that are not recorded yet are not set yet.
pub open spec fn link_below(link: Option<usize>, count: int) -> Option<usize> {
    match link {
        Some(target) => if (target as int) < count {
            Some(target)
        } else {
            None
        },
        None => None,
    }
}

/// A node as a record of the first `count` nodes holds it.
pub open spec fn recorded_node(node: SyntaxNode, count: int) -> SyntaxNode {
    SyntaxNode {
        first_child: link_below(node.first_child, count),
        next_sibling: link_below(node.next_sibling, count),
        ..node
    }
}

/// The record of the first `count` of `nodes`.
pub open spec fn recorded_prefix(nodes: Seq<SyntaxNode>, count: int) -> Seq<SyntaxNode> {
    Seq::new(count as nat, |j: int| recorded_node(nodes[j], count))
}

/// The record grows by the first child of the node recorded last.
pub proof fn lemma_record_child(nodes: Seq<SyntaxNode>, count: int)
    requires
        in_document_order(nodes),
        1 <= count < nodes.len(),
        count <= usize::MAX,
        nodes[count - 1].first_child == Some(count as usize),
    ensures
        recorded_prefix(nodes, count).update(
            count - 1,
            (SyntaxNode {
                first_child: Some(count as usize),
                ..recorded_prefix(nodes, count)[count - 1]
            }),
        ).push(
            fresh_node(
                nodes[count].kind,
                nodes[count].start,
                nodes[count].end,
                Some((count - 1) as usize),
            ),
        ) == recorded_prefix(nodes, count + 1),
{
    let before = recorded_prefix(nodes, count);
    let after = before.update(
        count - 1,
        (SyntaxNode { first_child: Some(count as usize), ..before[count - 1] }),
    ).push(
        fresh_node(
            nodes[count].kind,
            nodes[count].start,
            nodes[count].end,
            Some((count - 1) as usize),
        ),
    );
    let goal = recorded_prefix(nodes, count + 1);
    assert(links_ok(nodes, count));
    assert(links_ok(nodes, count - 1));
    assert forall|j: int| 0 <= j < count + 1 implies after[j] == goal[j] by {
        assert(links_ok(nodes, j));
        if j < count - 1 {
            match nodes[j].next_sibling {
                Some(s) => {
                    if s == count {
                        assert(links_ok(nodes, s as int));
                    }
                },
                None => {},
            }
        }
    }
    assert(after =~= goal);
}

/// The record grows by the next sibling of node `at`, where the subtree of
/// `at` ends with the node recorded last.
pub proof fn lemma_record_sibling(nodes: Seq<SyntaxNode>, count: int, at: int)
    requires
        in_document_order(nodes),
        0 <= at < count < nodes.len(),
        count <= usize::MAX,
        nodes[at].next_sibling == Some(count as usize),
        nodes[count - 1].first_child is None,
    ensures
        recorded_prefix(nodes, count).update(
            at,
            (SyntaxNode {
                next_sibling: Some(count as usize),
                ..recorded_prefix(nodes, count)[at]
            }),
        ).push(
            fresh_node(
                nodes[count].kind,
                nodes[count].start,
                nodes[count].end,
                recorded_prefix(nodes, count)[at].parent,
            ),
        ) == recorded_prefix(nodes, count + 1),
{
    let before = recorded_prefix(nodes, count);
    let after = before.update(
        at,
        (SyntaxNode { next_sibling: Some(count as usize), ..before[at] }),
    ).push(fresh_node(nodes[count].kind, nodes[count].start, nodes[count].end, before[at].parent));
    let goal = recorded_prefix(nodes, count + 1);
    assert(links_ok(nodes, count));
    assert(links_ok(nodes, at));
    assert forall|j: int| 0 <= j < count + 1 implies after[j] == goal[j] by {
        assert(links_ok(nodes, j));
        if j < count && j != at {
            if j < at {
                if nodes[j].next_sibling is Some {
                    lemma_one_previous_sibling(nodes, j, at);
                }
            } else {
                lemma_one_previous_sibling(nodes, at, j);
            }
        }
    }
    assert(after =~= goal);
}

/// The record of all nodes is the arena.
pub proof fn lemma_record_complete(nodes: Seq<SyntaxNode>)
    requires
        in_document_order(nodes),
    ensures
        recorded_prefix(nodes, nodes.len() as int) == nodes,
{
    let goal = recorded_prefix(nodes, nodes.len() as int);
    assert forall|j: int| 0 <= j < nodes.len() implies goal[j] == nodes[j] by {
        assert(links_ok(nodes, j));
    }
    assert(goal =~= nodes);
}

/// Reads kind and span of the node under the cursor: the kind is what
/// `NodeKind::from_name` reads out of the name that the node reports, the
/// offsets are handed on as the node reports them.
fn node_under(cursor: &TreeCursor) -> (found: (NodeKind, usize, usize))
    ensures
        found.0 == cursor_nodes(*cursor)[cursor_position(*cursor)].kind,
        found.1 == cursor_nodes(*cursor)[cursor_position(*cursor)].start,
        found.2 == cursor_nodes(*cursor)[cursor_position(*cursor)].end,
{
    let node = cursor.node();
    (NodeKind::from_name(node.kind()), node.start_byte(), node.end_byte())
}

/// Ends a record: the tree, where the record is well-formed.
fn finish_record(recorder: TreeRecorder) -> (result: Result<SyntaxTree, FormatError>)
    ensures
        match result {
            Ok(tree) => tree@ == recorder.nodes() && well_formed(tree@),
            Err(e) => e == FormatError::MalformedTree && !well_formed(recorder.nodes()),
        },
{
    match recorder.finish() {
        Some(tree) => Ok(tree),
        None => Err(FormatError::MalformedTree),
    }
}

/// Copies a parsed tree into an arena. The parser's cursor is driven
/// depth-first: down to the first child where there is one, else on to the
/// next sibling, else up through the parents until one of them has a next
/// sibling. Every node that the cursor comes to is recorded with its kind,
/// its span and the links that the moves imply.
///
/// The arena is the tree's nodes in document order. The copy fails where
/// they are no well-formed arena, which is where their spans do not nest.
pub fn read_tree(tree: &Tree) -> (result: Result<SyntaxTree, FormatError>)
    ensures
        match result {
            Ok(arena) => arena@ == tree_nodes(*tree) && well_formed(arena@),
            Err(e) => e == FormatError::MalformedTree && !well_formed(tree_nodes(*tree)),
        },
{
    let mut cursor = tree.walk();
    let ghost nodes = tree_nodes(*tree);
    let (kind, start, end) = node_under(&cursor);
    let mut recorder = TreeRecorder::new(kind, start, end);
    proof {
        assert(links_ok(nodes, 0));
        assert(recorder.nodes() =~= recorded_prefix(nodes, 1));
    }
    loop
        invariant
            nodes == tree_nodes(*tree),
            cursor_nodes(cursor) == nodes,
            in_document_order(nodes),
            1 <= recorder.nodes().len() <= nodes.len(),
            recorder.nodes() == recorded_prefix(nodes, recorder.nodes().len() as int),
            cursor_position(cursor) == recorder.nodes().len() - 1,
            recorder.current() == recorder.nodes().len() - 1,
        decreases nodes.len() - recorder.nodes().len(),
    {
        let n = recorder.len();
        let ghost last = n - 1;
        proof {
            assert(links_ok(nodes, last));
        }
        if cursor.goto_first_child() {
            let (kind, start, end) = node_under(&cursor);
            proof {
                lemma_record_child(nodes, n as int);
            }
            recorder = recorder.push_child(kind, start, end);
        } else if cursor.goto_next_sibling() {
            let (kind, start, end) = node_under(&cursor);
            proof {
                lemma_record_sibling(nodes, n as int, last);
            }
            recorder = recorder.push_sibling(kind, start, end);
        } else {
            loop
                invariant_except_break
                    recorder.nodes().len() == n,
                    cursor_position(cursor) == recorder.current(),
                    0 <= recorder.current() <= last,
                    nodes[recorder.current()].next_sibling is None,
                    subtree_end(nodes, recorder.current()) == n,
                invariant
                    nodes == tree_nodes(*tree),
                    cursor_nodes(cursor) == nodes,
                    in_document_order(nodes),
                    last == n - 1,
                    1 <= n <= nodes.len(),
                    nodes[last].first_child is None,
                    recorder.nodes() == recorded_prefix(nodes, recorder.nodes().len() as int),
                ensures
                    recorder.nodes().len() == n + 1,
                    n + 1 <= nodes.len(),
                    cursor_position(cursor) == n,
                    recorder.current() == n,
                decreases recorder.current(),
            {
                let ghost at = recorder.current();
                proof {
                    assert(links_ok(nodes, at));
                }
                if !cursor.goto_parent() {
                    proof {
                        lemma_record_complete(nodes);
                    }
                    return finish_record(recorder);
                }
                let moved = recorder.ascend();
                let ghost up = recorder.current();
                proof {
                    assert(moved);
                    assert(links_ok(nodes, up));
                    assert(subtree_end(nodes, at) == subtree_end(nodes, up));
                }
                if cursor.goto_next_sibling() {
                    let (kind, start, end) = node_under(&cursor);
                    proof {
                        lemma_record_sibling(nodes, n as int, up);
                    }
                    recorder = recorder.push_sibling(kind, start, end);
                    break ;
                }
            }
        }
    }
}

/// What becomes of the parser's answer: no tree is a parse failure, a tree
/// is copied into an arena.
pub fn tree_or_failure(parsed: Option<Tree>) -> (result: Result<SyntaxTree, FormatError>)
    ensures
        parsed is None ==> (result matches Err(e) && e == FormatError::ParseFailed),
        parsed matches Some(tree) ==> match result {
            Ok(arena) => arena@ == tree_nodes(tree) && well_formed(arena@),
            Err(e) => e == FormatError::MalformedTree && !well_formed(tree_nodes(tree)),
        },
{
    match parsed {
        Some(tree) => read_tree(&tree),
        None => Err(FormatError::ParseFailed),
    }
}

/// Whether `result` is what copying `tree` into an arena gives.
pub open spec fn is_arena_of(result: Result<SyntaxTree, FormatError>, tree: Tree) -> bool {
    match result {
        Ok(arena) => arena@ == tree_nodes(tree) && well_formed(arena@),
        Err(e) => e == FormatError::MalformedTree && !well_formed(tree_nodes(tree)),
    }
}

/// Parses `source` and copies the tree into an arena. Where the parser
/// gives no tree the result is the parse failure; else it is the arena of
/// the tree that the parser gave.
pub fn parse_tree(parser: &mut Parser, source: &str) -> (result: Result<SyntaxTree, FormatError>)
    ensures
        (result matches Err(e) && e == FormatError::ParseFailed) || exists|tree: Tree|
            #[trigger] is_arena_of(result, tree),
{
    let parsed = parse_text(parser, source);
    let ghost given = parsed;
    let result = tree_or_failure(parsed);
    proof {
        if let Some(tree) = given {
            assert(is_arena_of(result, tree));
        }
    }
    result
}

/// Whether `result` is what formatting `source` under the nodes of `tree`
/// gives: the formatted text, or the error of the pass, or the refusal of
/// nodes that are no well-formed arena.
pub open spec fn is_formatting_of(
    result: Result<String, FormatError>,
    tree: Tree,
    source: Seq<char>,
    config: LayoutConfig,
) -> bool {
    match result {
        Ok(text) => well_formed(tree_nodes(tree)) && formatted(tree_nodes(tree), source, config)
            == Ok::<Seq<char>, FormatError>(text@),
        Err(e) => if well_formed(tree_nodes(tree)) {
            formatted(tree_nodes(tree), source, config) == Err::<Seq<char>, FormatError>(e)
        } else {
            e == FormatError::MalformedTree
        },
    }
}

/// Formats `source` with the parser's answer for it. Where the parser gave
/// no tree, nothing is formatted and the parse failure is the result. Where
/// it gave one, the result is the formatting of the source under the nodes
/// of that tree.
pub fn format_parsed(parsed: Option<Tree>, source: &str, config: &LayoutConfig) -> (result: Result<
    String,
    FormatError,
>)
    ensures
        parsed is None ==> (result matches Err(e) && e == FormatError::ParseFailed),
        parsed matches Some(tree) ==> is_formatting_of(result, tree, source@, *config),
{
    match tree_or_failure(parsed) {
        Err(e) => Err(e),
        Ok(arena) => format_tree(&arena, source, config),
    }
}

/// Formats `source`: parses it, lays the tree out and accepts the result
/// only where the content check passes. Where the parser gives no tree the
/// result is the parse failure; else it is the formatting of the source
/// under the nodes of the tree that the parser gave.
pub fn format_source(parser: &mut Parser, source: &str, config: &LayoutConfig) -> (result: Result<
    String,
    FormatError,
>)
    ensures
        (result matches Err(e) && e == FormatError::ParseFailed) || exists|tree: Tree|
            #[trigger] is_formatting_of(result, tree, source@, *config),
{
    let parsed = parse_text(parser, source);
    let ghost given = parsed;
    let result = format_parsed(parsed, source, config);
    proof {
        if let Some(tree) = given {
            assert(is_formatting_of(result, tree, source@, *config));
        }
    }
    result
}

} // verus!
