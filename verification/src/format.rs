//! The formatting pass: one walk over the syntax tree that applies the
//! layout rules at every node, the final trim, and the content check that
//! accepts or rejects the result.

use vstd::prelude::*;
use crate::cursor::Walker;
use crate::error::FormatError;
use crate::kind::NodeKind;
use crate::layout::{
    emits, emitted_text, lemma_node_text_content, needs_text, visit, visit_node, LayoutConfig,
    LayoutState, NodeContext,
};
use crate::text::{
    content_count, is_blank_char, lemma_chars_fit_in_bytes, lemma_content_count_add,
    lemma_trim_idempotent, slice_text,
    span_text, trim, trim_text,
};
use crate::tree::{depth_of, SyntaxNode, SyntaxTree};

verus! {

/// Computes the content fingerprint of `source`.
pub fn get_len(source: &str) -> (n: usize)
    ensures
        n == content_count(source@),
{
    let limit = source.as_bytes().len();
    proof {
        lemma_chars_fit_in_bytes(source@);
    }
    let mut n: usize = 0;
    for c in it: source.chars()
        invariant
            it.seq() == source@,
            source@.len() <= limit,
            n == content_count(source@.take(it.index())),
            n <= it.index(),
    {
        proof {
            let i = it.index();
            assert(source@.take(i + 1).drop_last() =~= source@.take(i));
        }
        if !is_blank_char(c) {
            n = n + 1;
        }
    }
    assert(source@.take(source@.len() as int) =~= source@);
    n
}

/// The kind of the node that `link` points at.
pub open spec fn linked_kind(nodes: Seq<SyntaxNode>, link: Option<usize>) -> Option<NodeKind> {
    match link {
        Some(i) => Some(nodes[i as int].kind),
        None => None,
    }
}

/// The index of the parent of the node that `link` points at.
pub open spec fn linked_parent(nodes: Seq<SyntaxNode>, link: Option<usize>) -> Option<usize> {
    match link {
        Some(i) => nodes[i as int].parent,
        None => None,
    }
}

/// What the rules read of node `i` of the arena.
pub open spec fn context_at(nodes: Seq<SyntaxNode>, i: int) -> NodeContext {
    NodeContext {
        kind: nodes[i].kind,
        parent: linked_kind(nodes, nodes[i].parent),
        grandparent: linked_kind(nodes, linked_parent(nodes, nodes[i].parent)),
        leaf: nodes[i].first_child is None,
        depth: depth_of(nodes, i) as usize,
    }
}

/// The text that the span of node `i` holds in `source`.
pub open spec fn text_at(nodes: Seq<SyntaxNode>, source: Seq<char>, i: int) -> Option<Seq<char>> {
    span_text(source, nodes[i].start as int, nodes[i].end as int)
}

/// The pass over the first `count` nodes in document order: the layout state
/// after them and the output written so far, or the error of the first visit
/// that failed.
pub open spec fn pass(nodes: Seq<SyntaxNode>, source: Seq<char>, config: LayoutConfig, count: nat)
    -> Result<(LayoutState, Seq<char>), FormatError>
    decreases count,
{
    if count == 0 {
        Ok((LayoutState::initial(), Seq::empty()))
    } else {
        match pass(nodes, source, config, (count - 1) as nat) {
            Err(e) => Err(e),
            Ok((state, output)) => match visit(
                context_at(nodes, count - 1),
                text_at(nodes, source, count - 1),
                config,
                state,
            ) {
                Err(e) => Err(e),
                Ok((next, written)) => Ok((next, output + written)),
            },
        }
    }
}

/// The candidate output: what the pass over all nodes has written.
pub open spec fn laid_out(nodes: Seq<SyntaxNode>, source: Seq<char>, config: LayoutConfig)
    -> Result<Seq<char>, FormatError> {
    match pass(nodes, source, config, nodes.len()) {
        Err(e) => Err(e),
        Ok((_, output)) => Ok(output),
    }
}

/// The content check: the trimmed candidate where its fingerprint is
/// `source_len`, else the rejection.
pub open spec fn accepted(candidate: Seq<char>, source_len: nat) -> Result<
    Seq<char>,
    FormatError,
> {
    if content_count(trim(candidate)) == source_len {
        Ok(trim(candidate))
    } else {
        Err(FormatError::ContentMismatch)
    }
}

/// The formatted text of `source` with syntax tree `nodes`: the candidate
/// output, trimmed, where the pass succeeds and the content check accepts
/// it.
pub open spec fn formatted(nodes: Seq<SyntaxNode>, source: Seq<char>, config: LayoutConfig)
    -> Result<Seq<char>, FormatError> {
    match laid_out(nodes, source, config) {
        Err(e) => Err(e),
        Ok(candidate) => accepted(candidate, content_count(source)),
    }
}

/// A visit of a node whose text no rule writes does not depend on that
/// text.
pub proof fn lemma_visit_without_text(
    ctx: NodeContext,
    text: Option<Seq<char>>,
    config: LayoutConfig,
    state: LayoutState,
)
    requires
        !emits(ctx),
    ensures
        visit(ctx, text, config, state) == visit(ctx, None, config, state),
{
}

/// Reads what the rules need of the node that `walker` is at.
pub fn node_context(walker: &Walker) -> (ctx: NodeContext)
    ensures
        ctx == context_at(walker.nodes(), walker.position()),
{
    let tree = walker.tree();
    let i = walker.index();
    let node = tree.node(i);
    let depth = walker.depth();
    let mut parent: Option<NodeKind> = None;
    let mut grandparent: Option<NodeKind> = None;
    match node.parent {
        Some(p) => {
            let up = tree.node(p);
            parent = Some(up.kind);
            match up.parent {
                Some(g) => {
                    grandparent = Some(tree.node(g).kind);
                },
                None => {},
            }
        },
        None => {},
    }
    NodeContext { kind: node.kind, parent, grandparent, leaf: node.first_child.is_none(), depth }
}

/// Walks the tree and applies the layout rules at every node, in document
/// order. Returns the candidate output, untrimmed.
pub fn layout_tree(tree: &SyntaxTree, source: &str, config: &LayoutConfig) -> (result: Result<
    String,
    FormatError,
>)
    ensures
        match result {
            Ok(output) => laid_out(tree@, source@, *config) == Ok::<Seq<char>, FormatError>(
                output@,
            ),
            Err(e) => laid_out(tree@, source@, *config) == Err::<Seq<char>, FormatError>(e),
        },
{
    let mut walker = Walker::new(tree);
    let mut state = LayoutState::new();
    let mut output = String::new();
    let n = tree.len();
    loop
        invariant
            walker.nodes() == tree@,
            n == tree@.len(),
            0 <= walker.position() < n,
            pass(tree@, source@, *config, walker.position() as nat) == Ok::<
                (LayoutState, Seq<char>),
                FormatError,
            >((state, output@)),
        decreases n - walker.position(),
    {
        let ghost i = walker.position();
        let ctx = node_context(&walker);
        let node = walker.node();
        let text = if needs_text(&ctx) {
            slice_text(source, node.start, node.end)
        } else {
            None
        };
        proof {
            if !emits(ctx) {
                lemma_visit_without_text(ctx, text_at(tree@, source@, i), *config, state);
            }
        }
        match visit_node(&ctx, text, config, &mut state, &mut output) {
            Err(e) => {
                proof {
                    lemma_pass_fails_on(tree@, source@, *config, i + 1, n as int);
                }
                return Err(e);
            },
            Ok(_) => {},
        }
        if !walker.advance() {
            return Ok(output);
        }
    }
}

/// Once the pass over `count` nodes has failed, the pass over more nodes
/// fails in the same way.
pub proof fn lemma_pass_fails_on(
    nodes: Seq<SyntaxNode>,
    source: Seq<char>,
    config: LayoutConfig,
    count: int,
    more: int,
)
    requires
        0 <= count <= more,
        pass(nodes, source, config, count as nat) is Err,
    ensures
        pass(nodes, source, config, more as nat) == pass(nodes, source, config, count as nat),
    decreases more - count,
{
    if count < more {
        lemma_pass_fails_on(nodes, source, config, count, more - 1);
    }
}

/// The content check on a candidate output: trims it and compares its
/// fingerprint with `source_len`, that of the source.
pub fn accept(candidate: &str, source_len: usize) -> (result: Result<String, FormatError>)
    ensures
        match result {
            Ok(text) => accepted(candidate@, source_len as nat) == Ok::<Seq<char>, FormatError>(
                text@,
            ),
            Err(e) => accepted(candidate@, source_len as nat) == Err::<Seq<char>, FormatError>(e),
        },
{
    let text = trim_text(candidate);
    if get_len(text.as_str()) != source_len {
        Err(FormatError::ContentMismatch)
    } else {
        Ok(text)
    }
}

/// Formats `source`, whose syntax tree is `tree`: lays the tree out, trims
/// the result and accepts it only where its content fingerprint is that of
/// the source.
pub fn format_tree(tree: &SyntaxTree, source: &str, config: &LayoutConfig) -> (result: Result<
    String,
    FormatError,
>)
    ensures
        match result {
            Ok(text) => formatted(tree@, source@, *config) == Ok::<Seq<char>, FormatError>(text@),
            Err(e) => formatted(tree@, source@, *config) == Err::<Seq<char>, FormatError>(e),
        },
        result matches Ok(text) ==> content_count(text@) == content_count(source@),
{
    let source_len = get_len(source);
    match layout_tree(tree, source, config) {
        Err(e) => Err(e),
        Ok(candidate) => accept(candidate.as_str(), source_len),
    }
}

/// Content preservation: an accepted result has the content fingerprint of
/// the source, is trimmed, and a candidate whose trimmed text has another
/// fingerprint is rejected.
pub proof fn lemma_content_preserved(
    nodes: Seq<SyntaxNode>,
    source: Seq<char>,
    config: LayoutConfig,
)
    ensures
        formatted(nodes, source, config) matches Ok(text) ==> content_count(text) == content_count(
            source,
        ) && trim(text) == text,
        laid_out(nodes, source, config) matches Ok(candidate) ==> (content_count(trim(candidate))
            != content_count(source) <==> formatted(nodes, source, config) == Err::<
            Seq<char>,
            FormatError,
        >(FormatError::ContentMismatch)),
{
    match laid_out(nodes, source, config) {
        Ok(candidate) => {
            lemma_trim_idempotent(candidate);
        },
        Err(_) => {},
    }
}

/// Determinism: the result depends on nothing but the nodes, the characters
/// of the source and the indent widths.
pub proof fn lemma_deterministic(
    nodes: Seq<SyntaxNode>,
    source: Seq<char>,
    config: LayoutConfig,
    other_nodes: Seq<SyntaxNode>,
    other_source: Seq<char>,
    other_config: LayoutConfig,
)
    requires
        nodes =~= other_nodes,
        source =~= other_source,
        config == other_config,
    ensures
        formatted(nodes, source, config) == formatted(other_nodes, other_source, other_config),
{
}

/// The content that the text emission writes for the first `count` nodes:
/// for each node whose text it writes, the content of that text.
pub open spec fn emitted_content(nodes: Seq<SyntaxNode>, source: Seq<char>, count: nat) -> nat
    decreases count,
{
    if count == 0 {
        0
    } else {
        emitted_content(nodes, source, (count - 1) as nat) + content_count(
            emitted_text(
                context_at(nodes, count - 1),
                match text_at(nodes, source, count - 1) {
                    Some(text) => text,
                    None => Seq::empty(),
                },
            ),
        )
    }
}

/// The content of the output of a pass is what the text emission wrote:
/// every other rule adds blank characters only. So the content check fails
/// exactly where the emitted texts do not add up to the content of the
/// source.
pub proof fn lemma_pass_content(
    nodes: Seq<SyntaxNode>,
    source: Seq<char>,
    config: LayoutConfig,
    count: nat,
)
    ensures
        pass(nodes, source, config, count) matches Ok((_, output)) ==> content_count(output)
            == emitted_content(nodes, source, count),
    decreases count,
{
    if count > 0 {
        lemma_pass_content(nodes, source, config, (count - 1) as nat);
        match pass(nodes, source, config, (count - 1) as nat) {
            Ok((state, output)) => {
                let ctx = context_at(nodes, count - 1);
                let text = text_at(nodes, source, count - 1);
                match visit(ctx, text, config, state) {
                    Ok((next, written)) => {
                        lemma_node_text_content(
                            ctx,
                            next.indent_level as nat,
                            state.comment_before,
                            match text {
                                Some(t) => t,
                                None => Seq::empty(),
                            },
                        );
                        lemma_content_count_add(output, written);
                    },
                    Err(_) => {},
                }
            },
            Err(_) => {},
        }
    } else {
        assert(content_count(Seq::<char>::empty()) == 0);
    }
}

} // verus!
