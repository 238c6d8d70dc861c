//! The layout rules. Each rule looks at one visited node (its kind, the
//! kinds of its parent and grandparent, whether it has children, its nesting
//! depth) and at the layout state, and says what is appended to the output.
//! The rules are applied in a fixed order, which `leading_text` and
//! `node_text` spell out.

use vstd::prelude::*;
use crate::error::FormatError;
use crate::kind::NodeKind;
use crate::text::{
    content_count, lemma_append_assoc, lemma_blank_character, lemma_content_count_add,
    lemma_line_break_blank, line_break,
    push_line_break, push_newline, push_space,
};

verus! {

/// The two indent widths.
#[derive(Clone, Copy, Debug, PartialEq, Eq, Structural)]
pub struct LayoutConfig {
    /// Columns by which a parenthesis changes the indent level.
    pub indent: usize,
    /// Columns by which a list bracket changes the indent level.
    pub list_indent: usize,
}

impl Default for LayoutConfig {
    fn default() -> (config: LayoutConfig)
        ensures
            config == (LayoutConfig { indent: 2, list_indent: 1 }),
    {
        LayoutConfig { indent: 2, list_indent: 1 }
    }
}

/// What the rules read of a visited node.
#[derive(Clone, Copy, Debug, PartialEq, Eq, Structural)]
pub struct NodeContext {
    /// The node's kind.
    pub kind: NodeKind,
    /// The kind of its parent, if it has one.
    pub parent: Option<NodeKind>,
    /// The kind of its parent's parent, if there is one.
    pub grandparent: Option<NodeKind>,
    /// Whether the node has no children.
    pub leaf: bool,
    /// The nesting depth: the number of ancestors.
    pub depth: usize,
}

/// The state that is threaded through a pass.
#[derive(Clone, Copy, Debug, PartialEq, Eq, Structural)]
pub struct LayoutState {
    /// The column at which a new line starts.
    pub indent_level: usize,
    /// Whether the node visited last was a comment.
    pub comment_before: bool,
}

impl LayoutState {
    /// The state at the start of a pass.
    pub open spec fn initial() -> LayoutState {
        LayoutState { indent_level: 0, comment_before: false }
    }

    /// The state at the start of a pass.
    pub fn new() -> (state: LayoutState)
        ensures
            state == LayoutState::initial(),
    {
        LayoutState { indent_level: 0, comment_before: false }
    }
}

/// Whether the node's parent is of kind `kind`.
pub open spec fn has_parent(ctx: NodeContext, kind: NodeKind) -> bool {
    ctx.parent == Some(kind)
}

/// Whether the node's grandparent is of kind `kind`.
pub open spec fn has_grandparent(ctx: NodeContext, kind: NodeKind) -> bool {
    ctx.grandparent == Some(kind)
}

/// Indent adjustment: the indent level after a node of kind `kind`. An
/// opening parenthesis or bracket raises it by its width, a closing one
/// lowers it by the same, before the closing token is written.
pub open spec fn adapted_indent(kind: NodeKind, indent_level: int, config: LayoutConfig) -> int {
    match kind {
        NodeKind::OpenParen => indent_level + config.indent,
        NodeKind::CloseParen => indent_level - config.indent,
        NodeKind::OpenBracket => indent_level + config.list_indent,
        NodeKind::CloseBracket => indent_level - config.list_indent,
        _ => indent_level,
    }
}

/// Structural break: a field definition and a predicate start a new line.
pub open spec fn structural_break(ctx: NodeContext, indent_level: nat) -> Seq<char> {
    if ctx.kind == NodeKind::FieldDefinition || ctx.kind == NodeKind::Predicate {
        line_break(indent_level)
    } else {
        Seq::empty()
    }
}

/// Comment spacing: a comment that follows a node that is none gets a line
/// break before it.
pub open spec fn comment_spacing(ctx: NodeContext, comment_before: bool) -> Seq<char> {
    if ctx.kind == NodeKind::Comment && !comment_before {
        seq!['\n']
    } else {
        Seq::empty()
    }
}

/// Top-level separation: a node at depth 1 gets a line break before it, and a
/// second one unless it is a comment.
pub open spec fn top_level_separation(ctx: NodeContext) -> Seq<char> {
    if ctx.depth == 1 {
        if ctx.kind != NodeKind::Comment {
            seq!['\n', '\n']
        } else {
            seq!['\n']
        }
    } else {
        Seq::empty()
    }
}

/// Capture spacing: a capture outside of parameters gets a space before it.
pub open spec fn capture_spacing(ctx: NodeContext) -> Seq<char> {
    if ctx.kind == NodeKind::Capture && !has_parent(ctx, NodeKind::Parameters) {
        seq![' ']
    } else {
        Seq::empty()
    }
}

/// List element layout: an anonymous or named node in a list starts a new
/// line.
pub open spec fn list_element_break(ctx: NodeContext, indent_level: nat) -> Seq<char> {
    if (ctx.kind == NodeKind::AnonymousNode || ctx.kind == NodeKind::NamedNode) && has_parent(
        ctx,
        NodeKind::List,
    ) {
        line_break(indent_level)
    } else {
        Seq::empty()
    }
}

/// List element layout: the closing bracket of a list starts a new line.
pub open spec fn list_close_break(ctx: NodeContext, indent_level: nat) -> Seq<char> {
    if ctx.kind == NodeKind::CloseBracket && has_parent(ctx, NodeKind::List) {
        line_break(indent_level)
    } else {
        Seq::empty()
    }
}

/// Anonymous-node identifier layout: the identifier of an anonymous node
/// that stands neither in a list nor in a grouping starts a new line.
pub open spec fn anonymous_identifier_break(ctx: NodeContext, indent_level: nat) -> Seq<char> {
    if ctx.kind == NodeKind::Identifier && has_parent(ctx, NodeKind::AnonymousNode)
        && !has_grandparent(ctx, NodeKind::List) && !has_grandparent(ctx, NodeKind::Grouping) {
        line_break(indent_level)
    } else {
        Seq::empty()
    }
}

/// Parameter spacing: a node under parameters gets a space.
pub open spec fn parameter_spacing(ctx: NodeContext) -> Seq<char> {
    if has_parent(ctx, NodeKind::Parameters) {
        seq![' ']
    } else {
        Seq::empty()
    }
}

/// Named-node nesting: a named node inside a named node starts a new line.
pub open spec fn nested_node_break(ctx: NodeContext, indent_level: nat) -> Seq<char> {
    if ctx.kind == NodeKind::NamedNode && has_parent(ctx, NodeKind::NamedNode) {
        line_break(indent_level)
    } else {
        Seq::empty()
    }
}

/// Text emission: a node without children is written out, unless it is a
/// lone quote; a string is written out whole.
pub open spec fn emits_token(ctx: NodeContext) -> bool {
    ctx.kind != NodeKind::EscapeSequence && ((ctx.leaf && ctx.kind != NodeKind::Quote) || ctx.kind
        == NodeKind::StringLiteral)
}

/// Text emission: an anonymous node in a list is written out whole.
pub open spec fn emits_list_item(ctx: NodeContext) -> bool {
    ctx.kind == NodeKind::AnonymousNode && has_parent(ctx, NodeKind::List)
}

/// Text emission: the identifier of an anonymous node is written out whole,
/// unless the anonymous node stands in a list and was written out itself.
pub open spec fn emits_anonymous_name(ctx: NodeContext) -> bool {
    ctx.kind == NodeKind::Identifier && has_parent(ctx, NodeKind::AnonymousNode) && !has_grandparent(
        ctx,
        NodeKind::List,
    )
}

/// Whether one of the cases of the text emission applies to the node.
pub open spec fn emits(ctx: NodeContext) -> bool {
    emits_token(ctx) || emits_list_item(ctx) || emits_anonymous_name(ctx)
}

/// Text emission: the node's text, written once where one of the cases
/// applies, however many of them do. An escape sequence is never written:
/// the string around it is.
pub open spec fn emitted_text(ctx: NodeContext, text: Seq<char>) -> Seq<char> {
    if emits(ctx) {
        text
    } else {
        Seq::empty()
    }
}

/// Colon spacing: a colon is followed by a space.
pub open spec fn colon_spacing(ctx: NodeContext) -> Seq<char> {
    if ctx.kind == NodeKind::Colon {
        seq![' ']
    } else {
        Seq::empty()
    }
}

/// What a visit writes before the node's own text: the rules from the
/// structural break to the named-node nesting, in their order.
/// `indent_level` is the level after the indent adjustment for this node.
pub open spec fn leading_text(ctx: NodeContext, indent_level: nat, comment_before: bool) -> Seq<
    char,
> {
    structural_break(ctx, indent_level) + comment_spacing(ctx, comment_before)
        + top_level_separation(ctx) + capture_spacing(ctx) + list_element_break(ctx, indent_level)
        + list_close_break(ctx, indent_level) + anonymous_identifier_break(ctx, indent_level)
        + parameter_spacing(ctx) + nested_node_break(ctx, indent_level)
}

/// Everything that a visit writes, for a node with source text `text`.
pub open spec fn node_text(
    ctx: NodeContext,
    indent_level: nat,
    comment_before: bool,
    text: Seq<char>,
) -> Seq<char> {
    leading_text(ctx, indent_level, comment_before) + emitted_text(ctx, text) + colon_spacing(ctx)
}

/// One visit: the state after it and what it writes. `text` is the node's
/// source text, where its span holds one. The visit fails where the indent
/// adjustment leaves the range of the counter, and where the node's text is
/// to be written and there is none.
pub open spec fn visit(
    ctx: NodeContext,
    text: Option<Seq<char>>,
    config: LayoutConfig,
    state: LayoutState,
) -> Result<(LayoutState, Seq<char>), FormatError> {
    let indent = adapted_indent(ctx.kind, state.indent_level as int, config);
    if indent < 0 || indent > usize::MAX {
        Err(FormatError::IndentOutOfRange)
    } else if emits(ctx) && text is None {
        Err(FormatError::SpanOutsideSource)
    } else {
        Ok(
            (
                LayoutState {
                    indent_level: indent as usize,
                    comment_before: ctx.kind == NodeKind::Comment,
                },
                node_text(
                    ctx,
                    indent as nat,
                    state.comment_before,
                    match text {
                        Some(t) => t,
                        None => Seq::empty(),
                    },
                ),
            ),
        )
    }
}

/// Tells whether the node's parent is of kind `parent_kind`.
pub fn check_parent(parent_kind: NodeKind, ctx: &NodeContext) -> (found: bool)
    ensures
        found == has_parent(*ctx, parent_kind),
{
    match ctx.parent {
        Some(kind) => kind == parent_kind,
        None => false,
    }
}

/// Tells whether the node's grandparent is of kind `kind`.
pub fn check_grandparent(kind: NodeKind, ctx: &NodeContext) -> (found: bool)
    ensures
        found == has_grandparent(*ctx, kind),
{
    match ctx.grandparent {
        Some(found) => found == kind,
        None => false,
    }
}

/// Applies the indent adjustment for a node of kind `kind` to
/// `indent_level`. Fails, and leaves the level as it is, where the new level
/// would be negative or beyond the counter's range.
pub fn adapt_indent_level(kind: NodeKind, config: &LayoutConfig, indent_level: &mut usize) -> (done:
    Result<(), FormatError>)
    ensures
        match done {
            Ok(_) => *final(indent_level) == adapted_indent(kind, *old(indent_level) as int, *config),
            Err(e) => {
                &&& e == FormatError::IndentOutOfRange
                &&& *final(indent_level) == *old(indent_level)
                &&& {
                    let indent = adapted_indent(kind, *old(indent_level) as int, *config);
                    indent < 0 || indent > usize::MAX
                }
            },
        },
{
    let adapted = match kind {
        NodeKind::OpenParen => indent_level.checked_add(config.indent),
        NodeKind::CloseParen => indent_level.checked_sub(config.indent),
        NodeKind::OpenBracket => indent_level.checked_add(config.list_indent),
        NodeKind::CloseBracket => indent_level.checked_sub(config.list_indent),
        _ => Some(*indent_level),
    };
    match adapted {
        Some(level) => {
            *indent_level = level;
            Ok(())
        },
        None => Err(FormatError::IndentOutOfRange),
    }
}

/// Applies the structural break.
pub fn break_before_structure(ctx: &NodeContext, output: &mut String, indent_level: usize)
    ensures
        final(output)@ == old(output)@ + structural_break(*ctx, indent_level as nat),
{
    if ctx.kind == NodeKind::FieldDefinition || ctx.kind == NodeKind::Predicate {
        push_line_break(output, indent_level);
    } else {
        assert(output@ =~= old(output)@ + Seq::<char>::empty());
    }
}

/// Applies the comment spacing.
pub fn add_space_before_comment(ctx: &NodeContext, output: &mut String, comment_before: bool)
    ensures
        final(output)@ == old(output)@ + comment_spacing(*ctx, comment_before),
{
    if ctx.kind == NodeKind::Comment && !comment_before {
        push_newline(output);
    } else {
        assert(output@ =~= old(output)@ + Seq::<char>::empty());
    }
}

/// Applies the top-level separation.
pub fn separate_top_level(ctx: &NodeContext, output: &mut String)
    ensures
        final(output)@ == old(output)@ + top_level_separation(*ctx),
{
    if ctx.depth == 1 {
        push_newline(output);
        if ctx.kind != NodeKind::Comment {
            push_newline(output);
            assert(output@ =~= old(output)@ + seq!['\n', '\n']);
        }
    } else {
        assert(output@ =~= old(output)@ + Seq::<char>::empty());
    }
}

/// Applies the capture spacing.
pub fn add_space_before_capture(ctx: &NodeContext, output: &mut String)
    ensures
        final(output)@ == old(output)@ + capture_spacing(*ctx),
{
    if ctx.kind == NodeKind::Capture && !check_parent(NodeKind::Parameters, ctx) {
        push_space(output);
    } else {
        assert(output@ =~= old(output)@ + Seq::<char>::empty());
    }
}

/// Applies the first half of the list element layout: an anonymous or
/// named node in a list starts a new line.
pub fn indent_list_contents(ctx: &NodeContext, output: &mut String, indent_level: usize)
    ensures
        final(output)@ == old(output)@ + list_element_break(*ctx, indent_level as nat),
{
    if (ctx.kind == NodeKind::AnonymousNode || ctx.kind == NodeKind::NamedNode) && check_parent(
        NodeKind::List,
        ctx,
    ) {
        push_line_break(output, indent_level);
    } else {
        assert(output@ =~= old(output)@ + Seq::<char>::empty());
    }
}

/// Applies the second half of the list element layout: the closing bracket
/// of a list starts a new line.
pub fn break_before_list_close(ctx: &NodeContext, output: &mut String, indent_level: usize)
    ensures
        final(output)@ == old(output)@ + list_close_break(*ctx, indent_level as nat),
{
    if ctx.kind == NodeKind::CloseBracket && check_parent(NodeKind::List, ctx) {
        push_line_break(output, indent_level);
    } else {
        assert(output@ =~= old(output)@ + Seq::<char>::empty());
    }
}

/// Applies the anonymous-node identifier layout.
pub fn break_before_anonymous_name(ctx: &NodeContext, output: &mut String, indent_level: usize)
    ensures
        final(output)@ == old(output)@ + anonymous_identifier_break(*ctx, indent_level as nat),
{
    if ctx.kind == NodeKind::Identifier && check_parent(NodeKind::AnonymousNode, ctx)
        && !check_grandparent(NodeKind::List, ctx) && !check_grandparent(NodeKind::Grouping, ctx) {
        push_line_break(output, indent_level);
    } else {
        assert(output@ =~= old(output)@ + Seq::<char>::empty());
    }
}

/// Applies the parameter spacing.
pub fn add_spacing_around_parameters(ctx: &NodeContext, output: &mut String)
    ensures
        final(output)@ == old(output)@ + parameter_spacing(*ctx),
{
    if check_parent(NodeKind::Parameters, ctx) {
        push_space(output);
    } else {
        assert(output@ =~= old(output)@ + Seq::<char>::empty());
    }
}

/// Applies the named-node nesting.
pub fn break_before_nested_node(ctx: &NodeContext, output: &mut String, indent_level: usize)
    ensures
        final(output)@ == old(output)@ + nested_node_break(*ctx, indent_level as nat),
{
    if check_parent(NodeKind::NamedNode, ctx) && ctx.kind == NodeKind::NamedNode {
        push_line_break(output, indent_level);
    } else {
        assert(output@ =~= old(output)@ + Seq::<char>::empty());
    }
}

/// Applies the text emission, with `text` the node's source text: appends
/// the text once where one of the cases applies, and nothing else.
pub fn push_text_to_output(ctx: &NodeContext, output: &mut String, text: &str)
    ensures
        final(output)@ == old(output)@ + emitted_text(*ctx, text@),
{
    if needs_text(ctx) {
        output.append(text);
    } else {
        assert(output@ =~= old(output)@ + Seq::<char>::empty());
    }
}

/// Applies the colon spacing.
pub fn add_space_after_colon(ctx: &NodeContext, output: &mut String)
    ensures
        final(output)@ == old(output)@ + colon_spacing(*ctx),
{
    if ctx.kind == NodeKind::Colon {
        push_space(output);
    } else {
        assert(output@ =~= old(output)@ + Seq::<char>::empty());
    }
}

/// Tells whether the text emission writes the node's text.
pub fn needs_text(ctx: &NodeContext) -> (needed: bool)
    ensures
        needed == emits(*ctx),
{
    if ctx.kind == NodeKind::EscapeSequence {
        return false;
    }
    (ctx.leaf && ctx.kind != NodeKind::Quote) || ctx.kind == NodeKind::StringLiteral || (ctx.kind
        == NodeKind::AnonymousNode && check_parent(NodeKind::List, ctx)) || (ctx.kind
        == NodeKind::Identifier && check_parent(NodeKind::AnonymousNode, ctx) && !check_grandparent(
        NodeKind::List,
        ctx,
    ))
}

/// Writes what comes before the node's own text: the rules from the
/// structural break to the named-node nesting, in their order.
pub fn push_leading_text(
    ctx: &NodeContext,
    output: &mut String,
    indent_level: usize,
    comment_before: bool,
)
    ensures
        final(output)@ == old(output)@ + leading_text(*ctx, indent_level as nat, comment_before),
{
    let ghost indent = indent_level as nat;
    let ghost start = output@;
    let ghost done = structural_break(*ctx, indent);
    break_before_structure(ctx, output, indent_level);
    add_space_before_comment(ctx, output, comment_before);
    proof {
        lemma_append_assoc(start, done, comment_spacing(*ctx, comment_before));
        done = done + comment_spacing(*ctx, comment_before);
    }
    separate_top_level(ctx, output);
    proof {
        lemma_append_assoc(start, done, top_level_separation(*ctx));
        done = done + top_level_separation(*ctx);
    }
    add_space_before_capture(ctx, output);
    proof {
        lemma_append_assoc(start, done, capture_spacing(*ctx));
        done = done + capture_spacing(*ctx);
    }
    indent_list_contents(ctx, output, indent_level);
    proof {
        lemma_append_assoc(start, done, list_element_break(*ctx, indent));
        done = done + list_element_break(*ctx, indent);
    }
    break_before_list_close(ctx, output, indent_level);
    proof {
        lemma_append_assoc(start, done, list_close_break(*ctx, indent));
        done = done + list_close_break(*ctx, indent);
    }
    break_before_anonymous_name(ctx, output, indent_level);
    proof {
        lemma_append_assoc(start, done, anonymous_identifier_break(*ctx, indent));
        done = done + anonymous_identifier_break(*ctx, indent);
    }
    add_spacing_around_parameters(ctx, output);
    proof {
        lemma_append_assoc(start, done, parameter_spacing(*ctx));
        done = done + parameter_spacing(*ctx);
    }
    break_before_nested_node(ctx, output, indent_level);
    proof {
        lemma_append_assoc(start, done, nested_node_break(*ctx, indent));
    }
}

/// The characters of `text`, where there is one.
pub open spec fn text_view(text: Option<&str>) -> Option<Seq<char>> {
    match text {
        Some(t) => Some(t@),
        None => None,
    }
}

/// What the text emission appends is nothing or the node's text: where two
/// of its cases apply to one node, as to a childless identifier of an
/// anonymous node outside a list and to a childless anonymous node in a
/// list, the text is still written once.
pub proof fn lemma_text_written_once(ctx: NodeContext, text: Seq<char>)
    ensures
        emitted_text(ctx, text) == text || emitted_text(ctx, text) == Seq::<char>::empty(),
        emits(ctx) ==> emitted_text(ctx, text) == text,
        ctx.leaf && ctx.kind == NodeKind::Identifier && has_parent(ctx, NodeKind::AnonymousNode)
            && !has_grandparent(ctx, NodeKind::List) ==> emitted_text(ctx, text) == text,
        ctx.leaf && ctx.kind == NodeKind::AnonymousNode && has_parent(ctx, NodeKind::List)
            ==> emitted_text(ctx, text) == text,
{
}

/// A node whose text no rule writes gets no text written.
pub proof fn lemma_nothing_emitted(ctx: NodeContext, text: Seq<char>)
    requires
        !emits(ctx),
    ensures
        emitted_text(ctx, text) == Seq::<char>::empty(),
{
}

/// Visits one node: adjusts the indent level, writes what the rules call
/// for, and notes whether the node was a comment. `text` is the node's
/// source text where its span holds one.
///
/// On an error the pass is over: `state` and `output` are then left in
/// the middle of the visit.
pub fn visit_node(
    ctx: &NodeContext,
    text: Option<&str>,
    config: &LayoutConfig,
    state: &mut LayoutState,
    output: &mut String,
) -> (done: Result<(), FormatError>)
    ensures
        match done {
            Ok(_) => {
                &&& visit(*ctx, text_view(text), *config, *old(state)) matches Ok((next, written))
                &&& *final(state) == next
                &&& final(output)@ == old(output)@ + written
            },
            Err(e) => visit(*ctx, text_view(text), *config, *old(state)) == Err::<
                (LayoutState, Seq<char>),
                FormatError,
            >(e),
        },
{
    let mut indent_level = state.indent_level;
    let comment_before = state.comment_before;
    match adapt_indent_level(ctx.kind, config, &mut indent_level) {
        Err(e) => {
            return Err(e);
        },
        Ok(_) => {},
    }
    if needs_text(ctx) && text.is_none() {
        return Err(FormatError::SpanOutsideSource);
    }
    *state = LayoutState { indent_level, comment_before: ctx.kind == NodeKind::Comment };
    let ghost start = output@;
    let ghost leading = leading_text(*ctx, indent_level as nat, comment_before);
    let ghost body = emitted_text(
        *ctx,
        match text {
            Some(t) => t@,
            None => Seq::empty(),
        },
    );
    push_leading_text(ctx, output, indent_level, comment_before);
    match text {
        Some(t) => {
            push_text_to_output(ctx, output, t);
        },
        None => {
            proof {
                lemma_nothing_emitted(*ctx, Seq::empty());
                assert(output@ =~= start + leading + body);
            }
        },
    }
    add_space_after_colon(ctx, output);
    proof {
        lemma_append_assoc(start, leading, body);
        lemma_append_assoc(start, leading + body, colon_spacing(*ctx));
    }
    Ok(())
}

/// A comment at the top level that follows a node that is no comment is
/// written after one blank line.
pub proof fn lemma_comment_after_form(ctx: NodeContext, indent_level: nat, text: Seq<char>)
    requires
        ctx.kind == NodeKind::Comment,
        ctx.depth == 1,
        ctx.leaf,
        !has_parent(ctx, NodeKind::Parameters),
    ensures
        node_text(ctx, indent_level, false, text) == seq!['\n', '\n'] + text,
{
    assert(node_text(ctx, indent_level, false, text) =~= seq!['\n', '\n'] + text);
}

/// A comment at the top level that follows a comment is written on the next
/// line, with no blank line between the two.
pub proof fn lemma_comment_after_comment(ctx: NodeContext, indent_level: nat, text: Seq<char>)
    requires
        ctx.kind == NodeKind::Comment,
        ctx.depth == 1,
        ctx.leaf,
        !has_parent(ctx, NodeKind::Parameters),
    ensures
        node_text(ctx, indent_level, true, text) == seq!['\n'] + text,
{
    assert(node_text(ctx, indent_level, true, text) =~= seq!['\n'] + text);
}

/// A form at the top level is set off from what stands before it by one
/// blank line, whatever the layout state.
pub proof fn lemma_top_level_form(ctx: NodeContext, indent_level: nat, comment_before: bool)
    requires
        ctx.depth == 1,
        ctx.kind == NodeKind::NamedNode || ctx.kind == NodeKind::AnonymousNode || ctx.kind
            == NodeKind::List || ctx.kind == NodeKind::Grouping,
        !has_parent(ctx, NodeKind::List),
        !has_parent(ctx, NodeKind::NamedNode),
        !has_parent(ctx, NodeKind::Parameters),
    ensures
        leading_text(ctx, indent_level, comment_before) == seq!['\n', '\n'],
{
    assert(leading_text(ctx, indent_level, comment_before) =~= seq!['\n', '\n']);
}

/// A named node inside a named node, below the top level, starts a new line
/// at the indent level.
pub proof fn lemma_nested_form(ctx: NodeContext, indent_level: nat, comment_before: bool)
    requires
        ctx.kind == NodeKind::NamedNode,
        has_parent(ctx, NodeKind::NamedNode),
        ctx.depth != 1,
    ensures
        leading_text(ctx, indent_level, comment_before) == line_break(indent_level),
{
    assert(leading_text(ctx, indent_level, comment_before) =~= line_break(indent_level));
}

/// An anonymous node in a list, below the top level, is written out whole
/// on a line of its own at the indent level.
pub proof fn lemma_list_item(
    ctx: NodeContext,
    indent_level: nat,
    comment_before: bool,
    text: Seq<char>,
)
    requires
        ctx.kind == NodeKind::AnonymousNode,
        has_parent(ctx, NodeKind::List),
        !ctx.leaf,
        ctx.depth != 1,
    ensures
        node_text(ctx, indent_level, comment_before, text) == line_break(indent_level) + text,
{
    assert(node_text(ctx, indent_level, comment_before, text) =~= line_break(indent_level) + text);
}

/// The closing bracket of a list, below the top level, stands on a line of
/// its own at the indent level.
pub proof fn lemma_list_close(
    ctx: NodeContext,
    indent_level: nat,
    comment_before: bool,
    text: Seq<char>,
)
    requires
        ctx.kind == NodeKind::CloseBracket,
        has_parent(ctx, NodeKind::List),
        ctx.leaf,
        ctx.depth != 1,
    ensures
        node_text(ctx, indent_level, comment_before, text) == line_break(indent_level) + text,
{
    assert(node_text(ctx, indent_level, comment_before, text) =~= line_break(indent_level) + text);
}

/// A closing bracket undoes what the opening one of its kind did to the
/// indent level.
pub proof fn lemma_brackets_balance(indent_level: int, config: LayoutConfig)
    ensures
        adapted_indent(
            NodeKind::CloseParen,
            adapted_indent(NodeKind::OpenParen, indent_level, config),
            config,
        ) == indent_level,
        adapted_indent(
            NodeKind::CloseBracket,
            adapted_indent(NodeKind::OpenBracket, indent_level, config),
            config,
        ) == indent_level,
{
}

/// What a visit writes before the node's own text carries no content.
pub proof fn lemma_leading_text_blank(ctx: NodeContext, indent_level: nat, comment_before: bool)
    ensures
        content_count(leading_text(ctx, indent_level, comment_before)) == 0,
{
    lemma_line_break_blank(indent_level);
    let newline = seq!['\n'];
    let space = seq![' '];
    lemma_blank_character('\n');
    lemma_blank_character(' ');
    lemma_content_count_add(newline, newline);
    assert(newline + newline =~= seq!['\n', '\n']);
    let p1 = structural_break(ctx, indent_level);
    let p2 = p1 + comment_spacing(ctx, comment_before);
    lemma_content_count_add(p1, comment_spacing(ctx, comment_before));
    let p3 = p2 + top_level_separation(ctx);
    lemma_content_count_add(p2, top_level_separation(ctx));
    let p4 = p3 + capture_spacing(ctx);
    lemma_content_count_add(p3, capture_spacing(ctx));
    let p5 = p4 + list_element_break(ctx, indent_level);
    lemma_content_count_add(p4, list_element_break(ctx, indent_level));
    let p6 = p5 + list_close_break(ctx, indent_level);
    lemma_content_count_add(p5, list_close_break(ctx, indent_level));
    let p7 = p6 + anonymous_identifier_break(ctx, indent_level);
    lemma_content_count_add(p6, anonymous_identifier_break(ctx, indent_level));
    let p8 = p7 + parameter_spacing(ctx);
    lemma_content_count_add(p7, parameter_spacing(ctx));
    lemma_content_count_add(p8, nested_node_break(ctx, indent_level));
}

/// The rules add blank characters only: the content of what a visit writes
/// is that of the node's text where the text emission writes it, else none.
pub proof fn lemma_node_text_content(
    ctx: NodeContext,
    indent_level: nat,
    comment_before: bool,
    text: Seq<char>,
)
    ensures
        content_count(node_text(ctx, indent_level, comment_before, text)) == content_count(
            emitted_text(ctx, text),
        ),
{
    lemma_leading_text_blank(ctx, indent_level, comment_before);
    let leading = leading_text(ctx, indent_level, comment_before);
    lemma_content_count_add(leading, emitted_text(ctx, text));
    lemma_content_count_add(leading + emitted_text(ctx, text), colon_spacing(ctx));
    lemma_blank_character(' ');
}

/// Nesting indentation: where a named node opens with its parenthesis and
/// its name and a named node follows inside it, the inner node starts a new
/// line that is indented by the nested width more than the level at which
/// the outer node was opened. The parenthesis and the name are written as
/// they are, with nothing between them.
pub proof fn lemma_nested_form_indent(
    open: NodeContext,
    name: NodeContext,
    inner: NodeContext,
    open_text: Seq<char>,
    name_text: Seq<char>,
    inner_text: Option<Seq<char>>,
    config: LayoutConfig,
    state: LayoutState,
)
    requires
        open.kind == NodeKind::OpenParen,
        name.kind == NodeKind::Identifier,
        inner.kind == NodeKind::NamedNode,
        open.leaf && name.leaf && !inner.leaf,
        open.depth != 1 && name.depth != 1 && inner.depth != 1,
        has_parent(open, NodeKind::NamedNode),
        has_parent(name, NodeKind::NamedNode),
        has_parent(inner, NodeKind::NamedNode),
        state.indent_level + config.indent <= usize::MAX,
    ensures
        ({
            let deeper = (state.indent_level + config.indent) as usize;
            let inside = LayoutState { indent_level: deeper, comment_before: false };
            &&& visit(open, Some(open_text), config, state) == Ok::<
                (LayoutState, Seq<char>),
                FormatError,
            >((inside, open_text))
            &&& visit(name, Some(name_text), config, inside) == Ok::<
                (LayoutState, Seq<char>),
                FormatError,
            >((inside, name_text))
            &&& visit(inner, inner_text, config, inside) == Ok::<
                (LayoutState, Seq<char>),
                FormatError,
            >((inside, line_break(deeper as nat)))
        }),
{
    let deeper = (state.indent_level + config.indent) as usize;
    let inside = LayoutState { indent_level: deeper, comment_before: false };
    assert(node_text(open, deeper as nat, state.comment_before, open_text) =~= open_text);
    assert(node_text(name, deeper as nat, false, name_text) =~= name_text);
    let text = match inner_text {
        Some(t) => t,
        None => Seq::empty(),
    };
    assert(node_text(inner, deeper as nat, false, text) =~= line_break(deeper as nat));
}

} // verus!
