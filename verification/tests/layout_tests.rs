use query_format::error::FormatError;
use query_format::kind::NodeKind;
use query_format::layout::{
    adapt_indent_level, add_space_after_colon, add_space_before_capture, add_space_before_comment,
    add_spacing_around_parameters, break_before_anonymous_name, break_before_list_close,
    break_before_nested_node, break_before_structure, check_grandparent, check_parent,
    indent_list_contents, needs_text, push_leading_text, push_text_to_output, separate_top_level,
    visit_node, LayoutConfig, LayoutState, NodeContext,
};

fn ctx(
    kind: NodeKind,
    parent: Option<NodeKind>,
    grandparent: Option<NodeKind>,
    leaf: bool,
    depth: usize,
) -> NodeContext {
    NodeContext { kind, parent, grandparent, leaf, depth }
}

fn widths() -> LayoutConfig {
    LayoutConfig { indent: 2, list_indent: 1 }
}

#[test]
fn default_widths_are_two_and_one() {
    assert_eq!(LayoutConfig::default(), LayoutConfig { indent: 2, list_indent: 1 });
}

#[test]
fn a_pass_starts_at_column_zero() {
    assert_eq!(LayoutState::new(), LayoutState { indent_level: 0, comment_before: false });
}

#[test]
fn check_parent_looks_at_the_parent_only() {
    let c = ctx(NodeKind::Identifier, Some(NodeKind::AnonymousNode), Some(NodeKind::List), true, 3);
    assert!(check_parent(NodeKind::AnonymousNode, &c));
    assert!(!check_parent(NodeKind::List, &c));
    assert!(check_grandparent(NodeKind::List, &c));
    assert!(!check_grandparent(NodeKind::AnonymousNode, &c));
    let root = ctx(NodeKind::Other, None, None, false, 0);
    assert!(!check_parent(NodeKind::Other, &root));
    assert!(!check_grandparent(NodeKind::Other, &root));
}

#[test]
fn parentheses_move_the_indent_by_the_nested_width() {
    let mut level = 4;
    assert_eq!(adapt_indent_level(NodeKind::OpenParen, &widths(), &mut level), Ok(()));
    assert_eq!(level, 6);
    assert_eq!(adapt_indent_level(NodeKind::CloseParen, &widths(), &mut level), Ok(()));
    assert_eq!(level, 4);
}

#[test]
fn brackets_move_the_indent_by_the_list_width() {
    let mut level = 4;
    assert_eq!(adapt_indent_level(NodeKind::OpenBracket, &widths(), &mut level), Ok(()));
    assert_eq!(level, 5);
    assert_eq!(adapt_indent_level(NodeKind::CloseBracket, &widths(), &mut level), Ok(()));
    assert_eq!(level, 4);
}

#[test]
fn the_widths_are_those_of_the_configuration() {
    let config = LayoutConfig { indent: 4, list_indent: 3 };
    let mut level = 0;
    assert_eq!(adapt_indent_level(NodeKind::OpenParen, &config, &mut level), Ok(()));
    assert_eq!(level, 4);
    assert_eq!(adapt_indent_level(NodeKind::OpenBracket, &config, &mut level), Ok(()));
    assert_eq!(level, 7);
}

#[test]
fn other_kinds_leave_the_indent_alone() {
    for kind in [NodeKind::Identifier, NodeKind::NamedNode, NodeKind::List, NodeKind::Colon,
        NodeKind::Quote, NodeKind::Comment, NodeKind::Other]
    {
        let mut level = 3;
        assert_eq!(adapt_indent_level(kind, &widths(), &mut level), Ok(()));
        assert_eq!(level, 3);
    }
}

#[test]
fn a_closer_without_an_opener_is_an_error() {
    let mut level = 1;
    assert_eq!(
        adapt_indent_level(NodeKind::CloseParen, &widths(), &mut level),
        Err(FormatError::IndentOutOfRange)
    );
    assert_eq!(level, 1);
    let mut level = 0;
    assert_eq!(
        adapt_indent_level(NodeKind::CloseBracket, &widths(), &mut level),
        Err(FormatError::IndentOutOfRange)
    );
    assert_eq!(level, 0);
}

#[test]
fn an_indent_beyond_the_counter_is_an_error() {
    let mut level = usize::MAX - 1;
    assert_eq!(
        adapt_indent_level(NodeKind::OpenParen, &widths(), &mut level),
        Err(FormatError::IndentOutOfRange)
    );
    assert_eq!(level, usize::MAX - 1);
    assert_eq!(adapt_indent_level(NodeKind::OpenBracket, &widths(), &mut level), Ok(()));
    assert_eq!(level, usize::MAX);
}

#[test]
fn field_definitions_and_predicates_start_a_line() {
    for kind in [NodeKind::FieldDefinition, NodeKind::Predicate] {
        let mut out = String::from("x");
        break_before_structure(&ctx(kind, Some(NodeKind::NamedNode), None, false, 2), &mut out, 2);
        assert_eq!(out, "x\n  ");
    }
    let mut out = String::from("x");
    break_before_structure(&ctx(NodeKind::NamedNode, None, None, false, 2), &mut out, 2);
    assert_eq!(out, "x");
}

#[test]
fn a_comment_after_a_form_gets_a_line_break() {
    let c = ctx(NodeKind::Comment, Some(NodeKind::Other), None, true, 1);
    let mut out = String::new();
    add_space_before_comment(&c, &mut out, false);
    assert_eq!(out, "\n");
    let mut out = String::new();
    add_space_before_comment(&c, &mut out, true);
    assert_eq!(out, "");
    let mut out = String::new();
    add_space_before_comment(&ctx(NodeKind::Identifier, None, None, true, 1), &mut out, false);
    assert_eq!(out, "");
}

#[test]
fn top_level_nodes_are_set_apart() {
    let mut out = String::new();
    separate_top_level(&ctx(NodeKind::NamedNode, Some(NodeKind::Other), None, false, 1), &mut out);
    assert_eq!(out, "\n\n");
    let mut out = String::new();
    separate_top_level(&ctx(NodeKind::Comment, Some(NodeKind::Other), None, true, 1), &mut out);
    assert_eq!(out, "\n");
    for depth in [0, 2, 3] {
        let mut out = String::new();
        separate_top_level(&ctx(NodeKind::NamedNode, None, None, false, depth), &mut out);
        assert_eq!(out, "");
    }
}

#[test]
fn a_capture_gets_a_space_outside_of_parameters() {
    let mut out = String::new();
    add_space_before_capture(
        &ctx(NodeKind::Capture, Some(NodeKind::NamedNode), None, false, 2),
        &mut out,
    );
    assert_eq!(out, " ");
    let mut out = String::new();
    add_space_before_capture(
        &ctx(NodeKind::Capture, Some(NodeKind::Parameters), None, false, 3),
        &mut out,
    );
    assert_eq!(out, "");
    let mut out = String::new();
    add_space_before_capture(&ctx(NodeKind::Identifier, None, None, true, 2), &mut out);
    assert_eq!(out, "");
}

#[test]
fn list_elements_start_a_line() {
    for kind in [NodeKind::AnonymousNode, NodeKind::NamedNode] {
        let mut out = String::new();
        indent_list_contents(&ctx(kind, Some(NodeKind::List), None, false, 2), &mut out, 1);
        assert_eq!(out, "\n ");
    }
    let mut out = String::new();
    indent_list_contents(
        &ctx(NodeKind::AnonymousNode, Some(NodeKind::NamedNode), None, false, 2),
        &mut out,
        1,
    );
    assert_eq!(out, "");
    let mut out = String::new();
    indent_list_contents(&ctx(NodeKind::List, Some(NodeKind::List), None, false, 2), &mut out, 1);
    assert_eq!(out, "");
}

#[test]
fn the_closing_bracket_of_a_list_starts_a_line() {
    let mut out = String::new();
    break_before_list_close(
        &ctx(NodeKind::CloseBracket, Some(NodeKind::List), None, true, 2),
        &mut out,
        0,
    );
    assert_eq!(out, "\n");
    let mut out = String::new();
    break_before_list_close(
        &ctx(NodeKind::CloseBracket, Some(NodeKind::Other), None, true, 2),
        &mut out,
        0,
    );
    assert_eq!(out, "");
}

#[test]
fn the_name_of_a_bare_anonymous_node_starts_a_line() {
    let mut out = String::new();
    break_before_anonymous_name(
        &ctx(NodeKind::Identifier, Some(NodeKind::AnonymousNode), Some(NodeKind::NamedNode), false, 3),
        &mut out,
        2,
    );
    assert_eq!(out, "\n  ");
    for grandparent in [NodeKind::List, NodeKind::Grouping] {
        let mut out = String::new();
        break_before_anonymous_name(
            &ctx(NodeKind::Identifier, Some(NodeKind::AnonymousNode), Some(grandparent), false, 3),
            &mut out,
            2,
        );
        assert_eq!(out, "");
    }
    let mut out = String::new();
    break_before_anonymous_name(
        &ctx(NodeKind::Identifier, Some(NodeKind::NamedNode), Some(NodeKind::Other), true, 2),
        &mut out,
        2,
    );
    assert_eq!(out, "");
}

#[test]
fn nodes_under_parameters_get_a_space() {
    let mut out = String::new();
    add_spacing_around_parameters(
        &ctx(NodeKind::StringLiteral, Some(NodeKind::Parameters), None, false, 4),
        &mut out,
    );
    assert_eq!(out, " ");
    let mut out = String::new();
    add_spacing_around_parameters(
        &ctx(NodeKind::StringLiteral, Some(NodeKind::Predicate), None, false, 4),
        &mut out,
    );
    assert_eq!(out, "");
}

#[test]
fn a_named_node_in_a_named_node_starts_a_line() {
    let mut out = String::new();
    break_before_nested_node(
        &ctx(NodeKind::NamedNode, Some(NodeKind::NamedNode), None, false, 2),
        &mut out,
        2,
    );
    assert_eq!(out, "\n  ");
    let mut out = String::new();
    break_before_nested_node(
        &ctx(NodeKind::NamedNode, Some(NodeKind::Other), None, false, 1),
        &mut out,
        2,
    );
    assert_eq!(out, "");
    let mut out = String::new();
    break_before_nested_node(
        &ctx(NodeKind::AnonymousNode, Some(NodeKind::NamedNode), None, false, 2),
        &mut out,
        2,
    );
    assert_eq!(out, "");
}

#[test]
fn a_colon_is_followed_by_a_space() {
    let mut out = String::from(":");
    add_space_after_colon(&ctx(NodeKind::Colon, None, None, true, 3), &mut out);
    assert_eq!(out, ": ");
    let mut out = String::from("a");
    add_space_after_colon(&ctx(NodeKind::Identifier, None, None, true, 3), &mut out);
    assert_eq!(out, "a");
}

#[test]
fn leaves_are_written_out() {
    let c = ctx(NodeKind::Identifier, Some(NodeKind::NamedNode), None, true, 2);
    assert!(needs_text(&c));
    let mut out = String::new();
    push_text_to_output(&c, &mut out, "a");
    assert_eq!(out, "a");
}

#[test]
fn inner_nodes_are_not_written_out() {
    let c = ctx(NodeKind::NamedNode, Some(NodeKind::Other), None, false, 1);
    assert!(!needs_text(&c));
    let mut out = String::new();
    push_text_to_output(&c, &mut out, "(a)");
    assert_eq!(out, "");
}

#[test]
fn a_lone_quote_is_not_written_out() {
    let c = ctx(NodeKind::Quote, Some(NodeKind::StringLiteral), None, true, 4);
    assert!(!needs_text(&c));
    let mut out = String::new();
    push_text_to_output(&c, &mut out, "\"");
    assert_eq!(out, "");
}

#[test]
fn an_escape_sequence_is_never_written_out() {
    let c = ctx(NodeKind::EscapeSequence, Some(NodeKind::StringLiteral), None, true, 4);
    assert!(!needs_text(&c));
    let mut out = String::new();
    push_text_to_output(&c, &mut out, "\\n");
    assert_eq!(out, "");
}

#[test]
fn a_string_is_written_out_whole() {
    let c = ctx(NodeKind::StringLiteral, Some(NodeKind::Parameters), None, false, 4);
    assert!(needs_text(&c));
    let mut out = String::new();
    push_text_to_output(&c, &mut out, "\"a\\nb\"");
    assert_eq!(out, "\"a\\nb\"");
}

#[test]
fn an_anonymous_node_in_a_list_is_written_out_whole() {
    let c = ctx(NodeKind::AnonymousNode, Some(NodeKind::List), None, false, 2);
    assert!(needs_text(&c));
    let mut out = String::new();
    push_text_to_output(&c, &mut out, "\"x\"");
    assert_eq!(out, "\"x\"");
    let name = ctx(NodeKind::Identifier, Some(NodeKind::AnonymousNode), Some(NodeKind::List), false, 3);
    assert!(!needs_text(&name));
    let mut out = String::new();
    push_text_to_output(&name, &mut out, "\"x\"");
    assert_eq!(out, "");
}

#[test]
fn the_name_of_an_anonymous_node_is_written_out_whole() {
    let c = ctx(NodeKind::Identifier, Some(NodeKind::AnonymousNode), Some(NodeKind::NamedNode), false, 3);
    assert!(needs_text(&c));
    let mut out = String::new();
    push_text_to_output(&c, &mut out, "\"b\"");
    assert_eq!(out, "\"b\"");
}

#[test]
fn text_is_written_once_where_two_cases_apply() {
    let item = ctx(NodeKind::AnonymousNode, Some(NodeKind::List), None, true, 2);
    assert!(needs_text(&item));
    let mut out = String::new();
    push_text_to_output(&item, &mut out, "_");
    assert_eq!(out, "_");
    let name = ctx(NodeKind::Identifier, Some(NodeKind::AnonymousNode), None, true, 3);
    assert!(needs_text(&name));
    let mut out = String::from("(");
    push_text_to_output(&name, &mut out, "x");
    assert_eq!(out, "(x");
}

#[test]
fn a_visit_writes_the_text_of_a_childless_anonymous_name_once() {
    let mut state = LayoutState { indent_level: 2, comment_before: false };
    let mut out = String::from("(a");
    let name =
        ctx(NodeKind::Identifier, Some(NodeKind::AnonymousNode), Some(NodeKind::NamedNode), true, 3);
    assert_eq!(visit_node(&name, Some("x"), &widths(), &mut state, &mut out), Ok(()));
    assert_eq!(out, "(a\n  x");
}

#[test]
fn the_rules_before_the_text_apply_in_their_order() {
    let c = ctx(NodeKind::Predicate, Some(NodeKind::Parameters), None, false, 1);
    let mut out = String::from("x");
    push_leading_text(&c, &mut out, 2, false);
    assert_eq!(out, "x\n  \n\n ");
    let c = ctx(NodeKind::Comment, Some(NodeKind::Parameters), None, true, 1);
    let mut out = String::from("x");
    push_leading_text(&c, &mut out, 2, false);
    assert_eq!(out, "x\n\n ");
    let c = ctx(NodeKind::NamedNode, Some(NodeKind::List), None, false, 1);
    let mut out = String::new();
    push_leading_text(&c, &mut out, 1, true);
    assert_eq!(out, "\n\n\n ");
}

#[test]
fn a_visit_adjusts_the_indent_before_it_writes() {
    let mut state = LayoutState { indent_level: 2, comment_before: true };
    let mut out = String::from("[");
    let c = ctx(NodeKind::CloseBracket, Some(NodeKind::List), None, true, 2);
    assert_eq!(visit_node(&c, Some("]"), &widths(), &mut state, &mut out), Ok(()));
    assert_eq!(out, "[\n ]");
    assert_eq!(state, LayoutState { indent_level: 1, comment_before: false });
}

#[test]
fn a_visit_notes_a_comment() {
    let mut state = LayoutState { indent_level: 0, comment_before: false };
    let mut out = String::from("(a)");
    let c = ctx(NodeKind::Comment, Some(NodeKind::Other), None, true, 1);
    assert_eq!(visit_node(&c, Some("; c"), &widths(), &mut state, &mut out), Ok(()));
    assert_eq!(out, "(a)\n\n; c");
    assert_eq!(state, LayoutState { indent_level: 0, comment_before: true });
    assert_eq!(visit_node(&c, Some("; d"), &widths(), &mut state, &mut out), Ok(()));
    assert_eq!(out, "(a)\n\n; c\n; d");
}

#[test]
fn a_visit_writes_a_colon_with_its_space() {
    let mut state = LayoutState { indent_level: 2, comment_before: false };
    let mut out = String::from("name");
    let c = ctx(NodeKind::Colon, Some(NodeKind::FieldDefinition), None, true, 3);
    assert_eq!(visit_node(&c, Some(":"), &widths(), &mut state, &mut out), Ok(()));
    assert_eq!(out, "name: ");
}

#[test]
fn a_visit_without_needed_text_fails() {
    let mut state = LayoutState::new();
    let mut out = String::new();
    let c = ctx(NodeKind::Identifier, Some(NodeKind::NamedNode), None, true, 2);
    assert_eq!(
        visit_node(&c, None, &widths(), &mut state, &mut out),
        Err(FormatError::SpanOutsideSource)
    );
    let inner = ctx(NodeKind::NamedNode, Some(NodeKind::Other), None, false, 2);
    assert_eq!(visit_node(&inner, None, &widths(), &mut state, &mut out), Ok(()));
}

#[test]
fn a_visit_of_an_unmatched_closer_fails() {
    let mut state = LayoutState::new();
    let mut out = String::new();
    let c = ctx(NodeKind::CloseParen, Some(NodeKind::Other), None, true, 1);
    assert_eq!(
        visit_node(&c, Some(")"), &widths(), &mut state, &mut out),
        Err(FormatError::IndentOutOfRange)
    );
}

#[test]
fn what_the_rules_add_carries_no_content() {
    for kind in [NodeKind::Predicate, NodeKind::Comment, NodeKind::Capture, NodeKind::NamedNode,
        NodeKind::AnonymousNode, NodeKind::CloseBracket, NodeKind::Identifier, NodeKind::Colon]
    {
        for parent in [NodeKind::List, NodeKind::NamedNode, NodeKind::Parameters,
            NodeKind::AnonymousNode]
        {
            for depth in [1, 2] {
                let c = ctx(kind, Some(parent), Some(NodeKind::Other), false, depth);
                let mut out = String::new();
                push_leading_text(&c, &mut out, 3, false);
                add_space_after_colon(&c, &mut out);
                assert_eq!(query_format::format::get_len(&out), 0);
            }
        }
    }
}
