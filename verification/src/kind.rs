//! The closed vocabulary of node kinds that the layout rules tell apart.

use vstd::prelude::*;
use vstd::utf8::*;

verus! {

/// The kind of a syntax node. Every kind that no layout rule names is
/// `Other`.
#[derive(Clone, Copy, Debug, PartialEq, Eq, Structural)]
pub enum NodeKind {
    List,
    NamedNode,
    AnonymousNode,
    Identifier,
    Capture,
    Predicate,
    FieldDefinition,
    Comment,
    StringLiteral,
    EscapeSequence,
    Parameters,
    Grouping,
    OpenParen,
    CloseParen,
    OpenBracket,
    CloseBracket,
    Colon,
    Quote,
    Other,
}

/// The kind that the grammar's name for a node stands for.
pub open spec fn kind_of_name(name: Seq<char>) -> NodeKind {
    if name == "list"@ {
        NodeKind::List
    } else if name == "named_node"@ {
        NodeKind::NamedNode
    } else if name == "anonymous_node"@ {
        NodeKind::AnonymousNode
    } else if name == "identifier"@ {
        NodeKind::Identifier
    } else if name == "capture"@ {
        NodeKind::Capture
    } else if name == "predicate"@ {
        NodeKind::Predicate
    } else if name == "field_definition"@ {
        NodeKind::FieldDefinition
    } else if name == "comment"@ {
        NodeKind::Comment
    } else if name == "string"@ {
        NodeKind::StringLiteral
    } else if name == "escape_sequence"@ {
        NodeKind::EscapeSequence
    } else if name == "parameters"@ {
        NodeKind::Parameters
    } else if name == "grouping"@ {
        NodeKind::Grouping
    } else if name == "("@ {
        NodeKind::OpenParen
    } else if name == ")"@ {
        NodeKind::CloseParen
    } else if name == "["@ {
        NodeKind::OpenBracket
    } else if name == "]"@ {
        NodeKind::CloseBracket
    } else if name == ":"@ {
        NodeKind::Colon
    } else if name == "\""@ {
        NodeKind::Quote
    } else {
        NodeKind::Other
    }
}

/// Compares two texts character by character.
pub fn same_text(a: &str, b: &str) -> (same: bool)
    ensures
        same == (a@ == b@),
{
    let x = a.as_bytes();
    let y = b.as_bytes();
    proof {
        encode_utf8_decode_utf8(a@);
        encode_utf8_decode_utf8(b@);
    }
    if x.len() != y.len() {
        return false;
    }
    let mut i: usize = 0;
    while i < x.len()
        invariant
            i <= x.len(),
            x.len() == y.len(),
            x@ == encode_utf8(a@),
            y@ == encode_utf8(b@),
            forall|j: int| 0 <= j < i ==> x@[j] == y@[j],
        decreases x.len() - i,
    {
        if x[i] != y[i] {
            return false;
        }
        i = i + 1;
    }
    assert(x@ =~= y@);
    true
}

impl NodeKind {
    /// Reads a kind from the grammar's name for it.
    pub fn from_name(name: &str) -> (kind: NodeKind)
        ensures
            kind == kind_of_name(name@),
    {
        if same_text(name, "list") {
            NodeKind::List
        } else if same_text(name, "named_node") {
            NodeKind::NamedNode
        } else if same_text(name, "anonymous_node") {
            NodeKind::AnonymousNode
        } else if same_text(name, "identifier") {
            NodeKind::Identifier
        } else if same_text(name, "capture") {
            NodeKind::Capture
        } else if same_text(name, "predicate") {
            NodeKind::Predicate
        } else if same_text(name, "field_definition") {
            NodeKind::FieldDefinition
        } else if same_text(name, "comment") {
            NodeKind::Comment
        } else if same_text(name, "string") {
            NodeKind::StringLiteral
        } else if same_text(name, "escape_sequence") {
            NodeKind::EscapeSequence
        } else if same_text(name, "parameters") {
            NodeKind::Parameters
        } else if same_text(name, "grouping") {
            NodeKind::Grouping
        } else if same_text(name, "(") {
            NodeKind::OpenParen
        } else if same_text(name, ")") {
            NodeKind::CloseParen
        } else if same_text(name, "[") {
            NodeKind::OpenBracket
        } else if same_text(name, "]") {
            NodeKind::CloseBracket
        } else if same_text(name, ":") {
            NodeKind::Colon
        } else if same_text(name, "\"") {
            NodeKind::Quote
        } else {
            NodeKind::Other
        }
    }
}

} // verus!
