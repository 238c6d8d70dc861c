//! A formatter for tree-sitter query files: canonical whitespace, indentation
//! and line breaks around untouched tokens, guarded by a content check.

pub mod args;
pub mod cursor;
pub mod error;
pub mod format;
pub mod kind;
pub mod layout;
pub mod output;
pub mod parser;
pub mod text;
pub mod tree;
