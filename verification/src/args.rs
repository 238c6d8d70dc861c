//! The run configuration.

use vstd::prelude::*;
use std::path::PathBuf;
use crate::layout::LayoutConfig;

verus! {

/// std's `PathBuf`, carried through as it is.
#[verifier::external_type_specification]
#[verifier::external_body]
pub struct ExPathBuf(PathBuf);

/// What one run is asked to do.
#[derive(Debug)]
pub struct Args {
    /// Name of the file to format.
    pub file: PathBuf,
    /// Show the formatted text and leave the file as it is.
    pub preview: bool,
    /// Indent of nested things.
    pub indent: usize,
    /// Indent of list items.
    pub list_indent: usize,
}

impl Args {
    /// The indent widths of this run.
    pub fn layout(&self) -> (config: LayoutConfig)
        ensures
            config == (LayoutConfig { indent: self.indent, list_indent: self.list_indent }),
    {
        LayoutConfig { indent: self.indent, list_indent: self.list_indent }
    }
}

} // verus!
