//! Finds the code that a marker comment documents and the scopes that enclose it.
//!
//! A caller hands over a parsed syntax tree as a [`SyntaxTree`], the source split into
//! lines, and the 0-indexed line of a marker comment. [`extract_block_context`] finds the
//! comment block around that line and the nearest code above it, below it and on the
//! comment's own line; [`extract_hierarchy`] lists the scopes that enclose a line,
//! innermost first.
pub mod context;
pub mod kinds;
pub mod scope;
pub mod text;
pub mod tree;

pub use context::{
    build_line_index,
    extract_block_context,
    find_comment_block_bounds,
    find_context_above,
    find_context_below,
    find_inline_context,
    is_comment_only_line,
    BlockContext,
    CodeContext,
    LineIndex,
    NodeInfo,
};
pub use kinds::{is_interesting_kind, is_scope_kind, kind_priority};
pub use scope::{extract_hierarchy, ScopeItem};
pub use text::first_line;
pub use tree::{extract_name, Field, FieldLink, SyntaxNode, SyntaxTree};
