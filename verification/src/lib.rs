//! Symbolic path prefix rewriting.
//!
//! Scans path-shaped syntax nodes — flat reference paths and nested import
//! declarations — for a configured query prefix and, on a match, substitutes
//! that prefix with a configured replacement while preserving the unmatched
//! remainder exactly, including remainders that are whole subtrees of an
//! import declaration.

pub mod decl;
pub mod error;
pub mod matcher;
pub mod ref_path;
pub mod replacer;
pub mod segment;
pub mod simple_path;
pub mod tree;

pub use decl::{DeclModel, ImportDecl};
pub use error::PathError;
pub use matcher::{outcome, walk, MatchOutcome, MatchStatus, PrefixMatcher};
pub use ref_path::{check_simple, RefPath, RefPathModel};
pub use replacer::PathReplacer;
pub use segment::{CloneRemainder, CratePath, PathPart, Segment, SegmentModel};
pub use simple_path::{SimplePath, SimplePathModel};
pub use tree::{attach, concat_prefix_path_to_tree, ImportTree, TreeIter, TreeModel};
