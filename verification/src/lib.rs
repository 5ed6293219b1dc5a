//! Verified core of a SourcePawn language analysis engine: include resolution,
//! the include graph, expression scopes, name resolution and diagnostics helpers.
use vstd::prelude::*;

pub mod text;
pub mod base_db;
pub mod graph;
pub mod syntax;
pub mod hir;
pub mod scope;
pub mod ids;
pub mod def_map;
pub mod resolver;
pub mod pattern;
pub mod lsp;
pub mod includes;
pub mod spcomp;
pub mod flycheck;
pub mod completion_data;
pub mod documentation;
pub mod data;
pub mod infer;
pub mod item_tree;
pub mod lower;
pub mod defs;
pub mod diagnostics;
pub mod item_lower;
pub mod ast_id;
pub mod memory_db;
pub mod pretty;
pub mod item_data;
pub mod graphviz;
pub mod render;
pub mod child_by_source;
pub mod def_resolution;
pub mod has_resolver;
pub mod source_to_def;
pub mod semantics;
pub mod source_analyzer;

verus! {
}
