//! File-content edits with proved contracts: replacing a located region
//! through a SEARCH/REPLACE diff block, inserting text at a line, and literal
//! or pattern-based search and replace, each rendered as a unified-diff
//! preview; with the performance settings and listings around them.

pub mod apply_diff;
pub mod benchmarks;
pub mod code_definitions;
pub mod config;
pub mod edit;
pub mod error;
pub mod insert_content;
pub mod list_files;
pub mod render;
pub mod search_and_replace;
pub mod text;
pub mod tools;
