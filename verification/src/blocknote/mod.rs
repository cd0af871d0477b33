//! Blocks of a block editor document, and their conversion to markdown.

pub mod blocks;
pub mod doc_tree;
pub mod error;
pub mod from_mdast;
pub mod numbers;
pub mod parse;
pub mod markdown;
pub mod props;
pub mod schema;
