//! A converter for a small markdown dialect.
//!
//! The pipeline turns a sequence of text lines into HTML in four steps:
//! lines are grouped into blocks on blank separator lines, each block is
//! classified as a heading, a bulleted list or a paragraph, the classified
//! elements are built into an HTML node tree, and the tree is serialized
//! to an escaped HTML string.

pub mod block;
pub mod blocks;
pub mod bulletlist;
pub mod convert;
pub mod heading;
pub mod html;
pub mod lines;
pub mod paragraph;
pub mod preprocessor;
pub mod structure;
pub mod text;
