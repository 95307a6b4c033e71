//! Lowering and serialization logic of a word-processor document exporter.

pub mod bibliography;
pub mod bibliography_laws;
pub mod bookmark;
pub mod content;
pub mod convert;
pub mod ctx;
pub mod document;
pub mod dom;
pub mod encode;
pub mod fallback;
pub mod fxmap;
pub mod heading_laws;
pub mod heading_numbering;
pub mod heading_rewrite_laws;
pub mod introspect;
pub mod length;
pub mod live_numbers;
pub mod ns;
pub mod numerals;
pub mod props;
pub mod rels;
pub mod report;
pub mod tally;
pub mod text;
pub mod walk;
pub mod walk_laws;
pub mod xml;
