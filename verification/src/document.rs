//! The export driver: page setup, page furniture, document-wide styles and
//! inventories.

pub mod assembly;
pub mod assembly_laws;
pub mod edits;
pub mod embedding;
pub mod furniture;
pub mod geometry;
pub mod inventory;
pub mod inventory_laws;
pub mod laws;
pub mod page_blocks;
pub mod page_laws;
pub mod page_numbers;
pub mod parts;
pub mod review;
pub mod section_laws;
pub mod sections;
pub mod signature;
pub mod signature_laws;
pub mod sources;
pub mod style_laws;
pub mod styles;
pub mod tags;
pub mod traces;
