//! How blocks of realized content become blocks of the document.

pub mod assemble;
pub mod assemble_laws;
pub mod block_laws;
pub mod blocks;
pub mod boxes;
pub mod breaks;
pub mod canvas;
pub mod overlay;
pub mod page_breaks;
pub mod predicates;
pub mod route_laws;
