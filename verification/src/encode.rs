//! Builds the parts of the package from a finished document.

pub mod body;
pub mod body_laws;
pub mod drawing;
pub mod drawing_laws;
pub mod field;
pub mod fonts;
pub mod metadata;
pub mod metadata_laws;
pub mod nesting;
pub mod order_laws;
pub mod package;
pub mod package_laws;
pub mod part_laws;
pub mod parts;
pub mod reading;
pub mod section;
pub mod section_laws;
pub mod settings;
pub mod table;
pub mod table_laws;
