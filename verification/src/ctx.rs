//! The lowering context.

pub mod bookmarks;
pub mod children;
pub mod children_laws;
pub mod fonts;
pub mod format;
pub mod format_laws;
pub mod inline;
pub mod inline_laws;
pub mod lists;
pub mod outcome;
pub mod outcome_laws;
pub mod scope;
pub mod state;
pub mod text_laws;
