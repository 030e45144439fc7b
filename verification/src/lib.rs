//! Verified core of the browser automation helpers: accessibility-tree
//! candidate harvesting and scoring for semantic element lookup, DOM
//! backend-id collection, and the stealth-mode settings.
pub mod dom;
pub mod fuzzy;
pub mod roles;
pub mod score_laws;
pub mod semantic;
pub mod stealth;
pub mod text;
