//! Tables of organization: a recursive model of military units, a structural
//! diff of saved library states, and a deterministic tree layout for diagrams.

pub mod models;
pub mod text;
pub mod layout;
pub mod json;
pub mod diff;
pub mod config;
pub mod i18n;
pub mod export;
pub mod pipeline;
pub mod import;
