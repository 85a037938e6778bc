//! Domain models of a table of organization.

pub mod library;
pub mod version;
pub mod validation;
pub mod formation_level;
pub mod branch;

pub use library::{Equipment, Library, Personnel, Unit};
pub use version::{Snapshot, Versioned};
pub use formation_level::{CustomFormationLevel, StandardFormationLevel, STANDARD_LEVEL_COUNT};
pub use branch::{default_branch_categories, default_branches, Branch, BranchCategory};
