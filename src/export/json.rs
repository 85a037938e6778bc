//! Options of the JSON export of a library.

use vstd::prelude::*;

verus! {

/// What a JSON export of a library holds.
#[derive(Debug, Clone, Copy, PartialEq, Eq, Structural)]
pub enum ExportMode {
    /// The library as it is now.
    LatestOnly,
    /// The library and every stored snapshot of it.
    WithAllVersions,
}

} // verus!
