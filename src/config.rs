//! Application settings.

use vstd::prelude::*;
use vstd::string::*;

verus! {

/// Application settings.
pub struct Settings {
    /// Tactical symbol style (NATO, RF, ...).
    pub symbol_style: String,
    /// Color scheme.
    pub color_scheme: String,
    /// Interface language code (`en`, `ru`, ...).
    pub language: String,
    /// Database file, when not the default one.
    pub database_path: Option<String>,
}

impl Default for Settings {
    fn default() -> (r: Settings)
        ensures
            r.symbol_style@ == "NATO"@,
            r.color_scheme@ == "light"@,
            r.language@ == "en"@,
            r.database_path is None,
    {
        Settings {
            symbol_style: String::from_str("NATO"),
            color_scheme: String::from_str("light"),
            language: String::from_str("en"),
            database_path: None,
        }
    }
}

} // verus!
