//! Text formats produced from a library: a vector diagram and a spreadsheet.

pub mod svg;
pub mod csv;
pub mod json;
pub mod branch_formation_io;
