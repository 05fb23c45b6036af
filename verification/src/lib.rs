//! A small comma-delimited table library: lines are split into rows of
//! string cells, cells can be looked up and replaced by position, and the
//! table can be rendered back into lines.

pub mod line;
pub mod processor;
pub mod table;
