//! A small PLONK-style constraint system: typed columns, polynomial gates over
//! relative-row queries, a table of assigned cells, and a checker that reports
//! every gate that does not vanish. Field arithmetic is that of the bn256
//! scalar field.
pub mod checker;
pub mod circuit;
pub mod felt;
pub mod plonk;
pub mod table;
