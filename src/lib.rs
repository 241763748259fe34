//! A validated, column-ordered result table over borrowed, typed columns.

pub mod identifier;
pub mod column;
pub mod column_map;
pub mod table;
