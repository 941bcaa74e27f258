//! The store of indexed chunks: what is written to it, how it is asked, and
//! when it can be opened.

pub mod files;
pub mod indexes;
pub mod meta;
pub mod rows;
pub mod sql;
pub mod table;
