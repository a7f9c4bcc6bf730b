//! Name resolution checks for a VHDL front end.
//!
//! The crate walks an already parsed design and reports each place where a
//! name is declared twice in a scope where that is not legal, and each
//! library clause that names a library the design does not hold. Every
//! function is verified against a mathematical description of the
//! diagnostics it produces.

pub mod source;
pub mod latin_1;
pub mod symbol_table;
pub mod message;
pub mod ast;
pub mod region;
pub mod items;
pub mod builders;
pub mod scopes;
pub mod units;
pub mod library;
pub mod analyzer;
pub mod laws;
