//! Builders for the parts of a class file.
pub mod key_table;
pub mod cp;
pub mod method;
