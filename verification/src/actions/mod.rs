//! Access to the table of mappings.
pub mod mapping;
