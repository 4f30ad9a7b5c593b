//! Services built on the storage layer.
pub mod import;
