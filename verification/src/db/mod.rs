//! The database schema.
pub mod pool;
