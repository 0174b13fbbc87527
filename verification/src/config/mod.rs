//! Panel settings read from the environment.
pub mod settings;
