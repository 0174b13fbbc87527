//! Xray integration: stats API names, configuration documents, process and traffic state.
pub mod api;
pub mod config;
pub mod process;
pub mod traffic;
