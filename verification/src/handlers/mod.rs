//! The decisions and documents behind the panel's HTTP endpoints: SQL statements and their
//! parameters, login outcomes, subscription content and default documents.
pub mod auth;
pub mod inbound;
pub mod setting;
pub mod pages;
pub mod subscription;
pub mod xray;
