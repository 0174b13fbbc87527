pub mod app_state;
pub mod bot;
pub mod clock;
pub mod json;
pub mod models;
pub mod text;

pub use app_state::XrayProcessState;
pub mod utils;
pub mod xray;
pub mod services;
pub mod encoding;
pub mod handlers;
pub mod scheduler;
pub mod config;
pub mod middleware;
pub mod websocket;
pub mod db;
