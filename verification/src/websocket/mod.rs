//! Real-time updates over WebSocket.
pub mod handler;
