//! Data models shared by the handlers and services.
pub mod client;
pub mod inbound;
pub mod traffic;
pub mod user;

pub use client::{
    ClientImport, ClientStats, ClientTraffic, ClientTrafficHistory, CreateClientRequest, ImportClientsRequest,
    UpdateClientRequest,
};
pub use inbound::{CreateInboundRequest, Inbound, InboundStats, Protocol, UpdateInboundRequest};
pub use traffic::{
    ClientTrafficUpdate, InboundTrafficSummary, Traffic, TrafficHistory, TrafficHistoryQuery, TrafficResetConfig,
    TrafficSummary, TrafficUpdate,
};
pub use user::{
    ChangePasswordRequest, LoginRequest, LoginResponse, Setup2FARequest, Setup2FAResponse, UpdateSettingRequest,
    UpdateUserRequest, User, UserInfo, VerifyTOTPRequest,
};
