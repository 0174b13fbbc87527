//! Business logic services.
pub mod i18n;
pub mod ldap;
pub mod subscription;
pub mod system;
pub mod template;
pub mod totp;
pub mod traffic;
pub mod xray;
