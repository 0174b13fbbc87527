//! User and authentication models.
use vstd::prelude::*;

verus! {

/// A panel user.
#[derive(Debug, Clone)]
pub struct User {
    pub id: i64,
    pub username: String,
    pub password: String,
    /// TOTP secret for 2FA (base32 encoded).
    pub secret: String,
    /// Whether 2FA is enabled for this user.
    pub tfa_enabled: bool,
    /// Telegram ID for notifications.
    pub tg_id: i64,
    pub created_at: i64,
    pub last_login: i64,
}

/// Login request payload.
#[derive(Debug)]
pub struct LoginRequest {
    pub username: String,
    pub password: String,
    /// TOTP code when 2FA is enabled.
    pub totp_code: Option<String>,
}

/// Login response.
#[derive(Debug, Default)]
pub struct LoginResponse {
    pub success: bool,
    pub message: String,
    /// Set when a 2FA code is needed.
    pub requires_2fa: Option<bool>,
}

/// Request to enable or disable 2FA.
#[derive(Debug)]
pub struct Setup2FARequest {
    pub enable: bool,
    /// Current password for verification.
    pub password: String,
    /// TOTP code to confirm the setup.
    pub totp_code: Option<String>,
}

/// 2FA setup response.
#[derive(Debug, Default)]
pub struct Setup2FAResponse {
    pub success: bool,
    pub message: String,
    /// Base32 secret for manual entry.
    pub secret: Option<String>,
    /// QR code as base64.
    pub qr_code: Option<String>,
    /// OTP auth URL.
    pub otpauth_url: Option<String>,
}

/// Request to verify a TOTP code.
#[derive(Debug)]
pub struct VerifyTOTPRequest {
    pub code: String,
}

/// Password change request.
#[derive(Debug)]
pub struct ChangePasswordRequest {
    pub current_password: String,
    pub new_password: String,
}

/// User update request.
#[derive(Debug)]
pub struct UpdateUserRequest {
    pub username: Option<String>,
    pub tg_id: Option<i64>,
}

/// Request to set one panel setting.
#[derive(Debug)]
pub struct UpdateSettingRequest {
    pub key: String,
    pub value: String,
}

/// User information without secrets.
#[derive(Debug, Default)]
pub struct UserInfo {
    pub id: i64,
    pub username: String,
    pub tfa_enabled: bool,
    pub tg_id: i64,
    pub created_at: i64,
    pub last_login: i64,
}

impl From<User> for UserInfo {
    /// Keeps the public fields and drops the password and TOTP secret.
    fn from(user: User) -> (r: UserInfo) {
        UserInfo {
            id: user.id,
            username: user.username,
            tfa_enabled: user.tfa_enabled,
            tg_id: user.tg_id,
            created_at: user.created_at,
            last_login: user.last_login,
        }
    }
}

impl vstd::std_specs::convert::FromSpecImpl<User> for UserInfo {
    open spec fn obeys_from_spec() -> bool {
        true
    }

    open spec fn from_spec(user: User) -> UserInfo {
        UserInfo {
            id: user.id,
            username: user.username,
            tfa_enabled: user.tfa_enabled,
            tg_id: user.tg_id,
            created_at: user.created_at,
            last_login: user.last_login,
        }
    }
}

} // verus!
