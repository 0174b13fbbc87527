//! LDAP authentication service. Directory access is not wired in: once enabled and
//! configured, authentication reports that it is unavailable.
use vstd::prelude::*;
use crate::text::owned;

verus! {

/// LDAP configuration.
#[derive(Debug, Clone)]
pub struct LdapConfig {
    pub enabled: bool,
    pub url: String,
    pub bind_dn: String,
    pub bind_password: String,
    pub base_dn: String,
    pub filter: String,
    pub attribute_map: LdapAttributeMap,
}

/// Which LDAP attributes hold the user's fields.
#[derive(Debug, Clone)]
pub struct LdapAttributeMap {
    pub username: String,
    pub email: String,
    pub display_name: String,
}

impl Default for LdapAttributeMap {
    fn default() -> (r: LdapAttributeMap)
        ensures
            r.username@ == "uid"@,
            r.email@ == "mail"@,
            r.display_name@ == "cn"@,
    {
        LdapAttributeMap { username: owned("uid"), email: owned("mail"), display_name: owned("cn") }
    }
}

impl Default for LdapConfig {
    /// Disabled, with empty connection settings and the filter `(uid={0})`.
    fn default() -> (r: LdapConfig)
        ensures
            !r.enabled,
            r.url@ == Seq::<char>::empty(),
            r.bind_dn@ == Seq::<char>::empty(),
            r.bind_password@ == Seq::<char>::empty(),
            r.base_dn@ == Seq::<char>::empty(),
            r.filter@ == "(uid={0})"@,
            r.attribute_map.username@ == "uid"@,
            r.attribute_map.email@ == "mail"@,
            r.attribute_map.display_name@ == "cn"@,
    {
        LdapConfig {
            enabled: false,
            url: String::new(),
            bind_dn: String::new(),
            bind_password: String::new(),
            base_dn: String::new(),
            filter: owned("(uid={0})"),
            attribute_map: LdapAttributeMap::default(),
        }
    }
}

/// A user found in the directory.
#[derive(Debug, Clone)]
pub struct LdapUser {
    pub username: String,
    pub email: Option<String>,
    pub display_name: Option<String>,
    pub dn: String,
}

/// Why an LDAP operation failed.
#[derive(Debug, Clone, Copy, PartialEq, Eq, Structural)]
pub enum LdapError {
    NotEnabled,
    UrlNotConfigured,
    NotImplemented,
}

impl LdapError {
    /// The message shown for the error.
    pub fn message(&self) -> (r: &'static str)
        ensures
            *self == LdapError::NotEnabled ==> r@ == "LDAP is not enabled"@,
            *self == LdapError::UrlNotConfigured ==> r@ == "LDAP URL is not configured"@,
            *self == LdapError::NotImplemented ==> r@ == "LDAP authentication not implemented - configure ldap3 in production"@,
    {
        match self {
            LdapError::NotEnabled => "LDAP is not enabled",
            LdapError::UrlNotConfigured => "LDAP URL is not configured",
            LdapError::NotImplemented => "LDAP authentication not implemented - configure ldap3 in production",
        }
    }
}

/// LDAP authentication service.
pub struct LdapService {
    config: LdapConfig,
}

impl LdapService {
    /// The configuration held by the service.
    pub closed spec fn spec_config(&self) -> LdapConfig {
        self.config
    }

    /// Creates the service.
    pub fn new(config: LdapConfig) -> (r: LdapService)
        ensures
            r.spec_config() == config,
    {
        LdapService { config }
    }

    /// The configuration.
    pub fn get_config(&self) -> (r: &LdapConfig)
        ensures
            *r == self.spec_config(),
    {
        &self.config
    }

    /// Whether LDAP is enabled.
    pub fn is_enabled(&self) -> (r: bool)
        ensures
            r == self.spec_config().enabled,
    {
        self.config.enabled
    }

    /// Authenticates a user: refused while disabled or without a URL; otherwise the
    /// directory is not reachable from this build.
    pub fn authenticate(&self, username: &str, password: &str) -> (r: Result<LdapUser, LdapError>)
        ensures
            !self.spec_config().enabled ==> r == Err::<LdapUser, LdapError>(LdapError::NotEnabled),
            self.spec_config().enabled && self.spec_config().url@.len() == 0 ==> r == Err::<LdapUser, LdapError>(LdapError::UrlNotConfigured),
            self.spec_config().enabled && self.spec_config().url@.len() > 0 ==> r == Err::<LdapUser, LdapError>(LdapError::NotImplemented),
    {
        if !self.config.enabled {
            return Err(LdapError::NotEnabled);
        }
        if self.config.url.as_str().is_empty() {
            return Err(LdapError::UrlNotConfigured);
        }
        Err(LdapError::NotImplemented)
    }

    /// Searches users: refused while disabled; otherwise finds none.
    pub fn search_users(&self, query: &str) -> (r: Result<Vec<LdapUser>, LdapError>)
        ensures
            !self.spec_config().enabled ==> r == Err::<Vec<LdapUser>, LdapError>(LdapError::NotEnabled),
            self.spec_config().enabled ==> (r matches Ok(v) && v@.len() == 0),
    {
        if !self.config.enabled {
            return Err(LdapError::NotEnabled);
        }
        Ok(Vec::new())
    }

    /// Tests the connection: refused while disabled; otherwise reports success.
    pub fn test_connection(&self) -> (r: Result<bool, LdapError>)
        ensures
            !self.spec_config().enabled ==> r == Err::<bool, LdapError>(LdapError::NotEnabled),
            self.spec_config().enabled ==> r == Ok::<bool, LdapError>(true),
    {
        if !self.config.enabled {
            return Err(LdapError::NotEnabled);
        }
        Ok(true)
    }
}

} // verus!
