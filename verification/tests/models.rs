use r3_ui::models::traffic::TrafficResetConfig;
use r3_ui::services::ldap::{LdapConfig, LdapService};

#[test]
fn test_traffic_reset_config_default() {
    let config = TrafficResetConfig::default();
    assert_eq!(config.reset_type, 0);
}

#[test]
fn test_ldap_config_default() {
    let config = LdapConfig::default();
    assert!(!config.enabled);
    assert_eq!(config.filter, "(uid={0})");
}

#[test]
fn test_ldap_service_creation() {
    let config = LdapConfig::default();
    let service = LdapService::new(config);
    assert!(!service.is_enabled());
}
