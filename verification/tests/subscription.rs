use base64::Engine;
use r3_ui::services::subscription::{
    format_bytes, ClientConfig, SecuritySettings, SubscriptionFormat, SubscriptionService, TransportSettings,
};

#[test]
fn subscription_test_format_bytes() {
    assert_eq!(format_bytes(500), "500 B");
    assert_eq!(format_bytes(1024), "1.00 KB");
    assert_eq!(format_bytes(1048576), "1.00 MB");
    assert_eq!(format_bytes(1073741824), "1.00 GB");
}

#[test]
fn test_subscription_format_from_str() {
    assert_eq!(SubscriptionFormat::from_str("clash"), Some(SubscriptionFormat::Clash));
    assert_eq!(SubscriptionFormat::from_str("sing-box"), Some(SubscriptionFormat::SingBox));
    assert_eq!(SubscriptionFormat::from_str("base64"), Some(SubscriptionFormat::Base64));
}

#[test]
fn test_generate_token() {
    let token = SubscriptionService::generate_token();
    assert_eq!(token.len(), 32);
    assert!(token.chars().all(|c| c.is_ascii_hexdigit()));
}

#[test]
fn format_names_ignore_case() {
    assert_eq!(SubscriptionFormat::from_str("YAML"), Some(SubscriptionFormat::Clash));
    assert_eq!(SubscriptionFormat::from_str("Default"), Some(SubscriptionFormat::Base64));
    assert_eq!(SubscriptionFormat::from_str("JSON"), Some(SubscriptionFormat::SingBox));
    assert_eq!(SubscriptionFormat::from_str("v2ray"), None);
    assert_eq!(SubscriptionFormat::from_str("CLASH"), Some(SubscriptionFormat::Clash));
    assert_eq!(SubscriptionFormat::from_str("Sing-Box"), Some(SubscriptionFormat::SingBox));
}

#[test]
fn negative_bytes_are_written_as_is() {
    assert_eq!(format_bytes(-5), "-5 B");
    assert_eq!(format_bytes(1536), "1.50 KB");
}

fn config(protocol: &str) -> ClientConfig {
    ClientConfig {
        email: "user@example.com".to_string(),
        protocol: protocol.to_string(),
        address: "1.2.3.4".to_string(),
        port: 443,
        uuid: "11111111-2222-3333-4444-555555555555".to_string(),
        flow: Some("xtls-rprx-vision".to_string()),
        encryption: "aes-128-gcm".to_string(),
        transport_type: "ws".to_string(),
        transport_settings: Some(TransportSettings {
            path: Some("/ws path".to_string()),
            host: Some("cdn.example.com".to_string()),
            headers: None,
            grpc_service_name: None,
        }),
        security: "tls".to_string(),
        security_settings: Some(SecuritySettings {
            server_name: Some("sni.example.com".to_string()),
            allow_insecure: false,
            fingerprint: Some("chrome".to_string()),
            public_key: None,
            short_id: None,
            spider_x: None,
        }),
        remark: "My \"Node\"".to_string(),
        upload: 1024,
        download: 2048,
        total: 8192,
        expiry_time: 0,
    }
}

#[test]
fn generate_url_writes_port() {
    assert_eq!(SubscriptionService::generate_url("example.com", 2053, "abc"), "http://example.com:2053/sub/abc");
}

#[test]
fn vless_link_parameters() {
    let c = config("VLESS");
    assert_eq!(
        SubscriptionService::client_to_link(&c, "host.example"),
        "vless://11111111-2222-3333-4444-555555555555@host.example:443?type=ws&security=tls&flow=xtls-rprx-vision&path=%2Fws%20path&host=cdn.example.com&sni=sni.example.com&fp=chrome#My%20%22Node%22"
    );
}

#[test]
fn trojan_and_unsupported_links() {
    let c = config("trojan");
    assert_eq!(
        SubscriptionService::client_to_link(&c, "h"),
        "trojan://11111111-2222-3333-4444-555555555555@h:443?type=ws&security=tls&path=%2Fws%20path&host=cdn.example.com&sni=sni.example.com#My%20%22Node%22"
    );
    let c = config("socks");
    assert_eq!(SubscriptionService::client_to_link(&c, "h"), "# Unsupported protocol: socks");
}

#[test]
fn ss_link_encodes_user_info() {
    let c = config("shadowsocks");
    let userinfo = base64::engine::general_purpose::STANDARD.encode("aes-128-gcm:11111111-2222-3333-4444-555555555555");
    assert_eq!(SubscriptionService::client_to_link(&c, "h"), format!("ss://{}@h:443#My%20%22Node%22", userinfo));
}

#[test]
fn vmess_link_carries_json() {
    let c = config("vmess");
    let link = SubscriptionService::client_to_link(&c, "h");
    assert!(link.starts_with("vmess://"));
    let bytes = base64::engine::general_purpose::STANDARD.decode(&link["vmess://".len()..]).unwrap();
    let v: serde_json::Value = serde_json::from_slice(&bytes).unwrap();
    assert_eq!(v["ps"], "My%20%22Node%22");
    assert_eq!(v["add"], "h");
    assert_eq!(v["port"], 443);
    assert_eq!(v["path"], "/ws path");
    assert_eq!(v["host"], "cdn.example.com");
    assert_eq!(v["tls"], "tls");
    assert_eq!(v["sni"], "sni.example.com");
    assert_eq!(v["fp"], "chrome");
    assert_eq!(v["aid"], 0);
    assert_eq!(v["v"], "2");
}

#[test]
fn base64_subscription_joins_links() {
    let cs = vec![config("vless"), config("trojan")];
    let text = SubscriptionService::generate_subscription(&cs, SubscriptionFormat::Base64, "h");
    let decoded = String::from_utf8(base64::engine::general_purpose::STANDARD.decode(text).unwrap()).unwrap();
    let expected = format!(
        "{}\n{}",
        SubscriptionService::client_to_link(&cs[0], "h"),
        SubscriptionService::client_to_link(&cs[1], "h")
    );
    assert_eq!(decoded, expected);
}

#[test]
fn clash_document_layout() {
    let mut plain = config("trojan");
    plain.remark = "a\\b".to_string();
    let cs = vec![plain, config("socks")];
    let text = SubscriptionService::generate_subscription(&cs, SubscriptionFormat::Clash, "h");
    assert_eq!(
        text,
        "proxies:\n  - name: \"a\\b\"\n      type: trojan\n      server: h\n      port: 443\n      password: 11111111-2222-3333-4444-555555555555\n\nproxy-groups:\n  - name: \"Proxy\"\n    type: select\n    proxies:\n      - \"a\\\\b\"\n      - \"My \\\"Node\\\"\"\n\nrules:\n  - MATCH,Proxy\n"
    );
}

#[test]
fn clash_vmess_entry_with_tls() {
    let c = config("vmess");
    assert_eq!(
        SubscriptionService::clash_vmess(&c, "h"),
        "- name: \"My \"Node\"\"\n      type: vmess\n      server: h\n      port: 443\n      uuid: 11111111-2222-3333-4444-555555555555\n      alterId: 0\n      cipher: auto\n      network: ws\n      ws-path: \"/ws path\"\n      tls: true\n      servername: \"sni.example.com\""
    );
}

#[test]
fn surge_quantumult_surfboard() {
    let cs = vec![config("vmess"), config("vless"), config("trojan")];
    let surge = SubscriptionService::generate_subscription(&cs, SubscriptionFormat::Surge, "h");
    assert_eq!(
        surge,
        "#!MANAGED-CONFIG\n\n[Proxy]\nMy \"Node\" = vmess, h, 443, username = 11111111-2222-3333-4444-555555555555, ws-path = /\nMy \"Node\" = trojan, h, 443, 11111111-2222-3333-4444-555555555555\n"
    );
    assert_eq!(SubscriptionService::generate_subscription(&cs, SubscriptionFormat::Surfboard, "h"), surge);
    let q = SubscriptionService::generate_subscription(&cs[..1], SubscriptionFormat::Quantumult, "h");
    assert_eq!(
        q,
        "vmess://11111111-2222-3333-4444-555555555555:h:443:My \"Node\":0:0:0?obfs=ws&obfsParam=?#My \"Node\""
    );
}

#[test]
fn singbox_document_outbounds() {
    let cs = vec![config("vless"), config("trojan"), config("socks")];
    let text = SubscriptionService::generate_subscription(&cs, SubscriptionFormat::SingBox, "h");
    let v: serde_json::Value = serde_json::from_str(&text).unwrap();
    let outbounds = v["outbounds"].as_array().unwrap();
    assert_eq!(outbounds.len(), 3);
    assert_eq!(outbounds[0]["uuid"], "11111111-2222-3333-4444-555555555555");
    assert_eq!(outbounds[1]["password"], "11111111-2222-3333-4444-555555555555");
    assert!(outbounds[2].get("uuid").is_none());
    assert_eq!(outbounds[2]["server_port"], 443);
    assert!(text.contains("\n  \"outbounds\""));
}

#[test]
fn info_page_shows_usage() {
    let c = config("vless");
    let page = SubscriptionService::render_info_page(&c, "h", 37);
    assert!(page.contains("style=\"width: 37%\""));
    assert!(page.contains("<span>3.00 KB / 8.00 KB</span>"));
    assert!(page.contains("<span>5.00 KB</span>"));
    assert!(page.contains("<span>Never</span>"));
    assert!(page.starts_with("<!DOCTYPE html>"));
}
