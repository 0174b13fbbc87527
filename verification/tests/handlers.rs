use base64::Engine;
use r3_ui::handlers::auth::{current_password_accepted, hash_password, login_outcome, UserRow};
use r3_ui::handlers::inbound::{
    add_client_params, create_params, inbound_tag, service_inbound, update_client_params,
    update_statement, AddClientRequest, Inbound, SqlParam, UpdateClientRequest,
};
use r3_ui::handlers::pages::{protected_page, PageAnswer};
use r3_ui::handlers::setting::settings_map;
use r3_ui::handlers::subscription::{
    generate_json_subscription, generate_link, generate_subscription_content, token_matches,
    InboundRow,
};
use r3_ui::handlers::xray::default_config;
use r3_ui::json::to_text;
use r3_ui::models::inbound::{CreateInboundRequest, UpdateInboundRequest};

fn empty_update(id: i64) -> UpdateInboundRequest {
    UpdateInboundRequest {
        id,
        remark: None,
        listen: None,
        port: None,
        protocol: None,
        settings: None,
        stream_settings: None,
        total: None,
        expiry_time: None,
        enable: None,
        sniffing: None,
        traffic_reset: None,
    }
}

#[test]
fn tag_is_protocol_dash_port() {
    assert_eq!(inbound_tag("vless", 443), "vless-443");
    assert_eq!(inbound_tag("vmess", -1), "vmess--1");
}

#[test]
fn create_binds_defaults() {
    let req = CreateInboundRequest {
        remark: None,
        listen: Some("127.0.0.1".to_string()),
        port: 8443,
        protocol: "trojan".to_string(),
        settings: Some("{}".to_string()),
        stream_settings: None,
        total: None,
        expiry_time: Some(99),
        enable: None,
        sniffing: None,
        traffic_reset: None,
    };
    let p = create_params(7, &req);
    assert_eq!(
        p,
        vec![
            SqlParam::Int(7),
            SqlParam::Null,
            SqlParam::Text("127.0.0.1".to_string()),
            SqlParam::Int(8443),
            SqlParam::Text("trojan".to_string()),
            SqlParam::Text("{}".to_string()),
            SqlParam::Null,
            SqlParam::Int(0),
            SqlParam::Int(99),
            SqlParam::Int(1),
            SqlParam::Null,
            SqlParam::Text("never".to_string()),
            SqlParam::Text("trojan-8443".to_string()),
        ]
    );
}

#[test]
fn update_statement_lists_present_fields_in_order() {
    assert!(update_statement(&empty_update(3)).is_none());
    let mut req = empty_update(3);
    req.enable = Some(false);
    req.remark = Some("r".to_string());
    req.port = Some(443);
    req.traffic_reset = Some("daily".to_string());
    let (sql, params) = update_statement(&req).unwrap();
    assert_eq!(sql, "UPDATE inbounds SET remark = ?, port = ?, enable = ?, traffic_reset = ? WHERE id = ?");
    assert_eq!(
        params,
        vec![
            SqlParam::Text("r".to_string()),
            SqlParam::Int(443),
            SqlParam::Int(0),
            SqlParam::Text("daily".to_string()),
            SqlParam::Int(3),
        ]
    );
}

#[test]
fn client_statement_values() {
    let add = add_client_params(&AddClientRequest { inbound_id: 2, email: "e@x".to_string(), total: None, expiry_time: Some(5) });
    assert_eq!(add, vec![SqlParam::Int(2), SqlParam::Text("e@x".to_string()), SqlParam::Int(0), SqlParam::Int(5)]);
    let upd = update_client_params(9, &UpdateClientRequest { email: "e".to_string(), total: 10, expiry_time: 20, enable: None });
    assert_eq!(upd, vec![SqlParam::Text("e".to_string()), SqlParam::Int(10), SqlParam::Int(20), SqlParam::Int(1), SqlParam::Int(9)]);
}

fn stored(settings: Option<&str>, stream: Option<&str>) -> Inbound {
    Inbound {
        id: 1,
        user_id: 1,
        up: 0,
        down: 0,
        total: 0,
        all_time: 0,
        remark: None,
        enable: true,
        expiry_time: 0,
        traffic_reset: "never".to_string(),
        last_traffic_reset_time: 0,
        listen: None,
        port: 1080,
        protocol: "socks".to_string(),
        settings: settings.map(|s| s.to_string()),
        stream_settings: stream.map(|s| s.to_string()),
        tag: "socks-1080".to_string(),
        sniffing: None,
    }
}

#[test]
fn regeneration_fills_defaults() {
    let c = service_inbound(&stored(Some("not json"), Some("{\"network\":\"ws\"}")));
    assert_eq!(c.listen, "0.0.0.0");
    assert_eq!(to_text(&c.settings), "{}");
    assert_eq!(to_text(c.stream_settings.as_ref().unwrap()), "{\"network\":\"ws\"}");
    assert!(c.sniffing.enabled);
    assert_eq!(c.sniffing.dest_override, vec!["http".to_string(), "tls".to_string()]);
    let c = service_inbound(&stored(Some("{\"a\":1}"), Some("[")));
    assert_eq!(to_text(&c.settings), "{\"a\":1}");
    assert!(c.stream_settings.is_none());
}

fn row(protocol: &str, settings: Option<&str>, stream: Option<&str>) -> InboundRow {
    InboundRow {
        id: 1,
        remark: Some("My node".to_string()),
        listen: Some("1.2.3.4".to_string()),
        port: 443,
        protocol: protocol.to_string(),
        settings: settings.map(|s| s.to_string()),
        stream_settings: stream.map(|s| s.to_string()),
        tag: "t".to_string(),
    }
}

#[test]
fn share_links_by_protocol() {
    assert_eq!(
        generate_link(&row("vless", Some("{\"clients\":[{\"id\":\"u-1\"}]}"), None)).unwrap(),
        "vless://u-1@1.2.3.4:443?encryption=none#My node"
    );
    assert_eq!(
        generate_link(&row("trojan", Some("{\"clients\":[{\"password\":\"pw\"}]}"), None)).unwrap(),
        "trojan://pw@1.2.3.4:443?security=none#My node"
    );
    let ss = generate_link(&row("shadowsocks", Some("{\"method\":\"aes-256-gcm\",\"password\":\"p\"}"), None)).unwrap();
    assert_eq!(
        ss,
        format!("ss://{}@1.2.3.4:443#My node", base64::engine::general_purpose::STANDARD.encode("aes-256-gcm:p"))
    );
    let vm = generate_link(&row("vmess", Some("{\"clients\":[{\"id\":\"u-2\"}]}"), Some("{\"network\":\"ws\",\"security\":\"tls\"}"))).unwrap();
    let body = vm.strip_prefix("vmess://").unwrap();
    let decoded = String::from_utf8(base64::engine::general_purpose::STANDARD.decode(body).unwrap()).unwrap();
    assert_eq!(
        decoded,
        "{\"add\":\"1.2.3.4\",\"aid\":\"0\",\"host\":\"\",\"id\":\"u-2\",\"net\":\"ws\",\"path\":\"\",\"port\":\"443\",\"ps\":\"My node\",\"tls\":\"tls\",\"type\":\"none\",\"v\":\"2\"}"
    );
    assert!(generate_link(&row("vless", Some("{\"clients\":[]}"), None)).is_none());
    assert!(generate_link(&row("socks", Some("{}"), None)).is_none());
    assert!(generate_link(&row("vless", None, None)).is_none());
}

#[test]
fn subscription_content_and_json() {
    let rows = vec![
        row("vless", Some("{\"clients\":[{\"id\":\"a\"}]}"), None),
        row("socks", Some("{}"), None),
        row("trojan", Some("{\"clients\":[{\"password\":\"b\"}]}"), None),
    ];
    assert_eq!(
        generate_subscription_content(&rows),
        "vless://a@1.2.3.4:443?encryption=none#My node\ntrojan://b@1.2.3.4:443?security=none#My node"
    );
    let mut plain = row("socks", None, Some("oops"));
    plain.remark = None;
    plain.listen = None;
    assert_eq!(
        generate_json_subscription(&[plain]),
        "{\"proxies\":[{\"protocol\":\"socks\",\"remark\":\"t\",\"server\":\"0.0.0.0\",\"server_port\":443,\"settings\":{},\"stream_settings\":{}}],\"version\":1}"
    );
    assert_eq!(generate_json_subscription(&[]), "{\"proxies\":[],\"version\":1}");
}

#[test]
fn token_check() {
    assert!(token_matches(&Some("abc".to_string()), "abc"));
    assert!(!token_matches(&Some("abc".to_string()), "abd"));
    assert!(!token_matches(&None, "abc"));
}

#[test]
fn login_with_stored_hash() {
    let hash = hash_password("s3cret");
    assert_ne!(hash, "s3cret");
    let user = UserRow { id: 5, username: "admin".to_string(), password: hash };
    let (sid, resp) = login_outcome(Some(&user), "s3cret");
    assert_eq!(sid, Some(5));
    assert!(resp.success);
    assert_eq!(resp.message, "Login successful");
    let (sid, resp) = login_outcome(Some(&user), "wrong");
    assert_eq!(sid, None);
    assert_eq!(resp.message, "Invalid credentials");
    let (sid, resp) = login_outcome(None, "s3cret");
    assert_eq!(sid, None);
    assert!(!resp.success);
    let plain = UserRow { id: 6, username: "x".to_string(), password: "not-a-hash".to_string() };
    assert_eq!(login_outcome(Some(&plain), "not-a-hash").0, None);
}

#[test]
fn current_password_check() {
    let hash = hash_password("old");
    assert!(current_password_accepted(&Some("old".to_string()), &Some(hash.clone())));
    assert!(!current_password_accepted(&Some("bad".to_string()), &Some(hash)));
    assert!(current_password_accepted(&None, &Some("h".to_string())));
    assert!(current_password_accepted(&Some("x".to_string()), &None));
}

#[test]
fn settings_map_keeps_latest_values() {
    let rows = vec![
        ("a".to_string(), Some("1".to_string())),
        ("b".to_string(), None),
        ("a".to_string(), Some("2".to_string())),
        ("c".to_string(), Some("3".to_string())),
        ("c".to_string(), None),
    ];
    let m = settings_map(&rows);
    assert_eq!(m.settings, vec![("a".to_string(), "2".to_string()), ("c".to_string(), "3".to_string())]);
}

#[test]
fn starter_config_document() {
    assert_eq!(
        to_text(&default_config()),
        "{\"inbounds\":[],\"log\":{\"loglevel\":\"warning\"},\"outbounds\":[{\"protocol\":\"freedom\",\"settings\":{},\"tag\":\"direct\"}]}"
    );
}

#[test]
fn pages_need_login() {
    assert_eq!(protected_page(Some(1)), PageAnswer::Panel);
    assert_eq!(protected_page(None), PageAnswer::RedirectToLogin);
}

#[test]
fn new_passwords_are_hashed() {
    let h = r3_ui::db::pool::hash_new_password("admin").unwrap();
    assert!(h.starts_with("$argon2"));
    assert_ne!(hash_password("admin"), "admin");
}
