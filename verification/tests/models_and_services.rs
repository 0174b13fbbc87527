use r3_ui::config::settings::{PortError, Settings};
use r3_ui::middleware::session::SessionManager;
use r3_ui::models::{ClientStats, ClientTraffic, Protocol, TrafficResetConfig};
use r3_ui::scheduler::jobs::{
    client_check_plan, days_remaining, expiry_date, expiry_warning_time, traffic_reset_plan, used_traffic, DISABLE_EXPIRED_SQL,
    EXPIRING_SQL, NEAR_LIMIT_SQL,
};
use r3_ui::services::i18n::{get_translation_sync, language_info, parse_toml_translations, I18n, LanguageTable};
use r3_ui::services::system::{cpu_buckets, history_cutoff, memory_free, samples_between, samples_since, trim_history};
use r3_ui::services::template::{get_content_type, page_context};
use r3_ui::utils::response::ApiResponse;
use r3_ui::xray::api::{build_inbound_downlink_name, build_inbound_uplink_name, parse_stats_name};
use r3_ui::xray::process::reported_pid;
use r3_ui::XrayProcessState;

fn client(up: i64, down: i64, total: i64, expiry_time: i64, enable: bool) -> ClientTraffic {
    ClientTraffic {
        id: 1,
        inbound_id: 2,
        email: "a@b".to_string(),
        up,
        down,
        total,
        expiry_time,
        enable,
        limit_ip: 0,
        tg_id: 0,
        sub_id: "s".to_string(),
        comment: String::new(),
        reset: 0,
        created_at: 0,
        updated_at: 0,
    }
}

#[test]
fn client_quota_and_expiry() {
    let c = client(60, 40, 100, 0, true);
    assert!(c.is_depleted());
    assert_eq!(c.remaining_traffic(), 0);
    assert!(!c.is_active_at(5));
    let c = client(10, 20, 100, 50, true);
    assert!(!c.is_depleted());
    assert_eq!(c.remaining_traffic(), 70);
    assert!(c.is_active_at(49));
    assert!(c.is_expired_at(50));
    assert!(!c.is_active_at(50));
    assert_eq!(c.remaining_time_at(20), 30);
    assert_eq!(c.remaining_time_at(60), 0);
    let unlimited = client(10, 20, 0, 0, true);
    assert_eq!(unlimited.remaining_traffic(), -1);
    assert_eq!(unlimited.remaining_time(), -1);
    assert!(!unlimited.is_expired());
    assert!(unlimited.is_active());
    assert!(!client(0, 0, 0, 0, false).is_active_at(0));
}

#[test]
fn client_stats_add_usage() {
    let s = ClientStats::from(client(5, 7, 100, 0, true));
    assert_eq!(s.usage, 12);
    assert_eq!(s.email, "a@b");
    let s = ClientStats::from(client(i64::MAX, 1, 0, 0, true));
    assert_eq!(s.usage, i64::MIN);
}

#[test]
fn protocol_names() {
    assert!(matches!(Protocol::from_str("VMess"), Some(Protocol::Vmess)));
    assert!(matches!(Protocol::from_str("DOKODEMO-DOOR"), Some(Protocol::DokodemoDoor)));
    assert!(matches!(Protocol::from_str(&Protocol::WireGuard.as_str().to_uppercase()), Some(Protocol::WireGuard)));
    assert!(matches!(Protocol::from_str("dokodemo-door"), Some(Protocol::DokodemoDoor)));
    assert!(Protocol::from_str("quic").is_none());
    assert_eq!(Protocol::WireGuard.as_str(), "wireguard");
    assert!(matches!(Protocol::from_lowercase(Protocol::Trojan.as_str()), Some(Protocol::Trojan)));
}

#[test]
fn next_reset_times() {
    let now = 1705312800; // 2024-01-15 10:00 UTC, a Monday
    let mut c = TrafficResetConfig::default();
    assert_eq!(c.next_reset_after(now), 0);
    assert_eq!(c.calculate_next_reset(), 0);
    c.reset_type = 1;
    c.reset_hour = 3;
    assert_eq!(c.next_reset_after(now), 1705374000);
    c.reset_hour = 12;
    assert_eq!(c.next_reset_after(now), 1705320000);
    c.reset_type = 2;
    c.reset_day = 1;
    c.reset_hour = 0;
    assert_eq!(c.next_reset_after(now), 1705881600);
    c.reset_day = 3;
    assert_eq!(c.next_reset_after(now), 1705449600);
    c.reset_type = 3;
    c.reset_day_of_month = 1;
    assert_eq!(c.next_reset_after(now), 1706745600);
    c.reset_day_of_month = 40;
    c.reset_hour = 99;
    assert_eq!(c.next_reset_after(now), 1706482800);
}

#[test]
fn next_reset_is_after_now() {
    let now = 1705312800; // 2024-01-15 10:00 UTC, a Monday
    let mut c = TrafficResetConfig::default();
    c.reset_type = 2;
    c.reset_hour = 0;
    c.reset_day = -16;
    assert_eq!(c.next_reset_after(now), 1705622400);
    assert!(c.next_reset_after(now) > now);
    c.reset_type = 1;
    c.reset_hour = 10;
    assert_eq!(c.next_reset_after(now), now + 86400);
}

#[test]
fn stats_names() {
    assert_eq!(
        parse_stats_name("inbound>>>vless-443>>>traffic>>>uplink"),
        Some(("inbound".to_string(), "vless-443".to_string(), "uplink".to_string()))
    );
    assert_eq!(parse_stats_name("inbound>>>x>>>traffic"), None);
    assert_eq!(parse_stats_name("a>>>>b>>>c>>>d").map(|p| p.1), Some(">b".to_string()));
    assert_eq!(build_inbound_uplink_name("t"), "inbound>>>t>>>traffic>>>uplink");
    assert_eq!(
        parse_stats_name(&build_inbound_downlink_name(">in>b")),
        Some(("inbound".to_string(), ">in>b".to_string(), "downlink".to_string()))
    );
    assert_eq!(parse_stats_name(&build_inbound_uplink_name("a>")).map(|p| p.1), Some("a".to_string()));
    assert_eq!(build_inbound_downlink_name("t"), "inbound>>>t>>>traffic>>>downlink");
}

#[test]
fn api_response_envelopes() {
    let r = ApiResponse::success(5);
    assert!(r.success && r.data == Some(5) && r.message.is_none());
    let r: ApiResponse<i64> = ApiResponse::success_msg("Not authenticated");
    assert_eq!(r.message.as_deref(), Some("Not authenticated"));
    assert!(r.success);
    assert_eq!(r.data, None);
    let r: ApiResponse<bool> = ApiResponse::error("bad");
    assert!(!r.success);
    assert!(ApiResponse::ok().success);
    let s = XrayProcessState { is_running: true, pid: Some(3), started_at: None, restart_count: 0 };
    assert!(s.is_running());
    assert_eq!(reported_pid(0), None);
    assert_eq!(reported_pid(42), Some(42));
}

#[test]
fn reset_plan_cutoffs() {
    let plan = traffic_reset_plan(10_000_000);
    assert_eq!(plan.len(), 6);
    assert_eq!(plan[0].cutoff, 10_000_000 - 86400);
    assert_eq!(plan[1].cutoff, 10_000_000 - 604800);
    assert_eq!(plan[2].cutoff, 10_000_000 - 2592000);
    assert_eq!(plan[5].cutoff, 10_000_000 - 2592000);
    assert!(plan.iter().all(|s| s.now == 10_000_000));
    assert!(plan[0].sql.contains("traffic_reset = '1'"));
    assert!(plan[3].sql.contains("client_traffics") && plan[3].sql.contains("reset = 1"));
}

#[test]
fn expiry_notice_fields() {
    assert_eq!(expiry_warning_time(100), 100 + 7 * 86400);
    assert_eq!(days_remaining(3 * 86400 + 5, 0), 3);
    assert_eq!(days_remaining(0, 86401), -1);
    assert_eq!(expiry_date(1705276800), "2024-01-15");
    assert_eq!(used_traffic(3, 4), 7);
}

#[test]
fn cpu_history_windows() {
    let mut h = vec![1, 2, 3, 4, 5];
    trim_history(&mut h, 3);
    assert_eq!(h, vec![3, 4, 5]);
    trim_history(&mut h, 10);
    assert_eq!(h, vec![3, 4, 5]);
    assert_eq!(history_cutoff(1000, 2), 880);
    assert_eq!(samples_since(&[5, 10, 15], 10), vec![1, 2]);
    assert_eq!(samples_between(&[5, 10, 15], 10, 15), vec![1]);
    assert_eq!(cpu_buckets(1000, 10, 3), vec![(1000, 1200), (1200, 1400), (1400, 1600)]);
    let b = cpu_buckets(1000, 10, 7);
    assert_eq!(b[6], (1000 + 6 * 85, 1000 + 7 * 85));
    assert_eq!(cpu_buckets(1000, -1, 2), vec![(1000, 970), (970, 940)]);
    assert_eq!(memory_free(10, 3), 7);
    assert_eq!(memory_free(3, 10), 0);
}

#[test]
fn translations_flatten_and_fall_back() {
    let entries = parse_toml_translations(
        "[pages.login]\ntitle = \"Login\"\ncount = 3\nflag = true\npi = 3.14\n[a]\nb = \"x\"\n",
    )
    .unwrap();
    assert_eq!(
        entries,
        vec![
            ("a.b".to_string(), "x".to_string()),
            ("pages.login.count".to_string(), "3".to_string()),
            ("pages.login.flag".to_string(), "true".to_string()),
            ("pages.login.title".to_string(), "Login".to_string()),
        ]
    );
    assert!(parse_toml_translations("not = = toml").is_none());
    let mut i18n = I18n::new();
    assert_eq!(i18n.get_language(), "en_US");
    i18n.add_translations("en_US", vec![("k".to_string(), "Hello".to_string()), ("only".to_string(), "En".to_string())]);
    i18n.add_translations("zh_CN", vec![("k".to_string(), "你好".to_string())]);
    i18n.set_language("zh_CN");
    assert_eq!(i18n.t("k"), "你好");
    assert_eq!(i18n.t("only"), "En");
    assert_eq!(i18n.t("missing"), "missing");
    assert_eq!(i18n.t_sync("k", "zh_CN"), "k");
    assert!(i18n.is_language_supported("zh_CN"));
    assert!(!i18n.is_language_supported("fr_FR"));
    let langs = i18n.get_supported_languages();
    assert_eq!(langs.len(), 2);
    assert_eq!(langs[1].name, "简体中文");
    assert_eq!(language_info("xx_YY").icon, "🌐");
    assert_eq!(language_info("xx_YY").name, "xx_YY");
    let tables = vec![LanguageTable { lang: "en_US".to_string(), entries: vec![("a".to_string(), "A".to_string())] }];
    assert_eq!(get_translation_sync(&tables, "a", "ru_RU"), "A");
    assert_eq!(get_translation_sync(&tables, "b", "ru_RU"), "b");
}

#[test]
fn asset_content_types() {
    assert_eq!(get_content_type("js/app.min.js"), "application/javascript");
    assert_eq!(get_content_type("img/x.jpeg"), "image/jpeg");
    assert_eq!(get_content_type("fonts/a.woff"), "font/woff2");
    assert_eq!(get_content_type("noext"), "application/octet-stream");
    assert_eq!(get_content_type("a.b/c"), "application/octet-stream");
    assert_eq!(get_content_type("style.css"), "text/css");
    let ctx = page_context("/", "h", "pages.index.title", "1.0", "en_US");
    assert_eq!(ctx[0], ("base_path".to_string(), "/panel/".to_string()));
    assert_eq!(ctx.len(), 5);
}

#[test]
fn settings_from_environment_values() {
    let s = Settings::from_values(None, None, None, None, None, None, None).unwrap();
    assert_eq!(s.host, "0.0.0.0");
    assert_eq!(s.port, 2053);
    assert_eq!(s.database_url, "sqlite:data.db?mode=rwc");
    assert_eq!(s.xray_binary, "/usr/local/bin/xray");
    assert_eq!(s.web_root, "./web/html");
    let s = Settings::from_values(Some("127.0.0.1".to_string()), Some("+8080".to_string()), None, None, None, None, None).unwrap();
    assert_eq!((s.host.as_str(), s.port), ("127.0.0.1", 8080));
    let err = |p: &str| Settings::from_values(None, Some(p.to_string()), None, None, None, None, None).unwrap_err();
    assert_eq!(err(""), PortError::Empty);
    assert_eq!(err("+"), PortError::InvalidDigit);
    assert_eq!(err("80a"), PortError::InvalidDigit);
    assert_eq!(err("70000"), PortError::PosOverflow);
    assert_eq!(err("-1"), PortError::InvalidDigit);
    assert_eq!(err("70000").message(), "number too large to fit in target type");
    assert_eq!(SessionManager::USER_ID_KEY, "user_id");
    assert!(SessionManager::allows(Some(1)));
    assert!(!SessionManager::allows(None));
}

#[test]
fn client_check_plan_values() {
    let p = client_check_plan(1_000_000);
    assert_eq!(p.warning_time, 1_000_000 + 7 * 86400);
    assert_eq!(p.now, 1_000_000);
    assert_eq!(p.near_limit_sql, NEAR_LIMIT_SQL);
    assert_eq!(p.expiring_sql, EXPIRING_SQL);
    assert_eq!(p.disable_sql, DISABLE_EXPIRED_SQL);
    assert!(EXPIRING_SQL.contains("ct.expiry_time <= ?"));
}

#[test]
fn clock_based_results_follow_the_clock() {
    let mut c = TrafficResetConfig::default();
    c.reset_type = 1;
    let now = chrono::Utc::now().timestamp();
    let r = c.calculate_next_reset();
    assert!(r > now && r <= now + 86400 + 1);
    let t = client(0, 0, 0, now + 1000, true);
    let left = t.remaining_time();
    assert!(left > 0 && left <= 1000);
}
