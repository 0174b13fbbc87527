use r3_ui::json::{parse, to_text, JsonValue};
use r3_ui::services::xray::{
    default_assets_path, generate_config_text, generate_xray_config, release_download_url,
    release_file_name, releases_from_text, status_report, version_line, InboundConfig, LogBuffer,
    PlatformError, SniffingConfig, XrayStatus,
};

fn sample_inbound(stream: Option<JsonValue>) -> InboundConfig {
    InboundConfig {
        tag: "vless-443".to_string(),
        listen: "0.0.0.0".to_string(),
        port: 443,
        protocol: "vless".to_string(),
        settings: JsonValue::Object(vec![("clients".to_string(), JsonValue::Array(vec![]))]),
        stream_settings: stream,
        sniffing: SniffingConfig {
            enabled: true,
            dest_override: vec!["http".to_string(), "tls".to_string()],
        },
    }
}

const FIXED_TAIL: &str = "\"log\":{\"loglevel\":\"warning\"},\"outbounds\":[{\"protocol\":\"freedom\",\"tag\":\"direct\"},{\"protocol\":\"blackhole\",\"tag\":\"blocked\"}],\"policy\":{\"system\":{\"statsInboundDownlink\":true,\"statsInboundUplink\":true,\"statsOutboundDownlink\":true,\"statsOutboundUplink\":true}},\"routing\":{\"domainStrategy\":\"AsIs\",\"rules\":[{\"ip\":[\"geoip:private\"],\"outboundTag\":\"blocked\",\"type\":\"field\"}]},\"stats\":{}}";

#[test]
fn config_without_inbounds() {
    let doc = generate_xray_config(&[]);
    let expected = format!(
        "{{\"api\":{{\"services\":[\"StatsService\",\"HandlerService\"],\"tag\":\"api\"}},\"inbounds\":[],{}",
        FIXED_TAIL
    );
    assert_eq!(to_text(&doc), expected);
}

#[test]
fn config_with_inbound_fills_missing_stream_settings() {
    let doc = generate_xray_config(&[sample_inbound(None)]);
    let expected = format!(
        "{{\"api\":{{\"services\":[\"StatsService\",\"HandlerService\"],\"tag\":\"api\"}},\"inbounds\":[{{\"listen\":\"0.0.0.0\",\"port\":443,\"protocol\":\"vless\",\"settings\":{{\"clients\":[]}},\"sniffing\":{{\"destOverride\":[\"http\",\"tls\"],\"enabled\":true}},\"streamSettings\":{{}},\"tag\":\"vless-443\"}}],{}",
        FIXED_TAIL
    );
    assert_eq!(to_text(&doc), expected);
    let with_stream = generate_xray_config(&[sample_inbound(Some(JsonValue::Object(vec![(
        "network".to_string(),
        JsonValue::Str("ws".to_string()),
    )])))]);
    assert!(to_text(&with_stream).contains("\"streamSettings\":{\"network\":\"ws\"}"));
}

#[test]
fn config_text_is_indented_json_of_the_document() {
    let text = generate_config_text(&[sample_inbound(None)]);
    assert!(text.contains("\n  \"api\": {"));
    assert_eq!(
        parse(&text).map(|d| to_text(&d)),
        Some(to_text(&generate_xray_config(&[sample_inbound(None)])))
    );
}

#[test]
fn version_line_takes_first_line() {
    assert_eq!(version_line("Xray 1.8.4 (Xray, Penetrates Everything.)\nA unified platform"), "Xray 1.8.4 (Xray, Penetrates Everything.)");
    assert_eq!(version_line(""), "Unknown");
    assert_eq!(version_line("a\r\nb"), "a");
    assert_eq!(version_line("abc\r"), "abc\r");
    assert_eq!(version_line("\nsecond"), "");
}

#[test]
fn log_buffer_keeps_last_thousand_lines() {
    let mut logs = LogBuffer::new();
    for i in 0..1005 {
        logs.push(format!("line {}", i));
    }
    let all = logs.all();
    assert_eq!(all.len(), 1000);
    assert_eq!(all[0], "line 5");
    assert_eq!(all[999], "line 1004");
    logs.push_error("boom");
    assert_eq!(logs.tail(2), vec!["line 1004".to_string(), "[ERROR] boom".to_string()]);
    assert_eq!(logs.tail(5000).len(), 1000);
    assert_eq!(LogBuffer::new().tail(3).len(), 0);
}

#[test]
fn status_report_hides_details_when_stopped() {
    let s = status_report(true, 42, Some(7), Some("Xray 1.8".to_string()));
    assert!(s.running);
    assert_eq!(s.pid, Some(42));
    assert_eq!(s.uptime_seconds, Some(7));
    assert_eq!(s.version.as_deref(), Some("Xray 1.8"));
    let s = status_report(true, 0, None, None);
    assert_eq!(s.pid, None);
    let s = status_report(false, 42, Some(7), Some("v".to_string()));
    assert_eq!((s.pid, s.uptime_seconds, s.version), (None, None, None));
    let d = XrayStatus::default();
    assert!(!d.running);
}

#[test]
fn release_file_names_by_platform() {
    assert_eq!(release_file_name("linux", "x86_64").unwrap(), "Xray-linux-64.zip");
    assert_eq!(release_file_name("macos", "aarch64").unwrap(), "Xray-macos-arm64-v8a.zip");
    assert_eq!(release_file_name("freebsd", "arm").unwrap(), "Xray-freebsd-arm32-v7a.zip");
    let e = release_file_name("plan9", "x86_64").unwrap_err();
    assert_eq!(e.message(), "Unsupported OS: plan9");
    let e = release_file_name("plan9", "mips").unwrap_err();
    assert!(matches!(e, PlatformError::UnsupportedArch(_)));
    assert_eq!(e.message(), "Unsupported architecture: mips");
    assert_eq!(
        release_download_url("v1.8.4", "Xray-linux-64.zip"),
        "https://github.com/XTLS/Xray-core/releases/download/v1.8.4/Xray-linux-64.zip"
    );
}

#[test]
fn releases_are_read_leniently() {
    let body = r#"[
        {"tag_name":"v1.8.4","name":"Xray-core v1.8.4","published_at":"2023-08-01",
         "assets":[{"name":"Xray-linux-64.zip","browser_download_url":"https://x/a.zip","size":123},
                   {"name":"broken","size":1}]},
        {"tag_name":"v1.8.3","published_at":"2023-07-01","assets":[]},
        {"name":"no tag","published_at":"2023-06-01","assets":[]},
        {"tag_name":"v1.8.1","published_at":"2023-05-01"}
    ]"#;
    let rs = releases_from_text(body).unwrap();
    assert_eq!(rs.len(), 2);
    assert_eq!(rs[0].tag_name, "v1.8.4");
    assert_eq!(rs[0].name, "Xray-core v1.8.4");
    assert_eq!(rs[0].assets.len(), 1);
    assert_eq!(rs[0].assets[0].size, 123);
    assert_eq!(rs[1].name, "v1.8.3");
    assert!(releases_from_text("{}").is_none());
    assert!(releases_from_text("not json").is_none());
    let many: Vec<String> = (0..25)
        .map(|i| format!("{{\"tag_name\":\"v{}\",\"published_at\":\"d\",\"assets\":[]}}", i))
        .collect();
    assert_eq!(releases_from_text(&format!("[{}]", many.join(","))).unwrap().len(), 20);
}

#[test]
fn assets_path_defaults_beside_binary() {
    assert_eq!(default_assets_path("/usr/local/bin/xray"), "/usr/local/bin");
    assert_eq!(default_assets_path("/"), "/usr/share/xray");
}
