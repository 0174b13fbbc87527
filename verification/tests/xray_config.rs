use r3_ui::json::{to_text, JsonValue};
use r3_ui::xray::config::{
    HttpAccount, InboundConfig, ProtocolSettings, RoutingRule, SniffingConfig, SocksAccount,
    StreamSettings, TlsCertificate, TrojanClient, VlessClient, VmessClient, XrayConfig,
};

fn inbound(tag: &str) -> InboundConfig {
    InboundConfig {
        tag: tag.to_string(),
        listen: "0.0.0.0".to_string(),
        port: 1080,
        protocol: "socks".to_string(),
        settings: JsonValue::Object(vec![]),
        stream_settings: None,
        sniffing: SniffingConfig {
            enabled: false,
            dest_override: vec![],
            domains_excluded: None,
            route_only: Some(true),
        },
    }
}

#[test]
fn default_config_document() {
    let c = XrayConfig::default();
    assert_eq!(
        to_text(&c.to_value()),
        "{\"api\":{\"services\":[\"StatsService\",\"HandlerService\",\"LoggerService\"],\"tag\":\"api\"},\"inbounds\":[],\"log\":{\"loglevel\":\"warning\"},\"outbounds\":[{\"protocol\":\"freedom\",\"tag\":\"direct\"},{\"protocol\":\"blackhole\",\"settings\":{},\"tag\":\"blocked\"}],\"policy\":{\"levels\":{\"0\":{\"bufferSize\":10240,\"connIdle\":300,\"downlinkOnly\":5,\"handshake\":4,\"statsUserDownlink\":false,\"statsUserUplink\":false,\"uplinkOnly\":2}},\"system\":{\"stats_inbound_downlink\":true,\"stats_inbound_uplink\":true,\"stats_outbound_downlink\":true,\"stats_outbound_uplink\":true}},\"routing\":{\"domain_strategy\":\"AsIs\",\"rules\":[{\"ip\":[\"geoip:private\"],\"outbound_tag\":\"blocked\",\"type\":\"field\"}]},\"stats\":{}}"
    );
    assert!(c.to_json().starts_with("{\n  \""));
}

#[test]
fn add_and_remove_inbounds() {
    let mut c = XrayConfig::default();
    c.add_inbound(inbound("a"));
    c.add_inbound(inbound("b"));
    c.add_inbound(inbound("a"));
    c.add_inbound(inbound("c"));
    c.remove_inbound("a");
    let tags: Vec<&str> = c.inbounds.iter().map(|i| i.tag.as_str()).collect();
    assert_eq!(tags, vec!["b", "c"]);
    c.remove_inbound("zzz");
    assert_eq!(c.inbounds.len(), 2);
    assert!(to_text(&c.to_value()).contains("\"sniffing\":{\"dest_override\":[],\"enabled\":false,\"route_only\":true}"));
}

#[test]
fn add_rule_appends() {
    let mut c = XrayConfig::default();
    c.add_rule(RoutingRule {
        rule_type: "field".to_string(),
        ip: None,
        domain: Some(vec!["geosite:ads".to_string()]),
        outbound_tag: Some("blocked".to_string()),
        inbound_tag: Some(vec!["in".to_string()]),
    });
    assert_eq!(c.routing.rules.len(), 2);
    assert!(to_text(&c.to_value()).contains(
        "{\"domain\":[\"geosite:ads\"],\"inbound_tag\":[\"in\"],\"outbound_tag\":\"blocked\",\"type\":\"field\"}"
    ));
}

#[test]
fn protocol_settings_documents() {
    let vm = ProtocolSettings::vmess_clients(vec![VmessClient {
        id: "u1".to_string(),
        alter_id: Some(0),
        email: None,
        level: Some(1),
    }]);
    assert_eq!(to_text(&vm), "{\"clients\":[{\"alter_id\":0,\"id\":\"u1\",\"level\":1}]}");
    let vl = ProtocolSettings::vless_clients(
        vec![VlessClient { id: "u2".to_string(), email: Some("a@b".to_string()), flow: None, level: None }],
        "none",
    );
    assert_eq!(to_text(&vl), "{\"clients\":[{\"email\":\"a@b\",\"id\":\"u2\"}],\"decryption\":\"none\"}");
    let tr = ProtocolSettings::trojan_clients(vec![TrojanClient { password: "p".to_string(), email: None, level: None }]);
    assert_eq!(to_text(&tr), "{\"clients\":[{\"password\":\"p\"}]}");
    let ss = ProtocolSettings::shadowsocks("aes-128-gcm", "pw", "tcp,udp");
    assert_eq!(to_text(&ss), "{\"method\":\"aes-128-gcm\",\"network\":\"tcp,udp\",\"password\":\"pw\"}");
    let so = ProtocolSettings::socks("password", vec![SocksAccount { user: "u".to_string(), pass: "p".to_string() }], true);
    assert_eq!(to_text(&so), "{\"accounts\":[{\"pass\":\"p\",\"user\":\"u\"}],\"auth\":\"password\",\"udp\":true}");
    let ht = ProtocolSettings::http(vec![]);
    assert_eq!(to_text(&ht), "{\"accounts\":[]}");
    let _ = HttpAccount { user: String::new(), pass: String::new() };
}

#[test]
fn tcp_stream_settings_cases() {
    assert_eq!(
        to_text(&StreamSettings::tcp(Some("http"), Some("example.com"), Some("/p"))),
        "{\"network\":\"tcp\",\"tcpSettings\":{\"header\":{\"request\":{\"headers\":{\"Host\":[\"example.com\"]},\"path\":\"/p\"},\"type\":\"http\"}}}"
    );
    assert_eq!(
        to_text(&StreamSettings::tcp(Some("http"), Some("example.com"), None)),
        "{\"network\":\"tcp\",\"tcpSettings\":{\"header\":{\"request\":{\"headers\":{\"Host\":[\"example.com\"]}},\"type\":\"http\"}}}"
    );
    let none = "{\"network\":\"tcp\",\"tcpSettings\":{\"header\":{\"type\":\"none\"}}}";
    assert_eq!(to_text(&StreamSettings::tcp(Some("http"), None, Some("/p"))), none);
    assert_eq!(to_text(&StreamSettings::tcp(None, Some("h"), None)), none);
    assert_eq!(to_text(&StreamSettings::tcp(Some("srtp"), Some("h"), None)), none);
}

#[test]
fn other_stream_settings() {
    assert_eq!(
        to_text(&StreamSettings::websocket("/ws", Some("h.example"))),
        "{\"network\":\"ws\",\"wsSettings\":{\"headers\":{\"Host\":[\"h.example\"]},\"path\":\"/ws\"}}"
    );
    assert_eq!(
        to_text(&StreamSettings::websocket("/ws", None)),
        "{\"network\":\"ws\",\"wsSettings\":{\"headers\":{},\"path\":\"/ws\"}}"
    );
    assert_eq!(
        to_text(&StreamSettings::http2("/h2", &["a.example", "b.example"])),
        "{\"httpSettings\":{\"host\":[\"a.example\",\"b.example\"],\"path\":\"/h2\"},\"network\":\"http\"}"
    );
    assert_eq!(
        to_text(&StreamSettings::grpc("svc", false)),
        "{\"grpcSettings\":{\"multiMode\":false,\"serviceName\":\"svc\"},\"network\":\"grpc\"}"
    );
    assert_eq!(
        to_text(&StreamSettings::tls(
            "example.com",
            vec![TlsCertificate {
                certificate_file: Some("/c.pem".to_string()),
                key_file: Some("/k.pem".to_string()),
                certificate: None,
                key: None,
            }]
        )),
        "{\"security\":\"tls\",\"tlsSettings\":{\"certificates\":[{\"certificate_file\":\"/c.pem\",\"key_file\":\"/k.pem\"}],\"rejectUnknownSni\":true,\"serverName\":\"example.com\"}}"
    );
    assert_eq!(
        to_text(&StreamSettings::reality(false, "www.example.com:443", &["www.example.com"], "pk", &["", "ab"])),
        "{\"realitySettings\":{\"dest\":\"www.example.com:443\",\"privateKey\":\"pk\",\"serverNames\":[\"www.example.com\"],\"shortIds\":[\"\",\"ab\"],\"show\":false},\"security\":\"reality\"}"
    );
}
