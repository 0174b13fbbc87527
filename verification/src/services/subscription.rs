//! Subscription service: client configurations rendered as links and client documents.
use vstd::prelude::*;
use vstd::utf8::encode_utf8;
use std::collections::HashMap;
use crate::encoding::{base64_encode, base64_text, url_encode, url_encoded};
use crate::clock::{format_utc, formatted_utc};
use crate::json::{compact_text, member, members_view, pretty_text, string, to_pretty_text, to_text, JsonValue, JsonView};
use crate::models::inbound::{protocol_named, Protocol};
use crate::text::{
    ascii_lowercase, ascii_uppercase, int_text, lemma_ascii_case_fold, join, joined, lowercased, push_scaled, scaled_text, nat_text, opt_text, owned, push_char, push_i64, push_str, push_u128,
    str_eq, text_or_empty, to_lowercase, views,
};

verus! {

/// Subscription information.
#[derive(Debug, Clone)]
pub struct SubscriptionInfo {
    pub url: String,
    pub token: String,
    pub enabled: bool,
}

/// Client configuration rendered into subscriptions.
#[derive(Debug, Clone)]
pub struct ClientConfig {
    pub email: String,
    pub protocol: String,
    pub address: String,
    pub port: i32,
    pub uuid: String,
    pub flow: Option<String>,
    pub encryption: String,
    pub transport_type: String,
    pub transport_settings: Option<TransportSettings>,
    pub security: String,
    pub security_settings: Option<SecuritySettings>,
    pub remark: String,
    pub upload: i64,
    pub download: i64,
    pub total: i64,
    pub expiry_time: i64,
}

/// Transport settings.
#[derive(Debug, Clone)]
pub struct TransportSettings {
    pub path: Option<String>,
    pub host: Option<String>,
    pub headers: Option<HashMap<String, String>>,
    pub grpc_service_name: Option<String>,
}

/// Security settings (TLS/Reality).
#[derive(Debug, Clone)]
pub struct SecuritySettings {
    pub server_name: Option<String>,
    pub allow_insecure: bool,
    pub fingerprint: Option<String>,
    pub public_key: Option<String>,
    pub short_id: Option<String>,
    pub spider_x: Option<String>,
}

/// The content of `TransportSettings` that subscriptions read.
pub struct TransportView {
    pub path: Option<Seq<char>>,
    pub host: Option<Seq<char>>,
    pub grpc_service_name: Option<Seq<char>>,
}

/// The content of `SecuritySettings`.
pub struct SecurityView {
    pub server_name: Option<Seq<char>>,
    pub allow_insecure: bool,
    pub fingerprint: Option<Seq<char>>,
    pub public_key: Option<Seq<char>>,
    pub short_id: Option<Seq<char>>,
    pub spider_x: Option<Seq<char>>,
}

/// The content of a `ClientConfig`.
pub struct ClientConfigView {
    pub email: Seq<char>,
    pub protocol: Seq<char>,
    pub address: Seq<char>,
    pub port: i32,
    pub uuid: Seq<char>,
    pub flow: Option<Seq<char>>,
    pub encryption: Seq<char>,
    pub transport_type: Seq<char>,
    pub transport: Option<TransportView>,
    pub security: Seq<char>,
    pub security_settings: Option<SecurityView>,
    pub remark: Seq<char>,
    pub upload: i64,
    pub download: i64,
    pub total: i64,
    pub expiry_time: i64,
}

impl View for TransportSettings {
    type V = TransportView;

    open spec fn view(&self) -> TransportView {
        TransportView {
            path: opt_text(self.path),
            host: opt_text(self.host),
            grpc_service_name: opt_text(self.grpc_service_name),
        }
    }
}

impl View for SecuritySettings {
    type V = SecurityView;

    open spec fn view(&self) -> SecurityView {
        SecurityView {
            server_name: opt_text(self.server_name),
            allow_insecure: self.allow_insecure,
            fingerprint: opt_text(self.fingerprint),
            public_key: opt_text(self.public_key),
            short_id: opt_text(self.short_id),
            spider_x: opt_text(self.spider_x),
        }
    }
}

impl View for ClientConfig {
    type V = ClientConfigView;

    open spec fn view(&self) -> ClientConfigView {
        ClientConfigView {
            email: self.email@,
            protocol: self.protocol@,
            address: self.address@,
            port: self.port,
            uuid: self.uuid@,
            flow: opt_text(self.flow),
            encryption: self.encryption@,
            transport_type: self.transport_type@,
            transport: match self.transport_settings {
                Some(t) => Some(t@),
                None => None,
            },
            security: self.security@,
            security_settings: match self.security_settings {
                Some(s) => Some(s@),
                None => None,
            },
            remark: self.remark@,
            upload: self.upload,
            download: self.download,
            total: self.total,
            expiry_time: self.expiry_time,
        }
    }
}

/// Subscription formats.
#[derive(Debug, Clone, Copy, PartialEq, Eq, Structural)]
pub enum SubscriptionFormat {
    /// Base64 of newline separated links.
    Base64,
    /// Clash YAML.
    Clash,
    /// sing-box JSON.
    SingBox,
    Surge,
    Quantumult,
    /// Same text as Surge.
    Surfboard,
}

/// The format a lowercase name selects.
pub open spec fn format_named(s: Seq<char>) -> Option<SubscriptionFormat> {
    if s == "b64"@ || s == "base64"@ || s == "default"@ { Some(SubscriptionFormat::Base64) }
    else if s == "clash"@ || s == "yaml"@ { Some(SubscriptionFormat::Clash) }
    else if s == "singbox"@ || s == "sing-box"@ || s == "json"@ { Some(SubscriptionFormat::SingBox) }
    else if s == "surge"@ { Some(SubscriptionFormat::Surge) }
    else if s == "quantumult"@ { Some(SubscriptionFormat::Quantumult) }
    else if s == "surfboard"@ { Some(SubscriptionFormat::Surfboard) }
    else { None }
}

impl SubscriptionFormat {
    /// The format a name selects, the name being already lowercase.
    pub fn from_lowercase(s: &str) -> (r: Option<SubscriptionFormat>)
        ensures
            r == format_named(s@),
    {
        if str_eq(s, "b64") || str_eq(s, "base64") || str_eq(s, "default") { Some(SubscriptionFormat::Base64) }
        else if str_eq(s, "clash") || str_eq(s, "yaml") { Some(SubscriptionFormat::Clash) }
        else if str_eq(s, "singbox") || str_eq(s, "sing-box") || str_eq(s, "json") { Some(SubscriptionFormat::SingBox) }
        else if str_eq(s, "surge") { Some(SubscriptionFormat::Surge) }
        else if str_eq(s, "quantumult") { Some(SubscriptionFormat::Quantumult) }
        else if str_eq(s, "surfboard") { Some(SubscriptionFormat::Surfboard) }
        else { None }
    }

    /// Parses a format name, ignoring case.
    pub fn from_str(s: &str) -> (r: Option<SubscriptionFormat>)
        ensures
            r == format_named(lowercased(s@)),
            vstd::utf8::is_ascii_chars(s@) ==> r == format_named(ascii_lowercase(s@)),
    {
        let lower = to_lowercase(s);
        SubscriptionFormat::from_lowercase(lower.as_str())
    }
}

/// Format names ignore case: a text and its ASCII uppercase name the same format.
pub proof fn lemma_format_names_ignore_case(s: Seq<char>)
    ensures
        format_named(ascii_lowercase(ascii_uppercase(s))) == format_named(ascii_lowercase(s)),
{
    lemma_ascii_case_fold(s);
}

/// Text of a random version 4 UUID in its hyphenated form: 36 characters, hyphens at
/// positions 8, 13, 18 and 23, lowercase hexadecimal digits elsewhere.
pub open spec fn is_hyphenated_uuid(s: Seq<char>) -> bool {
    &&& s.len() == 36
    &&& forall|i: int| 0 <= i < 36 ==> (#[trigger] s[i] == '-' <==> (i == 8 || i == 13 || i == 18 || i == 23))
    &&& forall|i: int| 0 <= i < 36 && !(i == 8 || i == 13 || i == 18 || i == 23) ==> is_lower_hex(#[trigger] s[i])
}

/// Lowercase hexadecimal digits.
pub open spec fn is_lower_hex(c: char) -> bool {
    ('0' <= c <= '9') || ('a' <= c <= 'f')
}

/// A fresh random UUID (calls `uuid::Uuid::new_v4` and its `Display`, which writes the
/// hyphenated lowercase form). Only the shape of the text is claimed.
#[verifier::external_body]
fn random_uuid_text() -> (r: String)
    ensures
        is_hyphenated_uuid(r@),
{
    uuid::Uuid::new_v4().to_string()
}

/// Number of UUID hyphen positions before index `i`.
pub open spec fn hyphens_before(i: int) -> int {
    (if i > 8 { 1int } else { 0int }) + (if i > 13 { 1int } else { 0int }) + (if i > 18 { 1int } else { 0int })
        + (if i > 23 { 1int } else { 0int })
}

/// The characters of `s` other than `-`, in order.
pub open spec fn without_hyphens(s: Seq<char>) -> Seq<char>
    decreases s.len(),
{
    if s.len() == 0 {
        Seq::empty()
    } else if s.last() == '-' {
        without_hyphens(s.drop_last())
    } else {
        without_hyphens(s.drop_last()).push(s.last())
    }
}

/// The service generating subscription links and documents.
pub struct SubscriptionService;

/// The subscription URL for a host, port and token.
pub open spec fn subscription_url(host: Seq<char>, port: u16, token: Seq<char>) -> Seq<char> {
    "http://"@ + host + ":"@ + nat_text(port as nat) + "/sub/"@ + token
}

impl SubscriptionService {
    /// The subscription URL for a host, port and token.
    pub fn generate_url(host: &str, port: u16, token: &str) -> (r: String)
        ensures
            r@ == subscription_url(host@, port, token@),
    {
        let mut s = owned("http://");
        push_str(&mut s, host);
        push_str(&mut s, ":");
        push_u128(&mut s, port as u128);
        push_str(&mut s, "/sub/");
        push_str(&mut s, token);
        s
    }

    /// A random subscription token: a random UUID without its hyphens, so 32 lowercase
    /// hexadecimal digits.
    pub fn generate_token() -> (r: String)
        ensures
            r@.len() == 32,
            forall|i: int| 0 <= i < 32 ==> is_lower_hex(#[trigger] r@[i]),
            exists|u: Seq<char>| is_hyphenated_uuid(u) && r@ == without_hyphens(u),
    {
        let u = random_uuid_text();
        let cs = crate::text::chars_of(u.as_str());
        let mut r = String::new();
        let mut i: usize = 0;
        while i < cs.len()
            invariant
                cs@ == u@,
                is_hyphenated_uuid(u@),
                0 <= i <= 36,
                r@ == without_hyphens(u@.take(i as int)),
                r@.len() == i - hyphens_before(i as int),
                forall|j: int| 0 <= j < r@.len() ==> is_lower_hex(#[trigger] r@[j]),
            decreases 36 - i,
        {
            proof {
                assert(u@.take(i + 1).drop_last() =~= u@.take(i as int));
                assert(u@.take(i + 1).last() == u@[i as int]);
            }
            if cs[i] != '-' {
                push_char(&mut r, cs[i]);
            }
            i = i + 1;
        }
        assert(u@.take(36) =~= u@);
        r
    }
}

/// The transport path, if any.
pub open spec fn transport_path(c: ClientConfigView) -> Option<Seq<char>> {
    match c.transport {
        Some(t) => t.path,
        None => None,
    }
}

/// The transport host, if any.
pub open spec fn transport_host(c: ClientConfigView) -> Option<Seq<char>> {
    match c.transport {
        Some(t) => t.host,
        None => None,
    }
}

/// The TLS server name, if any.
pub open spec fn server_name(c: ClientConfigView) -> Option<Seq<char>> {
    match c.security_settings {
        Some(s) => s.server_name,
        None => None,
    }
}

/// The TLS fingerprint, if any.
pub open spec fn fingerprint(c: ClientConfigView) -> Option<Seq<char>> {
    match c.security_settings {
        Some(s) => s.fingerprint,
        None => None,
    }
}

/// The JSON document carried by a vmess link.
pub open spec fn vmess_document(c: ClientConfigView, host: Seq<char>, remark: Seq<char>) -> JsonView {
    let base = seq![
        ("v"@, JsonView::Str("2"@)),
        ("ps"@, JsonView::Str(remark)),
        ("add"@, JsonView::Str(host)),
        ("port"@, JsonView::Int(c.port as int)),
        ("id"@, JsonView::Str(c.uuid)),
        ("aid"@, JsonView::Int(0)),
        ("net"@, JsonView::Str(c.transport_type)),
        ("type"@, JsonView::Str("none"@)),
        ("host"@, JsonView::Str(text_or_empty(transport_host(c)))),
        ("path"@, JsonView::Str(text_or_empty(transport_path(c)))),
        ("tls"@, JsonView::Str(if c.security == "tls"@ { "tls"@ } else { Seq::empty() })),
        ("sni"@, JsonView::Str(text_or_empty(server_name(c)))),
    ];
    JsonView::Object(
        match fingerprint(c) {
            Some(fp) => base.push(("fp"@, JsonView::Str(fp))),
            None => base,
        },
    )
}

/// A vmess link: base64 of the compact JSON document.
pub open spec fn vmess_link(c: ClientConfigView, host: Seq<char>, remark: Seq<char>) -> Seq<char> {
    "vmess://"@ + base64_text(encode_utf8(compact_text(vmess_document(c, host, remark))))
}

/// The optional parameter `name=value` with the value percent-encoded.
pub open spec fn encoded_param(name: Seq<char>, value: Option<Seq<char>>) -> Seq<Seq<char>> {
    match value {
        Some(v) => seq![kv(name, url_encoded(v))],
        None => Seq::empty(),
    }
}

/// A query parameter `name=value`.
pub open spec fn kv(name: Seq<char>, value: Seq<char>) -> Seq<char> {
    name + "="@ + value
}

/// Query parameters for the transport path and host (percent-encoded).
pub open spec fn transport_params(c: ClientConfigView) -> Seq<Seq<char>> {
    encoded_param("path"@, transport_path(c)) + encoded_param("host"@, transport_host(c))
}

/// Query parameters of a vless link.
pub open spec fn vless_params(c: ClientConfigView) -> Seq<Seq<char>> {
    let flow = text_or_empty(c.flow);
    seq![kv("type"@, c.transport_type), kv("security"@, c.security)]
        + (if flow.len() > 0 { seq![kv("flow"@, flow)] } else { Seq::empty() })
        + transport_params(c)
        + (match c.security_settings {
            Some(s) => vless_security_params(s),
            None => Seq::empty(),
        })
}

/// Query parameters of a vless link taken from its security settings.
pub open spec fn vless_security_params(s: SecurityView) -> Seq<Seq<char>> {
    encoded_param("sni"@, s.server_name)
        + (match s.fingerprint { Some(fp) => seq![kv("fp"@, fp)], None => Seq::empty() })
        + encoded_param("pbk"@, s.public_key)
        + encoded_param("sid"@, s.short_id)
        + encoded_param("spx"@, s.spider_x)
}

/// A vless link.
pub open spec fn vless_link(c: ClientConfigView, host: Seq<char>, remark: Seq<char>) -> Seq<char> {
    "vless://"@ + c.uuid + "@"@ + host + ":"@ + int_text(c.port as int) + "?"@ + joined(vless_params(c), "&"@) + "#"@ + remark
}

/// Query parameters of a trojan link.
pub open spec fn trojan_params(c: ClientConfigView) -> Seq<Seq<char>> {
    seq![kv("type"@, c.transport_type), kv("security"@, c.security)] + transport_params(c)
        + encoded_param("sni"@, server_name(c))
}

/// A trojan link.
pub open spec fn trojan_link(c: ClientConfigView, host: Seq<char>, remark: Seq<char>) -> Seq<char> {
    "trojan://"@ + c.uuid + "@"@ + host + ":"@ + int_text(c.port as int) + "?"@ + joined(trojan_params(c), "&"@) + "#"@ + remark
}

/// A shadowsocks link: base64 of `method:password` as user information.
pub open spec fn ss_link(c: ClientConfigView, host: Seq<char>, remark: Seq<char>) -> Seq<char> {
    "ss://"@ + base64_text(encode_utf8(c.encryption + ":"@ + c.uuid)) + "@"@ + host + ":"@ + int_text(c.port as int) + "#"@ + remark
}

/// The link of a client: chosen by its protocol name (ignoring case), with the
/// percent-encoded remark as fragment; other protocols give a comment line.
pub open spec fn client_link(c: ClientConfigView, host: Seq<char>) -> Seq<char> {
    let remark = url_encoded(c.remark);
    match protocol_named(lowercased(c.protocol)) {
        Some(Protocol::Vmess) => vmess_link(c, host, remark),
        Some(Protocol::Vless) => vless_link(c, host, remark),
        Some(Protocol::Trojan) => trojan_link(c, host, remark),
        Some(Protocol::Shadowsocks) => ss_link(c, host, remark),
        _ => "# Unsupported protocol: "@ + c.protocol,
    }
}

/// Views of a slice of configurations.
pub open spec fn config_views(s: Seq<ClientConfig>) -> Seq<ClientConfigView> {
    s.map_values(|c: ClientConfig| c@)
}

/// The Base64 subscription: base64 of the newline separated links.
pub open spec fn base64_subscription(cs: Seq<ClientConfigView>, host: Seq<char>) -> Seq<char> {
    base64_text(encode_utf8(joined(cs.map_values(|c: ClientConfigView| client_link(c, host)), "\n"@)))
}

/// Appends `name=value` with the value percent-encoded, when present.
fn push_encoded_param(params: &mut Vec<String>, name: &str, value: &Option<String>)
    ensures
        views(final(params)@) == views(old(params)@) + encoded_param(name@, opt_text(*value)),
{
    match value {
        Some(v) => {
            let mut p = owned(name);
            push_str(&mut p, "=");
            let e = url_encode(v.as_str());
            push_str(&mut p, e.as_str());
            params.push(p);
            proof {
                assert(views(params@) =~= views(old(params)@) + encoded_param(name@, opt_text(*value)));
            }
        },
        None => {
            assert(views(params@) =~= views(old(params)@) + encoded_param(name@, opt_text(*value)));
        },
    }
}

/// Appends the transport path and host parameters.
fn push_transport_params(params: &mut Vec<String>, config: &ClientConfig)
    ensures
        views(final(params)@) == views(old(params)@) + transport_params(config@),
{
    match &config.transport_settings {
        Some(t) => {
            assert(transport_path(config@) == opt_text(t.path));
            assert(transport_host(config@) == opt_text(t.host));
            push_encoded_param(params, "path", &t.path);
            push_encoded_param(params, "host", &t.host);
            assert(views(params@) =~= views(old(params)@) + transport_params(config@));
        },
        None => {
            assert(views(params@) =~= views(old(params)@) + transport_params(config@));
        },
    }
}

/// Appends the vless parameters taken from security settings.
fn push_vless_security_params(params: &mut Vec<String>, s: &SecuritySettings)
    ensures
        views(final(params)@) == views(old(params)@) + vless_security_params(s@),
{
    push_encoded_param(params, "sni", &s.server_name);
    let ghost mid = views(params@);
    match &s.fingerprint {
        Some(fp) => {
            params.push(param("fp", fp.as_str()));
        },
        None => {},
    }
    assert(views(params@) =~= mid + (match s@.fingerprint { Some(fp) => seq![kv("fp"@, fp)], None => Seq::empty() }));
    push_encoded_param(params, "pbk", &s.public_key);
    push_encoded_param(params, "sid", &s.short_id);
    push_encoded_param(params, "spx", &s.spider_x);
    assert(views(params@) =~= views(old(params)@) + vless_security_params(s@));
}

/// `name=value`.
fn param(name: &str, value: &str) -> (r: String)
    ensures
        r@ == kv(name@, value@),
{
    let mut p = owned(name);
    push_str(&mut p, "=");
    push_str(&mut p, value);
    p
}

/// The text of an optional string slice, or the empty text.
fn str_or_empty(o: &Option<String>) -> (r: &str)
    ensures
        r@ == text_or_empty(opt_text(*o)),
{
    match o {
        Some(s) => {
            assert(*o == Some(*s));
            assert(opt_text(*o) == Some(s@));
            s.as_str()
        },
        None => {
            proof { reveal_strlit(""); }
            ""
        },
    }
}

impl SubscriptionService {
    /// The vmess link of a client.
    pub fn generate_vmess_link(config: &ClientConfig, host: &str, remark: &str) -> (r: String)
        ensures
            r@ == vmess_link(config@, host@, remark@),
    {
        proof { reveal_strlit(""); }
        assert(""@ =~= Seq::<char>::empty());
        let path = match &config.transport_settings { Some(t) => str_or_empty(&t.path), None => "" };
        let thost = match &config.transport_settings { Some(t) => str_or_empty(&t.host), None => "" };
        let sni = match &config.security_settings { Some(s) => str_or_empty(&s.server_name), None => "" };
        let tls = if str_eq(config.security.as_str(), "tls") { "tls" } else { "" };
        assert(tls@ == (if config@.security == "tls"@ { "tls"@ } else { Seq::<char>::empty() }));
        assert(thost@ == text_or_empty(transport_host(config@)));
        let mut m: Vec<(String, JsonValue)> = Vec::new();
        m.push(member("v", string("2")));
        m.push(member("ps", string(remark)));
        m.push(member("add", string(host)));
        m.push(member("port", JsonValue::Int(config.port as i64)));
        m.push(member("id", string(config.uuid.as_str())));
        m.push(member("aid", JsonValue::Int(0)));
        m.push(member("net", string(config.transport_type.as_str())));
        m.push(member("type", string("none")));
        m.push(member("host", string(thost)));
        m.push(member("path", string(path)));
        m.push(member("tls", string(tls)));
        m.push(member("sni", string(sni)));
        let ghost base = members_view(m@);
        proof {
            crate::json::lemma_members_view(m@);
        }
        match &config.security_settings {
            Some(s) => match &s.fingerprint {
                Some(fp) => {
                    m.push(member("fp", string(fp.as_str())));
                },
                None => {},
            },
            None => {},
        }
        proof {
            crate::json::lemma_members_view(m@);
            assert(base[0] == ("v"@, JsonView::Str("2"@)));
            assert(base[3] == ("port"@, JsonView::Int(config@.port as int)));
            assert(base[8] == ("host"@, JsonView::Str(text_or_empty(transport_host(config@)))));
            assert(base[10] == ("tls"@, JsonView::Str(if config@.security == "tls"@ { "tls"@ } else { Seq::empty() })));
            assert(base[11] == ("sni"@, JsonView::Str(text_or_empty(server_name(config@)))));
            assert(base =~= seq![
                ("v"@, JsonView::Str("2"@)),
                ("ps"@, JsonView::Str(remark@)),
                ("add"@, JsonView::Str(host@)),
                ("port"@, JsonView::Int(config@.port as int)),
                ("id"@, JsonView::Str(config@.uuid)),
                ("aid"@, JsonView::Int(0)),
                ("net"@, JsonView::Str(config@.transport_type)),
                ("type"@, JsonView::Str("none"@)),
                ("host"@, JsonView::Str(text_or_empty(transport_host(config@)))),
                ("path"@, JsonView::Str(text_or_empty(transport_path(config@)))),
                ("tls"@, JsonView::Str(if config@.security == "tls"@ { "tls"@ } else { Seq::empty() })),
                ("sni"@, JsonView::Str(text_or_empty(server_name(config@)))),
            ]);
            match fingerprint(config@) {
                Some(fp) => assert(members_view(m@) =~= base.push(("fp"@, JsonView::Str(fp)))),
                None => assert(members_view(m@) =~= base),
            }
        }
        let doc = JsonValue::Object(m);
        assert(doc@ == vmess_document(config@, host@, remark@));
        let text = to_text(&doc);
        let encoded = base64_encode(text.as_str());
        let mut r = owned("vmess://");
        push_str(&mut r, encoded.as_str());
        r
    }

    /// The vless link of a client.
    pub fn generate_vless_link(config: &ClientConfig, host: &str, remark: &str) -> (r: String)
        ensures
            r@ == vless_link(config@, host@, remark@),
    {
        let flow = str_or_empty(&config.flow);
        let mut params: Vec<String> = Vec::new();
        params.push(param("type", config.transport_type.as_str()));
        params.push(param("security", config.security.as_str()));
        if !flow.is_empty() {
            params.push(param("flow", flow));
        }
        let ghost head = views(params@);
        assert(head =~= seq![kv("type"@, config@.transport_type), kv("security"@, config@.security)]
            + (if text_or_empty(config@.flow).len() > 0 { seq![kv("flow"@, text_or_empty(config@.flow))] } else { Seq::empty() }));
        push_transport_params(&mut params, config);
        let ghost mid = views(params@);
        match &config.security_settings {
            Some(s) => push_vless_security_params(&mut params, s),
            None => {},
        }
        assert(views(params@) =~= vless_params(config@));
        let query = join(&params, "&");
        let mut r = owned("vless://");
        push_str(&mut r, config.uuid.as_str());
        push_str(&mut r, "@");
        push_str(&mut r, host);
        push_str(&mut r, ":");
        push_i64(&mut r, config.port as i64);
        push_str(&mut r, "?");
        push_str(&mut r, query.as_str());
        push_str(&mut r, "#");
        push_str(&mut r, remark);
        r
    }

    /// The trojan link of a client.
    pub fn generate_trojan_link(config: &ClientConfig, host: &str, remark: &str) -> (r: String)
        ensures
            r@ == trojan_link(config@, host@, remark@),
    {
        let mut params: Vec<String> = Vec::new();
        params.push(param("type", config.transport_type.as_str()));
        params.push(param("security", config.security.as_str()));
        push_transport_params(&mut params, config);
        match &config.security_settings {
            Some(s) => push_encoded_param(&mut params, "sni", &s.server_name),
            None => {},
        }
        assert(views(params@) =~= trojan_params(config@));
        let query = join(&params, "&");
        let mut r = owned("trojan://");
        push_str(&mut r, config.uuid.as_str());
        push_str(&mut r, "@");
        push_str(&mut r, host);
        push_str(&mut r, ":");
        push_i64(&mut r, config.port as i64);
        push_str(&mut r, "?");
        push_str(&mut r, query.as_str());
        push_str(&mut r, "#");
        push_str(&mut r, remark);
        r
    }

    /// The shadowsocks link of a client.
    pub fn generate_ss_link(config: &ClientConfig, host: &str, remark: &str) -> (r: String)
        ensures
            r@ == ss_link(config@, host@, remark@),
    {
        let mut userinfo = owned(config.encryption.as_str());
        push_str(&mut userinfo, ":");
        push_str(&mut userinfo, config.uuid.as_str());
        let encoded = base64_encode(userinfo.as_str());
        let mut r = owned("ss://");
        push_str(&mut r, encoded.as_str());
        push_str(&mut r, "@");
        push_str(&mut r, host);
        push_str(&mut r, ":");
        push_i64(&mut r, config.port as i64);
        push_str(&mut r, "#");
        push_str(&mut r, remark);
        r
    }

    /// The link of a client (see `client_link`).
    pub fn client_to_link(config: &ClientConfig, host: &str) -> (r: String)
        ensures
            r@ == client_link(config@, host@),
    {
        let remark = url_encode(config.remark.as_str());
        let lower = to_lowercase(config.protocol.as_str());
        match Protocol::from_lowercase(lower.as_str()) {
            Some(Protocol::Vmess) => SubscriptionService::generate_vmess_link(config, host, remark.as_str()),
            Some(Protocol::Vless) => SubscriptionService::generate_vless_link(config, host, remark.as_str()),
            Some(Protocol::Trojan) => SubscriptionService::generate_trojan_link(config, host, remark.as_str()),
            Some(Protocol::Shadowsocks) => SubscriptionService::generate_ss_link(config, host, remark.as_str()),
            _ => {
                let mut r = owned("# Unsupported protocol: ");
                push_str(&mut r, config.protocol.as_str());
                r
            },
        }
    }

    /// The Base64 subscription (see `base64_subscription`).
    pub fn generate_base64(configs: &[ClientConfig], host: &str) -> (r: String)
        ensures
            r@ == base64_subscription(config_views(configs@), host@),
    {
        let mut links: Vec<String> = Vec::new();
        let mut i: usize = 0;
        while i < configs.len()
            invariant
                0 <= i <= configs@.len(),
                links@.len() == i,
                forall|j: int| 0 <= j < i ==> #[trigger] links@[j]@ == client_link(configs@[j]@, host@),
            decreases configs@.len() - i,
        {
            let l = SubscriptionService::client_to_link(&configs[i], host);
            links.push(l);
            i = i + 1;
        }
        assert(views(links@) =~= config_views(configs@).map_values(|c: ClientConfigView| client_link(c, host@)));
        let text = join(&links, "\n");
        base64_encode(text.as_str())
    }
}

/// A character inside a double-quoted YAML scalar: backslash and double quote are escaped.
pub open spec fn yaml_char(c: char) -> Seq<char> {
    if c == '\\' { seq!['\\', '\\'] } else if c == '"' { seq!['\\', '"'] } else { seq![c] }
}

/// A text with backslashes and double quotes escaped for a double-quoted YAML scalar.
pub open spec fn yaml_escaped(s: Seq<char>) -> Seq<char>
    decreases s.len(),
{
    if s.len() == 0 {
        Seq::empty()
    } else {
        yaml_escaped(s.drop_last()) + yaml_char(s.last())
    }
}

/// Escapes backslashes and double quotes.
pub fn escape_yaml(s: &str) -> (r: String)
    ensures
        r@ == yaml_escaped(s@),
{
    let cs = crate::text::chars_of(s);
    let mut r = String::new();
    let mut i: usize = 0;
    while i < cs.len()
        invariant
            cs@ == s@,
            0 <= i <= cs@.len(),
            r@ == yaml_escaped(s@.take(i as int)),
        decreases cs@.len() - i,
    {
        proof {
            assert(s@.take(i + 1).drop_last() =~= s@.take(i as int));
            assert(s@.take(i + 1).last() == s@[i as int]);
        }
        let c = cs[i];
        if c == '\\' {
            push_char(&mut r, '\\');
            push_char(&mut r, '\\');
        } else if c == '"' {
            push_char(&mut r, '\\');
            push_char(&mut r, '"');
        } else {
            push_char(&mut r, c);
        }
        i = i + 1;
        assert(r@ =~= yaml_escaped(s@.take(i as int)));
    }
    assert(s@.take(i as int) =~= s@);
    r
}

/// The Clash proxy entry of a vmess client.
pub open spec fn clash_vmess_entry(c: ClientConfigView, host: Seq<char>) -> Seq<char> {
    let ws_path = match transport_path(c) {
        Some(p) => "\n      ws-path: \""@ + p + "\""@,
        None => Seq::empty(),
    };
    let tls = if c.security == "tls"@ {
        "\n      tls: true"@ + match server_name(c) {
            Some(sni) => "\n      servername: \""@ + sni + "\""@,
            None => Seq::empty(),
        }
    } else {
        Seq::empty()
    };
    "- name: \""@ + c.remark + "\"\n      type: vmess\n      "@ + "server: "@ + host + "\n      port: "@ + int_text(c.port as int)
        + "\n      uuid: "@ + c.uuid + "\n      alterId: 0\n      cipher: auto\n      network: "@ + c.transport_type + ws_path + tls
}

/// The Clash proxy entry of a vless client.
pub open spec fn clash_vless_entry(c: ClientConfigView, host: Seq<char>) -> Seq<char> {
    "- name: \""@ + c.remark + "\"\n      type: vless\n      server: "@ + host + "\n      port: "@ + int_text(c.port as int)
        + "\n      uuid: "@ + c.uuid
}

/// The Clash proxy entry of a trojan client.
pub open spec fn clash_trojan_entry(c: ClientConfigView, host: Seq<char>) -> Seq<char> {
    "- name: \""@ + c.remark + "\"\n      type: trojan\n      server: "@ + host + "\n      port: "@ + int_text(c.port as int)
        + "\n      password: "@ + c.uuid
}

/// The Clash proxy entry of a shadowsocks client.
pub open spec fn clash_ss_entry(c: ClientConfigView, host: Seq<char>) -> Seq<char> {
    "- name: \""@ + c.remark + "\"\n      type: ss\n      server: "@ + host + "\n      port: "@ + int_text(c.port as int)
        + "\n      cipher: "@ + c.encryption + "\n      password: "@ + c.uuid
}

/// The Clash proxy entry of a client, when its protocol has one.
pub open spec fn clash_entry(c: ClientConfigView, host: Seq<char>) -> Option<Seq<char>> {
    match protocol_named(lowercased(c.protocol)) {
        Some(Protocol::Vmess) => Some(clash_vmess_entry(c, host)),
        Some(Protocol::Vless) => Some(clash_vless_entry(c, host)),
        Some(Protocol::Trojan) => Some(clash_trojan_entry(c, host)),
        Some(Protocol::Shadowsocks) => Some(clash_ss_entry(c, host)),
        _ => None,
    }
}

/// The `proxies` lines of a Clash document.
pub open spec fn clash_proxy_lines(cs: Seq<ClientConfigView>, host: Seq<char>) -> Seq<char>
    decreases cs.len(),
{
    if cs.len() == 0 {
        Seq::empty()
    } else {
        clash_proxy_lines(cs.drop_last(), host) + match clash_entry(cs.last(), host) {
            Some(e) => "  "@ + e + "\n"@,
            None => Seq::empty(),
        }
    }
}

/// The members of the Clash proxy group: every client's remark, quoted.
pub open spec fn clash_group_lines(cs: Seq<ClientConfigView>) -> Seq<char>
    decreases cs.len(),
{
    if cs.len() == 0 {
        Seq::empty()
    } else {
        clash_group_lines(cs.drop_last()) + "      - \""@ + yaml_escaped(cs.last().remark) + "\"\n"@
    }
}

/// A Clash document: the proxies, one selecting group over all clients, and a catch-all rule.
pub open spec fn clash_document(cs: Seq<ClientConfigView>, host: Seq<char>) -> Seq<char> {
    "proxies:\n"@ + clash_proxy_lines(cs, host)
        + "\nproxy-groups:\n  - name: \"Proxy\"\n    type: select\n    proxies:\n"@
        + clash_group_lines(cs) + "\nrules:\n  - MATCH,Proxy\n"@
}

proof fn lemma_config_views_step(s: Seq<ClientConfig>, i: int)
    requires
        0 <= i < s.len(),
    ensures
        config_views(s.take(i + 1)).drop_last() =~= config_views(s.take(i)),
        config_views(s.take(i + 1)).last() == s[i]@,
        config_views(s.take(i + 1)).len() > 0,
{
}

impl SubscriptionService {
    /// The Clash proxy entry of a vmess client.
    pub fn clash_vmess(config: &ClientConfig, host: &str) -> (r: String)
        ensures
            r@ == clash_vmess_entry(config@, host@),
    {
        let mut r = owned("- name: \"");
        push_str(&mut r, config.remark.as_str());
        push_str(&mut r, "\"\n      type: vmess\n      ");
        push_str(&mut r, "server: ");
        push_str(&mut r, host);
        push_str(&mut r, "\n      port: ");
        push_i64(&mut r, config.port as i64);
        push_str(&mut r, "\n      uuid: ");
        push_str(&mut r, config.uuid.as_str());
        push_str(&mut r, "\n      alterId: 0\n      cipher: auto\n      network: ");
        push_str(&mut r, config.transport_type.as_str());
        let ghost before_path = r@;
        match &config.transport_settings {
            Some(t) => match &t.path {
                Some(p) => {
                    push_str(&mut r, "\n      ws-path: \"");
                    push_str(&mut r, p.as_str());
                    push_str(&mut r, "\"");
                },
                None => {},
            },
            None => {},
        }
        let ghost before_tls = r@;
        assert(before_tls =~= before_path + match transport_path(config@) {
            Some(p) => "\n      ws-path: \""@ + p + "\""@,
            None => Seq::empty(),
        });
        if str_eq(config.security.as_str(), "tls") {
            push_str(&mut r, "\n      tls: true");
            match &config.security_settings {
                Some(s) => match &s.server_name {
                    Some(sni) => {
                        push_str(&mut r, "\n      servername: \"");
                        push_str(&mut r, sni.as_str());
                        push_str(&mut r, "\"");
                    },
                    None => {},
                },
                None => {},
            }
        }
        assert(r@ =~= clash_vmess_entry(config@, host@));
        r
    }

    /// The Clash proxy entry of a vless client.
    pub fn clash_vless(config: &ClientConfig, host: &str) -> (r: String)
        ensures
            r@ == clash_vless_entry(config@, host@),
    {
        let mut r = owned("- name: \"");
        push_str(&mut r, config.remark.as_str());
        push_str(&mut r, "\"\n      type: vless\n      server: ");
        push_str(&mut r, host);
        push_str(&mut r, "\n      port: ");
        push_i64(&mut r, config.port as i64);
        push_str(&mut r, "\n      uuid: ");
        push_str(&mut r, config.uuid.as_str());
        r
    }

    /// The Clash proxy entry of a trojan client.
    pub fn clash_trojan(config: &ClientConfig, host: &str) -> (r: String)
        ensures
            r@ == clash_trojan_entry(config@, host@),
    {
        let mut r = owned("- name: \"");
        push_str(&mut r, config.remark.as_str());
        push_str(&mut r, "\"\n      type: trojan\n      server: ");
        push_str(&mut r, host);
        push_str(&mut r, "\n      port: ");
        push_i64(&mut r, config.port as i64);
        push_str(&mut r, "\n      password: ");
        push_str(&mut r, config.uuid.as_str());
        r
    }

    /// The Clash proxy entry of a shadowsocks client.
    pub fn clash_ss(config: &ClientConfig, host: &str) -> (r: String)
        ensures
            r@ == clash_ss_entry(config@, host@),
    {
        let mut r = owned("- name: \"");
        push_str(&mut r, config.remark.as_str());
        push_str(&mut r, "\"\n      type: ss\n      server: ");
        push_str(&mut r, host);
        push_str(&mut r, "\n      port: ");
        push_i64(&mut r, config.port as i64);
        push_str(&mut r, "\n      cipher: ");
        push_str(&mut r, config.encryption.as_str());
        push_str(&mut r, "\n      password: ");
        push_str(&mut r, config.uuid.as_str());
        r
    }

    /// The Clash proxy entry of a client (see `clash_entry`).
    fn clash_entry_of(config: &ClientConfig, host: &str) -> (r: Option<String>)
        ensures
            match r {
                Some(e) => clash_entry(config@, host@) == Some(e@),
                None => clash_entry(config@, host@) is None,
            },
    {
        let lower = to_lowercase(config.protocol.as_str());
        match Protocol::from_lowercase(lower.as_str()) {
            Some(Protocol::Vmess) => Some(SubscriptionService::clash_vmess(config, host)),
            Some(Protocol::Vless) => Some(SubscriptionService::clash_vless(config, host)),
            Some(Protocol::Trojan) => Some(SubscriptionService::clash_trojan(config, host)),
            Some(Protocol::Shadowsocks) => Some(SubscriptionService::clash_ss(config, host)),
            _ => None,
        }
    }

    /// The Clash document (see `clash_document`).
    pub fn generate_clash(configs: &[ClientConfig], host: &str) -> (r: String)
        ensures
            r@ == clash_document(config_views(configs@), host@),
    {
        let mut yaml = owned("proxies:\n");
        let mut i: usize = 0;
        while i < configs.len()
            invariant
                0 <= i <= configs@.len(),
                yaml@ == "proxies:\n"@ + clash_proxy_lines(config_views(configs@.take(i as int)), host@),
            decreases configs@.len() - i,
        {
            proof {
                lemma_config_views_step(configs@, i as int);
            }
            match SubscriptionService::clash_entry_of(&configs[i], host) {
                Some(e) => {
                    push_str(&mut yaml, "  ");
                    push_str(&mut yaml, e.as_str());
                    push_str(&mut yaml, "\n");
                },
                None => {},
            }
            i = i + 1;
            assert(yaml@ =~= "proxies:\n"@ + clash_proxy_lines(config_views(configs@.take(i as int)), host@));
        }
        assert(configs@.take(i as int) =~= configs@);
        let ghost proxies = yaml@;
        push_str(&mut yaml, "\nproxy-groups:\n  - name: \"Proxy\"\n    type: select\n    proxies:\n");
        let ghost head = yaml@;
        let mut j: usize = 0;
        while j < configs.len()
            invariant
                0 <= j <= configs@.len(),
                yaml@ == head + clash_group_lines(config_views(configs@.take(j as int))),
            decreases configs@.len() - j,
        {
            proof {
                lemma_config_views_step(configs@, j as int);
            }
            push_str(&mut yaml, "      - \"");
            let escaped = escape_yaml(configs[j].remark.as_str());
            push_str(&mut yaml, escaped.as_str());
            push_str(&mut yaml, "\"\n");
            j = j + 1;
            assert(yaml@ =~= head + clash_group_lines(config_views(configs@.take(j as int))));
        }
        assert(configs@.take(j as int) =~= configs@);
        push_str(&mut yaml, "\nrules:\n  - MATCH,Proxy\n");
        assert(yaml@ =~= clash_document(config_views(configs@), host@));
        yaml
    }
}

/// The sing-box outbound of a client.
pub open spec fn singbox_outbound_view(c: ClientConfigView, host: Seq<char>) -> JsonView {
    let base = seq![
        ("type"@, JsonView::Str(c.protocol)),
        ("tag"@, JsonView::Str(c.remark)),
        ("server"@, JsonView::Str(host)),
        ("server_port"@, JsonView::Int(c.port as int)),
    ];
    JsonView::Object(
        match protocol_named(lowercased(c.protocol)) {
            Some(Protocol::Vmess) | Some(Protocol::Vless) => base.push(("uuid"@, JsonView::Str(c.uuid))),
            Some(Protocol::Trojan) => base.push(("password"@, JsonView::Str(c.uuid))),
            _ => base,
        },
    )
}

/// The sing-box document: pretty JSON of `{"outbounds": [...]}`.
pub open spec fn singbox_document(cs: Seq<ClientConfigView>, host: Seq<char>) -> Seq<char> {
    pretty_text(JsonView::Object(seq![("outbounds"@, JsonView::Array(cs.map_values(|c: ClientConfigView| singbox_outbound_view(c, host))))]))
}

/// The Surge line of a client, when its protocol has one.
pub open spec fn surge_line(c: ClientConfigView, host: Seq<char>) -> Option<Seq<char>> {
    match protocol_named(lowercased(c.protocol)) {
        Some(Protocol::Vmess) => Some(c.remark + " = vmess, "@ + host + ", "@ + int_text(c.port as int) + ", username = "@ + c.uuid
            + ", ws-path = /"@),
        Some(Protocol::Trojan) => Some(c.remark + " = trojan, "@ + host + ", "@ + int_text(c.port as int) + ", "@ + c.uuid),
        _ => None,
    }
}

/// The proxy lines of a Surge document.
pub open spec fn surge_lines(cs: Seq<ClientConfigView>, host: Seq<char>) -> Seq<char>
    decreases cs.len(),
{
    if cs.len() == 0 {
        Seq::empty()
    } else {
        surge_lines(cs.drop_last(), host) + match surge_line(cs.last(), host) {
            Some(l) => l + "\n"@,
            None => Seq::empty(),
        }
    }
}

/// A Surge document.
pub open spec fn surge_document(cs: Seq<ClientConfigView>, host: Seq<char>) -> Seq<char> {
    "#!MANAGED-CONFIG\n\n[Proxy]\n"@ + surge_lines(cs, host)
}

/// The Quantumult line of a client.
pub open spec fn quantumult_line(c: ClientConfigView, host: Seq<char>) -> Seq<char> {
    "vmess://"@ + c.uuid + ":"@ + host + ":"@ + int_text(c.port as int) + ":"@ + c.remark + ":0:0:0?obfs=ws&obfsParam=?#"@ + c.remark
}

/// A Quantumult document: one line per client.
pub open spec fn quantumult_document(cs: Seq<ClientConfigView>, host: Seq<char>) -> Seq<char> {
    joined(cs.map_values(|c: ClientConfigView| quantumult_line(c, host)), "\n"@)
}

/// The subscription text of a format.
pub open spec fn subscription_text(cs: Seq<ClientConfigView>, format: SubscriptionFormat, host: Seq<char>) -> Seq<char> {
    match format {
        SubscriptionFormat::Base64 => base64_subscription(cs, host),
        SubscriptionFormat::Clash => clash_document(cs, host),
        SubscriptionFormat::SingBox => singbox_document(cs, host),
        SubscriptionFormat::Surge => surge_document(cs, host),
        SubscriptionFormat::Quantumult => quantumult_document(cs, host),
        SubscriptionFormat::Surfboard => surge_document(cs, host),
    }
}

impl SubscriptionService {
    /// The sing-box outbound of a client.
    pub fn singbox_outbound(config: &ClientConfig, host: &str) -> (r: JsonValue)
        ensures
            r@ == singbox_outbound_view(config@, host@),
    {
        let mut m: Vec<(String, JsonValue)> = Vec::new();
        m.push(member("type", string(config.protocol.as_str())));
        m.push(member("tag", string(config.remark.as_str())));
        m.push(member("server", string(host)));
        m.push(member("server_port", JsonValue::Int(config.port as i64)));
        let ghost base = members_view(m@);
        proof {
            crate::json::lemma_members_view(m@);
            assert(base =~= seq![
                ("type"@, JsonView::Str(config@.protocol)),
                ("tag"@, JsonView::Str(config@.remark)),
                ("server"@, JsonView::Str(host@)),
                ("server_port"@, JsonView::Int(config@.port as int)),
            ]);
        }
        let lower = to_lowercase(config.protocol.as_str());
        match Protocol::from_lowercase(lower.as_str()) {
            Some(Protocol::Vmess) | Some(Protocol::Vless) => {
                m.push(member("uuid", string(config.uuid.as_str())));
            },
            Some(Protocol::Trojan) => {
                m.push(member("password", string(config.uuid.as_str())));
            },
            _ => {},
        }
        proof {
            crate::json::lemma_members_view(m@);
            match protocol_named(lowercased(config@.protocol)) {
                Some(Protocol::Vmess) | Some(Protocol::Vless) => assert(members_view(m@) =~= base.push(("uuid"@, JsonView::Str(config@.uuid)))),
                Some(Protocol::Trojan) => assert(members_view(m@) =~= base.push(("password"@, JsonView::Str(config@.uuid)))),
                _ => assert(members_view(m@) =~= base),
            }
        }
        JsonValue::Object(m)
    }

    /// The sing-box document (see `singbox_document`).
    pub fn generate_singbox(configs: &[ClientConfig], host: &str) -> (r: String)
        ensures
            r@ == singbox_document(config_views(configs@), host@),
    {
        let mut outbounds: Vec<JsonValue> = Vec::new();
        let mut i: usize = 0;
        while i < configs.len()
            invariant
                0 <= i <= configs@.len(),
                outbounds@.len() == i,
                forall|j: int| 0 <= j < i ==> #[trigger] outbounds@[j]@ == singbox_outbound_view(configs@[j]@, host@),
            decreases configs@.len() - i,
        {
            outbounds.push(SubscriptionService::singbox_outbound(&configs[i], host));
            i = i + 1;
        }
        proof {
            crate::json::lemma_items_view(outbounds@);
            assert forall|j: int| 0 <= j < outbounds@.len() implies #[trigger] crate::json::items_view(outbounds@)[j]
                == singbox_outbound_view(configs@[j]@, host@) by {
                assert(outbounds@[j]@ == singbox_outbound_view(configs@[j]@, host@));
            }
            assert(crate::json::items_view(outbounds@) =~= config_views(configs@).map_values(|c: ClientConfigView| singbox_outbound_view(c, host@)));
        }
        let ghost items = crate::json::items_view(outbounds@);
        let arr = JsonValue::Array(outbounds);
        assert(arr@ == JsonView::Array(items));
        let mut top: Vec<(String, JsonValue)> = Vec::new();
        top.push(member("outbounds", arr));
        let doc = JsonValue::Object(top);
        proof {
            crate::json::lemma_members_view(top@);
            assert(crate::json::members_view(top@) =~= seq![("outbounds"@, JsonView::Array(items))]);
            assert(doc@ =~~= JsonView::Object(seq![("outbounds"@, JsonView::Array(config_views(configs@).map_values(|c: ClientConfigView| singbox_outbound_view(c, host@))))]));
        }
        to_pretty_text(&doc)
    }

    /// The Surge line of a client (see `surge_line`).
    fn surge_line_of(config: &ClientConfig, host: &str) -> (r: Option<String>)
        ensures
            match r {
                Some(l) => surge_line(config@, host@) == Some(l@),
                None => surge_line(config@, host@) is None,
            },
    {
        let lower = to_lowercase(config.protocol.as_str());
        match Protocol::from_lowercase(lower.as_str()) {
            Some(Protocol::Vmess) => {
                let mut l = owned(config.remark.as_str());
                push_str(&mut l, " = vmess, ");
                push_str(&mut l, host);
                push_str(&mut l, ", ");
                push_i64(&mut l, config.port as i64);
                push_str(&mut l, ", username = ");
                push_str(&mut l, config.uuid.as_str());
                push_str(&mut l, ", ws-path = /");
                Some(l)
            },
            Some(Protocol::Trojan) => {
                let mut l = owned(config.remark.as_str());
                push_str(&mut l, " = trojan, ");
                push_str(&mut l, host);
                push_str(&mut l, ", ");
                push_i64(&mut l, config.port as i64);
                push_str(&mut l, ", ");
                push_str(&mut l, config.uuid.as_str());
                Some(l)
            },
            _ => None,
        }
    }

    /// The Surge document (see `surge_document`).
    pub fn generate_surge(configs: &[ClientConfig], host: &str) -> (r: String)
        ensures
            r@ == surge_document(config_views(configs@), host@),
    {
        let mut surge = owned("#!MANAGED-CONFIG\n\n[Proxy]\n");
        let mut i: usize = 0;
        while i < configs.len()
            invariant
                0 <= i <= configs@.len(),
                surge@ == "#!MANAGED-CONFIG\n\n[Proxy]\n"@ + surge_lines(config_views(configs@.take(i as int)), host@),
            decreases configs@.len() - i,
        {
            proof {
                lemma_config_views_step(configs@, i as int);
            }
            match SubscriptionService::surge_line_of(&configs[i], host) {
                Some(l) => {
                    push_str(&mut surge, l.as_str());
                    push_char(&mut surge, '\n');
                    proof { reveal_strlit("\n"); }
                },
                None => {},
            }
            i = i + 1;
            assert(surge@ =~= "#!MANAGED-CONFIG\n\n[Proxy]\n"@ + surge_lines(config_views(configs@.take(i as int)), host@));
        }
        assert(configs@.take(i as int) =~= configs@);
        surge
    }

    /// The Quantumult document (see `quantumult_document`).
    pub fn generate_quantumult(configs: &[ClientConfig], host: &str) -> (r: String)
        ensures
            r@ == quantumult_document(config_views(configs@), host@),
    {
        let mut lines: Vec<String> = Vec::new();
        let mut i: usize = 0;
        while i < configs.len()
            invariant
                0 <= i <= configs@.len(),
                lines@.len() == i,
                forall|j: int| 0 <= j < i ==> #[trigger] lines@[j]@ == quantumult_line(configs@[j]@, host@),
            decreases configs@.len() - i,
        {
            let c = &configs[i];
            let mut l = owned("vmess://");
            push_str(&mut l, c.uuid.as_str());
            push_str(&mut l, ":");
            push_str(&mut l, host);
            push_str(&mut l, ":");
            push_i64(&mut l, c.port as i64);
            push_str(&mut l, ":");
            push_str(&mut l, c.remark.as_str());
            push_str(&mut l, ":0:0:0?obfs=ws&obfsParam=?#");
            push_str(&mut l, c.remark.as_str());
            lines.push(l);
            i = i + 1;
        }
        assert(views(lines@) =~= config_views(configs@).map_values(|c: ClientConfigView| quantumult_line(c, host@)));
        join(&lines, "\n")
    }

    /// The Surfboard document: the same text as Surge.
    pub fn generate_surfboard(configs: &[ClientConfig], host: &str) -> (r: String)
        ensures
            r@ == surge_document(config_views(configs@), host@),
    {
        SubscriptionService::generate_surge(configs, host)
    }

    /// The subscription text of a format (see `subscription_text`).
    pub fn generate_subscription(configs: &[ClientConfig], format: SubscriptionFormat, host: &str) -> (r: String)
        ensures
            r@ == subscription_text(config_views(configs@), format, host@),
    {
        match format {
            SubscriptionFormat::Base64 => SubscriptionService::generate_base64(configs, host),
            SubscriptionFormat::Clash => SubscriptionService::generate_clash(configs, host),
            SubscriptionFormat::SingBox => SubscriptionService::generate_singbox(configs, host),
            SubscriptionFormat::Surge => SubscriptionService::generate_surge(configs, host),
            SubscriptionFormat::Quantumult => SubscriptionService::generate_quantumult(configs, host),
            SubscriptionFormat::Surfboard => SubscriptionService::generate_surfboard(configs, host),
        }
    }
}

/// Human readable size with binary units up to TB (negative sizes are written in bytes).
pub open spec fn traffic_text(bytes: int) -> Seq<char> {
    if bytes >= 0x100_0000_0000 {
        scaled_text(bytes as nat, 0x100_0000_0000) + " TB"@
    } else if bytes >= 0x4000_0000 {
        scaled_text(bytes as nat, 0x4000_0000) + " GB"@
    } else if bytes >= 0x10_0000 {
        scaled_text(bytes as nat, 0x10_0000) + " MB"@
    } else if bytes >= 1024 {
        scaled_text(bytes as nat, 1024) + " KB"@
    } else {
        int_text(bytes) + " B"@
    }
}

/// Formats a byte count for humans (see `traffic_text`).
pub fn format_bytes(bytes: i64) -> (r: String)
    ensures
        r@ == traffic_text(bytes as int),
{
    let mut s = String::new();
    if bytes >= 0x100_0000_0000 {
        push_scaled(&mut s, bytes as u64, 0x100_0000_0000);
        push_str(&mut s, " TB");
    } else if bytes >= 0x4000_0000 {
        push_scaled(&mut s, bytes as u64, 0x4000_0000);
        push_str(&mut s, " GB");
    } else if bytes >= 0x10_0000 {
        push_scaled(&mut s, bytes as u64, 0x10_0000);
        push_str(&mut s, " MB");
    } else if bytes >= 1024 {
        push_scaled(&mut s, bytes as u64, 1024);
        push_str(&mut s, " KB");
    } else {
        push_i64(&mut s, bytes);
        push_str(&mut s, " B");
    }
    s
}

/// Traffic used by a client.
pub open spec fn client_used(c: ClientConfigView) -> int {
    c.upload + c.download
}

/// Remaining quota of a client: -1 when unlimited.
pub open spec fn client_remaining(c: ClientConfigView) -> int {
    if c.total > 0 {
        if client_used(c) >= c.total { 0 } else { c.total - client_used(c) }
    } else {
        -1
    }
}

/// The expiry shown on the information page.
pub open spec fn expiry_label(c: ClientConfigView) -> Seq<char> {
    if c.expiry_time > 0 {
        match formatted_utc(c.expiry_time as int, "%Y-%m-%d %H:%M:%S"@) {
            Some(t) => t,
            None => "Unknown"@,
        }
    } else {
        "Never"@
    }
}

/// The HTML page describing a subscription, with the usage bar at `usage_percent`.
pub open spec fn info_page(c: ClientConfigView, host: Seq<char>, usage_percent: i32) -> Seq<char> {
    "<!DOCTYPE html>\n<html>\n<head>\n    <meta charset=\"UTF-8\">\n    <meta name=\"viewport\" content=\"width=device-width, initial-scale=1.0\">\n    <title>Subscription Info</title>\n    <style>\n        body { font-family: -apple-system, BlinkMacSystemFont, 'Segoe UI', Roboto, sans-serif; max-width: 600px; margin: 50px auto; padding: 20px; }\n        .card { background: #f5f5f5; border-radius: 10px; padding: 20px; margin-bottom: 20px; }\n        h1 { color: #333; }\n        .info { display: flex; justify-content: space-between; margin: 10px 0; }\n        .progress { height: 20px; background: #ddd; border-radius: 10px; overflow: hidden; }\n        .progress-bar { height: 100%; background: linear-gradient(90deg, #4CAF50, #8BC34A); }\n        .expired { background: #f44336; }\n    </style>\n</head>\n<body>\n    <h1>Subscription Info</h1>\n    <div class=\"card\">\n        <h2>"@ + c.remark + "</h2>\n        <div class=\"info\">\n            <span>Email:</span>\n            <span>"@ + c.email + "</span>\n        </div>\n        <div class=\"info\">\n            <span>Protocol:</span>\n            <span>"@ + c.protocol + "</span>\n        </div>\n        <div class=\"info\">\n            <span>Server:</span>\n            <span>"@ + host + "</span>\n        </div>\n    </div>\n    <div class=\"card\">\n        <h3>Traffic Usage</h3>\n        <div class=\"progress\">\n            <div class=\"progress-bar\" style=\"width: "@
        + int_text(usage_percent as int) + "%\"></div>\n        </div>\n        <div class=\"info\">\n            <span>Used:</span>\n            <span>"@ + traffic_text(client_used(c)) + " / "@
        + (if c.total > 0 { traffic_text(c.total as int) } else { "Unlimited"@ }) + "</span>\n        </div>\n        <div class=\"info\">\n            <span>Remaining:</span>\n            <span>"@
        + (if client_remaining(c) < 0 { "Unlimited"@ } else { traffic_text(client_remaining(c)) }) + "</span>\n        </div>\n    </div>\n    <div class=\"card\">\n        <h3>Expiry</h3>\n        <div class=\"info\">\n            <span>Expires:</span>\n            <span>"@
        + expiry_label(c) + "</span>\n        </div>\n    </div>\n</body>\n</html>"@
}

impl SubscriptionService {
    /// The subscription information page, with the usage bar drawn at `usage_percent`
    /// (see `info_page`).
    pub fn render_info_page(config: &ClientConfig, host: &str, usage_percent: i32) -> (r: String)
        requires
            i64::MIN <= client_used(config@) <= i64::MAX,
            client_remaining(config@) <= i64::MAX,
        ensures
            r@ == info_page(config@, host@, usage_percent),
    {
        let used = config.upload + config.download;
        let remaining: i64 = if config.total > 0 {
            if used >= config.total { 0 } else { config.total - used }
        } else {
            -1
        };
        let expiry = if config.expiry_time > 0 {
            match format_utc(config.expiry_time, "%Y-%m-%d %H:%M:%S") {
                Some(t) => t,
                None => owned("Unknown"),
            }
        } else {
            owned("Never")
        };
        let mut r = owned("<!DOCTYPE html>\n<html>\n<head>\n    <meta charset=\"UTF-8\">\n    <meta name=\"viewport\" content=\"width=device-width, initial-scale=1.0\">\n    <title>Subscription Info</title>\n    <style>\n        body { font-family: -apple-system, BlinkMacSystemFont, 'Segoe UI', Roboto, sans-serif; max-width: 600px; margin: 50px auto; padding: 20px; }\n        .card { background: #f5f5f5; border-radius: 10px; padding: 20px; margin-bottom: 20px; }\n        h1 { color: #333; }\n        .info { display: flex; justify-content: space-between; margin: 10px 0; }\n        .progress { height: 20px; background: #ddd; border-radius: 10px; overflow: hidden; }\n        .progress-bar { height: 100%; background: linear-gradient(90deg, #4CAF50, #8BC34A); }\n        .expired { background: #f44336; }\n    </style>\n</head>\n<body>\n    <h1>Subscription Info</h1>\n    <div class=\"card\">\n        <h2>");
        push_str(&mut r, config.remark.as_str());
        push_str(&mut r, "</h2>\n        <div class=\"info\">\n            <span>Email:</span>\n            <span>");
        push_str(&mut r, config.email.as_str());
        push_str(&mut r, "</span>\n        </div>\n        <div class=\"info\">\n            <span>Protocol:</span>\n            <span>");
        push_str(&mut r, config.protocol.as_str());
        push_str(&mut r, "</span>\n        </div>\n        <div class=\"info\">\n            <span>Server:</span>\n            <span>");
        push_str(&mut r, host);
        push_str(&mut r, "</span>\n        </div>\n    </div>\n    <div class=\"card\">\n        <h3>Traffic Usage</h3>\n        <div class=\"progress\">\n            <div class=\"progress-bar\" style=\"width: ");
        push_i64(&mut r, usage_percent as i64);
        push_str(&mut r, "%\"></div>\n        </div>\n        <div class=\"info\">\n            <span>Used:</span>\n            <span>");
        let u = format_bytes(used);
        push_str(&mut r, u.as_str());
        push_str(&mut r, " / ");
        if config.total > 0 {
            let t = format_bytes(config.total);
            push_str(&mut r, t.as_str());
        } else {
            push_str(&mut r, "Unlimited");
        }
        push_str(&mut r, "</span>\n        </div>\n        <div class=\"info\">\n            <span>Remaining:</span>\n            <span>");
        if remaining < 0 {
            push_str(&mut r, "Unlimited");
        } else {
            let t = format_bytes(remaining);
            push_str(&mut r, t.as_str());
        }
        push_str(&mut r, "</span>\n        </div>\n    </div>\n    <div class=\"card\">\n        <h3>Expiry</h3>\n        <div class=\"info\">\n            <span>Expires:</span>\n            <span>");
        push_str(&mut r, expiry.as_str());
        push_str(&mut r, "</span>\n        </div>\n    </div>\n</body>\n</html>");
        r
    }
}

proof fn lemma_in_concat(a: Seq<Seq<char>>, b: Seq<Seq<char>>, x: Seq<char>)
    ensures
        a.contains(x) ==> (a + b).contains(x),
        b.contains(x) ==> (a + b).contains(x),
{
    if a.contains(x) {
        let i = choose|i: int| 0 <= i < a.len() && a[i] == x;
        assert((a + b)[i] == x);
    }
    if b.contains(x) {
        let j = choose|j: int| 0 <= j < b.len() && b[j] == x;
        assert((a + b)[a.len() + j] == x);
    }
}

/// A vless link is `vless://uuid@host:port?query#remark`, and its query carries the
/// transport type and the security; the flow when there is one; the percent-encoded path and
/// host of the transport; and from the security settings the percent-encoded server name,
/// the fingerprint, and the percent-encoded Reality public key (`pbk`), short id (`sid`) and
/// spider path (`spx`), each when present.
pub proof fn lemma_vless_link_parameters(c: ClientConfigView, host: Seq<char>, remark: Seq<char>)
    ensures
        exists|ps: Seq<Seq<char>>| {
            &&& vless_link(c, host, remark) == "vless://"@ + c.uuid + "@"@ + host + ":"@ + int_text(c.port as int) + "?"@
                + joined(ps, "&"@) + "#"@ + remark
            &&& ps.contains("type="@ + c.transport_type)
            &&& ps.contains("security="@ + c.security)
            &&& (c.flow matches Some(f) ==> (f.len() > 0 ==> ps.contains("flow="@ + f)))
            &&& (transport_path(c) matches Some(p) ==> ps.contains("path="@ + url_encoded(p)))
            &&& (transport_host(c) matches Some(h) ==> ps.contains("host="@ + url_encoded(h)))
            &&& (server_name(c) matches Some(n) ==> ps.contains("sni="@ + url_encoded(n)))
            &&& (fingerprint(c) matches Some(f) ==> ps.contains("fp="@ + f))
            &&& (c.security_settings matches Some(st) ==> (st.public_key matches Some(k)
                ==> ps.contains("pbk="@ + url_encoded(k))))
            &&& (c.security_settings matches Some(st) ==> (st.short_id matches Some(k)
                ==> ps.contains("sid="@ + url_encoded(k))))
            &&& (c.security_settings matches Some(st) ==> (st.spider_x matches Some(k)
                ==> ps.contains("spx="@ + url_encoded(k))))
        },
{
    reveal_strlit("=");
    reveal_strlit("type");
    reveal_strlit("type=");
    assert forall|v: Seq<char>| #[trigger] kv("type"@, v) == "type="@ + v by {
        assert(kv("type"@, v) =~= "type="@ + v);
    }
    reveal_strlit("security");
    reveal_strlit("security=");
    assert forall|v: Seq<char>| #[trigger] kv("security"@, v) == "security="@ + v by {
        assert(kv("security"@, v) =~= "security="@ + v);
    }
    reveal_strlit("flow");
    reveal_strlit("flow=");
    assert forall|v: Seq<char>| #[trigger] kv("flow"@, v) == "flow="@ + v by {
        assert(kv("flow"@, v) =~= "flow="@ + v);
    }
    reveal_strlit("path");
    reveal_strlit("path=");
    assert forall|v: Seq<char>| #[trigger] kv("path"@, v) == "path="@ + v by {
        assert(kv("path"@, v) =~= "path="@ + v);
    }
    reveal_strlit("host");
    reveal_strlit("host=");
    assert forall|v: Seq<char>| #[trigger] kv("host"@, v) == "host="@ + v by {
        assert(kv("host"@, v) =~= "host="@ + v);
    }
    reveal_strlit("sni");
    reveal_strlit("sni=");
    assert forall|v: Seq<char>| #[trigger] kv("sni"@, v) == "sni="@ + v by {
        assert(kv("sni"@, v) =~= "sni="@ + v);
    }
    reveal_strlit("fp");
    reveal_strlit("fp=");
    assert forall|v: Seq<char>| #[trigger] kv("fp"@, v) == "fp="@ + v by {
        assert(kv("fp"@, v) =~= "fp="@ + v);
    }
    reveal_strlit("pbk");
    reveal_strlit("pbk=");
    assert forall|v: Seq<char>| #[trigger] kv("pbk"@, v) == "pbk="@ + v by {
        assert(kv("pbk"@, v) =~= "pbk="@ + v);
    }
    reveal_strlit("sid");
    reveal_strlit("sid=");
    assert forall|v: Seq<char>| #[trigger] kv("sid"@, v) == "sid="@ + v by {
        assert(kv("sid"@, v) =~= "sid="@ + v);
    }
    reveal_strlit("spx");
    reveal_strlit("spx=");
    assert forall|v: Seq<char>| #[trigger] kv("spx"@, v) == "spx="@ + v by {
        assert(kv("spx"@, v) =~= "spx="@ + v);
    }
    let ps = vless_params(c);
    let flow = text_or_empty(c.flow);
    let head = seq![kv("type"@, c.transport_type), kv("security"@, c.security)];
    let fl: Seq<Seq<char>> = if flow.len() > 0 { seq![kv("flow"@, flow)] } else { Seq::empty() };
    let tp = transport_params(c);
    let sp: Seq<Seq<char>> = match c.security_settings {
        Some(st) => vless_security_params(st),
        None => Seq::empty(),
    };
    assert(ps == head + fl + tp + sp);
    assert(head[0] == "type="@ + c.transport_type);
    assert(head[1] == "security="@ + c.security);
    assert(head.contains("type="@ + c.transport_type));
    assert(head.contains("security="@ + c.security));
    lemma_in_concat(head, fl, "type="@ + c.transport_type);
    lemma_in_concat(head, fl, "security="@ + c.security);
    lemma_in_concat(head + fl, tp, "type="@ + c.transport_type);
    lemma_in_concat(head + fl, tp, "security="@ + c.security);
    lemma_in_concat(head + fl + tp, sp, "type="@ + c.transport_type);
    lemma_in_concat(head + fl + tp, sp, "security="@ + c.security);
    if let Some(f) = c.flow { if f.len() > 0 {
        let x = "flow="@ + f;
        assert(fl[0] == x);
        assert(fl.contains(x));
        lemma_in_concat(head, fl, x);
        lemma_in_concat(head + fl, tp, x);
        lemma_in_concat(head + fl + tp, sp, x);
    } }
    let pp = encoded_param("path"@, transport_path(c));
    let hp = encoded_param("host"@, transport_host(c));
    assert(tp == pp + hp);
    if let Some(p) = transport_path(c) {
        let x = "path="@ + url_encoded(p);
        assert(pp[0] == x);
        assert(pp.contains(x));
        lemma_in_concat(pp, hp, x);
        lemma_in_concat(head + fl, tp, x);
        lemma_in_concat(head + fl + tp, sp, x);
    }
    if let Some(h) = transport_host(c) {
        let x = "host="@ + url_encoded(h);
        assert(hp[0] == x);
        assert(hp.contains(x));
        lemma_in_concat(pp, hp, x);
        lemma_in_concat(head + fl, tp, x);
        lemma_in_concat(head + fl + tp, sp, x);
    }
    if let Some(st) = c.security_settings {
        let a = encoded_param("sni"@, st.server_name);
        let b: Seq<Seq<char>> = match st.fingerprint { Some(fp) => seq![kv("fp"@, fp)], None => Seq::empty() };
        let k = encoded_param("pbk"@, st.public_key);
        let d = encoded_param("sid"@, st.short_id);
        let e = encoded_param("spx"@, st.spider_x);
        assert(sp == a + b + k + d + e);
        if let Some(n) = st.server_name {
            let x = "sni="@ + url_encoded(n);
            assert(a[0] == x);
            assert(a.contains(x));
            lemma_in_concat(a, b, x);
            lemma_in_concat(a + b, k, x);
            lemma_in_concat(a + b + k, d, x);
            lemma_in_concat(a + b + k + d, e, x);
            lemma_in_concat(head + fl + tp, sp, x);
        }
        if let Some(f) = st.fingerprint {
            let x = "fp="@ + f;
            assert(b[0] == x);
            assert(b.contains(x));
            lemma_in_concat(a, b, x);
            lemma_in_concat(a + b, k, x);
            lemma_in_concat(a + b + k, d, x);
            lemma_in_concat(a + b + k + d, e, x);
            lemma_in_concat(head + fl + tp, sp, x);
        }
        if let Some(pk) = st.public_key {
            let x = "pbk="@ + url_encoded(pk);
            assert(k[0] == x);
            assert(k.contains(x));
            lemma_in_concat(a + b, k, x);
            lemma_in_concat(a + b + k, d, x);
            lemma_in_concat(a + b + k + d, e, x);
            lemma_in_concat(head + fl + tp, sp, x);
        }
        if let Some(sid) = st.short_id {
            let x = "sid="@ + url_encoded(sid);
            assert(d[0] == x);
            assert(d.contains(x));
            lemma_in_concat(a + b + k, d, x);
            lemma_in_concat(a + b + k + d, e, x);
            lemma_in_concat(head + fl + tp, sp, x);
        }
        if let Some(spx) = st.spider_x {
            let x = "spx="@ + url_encoded(spx);
            assert(e[0] == x);
            assert(e.contains(x));
            lemma_in_concat(a + b + k + d, e, x);
            lemma_in_concat(head + fl + tp, sp, x);
        }
    }
}

/// `a`, then `line` on a line of its own indented as a Clash proxy field, then `b`.
pub open spec fn field_line_at(a: Seq<char>, line: Seq<char>, b: Seq<char>) -> Seq<char> {
    a + "\n      "@ + line + b
}

/// Whether a Clash proxy entry has `line` as one of its field lines: it follows a line break
/// and the field indentation, and is followed by the end of the entry or another line break.
pub open spec fn has_field_line(text: Seq<char>, line: Seq<char>) -> bool {
    exists|a: Seq<char>, b: Seq<char>|
        text == #[trigger] field_line_at(a, line, b) && (b.len() == 0 || b[0] == '\n')
}

/// The Clash entry of a shadowsocks client is of type `ss` at the given server and the
/// client's port, its cipher is the client's encryption method and its password the client's
/// password (kept in `uuid`).
pub proof fn lemma_clash_ss_fields(c: ClientConfigView, host: Seq<char>)
    ensures
        has_field_line(clash_ss_entry(c, host), "type: ss"@),
        has_field_line(clash_ss_entry(c, host), "server: "@ + host),
        has_field_line(clash_ss_entry(c, host), "port: "@ + int_text(c.port as int)),
        has_field_line(clash_ss_entry(c, host), "cipher: "@ + c.encryption),
        has_field_line(clash_ss_entry(c, host), "password: "@ + c.uuid),
{
    reveal_strlit("- name: \"");
    reveal_strlit("\"\n      type: ss\n      server: ");
    reveal_strlit("\n      port: ");
    reveal_strlit("\n      cipher: ");
    reveal_strlit("\n      password: ");
    reveal_strlit("\n      ");
    reveal_strlit("type: ss");
    reveal_strlit("\n      type: ss");
    reveal_strlit("server: ");
    reveal_strlit("\n      server: ");
    reveal_strlit("port: ");
    reveal_strlit("cipher: ");
    reveal_strlit("password: ");
    reveal_strlit("\"");
    let e = clash_ss_entry(c, host);
    let name = "- name: \""@ + c.remark + "\""@;
    let port = int_text(c.port as int);
    let t1 = "\n      server: "@ + host + "\n      port: "@ + port + "\n      cipher: "@ + c.encryption + "\n      password: "@ + c.uuid;
    assert(e =~= field_line_at(name, "type: ss"@, t1));
    assert(t1[0] == '\n');
    let a2 = name + "\n      type: ss"@;
    let t2 = "\n      port: "@ + port + "\n      cipher: "@ + c.encryption + "\n      password: "@ + c.uuid;
    assert(e =~= field_line_at(a2, "server: "@ + host, t2));
    assert(t2[0] == '\n');
    let a3 = a2 + "\n      server: "@ + host;
    let t3 = "\n      cipher: "@ + c.encryption + "\n      password: "@ + c.uuid;
    assert(e =~= field_line_at(a3, "port: "@ + port, t3));
    assert(t3[0] == '\n');
    let a4 = a3 + "\n      port: "@ + port;
    let t4 = "\n      password: "@ + c.uuid;
    assert(e =~= field_line_at(a4, "cipher: "@ + c.encryption, t4));
    assert(t4[0] == '\n');
    let a5 = a4 + "\n      cipher: "@ + c.encryption;
    assert(e =~= field_line_at(a5, "password: "@ + c.uuid, Seq::empty()));
}

/// The Clash entry of a trojan client is of type `trojan` at the given server and the
/// client's port, with the client's password (kept in `uuid`).
pub proof fn lemma_clash_trojan_fields(c: ClientConfigView, host: Seq<char>)
    ensures
        has_field_line(clash_trojan_entry(c, host), "type: trojan"@),
        has_field_line(clash_trojan_entry(c, host), "server: "@ + host),
        has_field_line(clash_trojan_entry(c, host), "port: "@ + int_text(c.port as int)),
        has_field_line(clash_trojan_entry(c, host), "password: "@ + c.uuid),
{
    reveal_strlit("- name: \"");
    reveal_strlit("\"\n      type: trojan\n      server: ");
    reveal_strlit("\n      port: ");
    reveal_strlit("\n      password: ");
    reveal_strlit("\n      ");
    reveal_strlit("type: trojan");
    reveal_strlit("\n      type: trojan");
    reveal_strlit("server: ");
    reveal_strlit("\n      server: ");
    reveal_strlit("port: ");
    reveal_strlit("password: ");
    reveal_strlit("\"");
    let e = clash_trojan_entry(c, host);
    let name = "- name: \""@ + c.remark + "\""@;
    let port = int_text(c.port as int);
    let t1 = "\n      server: "@ + host + "\n      port: "@ + port + "\n      password: "@ + c.uuid;
    assert(e =~= field_line_at(name, "type: trojan"@, t1));
    assert(t1[0] == '\n');
    let a2 = name + "\n      type: trojan"@;
    let t2 = "\n      port: "@ + port + "\n      password: "@ + c.uuid;
    assert(e =~= field_line_at(a2, "server: "@ + host, t2));
    assert(t2[0] == '\n');
    let a3 = a2 + "\n      server: "@ + host;
    let t3 = "\n      password: "@ + c.uuid;
    assert(e =~= field_line_at(a3, "port: "@ + port, t3));
    assert(t3[0] == '\n');
    let a4 = a3 + "\n      port: "@ + port;
    assert(e =~= field_line_at(a4, "password: "@ + c.uuid, Seq::empty()));
}

/// The Clash entry of a vless client is of type `vless` at the given server and the client's
/// port, with the client's id.
pub proof fn lemma_clash_vless_fields(c: ClientConfigView, host: Seq<char>)
    ensures
        has_field_line(clash_vless_entry(c, host), "type: vless"@),
        has_field_line(clash_vless_entry(c, host), "server: "@ + host),
        has_field_line(clash_vless_entry(c, host), "port: "@ + int_text(c.port as int)),
        has_field_line(clash_vless_entry(c, host), "uuid: "@ + c.uuid),
{
    reveal_strlit("- name: \"");
    reveal_strlit("\"\n      type: vless\n      server: ");
    reveal_strlit("\n      port: ");
    reveal_strlit("\n      uuid: ");
    reveal_strlit("\n      ");
    reveal_strlit("type: vless");
    reveal_strlit("\n      type: vless");
    reveal_strlit("server: ");
    reveal_strlit("\n      server: ");
    reveal_strlit("port: ");
    reveal_strlit("uuid: ");
    reveal_strlit("\"");
    let e = clash_vless_entry(c, host);
    let name = "- name: \""@ + c.remark + "\""@;
    let port = int_text(c.port as int);
    let t1 = "\n      server: "@ + host + "\n      port: "@ + port + "\n      uuid: "@ + c.uuid;
    assert(e =~= field_line_at(name, "type: vless"@, t1));
    assert(t1[0] == '\n');
    let a2 = name + "\n      type: vless"@;
    let t2 = "\n      port: "@ + port + "\n      uuid: "@ + c.uuid;
    assert(e =~= field_line_at(a2, "server: "@ + host, t2));
    assert(t2[0] == '\n');
    let a3 = a2 + "\n      server: "@ + host;
    let t3 = "\n      uuid: "@ + c.uuid;
    assert(e =~= field_line_at(a3, "port: "@ + port, t3));
    assert(t3[0] == '\n');
    let a4 = a3 + "\n      port: "@ + port;
    assert(e =~= field_line_at(a4, "uuid: "@ + c.uuid, Seq::empty()));
}


/// Whether `piece` occurs in `text`, anywhere.
pub open spec fn occurs_in(text: Seq<char>, piece: Seq<char>) -> bool {
    exists|a: Seq<char>, b: Seq<char>| text == a + piece + b
}

proof fn lemma_occurs_extended(text: Seq<char>, piece: Seq<char>, before: Seq<char>, after: Seq<char>)
    requires
        occurs_in(text, piece),
    ensures
        occurs_in(before + text + after, piece),
{
    let (a, b) = choose|a: Seq<char>, b: Seq<char>| text == a + piece + b;
    assert(before + text + after =~= (before + a) + piece + (b + after));
}

proof fn lemma_proxy_lines_hold_entries(cs: Seq<ClientConfigView>, host: Seq<char>, k: int)
    requires
        0 <= k < cs.len(),
        clash_entry(cs[k], host) is Some,
    ensures
        occurs_in(clash_proxy_lines(cs, host), "  "@ + clash_entry(cs[k], host).unwrap() + "\n"@),
    decreases cs.len(),
{
    let piece = "  "@ + clash_entry(cs[k], host).unwrap() + "\n"@;
    let rest = clash_proxy_lines(cs.drop_last(), host);
    if k == cs.len() - 1 {
        assert(clash_proxy_lines(cs, host) =~= rest + piece + Seq::empty());
    } else {
        assert(cs.drop_last()[k] == cs[k]);
        lemma_proxy_lines_hold_entries(cs.drop_last(), host, k);
        let tail = clash_proxy_lines(cs, host).subrange(rest.len() as int, clash_proxy_lines(cs, host).len() as int);
        assert(clash_proxy_lines(cs, host) =~= Seq::empty() + rest + tail);
        lemma_occurs_extended(rest, piece, Seq::empty(), tail);
    }
}

proof fn lemma_group_lines_hold_remarks(cs: Seq<ClientConfigView>, k: int)
    requires
        0 <= k < cs.len(),
    ensures
        occurs_in(clash_group_lines(cs), "      - \""@ + yaml_escaped(cs[k].remark) + "\"\n"@),
    decreases cs.len(),
{
    let piece = "      - \""@ + yaml_escaped(cs[k].remark) + "\"\n"@;
    let rest = clash_group_lines(cs.drop_last());
    if k == cs.len() - 1 {
        assert(clash_group_lines(cs) =~= rest + piece + Seq::empty());
    } else {
        assert(cs.drop_last()[k] == cs[k]);
        lemma_group_lines_hold_remarks(cs.drop_last(), k);
        let tail = clash_group_lines(cs).subrange(rest.len() as int, clash_group_lines(cs).len() as int);
        assert(clash_group_lines(cs) =~= Seq::empty() + rest + tail);
        lemma_occurs_extended(rest, piece, Seq::empty(), tail);
    }
}

/// A Clash document leaves no client out: every client whose protocol Clash knows has its
/// proxy entry on a line of the document, and every client's remark, quoted, is a member of
/// the selecting proxy group.
pub proof fn lemma_clash_lists_every_client(cs: Seq<ClientConfigView>, host: Seq<char>)
    ensures
        forall|k: int| 0 <= k < cs.len() ==> (#[trigger] clash_entry(cs[k], host) matches Some(e)
            ==> occurs_in(clash_document(cs, host), "  "@ + e + "\n"@)),
        forall|k: int| 0 <= k < cs.len() ==> occurs_in(clash_document(cs, host),
            "      - \""@ + yaml_escaped(#[trigger] cs[k].remark) + "\"\n"@),
{
    let head = "proxies:\n"@;
    let mid = "\nproxy-groups:\n  - name: \"Proxy\"\n    type: select\n    proxies:\n"@;
    let foot = "\nrules:\n  - MATCH,Proxy\n"@;
    let lines = clash_proxy_lines(cs, host);
    let group = clash_group_lines(cs);
    assert forall|k: int| 0 <= k < cs.len() implies (#[trigger] clash_entry(cs[k], host) matches Some(e)
        ==> occurs_in(clash_document(cs, host), "  "@ + e + "\n"@)) by {
        if clash_entry(cs[k], host) is Some {
            lemma_proxy_lines_hold_entries(cs, host, k);
            assert(clash_document(cs, host) =~= head + lines + (mid + group + foot));
            lemma_occurs_extended(lines, "  "@ + clash_entry(cs[k], host).unwrap() + "\n"@, head, mid + group + foot);
        }
    }
    assert forall|k: int| 0 <= k < cs.len() implies occurs_in(clash_document(cs, host),
        "      - \""@ + yaml_escaped(#[trigger] cs[k].remark) + "\"\n"@) by {
        lemma_group_lines_hold_remarks(cs, k);
        assert(clash_document(cs, host) =~= (head + lines + mid) + group + foot);
        lemma_occurs_extended(group, "      - \""@ + yaml_escaped(cs[k].remark) + "\"\n"@, head + lines + mid, foot);
    }
}

proof fn lemma_singbox_outbound_fields(c: ClientConfigView, host: Seq<char>)
    ensures
        singbox_outbound_view(c, host).get("type"@) == Some(JsonView::Str(c.protocol)),
        singbox_outbound_view(c, host).get("tag"@) == Some(JsonView::Str(c.remark)),
        singbox_outbound_view(c, host).get("server"@) == Some(JsonView::Str(host)),
        singbox_outbound_view(c, host).get("server_port"@) == Some(JsonView::Int(c.port as int)),
        lowercased(c.protocol) == "vmess"@ || lowercased(c.protocol) == "vless"@
            ==> singbox_outbound_view(c, host).get("uuid"@) == Some(JsonView::Str(c.uuid)),
        lowercased(c.protocol) == "trojan"@
            ==> singbox_outbound_view(c, host).get("password"@) == Some(JsonView::Str(c.uuid)),
{
    reveal_strlit("type");
    reveal_strlit("tag");
    reveal_strlit("server");
    reveal_strlit("server_port");
    reveal_strlit("uuid");
    reveal_strlit("password");
    reveal_strlit("vmess");
    reveal_strlit("vless");
    reveal_strlit("trojan");
    reveal_with_fuel(crate::json::member_lookup, 6);
    assert("type"@.len() == 4 && "tag"@.len() == 3 && "server"@.len() == 6 && "server_port"@.len() == 11);
    assert("uuid"@.len() == 4 && "password"@.len() == 8);
    assert("uuid"@[0] != "type"@[0]);
    assert("vmess"@.len() == 5 && "vless"@.len() == 5 && "trojan"@.len() == 6);
    assert("vmess"@[1] != "vless"@[1]);
    let base = seq![
        ("type"@, JsonView::Str(c.protocol)),
        ("tag"@, JsonView::Str(c.remark)),
        ("server"@, JsonView::Str(host)),
        ("server_port"@, JsonView::Int(c.port as int)),
    ];
    if lowercased(c.protocol) == "vmess"@ || lowercased(c.protocol) == "vless"@ {
        let m = base.push(("uuid"@, JsonView::Str(c.uuid)));
        assert(m[4].0 == "uuid"@);
        assert(m.subrange(1, 5).subrange(1, 4).subrange(1, 3).subrange(1, 2)[0] == m[4]);
    }
    if lowercased(c.protocol) == "trojan"@ {
        let m = base.push(("password"@, JsonView::Str(c.uuid)));
        assert(m.subrange(1, 5).subrange(1, 4).subrange(1, 3).subrange(1, 2)[0] == m[4]);
    }
}

/// A sing-box document leaves no client out: it is the pretty text of a document whose
/// `outbounds` array has one item per client, in order, each naming the client's protocol
/// (`type`), remark (`tag`), the host (`server`) and the client's port (`server_port`), with
/// the client's id as `uuid` for vmess and vless and as `password` for trojan.
pub proof fn lemma_singbox_lists_every_client(cs: Seq<ClientConfigView>, host: Seq<char>)
    ensures
        exists|items: Seq<JsonView>| {
            &&& singbox_document(cs, host) == pretty_text(JsonView::Object(seq![("outbounds"@, JsonView::Array(items))]))
            &&& items.len() == cs.len()
            &&& forall|k: int| 0 <= k < cs.len() ==> {
                &&& (#[trigger] items[k]).get("type"@) == Some(JsonView::Str(cs[k].protocol))
                &&& items[k].get("tag"@) == Some(JsonView::Str(cs[k].remark))
                &&& items[k].get("server"@) == Some(JsonView::Str(host))
                &&& items[k].get("server_port"@) == Some(JsonView::Int(cs[k].port as int))
                &&& (lowercased(cs[k].protocol) == "vmess"@ || lowercased(cs[k].protocol) == "vless"@
                    ==> items[k].get("uuid"@) == Some(JsonView::Str(cs[k].uuid)))
                &&& (lowercased(cs[k].protocol) == "trojan"@ ==> items[k].get("password"@) == Some(JsonView::Str(cs[k].uuid)))
            }
        },
{
    reveal_strlit("type");
    reveal_strlit("tag");
    reveal_strlit("server");
    reveal_strlit("server_port");
    reveal_strlit("uuid");
    reveal_strlit("password");
    reveal_strlit("vmess");
    reveal_strlit("vless");
    reveal_strlit("trojan");
    reveal_with_fuel(crate::json::member_lookup, 6);
    let items = cs.map_values(|c: ClientConfigView| singbox_outbound_view(c, host));
    assert forall|k: int| 0 <= k < cs.len() implies {
        &&& (#[trigger] items[k]).get("type"@) == Some(JsonView::Str(cs[k].protocol))
        &&& items[k].get("tag"@) == Some(JsonView::Str(cs[k].remark))
        &&& items[k].get("server"@) == Some(JsonView::Str(host))
        &&& items[k].get("server_port"@) == Some(JsonView::Int(cs[k].port as int))
        &&& (lowercased(cs[k].protocol) == "vmess"@ || lowercased(cs[k].protocol) == "vless"@
            ==> items[k].get("uuid"@) == Some(JsonView::Str(cs[k].uuid)))
        &&& (lowercased(cs[k].protocol) == "trojan"@ ==> items[k].get("password"@) == Some(JsonView::Str(cs[k].uuid)))
    } by {
        assert(items[k] == singbox_outbound_view(cs[k], host));
        lemma_singbox_outbound_fields(cs[k], host);
    }
    assert(items.len() == cs.len());
    assert(singbox_document(cs, host) == pretty_text(JsonView::Object(seq![("outbounds"@, JsonView::Array(items))])));
}

/// A trojan link is `trojan://password@host:port?query#remark`, the client's id standing as
/// the password, and its query carries the transport type and the security, the
/// percent-encoded path and host of the transport, and the percent-encoded server name
/// (`sni`), each when present.
pub proof fn lemma_trojan_link_parameters(c: ClientConfigView, host: Seq<char>, remark: Seq<char>)
    ensures
        exists|ps: Seq<Seq<char>>| {
            &&& trojan_link(c, host, remark) == "trojan://"@ + c.uuid + "@"@ + host + ":"@ + int_text(c.port as int) + "?"@
                + joined(ps, "&"@) + "#"@ + remark
            &&& ps.contains("type="@ + c.transport_type)
            &&& ps.contains("security="@ + c.security)
            &&& (transport_path(c) matches Some(p) ==> ps.contains("path="@ + url_encoded(p)))
            &&& (transport_host(c) matches Some(h) ==> ps.contains("host="@ + url_encoded(h)))
            &&& (server_name(c) matches Some(n) ==> ps.contains("sni="@ + url_encoded(n)))
        },
{
    reveal_strlit("=");
    reveal_strlit("type");
    reveal_strlit("type=");
    assert(kv("type"@, c.transport_type) =~= "type="@ + c.transport_type);
    reveal_strlit("security");
    reveal_strlit("security=");
    assert(kv("security"@, c.security) =~= "security="@ + c.security);
    let head = seq![kv("type"@, c.transport_type), kv("security"@, c.security)];
    let pp = encoded_param("path"@, transport_path(c));
    let hp = encoded_param("host"@, transport_host(c));
    let sp = encoded_param("sni"@, server_name(c));
    let ps = trojan_params(c);
    assert(ps == head + (pp + hp) + sp);
    assert(head[0] == "type="@ + c.transport_type);
    assert(head[1] == "security="@ + c.security);
    assert(head.contains("type="@ + c.transport_type));
    assert(head.contains("security="@ + c.security));
    lemma_in_concat(head, pp + hp, "type="@ + c.transport_type);
    lemma_in_concat(head, pp + hp, "security="@ + c.security);
    lemma_in_concat(head + (pp + hp), sp, "type="@ + c.transport_type);
    lemma_in_concat(head + (pp + hp), sp, "security="@ + c.security);
    if let Some(p) = transport_path(c) {
        reveal_strlit("path");
        reveal_strlit("path=");
        let x = "path="@ + url_encoded(p);
        assert(pp[0] =~= x);
        assert(pp.contains(x));
        lemma_in_concat(pp, hp, x);
        lemma_in_concat(head, pp + hp, x);
        lemma_in_concat(head + (pp + hp), sp, x);
    }
    if let Some(h) = transport_host(c) {
        reveal_strlit("host");
        reveal_strlit("host=");
        let x = "host="@ + url_encoded(h);
        assert(hp[0] =~= x);
        assert(hp.contains(x));
        lemma_in_concat(pp, hp, x);
        lemma_in_concat(head, pp + hp, x);
        lemma_in_concat(head + (pp + hp), sp, x);
    }
    if let Some(n) = server_name(c) {
        reveal_strlit("sni");
        reveal_strlit("sni=");
        let x = "sni="@ + url_encoded(n);
        assert(sp[0] =~= x);
        assert(sp.contains(x));
        lemma_in_concat(head + (pp + hp), sp, x);
    }
}

/// A vmess link is `vmess://` and the Base64 of the compact JSON text of a document that
/// carries the remark (`ps`), the host (`add`), the client's port and id, alter id 0, the
/// transport type (`net`), the transport host and path (empty when unset), `tls` when the
/// security is TLS (empty otherwise), the server name (empty when unset) and the fingerprint
/// when there is one.
pub proof fn lemma_vmess_link_fields(c: ClientConfigView, host: Seq<char>, remark: Seq<char>)
    ensures
        exists|d: JsonView| {
            &&& vmess_link(c, host, remark) == "vmess://"@ + base64_text(encode_utf8(compact_text(d)))
            &&& d.get("v"@) == Some(JsonView::Str("2"@))
            &&& d.get("ps"@) == Some(JsonView::Str(remark))
            &&& d.get("add"@) == Some(JsonView::Str(host))
            &&& d.get("port"@) == Some(JsonView::Int(c.port as int))
            &&& d.get("id"@) == Some(JsonView::Str(c.uuid))
            &&& d.get("aid"@) == Some(JsonView::Int(0))
            &&& d.get("net"@) == Some(JsonView::Str(c.transport_type))
            &&& d.get("host"@) == Some(JsonView::Str(match transport_host(c) { Some(h) => h, None => Seq::empty() }))
            &&& d.get("path"@) == Some(JsonView::Str(match transport_path(c) { Some(p) => p, None => Seq::empty() }))
            &&& d.get("tls"@) == Some(JsonView::Str(if c.security == "tls"@ { "tls"@ } else { Seq::empty() }))
            &&& d.get("sni"@) == Some(JsonView::Str(match server_name(c) { Some(n) => n, None => Seq::empty() }))
            &&& (fingerprint(c) matches Some(fp) ==> d.get("fp"@) == Some(JsonView::Str(fp)))
        },
{
    reveal_strlit("v");
    reveal_strlit("ps");
    reveal_strlit("add");
    reveal_strlit("port");
    reveal_strlit("id");
    reveal_strlit("aid");
    reveal_strlit("net");
    reveal_strlit("type");
    reveal_strlit("host");
    reveal_strlit("path");
    reveal_strlit("tls");
    reveal_strlit("sni");
    reveal_strlit("fp");
    reveal_with_fuel(crate::json::member_lookup, 14);
    assert("v"@.len() == 1 && "ps"@.len() == 2 && "add"@.len() == 3 && "port"@.len() == 4);
    assert("id"@.len() == 2 && "aid"@.len() == 3 && "net"@.len() == 3 && "type"@.len() == 4);
    assert("host"@.len() == 4 && "path"@.len() == 4 && "tls"@.len() == 3 && "sni"@.len() == 3);
    assert("fp"@.len() == 2);
    assert("ps"@[0] != "id"@[0] && "ps"@[0] != "fp"@[0] && "id"@[0] != "fp"@[0]);
    assert("add"@[1] != "aid"@[1] && "add"@[0] != "net"@[0] && "add"@[0] != "tls"@[0] && "add"@[0] != "sni"@[0]);
    assert("aid"@[0] != "net"@[0] && "aid"@[0] != "tls"@[0] && "aid"@[0] != "sni"@[0]);
    assert("net"@[0] != "tls"@[0] && "net"@[0] != "sni"@[0] && "tls"@[0] != "sni"@[0]);
    assert("port"@[1] != "path"@[1] && "port"@[0] != "type"@[0] && "port"@[0] != "host"@[0]);
    assert("type"@[0] != "host"@[0] && "type"@[0] != "path"@[0] && "host"@[0] != "path"@[0]);
    let d = vmess_document(c, host, remark);
    assert(d.get("v"@) == Some(JsonView::Str("2"@)));
    assert(d.get("ps"@) == Some(JsonView::Str(remark)));
    assert(d.get("add"@) == Some(JsonView::Str(host)));
    assert(d.get("port"@) == Some(JsonView::Int(c.port as int)));
    assert(d.get("id"@) == Some(JsonView::Str(c.uuid)));
    assert(d.get("aid"@) == Some(JsonView::Int(0)));
    assert(d.get("net"@) == Some(JsonView::Str(c.transport_type)));
    assert(d.get("host"@) == Some(JsonView::Str(match transport_host(c) { Some(h) => h, None => Seq::empty() })));
    assert(d.get("path"@) == Some(JsonView::Str(match transport_path(c) { Some(p) => p, None => Seq::empty() })));
    assert(d.get("tls"@) == Some(JsonView::Str(if c.security == "tls"@ { "tls"@ } else { Seq::empty() })));
    assert(d.get("sni"@) == Some(JsonView::Str(match server_name(c) { Some(n) => n, None => Seq::empty() })));
    assert(fingerprint(c) matches Some(fp) ==> d.get("fp"@) == Some(JsonView::Str(fp)));
    assert(vmess_link(c, host, remark) == "vmess://"@ + base64_text(encode_utf8(compact_text(d))));
}

proof fn lemma_surge_lines_hold(cs: Seq<ClientConfigView>, host: Seq<char>, k: int)
    requires
        0 <= k < cs.len(),
        surge_line(cs[k], host) is Some,
    ensures
        occurs_in(surge_lines(cs, host), surge_line(cs[k], host).unwrap() + "\n"@),
    decreases cs.len(),
{
    let piece = surge_line(cs[k], host).unwrap() + "\n"@;
    let rest = surge_lines(cs.drop_last(), host);
    if k == cs.len() - 1 {
        assert(surge_lines(cs, host) =~= rest + piece + Seq::empty());
    } else {
        assert(cs.drop_last()[k] == cs[k]);
        lemma_surge_lines_hold(cs.drop_last(), host, k);
        let tail = surge_lines(cs, host).subrange(rest.len() as int, surge_lines(cs, host).len() as int);
        assert(surge_lines(cs, host) =~= Seq::empty() + rest + tail);
        lemma_occurs_extended(rest, piece, Seq::empty(), tail);
    }
}

/// A Surge document starts with its managed-config header and leaves no client out: every
/// vmess or trojan client has a line `remark = vmess, host, port, ...` (or `= trojan`) in it.
pub proof fn lemma_surge_lists_every_client(cs: Seq<ClientConfigView>, host: Seq<char>)
    ensures
        surge_document(cs, host).len() >= "#!MANAGED-CONFIG\n\n[Proxy]\n"@.len(),
        surge_document(cs, host).take("#!MANAGED-CONFIG\n\n[Proxy]\n"@.len() as int) == "#!MANAGED-CONFIG\n\n[Proxy]\n"@,
        forall|k: int| 0 <= k < cs.len() ==> (#[trigger] lowercased(cs[k].protocol) == "vmess"@
            ==> occurs_in(surge_document(cs, host), cs[k].remark + " = vmess, "@ + host + ", "@
                + int_text(cs[k].port as int) + ", username = "@ + cs[k].uuid + ", ws-path = /\n"@)),
        forall|k: int| 0 <= k < cs.len() ==> (#[trigger] lowercased(cs[k].protocol) == "trojan"@
            ==> occurs_in(surge_document(cs, host), cs[k].remark + " = trojan, "@ + host + ", "@
                + int_text(cs[k].port as int) + ", "@ + cs[k].uuid + "\n"@)),
{
    let head = "#!MANAGED-CONFIG\n\n[Proxy]\n"@;
    let lines = surge_lines(cs, host);
    assert(surge_document(cs, host).take(head.len() as int) =~= head);
    reveal_strlit("vmess");
    reveal_strlit("vless");
    reveal_strlit("trojan");
    assert("vmess"@.len() == 5 && "vless"@.len() == 5 && "trojan"@.len() == 6);
    assert forall|k: int| 0 <= k < cs.len() implies (#[trigger] lowercased(cs[k].protocol) == "vmess"@
        ==> occurs_in(surge_document(cs, host), cs[k].remark + " = vmess, "@ + host + ", "@
            + int_text(cs[k].port as int) + ", username = "@ + cs[k].uuid + ", ws-path = /\n"@)) by {
        if lowercased(cs[k].protocol) == "vmess"@ {
            let c = cs[k];
            lemma_surge_lines_hold(cs, host, k);
            lemma_occurs_extended(lines, surge_line(c, host).unwrap() + "\n"@, head, Seq::empty());
            assert(head + lines + Seq::empty() =~= surge_document(cs, host));
            assert(surge_line(c, host).unwrap() + "\n"@ =~= c.remark + " = vmess, "@ + host + ", "@
                + int_text(c.port as int) + ", username = "@ + c.uuid + ", ws-path = /\n"@) by {
                reveal_strlit(", ws-path = /");
                reveal_strlit(", ws-path = /\n");
                reveal_strlit("\n");
            }
        }
    }
    assert forall|k: int| 0 <= k < cs.len() implies (#[trigger] lowercased(cs[k].protocol) == "trojan"@
        ==> occurs_in(surge_document(cs, host), cs[k].remark + " = trojan, "@ + host + ", "@
            + int_text(cs[k].port as int) + ", "@ + cs[k].uuid + "\n"@)) by {
        if lowercased(cs[k].protocol) == "trojan"@ {
            let c = cs[k];
            lemma_surge_lines_hold(cs, host, k);
            lemma_occurs_extended(lines, surge_line(c, host).unwrap() + "\n"@, head, Seq::empty());
            assert(head + lines + Seq::empty() =~= surge_document(cs, host));
            assert(surge_line(c, host).unwrap() + "\n"@ =~= c.remark + " = trojan, "@ + host + ", "@
                + int_text(c.port as int) + ", "@ + c.uuid + "\n"@);
        }
    }
}

spec fn clash_vmess_options(c: ClientConfigView) -> Seq<char> {
    (match transport_path(c) {
        Some(p) => "\n      ws-path: \""@ + p + "\""@,
        None => Seq::empty(),
    }) + (if c.security == "tls"@ {
        "\n      tls: true"@ + match server_name(c) {
            Some(sni) => "\n      servername: \""@ + sni + "\""@,
            None => Seq::empty(),
        }
    } else {
        Seq::empty()
    })
}

proof fn lemma_clash_vmess_layout(c: ClientConfigView, host: Seq<char>)
    ensures
        clash_vmess_entry(c, host) == "- name: \""@ + c.remark + "\""@ + "\n      type: vmess"@ + "\n      server: "@ + host
            + "\n      port: "@ + int_text(c.port as int) + "\n      uuid: "@ + c.uuid
            + "\n      alterId: 0\n      cipher: auto"@ + "\n      network: "@ + c.transport_type + clash_vmess_options(c),
{
    let l1 = "\n      type: vmess"@;
    let l2 = "\n      server: "@;
    let l3 = "\n      port: "@;
    let l4 = "\n      uuid: "@;
    let l5 = "\n      network: "@;
    let mid = "\n      alterId: 0\n      cipher: auto"@;
    assert("\"\n      type: vmess\n      "@ + "server: "@ =~= "\""@ + l1 + l2) by {
        reveal_strlit("\"\n      type: vmess\n      ");
        reveal_strlit("server: ");
        reveal_strlit("\"");
        reveal_strlit("\n      type: vmess");
        reveal_strlit("\n      server: ");
    }
    assert("\n      alterId: 0\n      cipher: auto\n      network: "@ =~= mid + l5) by {
        reveal_strlit("\n      alterId: 0\n      cipher: auto\n      network: ");
        reveal_strlit("\n      alterId: 0\n      cipher: auto");
        reveal_strlit("\n      network: ");
    }
    let e = clash_vmess_entry(c, host);
    let w = clash_vmess_options(c);
    let name = "- name: \""@ + c.remark + "\""@;
    let port = int_text(c.port as int);
    let x0 = "- name: \""@ + c.remark;
    let q = "\"\n      type: vmess\n      "@ + "server: "@;
    let p = x0 + "\"\n      type: vmess\n      "@ + "server: "@;
    assert(p =~= name + l1 + l2) by {
        assert(p =~= x0 + q);
    }
    let r = "\n      alterId: 0\n      cipher: auto\n      network: "@;
    assert(e =~= p + host + l3 + port + l4 + c.uuid + r + c.transport_type + w);
    assert(p + host + l3 + port + l4 + c.uuid + r =~= name + l1 + l2 + host + l3 + port + l4 + c.uuid + mid + l5);
    assert(e =~= name + l1 + l2 + host + l3 + port + l4 + c.uuid + mid + l5 + c.transport_type + w);
}

spec fn field_line_closed(s: Seq<char>, line: Seq<char>) -> bool {
    exists|a: Seq<char>, b: Seq<char>| s == field_line_at(a, line, b) && b.len() > 0 && b[0] == '\n'
}

proof fn lemma_field_line_opened(a: Seq<char>, lit: Seq<char>, l: Seq<char>, v: Seq<char>, next: Seq<char>)
    requires
        "\n      "@ + lit == l,
        next.len() > 0,
        next[0] == '\n',
    ensures
        field_line_closed(a + l + v + next, lit + v),
{
    assert(a + l + v + next =~= field_line_at(a, lit + v, next));
}

proof fn lemma_field_line_extended(s: Seq<char>, line: Seq<char>, x: Seq<char>)
    requires
        field_line_closed(s, line),
    ensures
        field_line_closed(s + x, line),
        has_field_line(s + x, line),
{
    let (a, b) = choose|a: Seq<char>, b: Seq<char>| s == field_line_at(a, line, b) && b.len() > 0 && b[0] == '\n';
    assert(s + x =~= field_line_at(a, line, b + x));
    assert((b + x)[0] == '\n');
}

proof fn lemma_field_line_through(s: Seq<char>, line: Seq<char>, xs: Seq<Seq<char>>)
    requires
        field_line_closed(s, line),
    ensures
        field_line_closed(xs.fold_left(s, |acc: Seq<char>, x: Seq<char>| acc + x), line),
    decreases xs.len(),
{
    if xs.len() > 0 {
        lemma_field_line_through(s, line, xs.drop_last());
        lemma_field_line_extended(xs.drop_last().fold_left(s, |acc: Seq<char>, x: Seq<char>| acc + x), line, xs.last());
    }
}

proof fn lemma_clash_vmess_head_fields(c: ClientConfigView, host: Seq<char>)
    ensures
        has_field_line(clash_vmess_entry(c, host), "type: vmess"@),
        has_field_line(clash_vmess_entry(c, host), "server: "@ + host),
        has_field_line(clash_vmess_entry(c, host), "port: "@ + int_text(c.port as int)),
{
    let l1 = "\n      type: vmess"@;
    let l2 = "\n      server: "@;
    let l3 = "\n      port: "@;
    let l4 = "\n      uuid: "@;
    let l5 = "\n      network: "@;
    let l6 = "\n      tls: true"@;
    let mid = "\n      alterId: 0\n      cipher: auto"@;
    let ind = "\n      "@;
    lemma_clash_vmess_layout(c, host);
    assert(ind + "type: vmess"@ =~= l1) by {
        reveal_strlit("\n      ");
        reveal_strlit("type: vmess");
        reveal_strlit("\n      type: vmess");
    }
    assert(ind + "server: "@ =~= l2 && l2.len() > 0 && l2[0] == '\n') by {
        reveal_strlit("\n      ");
        reveal_strlit("server: ");
        reveal_strlit("\n      server: ");
    }
    assert(ind + "port: "@ =~= l3 && l3.len() > 0 && l3[0] == '\n') by {
        reveal_strlit("\n      ");
        reveal_strlit("port: ");
        reveal_strlit("\n      port: ");
    }
    assert(ind + "uuid: "@ =~= l4 && l4.len() > 0 && l4[0] == '\n') by {
        reveal_strlit("\n      ");
        reveal_strlit("uuid: ");
        reveal_strlit("\n      uuid: ");
    }
    assert(ind + "network: "@ =~= l5 && l5.len() > 0 && l5[0] == '\n') by {
        reveal_strlit("\n      ");
        reveal_strlit("network: ");
        reveal_strlit("\n      network: ");
    }
    assert(mid.len() > 0 && mid[0] == '\n') by {
        reveal_strlit("\n      alterId: 0\n      cipher: auto");
    }
    let e = clash_vmess_entry(c, host);
    let w = clash_vmess_options(c);
    assert(w.len() == 0 || w[0] == '\n') by {
        reveal_strlit("\n      ws-path: \"");
        reveal_strlit("\n      tls: true");
    }
    let name = "- name: \""@ + c.remark + "\""@;
    let port = int_text(c.port as int);
    let tt = c.transport_type;
    let f = |acc: Seq<char>, x: Seq<char>| acc + x;
    // type
    lemma_field_line_opened(name, "type: vmess"@, l1, Seq::empty(), l2);
    assert(name + l1 + Seq::empty() + l2 =~= name + l1 + l2);
    assert("type: vmess"@ + Seq::<char>::empty() =~= "type: vmess"@);
    let xs1 = seq![host, l3, port, l4, c.uuid, mid, l5, tt, w];
    lemma_field_line_through(name + l1 + l2, "type: vmess"@, xs1);
    assert(xs1.fold_left(name + l1 + l2, f) == e) by { reveal_with_fuel(Seq::fold_left, 10); }
    // server
    lemma_field_line_opened(name + l1, "server: "@, l2, host, l3);
    let xs2 = seq![port, l4, c.uuid, mid, l5, tt, w];
    lemma_field_line_through(name + l1 + l2 + host + l3, "server: "@ + host, xs2);
    assert(xs2.fold_left(name + l1 + l2 + host + l3, f) == e) by { reveal_with_fuel(Seq::fold_left, 8); }
    // port
    lemma_field_line_opened(name + l1 + l2 + host, "port: "@, l3, port, l4);
    let xs3 = seq![c.uuid, mid, l5, tt, w];
    lemma_field_line_through(name + l1 + l2 + host + l3 + port + l4, "port: "@ + port, xs3);
    assert(xs3.fold_left(name + l1 + l2 + host + l3 + port + l4, f) == e) by { reveal_with_fuel(Seq::fold_left, 6); }
}

proof fn lemma_clash_vmess_tail_fields(c: ClientConfigView, host: Seq<char>)
    ensures
        has_field_line(clash_vmess_entry(c, host), "uuid: "@ + c.uuid),
        has_field_line(clash_vmess_entry(c, host), "network: "@ + c.transport_type),
        c.security == "tls"@ ==> has_field_line(clash_vmess_entry(c, host), "tls: true"@),
{
    let l1 = "\n      type: vmess"@;
    let l2 = "\n      server: "@;
    let l3 = "\n      port: "@;
    let l4 = "\n      uuid: "@;
    let l5 = "\n      network: "@;
    let l6 = "\n      tls: true"@;
    let mid = "\n      alterId: 0\n      cipher: auto"@;
    let ind = "\n      "@;
    lemma_clash_vmess_layout(c, host);
    assert(ind + "type: vmess"@ =~= l1) by {
        reveal_strlit("\n      ");
        reveal_strlit("type: vmess");
        reveal_strlit("\n      type: vmess");
    }
    assert(ind + "server: "@ =~= l2 && l2.len() > 0 && l2[0] == '\n') by {
        reveal_strlit("\n      ");
        reveal_strlit("server: ");
        reveal_strlit("\n      server: ");
    }
    assert(ind + "port: "@ =~= l3 && l3.len() > 0 && l3[0] == '\n') by {
        reveal_strlit("\n      ");
        reveal_strlit("port: ");
        reveal_strlit("\n      port: ");
    }
    assert(ind + "uuid: "@ =~= l4 && l4.len() > 0 && l4[0] == '\n') by {
        reveal_strlit("\n      ");
        reveal_strlit("uuid: ");
        reveal_strlit("\n      uuid: ");
    }
    assert(ind + "network: "@ =~= l5 && l5.len() > 0 && l5[0] == '\n') by {
        reveal_strlit("\n      ");
        reveal_strlit("network: ");
        reveal_strlit("\n      network: ");
    }
    assert(mid.len() > 0 && mid[0] == '\n') by {
        reveal_strlit("\n      alterId: 0\n      cipher: auto");
    }
    let e = clash_vmess_entry(c, host);
    let w = clash_vmess_options(c);
    assert(w.len() == 0 || w[0] == '\n') by {
        reveal_strlit("\n      ws-path: \"");
        reveal_strlit("\n      tls: true");
    }
    let name = "- name: \""@ + c.remark + "\""@;
    let port = int_text(c.port as int);
    let tt = c.transport_type;
    let f = |acc: Seq<char>, x: Seq<char>| acc + x;
    // uuid
    lemma_field_line_opened(name + l1 + l2 + host + l3 + port, "uuid: "@, l4, c.uuid, mid);
    let xs4 = seq![l5, tt, w];
    lemma_field_line_through(name + l1 + l2 + host + l3 + port + l4 + c.uuid + mid, "uuid: "@ + c.uuid, xs4);
    assert(xs4.fold_left(name + l1 + l2 + host + l3 + port + l4 + c.uuid + mid, f) == e) by { reveal_with_fuel(Seq::fold_left, 4); }
    // network
    let a5 = name + l1 + l2 + host + l3 + port + l4 + c.uuid + mid;
    assert(has_field_line(e, "network: "@ + tt)) by {
        assert(e =~= field_line_at(a5, "network: "@ + tt, w));
    }
    if c.security == "tls"@ {
        assert(ind + "tls: true"@ =~= l6) by {
            reveal_strlit("\n      ");
            reveal_strlit("tls: true");
            reveal_strlit("\n      tls: true");
        }
        let ws_path: Seq<char> = match transport_path(c) {
            Some(p) => "\n      ws-path: \""@ + p + "\""@,
            None => Seq::empty(),
        };
        let sni: Seq<char> = match server_name(c) {
            Some(n) => "\n      servername: \""@ + n + "\""@,
            None => Seq::empty(),
        };
        assert(sni.len() == 0 || sni[0] == '\n') by {
            reveal_strlit("\n      servername: \"");
        }
        assert(w == ws_path + (l6 + sni));
        assert(has_field_line(e, "tls: true"@)) by {
            assert(e =~= field_line_at(a5 + l5 + tt + ws_path, "tls: true"@, sni));
        }
    }
}

/// The Clash entry of a vmess client has the field lines `type: vmess`, `server: <host>`,
/// `port: <port>`, `uuid: <id>` and `network: <transport type>`, and `tls: true` when the
/// security is TLS.
pub proof fn lemma_clash_vmess_fields(c: ClientConfigView, host: Seq<char>)
    ensures
        has_field_line(clash_vmess_entry(c, host), "type: vmess"@),
        has_field_line(clash_vmess_entry(c, host), "server: "@ + host),
        has_field_line(clash_vmess_entry(c, host), "port: "@ + int_text(c.port as int)),
        has_field_line(clash_vmess_entry(c, host), "uuid: "@ + c.uuid),
        has_field_line(clash_vmess_entry(c, host), "network: "@ + c.transport_type),
        c.security == "tls"@ ==> has_field_line(clash_vmess_entry(c, host), "tls: true"@),
{
    lemma_clash_vmess_head_fields(c, host);
    lemma_clash_vmess_tail_fields(c, host);
}

} // verus!
