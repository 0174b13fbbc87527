//! Inbound model: a listening endpoint of the Xray core.
use vstd::prelude::*;
use crate::text::{ascii_lowercase, ascii_uppercase, lemma_ascii_case_fold, lowercased, str_eq, to_lowercase};

verus! {

/// Inbound record.
#[derive(Debug, Clone)]
pub struct Inbound {
    pub id: i64,
    pub user_id: i64,
    pub up: i64,
    pub down: i64,
    pub total: i64,
    pub all_time: i64,
    pub remark: Option<String>,
    pub enable: bool,
    pub expiry_time: i64,
    pub traffic_reset: String,
    pub last_traffic_reset_time: i64,
    pub listen: Option<String>,
    pub port: i32,
    pub protocol: String,
    pub settings: Option<String>,
    pub stream_settings: Option<String>,
    pub tag: String,
    pub sniffing: Option<String>,
}

/// Request to create an inbound.
#[derive(Debug)]
pub struct CreateInboundRequest {
    pub remark: Option<String>,
    pub listen: Option<String>,
    pub port: i32,
    pub protocol: String,
    pub settings: Option<String>,
    pub stream_settings: Option<String>,
    pub total: Option<i64>,
    pub expiry_time: Option<i64>,
    pub enable: Option<bool>,
    pub sniffing: Option<String>,
    pub traffic_reset: Option<String>,
}

/// Request to update an inbound; absent fields stay as they are.
#[derive(Debug)]
pub struct UpdateInboundRequest {
    pub id: i64,
    pub remark: Option<String>,
    pub listen: Option<String>,
    pub port: Option<i32>,
    pub protocol: Option<String>,
    pub settings: Option<String>,
    pub stream_settings: Option<String>,
    pub total: Option<i64>,
    pub expiry_time: Option<i64>,
    pub enable: Option<bool>,
    pub sniffing: Option<String>,
    pub traffic_reset: Option<String>,
}

/// Inbound traffic statistics.
#[derive(Debug)]
pub struct InboundStats {
    pub id: i64,
    pub tag: String,
    pub up: i64,
    pub down: i64,
    pub total: i64,
}

/// Protocols supported by Xray.
#[derive(Debug, Clone, Copy, PartialEq, Eq, Structural)]
pub enum Protocol {
    Vmess,
    Vless,
    Trojan,
    Shadowsocks,
    Http,
    Socks,
    Mixed,
    WireGuard,
    DokodemoDoor,
}

/// The configuration name of each protocol.
pub open spec fn protocol_name(p: Protocol) -> Seq<char> {
    match p {
        Protocol::Vmess => "vmess"@,
        Protocol::Vless => "vless"@,
        Protocol::Trojan => "trojan"@,
        Protocol::Shadowsocks => "shadowsocks"@,
        Protocol::Http => "http"@,
        Protocol::Socks => "socks"@,
        Protocol::Mixed => "mixed"@,
        Protocol::WireGuard => "wireguard"@,
        Protocol::DokodemoDoor => "dokodemo-door"@,
    }
}

/// The protocol whose configuration name is exactly `s`.
pub open spec fn protocol_named(s: Seq<char>) -> Option<Protocol> {
    if s == "vmess"@ { Some(Protocol::Vmess) }
    else if s == "vless"@ { Some(Protocol::Vless) }
    else if s == "trojan"@ { Some(Protocol::Trojan) }
    else if s == "shadowsocks"@ { Some(Protocol::Shadowsocks) }
    else if s == "http"@ { Some(Protocol::Http) }
    else if s == "socks"@ { Some(Protocol::Socks) }
    else if s == "mixed"@ { Some(Protocol::Mixed) }
    else if s == "wireguard"@ { Some(Protocol::WireGuard) }
    else if s == "dokodemo-door"@ { Some(Protocol::DokodemoDoor) }
    else { None }
}

impl Protocol {
    /// The configuration name of the protocol.
    pub fn as_str(&self) -> (r: &'static str)
        ensures
            r@ == protocol_name(*self),
    {
        match self {
            Protocol::Vmess => "vmess",
            Protocol::Vless => "vless",
            Protocol::Trojan => "trojan",
            Protocol::Shadowsocks => "shadowsocks",
            Protocol::Http => "http",
            Protocol::Socks => "socks",
            Protocol::Mixed => "mixed",
            Protocol::WireGuard => "wireguard",
            Protocol::DokodemoDoor => "dokodemo-door",
        }
    }

    /// The protocol whose configuration name is exactly `s` (already in lowercase).
    pub fn from_lowercase(s: &str) -> (r: Option<Protocol>)
        ensures
            r == protocol_named(s@),
    {
        if str_eq(s, "vmess") { Some(Protocol::Vmess) }
        else if str_eq(s, "vless") { Some(Protocol::Vless) }
        else if str_eq(s, "trojan") { Some(Protocol::Trojan) }
        else if str_eq(s, "shadowsocks") { Some(Protocol::Shadowsocks) }
        else if str_eq(s, "http") { Some(Protocol::Http) }
        else if str_eq(s, "socks") { Some(Protocol::Socks) }
        else if str_eq(s, "mixed") { Some(Protocol::Mixed) }
        else if str_eq(s, "wireguard") { Some(Protocol::WireGuard) }
        else if str_eq(s, "dokodemo-door") { Some(Protocol::DokodemoDoor) }
        else { None }
    }

    /// Parses a protocol name, ignoring case.
    pub fn from_str(s: &str) -> (r: Option<Protocol>)
        ensures
            r == protocol_named(lowercased(s@)),
            vstd::utf8::is_ascii_chars(s@) ==> r == protocol_named(ascii_lowercase(s@)),
    {
        let lower = to_lowercase(s);
        Protocol::from_lowercase(lower.as_str())
    }
}

/// Reading a name back gives the protocol.
pub proof fn lemma_protocol_name_roundtrip(p: Protocol)
    ensures
        protocol_named(protocol_name(p)) == Some(p),
{
    reveal_strlit("vmess");
    reveal_strlit("vless");
    reveal_strlit("trojan");
    reveal_strlit("shadowsocks");
    reveal_strlit("http");
    reveal_strlit("socks");
    reveal_strlit("mixed");
    reveal_strlit("wireguard");
    reveal_strlit("dokodemo-door");
    match p {
        Protocol::Vmess => {
        },
        Protocol::Vless => {
            assert("vless"@[1] != "vmess"@[1]);
        },
        Protocol::Trojan => {
            assert("trojan"@.len() != "vmess"@.len());
            assert("trojan"@.len() != "vless"@.len());
        },
        Protocol::Shadowsocks => {
            assert("shadowsocks"@.len() != "vmess"@.len());
            assert("shadowsocks"@.len() != "vless"@.len());
            assert("shadowsocks"@.len() != "trojan"@.len());
        },
        Protocol::Http => {
            assert("http"@.len() != "vmess"@.len());
            assert("http"@.len() != "vless"@.len());
            assert("http"@.len() != "trojan"@.len());
            assert("http"@.len() != "shadowsocks"@.len());
        },
        Protocol::Socks => {
            assert("socks"@[0] != "vmess"@[0]);
            assert("socks"@[0] != "vless"@[0]);
            assert("socks"@.len() != "trojan"@.len());
            assert("socks"@.len() != "shadowsocks"@.len());
            assert("socks"@.len() != "http"@.len());
        },
        Protocol::Mixed => {
            assert("mixed"@[0] != "vmess"@[0]);
            assert("mixed"@[0] != "vless"@[0]);
            assert("mixed"@.len() != "trojan"@.len());
            assert("mixed"@.len() != "shadowsocks"@.len());
            assert("mixed"@.len() != "http"@.len());
            assert("mixed"@[0] != "socks"@[0]);
        },
        Protocol::WireGuard => {
            assert("wireguard"@.len() != "vmess"@.len());
            assert("wireguard"@.len() != "vless"@.len());
            assert("wireguard"@.len() != "trojan"@.len());
            assert("wireguard"@.len() != "shadowsocks"@.len());
            assert("wireguard"@.len() != "http"@.len());
            assert("wireguard"@.len() != "socks"@.len());
            assert("wireguard"@.len() != "mixed"@.len());
        },
        Protocol::DokodemoDoor => {
            assert("dokodemo-door"@.len() != "vmess"@.len());
            assert("dokodemo-door"@.len() != "vless"@.len());
            assert("dokodemo-door"@.len() != "trojan"@.len());
            assert("dokodemo-door"@.len() != "shadowsocks"@.len());
            assert("dokodemo-door"@.len() != "http"@.len());
            assert("dokodemo-door"@.len() != "socks"@.len());
            assert("dokodemo-door"@.len() != "mixed"@.len());
            assert("dokodemo-door"@.len() != "wireguard"@.len());
        },
    }
}

/// Protocol names ignore case: a text and its ASCII uppercase name the same protocol, and
/// each protocol's name, written in capitals, still reads back as that protocol.
pub proof fn lemma_protocol_names_ignore_case(s: Seq<char>, p: Protocol)
    ensures
        protocol_named(ascii_lowercase(ascii_uppercase(s))) == protocol_named(ascii_lowercase(s)),
        vstd::utf8::is_ascii_chars(protocol_name(p)),
        protocol_named(ascii_lowercase(ascii_uppercase(protocol_name(p)))) == Some(p),
{
    lemma_ascii_case_fold(s);
    let n = protocol_name(p);
    lemma_ascii_case_fold(n);
    lemma_protocol_name_roundtrip(p);
    reveal_strlit("vmess");
    reveal_strlit("vless");
    reveal_strlit("trojan");
    reveal_strlit("shadowsocks");
    reveal_strlit("http");
    reveal_strlit("socks");
    reveal_strlit("mixed");
    reveal_strlit("wireguard");
    reveal_strlit("dokodemo-door");
    assert(ascii_lowercase(n) =~= n);
}

} // verus!
