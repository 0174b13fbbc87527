//! Subscription endpoints: share links of the enabled inbounds, one per line, and the SIP008
//! JSON document, both guarded by the stored subscription token.
use vstd::prelude::*;
use vstd::utf8::encode_utf8;
use crate::encoding::{base64_encode, base64_text};
use crate::handlers::inbound::stored_json;
use crate::json::{compact_text, empty_object, push_item, push_member, string, items_view, members_view, JsonValue, JsonView};
use crate::text::{int_text, joined, owned, push_str, str_eq, views};

verus! {

/// An enabled inbound as the subscription endpoints read it.
#[derive(Debug)]
pub struct InboundRow {
    pub id: i64,
    pub remark: Option<String>,
    pub listen: Option<String>,
    pub port: i32,
    pub protocol: String,
    pub settings: Option<String>,
    pub stream_settings: Option<String>,
    pub tag: String,
}

/// The name shown for an inbound: its remark, or its tag.
pub open spec fn row_remark(row: InboundRow) -> Seq<char> {
    match row.remark {
        Some(r) => r@,
        None => row.tag@,
    }
}

/// The address clients connect to: the listen address, or `0.0.0.0`.
pub open spec fn row_address(row: InboundRow) -> Seq<char> {
    match row.listen {
        Some(l) => l@,
        None => "0.0.0.0"@,
    }
}

/// The first client of a settings document.
pub open spec fn first_client(settings: JsonView) -> Option<JsonView> {
    match settings.get("clients"@) {
        Some(c) => match c.as_array() {
            Some(items) => if items.len() > 0 { Some(items[0]) } else { None },
            None => None,
        },
        None => None,
    }
}

/// The text of a member, or a default.
pub open spec fn str_or(v: JsonView, key: Seq<char>, default: Seq<char>) -> Seq<char> {
    match v.get(key) {
        Some(x) => match x.as_str() {
            Some(s) => s,
            None => default,
        },
        None => default,
    }
}

/// The text of a member, when it is a string.
pub open spec fn str_at(v: JsonView, key: Seq<char>) -> Option<Seq<char>> {
    match v.get(key) {
        Some(x) => x.as_str(),
        None => None,
    }
}

/// The VMess share document of an inbound for its first client; the network defaults to `tcp`.
pub open spec fn vmess_view(row: InboundRow, client: JsonView, stream: JsonView) -> JsonView {
    JsonView::Object(
        seq![
            ("v"@, JsonView::Str("2"@)),
            ("ps"@, JsonView::Str(row_remark(row))),
            ("add"@, JsonView::Str(row_address(row))),
            ("port"@, JsonView::Str(int_text(row.port as int))),
            ("id"@, JsonView::Str(str_or(client, "id"@, ""@))),
            ("aid"@, JsonView::Str("0"@)),
            ("net"@, JsonView::Str(str_or(stream, "network"@, "tcp"@))),
            ("type"@, JsonView::Str("none"@)),
            ("host"@, JsonView::Str(""@)),
            ("path"@, JsonView::Str(""@)),
            ("tls"@, JsonView::Str(str_or(stream, "security"@, ""@))),
        ],
    )
}

/// The stream settings of an inbound, `{}` when missing or unreadable.
pub open spec fn row_stream(row: InboundRow) -> JsonView {
    match stored_json(row.stream_settings) {
        Some(v) => v,
        None => JsonView::Object(Seq::empty()),
    }
}

/// `<scheme>://<user>@<address>:<port><query>#<remark>`.
pub open spec fn userinfo_link(scheme: Seq<char>, user: Seq<char>, row: InboundRow, query: Seq<char>) -> Seq<char> {
    scheme + user + "@"@ + row_address(row) + ":"@ + int_text(row.port as int) + query + "#"@ + row_remark(row)
}

/// The share link of an inbound: by protocol, from its readable settings; none for other
/// protocols or when the settings lack what the link needs.
pub open spec fn row_link(row: InboundRow) -> Option<Seq<char>> {
    match stored_json(row.settings) {
        None => None,
        Some(settings) => {
            if row.protocol@ == "vmess"@ {
                match first_client(settings) {
                    Some(client) => Some("vmess://"@ + base64_text(encode_utf8(compact_text(vmess_view(row, client, row_stream(row)))))),
                    None => None,
                }
            } else if row.protocol@ == "vless"@ {
                match first_client(settings) {
                    Some(client) => match str_at(client, "id"@) {
                        Some(uuid) => Some(userinfo_link("vless://"@, uuid, row, "?encryption=none"@)),
                        None => None,
                    },
                    None => None,
                }
            } else if row.protocol@ == "trojan"@ {
                match first_client(settings) {
                    Some(client) => match str_at(client, "password"@) {
                        Some(pw) => Some(userinfo_link("trojan://"@, pw, row, "?security=none"@)),
                        None => None,
                    },
                    None => None,
                }
            } else if row.protocol@ == "shadowsocks"@ {
                match (str_at(settings, "method"@), str_at(settings, "password"@)) {
                    (Some(m), Some(p)) => Some(userinfo_link("ss://"@, base64_text(encode_utf8(m + ":"@ + p)), row, ""@)),
                    _ => None,
                }
            } else {
                None
            }
        },
    }
}

fn get_str<'a>(v: &'a JsonValue, key: &str) -> (r: Option<&'a str>)
    ensures
        match r {
            Some(s) => str_at(v@, key@) == Some(s@),
            None => str_at(v@, key@) is None,
        },
{
    match v.get(key) {
        Some(x) => x.as_str(),
        None => None,
    }
}

fn get_str_or(v: &JsonValue, key: &str, default: &str) -> (r: String)
    ensures
        r@ == str_or(v@, key@, default@),
{
    match get_str(v, key) {
        Some(s) => owned(s),
        None => owned(default),
    }
}

fn first_client_of(settings: &JsonValue) -> (r: Option<&JsonValue>)
    ensures
        match r {
            Some(c) => first_client(settings@) == Some(c@),
            None => first_client(settings@) is None,
        },
{
    match settings.get("clients") {
        Some(c) => match c.as_array() {
            Some(items) => {
                if items.len() > 0 {
                    proof {
                        crate::json::lemma_items_view(items@);
                    }
                    Some(&items[0])
                } else {
                    None
                }
            },
            None => None,
        },
        None => None,
    }
}

fn remark_text(row: &InboundRow) -> (r: String)
    ensures
        r@ == row_remark(*row),
{
    match &row.remark {
        Some(r) => owned(r.as_str()),
        None => owned(row.tag.as_str()),
    }
}

fn address_text(row: &InboundRow) -> (r: String)
    ensures
        r@ == row_address(*row),
{
    match &row.listen {
        Some(l) => owned(l.as_str()),
        None => owned("0.0.0.0"),
    }
}

fn read_stored(v: &Option<String>) -> (r: Option<JsonValue>)
    ensures
        match r {
            Some(x) => stored_json(*v) == Some(x@),
            None => stored_json(*v) is None,
        },
{
    match v {
        Some(s) => crate::json::parse(s.as_str()),
        None => None,
    }
}

fn stream_of(row: &InboundRow) -> (r: JsonValue)
    ensures
        r@ == row_stream(*row),
{
    match read_stored(&row.stream_settings) {
        Some(v) => v,
        None => empty_object(),
    }
}

fn userinfo(scheme: &str, user: &str, row: &InboundRow, query: &str) -> (r: String)
    ensures
        r@ == userinfo_link(scheme@, user@, *row, query@),
{
    let mut s = String::new();
    push_str(&mut s, scheme);
    push_str(&mut s, user);
    push_str(&mut s, "@");
    let a = address_text(row);
    push_str(&mut s, a.as_str());
    push_str(&mut s, ":");
    let p = crate::text::i64_text(row.port as i64);
    push_str(&mut s, p.as_str());
    push_str(&mut s, query);
    push_str(&mut s, "#");
    let r = remark_text(row);
    push_str(&mut s, r.as_str());
    s
}

fn vmess_document(row: &InboundRow, client: &JsonValue) -> (r: JsonValue)
    ensures
        r@ == vmess_view(*row, client@, row_stream(*row)),
{
    let stream = stream_of(row);
    let mut m: Vec<(String, JsonValue)> = Vec::new();
    push_member(&mut m, "v", string("2"));
    push_member(&mut m, "ps", JsonValue::Str(remark_text(row)));
    push_member(&mut m, "add", JsonValue::Str(address_text(row)));
    push_member(&mut m, "port", JsonValue::Str(crate::text::i64_text(row.port as i64)));
    push_member(&mut m, "id", JsonValue::Str(get_str_or(client, "id", "")));
    push_member(&mut m, "aid", string("0"));
    push_member(&mut m, "net", JsonValue::Str(get_str_or(&stream, "network", "tcp")));
    push_member(&mut m, "type", string("none"));
    push_member(&mut m, "host", string(""));
    push_member(&mut m, "path", string(""));
    push_member(&mut m, "tls", JsonValue::Str(get_str_or(&stream, "security", "")));
    assert(members_view(m@) =~= vmess_view(*row, client@, row_stream(*row))->Object_0);
    JsonValue::Object(m)
}

/// The share link of an inbound (see `row_link`).
pub fn generate_link(row: &InboundRow) -> (r: Option<String>)
    ensures
        crate::text::opt_text(r) == row_link(*row),
{
    let settings = match read_stored(&row.settings) {
        Some(s) => s,
        None => {
            return None;
        },
    };
    let p = row.protocol.as_str();
    if str_eq(p, "vmess") {
        match first_client_of(&settings) {
            Some(client) => {
                let doc = vmess_document(row, client);
                let text = crate::json::to_text(&doc);
                let mut s = String::new();
                push_str(&mut s, "vmess://");
                let b = base64_encode(text.as_str());
                push_str(&mut s, b.as_str());
                Some(s)
            },
            None => None,
        }
    } else if str_eq(p, "vless") {
        match first_client_of(&settings) {
            Some(client) => match get_str(client, "id") {
                Some(uuid) => Some(userinfo("vless://", uuid, row, "?encryption=none")),
                None => None,
            },
            None => None,
        }
    } else if str_eq(p, "trojan") {
        match first_client_of(&settings) {
            Some(client) => match get_str(client, "password") {
                Some(pw) => Some(userinfo("trojan://", pw, row, "?security=none")),
                None => None,
            },
            None => None,
        }
    } else if str_eq(p, "shadowsocks") {
        match (get_str(&settings, "method"), get_str(&settings, "password")) {
            (Some(m), Some(pw)) => {
                let mut info = String::new();
                push_str(&mut info, m);
                push_str(&mut info, ":");
                push_str(&mut info, pw);
                let b = base64_encode(info.as_str());
                Some(userinfo("ss://", b.as_str(), row, ""))
            },
            _ => None,
        }
    } else {
        None
    }
}

/// The links that exist, in order.
pub open spec fn present_links(rows: Seq<InboundRow>) -> Seq<Seq<char>>
    decreases rows.len(),
{
    if rows.len() == 0 {
        Seq::empty()
    } else {
        match row_link(rows.last()) {
            Some(l) => present_links(rows.drop_last()).push(l),
            None => present_links(rows.drop_last()),
        }
    }
}

/// The plain subscription: the links of the inbounds that have one, one per line.
pub fn generate_subscription_content(rows: &[InboundRow]) -> (r: String)
    ensures
        r@ == joined(present_links(rows@), "\n"@),
{
    let mut links: Vec<String> = Vec::new();
    let mut i: usize = 0;
    assert(rows@.take(0) =~= Seq::<InboundRow>::empty());
    while i < rows.len()
        invariant
            i <= rows.len(),
            views(links@) == present_links(rows@.take(i as int)),
        decreases rows.len() - i,
    {
        let ghost before = views(links@);
        assert(rows@.take(i + 1).drop_last() =~= rows@.take(i as int));
        assert(rows@.take(i + 1).last() == rows@[i as int]);
        match generate_link(&rows[i]) {
            Some(l) => {
                let ghost lv = l@;
                links.push(l);
                assert(views(links@) =~= before.push(lv));
            },
            None => {},
        }
        i = i + 1;
    }
    assert(rows@.take(i as int) =~= rows@);
    crate::text::join(&links, "\n")
}

/// One proxy of the JSON subscription.
pub open spec fn proxy_view(row: InboundRow) -> JsonView {
    JsonView::Object(
        seq![
            ("remark"@, JsonView::Str(row_remark(row))),
            ("server"@, JsonView::Str(row_address(row))),
            ("server_port"@, JsonView::Int(row.port as int)),
            ("protocol"@, JsonView::Str(row.protocol@)),
            ("settings"@, match stored_json(row.settings) {
                Some(v) => v,
                None => JsonView::Object(Seq::empty()),
            }),
            ("stream_settings"@, row_stream(row)),
        ],
    )
}

/// The SIP008 document: version 1 and one proxy per inbound.
pub open spec fn json_subscription_view(rows: Seq<InboundRow>) -> JsonView {
    JsonView::Object(
        seq![
            ("version"@, JsonView::Int(1)),
            ("proxies"@, JsonView::Array(Seq::new(rows.len(), |k: int| proxy_view(rows[k])))),
        ],
    )
}

fn proxy_json(row: &InboundRow) -> (r: JsonValue)
    ensures
        r@ == proxy_view(*row),
{
    let settings = match read_stored(&row.settings) {
        Some(v) => v,
        None => empty_object(),
    };
    let mut m: Vec<(String, JsonValue)> = Vec::new();
    push_member(&mut m, "remark", JsonValue::Str(remark_text(row)));
    push_member(&mut m, "server", JsonValue::Str(address_text(row)));
    push_member(&mut m, "server_port", JsonValue::Int(row.port as i64));
    push_member(&mut m, "protocol", string(row.protocol.as_str()));
    push_member(&mut m, "settings", settings);
    push_member(&mut m, "stream_settings", stream_of(row));
    assert(members_view(m@) =~= proxy_view(*row)->Object_0);
    JsonValue::Object(m)
}

/// The SIP008 JSON subscription text.
pub fn generate_json_subscription(rows: &[InboundRow]) -> (r: String)
    ensures
        r@ == compact_text(json_subscription_view(rows@)),
{
    let mut items: Vec<JsonValue> = Vec::new();
    let mut i: usize = 0;
    assert(items_view(items@) =~= Seq::<JsonView>::empty());
    while i < rows.len()
        invariant
            i <= rows.len(),
            items_view(items@) == Seq::new(i as nat, |k: int| proxy_view(rows@[k])),
        decreases rows.len() - i,
    {
        push_item(&mut items, proxy_json(&rows[i]));
        assert(items_view(items@) =~= Seq::new((i + 1) as nat, |k: int| proxy_view(rows@[k])));
        i = i + 1;
    }
    let mut m: Vec<(String, JsonValue)> = Vec::new();
    push_member(&mut m, "version", JsonValue::Int(1));
    push_member(&mut m, "proxies", JsonValue::Array(items));
    assert(members_view(m@) =~= json_subscription_view(rows@)->Object_0);
    crate::json::to_text(&JsonValue::Object(m))
}

/// Whether a request's token is the stored subscription token.
pub fn token_matches(stored: &Option<String>, token: &str) -> (r: bool)
    ensures
        r == (match stored {
            Some(s) => s@ == token@,
            None => false,
        }),
{
    match stored {
        Some(s) => str_eq(s.as_str(), token),
        None => false,
    }
}

/// The SIP008 document has version 1 and leaves no inbound out: its `proxies` array has one
/// item per inbound, in order, each with the inbound's remark (or tag), its listen address (or
/// `0.0.0.0`) as server, its port and its protocol.
pub proof fn lemma_json_subscription_lists_every_inbound(rows: Seq<InboundRow>)
    ensures
        json_subscription_view(rows).get("version"@) == Some(JsonView::Int(1)),
        json_subscription_view(rows).get("proxies"@) matches Some(JsonView::Array(items))
            && items.len() == rows.len()
            && forall|k: int| 0 <= k < rows.len() ==> {
                &&& (#[trigger] items[k]).get("remark"@) == Some(JsonView::Str(match rows[k].remark {
                    Some(r) => r@,
                    None => rows[k].tag@,
                }))
                &&& items[k].get("server"@) == Some(JsonView::Str(match rows[k].listen {
                    Some(l) => l@,
                    None => "0.0.0.0"@,
                }))
                &&& items[k].get("server_port"@) == Some(JsonView::Int(rows[k].port as int))
                &&& items[k].get("protocol"@) == Some(JsonView::Str(rows[k].protocol@))
            },
{
    reveal_strlit("version");
    reveal_strlit("proxies");
    reveal_strlit("remark");
    reveal_strlit("server");
    reveal_strlit("server_port");
    reveal_strlit("protocol");
    reveal_with_fuel(crate::json::member_lookup, 5);
    assert("version"@.len() == 7 && "proxies"@.len() == 7);
    assert("version"@[0] != "proxies"@[0]);
    assert forall|k: int| #![trigger rows[k]] 0 <= k < rows.len() implies {
        let item = proxy_view(rows[k]);
        &&& item.get("remark"@) == Some(JsonView::Str(row_remark(rows[k])))
        &&& item.get("server"@) == Some(JsonView::Str(row_address(rows[k])))
        &&& item.get("server_port"@) == Some(JsonView::Int(rows[k].port as int))
        &&& item.get("protocol"@) == Some(JsonView::Str(rows[k].protocol@))
    } by {
        assert("remark"@.len() == 6 && "server"@.len() == 6 && "server_port"@.len() == 11 && "protocol"@.len() == 8);
        assert("remark"@[0] != "server"@[0]);
    }
}

proof fn lemma_present_links_hold(rows: Seq<InboundRow>, k: int)
    requires
        0 <= k < rows.len(),
        row_link(rows[k]) is Some,
    ensures
        present_links(rows).contains(row_link(rows[k]).unwrap()),
    decreases rows.len(),
{
    let rest = present_links(rows.drop_last());
    if k == rows.len() - 1 {
        assert(present_links(rows) == rest.push(row_link(rows[k]).unwrap()));
        assert(present_links(rows)[rest.len() as int] == row_link(rows[k]).unwrap());
    } else {
        assert(rows.drop_last()[k] == rows[k]);
        lemma_present_links_hold(rows.drop_last(), k);
        let j = choose|j: int| 0 <= j < rest.len() && rest[j] == row_link(rows[k]).unwrap();
        assert(present_links(rows)[j] == rest[j]);
    }
}

proof fn lemma_present_links_from_rows(rows: Seq<InboundRow>)
    ensures
        present_links(rows).len() <= rows.len(),
        forall|j: int| 0 <= j < present_links(rows).len() ==>
            exists|k: int| 0 <= k < rows.len() && row_link(rows[k]) == Some(#[trigger] present_links(rows)[j]),
    decreases rows.len(),
{
    if rows.len() > 0 {
        let rest = rows.drop_last();
        lemma_present_links_from_rows(rest);
        assert forall|j: int| 0 <= j < present_links(rows).len() implies
            exists|k: int| 0 <= k < rows.len() && row_link(rows[k]) == Some(#[trigger] present_links(rows)[j]) by {
            if j < present_links(rest).len() {
                assert(present_links(rows)[j] == present_links(rest)[j]);
                let k = choose|k: int| 0 <= k < rest.len() && row_link(rest[k]) == Some(#[trigger] present_links(rest)[j]);
                assert(rest[k] == rows[k]);
            } else {
                assert(row_link(rows[rows.len() - 1]) == Some(present_links(rows)[j]));
            }
        }
    }
}

/// The plain subscription lists exactly the inbounds' links: every inbound that has a share
/// link has it among the lines, and every line is the share link of one of the inbounds.
pub proof fn lemma_subscription_lists_every_link(rows: Seq<InboundRow>)
    ensures
        forall|k: int| 0 <= k < rows.len() ==> (#[trigger] row_link(rows[k]) matches Some(l)
            ==> present_links(rows).contains(l)),
        forall|j: int| 0 <= j < present_links(rows).len() ==>
            exists|k: int| 0 <= k < rows.len() && row_link(rows[k]) == Some(#[trigger] present_links(rows)[j]),
{
    assert forall|k: int| 0 <= k < rows.len() implies (#[trigger] row_link(rows[k]) matches Some(l)
        ==> present_links(rows).contains(l)) by {
        if row_link(rows[k]) is Some {
            lemma_present_links_hold(rows, k);
        }
    }
    lemma_present_links_from_rows(rows);
}

proof fn lemma_protocol_names_differ()
    ensures
        "vmess"@ != "vless"@,
        "vmess"@ != "trojan"@,
        "vmess"@ != "shadowsocks"@,
        "vless"@ != "trojan"@,
        "vless"@ != "shadowsocks"@,
        "trojan"@ != "shadowsocks"@,
{
    reveal_strlit("vmess");
    reveal_strlit("vless");
    reveal_strlit("trojan");
    reveal_strlit("shadowsocks");
    assert("vmess"@.len() == 5 && "vless"@.len() == 5 && "trojan"@.len() == 6 && "shadowsocks"@.len() == 11);
    assert("vmess"@[1] != "vless"@[1]);
}

proof fn lemma_row_link_userinfo(row: InboundRow)
    ensures
        ({
            let at = "@"@ + row_address(row) + ":"@ + int_text(row.port as int);
            stored_json(row.settings) matches Some(settings) ==> {
                &&& (row.protocol@ == "vless"@ ==> (first_client(settings) matches Some(c)
                    ==> (str_at(c, "id"@) matches Some(u)
                    ==> row_link(row) == Some("vless://"@ + u + at + "?encryption=none#"@ + row_remark(row)))))
                &&& (row.protocol@ == "trojan"@ ==> (first_client(settings) matches Some(c)
                    ==> (str_at(c, "password"@) matches Some(pw)
                    ==> row_link(row) == Some("trojan://"@ + pw + at + "?security=none#"@ + row_remark(row)))))
                &&& (row.protocol@ == "shadowsocks"@ ==> (str_at(settings, "method"@) matches Some(m)
                    ==> (str_at(settings, "password"@) matches Some(pw)
                    ==> row_link(row) == Some("ss://"@ + base64_text(encode_utf8(m + ":"@ + pw)) + at + "#"@ + row_remark(row)))))
            }
        }),
{
    let address = row_address(row);
    let remark = row_remark(row);
    let at = "@"@ + address + ":"@ + int_text(row.port as int);
    lemma_protocol_names_differ();
    if let Some(settings) = stored_json(row.settings) {
        if row.protocol@ == "vless"@ {
            if let Some(c) = first_client(settings) {
                if let Some(u) = str_at(c, "id"@) {
                    assert(userinfo_link("vless://"@, u, row, "?encryption=none"@) =~= "vless://"@ + u + at + "?encryption=none#"@ + remark) by {
                        reveal_strlit("?encryption=none");
                        reveal_strlit("?encryption=none#");
                        reveal_strlit("#");
                    }
                }
            }
        } else if row.protocol@ == "trojan"@ {
            if let Some(c) = first_client(settings) {
                if let Some(pw) = str_at(c, "password"@) {
                    assert(userinfo_link("trojan://"@, pw, row, "?security=none"@) =~= "trojan://"@ + pw + at + "?security=none#"@ + remark) by {
                        reveal_strlit("?security=none");
                        reveal_strlit("?security=none#");
                        reveal_strlit("#");
                    }
                }
            }
        } else if row.protocol@ == "shadowsocks"@ {
            if let (Some(m), Some(pw)) = (str_at(settings, "method"@), str_at(settings, "password"@)) {
                let u = base64_text(encode_utf8(m + ":"@ + pw));
                assert(userinfo_link("ss://"@, u, row, ""@) =~= "ss://"@ + u + at + "#"@ + remark) by {
                    reveal_strlit("");
                }
            }
        }
    }
}

proof fn lemma_row_link_vmess(row: InboundRow)
    ensures
        stored_json(row.settings) matches Some(settings) ==> (row.protocol@ == "vmess"@
            ==> (first_client(settings) matches Some(c) ==> exists|d: JsonView| {
                &&& row_link(row) == Some("vmess://"@ + base64_text(encode_utf8(compact_text(d))))
                &&& d.get("ps"@) == Some(JsonView::Str(row_remark(row)))
                &&& d.get("add"@) == Some(JsonView::Str(row_address(row)))
                &&& d.get("port"@) == Some(JsonView::Str(int_text(row.port as int)))
                &&& d.get("id"@) == Some(JsonView::Str(str_or(c, "id"@, ""@)))
                &&& d.get("net"@) == Some(JsonView::Str(str_or(row_stream(row), "network"@, "tcp"@)))
            })),
{
    if let Some(settings) = stored_json(row.settings) {
        if row.protocol@ == "vmess"@ {
            if let Some(c) = first_client(settings) {
                let d = vmess_view(row, c, row_stream(row));
                reveal_strlit("v");
                reveal_strlit("ps");
                reveal_strlit("add");
                reveal_strlit("port");
                reveal_strlit("id");
                reveal_strlit("net");
                reveal_strlit("aid");
                reveal_with_fuel(crate::json::member_lookup, 8);
                assert("v"@.len() == 1 && "ps"@.len() == 2 && "add"@.len() == 3 && "port"@.len() == 4);
                assert("id"@.len() == 2 && "aid"@.len() == 3 && "net"@.len() == 3);
                assert("ps"@[0] != "id"@[0] && "add"@[1] != "aid"@[1] && "add"@[0] != "net"@[0] && "aid"@[0] != "net"@[0]);
                assert(d.get("ps"@) == Some(JsonView::Str(row_remark(row))));
                assert(d.get("add"@) == Some(JsonView::Str(row_address(row))));
                assert(d.get("port"@) == Some(JsonView::Str(int_text(row.port as int))));
                assert(d.get("id"@) == Some(JsonView::Str(str_or(c, "id"@, ""@))));
                assert(d.get("net"@) == Some(JsonView::Str(str_or(row_stream(row), "network"@, "tcp"@))));
                assert(row_link(row) == Some("vmess://"@ + base64_text(encode_utf8(compact_text(d)))));
            }
        }
    }
}

/// The share link of an inbound, by protocol: `vless://id@address:port?encryption=none#remark`
/// and `trojan://password@address:port?security=none#remark` from the first client;
/// `ss://` with the Base64 of `method:password` from the settings; for vmess, the Base64 of a
/// document with the remark, address, port, the first client's id and the network (`tcp` by
/// default); where the address is the listen address or `0.0.0.0`, and the remark is the
/// inbound's remark or its tag. No link without readable settings or for other protocols.
pub proof fn lemma_row_link_shapes(row: InboundRow)
    ensures
        ({
            let address = match row.listen { Some(l) => l@, None => "0.0.0.0"@ };
            let remark = match row.remark { Some(r) => r@, None => row.tag@ };
            let at = "@"@ + address + ":"@ + int_text(row.port as int);
            match stored_json(row.settings) {
                None => row_link(row) is None,
                Some(settings) => {
                    &&& (row.protocol@ == "vless"@ ==> (first_client(settings) matches Some(c)
                        ==> (str_at(c, "id"@) matches Some(u)
                        ==> row_link(row) == Some("vless://"@ + u + at + "?encryption=none#"@ + remark))))
                    &&& (row.protocol@ == "trojan"@ ==> (first_client(settings) matches Some(c)
                        ==> (str_at(c, "password"@) matches Some(pw)
                        ==> row_link(row) == Some("trojan://"@ + pw + at + "?security=none#"@ + remark))))
                    &&& (row.protocol@ == "shadowsocks"@ ==> (str_at(settings, "method"@) matches Some(m)
                        ==> (str_at(settings, "password"@) matches Some(pw)
                        ==> row_link(row) == Some("ss://"@ + base64_text(encode_utf8(m + ":"@ + pw)) + at + "#"@ + remark))))
                    &&& (row.protocol@ == "vmess"@ ==> (first_client(settings) matches Some(c)
                        ==> exists|d: JsonView| {
                            &&& row_link(row) == Some("vmess://"@ + base64_text(encode_utf8(compact_text(d))))
                            &&& d.get("ps"@) == Some(JsonView::Str(remark))
                            &&& d.get("add"@) == Some(JsonView::Str(address))
                            &&& d.get("port"@) == Some(JsonView::Str(int_text(row.port as int)))
                            &&& d.get("id"@) == Some(JsonView::Str(str_or(c, "id"@, ""@)))
                            &&& d.get("net"@) == Some(JsonView::Str(str_or(row_stream(row), "network"@, "tcp"@)))
                        }))
                    &&& (row.protocol@ != "vless"@ && row.protocol@ != "trojan"@ && row.protocol@ != "shadowsocks"@
                        && row.protocol@ != "vmess"@ ==> row_link(row) is None)
                },
            }
        }),
{
    lemma_protocol_names_differ();
    lemma_row_link_userinfo(row);
    lemma_row_link_vmess(row);
}

} // verus!
