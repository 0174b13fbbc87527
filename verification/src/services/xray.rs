//! Xray core management: the configuration document written for the core, its status
//! report, the captured output lines, and the release catalogue used to install versions.
use vstd::prelude::*;
use crate::json::{
    empty_object, lemma_items_view, lemma_members_view, member, members_view, items_view, string,
    string_array, strings_view, JsonValue, JsonView,
};
use crate::text::{opt_text, owned, push_str, str_eq};
use std::collections::VecDeque;

verus! {

/// What the panel reports about the core.
#[derive(Debug, Clone)]
pub struct XrayStatus {
    pub running: bool,
    pub version: Option<String>,
    pub pid: Option<u32>,
    pub uptime_seconds: Option<u64>,
}

impl Default for XrayStatus {
    /// Not running, nothing known.
    fn default() -> (r: XrayStatus)
        ensures
            !r.running,
            r.version is None,
            r.pid is None,
            r.uptime_seconds is None,
    {
        XrayStatus { running: false, version: None, pid: None, uptime_seconds: None }
    }
}

/// Traffic sniffing of an inbound.
#[derive(Debug, Clone)]
pub struct SniffingConfig {
    pub enabled: bool,
    pub dest_override: Vec<String>,
}

/// One inbound as it goes into the core's configuration.
#[derive(Debug)]
pub struct InboundConfig {
    pub tag: String,
    pub listen: String,
    pub port: i32,
    pub protocol: String,
    pub settings: JsonValue,
    pub stream_settings: Option<JsonValue>,
    pub sniffing: SniffingConfig,
}

/// An installable core build.
#[derive(Debug, Clone)]
pub struct XrayVersion {
    pub version: String,
    pub arch: String,
    pub os: String,
    pub download_url: String,
    pub file_name: String,
}

impl Default for XrayVersion {
    /// All fields empty.
    fn default() -> (r: XrayVersion)
        ensures
            r.version@.len() == 0,
            r.arch@.len() == 0,
            r.os@.len() == 0,
            r.download_url@.len() == 0,
            r.file_name@.len() == 0,
    {
        XrayVersion {
            version: String::new(),
            arch: String::new(),
            os: String::new(),
            download_url: String::new(),
            file_name: String::new(),
        }
    }
}

/// A published core release.
#[derive(Debug, Clone)]
pub struct XrayRelease {
    pub tag_name: String,
    pub name: String,
    pub assets: Vec<XrayAsset>,
    pub published_at: String,
}

/// A downloadable file of a release.
#[derive(Debug, Clone)]
pub struct XrayAsset {
    pub name: String,
    pub browser_download_url: String,
    pub size: u64,
}

// ---------------------------------------------------------------------------------------------
// The configuration document
// ---------------------------------------------------------------------------------------------

/// The sniffing object of an inbound.
pub open spec fn sniffing_view(s: SniffingConfig) -> JsonView {
    JsonView::Object(
        seq![("enabled"@, JsonView::Bool(s.enabled)), ("destOverride"@, JsonView::Array(strings_view(s.dest_override@)))],
    )
}

/// The inbound object of the configuration; missing stream settings become `{}`.
pub open spec fn inbound_view(i: InboundConfig) -> JsonView {
    JsonView::Object(
        seq![
            ("tag"@, JsonView::Str(i.tag@)),
            ("listen"@, JsonView::Str(i.listen@)),
            ("port"@, JsonView::Int(i.port as int)),
            ("protocol"@, JsonView::Str(i.protocol@)),
            ("settings"@, i.settings@),
            ("streamSettings"@, match i.stream_settings {
                Some(v) => v@,
                None => JsonView::Object(Seq::empty()),
            }),
            ("sniffing"@, sniffing_view(i.sniffing)),
        ],
    )
}

/// An object `{"tag": tag, "protocol": protocol}`.
pub open spec fn tag_protocol_view(tag: Seq<char>, protocol: Seq<char>) -> JsonView {
    JsonView::Object(seq![("tag"@, JsonView::Str(tag)), ("protocol"@, JsonView::Str(protocol))])
}

/// The fixed parts of the configuration: log level, stats, API, policy, outbounds, routing.
pub open spec fn xray_config_document(inbounds: Seq<InboundConfig>) -> JsonView {
    JsonView::Object(
        seq![
            ("log"@, JsonView::Object(seq![("loglevel"@, JsonView::Str("warning"@))])),
            ("stats"@, JsonView::Object(Seq::empty())),
            ("api"@, JsonView::Object(seq![
                ("tag"@, JsonView::Str("api"@)),
                ("services"@, JsonView::Array(seq![JsonView::Str("StatsService"@), JsonView::Str("HandlerService"@)])),
            ])),
            ("policy"@, JsonView::Object(seq![("system"@, JsonView::Object(seq![
                ("statsInboundUplink"@, JsonView::Bool(true)),
                ("statsInboundDownlink"@, JsonView::Bool(true)),
                ("statsOutboundUplink"@, JsonView::Bool(true)),
                ("statsOutboundDownlink"@, JsonView::Bool(true)),
            ]))])),
            ("inbounds"@, JsonView::Array(Seq::new(inbounds.len(), |k: int| inbound_view(inbounds[k])))),
            ("outbounds"@, JsonView::Array(seq![
                tag_protocol_view("direct"@, "freedom"@),
                tag_protocol_view("blocked"@, "blackhole"@),
            ])),
            ("routing"@, JsonView::Object(seq![
                ("domainStrategy"@, JsonView::Str("AsIs"@)),
                ("rules"@, JsonView::Array(seq![JsonView::Object(seq![
                    ("type"@, JsonView::Str("field"@)),
                    ("ip"@, JsonView::Array(seq![JsonView::Str("geoip:private"@)])),
                    ("outboundTag"@, JsonView::Str("blocked"@)),
                ])])),
            ])),
        ],
    )
}

/// A copy of a list of strings.
fn copy_strings(v: &Vec<String>) -> (r: Vec<String>)
    ensures
        r@.len() == v@.len(),
        forall|i: int| 0 <= i < v@.len() ==> #[trigger] r@[i]@ == v@[i]@,
{
    let mut out: Vec<String> = Vec::new();
    let mut i: usize = 0;
    while i < v.len()
        invariant
            i <= v.len(),
            out@.len() == i,
            forall|k: int| 0 <= k < i ==> #[trigger] out@[k]@ == v@[k]@,
        decreases v.len() - i,
    {
        out.push(owned(v[i].as_str()));
        i = i + 1;
    }
    out
}

/// A copy of a JSON value.
pub fn copy_json(v: &JsonValue) -> (r: JsonValue)
    ensures
        r@ == v@,
    decreases v,
{
    match v {
        JsonValue::Null => JsonValue::Null,
        JsonValue::Bool(b) => JsonValue::Bool(*b),
        JsonValue::Int(i) => JsonValue::Int(*i),
        JsonValue::UInt(u) => JsonValue::UInt(*u),
        JsonValue::Float(t) => JsonValue::Float(owned(t.as_str())),
        JsonValue::Str(s) => JsonValue::Str(owned(s.as_str())),
        JsonValue::Array(items) => {
            let mut out: Vec<JsonValue> = Vec::new();
            let mut i: usize = 0;
            while i < items.len()
                invariant
                    i <= items.len(),
                    out@.len() == i,
                    forall|k: int| 0 <= k < i ==> #[trigger] out@[k]@ == items@[k]@,
                    *v == JsonValue::Array(*items),
                decreases items.len() - i,
            {
                assert(*v == JsonValue::Array(*items));
                assert(decreases_to!(*v => (*v)->Array_0));
                assert(decreases_to!(*items => items@));
                assert(decreases_to!(items@ => items@[i as int]));
                assert(decreases_to!(v => items@[i as int]));
                out.push(copy_json(&items[i]));
                i = i + 1;
            }
            proof {
                lemma_items_view(out@);
                lemma_items_view(items@);
                assert forall|k: int| 0 <= k < out@.len() implies #[trigger] items_view(out@)[k] == items_view(items@)[k] by {
                    assert(out@[k]@ == items@[k]@);
                }
                assert(items_view(out@) =~= items_view(items@));
            }
            JsonValue::Array(out)
        },
        JsonValue::Object(members) => {
            let mut out: Vec<(String, JsonValue)> = Vec::new();
            let mut i: usize = 0;
            while i < members.len()
                invariant
                    i <= members.len(),
                    out@.len() == i,
                    forall|k: int| 0 <= k < i ==> #[trigger] out@[k].0@ == members@[k].0@ && out@[k].1@ == members@[k].1@,
                    *v == JsonValue::Object(*members),
                decreases members.len() - i,
            {
                assert(*v == JsonValue::Object(*members));
                assert(decreases_to!(*v => (*v)->Object_0));
                assert(decreases_to!(*members => members@));
                assert(decreases_to!(members@ => members@[i as int]));
                assert(decreases_to!(members@[i as int] => members@[i as int].1));
                assert(decreases_to!(v => members@[i as int].1));
                let x = copy_json(&members[i].1);
                out.push((owned(members[i].0.as_str()), x));
                i = i + 1;
            }
            proof {
                lemma_members_view(out@);
                lemma_members_view(members@);
                assert(members_view(out@) =~= members_view(members@));
            }
            JsonValue::Object(out)
        },
    }
}

/// The sniffing object of an inbound.
fn sniffing_json(s: &SniffingConfig) -> (r: JsonValue)
    ensures
        r@ == sniffing_view(*s),
{
    let mut m: Vec<(String, JsonValue)> = Vec::new();
    m.push(member("enabled", JsonValue::Bool(s.enabled)));
    m.push(member("destOverride", string_array(&s.dest_override)));
    proof {
        lemma_members_view(m@);
        assert(members_view(m@) =~= seq![
            ("enabled"@, JsonView::Bool(s.enabled)),
            ("destOverride"@, JsonView::Array(strings_view(s.dest_override@))),
        ]);
    }
    JsonValue::Object(m)
}

/// The inbound object of the configuration.
fn inbound_json(i: &InboundConfig) -> (r: JsonValue)
    ensures
        r@ == inbound_view(*i),
{
    let stream = match &i.stream_settings {
        Some(v) => copy_json(v),
        None => empty_object(),
    };
    let mut m: Vec<(String, JsonValue)> = Vec::new();
    m.push(member("tag", string(i.tag.as_str())));
    m.push(member("listen", string(i.listen.as_str())));
    m.push(member("port", JsonValue::Int(i.port as i64)));
    m.push(member("protocol", string(i.protocol.as_str())));
    m.push(member("settings", copy_json(&i.settings)));
    m.push(member("streamSettings", stream));
    m.push(member("sniffing", sniffing_json(&i.sniffing)));
    proof {
        lemma_members_view(m@);
        assert(members_view(m@) =~= seq![
            ("tag"@, JsonView::Str(i.tag@)),
            ("listen"@, JsonView::Str(i.listen@)),
            ("port"@, JsonView::Int(i.port as int)),
            ("protocol"@, JsonView::Str(i.protocol@)),
            ("settings"@, i.settings@),
            ("streamSettings"@, match i.stream_settings {
                Some(v) => v@,
                None => JsonView::Object(Seq::empty()),
            }),
            ("sniffing"@, sniffing_view(i.sniffing)),
        ]);
    }
    JsonValue::Object(m)
}

/// An object with one member.
fn single(key: &str, value: JsonValue) -> (r: JsonValue)
    ensures
        r@ == JsonView::Object(seq![(key@, value@)]),
{
    let mut m: Vec<(String, JsonValue)> = Vec::new();
    m.push(member(key, value));
    proof {
        lemma_members_view(m@);
        assert(members_view(m@) =~= seq![(key@, value@)]);
    }
    JsonValue::Object(m)
}

/// An object with two members.
fn pair(k1: &str, v1: JsonValue, k2: &str, v2: JsonValue) -> (r: JsonValue)
    ensures
        r@ == JsonView::Object(seq![(k1@, v1@), (k2@, v2@)]),
{
    let mut m: Vec<(String, JsonValue)> = Vec::new();
    m.push(member(k1, v1));
    m.push(member(k2, v2));
    proof {
        lemma_members_view(m@);
        assert(members_view(m@) =~= seq![(k1@, v1@), (k2@, v2@)]);
    }
    JsonValue::Object(m)
}

/// The `policy` object: every inbound and outbound counter switched on.
fn policy_json() -> (r: JsonValue)
    ensures
        r@ == JsonView::Object(seq![("system"@, JsonView::Object(seq![
            ("statsInboundUplink"@, JsonView::Bool(true)),
            ("statsInboundDownlink"@, JsonView::Bool(true)),
            ("statsOutboundUplink"@, JsonView::Bool(true)),
            ("statsOutboundDownlink"@, JsonView::Bool(true)),
        ]))]),
{
    let mut m: Vec<(String, JsonValue)> = Vec::new();
    m.push(member("statsInboundUplink", JsonValue::Bool(true)));
    m.push(member("statsInboundDownlink", JsonValue::Bool(true)));
    m.push(member("statsOutboundUplink", JsonValue::Bool(true)));
    m.push(member("statsOutboundDownlink", JsonValue::Bool(true)));
    proof {
        lemma_members_view(m@);
        assert(members_view(m@) =~= seq![
            ("statsInboundUplink"@, JsonView::Bool(true)),
            ("statsInboundDownlink"@, JsonView::Bool(true)),
            ("statsOutboundUplink"@, JsonView::Bool(true)),
            ("statsOutboundDownlink"@, JsonView::Bool(true)),
        ]);
    }
    single("system", JsonValue::Object(m))
}

/// The `routing` object: private addresses are blocked.
fn routing_json() -> (r: JsonValue)
    ensures
        r@ == JsonView::Object(seq![
            ("domainStrategy"@, JsonView::Str("AsIs"@)),
            ("rules"@, JsonView::Array(seq![JsonView::Object(seq![
                ("type"@, JsonView::Str("field"@)),
                ("ip"@, JsonView::Array(seq![JsonView::Str("geoip:private"@)])),
                ("outboundTag"@, JsonView::Str("blocked"@)),
            ])])),
        ]),
{
    let mut ips: Vec<JsonValue> = Vec::new();
    ips.push(string("geoip:private"));
    let mut rule: Vec<(String, JsonValue)> = Vec::new();
    rule.push(member("type", string("field")));
    rule.push(member("ip", JsonValue::Array(ips)));
    rule.push(member("outboundTag", string("blocked")));
    let mut rules: Vec<JsonValue> = Vec::new();
    rules.push(JsonValue::Object(rule));
    proof {
        lemma_items_view(ips@);
        assert(items_view(ips@) =~= seq![JsonView::Str("geoip:private"@)]);
        lemma_members_view(rule@);
        assert(members_view(rule@) =~= seq![
            ("type"@, JsonView::Str("field"@)),
            ("ip"@, JsonView::Array(seq![JsonView::Str("geoip:private"@)])),
            ("outboundTag"@, JsonView::Str("blocked"@)),
        ]);
        lemma_items_view(rules@);
        assert(items_view(rules@) =~= seq![JsonView::Object(seq![
            ("type"@, JsonView::Str("field"@)),
            ("ip"@, JsonView::Array(seq![JsonView::Str("geoip:private"@)])),
            ("outboundTag"@, JsonView::Str("blocked"@)),
        ])]);
    }
    pair("domainStrategy", string("AsIs"), "rules", JsonValue::Array(rules))
}

/// The `api` object: the statistics and handler services.
fn api_json() -> (r: JsonValue)
    ensures
        r@ == JsonView::Object(seq![
            ("tag"@, JsonView::Str("api"@)),
            ("services"@, JsonView::Array(seq![JsonView::Str("StatsService"@), JsonView::Str("HandlerService"@)])),
        ]),
{
    let mut services: Vec<JsonValue> = Vec::new();
    services.push(string("StatsService"));
    services.push(string("HandlerService"));
    proof {
        lemma_items_view(services@);
        assert(items_view(services@) =~= seq![JsonView::Str("StatsService"@), JsonView::Str("HandlerService"@)]);
    }
    pair("tag", string("api"), "services", JsonValue::Array(services))
}

/// The `outbounds` array: direct and blocked.
fn outbounds_json() -> (r: JsonValue)
    ensures
        r@ == JsonView::Array(seq![
            tag_protocol_view("direct"@, "freedom"@),
            tag_protocol_view("blocked"@, "blackhole"@),
        ]),
{
    let mut outs: Vec<JsonValue> = Vec::new();
    outs.push(pair("tag", string("direct"), "protocol", string("freedom")));
    outs.push(pair("tag", string("blocked"), "protocol", string("blackhole")));
    proof {
        lemma_items_view(outs@);
        assert(items_view(outs@) =~= seq![
            tag_protocol_view("direct"@, "freedom"@),
            tag_protocol_view("blocked"@, "blackhole"@),
        ]);
    }
    JsonValue::Array(outs)
}

/// The core's configuration document for a list of inbounds.
pub fn generate_xray_config(inbounds: &[InboundConfig]) -> (r: JsonValue)
    ensures
        r@ == xray_config_document(inbounds@),
{
    let mut items: Vec<JsonValue> = Vec::new();
    let mut i: usize = 0;
    while i < inbounds.len()
        invariant
            i <= inbounds.len(),
            items@.len() == i,
            forall|k: int| 0 <= k < i ==> #[trigger] items@[k]@ == inbound_view(inbounds@[k]),
        decreases inbounds.len() - i,
    {
        items.push(inbound_json(&inbounds[i]));
        i = i + 1;
    }
    proof {
        lemma_items_view(items@);
        assert forall|k: int| 0 <= k < items@.len() implies #[trigger] items_view(items@)[k] == inbound_view(inbounds@[k]) by {
            assert(items@[k]@ == inbound_view(inbounds@[k]));
        }
        assert(items_view(items@) =~= Seq::new(inbounds@.len(), |k: int| inbound_view(inbounds@[k])));
    }
    let mut m: Vec<(String, JsonValue)> = Vec::new();
    m.push(member("log", single("loglevel", string("warning"))));
    m.push(member("stats", empty_object()));
    m.push(member("api", api_json()));
    m.push(member("policy", policy_json()));
    m.push(member("inbounds", JsonValue::Array(items)));
    m.push(member("outbounds", outbounds_json()));
    m.push(member("routing", routing_json()));
    proof {
        lemma_members_view(m@);
        assert(members_view(m@) =~= xray_config_document(inbounds@)->Object_0);
    }
    JsonValue::Object(m)
}

/// The configuration file text: the document as indented JSON.
pub fn generate_config_text(inbounds: &[InboundConfig]) -> (r: String)
    ensures
        r@ == crate::json::pretty_text(xray_config_document(inbounds@)),
{
    let doc = generate_xray_config(inbounds);
    crate::json::to_pretty_text(&doc)
}

// ---------------------------------------------------------------------------------------------
// Paths
// ---------------------------------------------------------------------------------------------

/// The path without its final component, as `std::path::Path::parent` gives it; none for a
/// root or an empty path.
pub uninterp spec fn path_parent(p: Seq<char>) -> Option<Seq<char>>;

/// The directory of a path (calls `std::path::Path::parent` and takes it as text).
/// Claims the result is `path_parent` of the path.
#[verifier::external_body]
fn parent_dir(p: &str) -> (r: Option<String>)
    ensures
        opt_text(r) == path_parent(p@),
{
    std::path::Path::new(p).parent().map(|d| d.to_string_lossy().into_owned())
}

/// Where the core's data files are looked for: beside the binary, or `/usr/share/xray` when
/// the binary path has no parent.
pub fn default_assets_path(binary_path: &str) -> (r: String)
    ensures
        r@ == (match path_parent(binary_path@) {
            Some(d) => d,
            None => "/usr/share/xray"@,
        }),
{
    match parent_dir(binary_path) {
        Some(d) => d,
        None => owned("/usr/share/xray"),
    }
}

// ---------------------------------------------------------------------------------------------
// Status
// ---------------------------------------------------------------------------------------------

/// The status report: the version, process id and uptime are shown only while the core runs,
/// and a zero process id is not shown.
pub fn status_report(running: bool, pid: u32, uptime_seconds: Option<u64>, cached_version: Option<String>) -> (r: XrayStatus)
    ensures
        r.running == running,
        r.uptime_seconds == (if running { uptime_seconds } else { None }),
        r.pid == (if running && pid > 0 { Some(pid) } else { None }),
        opt_text(r.version) == (if running { opt_text(cached_version) } else { None }),
{
    XrayStatus {
        running,
        version: if running { cached_version } else { None },
        pid: if running && pid > 0 { Some(pid) } else { None },
        uptime_seconds: if running { uptime_seconds } else { None },
    }
}

/// The first line of a text as `str::lines` yields it: up to the first line feed, without a
/// carriage return just before it; none for an empty text.
pub open spec fn first_line(s: Seq<char>) -> Option<Seq<char>> {
    if s.len() == 0 {
        None
    } else if exists|k: int| 0 <= k < s.len() && s[k] == '\n' {
        let k = choose|k: int| 0 <= k < s.len() && s[k] == '\n' && forall|j: int| 0 <= j < k ==> s[j] != '\n';
        if k > 0 && s[k - 1] == '\r' {
            Some(s.take(k - 1))
        } else {
            Some(s.take(k))
        }
    } else {
        Some(s)
    }
}

/// The version line of the core's `-version` output: its first line, or `Unknown`.
pub fn version_line(output: &str) -> (r: String)
    ensures
        r@ == (match first_line(output@) {
            Some(l) => l,
            None => "Unknown"@,
        }),
{
    let chars = crate::text::chars_of(output);
    if chars.len() == 0 {
        return owned("Unknown");
    }
    let mut k: usize = 0;
    while k < chars.len() && chars[k] != '\n'
        invariant
            k <= chars.len(),
            chars@ == output@,
            forall|j: int| 0 <= j < k ==> chars@[j] != '\n',
        decreases chars.len() - k,
    {
        k = k + 1;
    }
    let end: usize = if k < chars.len() && k > 0 && chars[k - 1] == '\r' { k - 1 } else { k };
    let mut line = String::new();
    let mut i: usize = 0;
    while i < end
        invariant
            i <= end,
            end <= chars.len(),
            line@ == chars@.take(i as int),
        decreases end - i,
    {
        crate::text::push_char(&mut line, chars[i]);
        assert(chars@.take(i + 1) =~= chars@.take(i as int).push(chars@[i as int]));
        i = i + 1;
    }
    proof {
        let s = output@;
        if k < chars.len() {
            assert(s[k as int] == '\n');
            let c = choose|c: int| 0 <= c < s.len() && s[c] == '\n' && forall|j: int| 0 <= j < c ==> s[j] != '\n';
            assert(c == k) by {
                if c < k {
                    assert(s[c] != '\n');
                } else if c > k {
                    assert(s[k as int] != '\n');
                }
            }
        } else {
            assert(chars@.take(k as int) =~= s);
            assert(!exists|c: int| 0 <= c < s.len() && s[c] == '\n');
        }
    }
    line
}

// ---------------------------------------------------------------------------------------------
// Captured output
// ---------------------------------------------------------------------------------------------

/// The most output lines kept.
pub const MAX_LOG_LINES: usize = 1000;

/// The last `n` items of a sequence (all of it when shorter).
pub open spec fn last_items<A>(s: Seq<A>, n: nat) -> Seq<A> {
    if s.len() > n { s.skip(s.len() - n) } else { s }
}

/// The core's output lines, oldest first, at most `MAX_LOG_LINES` of them.
pub struct LogBuffer {
    lines: VecDeque<String>,
}

impl View for LogBuffer {
    type V = Seq<Seq<char>>;

    closed spec fn view(&self) -> Seq<Seq<char>> {
        Seq::new(self.lines@.len(), |i: int| self.lines@[i]@)
    }
}

impl LogBuffer {
    /// Whether the buffer holds no more than `MAX_LOG_LINES` lines.
    pub open spec fn wf(&self) -> bool {
        self@.len() <= MAX_LOG_LINES
    }

    /// An empty buffer.
    pub fn new() -> (r: LogBuffer)
        ensures
            r.wf(),
            r@ == Seq::<Seq<char>>::empty(),
    {
        let r = LogBuffer { lines: VecDeque::new() };
        assert(r@ =~= Seq::<Seq<char>>::empty());
        r
    }

    /// Appends a line, dropping the oldest one when the buffer is full.
    pub fn push(&mut self, line: String)
        requires
            old(self).wf(),
        ensures
            final(self).wf(),
            final(self)@ == last_items(old(self)@.push(line@), MAX_LOG_LINES as nat),
    {
        let ghost before = self@;
        let ghost l = line@;
        self.lines.push_back(line);
        assert(self@ =~= before.push(l));
        if self.lines.len() > MAX_LOG_LINES {
            let _ = self.lines.pop_front();
            assert(self@ =~= before.push(l).skip(1));
        }
    }

    /// Appends a line the core wrote to its error output, marked `[ERROR] `.
    pub fn push_error(&mut self, line: &str)
        requires
            old(self).wf(),
        ensures
            final(self).wf(),
            final(self)@ == last_items(old(self)@.push("[ERROR] "@ + line@), MAX_LOG_LINES as nat),
    {
        let mut s = String::new();
        push_str(&mut s, "[ERROR] ");
        push_str(&mut s, line);
        self.push(s);
    }

    /// The last `count` lines, oldest first (all of them when there are fewer).
    pub fn tail(&self, count: usize) -> (r: Vec<String>)
        ensures
            r@.len() == last_items(self@, count as nat).len(),
            forall|i: int| 0 <= i < r@.len() ==> #[trigger] r@[i]@ == last_items(self@, count as nat)[i],
    {
        let n = self.lines.len();
        let start: usize = if n > count { n - count } else { 0 };
        let mut out: Vec<String> = Vec::new();
        let mut i: usize = start;
        while i < n
            invariant
                start <= i <= n,
                n == self.lines@.len(),
                out@.len() == i - start,
                forall|k: int| 0 <= k < out@.len() ==> #[trigger] out@[k]@ == self.lines@[start + k]@,
            decreases n - i,
        {
            out.push(owned(self.lines[i].as_str()));
            i = i + 1;
        }
        out
    }

    /// Every line, oldest first.
    pub fn all(&self) -> (r: Vec<String>)
        ensures
            r@.len() == self@.len(),
            forall|i: int| 0 <= i < r@.len() ==> #[trigger] r@[i]@ == self@[i],
    {
        self.tail(self.lines.len())
    }
}

// ---------------------------------------------------------------------------------------------
// Releases
// ---------------------------------------------------------------------------------------------

/// Why a core build cannot be chosen for this machine.
#[derive(Debug, Clone)]
pub enum PlatformError {
    UnsupportedArch(String),
    UnsupportedOs(String),
}

impl PlatformError {
    /// The message shown for the error.
    pub fn message(&self) -> (r: String)
        ensures
            r@ == (match self {
                PlatformError::UnsupportedArch(a) => "Unsupported architecture: "@ + a@,
                PlatformError::UnsupportedOs(o) => "Unsupported OS: "@ + o@,
            }),
    {
        let mut s = String::new();
        match self {
            PlatformError::UnsupportedArch(a) => {
                push_str(&mut s, "Unsupported architecture: ");
                push_str(&mut s, a.as_str());
            },
            PlatformError::UnsupportedOs(o) => {
                push_str(&mut s, "Unsupported OS: ");
                push_str(&mut s, o.as_str());
            },
        }
        s
    }
}

/// The architecture part of a release file name.
pub open spec fn arch_part(arch: Seq<char>) -> Option<Seq<char>> {
    if arch == "x86_64"@ || arch == "x64"@ {
        Some("64"@)
    } else if arch == "aarch64"@ || arch == "arm64"@ {
        Some("arm64-v8a"@)
    } else if arch == "arm"@ {
        Some("arm32-v7a"@)
    } else {
        None
    }
}

/// Whether releases are published for an operating system.
pub open spec fn supported_os(os: Seq<char>) -> bool {
    os == "linux"@ || os == "windows"@ || os == "macos"@ || os == "freebsd"@
}

/// The release file for a machine: `Xray-<os>-<arch>.zip`. The architecture is checked first.
pub fn release_file_name(os: &str, arch: &str) -> (r: Result<String, PlatformError>)
    ensures
        match arch_part(arch@) {
            None => r matches Err(PlatformError::UnsupportedArch(a)) && a@ == arch@,
            Some(ap) => if supported_os(os@) {
                r matches Ok(f) && f@ == "Xray-"@ + os@ + "-"@ + ap + ".zip"@
            } else {
                r matches Err(PlatformError::UnsupportedOs(o)) && o@ == os@
            },
        },
{
    let arch_str: &str = if str_eq(arch, "x86_64") || str_eq(arch, "x64") {
        "64"
    } else if str_eq(arch, "aarch64") || str_eq(arch, "arm64") {
        "arm64-v8a"
    } else if str_eq(arch, "arm") {
        "arm32-v7a"
    } else {
        return Err(PlatformError::UnsupportedArch(owned(arch)));
    };
    if !(str_eq(os, "linux") || str_eq(os, "windows") || str_eq(os, "macos") || str_eq(os, "freebsd")) {
        return Err(PlatformError::UnsupportedOs(owned(os)));
    }
    let mut s = String::new();
    push_str(&mut s, "Xray-");
    push_str(&mut s, os);
    push_str(&mut s, "-");
    push_str(&mut s, arch_str);
    push_str(&mut s, ".zip");
    Ok(s)
}

/// The values that are present, in order.
pub open spec fn present<A>(s: Seq<Option<A>>) -> Seq<A>
    decreases s.len(),
{
    if s.len() == 0 {
        Seq::empty()
    } else {
        match s.last() {
            Some(x) => present(s.drop_last()).push(x),
            None => present(s.drop_last()),
        }
    }
}

/// The text of a member, when it is a string.
pub open spec fn str_member(v: JsonView, key: Seq<char>) -> Option<Seq<char>> {
    match v.get(key) {
        Some(x) => x.as_str(),
        None => None,
    }
}

/// The number of a member, when it is a whole number that fits in a `u64`.
pub open spec fn u64_member(v: JsonView, key: Seq<char>) -> Option<u64> {
    match v.get(key) {
        Some(x) => x.as_u64(),
        None => None,
    }
}

/// A release file as read from the release list: name, download URL and size, each required.
pub open spec fn asset_of(a: JsonView) -> Option<(Seq<char>, Seq<char>, u64)> {
    match (str_member(a, "name"@), str_member(a, "browser_download_url"@), u64_member(a, "size"@)) {
        (Some(n), Some(u), Some(z)) => Some((n, u, z)),
        _ => None,
    }
}

/// A release as read from the release list: tag, published date and asset list are required,
/// the name falls back to the tag, and assets missing a field are left out.
pub open spec fn release_of(r: JsonView) -> Option<(Seq<char>, Seq<char>, Seq<(Seq<char>, Seq<char>, u64)>, Seq<char>)> {
    match str_member(r, "tag_name"@) {
        None => None,
        Some(tag) => {
            let name = match str_member(r, "name"@) {
                Some(n) => n,
                None => tag,
            };
            match str_member(r, "published_at"@) {
                None => None,
                Some(published) => match r.get("assets"@) {
                    None => None,
                    Some(a) => match a.as_array() {
                        None => None,
                        Some(items) => Some((tag, name, present(items.map_values(|x: JsonView| asset_of(x))), published)),
                    },
                },
            }
        },
    }
}

/// The releases read from the first twenty entries of a release list.
pub open spec fn releases_of(rs: Seq<JsonView>) -> Seq<(Seq<char>, Seq<char>, Seq<(Seq<char>, Seq<char>, u64)>, Seq<char>)> {
    present(rs.take(if rs.len() < 20 { rs.len() as int } else { 20 }).map_values(|x: JsonView| release_of(x)))
}

impl View for XrayAsset {
    type V = (Seq<char>, Seq<char>, u64);

    open spec fn view(&self) -> (Seq<char>, Seq<char>, u64) {
        (self.name@, self.browser_download_url@, self.size)
    }
}

impl View for XrayRelease {
    type V = (Seq<char>, Seq<char>, Seq<(Seq<char>, Seq<char>, u64)>, Seq<char>);

    open spec fn view(&self) -> (Seq<char>, Seq<char>, Seq<(Seq<char>, Seq<char>, u64)>, Seq<char>) {
        (self.tag_name@, self.name@, self.assets@.map_values(|a: XrayAsset| a@), self.published_at@)
    }
}

/// The text of a member, when it is a string.
fn get_str<'a>(v: &'a JsonValue, key: &str) -> (r: Option<&'a str>)
    ensures
        match r {
            Some(s) => str_member(v@, key@) == Some(s@),
            None => str_member(v@, key@) is None,
        },
{
    match v.get(key) {
        Some(x) => x.as_str(),
        None => None,
    }
}

/// Reads one release file.
fn parse_asset(a: &JsonValue) -> (r: Option<XrayAsset>)
    ensures
        match r {
            Some(x) => asset_of(a@) == Some(x@),
            None => asset_of(a@) is None,
        },
{
    let name = get_str(a, "name");
    let url = get_str(a, "browser_download_url");
    let size = match a.get("size") {
        Some(x) => x.as_u64(),
        None => None,
    };
    match (name, url, size) {
        (Some(n), Some(u), Some(z)) => Some(XrayAsset { name: owned(n), browser_download_url: owned(u), size: z }),
        _ => None,
    }
}

/// Reads one release.
fn parse_release(r: &JsonValue) -> (out: Option<XrayRelease>)
    ensures
        match out {
            Some(x) => release_of(r@) == Some(x@),
            None => release_of(r@) is None,
        },
{
    let tag = match get_str(r, "tag_name") {
        Some(t) => t,
        None => {
            return None;
        },
    };
    let name = match get_str(r, "name") {
        Some(n) => n,
        None => tag,
    };
    let published = match get_str(r, "published_at") {
        Some(p) => p,
        None => {
            return None;
        },
    };
    let items = match r.get("assets") {
        Some(a) => match a.as_array() {
            Some(items) => items,
            None => {
                return None;
            },
        },
        None => {
            return None;
        },
    };
    let ghost iv = items_view(items@);
    proof {
        lemma_items_view(items@);
    }
    let mut assets: Vec<XrayAsset> = Vec::new();
    let mut i: usize = 0;
    while i < items.len()
        invariant
            i <= items.len(),
            iv == items_view(items@),
            iv.len() == items@.len(),
            forall|k: int| 0 <= k < items@.len() ==> #[trigger] iv[k] == items@[k]@,
            assets@.map_values(|a: XrayAsset| a@) == present(iv.take(i as int).map_values(|x: JsonView| asset_of(x))),
        decreases items.len() - i,
    {
        let ghost before = assets@;
        let parsed = parse_asset(&items[i]);
        let ghost m = iv.take(i + 1).map_values(|x: JsonView| asset_of(x));
        assert(m.drop_last() =~= iv.take(i as int).map_values(|x: JsonView| asset_of(x)));
        assert(m.last() == asset_of(items@[i as int]@));
        match parsed {
            Some(a) => {
                assets.push(a);
                assert(assets@.map_values(|a: XrayAsset| a@) =~= before.map_values(|a: XrayAsset| a@).push(a@));
            },
            None => {},
        }
        i = i + 1;
    }
    assert(iv.take(i as int) =~= iv);
    Some(XrayRelease { tag_name: owned(tag), name: owned(name), assets, published_at: owned(published) })
}

/// Reads the release list: the first twenty entries, leaving out those missing a required field.
pub fn parse_releases(releases: &Vec<JsonValue>) -> (r: Vec<XrayRelease>)
    ensures
        r@.map_values(|x: XrayRelease| x@) == releases_of(items_view(releases@)),
{
    let ghost rv = items_view(releases@);
    proof {
        lemma_items_view(releases@);
    }
    let n: usize = if releases.len() < 20 { releases.len() } else { 20 };
    let mut out: Vec<XrayRelease> = Vec::new();
    let mut i: usize = 0;
    while i < n
        invariant
            i <= n,
            n <= releases.len(),
            rv == items_view(releases@),
            rv.len() == releases@.len(),
            forall|k: int| 0 <= k < releases@.len() ==> #[trigger] rv[k] == releases@[k]@,
            out@.map_values(|x: XrayRelease| x@) == present(rv.take(i as int).map_values(|x: JsonView| release_of(x))),
        decreases n - i,
    {
        let ghost before = out@;
        let parsed = parse_release(&releases[i]);
        let ghost m = rv.take(i + 1).map_values(|x: JsonView| release_of(x));
        assert(m.drop_last() =~= rv.take(i as int).map_values(|x: JsonView| release_of(x)));
        assert(m.last() == release_of(releases@[i as int]@));
        match parsed {
            Some(x) => {
                out.push(x);
                assert(out@.map_values(|x: XrayRelease| x@) =~= before.map_values(|x: XrayRelease| x@).push(x@));
            },
            None => {},
        }
        i = i + 1;
    }
    out
}

/// Reads the release list from the text of the releases API: none when the text is not a
/// JSON array.
pub fn releases_from_text(body: &str) -> (r: Option<Vec<XrayRelease>>)
    ensures
        match r {
            Some(v) => exists|items: Seq<JsonView>| crate::json::parsed(body@) == Some(JsonView::Array(items))
                && v@.map_values(|x: XrayRelease| x@) == releases_of(items),
            None => !(exists|items: Seq<JsonView>| crate::json::parsed(body@) == Some(JsonView::Array(items))),
        },
{
    match crate::json::parse(body) {
        Some(doc) => match doc.as_array() {
            Some(items) => Some(parse_releases(items)),
            None => None,
        },
        None => None,
    }
}

/// Where a release file is downloaded from.
pub fn release_download_url(version: &str, file_name: &str) -> (r: String)
    ensures
        r@ == "https://github.com/XTLS/Xray-core/releases/download/"@ + version@ + "/"@ + file_name@,
{
    let mut s = String::new();
    push_str(&mut s, "https://github.com/XTLS/Xray-core/releases/download/");
    push_str(&mut s, version);
    push_str(&mut s, "/");
    push_str(&mut s, file_name);
    s
}

/// The generated document lists every stored inbound, in order: its `inbounds` array has one
/// item per inbound, and item `k` carries inbound `k`'s tag, listen address, port, protocol,
/// settings and stream settings (`{}` when it has none). Traffic goes out directly or is
/// blocked: the outbounds are `direct` (freedom) and `blocked` (blackhole).
pub proof fn lemma_config_lists_every_inbound(inbounds: Seq<InboundConfig>)
    ensures
        xray_config_document(inbounds).get("inbounds"@) matches Some(JsonView::Array(items))
            && items.len() == inbounds.len()
            && forall|k: int| 0 <= k < inbounds.len() ==> {
                &&& (#[trigger] items[k]).get("tag"@) == Some(JsonView::Str(inbounds[k].tag@))
                &&& items[k].get("listen"@) == Some(JsonView::Str(inbounds[k].listen@))
                &&& items[k].get("port"@) == Some(JsonView::Int(inbounds[k].port as int))
                &&& items[k].get("protocol"@) == Some(JsonView::Str(inbounds[k].protocol@))
                &&& items[k].get("settings"@) == Some(inbounds[k].settings@)
                &&& items[k].get("streamSettings"@) == Some(match inbounds[k].stream_settings {
                    Some(v) => v@,
                    None => JsonView::Object(Seq::empty()),
                })
            },
        xray_config_document(inbounds).get("outbounds"@) == Some(JsonView::Array(seq![
            JsonView::Object(seq![("tag"@, JsonView::Str("direct"@)), ("protocol"@, JsonView::Str("freedom"@))]),
            JsonView::Object(seq![("tag"@, JsonView::Str("blocked"@)), ("protocol"@, JsonView::Str("blackhole"@))]),
        ])),
{
    reveal_strlit("log");
    reveal_strlit("stats");
    reveal_strlit("api");
    reveal_strlit("policy");
    reveal_strlit("inbounds");
    reveal_strlit("outbounds");
    reveal_strlit("tag");
    reveal_strlit("listen");
    reveal_strlit("port");
    reveal_strlit("protocol");
    reveal_strlit("settings");
    reveal_strlit("streamSettings");
    reveal_with_fuel(crate::json::member_lookup, 8);
    let doc = xray_config_document(inbounds);
    assert("log"@.len() == 3 && "stats"@.len() == 5 && "api"@.len() == 3 && "policy"@.len() == 6);
    assert("inbounds"@.len() == 8 && "outbounds"@.len() == 9);
    assert forall|k: int| #![trigger inbounds[k]] 0 <= k < inbounds.len() implies {
        let item = inbound_view(inbounds[k]);
        &&& item.get("tag"@) == Some(JsonView::Str(inbounds[k].tag@))
        &&& item.get("listen"@) == Some(JsonView::Str(inbounds[k].listen@))
        &&& item.get("port"@) == Some(JsonView::Int(inbounds[k].port as int))
        &&& item.get("protocol"@) == Some(JsonView::Str(inbounds[k].protocol@))
        &&& item.get("settings"@) == Some(inbounds[k].settings@)
        &&& item.get("streamSettings"@) == Some(match inbounds[k].stream_settings {
            Some(v) => v@,
            None => JsonView::Object(Seq::empty()),
        })
    } by {
        assert("tag"@.len() == 3 && "listen"@.len() == 6 && "port"@.len() == 4);
        assert("protocol"@.len() == 8 && "settings"@.len() == 8 && "streamSettings"@.len() == 14);
        assert("protocol"@[0] != "settings"@[0]);
    }
}

} // verus!
