//! The Xray configuration as a typed document: defaults, inbound and rule editing, and the
//! JSON fragments for protocol and transport settings.
use vstd::prelude::*;
use crate::json::{
    empty_object, items_view, members_view, push_item, push_member, string, string_array,
    strings_view, JsonValue, JsonView,
};
use crate::services::xray::copy_json;
use crate::text::{owned, str_eq};

verus! {

/// The whole configuration.
#[derive(Debug)]
pub struct XrayConfig {
    pub log: LogConfig,
    pub stats: JsonValue,
    pub api: ApiConfig,
    pub policy: PolicyConfig,
    pub inbounds: Vec<InboundConfig>,
    pub outbounds: Vec<OutboundConfig>,
    pub routing: RoutingConfig,
}

/// Logging.
#[derive(Debug, Clone)]
pub struct LogConfig {
    pub loglevel: String,
    pub access: Option<String>,
    pub error: Option<String>,
}

/// The control API.
#[derive(Debug, Clone)]
pub struct ApiConfig {
    pub tag: String,
    pub services: Vec<String>,
}

/// Policies.
#[derive(Debug)]
pub struct PolicyConfig {
    pub system: SystemPolicy,
    pub levels: JsonValue,
}

/// Which traffic counters are kept.
#[derive(Debug, Clone)]
pub struct SystemPolicy {
    pub stats_inbound_uplink: bool,
    pub stats_inbound_downlink: bool,
    pub stats_outbound_uplink: bool,
    pub stats_outbound_downlink: bool,
}

/// One inbound.
#[derive(Debug)]
pub struct InboundConfig {
    pub tag: String,
    pub listen: String,
    pub port: i32,
    pub protocol: String,
    pub settings: JsonValue,
    pub stream_settings: Option<JsonValue>,
    pub sniffing: SniffingConfig,
}

/// Traffic sniffing of an inbound.
#[derive(Debug, Clone)]
pub struct SniffingConfig {
    pub enabled: bool,
    pub dest_override: Vec<String>,
    pub domains_excluded: Option<Vec<String>>,
    pub route_only: Option<bool>,
}

/// One outbound.
#[derive(Debug)]
pub struct OutboundConfig {
    pub tag: String,
    pub protocol: String,
    pub settings: Option<JsonValue>,
}

/// Routing.
#[derive(Debug, Clone)]
pub struct RoutingConfig {
    pub domain_strategy: String,
    pub rules: Vec<RoutingRule>,
}

/// One routing rule.
#[derive(Debug, Clone)]
pub struct RoutingRule {
    pub rule_type: String,
    pub ip: Option<Vec<String>>,
    pub domain: Option<Vec<String>>,
    pub outbound_tag: Option<String>,
    pub inbound_tag: Option<Vec<String>>,
}

// ---------------------------------------------------------------------------------------------
// Optional members: a field that is absent is left out of the object.
// ---------------------------------------------------------------------------------------------

/// A string member, when present.
pub open spec fn opt_str_member(key: Seq<char>, v: Option<String>) -> Seq<(Seq<char>, JsonView)> {
    match v {
        Some(s) => seq![(key, JsonView::Str(s@))],
        None => Seq::empty(),
    }
}

/// A number member, when present.
pub open spec fn opt_int_member(key: Seq<char>, v: Option<i32>) -> Seq<(Seq<char>, JsonView)> {
    match v {
        Some(i) => seq![(key, JsonView::Int(i as int))],
        None => Seq::empty(),
    }
}

/// A boolean member, when present.
pub open spec fn opt_bool_member(key: Seq<char>, v: Option<bool>) -> Seq<(Seq<char>, JsonView)> {
    match v {
        Some(b) => seq![(key, JsonView::Bool(b))],
        None => Seq::empty(),
    }
}

/// A string-list member, when present.
pub open spec fn opt_strings_member(key: Seq<char>, v: Option<Vec<String>>) -> Seq<(Seq<char>, JsonView)> {
    match v {
        Some(l) => seq![(key, JsonView::Array(strings_view(l@)))],
        None => Seq::empty(),
    }
}

/// A JSON member, when present.
pub open spec fn opt_json_member(key: Seq<char>, v: Option<JsonValue>) -> Seq<(Seq<char>, JsonView)> {
    match v {
        Some(x) => seq![(key, x@)],
        None => Seq::empty(),
    }
}

fn push_opt_str(m: &mut Vec<(String, JsonValue)>, key: &str, v: &Option<String>)
    ensures
        members_view(final(m)@) == members_view(old(m)@) + opt_str_member(key@, *v),
{
    let ghost before = members_view(m@);
    match v {
        Some(s) => push_member(m, key, string(s.as_str())),
        None => {},
    }
    assert(members_view(m@) =~= before + opt_str_member(key@, *v));
}

fn push_opt_int(m: &mut Vec<(String, JsonValue)>, key: &str, v: Option<i32>)
    ensures
        members_view(final(m)@) == members_view(old(m)@) + opt_int_member(key@, v),
{
    let ghost before = members_view(m@);
    match v {
        Some(i) => push_member(m, key, JsonValue::Int(i as i64)),
        None => {},
    }
    assert(members_view(m@) =~= before + opt_int_member(key@, v));
}

fn push_opt_bool(m: &mut Vec<(String, JsonValue)>, key: &str, v: Option<bool>)
    ensures
        members_view(final(m)@) == members_view(old(m)@) + opt_bool_member(key@, v),
{
    let ghost before = members_view(m@);
    match v {
        Some(b) => push_member(m, key, JsonValue::Bool(b)),
        None => {},
    }
    assert(members_view(m@) =~= before + opt_bool_member(key@, v));
}

fn push_opt_strings(m: &mut Vec<(String, JsonValue)>, key: &str, v: &Option<Vec<String>>)
    ensures
        members_view(final(m)@) == members_view(old(m)@) + opt_strings_member(key@, *v),
{
    let ghost before = members_view(m@);
    match v {
        Some(l) => push_member(m, key, string_array(l)),
        None => {},
    }
    assert(members_view(m@) =~= before + opt_strings_member(key@, *v));
}

fn push_opt_json(m: &mut Vec<(String, JsonValue)>, key: &str, v: &Option<JsonValue>)
    ensures
        members_view(final(m)@) == members_view(old(m)@) + opt_json_member(key@, *v),
{
    let ghost before = members_view(m@);
    match v {
        Some(x) => push_member(m, key, copy_json(x)),
        None => {},
    }
    assert(members_view(m@) =~= before + opt_json_member(key@, *v));
}

// ---------------------------------------------------------------------------------------------
// The document
// ---------------------------------------------------------------------------------------------

/// The `log` object.
pub open spec fn log_view(l: LogConfig) -> JsonView {
    JsonView::Object(seq![("loglevel"@, JsonView::Str(l.loglevel@))] + opt_str_member("access"@, l.access)
        + opt_str_member("error"@, l.error))
}

/// The `api` object.
pub open spec fn api_view(a: ApiConfig) -> JsonView {
    JsonView::Object(seq![("tag"@, JsonView::Str(a.tag@)), ("services"@, JsonView::Array(strings_view(a.services@)))])
}

/// The `system` policy object.
pub open spec fn system_policy_view(p: SystemPolicy) -> JsonView {
    JsonView::Object(
        seq![
            ("stats_inbound_uplink"@, JsonView::Bool(p.stats_inbound_uplink)),
            ("stats_inbound_downlink"@, JsonView::Bool(p.stats_inbound_downlink)),
            ("stats_outbound_uplink"@, JsonView::Bool(p.stats_outbound_uplink)),
            ("stats_outbound_downlink"@, JsonView::Bool(p.stats_outbound_downlink)),
        ],
    )
}

/// The `policy` object.
pub open spec fn policy_view(p: PolicyConfig) -> JsonView {
    JsonView::Object(seq![("system"@, system_policy_view(p.system)), ("levels"@, p.levels@)])
}

/// The sniffing object of an inbound.
pub open spec fn sniffing_view(s: SniffingConfig) -> JsonView {
    JsonView::Object(
        seq![("enabled"@, JsonView::Bool(s.enabled)), ("dest_override"@, JsonView::Array(strings_view(s.dest_override@)))]
            + opt_strings_member("domains_excluded"@, s.domains_excluded) + opt_bool_member("route_only"@, s.route_only),
    )
}

/// An inbound object.
pub open spec fn inbound_view(i: InboundConfig) -> JsonView {
    JsonView::Object(
        seq![
            ("tag"@, JsonView::Str(i.tag@)),
            ("listen"@, JsonView::Str(i.listen@)),
            ("port"@, JsonView::Int(i.port as int)),
            ("protocol"@, JsonView::Str(i.protocol@)),
            ("settings"@, i.settings@),
        ] + opt_json_member("stream_settings"@, i.stream_settings) + seq![("sniffing"@, sniffing_view(i.sniffing))],
    )
}

/// An outbound object.
pub open spec fn outbound_view(o: OutboundConfig) -> JsonView {
    JsonView::Object(seq![("tag"@, JsonView::Str(o.tag@)), ("protocol"@, JsonView::Str(o.protocol@))]
        + opt_json_member("settings"@, o.settings))
}

/// A routing rule object; the rule's kind is written under `type`.
pub open spec fn rule_view(r: RoutingRule) -> JsonView {
    JsonView::Object(
        seq![("type"@, JsonView::Str(r.rule_type@))] + opt_strings_member("ip"@, r.ip) + opt_strings_member("domain"@, r.domain)
            + opt_str_member("outbound_tag"@, r.outbound_tag) + opt_strings_member("inbound_tag"@, r.inbound_tag),
    )
}

/// The `routing` object.
pub open spec fn routing_view(r: RoutingConfig) -> JsonView {
    JsonView::Object(
        seq![
            ("domain_strategy"@, JsonView::Str(r.domain_strategy@)),
            ("rules"@, JsonView::Array(Seq::new(r.rules@.len(), |k: int| rule_view(r.rules@[k])))),
        ],
    )
}

/// The whole configuration document, fields in declaration order.
pub open spec fn config_view(c: XrayConfig) -> JsonView {
    JsonView::Object(
        seq![
            ("log"@, log_view(c.log)),
            ("stats"@, c.stats@),
            ("api"@, api_view(c.api)),
            ("policy"@, policy_view(c.policy)),
            ("inbounds"@, JsonView::Array(Seq::new(c.inbounds@.len(), |k: int| inbound_view(c.inbounds@[k])))),
            ("outbounds"@, JsonView::Array(Seq::new(c.outbounds@.len(), |k: int| outbound_view(c.outbounds@[k])))),
            ("routing"@, routing_view(c.routing)),
        ],
    )
}

fn log_json(l: &LogConfig) -> (r: JsonValue)
    ensures
        r@ == log_view(*l),
{
    let mut m: Vec<(String, JsonValue)> = Vec::new();
    push_member(&mut m, "loglevel", string(l.loglevel.as_str()));
    push_opt_str(&mut m, "access", &l.access);
    push_opt_str(&mut m, "error", &l.error);
    assert(members_view(m@) =~= log_view(*l)->Object_0);
    JsonValue::Object(m)
}

fn api_json(a: &ApiConfig) -> (r: JsonValue)
    ensures
        r@ == api_view(*a),
{
    let mut m: Vec<(String, JsonValue)> = Vec::new();
    push_member(&mut m, "tag", string(a.tag.as_str()));
    push_member(&mut m, "services", string_array(&a.services));
    assert(members_view(m@) =~= api_view(*a)->Object_0);
    JsonValue::Object(m)
}

fn policy_json(p: &PolicyConfig) -> (r: JsonValue)
    ensures
        r@ == policy_view(*p),
{
    let mut s: Vec<(String, JsonValue)> = Vec::new();
    push_member(&mut s, "stats_inbound_uplink", JsonValue::Bool(p.system.stats_inbound_uplink));
    push_member(&mut s, "stats_inbound_downlink", JsonValue::Bool(p.system.stats_inbound_downlink));
    push_member(&mut s, "stats_outbound_uplink", JsonValue::Bool(p.system.stats_outbound_uplink));
    push_member(&mut s, "stats_outbound_downlink", JsonValue::Bool(p.system.stats_outbound_downlink));
    assert(members_view(s@) =~= system_policy_view(p.system)->Object_0);
    let mut m: Vec<(String, JsonValue)> = Vec::new();
    push_member(&mut m, "system", JsonValue::Object(s));
    push_member(&mut m, "levels", copy_json(&p.levels));
    assert(members_view(m@) =~= policy_view(*p)->Object_0);
    JsonValue::Object(m)
}

fn sniffing_json(s: &SniffingConfig) -> (r: JsonValue)
    ensures
        r@ == sniffing_view(*s),
{
    let mut m: Vec<(String, JsonValue)> = Vec::new();
    push_member(&mut m, "enabled", JsonValue::Bool(s.enabled));
    push_member(&mut m, "dest_override", string_array(&s.dest_override));
    push_opt_strings(&mut m, "domains_excluded", &s.domains_excluded);
    push_opt_bool(&mut m, "route_only", s.route_only);
    assert(members_view(m@) =~= sniffing_view(*s)->Object_0);
    JsonValue::Object(m)
}

fn inbound_json(i: &InboundConfig) -> (r: JsonValue)
    ensures
        r@ == inbound_view(*i),
{
    let mut m: Vec<(String, JsonValue)> = Vec::new();
    push_member(&mut m, "tag", string(i.tag.as_str()));
    push_member(&mut m, "listen", string(i.listen.as_str()));
    push_member(&mut m, "port", JsonValue::Int(i.port as i64));
    push_member(&mut m, "protocol", string(i.protocol.as_str()));
    push_member(&mut m, "settings", copy_json(&i.settings));
    push_opt_json(&mut m, "stream_settings", &i.stream_settings);
    push_member(&mut m, "sniffing", sniffing_json(&i.sniffing));
    assert(members_view(m@) =~= inbound_view(*i)->Object_0);
    JsonValue::Object(m)
}

fn outbound_json(o: &OutboundConfig) -> (r: JsonValue)
    ensures
        r@ == outbound_view(*o),
{
    let mut m: Vec<(String, JsonValue)> = Vec::new();
    push_member(&mut m, "tag", string(o.tag.as_str()));
    push_member(&mut m, "protocol", string(o.protocol.as_str()));
    push_opt_json(&mut m, "settings", &o.settings);
    assert(members_view(m@) =~= outbound_view(*o)->Object_0);
    JsonValue::Object(m)
}

fn rule_json(r: &RoutingRule) -> (out: JsonValue)
    ensures
        out@ == rule_view(*r),
{
    let mut m: Vec<(String, JsonValue)> = Vec::new();
    push_member(&mut m, "type", string(r.rule_type.as_str()));
    push_opt_strings(&mut m, "ip", &r.ip);
    push_opt_strings(&mut m, "domain", &r.domain);
    push_opt_str(&mut m, "outbound_tag", &r.outbound_tag);
    push_opt_strings(&mut m, "inbound_tag", &r.inbound_tag);
    assert(members_view(m@) =~= rule_view(*r)->Object_0);
    JsonValue::Object(m)
}

fn routing_json(r: &RoutingConfig) -> (out: JsonValue)
    ensures
        out@ == routing_view(*r),
{
    let mut rules: Vec<JsonValue> = Vec::new();
    let mut i: usize = 0;
    assert(items_view(rules@) =~= Seq::<JsonView>::empty());
    while i < r.rules.len()
        invariant
            i <= r.rules.len(),
            items_view(rules@) == Seq::new(i as nat, |k: int| rule_view(r.rules@[k])),
        decreases r.rules.len() - i,
    {
        push_item(&mut rules, rule_json(&r.rules[i]));
        assert(items_view(rules@) =~= Seq::new((i + 1) as nat, |k: int| rule_view(r.rules@[k])));
        i = i + 1;
    }
    let mut m: Vec<(String, JsonValue)> = Vec::new();
    push_member(&mut m, "domain_strategy", string(r.domain_strategy.as_str()));
    push_member(&mut m, "rules", JsonValue::Array(rules));
    assert(members_view(m@) =~= routing_view(*r)->Object_0);
    JsonValue::Object(m)
}

impl XrayConfig {
    /// The configuration as a JSON document.
    pub fn to_value(&self) -> (r: JsonValue)
        ensures
            r@ == config_view(*self),
    {
        let mut ins: Vec<JsonValue> = Vec::new();
        let mut i: usize = 0;
        assert(items_view(ins@) =~= Seq::<JsonView>::empty());
        while i < self.inbounds.len()
            invariant
                i <= self.inbounds.len(),
                items_view(ins@) == Seq::new(i as nat, |k: int| inbound_view(self.inbounds@[k])),
            decreases self.inbounds.len() - i,
        {
            push_item(&mut ins, inbound_json(&self.inbounds[i]));
            assert(items_view(ins@) =~= Seq::new((i + 1) as nat, |k: int| inbound_view(self.inbounds@[k])));
            i = i + 1;
        }
        let mut outs: Vec<JsonValue> = Vec::new();
        let mut j: usize = 0;
        assert(items_view(outs@) =~= Seq::<JsonView>::empty());
        while j < self.outbounds.len()
            invariant
                j <= self.outbounds.len(),
                items_view(outs@) == Seq::new(j as nat, |k: int| outbound_view(self.outbounds@[k])),
            decreases self.outbounds.len() - j,
        {
            push_item(&mut outs, outbound_json(&self.outbounds[j]));
            assert(items_view(outs@) =~= Seq::new((j + 1) as nat, |k: int| outbound_view(self.outbounds@[k])));
            j = j + 1;
        }
        let mut m: Vec<(String, JsonValue)> = Vec::new();
        push_member(&mut m, "log", log_json(&self.log));
        push_member(&mut m, "stats", copy_json(&self.stats));
        push_member(&mut m, "api", api_json(&self.api));
        push_member(&mut m, "policy", policy_json(&self.policy));
        push_member(&mut m, "inbounds", JsonValue::Array(ins));
        push_member(&mut m, "outbounds", JsonValue::Array(outs));
        push_member(&mut m, "routing", routing_json(&self.routing));
        assert(members_view(m@) =~= config_view(*self)->Object_0);
        JsonValue::Object(m)
    }

    /// The configuration as indented JSON text.
    pub fn to_json(&self) -> (r: String)
        ensures
            r@ == crate::json::pretty_text(config_view(*self)),
    {
        let v = self.to_value();
        crate::json::to_pretty_text(&v)
    }

    /// Adds an inbound at the end.
    pub fn add_inbound(&mut self, inbound: InboundConfig)
        ensures
            final(self).inbounds@ == old(self).inbounds@.push(inbound),
            final(self).log == old(self).log,
            final(self).outbounds@ == old(self).outbounds@,
            final(self).routing == old(self).routing,
    {
        self.inbounds.push(inbound);
    }

    /// Removes every inbound with the given tag; the others keep their order.
    pub fn remove_inbound(&mut self, tag: &str)
        ensures
            final(self).inbounds@ == without_tag(old(self).inbounds@, tag@),
            forall|i: int| 0 <= i < final(self).inbounds@.len() ==> #[trigger] final(self).inbounds@[i].tag@ != tag@,
            forall|j: int| 0 <= j < old(self).inbounds@.len() && (#[trigger] old(self).inbounds@[j]).tag@ != tag@
                ==> final(self).inbounds@.contains(old(self).inbounds@[j]),
            final(self).log == old(self).log,
            final(self).outbounds@ == old(self).outbounds@,
            final(self).routing == old(self).routing,
    {
        let ghost orig = self.inbounds@;
        let mut rest: Vec<InboundConfig> = Vec::new();
        std::mem::swap(&mut rest, &mut self.inbounds);
        let ghost mut i: int = 0;
        assert(orig.take(0) =~= Seq::<InboundConfig>::empty());
        assert(orig.skip(0) =~= orig);
        while rest.len() > 0
            invariant
                0 <= i <= orig.len(),
                rest@ == orig.skip(i),
                self.inbounds@ == without_tag(orig.take(i), tag@),
                self.log == old(self).log,
                self.outbounds@ == old(self).outbounds@,
                self.routing == old(self).routing,
            decreases rest.len(),
        {
            let x = rest.remove(0);
            proof {
                assert(orig.take(i + 1).drop_last() =~= orig.take(i));
                assert(orig.take(i + 1).last() == x);
                assert(rest@ =~= orig.skip(i + 1));
                i = i + 1;
            }
            if !str_eq(x.tag.as_str(), tag) {
                self.inbounds.push(x);
            }
        }
        assert(orig.take(i) =~= orig);
        proof {
            lemma_without_tag(orig, tag@);
        }
    }

    /// Adds a routing rule at the end.
    pub fn add_rule(&mut self, rule: RoutingRule)
        ensures
            final(self).routing.rules@ == old(self).routing.rules@.push(rule),
            final(self).routing.domain_strategy == old(self).routing.domain_strategy,
            final(self).inbounds@ == old(self).inbounds@,
    {
        self.routing.rules.push(rule);
    }
}

// ---------------------------------------------------------------------------------------------
// Defaults
// ---------------------------------------------------------------------------------------------

/// The default connection policy of level 0.
pub open spec fn default_levels_view() -> JsonView {
    JsonView::Object(seq![("0"@, JsonView::Object(seq![
        ("handshake"@, JsonView::Int(4)),
        ("connIdle"@, JsonView::Int(300)),
        ("uplinkOnly"@, JsonView::Int(2)),
        ("downlinkOnly"@, JsonView::Int(5)),
        ("statsUserUplink"@, JsonView::Bool(false)),
        ("statsUserDownlink"@, JsonView::Bool(false)),
        ("bufferSize"@, JsonView::Int(10240)),
    ]))])
}

/// The default document: warning-level logs, statistics on, the stats, handler and logger API
/// services, direct and blocked outbounds, private addresses blocked, no inbounds.
pub open spec fn default_config_view() -> JsonView {
    JsonView::Object(
        seq![
            ("log"@, JsonView::Object(seq![("loglevel"@, JsonView::Str("warning"@))])),
            ("stats"@, JsonView::Object(Seq::empty())),
            ("api"@, JsonView::Object(seq![
                ("tag"@, JsonView::Str("api"@)),
                ("services"@, JsonView::Array(seq![
                    JsonView::Str("StatsService"@),
                    JsonView::Str("HandlerService"@),
                    JsonView::Str("LoggerService"@),
                ])),
            ])),
            ("policy"@, JsonView::Object(seq![
                ("system"@, JsonView::Object(seq![
                    ("stats_inbound_uplink"@, JsonView::Bool(true)),
                    ("stats_inbound_downlink"@, JsonView::Bool(true)),
                    ("stats_outbound_uplink"@, JsonView::Bool(true)),
                    ("stats_outbound_downlink"@, JsonView::Bool(true)),
                ])),
                ("levels"@, default_levels_view()),
            ])),
            ("inbounds"@, JsonView::Array(Seq::empty())),
            ("outbounds"@, JsonView::Array(seq![
                JsonView::Object(seq![("tag"@, JsonView::Str("direct"@)), ("protocol"@, JsonView::Str("freedom"@))]),
                JsonView::Object(seq![
                    ("tag"@, JsonView::Str("blocked"@)),
                    ("protocol"@, JsonView::Str("blackhole"@)),
                    ("settings"@, JsonView::Object(Seq::empty())),
                ]),
            ])),
            ("routing"@, JsonView::Object(seq![
                ("domain_strategy"@, JsonView::Str("AsIs"@)),
                ("rules"@, JsonView::Array(seq![JsonView::Object(seq![
                    ("type"@, JsonView::Str("field"@)),
                    ("ip"@, JsonView::Array(seq![JsonView::Str("geoip:private"@)])),
                    ("outbound_tag"@, JsonView::Str("blocked"@)),
                ])])),
            ])),
        ],
    )
}

fn default_levels() -> (r: JsonValue)
    ensures
        r@ == default_levels_view(),
{
    let mut l: Vec<(String, JsonValue)> = Vec::new();
    push_member(&mut l, "handshake", JsonValue::Int(4));
    push_member(&mut l, "connIdle", JsonValue::Int(300));
    push_member(&mut l, "uplinkOnly", JsonValue::Int(2));
    push_member(&mut l, "downlinkOnly", JsonValue::Int(5));
    push_member(&mut l, "statsUserUplink", JsonValue::Bool(false));
    push_member(&mut l, "statsUserDownlink", JsonValue::Bool(false));
    push_member(&mut l, "bufferSize", JsonValue::Int(10240));
    assert(members_view(l@) =~= default_levels_view()->Object_0[0].1->Object_0);
    let mut m: Vec<(String, JsonValue)> = Vec::new();
    push_member(&mut m, "0", JsonValue::Object(l));
    assert(members_view(m@) =~= default_levels_view()->Object_0);
    JsonValue::Object(m)
}

fn one_string(s: &str) -> (r: Vec<String>)
    ensures
        r@.len() == 1,
        r@[0]@ == s@,
{
    let mut v: Vec<String> = Vec::new();
    v.push(owned(s));
    v
}

impl Default for XrayConfig {
    /// The configuration the panel starts from (see `default_config_view`).
    fn default() -> (r: XrayConfig)
        ensures
            config_view(r) == default_config_view(),
            r.inbounds@.len() == 0,
            r.log.access is None,
            r.log.error is None,
    {
        let mut services: Vec<String> = Vec::new();
        services.push(owned("StatsService"));
        services.push(owned("HandlerService"));
        services.push(owned("LoggerService"));
        let mut outbounds: Vec<OutboundConfig> = Vec::new();
        outbounds.push(OutboundConfig { tag: owned("direct"), protocol: owned("freedom"), settings: None });
        outbounds.push(OutboundConfig { tag: owned("blocked"), protocol: owned("blackhole"), settings: Some(empty_object()) });
        let mut rules: Vec<RoutingRule> = Vec::new();
        rules.push(RoutingRule {
            rule_type: owned("field"),
            ip: Some(one_string("geoip:private")),
            domain: None,
            outbound_tag: Some(owned("blocked")),
            inbound_tag: None,
        });
        let r = XrayConfig {
            log: LogConfig { loglevel: owned("warning"), access: None, error: None },
            stats: empty_object(),
            api: ApiConfig { tag: owned("api"), services },
            policy: PolicyConfig {
                system: SystemPolicy {
                    stats_inbound_uplink: true,
                    stats_inbound_downlink: true,
                    stats_outbound_uplink: true,
                    stats_outbound_downlink: true,
                },
                levels: default_levels(),
            },
            inbounds: Vec::new(),
            outbounds,
            routing: RoutingConfig { domain_strategy: owned("AsIs"), rules },
        };
        proof {
            assert(strings_view(r.api.services@) =~= seq![
                JsonView::Str("StatsService"@),
                JsonView::Str("HandlerService"@),
                JsonView::Str("LoggerService"@),
            ]);
            assert(strings_view(r.routing.rules@[0].ip->0@) =~= seq![JsonView::Str("geoip:private"@)]);
            assert(log_view(r.log) =~~= JsonView::Object(seq![("loglevel"@, JsonView::Str("warning"@))]));
            assert(opt_strings_member("ip"@, r.routing.rules@[0].ip) =~= seq![("ip"@, JsonView::Array(seq![JsonView::Str("geoip:private"@)]))]);
            assert(opt_str_member("outbound_tag"@, r.routing.rules@[0].outbound_tag) =~= seq![("outbound_tag"@, JsonView::Str("blocked"@))]);
            assert(rule_view(r.routing.rules@[0])->Object_0 =~= seq![
                ("type"@, JsonView::Str("field"@)),
                ("ip"@, JsonView::Array(seq![JsonView::Str("geoip:private"@)])),
                ("outbound_tag"@, JsonView::Str("blocked"@)),
            ]);
            assert(rule_view(r.routing.rules@[0]) =~~= JsonView::Object(seq![
                ("type"@, JsonView::Str("field"@)),
                ("ip"@, JsonView::Array(seq![JsonView::Str("geoip:private"@)])),
                ("outbound_tag"@, JsonView::Str("blocked"@)),
            ]));
            assert(outbound_view(r.outbounds@[0]) =~~= JsonView::Object(seq![("tag"@, JsonView::Str("direct"@)), ("protocol"@, JsonView::Str("freedom"@))]));
            assert(opt_json_member("settings"@, r.outbounds@[1].settings) =~= seq![("settings"@, JsonView::Object(Seq::empty()))]);
            assert(outbound_view(r.outbounds@[1])->Object_0 =~= seq![
                ("tag"@, JsonView::Str("blocked"@)),
                ("protocol"@, JsonView::Str("blackhole"@)),
                ("settings"@, JsonView::Object(Seq::empty())),
            ]);
            assert(outbound_view(r.outbounds@[1]) =~~= JsonView::Object(seq![
                ("tag"@, JsonView::Str("blocked"@)),
                ("protocol"@, JsonView::Str("blackhole"@)),
                ("settings"@, JsonView::Object(Seq::empty())),
            ]));
            assert(Seq::new(r.outbounds@.len(), |k: int| outbound_view(r.outbounds@[k])) =~~= seq![
                JsonView::Object(seq![("tag"@, JsonView::Str("direct"@)), ("protocol"@, JsonView::Str("freedom"@))]),
                JsonView::Object(seq![
                    ("tag"@, JsonView::Str("blocked"@)),
                    ("protocol"@, JsonView::Str("blackhole"@)),
                    ("settings"@, JsonView::Object(Seq::empty())),
                ]),
            ]);
            assert(Seq::new(r.inbounds@.len(), |k: int| inbound_view(r.inbounds@[k])) =~= Seq::<JsonView>::empty());
            assert(Seq::new(r.routing.rules@.len(), |k: int| rule_view(r.routing.rules@[k])) =~~= seq![JsonView::Object(seq![
                ("type"@, JsonView::Str("field"@)),
                ("ip"@, JsonView::Array(seq![JsonView::Str("geoip:private"@)])),
                ("outbound_tag"@, JsonView::Str("blocked"@)),
            ])]);
            assert(routing_view(r.routing)->Object_0 =~~= default_config_view()->Object_0[6].1->Object_0);
            assert(routing_view(r.routing) =~~= default_config_view()->Object_0[6].1);
            assert(config_view(r) =~~= default_config_view());
        }
        r
    }
}

// ---------------------------------------------------------------------------------------------
// Protocol settings
// ---------------------------------------------------------------------------------------------

/// A VMess user.
#[derive(Debug, Clone)]
pub struct VmessClient {
    pub id: String,
    pub alter_id: Option<i32>,
    pub email: Option<String>,
    pub level: Option<i32>,
}

/// A VLESS user.
#[derive(Debug, Clone)]
pub struct VlessClient {
    pub id: String,
    pub email: Option<String>,
    pub flow: Option<String>,
    pub level: Option<i32>,
}

/// A Trojan user.
#[derive(Debug, Clone)]
pub struct TrojanClient {
    pub password: String,
    pub email: Option<String>,
    pub level: Option<i32>,
}

/// A SOCKS account.
#[derive(Debug, Clone)]
pub struct SocksAccount {
    pub user: String,
    pub pass: String,
}

/// An HTTP proxy account.
#[derive(Debug, Clone)]
pub struct HttpAccount {
    pub user: String,
    pub pass: String,
}

/// A TLS certificate, by file or inline.
#[derive(Debug, Clone)]
pub struct TlsCertificate {
    pub certificate_file: Option<String>,
    pub key_file: Option<String>,
    pub certificate: Option<String>,
    pub key: Option<String>,
}

/// A VMess user object; absent fields are left out.
pub open spec fn vmess_client_view(c: VmessClient) -> JsonView {
    JsonView::Object(seq![("id"@, JsonView::Str(c.id@))] + opt_int_member("alter_id"@, c.alter_id) + opt_str_member(
        "email"@,
        c.email,
    ) + opt_int_member("level"@, c.level))
}

/// A VLESS user object; absent fields are left out.
pub open spec fn vless_client_view(c: VlessClient) -> JsonView {
    JsonView::Object(seq![("id"@, JsonView::Str(c.id@))] + opt_str_member("email"@, c.email) + opt_str_member(
        "flow"@,
        c.flow,
    ) + opt_int_member("level"@, c.level))
}

/// A Trojan user object; absent fields are left out.
pub open spec fn trojan_client_view(c: TrojanClient) -> JsonView {
    JsonView::Object(seq![("password"@, JsonView::Str(c.password@))] + opt_str_member("email"@, c.email)
        + opt_int_member("level"@, c.level))
}

/// An account object.
pub open spec fn account_view(user: Seq<char>, pass: Seq<char>) -> JsonView {
    JsonView::Object(seq![("user"@, JsonView::Str(user)), ("pass"@, JsonView::Str(pass))])
}

/// A certificate object; absent fields are left out.
pub open spec fn certificate_view(c: TlsCertificate) -> JsonView {
    JsonView::Object(opt_str_member("certificate_file"@, c.certificate_file) + opt_str_member("key_file"@, c.key_file)
        + opt_str_member("certificate"@, c.certificate) + opt_str_member("key"@, c.key))
}

fn vmess_client_json(c: &VmessClient) -> (r: JsonValue)
    ensures
        r@ == vmess_client_view(*c),
{
    let mut m: Vec<(String, JsonValue)> = Vec::new();
    push_member(&mut m, "id", string(c.id.as_str()));
    push_opt_int(&mut m, "alter_id", c.alter_id);
    push_opt_str(&mut m, "email", &c.email);
    push_opt_int(&mut m, "level", c.level);
    assert(members_view(m@) =~= vmess_client_view(*c)->Object_0);
    JsonValue::Object(m)
}

fn vless_client_json(c: &VlessClient) -> (r: JsonValue)
    ensures
        r@ == vless_client_view(*c),
{
    let mut m: Vec<(String, JsonValue)> = Vec::new();
    push_member(&mut m, "id", string(c.id.as_str()));
    push_opt_str(&mut m, "email", &c.email);
    push_opt_str(&mut m, "flow", &c.flow);
    push_opt_int(&mut m, "level", c.level);
    assert(members_view(m@) =~= vless_client_view(*c)->Object_0);
    JsonValue::Object(m)
}

fn trojan_client_json(c: &TrojanClient) -> (r: JsonValue)
    ensures
        r@ == trojan_client_view(*c),
{
    let mut m: Vec<(String, JsonValue)> = Vec::new();
    push_member(&mut m, "password", string(c.password.as_str()));
    push_opt_str(&mut m, "email", &c.email);
    push_opt_int(&mut m, "level", c.level);
    assert(members_view(m@) =~= trojan_client_view(*c)->Object_0);
    JsonValue::Object(m)
}

fn account_json(user: &str, pass: &str) -> (r: JsonValue)
    ensures
        r@ == account_view(user@, pass@),
{
    let mut m: Vec<(String, JsonValue)> = Vec::new();
    push_member(&mut m, "user", string(user));
    push_member(&mut m, "pass", string(pass));
    assert(members_view(m@) =~= account_view(user@, pass@)->Object_0);
    JsonValue::Object(m)
}

fn certificate_json(c: &TlsCertificate) -> (r: JsonValue)
    ensures
        r@ == certificate_view(*c),
{
    let mut m: Vec<(String, JsonValue)> = Vec::new();
    assert(members_view(m@) =~= Seq::<(Seq<char>, JsonView)>::empty());
    push_opt_str(&mut m, "certificate_file", &c.certificate_file);
    push_opt_str(&mut m, "key_file", &c.key_file);
    push_opt_str(&mut m, "certificate", &c.certificate);
    push_opt_str(&mut m, "key", &c.key);
    assert(members_view(m@) =~= certificate_view(*c)->Object_0);
    JsonValue::Object(m)
}

/// An object with one array member.
fn wrap_array(key: &str, items: Vec<JsonValue>) -> (r: JsonValue)
    ensures
        r@ == JsonView::Object(seq![(key@, JsonView::Array(items_view(items@)))]),
{
    let mut m: Vec<(String, JsonValue)> = Vec::new();
    push_member(&mut m, key, JsonValue::Array(items));
    assert(members_view(m@) =~= seq![(key@, JsonView::Array(items_view(items@)))]);
    JsonValue::Object(m)
}

/// Builders of the `settings` object of each inbound protocol.
pub struct ProtocolSettings;

impl ProtocolSettings {
    /// `{"clients": [...]}` for VMess.
    pub fn vmess_clients(clients: Vec<VmessClient>) -> (r: JsonValue)
        ensures
            r@ == JsonView::Object(seq![("clients"@, JsonView::Array(Seq::new(clients@.len(), |k: int| vmess_client_view(clients@[k]))))]),
    {
        let mut items: Vec<JsonValue> = Vec::new();
        let mut i: usize = 0;
        assert(items_view(items@) =~= Seq::<JsonView>::empty());
        while i < clients.len()
            invariant
                i <= clients.len(),
                items_view(items@) == Seq::new(i as nat, |k: int| vmess_client_view(clients@[k])),
            decreases clients.len() - i,
        {
            push_item(&mut items, vmess_client_json(&clients[i]));
            assert(items_view(items@) =~= Seq::new((i + 1) as nat, |k: int| vmess_client_view(clients@[k])));
            i = i + 1;
        }
        wrap_array("clients", items)
    }

    /// `{"clients": [...], "decryption": ...}` for VLESS.
    pub fn vless_clients(clients: Vec<VlessClient>, decryption: &str) -> (r: JsonValue)
        ensures
            r@ == JsonView::Object(seq![
                ("clients"@, JsonView::Array(Seq::new(clients@.len(), |k: int| vless_client_view(clients@[k])))),
                ("decryption"@, JsonView::Str(decryption@)),
            ]),
    {
        let mut items: Vec<JsonValue> = Vec::new();
        let mut i: usize = 0;
        assert(items_view(items@) =~= Seq::<JsonView>::empty());
        while i < clients.len()
            invariant
                i <= clients.len(),
                items_view(items@) == Seq::new(i as nat, |k: int| vless_client_view(clients@[k])),
            decreases clients.len() - i,
        {
            push_item(&mut items, vless_client_json(&clients[i]));
            assert(items_view(items@) =~= Seq::new((i + 1) as nat, |k: int| vless_client_view(clients@[k])));
            i = i + 1;
        }
        let mut m: Vec<(String, JsonValue)> = Vec::new();
        push_member(&mut m, "clients", JsonValue::Array(items));
        push_member(&mut m, "decryption", string(decryption));
        assert(members_view(m@) =~= seq![
            ("clients"@, JsonView::Array(Seq::new(clients@.len(), |k: int| vless_client_view(clients@[k])))),
            ("decryption"@, JsonView::Str(decryption@)),
        ]);
        JsonValue::Object(m)
    }

    /// `{"clients": [...]}` for Trojan.
    pub fn trojan_clients(clients: Vec<TrojanClient>) -> (r: JsonValue)
        ensures
            r@ == JsonView::Object(seq![("clients"@, JsonView::Array(Seq::new(clients@.len(), |k: int| trojan_client_view(clients@[k]))))]),
    {
        let mut items: Vec<JsonValue> = Vec::new();
        let mut i: usize = 0;
        assert(items_view(items@) =~= Seq::<JsonView>::empty());
        while i < clients.len()
            invariant
                i <= clients.len(),
                items_view(items@) == Seq::new(i as nat, |k: int| trojan_client_view(clients@[k])),
            decreases clients.len() - i,
        {
            push_item(&mut items, trojan_client_json(&clients[i]));
            assert(items_view(items@) =~= Seq::new((i + 1) as nat, |k: int| trojan_client_view(clients@[k])));
            i = i + 1;
        }
        wrap_array("clients", items)
    }

    /// `{"method": ..., "password": ..., "network": ...}` for Shadowsocks.
    pub fn shadowsocks(method: &str, password: &str, network: &str) -> (r: JsonValue)
        ensures
            r@ == JsonView::Object(seq![
                ("method"@, JsonView::Str(method@)),
                ("password"@, JsonView::Str(password@)),
                ("network"@, JsonView::Str(network@)),
            ]),
    {
        let mut m: Vec<(String, JsonValue)> = Vec::new();
        push_member(&mut m, "method", string(method));
        push_member(&mut m, "password", string(password));
        push_member(&mut m, "network", string(network));
        assert(members_view(m@) =~= seq![
            ("method"@, JsonView::Str(method@)),
            ("password"@, JsonView::Str(password@)),
            ("network"@, JsonView::Str(network@)),
        ]);
        JsonValue::Object(m)
    }

    /// `{"auth": ..., "accounts": [...], "udp": ...}` for SOCKS.
    pub fn socks(auth: &str, accounts: Vec<SocksAccount>, udp: bool) -> (r: JsonValue)
        ensures
            r@ == JsonView::Object(seq![
                ("auth"@, JsonView::Str(auth@)),
                ("accounts"@, JsonView::Array(Seq::new(accounts@.len(), |k: int| account_view(accounts@[k].user@, accounts@[k].pass@)))),
                ("udp"@, JsonView::Bool(udp)),
            ]),
    {
        let mut items: Vec<JsonValue> = Vec::new();
        let mut i: usize = 0;
        assert(items_view(items@) =~= Seq::<JsonView>::empty());
        while i < accounts.len()
            invariant
                i <= accounts.len(),
                items_view(items@) == Seq::new(i as nat, |k: int| account_view(accounts@[k].user@, accounts@[k].pass@)),
            decreases accounts.len() - i,
        {
            push_item(&mut items, account_json(accounts[i].user.as_str(), accounts[i].pass.as_str()));
            assert(items_view(items@) =~= Seq::new((i + 1) as nat, |k: int| account_view(accounts@[k].user@, accounts@[k].pass@)));
            i = i + 1;
        }
        let mut m: Vec<(String, JsonValue)> = Vec::new();
        push_member(&mut m, "auth", string(auth));
        push_member(&mut m, "accounts", JsonValue::Array(items));
        push_member(&mut m, "udp", JsonValue::Bool(udp));
        assert(members_view(m@) =~= seq![
            ("auth"@, JsonView::Str(auth@)),
            ("accounts"@, JsonView::Array(Seq::new(accounts@.len(), |k: int| account_view(accounts@[k].user@, accounts@[k].pass@)))),
            ("udp"@, JsonView::Bool(udp)),
        ]);
        JsonValue::Object(m)
    }

    /// `{"accounts": [...]}` for an HTTP proxy.
    pub fn http(accounts: Vec<HttpAccount>) -> (r: JsonValue)
        ensures
            r@ == JsonView::Object(seq![("accounts"@, JsonView::Array(Seq::new(accounts@.len(), |k: int| account_view(accounts@[k].user@, accounts@[k].pass@))))]),
    {
        let mut items: Vec<JsonValue> = Vec::new();
        let mut i: usize = 0;
        assert(items_view(items@) =~= Seq::<JsonView>::empty());
        while i < accounts.len()
            invariant
                i <= accounts.len(),
                items_view(items@) == Seq::new(i as nat, |k: int| account_view(accounts@[k].user@, accounts@[k].pass@)),
            decreases accounts.len() - i,
        {
            push_item(&mut items, account_json(accounts[i].user.as_str(), accounts[i].pass.as_str()));
            assert(items_view(items@) =~= Seq::new((i + 1) as nat, |k: int| account_view(accounts@[k].user@, accounts@[k].pass@)));
            i = i + 1;
        }
        wrap_array("accounts", items)
    }
}

// ---------------------------------------------------------------------------------------------
// Stream settings
// ---------------------------------------------------------------------------------------------

/// The text of an optional string slice.
pub open spec fn opt_str_view(o: Option<&str>) -> Option<Seq<char>> {
    match o {
        Some(s) => Some(s@),
        None => None,
    }
}

/// The JSON strings of a list of string slices.
pub open spec fn slice_strings_view(s: Seq<&str>) -> Seq<JsonView> {
    Seq::new(s.len(), |i: int| JsonView::Str(s[i]@))
}

/// `{"Host": [host]}`.
pub open spec fn host_headers_view(host: Seq<char>) -> JsonView {
    JsonView::Object(seq![("Host"@, JsonView::Array(seq![JsonView::Str(host)]))])
}

/// The TCP header object: an HTTP header with a host (and a path when given) when the type is
/// `http` and a host is given, otherwise `{"type": "none"}`.
pub open spec fn tcp_header_view(header_type: Option<Seq<char>>, host: Option<Seq<char>>, path: Option<Seq<char>>) -> JsonView {
    if header_type == Some("http"@) && host is Some {
        JsonView::Object(seq![
            ("type"@, JsonView::Str("http"@)),
            ("request"@, JsonView::Object(seq![("headers"@, host_headers_view(host->0))] + match path {
                Some(p) => seq![("path"@, JsonView::Str(p))],
                None => Seq::empty(),
            })),
        ])
    } else {
        JsonView::Object(seq![("type"@, JsonView::Str("none"@))])
    }
}

/// A JSON array of string slices.
fn slice_array(items: &[&str]) -> (r: JsonValue)
    ensures
        r@ == JsonView::Array(slice_strings_view(items@)),
{
    let mut out: Vec<JsonValue> = Vec::new();
    let mut i: usize = 0;
    assert(items_view(out@) =~= Seq::<JsonView>::empty());
    while i < items.len()
        invariant
            i <= items.len(),
            items_view(out@) == slice_strings_view(items@.take(i as int)),
        decreases items.len() - i,
    {
        push_item(&mut out, string(items[i]));
        assert(slice_strings_view(items@.take(i + 1)) =~= slice_strings_view(items@.take(i as int)).push(JsonView::Str(items@[i as int]@)));
        i = i + 1;
    }
    assert(items@.take(i as int) =~= items@);
    JsonValue::Array(out)
}

fn host_headers(host: &str) -> (r: JsonValue)
    ensures
        r@ == host_headers_view(host@),
{
    let mut hosts: Vec<JsonValue> = Vec::new();
    push_item(&mut hosts, string(host));
    assert(items_view(hosts@) =~= seq![JsonView::Str(host@)]);
    let mut m: Vec<(String, JsonValue)> = Vec::new();
    push_member(&mut m, "Host", JsonValue::Array(hosts));
    assert(members_view(m@) =~= host_headers_view(host@)->Object_0);
    JsonValue::Object(m)
}

/// Builders of the transport and security parts of `streamSettings`.
pub struct StreamSettings;

impl StreamSettings {
    /// Plain TCP, optionally disguised with an HTTP header.
    pub fn tcp(header_type: Option<&str>, host: Option<&str>, path: Option<&str>) -> (r: JsonValue)
        ensures
            r@ == JsonView::Object(seq![
                ("network"@, JsonView::Str("tcp"@)),
                ("tcpSettings"@, JsonView::Object(seq![("header"@, tcp_header_view(opt_str_view(header_type), opt_str_view(host), opt_str_view(path)))])),
            ]),
    {
        let is_http = match header_type {
            Some(t) => str_eq(t, "http"),
            None => false,
        };
        let header = if is_http && host.is_some() {
            let mut req: Vec<(String, JsonValue)> = Vec::new();
            push_member(&mut req, "headers", host_headers(host.unwrap()));
            match path {
                Some(p) => push_member(&mut req, "path", string(p)),
                None => {},
            }
            assert(members_view(req@) =~= seq![("headers"@, host_headers_view(host.unwrap()@))] + match opt_str_view(path) {
                Some(p) => seq![("path"@, JsonView::Str(p))],
                None => Seq::<(Seq<char>, JsonView)>::empty(),
            });
            let mut m: Vec<(String, JsonValue)> = Vec::new();
            push_member(&mut m, "type", string("http"));
            push_member(&mut m, "request", JsonValue::Object(req));
            assert(members_view(m@) =~= tcp_header_view(opt_str_view(header_type), opt_str_view(host), opt_str_view(path))->Object_0);
            JsonValue::Object(m)
        } else {
            let mut m: Vec<(String, JsonValue)> = Vec::new();
            push_member(&mut m, "type", string("none"));
            assert(members_view(m@) =~= tcp_header_view(opt_str_view(header_type), opt_str_view(host), opt_str_view(path))->Object_0);
            JsonValue::Object(m)
        };
        let mut ts: Vec<(String, JsonValue)> = Vec::new();
        push_member(&mut ts, "header", header);
        assert(members_view(ts@) =~= seq![("header"@, header@)]);
        let mut m: Vec<(String, JsonValue)> = Vec::new();
        push_member(&mut m, "network", string("tcp"));
        push_member(&mut m, "tcpSettings", JsonValue::Object(ts));
        assert(members_view(m@) =~= seq![("network"@, JsonView::Str("tcp"@)), ("tcpSettings"@, JsonView::Object(seq![("header"@, header@)]))]);
        JsonValue::Object(m)
    }

    /// WebSocket on a path, with a `Host` header when a host is given.
    pub fn websocket(path: &str, host: Option<&str>) -> (r: JsonValue)
        ensures
            r@ == JsonView::Object(seq![
                ("network"@, JsonView::Str("ws"@)),
                ("wsSettings"@, JsonView::Object(seq![
                    ("path"@, JsonView::Str(path@)),
                    ("headers"@, match opt_str_view(host) {
                        Some(h) => host_headers_view(h),
                        None => JsonView::Object(Seq::empty()),
                    }),
                ])),
            ]),
    {
        let headers = match host {
            Some(h) => host_headers(h),
            None => empty_object(),
        };
        assert(headers@ == match opt_str_view(host) {
            Some(h) => host_headers_view(h),
            None => JsonView::Object(Seq::empty()),
        });
        let mut ws: Vec<(String, JsonValue)> = Vec::new();
        push_member(&mut ws, "path", string(path));
        push_member(&mut ws, "headers", headers);
        let ghost inner = seq![
            ("path"@, JsonView::Str(path@)),
            ("headers"@, match opt_str_view(host) {
                Some(h) => host_headers_view(h),
                None => JsonView::Object(Seq::empty()),
            }),
        ];
        assert(members_view(ws@) =~= inner);
        let mut m: Vec<(String, JsonValue)> = Vec::new();
        push_member(&mut m, "network", string("ws"));
        push_member(&mut m, "wsSettings", JsonValue::Object(ws));
        assert(members_view(m@) =~= seq![("network"@, JsonView::Str("ws"@)), ("wsSettings"@, JsonView::Object(inner))]);
        JsonValue::Object(m)
    }

    /// HTTP/2 on a path for the given hosts.
    pub fn http2(path: &str, host: &[&str]) -> (r: JsonValue)
        ensures
            r@ == JsonView::Object(seq![
                ("network"@, JsonView::Str("http"@)),
                ("httpSettings"@, JsonView::Object(seq![
                    ("path"@, JsonView::Str(path@)),
                    ("host"@, JsonView::Array(slice_strings_view(host@))),
                ])),
            ]),
    {
        let mut hs: Vec<(String, JsonValue)> = Vec::new();
        push_member(&mut hs, "path", string(path));
        push_member(&mut hs, "host", slice_array(host));
        assert(members_view(hs@) =~= seq![("path"@, JsonView::Str(path@)), ("host"@, JsonView::Array(slice_strings_view(host@)))]);
        let mut m: Vec<(String, JsonValue)> = Vec::new();
        push_member(&mut m, "network", string("http"));
        push_member(&mut m, "httpSettings", JsonValue::Object(hs));
        assert(members_view(m@) =~= seq![("network"@, JsonView::Str("http"@)), ("httpSettings"@, JsonView::Object(members_view(hs@)))]);
        JsonValue::Object(m)
    }

    /// gRPC with a service name.
    pub fn grpc(service_name: &str, multi_mode: bool) -> (r: JsonValue)
        ensures
            r@ == JsonView::Object(seq![
                ("network"@, JsonView::Str("grpc"@)),
                ("grpcSettings"@, JsonView::Object(seq![
                    ("serviceName"@, JsonView::Str(service_name@)),
                    ("multiMode"@, JsonView::Bool(multi_mode)),
                ])),
            ]),
    {
        let mut gs: Vec<(String, JsonValue)> = Vec::new();
        push_member(&mut gs, "serviceName", string(service_name));
        push_member(&mut gs, "multiMode", JsonValue::Bool(multi_mode));
        assert(members_view(gs@) =~= seq![("serviceName"@, JsonView::Str(service_name@)), ("multiMode"@, JsonView::Bool(multi_mode))]);
        let mut m: Vec<(String, JsonValue)> = Vec::new();
        push_member(&mut m, "network", string("grpc"));
        push_member(&mut m, "grpcSettings", JsonValue::Object(gs));
        assert(members_view(m@) =~= seq![("network"@, JsonView::Str("grpc"@)), ("grpcSettings"@, JsonView::Object(members_view(gs@)))]);
        JsonValue::Object(m)
    }

    /// TLS with a server name and certificates; unknown SNI is rejected.
    pub fn tls(server_name: &str, certificates: Vec<TlsCertificate>) -> (r: JsonValue)
        ensures
            r@ == JsonView::Object(seq![
                ("security"@, JsonView::Str("tls"@)),
                ("tlsSettings"@, JsonView::Object(seq![
                    ("serverName"@, JsonView::Str(server_name@)),
                    ("certificates"@, JsonView::Array(Seq::new(certificates@.len(), |k: int| certificate_view(certificates@[k])))),
                    ("rejectUnknownSni"@, JsonView::Bool(true)),
                ])),
            ]),
    {
        let mut items: Vec<JsonValue> = Vec::new();
        let mut i: usize = 0;
        assert(items_view(items@) =~= Seq::<JsonView>::empty());
        while i < certificates.len()
            invariant
                i <= certificates.len(),
                items_view(items@) == Seq::new(i as nat, |k: int| certificate_view(certificates@[k])),
            decreases certificates.len() - i,
        {
            push_item(&mut items, certificate_json(&certificates[i]));
            assert(items_view(items@) =~= Seq::new((i + 1) as nat, |k: int| certificate_view(certificates@[k])));
            i = i + 1;
        }
        let mut ts: Vec<(String, JsonValue)> = Vec::new();
        push_member(&mut ts, "serverName", string(server_name));
        push_member(&mut ts, "certificates", JsonValue::Array(items));
        push_member(&mut ts, "rejectUnknownSni", JsonValue::Bool(true));
        assert(members_view(ts@) =~= seq![
            ("serverName"@, JsonView::Str(server_name@)),
            ("certificates"@, JsonView::Array(Seq::new(certificates@.len(), |k: int| certificate_view(certificates@[k])))),
            ("rejectUnknownSni"@, JsonView::Bool(true)),
        ]);
        let mut m: Vec<(String, JsonValue)> = Vec::new();
        push_member(&mut m, "security", string("tls"));
        push_member(&mut m, "tlsSettings", JsonValue::Object(ts));
        assert(members_view(m@) =~= seq![("security"@, JsonView::Str("tls"@)), ("tlsSettings"@, JsonView::Object(members_view(ts@)))]);
        JsonValue::Object(m)
    }

    /// REALITY with its target, server names, private key and short ids.
    pub fn reality(show: bool, dest: &str, server_names: &[&str], private_key: &str, short_ids: &[&str]) -> (r: JsonValue)
        ensures
            r@ == JsonView::Object(seq![
                ("security"@, JsonView::Str("reality"@)),
                ("realitySettings"@, JsonView::Object(seq![
                    ("show"@, JsonView::Bool(show)),
                    ("dest"@, JsonView::Str(dest@)),
                    ("serverNames"@, JsonView::Array(slice_strings_view(server_names@))),
                    ("privateKey"@, JsonView::Str(private_key@)),
                    ("shortIds"@, JsonView::Array(slice_strings_view(short_ids@))),
                ])),
            ]),
    {
        let mut rs: Vec<(String, JsonValue)> = Vec::new();
        push_member(&mut rs, "show", JsonValue::Bool(show));
        push_member(&mut rs, "dest", string(dest));
        push_member(&mut rs, "serverNames", slice_array(server_names));
        push_member(&mut rs, "privateKey", string(private_key));
        push_member(&mut rs, "shortIds", slice_array(short_ids));
        assert(members_view(rs@) =~= seq![
            ("show"@, JsonView::Bool(show)),
            ("dest"@, JsonView::Str(dest@)),
            ("serverNames"@, JsonView::Array(slice_strings_view(server_names@))),
            ("privateKey"@, JsonView::Str(private_key@)),
            ("shortIds"@, JsonView::Array(slice_strings_view(short_ids@))),
        ]);
        let mut m: Vec<(String, JsonValue)> = Vec::new();
        push_member(&mut m, "security", string("reality"));
        push_member(&mut m, "realitySettings", JsonValue::Object(rs));
        assert(members_view(m@) =~= seq![("security"@, JsonView::Str("reality"@)), ("realitySettings"@, JsonView::Object(members_view(rs@)))]);
        JsonValue::Object(m)
    }
}

/// The inbounds whose tag differs from `tag`, in order.
pub open spec fn without_tag(s: Seq<InboundConfig>, tag: Seq<char>) -> Seq<InboundConfig>
    decreases s.len(),
{
    if s.len() == 0 {
        Seq::empty()
    } else if s.last().tag@ == tag {
        without_tag(s.drop_last(), tag)
    } else {
        without_tag(s.drop_last(), tag).push(s.last())
    }
}

/// `without_tag` removes exactly the inbounds with the tag: none left has it, every inbound
/// with another tag is kept, and nothing is added.
pub proof fn lemma_without_tag(s: Seq<InboundConfig>, tag: Seq<char>)
    ensures
        forall|i: int| 0 <= i < without_tag(s, tag).len() ==> #[trigger] without_tag(s, tag)[i].tag@ != tag,
        without_tag(s, tag).len() <= s.len(),
        forall|j: int| 0 <= j < s.len() && (#[trigger] s[j]).tag@ != tag ==> without_tag(s, tag).contains(s[j]),
        forall|i: int| 0 <= i < without_tag(s, tag).len() ==> s.contains(#[trigger] without_tag(s, tag)[i]),
    decreases s.len(),
{
    if s.len() > 0 {
        let rest = s.drop_last();
        lemma_without_tag(rest, tag);
        let w = without_tag(s, tag);
        let q = without_tag(rest, tag);
        assert forall|j: int| 0 <= j < s.len() && (#[trigger] s[j]).tag@ != tag implies w.contains(s[j]) by {
            if j < s.len() - 1 {
                assert(rest[j] == s[j]);
                let k = choose|k: int| 0 <= k < q.len() && q[k] == rest[j];
                assert(w[k] == q[k]);
            } else {
                assert(w[w.len() - 1] == s[j]);
            }
        }
        assert forall|i: int| 0 <= i < w.len() implies s.contains(#[trigger] w[i]) by {
            if i < q.len() {
                assert(w[i] == q[i]);
                let k = choose|k: int| 0 <= k < rest.len() && rest[k] == q[i];
                assert(s[k] == rest[k]);
            } else {
                assert(w[i] == s[s.len() - 1]);
            }
        }
    }
}

proof fn lemma_lookup_one(key: Seq<char>, v: JsonView, other: Seq<char>)
    ensures
        crate::json::member_lookup(seq![(key, v)], key) == Some(v),
        other != key ==> crate::json::member_lookup(seq![(key, v)], other) is None,
        crate::json::member_lookup(Seq::<(Seq<char>, JsonView)>::empty(), other) is None,
{
    reveal_with_fuel(crate::json::member_lookup, 2);
    assert(seq![(key, v)].subrange(1, 1) =~= Seq::<(Seq<char>, JsonView)>::empty());
}

/// A VLESS user object carries the user's id under `id`, and its email, flow and level under
/// `email`, `flow` and `level` when they are given, leaving them out otherwise.
pub proof fn lemma_vless_client_fields(c: VlessClient)
    ensures
        vless_client_view(c).get("id"@) == Some(JsonView::Str(c.id@)),
        vless_client_view(c).get("email"@) == (match c.email { Some(e) => Some(JsonView::Str(e@)), None => None }),
        vless_client_view(c).get("flow"@) == (match c.flow { Some(f) => Some(JsonView::Str(f@)), None => None }),
        vless_client_view(c).get("level"@) == (match c.level { Some(l) => Some(JsonView::Int(l as int)), None => None }),
{
    reveal_strlit("id");
    reveal_strlit("email");
    reveal_strlit("flow");
    reveal_strlit("level");
    assert("id"@.len() == 2 && "email"@.len() == 5 && "flow"@.len() == 4 && "level"@.len() == 5);
    assert("email"@[0] != "level"@[0]);
    let a = seq![("id"@, JsonView::Str(c.id@))];
    let e = opt_str_member("email"@, c.email);
    let f = opt_str_member("flow"@, c.flow);
    let l = opt_int_member("level"@, c.level);
    assert(vless_client_view(c) == JsonView::Object(a + e + f + l));
    let keys = seq!["id"@, "email"@, "flow"@, "level"@];
    assert forall|k: int| 0 <= k < 4 implies {
        let key = #[trigger] keys[k];
        crate::json::member_lookup(a + e + f + l, key) == (match crate::json::member_lookup(a, key) {
            Some(v) => Some(v),
            None => match crate::json::member_lookup(e, key) {
                Some(v) => Some(v),
                None => match crate::json::member_lookup(f, key) {
                    Some(v) => Some(v),
                    None => crate::json::member_lookup(l, key),
                },
            },
        })
    } by {
        let key = keys[k];
        crate::json::lemma_lookup_concat(a + e + f, l, key);
        crate::json::lemma_lookup_concat(a + e, f, key);
        crate::json::lemma_lookup_concat(a, e, key);
    }
    assert(keys[0] == "id"@ && keys[1] == "email"@ && keys[2] == "flow"@ && keys[3] == "level"@);
    assert forall|k: int| 0 <= k < 4 implies {
        let key = #[trigger] keys[k];
        &&& crate::json::member_lookup(a, key) == (if key == "id"@ { Some(JsonView::Str(c.id@)) } else { None })
        &&& crate::json::member_lookup(e, key) == (if key == "email"@ { match c.email { Some(x) => Some(JsonView::Str(x@)), None => None } } else { None })
        &&& crate::json::member_lookup(f, key) == (if key == "flow"@ { match c.flow { Some(x) => Some(JsonView::Str(x@)), None => None } } else { None })
        &&& crate::json::member_lookup(l, key) == (if key == "level"@ { match c.level { Some(x) => Some(JsonView::Int(x as int)), None => None } } else { None })
    } by {
        let key = keys[k];
        lemma_lookup_one("id"@, JsonView::Str(c.id@), key);
        match c.email {
            Some(x) => lemma_lookup_one("email"@, JsonView::Str(x@), key),
            None => lemma_lookup_one("id"@, JsonView::Str(c.id@), key),
        }
        match c.flow {
            Some(x) => lemma_lookup_one("flow"@, JsonView::Str(x@), key),
            None => {},
        }
        match c.level {
            Some(x) => lemma_lookup_one("level"@, JsonView::Int(x as int), key),
            None => {},
        }
    }
}

/// A VMess user object carries the user's id under `id`, and its alter id, email and level
/// under `alter_id`, `email` and `level` when they are given, leaving them out otherwise.
pub proof fn lemma_vmess_client_fields(c: VmessClient)
    ensures
        vmess_client_view(c).get("id"@) == Some(JsonView::Str(c.id@)),
        vmess_client_view(c).get("alter_id"@) == (match c.alter_id { Some(x) => Some(JsonView::Int(x as int)), None => None }),
        vmess_client_view(c).get("email"@) == (match c.email { Some(x) => Some(JsonView::Str(x@)), None => None }),
        vmess_client_view(c).get("level"@) == (match c.level { Some(x) => Some(JsonView::Int(x as int)), None => None }),
{
    reveal_strlit("id");
    reveal_strlit("alter_id");
    reveal_strlit("email");
    reveal_strlit("level");
    assert("id"@.len() == 2 && "alter_id"@.len() == 8 && "email"@.len() == 5 && "level"@.len() == 5);
    assert("email"@[0] != "level"@[0]);
    let a = seq![("id"@, JsonView::Str(c.id@))];
    let p0 = opt_int_member("alter_id"@, c.alter_id);
    let p1 = opt_str_member("email"@, c.email);
    let p2 = opt_int_member("level"@, c.level);
    assert(vmess_client_view(c) == JsonView::Object(a + p0 + p1 + p2));
    let keys = seq!["id"@, "alter_id"@, "email"@, "level"@];
    assert(keys[0] == "id"@ && keys[1] == "alter_id"@ && keys[2] == "email"@ && keys[3] == "level"@);
    assert forall|k: int| 0 <= k < 4 implies {
        let key = #[trigger] keys[k];
        crate::json::member_lookup(a + p0 + p1 + p2, key) == (match crate::json::member_lookup(a, key) { Some(v) => Some(v), None => match crate::json::member_lookup(p0, key) { Some(v) => Some(v), None => match crate::json::member_lookup(p1, key) { Some(v) => Some(v), None => crate::json::member_lookup(p2, key) } } })
    } by {
        let key = keys[k];
        crate::json::lemma_lookup_concat(a + p0 + p1, p2, key);
        crate::json::lemma_lookup_concat(a + p0, p1, key);
        crate::json::lemma_lookup_concat(a, p0, key);
    }
    assert forall|k: int| 0 <= k < 4 implies {
        let key = #[trigger] keys[k];
        &&& crate::json::member_lookup(a, key) == (if key == "id"@ { Some(JsonView::Str(c.id@)) } else { None })
        &&& crate::json::member_lookup(p0, key) == (if key == "alter_id"@ { match c.alter_id { Some(x) => Some(JsonView::Int(x as int)), None => None } } else { None })
        &&& crate::json::member_lookup(p1, key) == (if key == "email"@ { match c.email { Some(x) => Some(JsonView::Str(x@)), None => None } } else { None })
        &&& crate::json::member_lookup(p2, key) == (if key == "level"@ { match c.level { Some(x) => Some(JsonView::Int(x as int)), None => None } } else { None })
    } by {
        let key = keys[k];
        lemma_lookup_one("id"@, JsonView::Str(c.id@), key);
        match c.alter_id {
            Some(x) => lemma_lookup_one("alter_id"@, JsonView::Int(x as int), key),
            None => {},
        }
        match c.email {
            Some(x) => lemma_lookup_one("email"@, JsonView::Str(x@), key),
            None => {},
        }
        match c.level {
            Some(x) => lemma_lookup_one("level"@, JsonView::Int(x as int), key),
            None => {},
        }
    }
}

/// A Trojan user object carries the user's password under `password`, and its email and level
/// under `email` and `level` when they are given, leaving them out otherwise.
pub proof fn lemma_trojan_client_fields(c: TrojanClient)
    ensures
        trojan_client_view(c).get("password"@) == Some(JsonView::Str(c.password@)),
        trojan_client_view(c).get("email"@) == (match c.email { Some(x) => Some(JsonView::Str(x@)), None => None }),
        trojan_client_view(c).get("level"@) == (match c.level { Some(x) => Some(JsonView::Int(x as int)), None => None }),
{
    reveal_strlit("password");
    reveal_strlit("email");
    reveal_strlit("level");
    assert("password"@.len() == 8 && "email"@.len() == 5 && "level"@.len() == 5);
    assert("email"@[0] != "level"@[0]);
    let a = seq![("password"@, JsonView::Str(c.password@))];
    let p0 = opt_str_member("email"@, c.email);
    let p1 = opt_int_member("level"@, c.level);
    assert(trojan_client_view(c) == JsonView::Object(a + p0 + p1));
    let keys = seq!["password"@, "email"@, "level"@];
    assert(keys[0] == "password"@ && keys[1] == "email"@ && keys[2] == "level"@);
    assert forall|k: int| 0 <= k < 3 implies {
        let key = #[trigger] keys[k];
        crate::json::member_lookup(a + p0 + p1, key) == (match crate::json::member_lookup(a, key) { Some(v) => Some(v), None => match crate::json::member_lookup(p0, key) { Some(v) => Some(v), None => crate::json::member_lookup(p1, key) } })
    } by {
        let key = keys[k];
        crate::json::lemma_lookup_concat(a + p0, p1, key);
        crate::json::lemma_lookup_concat(a, p0, key);
    }
    assert forall|k: int| 0 <= k < 3 implies {
        let key = #[trigger] keys[k];
        &&& crate::json::member_lookup(a, key) == (if key == "password"@ { Some(JsonView::Str(c.password@)) } else { None })
        &&& crate::json::member_lookup(p0, key) == (if key == "email"@ { match c.email { Some(x) => Some(JsonView::Str(x@)), None => None } } else { None })
        &&& crate::json::member_lookup(p1, key) == (if key == "level"@ { match c.level { Some(x) => Some(JsonView::Int(x as int)), None => None } } else { None })
    } by {
        let key = keys[k];
        lemma_lookup_one("password"@, JsonView::Str(c.password@), key);
        match c.email {
            Some(x) => lemma_lookup_one("email"@, JsonView::Str(x@), key),
            None => {},
        }
        match c.level {
            Some(x) => lemma_lookup_one("level"@, JsonView::Int(x as int), key),
            None => {},
        }
    }
}

} // verus!
