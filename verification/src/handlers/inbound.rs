//! Inbound endpoints: the statements that create, update and delete inbounds and clients, and
//! the inbound list handed to the core when its configuration is regenerated.
use vstd::prelude::*;
use crate::json::{empty_object, parse, JsonValue, JsonView};
use crate::models::inbound::{CreateInboundRequest, UpdateInboundRequest};
use crate::services::xray::{InboundConfig, SniffingConfig};
use crate::text::{join, joined, owned, push_str, views};

pub use crate::models::inbound::{Inbound, InboundStats};

verus! {

/// Request to add a client to an inbound.
#[derive(Debug)]
pub struct AddClientRequest {
    pub inbound_id: i64,
    pub email: String,
    pub total: Option<i64>,
    pub expiry_time: Option<i64>,
}

/// Request to update a client.
#[derive(Debug)]
pub struct UpdateClientRequest {
    pub email: String,
    pub total: i64,
    pub expiry_time: i64,
    pub enable: Option<bool>,
}

/// A value bound to a `?` of an SQL statement.
#[derive(Debug, Clone, PartialEq)]
pub enum SqlParam {
    Null,
    Text(String),
    Int(i64),
}

/// The content of a bound value.
pub enum SqlArg {
    Null,
    Text(Seq<char>),
    Int(int),
}

impl View for SqlParam {
    type V = SqlArg;

    open spec fn view(&self) -> SqlArg {
        match self {
            SqlParam::Null => SqlArg::Null,
            SqlParam::Text(s) => SqlArg::Text(s@),
            SqlParam::Int(i) => SqlArg::Int(*i as int),
        }
    }
}

/// The views of bound values.
pub open spec fn params_view(p: Seq<SqlParam>) -> Seq<SqlArg> {
    p.map_values(|x: SqlParam| x@)
}

/// A text value, or NULL when absent.
pub open spec fn text_or_null(v: Option<String>) -> SqlArg {
    match v {
        Some(s) => SqlArg::Text(s@),
        None => SqlArg::Null,
    }
}

/// A flag as stored: 1 or 0.
pub open spec fn flag(b: bool) -> int {
    if b { 1 } else { 0 }
}

fn text_param(v: &Option<String>) -> (r: SqlParam)
    ensures
        r@ == text_or_null(*v),
{
    match v {
        Some(s) => SqlParam::Text(owned(s.as_str())),
        None => SqlParam::Null,
    }
}

// ---------------------------------------------------------------------------------------------
// Create
// ---------------------------------------------------------------------------------------------

/// The tag of a new inbound: `<protocol>-<port>`.
pub open spec fn inbound_tag_text(protocol: Seq<char>, port: i32) -> Seq<char> {
    protocol + "-"@ + crate::text::int_text(port as int)
}

/// The tag of a new inbound: `<protocol>-<port>`.
pub fn inbound_tag(protocol: &str, port: i32) -> (r: String)
    ensures
        r@ == inbound_tag_text(protocol@, port),
{
    let mut s = String::new();
    push_str(&mut s, protocol);
    push_str(&mut s, "-");
    let p = crate::text::i64_text(port as i64);
    push_str(&mut s, p.as_str());
    s
}

/// The statement that inserts an inbound; traffic counters start at zero.
pub const CREATE_INBOUND_SQL: &'static str = "INSERT INTO inbounds (
            user_id, remark, listen, port, protocol, settings,
            stream_settings, total, expiry_time, enable, sniffing,
            traffic_reset, tag, up, down, all_time, last_traffic_reset_time
        ) VALUES (?, ?, ?, ?, ?, ?, ?, ?, ?, ?, ?, ?, ?, 0, 0, 0, 0)";

/// The values bound when an inbound is created: no limit, no expiry, enabled and never reset
/// unless the request says otherwise, and the tag `<protocol>-<port>`.
pub open spec fn create_args(user_id: i64, req: CreateInboundRequest) -> Seq<SqlArg> {
    seq![
        SqlArg::Int(user_id as int),
        text_or_null(req.remark),
        text_or_null(req.listen),
        SqlArg::Int(req.port as int),
        SqlArg::Text(req.protocol@),
        text_or_null(req.settings),
        text_or_null(req.stream_settings),
        SqlArg::Int(match req.total { Some(t) => t as int, None => 0 }),
        SqlArg::Int(match req.expiry_time { Some(t) => t as int, None => 0 }),
        SqlArg::Int(flag(match req.enable { Some(b) => b, None => true })),
        text_or_null(req.sniffing),
        SqlArg::Text(match req.traffic_reset { Some(t) => t@, None => "never"@ }),
        SqlArg::Text(inbound_tag_text(req.protocol@, req.port)),
    ]
}

/// Each `?` of `CREATE_INBOUND_SQL` receives its column's value from the request: the owner,
/// the port and protocol as given; the traffic limit and expiry as given, and 0 (unlimited,
/// never) only when absent; enabled unless the request says otherwise; the reset period as
/// given or `never`; and the tag `<protocol>-<port>` in decimal.
pub proof fn lemma_create_binds_each_column(user_id: i64, req: CreateInboundRequest)
    ensures
        create_args(user_id, req).len() == 13,
        create_args(user_id, req)[0] == SqlArg::Int(user_id as int),
        create_args(user_id, req)[3] == SqlArg::Int(req.port as int),
        create_args(user_id, req)[4] == SqlArg::Text(req.protocol@),
        req.total matches Some(t) ==> create_args(user_id, req)[7] == SqlArg::Int(t as int),
        req.total is None ==> create_args(user_id, req)[7] == SqlArg::Int(0),
        req.expiry_time matches Some(t) ==> create_args(user_id, req)[8] == SqlArg::Int(t as int),
        req.expiry_time is None ==> create_args(user_id, req)[8] == SqlArg::Int(0),
        req.enable == Some(false) ==> create_args(user_id, req)[9] == SqlArg::Int(0),
        req.enable != Some(false) ==> create_args(user_id, req)[9] == SqlArg::Int(1),
        req.traffic_reset matches Some(t) ==> create_args(user_id, req)[11] == SqlArg::Text(t@),
        req.traffic_reset is None ==> create_args(user_id, req)[11] == SqlArg::Text("never"@),
        create_args(user_id, req)[12] == SqlArg::Text(req.protocol@ + "-"@ + crate::text::int_text(req.port as int)),
{
}

/// The values bound to `CREATE_INBOUND_SQL`.
pub fn create_params(user_id: i64, req: &CreateInboundRequest) -> (r: Vec<SqlParam>)
    ensures
        params_view(r@) == create_args(user_id, *req),
{
    let mut p: Vec<SqlParam> = Vec::new();
    p.push(SqlParam::Int(user_id));
    p.push(text_param(&req.remark));
    p.push(text_param(&req.listen));
    p.push(SqlParam::Int(req.port as i64));
    p.push(SqlParam::Text(owned(req.protocol.as_str())));
    p.push(text_param(&req.settings));
    p.push(text_param(&req.stream_settings));
    p.push(SqlParam::Int(match req.total { Some(t) => t, None => 0 }));
    p.push(SqlParam::Int(match req.expiry_time { Some(t) => t, None => 0 }));
    let enable = match req.enable { Some(b) => b, None => true };
    p.push(SqlParam::Int(if enable { 1 } else { 0 }));
    p.push(text_param(&req.sniffing));
    p.push(SqlParam::Text(match &req.traffic_reset { Some(t) => owned(t.as_str()), None => owned("never") }));
    p.push(SqlParam::Text(inbound_tag(req.protocol.as_str(), req.port)));
    assert(params_view(p@) =~= create_args(user_id, *req));
    p
}

// ---------------------------------------------------------------------------------------------
// Update
// ---------------------------------------------------------------------------------------------

/// A column assignment for a field that is present.
pub open spec fn assign_text(column: Seq<char>, v: Option<String>) -> Seq<(Seq<char>, SqlArg)> {
    match v {
        Some(s) => seq![(column, SqlArg::Text(s@))],
        None => Seq::empty(),
    }
}

/// A column assignment for a number that is present.
pub open spec fn assign_int(column: Seq<char>, v: Option<int>) -> Seq<(Seq<char>, SqlArg)> {
    match v {
        Some(i) => seq![(column, SqlArg::Int(i))],
        None => Seq::empty(),
    }
}

/// The columns an update request changes, with their new values, in the fixed column order:
/// remark, listen, port, protocol, settings, stream settings, total, expiry, enable, sniffing,
/// traffic reset.
pub open spec fn update_assignments(req: UpdateInboundRequest) -> Seq<(Seq<char>, SqlArg)> {
    assign_text("remark"@, req.remark)
        + assign_text("listen"@, req.listen)
        + assign_int("port"@, match req.port { Some(p) => Some(p as int), None => None })
        + assign_text("protocol"@, req.protocol)
        + assign_text("settings"@, req.settings)
        + assign_text("stream_settings"@, req.stream_settings)
        + assign_int("total"@, match req.total { Some(t) => Some(t as int), None => None })
        + assign_int("expiry_time"@, match req.expiry_time { Some(t) => Some(t as int), None => None })
        + assign_int("enable"@, match req.enable { Some(b) => Some(flag(b)), None => None })
        + assign_text("sniffing"@, req.sniffing)
        + assign_text("traffic_reset"@, req.traffic_reset)
}

/// 1 when a field is present, 0 when it is not.
pub open spec fn present<T>(v: Option<T>) -> int {
    if v is Some { 1 } else { 0 }
}

/// How many fields of an update request are present.
pub open spec fn present_fields(req: UpdateInboundRequest) -> int {
    present(req.remark) + present(req.listen) + present(req.port) + present(req.protocol)
        + present(req.settings) + present(req.stream_settings) + present(req.total)
        + present(req.expiry_time) + present(req.enable) + present(req.sniffing) + present(req.traffic_reset)
}

proof fn lemma_in_concat2<A>(a: Seq<A>, b: Seq<A>, x: A)
    ensures
        a.contains(x) ==> (a + b).contains(x),
        b.contains(x) ==> (a + b).contains(x),
{
    if a.contains(x) {
        let i = choose|i: int| 0 <= i < a.len() && a[i] == x;
        assert((a + b)[i] == x);
    }
    if b.contains(x) {
        let j = choose|j: int| 0 <= j < b.len() && b[j] == x;
        assert((a + b)[a.len() + j] == x);
    }
}

proof fn lemma_along_chain<A>(
    p1: Seq<A>, p2: Seq<A>, p3: Seq<A>, p4: Seq<A>, p5: Seq<A>, p6: Seq<A>,
    p7: Seq<A>, p8: Seq<A>, p9: Seq<A>, p10: Seq<A>, p11: Seq<A>, x: A,
)
    ensures
        p1.contains(x) || p2.contains(x) || p3.contains(x) || p4.contains(x) || p5.contains(x)
            || p6.contains(x) || p7.contains(x) || p8.contains(x) || p9.contains(x)
            || p10.contains(x) || p11.contains(x)
            ==> (p1 + p2 + p3 + p4 + p5 + p6 + p7 + p8 + p9 + p10 + p11).contains(x),
{
    lemma_in_concat2(p1, p2, x);
    lemma_in_concat2(p1 + p2, p3, x);
    lemma_in_concat2(p1 + p2 + p3, p4, x);
    lemma_in_concat2(p1 + p2 + p3 + p4, p5, x);
    lemma_in_concat2(p1 + p2 + p3 + p4 + p5, p6, x);
    lemma_in_concat2(p1 + p2 + p3 + p4 + p5 + p6, p7, x);
    lemma_in_concat2(p1 + p2 + p3 + p4 + p5 + p6 + p7, p8, x);
    lemma_in_concat2(p1 + p2 + p3 + p4 + p5 + p6 + p7 + p8, p9, x);
    lemma_in_concat2(p1 + p2 + p3 + p4 + p5 + p6 + p7 + p8 + p9, p10, x);
    lemma_in_concat2(p1 + p2 + p3 + p4 + p5 + p6 + p7 + p8 + p9 + p10, p11, x);
}

proof fn lemma_update_count(req: UpdateInboundRequest)
    ensures
        update_assignments(req).len() == present_fields(req),
{
    let p1 = assign_text("remark"@, req.remark);
    let p2 = assign_text("listen"@, req.listen);
    let p3 = assign_int("port"@, match req.port { Some(p) => Some(p as int), None => None });
    let p4 = assign_text("protocol"@, req.protocol);
    let p5 = assign_text("settings"@, req.settings);
    let p6 = assign_text("stream_settings"@, req.stream_settings);
    let p7 = assign_int("total"@, match req.total { Some(t) => Some(t as int), None => None });
    let p8 = assign_int("expiry_time"@, match req.expiry_time { Some(t) => Some(t as int), None => None });
    let p9 = assign_int("enable"@, match req.enable { Some(b) => Some(flag(b)), None => None });
    let p10 = assign_text("sniffing"@, req.sniffing);
    let p11 = assign_text("traffic_reset"@, req.traffic_reset);
    assert(update_assignments(req) == p1 + p2 + p3 + p4 + p5 + p6 + p7 + p8 + p9 + p10 + p11);
    assert(p1.len() == present(req.remark));
    assert(p2.len() == present(req.listen));
    assert(p3.len() == present(req.port));
    assert(p4.len() == present(req.protocol));
    assert(p5.len() == present(req.settings));
    assert(p6.len() == present(req.stream_settings));
    assert(p7.len() == present(req.total));
    assert(p8.len() == present(req.expiry_time));
    assert(p9.len() == present(req.enable));
    assert(p10.len() == present(req.sniffing));
    assert(p11.len() == present(req.traffic_reset));
}

proof fn lemma_update_writes_first_fields(req: UpdateInboundRequest)
    ensures
        req.remark matches Some(v) ==> update_assignments(req).contains(("remark"@, SqlArg::Text(v@))),
        req.listen matches Some(v) ==> update_assignments(req).contains(("listen"@, SqlArg::Text(v@))),
        req.protocol matches Some(v) ==> update_assignments(req).contains(("protocol"@, SqlArg::Text(v@))),
        req.settings matches Some(v) ==> update_assignments(req).contains(("settings"@, SqlArg::Text(v@))),
        req.stream_settings matches Some(v) ==> update_assignments(req).contains(("stream_settings"@, SqlArg::Text(v@))),
{
    let p1 = assign_text("remark"@, req.remark);
    let p2 = assign_text("listen"@, req.listen);
    let p3 = assign_int("port"@, match req.port { Some(p) => Some(p as int), None => None });
    let p4 = assign_text("protocol"@, req.protocol);
    let p5 = assign_text("settings"@, req.settings);
    let p6 = assign_text("stream_settings"@, req.stream_settings);
    let p7 = assign_int("total"@, match req.total { Some(t) => Some(t as int), None => None });
    let p8 = assign_int("expiry_time"@, match req.expiry_time { Some(t) => Some(t as int), None => None });
    let p9 = assign_int("enable"@, match req.enable { Some(b) => Some(flag(b)), None => None });
    let p10 = assign_text("sniffing"@, req.sniffing);
    let p11 = assign_text("traffic_reset"@, req.traffic_reset);
    assert(update_assignments(req) == p1 + p2 + p3 + p4 + p5 + p6 + p7 + p8 + p9 + p10 + p11);
    if let Some(v) = req.remark {
        let x = ("remark"@, SqlArg::Text(v@));
        assert(update_assignments(req).contains(x)) by {
            assert(p1[0] == x);
            lemma_along_chain(p1, p2, p3, p4, p5, p6, p7, p8, p9, p10, p11, x);
        }
    }
    if let Some(v) = req.listen {
        let x = ("listen"@, SqlArg::Text(v@));
        assert(update_assignments(req).contains(x)) by {
            assert(p2[0] == x);
            lemma_along_chain(p1, p2, p3, p4, p5, p6, p7, p8, p9, p10, p11, x);
        }
    }
    if let Some(v) = req.protocol {
        let x = ("protocol"@, SqlArg::Text(v@));
        assert(update_assignments(req).contains(x)) by {
            assert(p4[0] == x);
            lemma_along_chain(p1, p2, p3, p4, p5, p6, p7, p8, p9, p10, p11, x);
        }
    }
    if let Some(v) = req.settings {
        let x = ("settings"@, SqlArg::Text(v@));
        assert(update_assignments(req).contains(x)) by {
            assert(p5[0] == x);
            lemma_along_chain(p1, p2, p3, p4, p5, p6, p7, p8, p9, p10, p11, x);
        }
    }
    if let Some(v) = req.stream_settings {
        let x = ("stream_settings"@, SqlArg::Text(v@));
        assert(update_assignments(req).contains(x)) by {
            assert(p6[0] == x);
            lemma_along_chain(p1, p2, p3, p4, p5, p6, p7, p8, p9, p10, p11, x);
        }
    }
}

proof fn lemma_update_writes_other_fields(req: UpdateInboundRequest)
    ensures
        req.port matches Some(v) ==> update_assignments(req).contains(("port"@, SqlArg::Int(v as int))),
        req.total matches Some(v) ==> update_assignments(req).contains(("total"@, SqlArg::Int(v as int))),
        req.expiry_time matches Some(v) ==> update_assignments(req).contains(("expiry_time"@, SqlArg::Int(v as int))),
        req.enable matches Some(v) ==> update_assignments(req).contains(("enable"@, SqlArg::Int(if v { 1 } else { 0 }))),
        req.sniffing matches Some(v) ==> update_assignments(req).contains(("sniffing"@, SqlArg::Text(v@))),
        req.traffic_reset matches Some(v) ==> update_assignments(req).contains(("traffic_reset"@, SqlArg::Text(v@))),
{
    let p1 = assign_text("remark"@, req.remark);
    let p2 = assign_text("listen"@, req.listen);
    let p3 = assign_int("port"@, match req.port { Some(p) => Some(p as int), None => None });
    let p4 = assign_text("protocol"@, req.protocol);
    let p5 = assign_text("settings"@, req.settings);
    let p6 = assign_text("stream_settings"@, req.stream_settings);
    let p7 = assign_int("total"@, match req.total { Some(t) => Some(t as int), None => None });
    let p8 = assign_int("expiry_time"@, match req.expiry_time { Some(t) => Some(t as int), None => None });
    let p9 = assign_int("enable"@, match req.enable { Some(b) => Some(flag(b)), None => None });
    let p10 = assign_text("sniffing"@, req.sniffing);
    let p11 = assign_text("traffic_reset"@, req.traffic_reset);
    assert(update_assignments(req) == p1 + p2 + p3 + p4 + p5 + p6 + p7 + p8 + p9 + p10 + p11);
    if let Some(v) = req.port {
        let x = ("port"@, SqlArg::Int(v as int));
        assert(update_assignments(req).contains(x)) by {
            assert(p3[0] == x);
            lemma_along_chain(p1, p2, p3, p4, p5, p6, p7, p8, p9, p10, p11, x);
        }
    }
    if let Some(v) = req.total {
        let x = ("total"@, SqlArg::Int(v as int));
        assert(update_assignments(req).contains(x)) by {
            assert(p7[0] == x);
            lemma_along_chain(p1, p2, p3, p4, p5, p6, p7, p8, p9, p10, p11, x);
        }
    }
    if let Some(v) = req.expiry_time {
        let x = ("expiry_time"@, SqlArg::Int(v as int));
        assert(update_assignments(req).contains(x)) by {
            assert(p8[0] == x);
            lemma_along_chain(p1, p2, p3, p4, p5, p6, p7, p8, p9, p10, p11, x);
        }
    }
    if let Some(v) = req.enable {
        let x = ("enable"@, SqlArg::Int(if v { 1 } else { 0 }));
        assert(update_assignments(req).contains(x)) by {
            assert(p9[0] == x);
            lemma_along_chain(p1, p2, p3, p4, p5, p6, p7, p8, p9, p10, p11, x);
        }
    }
    if let Some(v) = req.sniffing {
        let x = ("sniffing"@, SqlArg::Text(v@));
        assert(update_assignments(req).contains(x)) by {
            assert(p10[0] == x);
            lemma_along_chain(p1, p2, p3, p4, p5, p6, p7, p8, p9, p10, p11, x);
        }
    }
    if let Some(v) = req.traffic_reset {
        let x = ("traffic_reset"@, SqlArg::Text(v@));
        assert(update_assignments(req).contains(x)) by {
            assert(p11[0] == x);
            lemma_along_chain(p1, p2, p3, p4, p5, p6, p7, p8, p9, p10, p11, x);
        }
    }
}

/// An update writes exactly the fields the request holds, each to its own column with the
/// request's value (flags as 1 or 0): one assignment per present field and none for the
/// others.
pub proof fn lemma_update_writes_present_fields(req: UpdateInboundRequest)
    ensures
        update_assignments(req).len() == present_fields(req),
        req.remark matches Some(v) ==> update_assignments(req).contains(("remark"@, SqlArg::Text(v@))),
        req.listen matches Some(v) ==> update_assignments(req).contains(("listen"@, SqlArg::Text(v@))),
        req.port matches Some(v) ==> update_assignments(req).contains(("port"@, SqlArg::Int(v as int))),
        req.protocol matches Some(v) ==> update_assignments(req).contains(("protocol"@, SqlArg::Text(v@))),
        req.settings matches Some(v) ==> update_assignments(req).contains(("settings"@, SqlArg::Text(v@))),
        req.stream_settings matches Some(v) ==> update_assignments(req).contains(("stream_settings"@, SqlArg::Text(v@))),
        req.total matches Some(v) ==> update_assignments(req).contains(("total"@, SqlArg::Int(v as int))),
        req.expiry_time matches Some(v) ==> update_assignments(req).contains(("expiry_time"@, SqlArg::Int(v as int))),
        req.enable matches Some(v) ==> update_assignments(req).contains(("enable"@, SqlArg::Int(if v { 1 } else { 0 }))),
        req.sniffing matches Some(v) ==> update_assignments(req).contains(("sniffing"@, SqlArg::Text(v@))),
        req.traffic_reset matches Some(v) ==> update_assignments(req).contains(("traffic_reset"@, SqlArg::Text(v@))),
{
    lemma_update_count(req);
    lemma_update_writes_first_fields(req);
    lemma_update_writes_other_fields(req);
}

/// The update statement for some assignments: `UPDATE inbounds SET c1 = ?, c2 = ? WHERE id = ?`.
pub open spec fn update_sql(a: Seq<(Seq<char>, SqlArg)>) -> Seq<char> {
    "UPDATE inbounds SET "@ + joined(assigned_columns(a), ", "@) + " WHERE id = ?"@
}

/// The `column = ?` pieces of some assignments.
pub open spec fn assigned_columns(a: Seq<(Seq<char>, SqlArg)>) -> Seq<Seq<char>> {
    a.map_values(|x: (Seq<char>, SqlArg)| x.0 + " = ?"@)
}

/// The values of some assignments.
pub open spec fn assigned_values(a: Seq<(Seq<char>, SqlArg)>) -> Seq<SqlArg> {
    a.map_values(|x: (Seq<char>, SqlArg)| x.1)
}

/// The assignment of a column when a value is given.
pub open spec fn assignment(column: Seq<char>, v: Option<SqlParam>) -> Seq<(Seq<char>, SqlArg)> {
    match v {
        Some(x) => seq![(column, x@)],
        None => Seq::empty(),
    }
}

fn add_assignment(
    cols: &mut Vec<String>,
    params: &mut Vec<SqlParam>,
    column: &str,
    v: Option<SqlParam>,
    Ghost(acc): Ghost<Seq<(Seq<char>, SqlArg)>>,
)
    requires
        views(old(cols)@) == assigned_columns(acc),
        params_view(old(params)@) == assigned_values(acc),
    ensures
        views(final(cols)@) == assigned_columns(acc + assignment(column@, v)),
        params_view(final(params)@) == assigned_values(acc + assignment(column@, v)),
        final(cols)@.len() == (acc + assignment(column@, v)).len(),
{
    let ghost a = acc + assignment(column@, v);
    let ghost c0 = views(cols@);
    let ghost p0 = params_view(params@);
    match v {
        Some(x) => {
            let ghost xv = x@;
            let mut c = String::new();
            push_str(&mut c, column);
            push_str(&mut c, " = ?");
            cols.push(c);
            params.push(x);
            assert(a =~= acc.push((column@, xv)));
            assert(views(cols@) =~= c0.push(column@ + " = ?"@));
            assert(params_view(params@) =~= p0.push(xv));
            assert(views(cols@) =~= assigned_columns(a));
            assert(params_view(params@) =~= assigned_values(a));
        },
        None => {
            assert(a =~= acc);
        },
    }
    assert(cols@.len() == views(cols@).len());
    assert(assigned_columns(a).len() == a.len());
}

fn text_value(v: &Option<String>) -> (r: Option<SqlParam>)
    ensures
        match r {
            Some(x) => v is Some && x@ == SqlArg::Text(v->0@),
            None => v is None,
        },
{
    match v {
        Some(s) => Some(SqlParam::Text(owned(s.as_str()))),
        None => None,
    }
}

/// The statement and values that apply an update request: only the fields present are
/// written, and the inbound's id is bound last. None when no field is present.
#[verifier::rlimit(30)]
pub fn update_statement(req: &UpdateInboundRequest) -> (r: Option<(String, Vec<SqlParam>)>)
    ensures
        match r {
            None => update_assignments(*req).len() == 0,
            Some((sql, params)) => {
                &&& update_assignments(*req).len() > 0
                &&& sql@ == update_sql(update_assignments(*req))
                &&& params_view(params@) == assigned_values(update_assignments(*req)).push(SqlArg::Int(req.id as int))
            },
        },
{
    let mut cols: Vec<String> = Vec::new();
    let mut params: Vec<SqlParam> = Vec::new();
    let ghost a0 = Seq::<(Seq<char>, SqlArg)>::empty();
    assert(views(cols@) =~= assigned_columns(a0));
    assert(params_view(params@) =~= assigned_values(a0));
    let ghost a1 = a0 + assign_text("remark"@, req.remark);
    add_assignment(&mut cols, &mut params, "remark", text_value(&req.remark), Ghost(a0));
    let ghost a2 = a1 + assign_text("listen"@, req.listen);
    add_assignment(&mut cols, &mut params, "listen", text_value(&req.listen), Ghost(a1));
    let ghost a3 = a2 + assign_int("port"@, match req.port { Some(p) => Some(p as int), None => None });
    add_assignment(&mut cols, &mut params, "port", match req.port { Some(p) => Some(SqlParam::Int(p as i64)), None => None }, Ghost(a2));
    let ghost a4 = a3 + assign_text("protocol"@, req.protocol);
    add_assignment(&mut cols, &mut params, "protocol", text_value(&req.protocol), Ghost(a3));
    let ghost a5 = a4 + assign_text("settings"@, req.settings);
    add_assignment(&mut cols, &mut params, "settings", text_value(&req.settings), Ghost(a4));
    let ghost a6 = a5 + assign_text("stream_settings"@, req.stream_settings);
    add_assignment(&mut cols, &mut params, "stream_settings", text_value(&req.stream_settings), Ghost(a5));
    let ghost a7 = a6 + assign_int("total"@, match req.total { Some(t) => Some(t as int), None => None });
    add_assignment(&mut cols, &mut params, "total", match req.total { Some(t) => Some(SqlParam::Int(t)), None => None }, Ghost(a6));
    let ghost a8 = a7 + assign_int("expiry_time"@, match req.expiry_time { Some(t) => Some(t as int), None => None });
    add_assignment(&mut cols, &mut params, "expiry_time", match req.expiry_time { Some(t) => Some(SqlParam::Int(t)), None => None }, Ghost(a7));
    let ghost a9 = a8 + assign_int("enable"@, match req.enable { Some(b) => Some(flag(b)), None => None });
    add_assignment(&mut cols, &mut params, "enable", match req.enable { Some(b) => Some(SqlParam::Int(if b { 1 } else { 0 })), None => None }, Ghost(a8));
    let ghost a10 = a9 + assign_text("sniffing"@, req.sniffing);
    add_assignment(&mut cols, &mut params, "sniffing", text_value(&req.sniffing), Ghost(a9));
    let ghost a11 = a10 + assign_text("traffic_reset"@, req.traffic_reset);
    add_assignment(&mut cols, &mut params, "traffic_reset", text_value(&req.traffic_reset), Ghost(a10));
    assert(a11 =~= update_assignments(*req));
    if cols.len() == 0 {
        return None;
    }
    let mut sql = String::new();
    push_str(&mut sql, "UPDATE inbounds SET ");
    let set = join(&cols, ", ");
    push_str(&mut sql, set.as_str());
    push_str(&mut sql, " WHERE id = ?");
    let ghost before = params_view(params@);
    params.push(SqlParam::Int(req.id));
    assert(params_view(params@) =~= before.push(SqlArg::Int(req.id as int)));
    Some((sql, params))
}

// ---------------------------------------------------------------------------------------------
// Clients
// ---------------------------------------------------------------------------------------------

/// The statement that adds a client: no traffic yet, enabled, never reset.
pub const ADD_CLIENT_SQL: &'static str = "INSERT INTO client_traffic (
            inbound_id, email, up, down, total, enable, expiry_time,
            reset, last_reset_time
        ) VALUES (?, ?, 0, 0, ?, 1, ?, 'never', 0)";

/// The values bound to `ADD_CLIENT_SQL`: no limit and no expiry unless given.
pub fn add_client_params(req: &AddClientRequest) -> (r: Vec<SqlParam>)
    ensures
        params_view(r@) == seq![
            SqlArg::Int(req.inbound_id as int),
            SqlArg::Text(req.email@),
            SqlArg::Int(match req.total { Some(t) => t as int, None => 0 }),
            SqlArg::Int(match req.expiry_time { Some(t) => t as int, None => 0 }),
        ],
{
    let mut p: Vec<SqlParam> = Vec::new();
    p.push(SqlParam::Int(req.inbound_id));
    p.push(SqlParam::Text(owned(req.email.as_str())));
    p.push(SqlParam::Int(match req.total { Some(t) => t, None => 0 }));
    p.push(SqlParam::Int(match req.expiry_time { Some(t) => t, None => 0 }));
    assert(params_view(p@) =~= seq![
        SqlArg::Int(req.inbound_id as int),
        SqlArg::Text(req.email@),
        SqlArg::Int(match req.total { Some(t) => t as int, None => 0 }),
        SqlArg::Int(match req.expiry_time { Some(t) => t as int, None => 0 }),
    ]);
    p
}

/// The statement that updates a client.
pub const UPDATE_CLIENT_SQL: &'static str = "UPDATE client_traffic SET email = ?, total = ?, expiry_time = ?, enable = ? WHERE id = ?";

/// The values bound to `UPDATE_CLIENT_SQL`: a client stays enabled unless the request says
/// otherwise.
pub fn update_client_params(id: i64, req: &UpdateClientRequest) -> (r: Vec<SqlParam>)
    ensures
        params_view(r@) == seq![
            SqlArg::Text(req.email@),
            SqlArg::Int(req.total as int),
            SqlArg::Int(req.expiry_time as int),
            SqlArg::Int(flag(match req.enable { Some(b) => b, None => true })),
            SqlArg::Int(id as int),
        ],
{
    let mut p: Vec<SqlParam> = Vec::new();
    p.push(SqlParam::Text(owned(req.email.as_str())));
    p.push(SqlParam::Int(req.total));
    p.push(SqlParam::Int(req.expiry_time));
    let enable = match req.enable { Some(b) => b, None => true };
    p.push(SqlParam::Int(if enable { 1 } else { 0 }));
    p.push(SqlParam::Int(id));
    assert(params_view(p@) =~= seq![
        SqlArg::Text(req.email@),
        SqlArg::Int(req.total as int),
        SqlArg::Int(req.expiry_time as int),
        SqlArg::Int(flag(match req.enable { Some(b) => b, None => true })),
        SqlArg::Int(id as int),
    ]);
    p
}

// ---------------------------------------------------------------------------------------------
// Regeneration
// ---------------------------------------------------------------------------------------------

/// The document stored as text, when it is present and reads as JSON.
pub open spec fn stored_json(v: Option<String>) -> Option<JsonView> {
    match v {
        Some(s) => crate::json::parsed(s@),
        None => None,
    }
}

/// How a stored inbound goes into the core's configuration: listening on all addresses when no
/// address is stored, with `{}` for settings that are missing or unreadable, stream settings
/// only when readable, and sniffing of HTTP and TLS.
pub open spec fn service_inbound_ok(row: Inbound, c: InboundConfig) -> bool {
    &&& c.tag@ == row.tag@
    &&& c.listen@ == (match row.listen { Some(l) => l@, None => "0.0.0.0"@ })
    &&& c.port == row.port
    &&& c.protocol@ == row.protocol@
    &&& c.settings@ == (match stored_json(row.settings) { Some(v) => v, None => JsonView::Object(Seq::empty()) })
    &&& (match c.stream_settings { Some(v) => stored_json(row.stream_settings) == Some(v@), None => stored_json(row.stream_settings) is None })
    &&& c.sniffing.enabled
    &&& crate::text::views(c.sniffing.dest_override@) == seq!["http"@, "tls"@]
}

fn read_stored(v: &Option<String>) -> (r: Option<JsonValue>)
    ensures
        match r {
            Some(x) => stored_json(*v) == Some(x@),
            None => stored_json(*v) is None,
        },
{
    match v {
        Some(s) => parse(s.as_str()),
        None => None,
    }
}

/// The core's view of a stored inbound (see `service_inbound_ok`).
pub fn service_inbound(row: &Inbound) -> (c: InboundConfig)
    ensures
        service_inbound_ok(*row, c),
{
    let settings = match read_stored(&row.settings) {
        Some(v) => v,
        None => empty_object(),
    };
    let mut dest: Vec<String> = Vec::new();
    dest.push(owned("http"));
    dest.push(owned("tls"));
    assert(crate::text::views(dest@) =~= seq!["http"@, "tls"@]);
    InboundConfig {
        tag: owned(row.tag.as_str()),
        listen: match &row.listen { Some(l) => owned(l.as_str()), None => owned("0.0.0.0") },
        port: row.port,
        protocol: owned(row.protocol.as_str()),
        settings,
        stream_settings: read_stored(&row.stream_settings),
        sniffing: SniffingConfig { enabled: true, dest_override: dest },
    }
}

/// The core's view of every stored inbound, in order.
pub fn service_inbounds(rows: &[Inbound]) -> (r: Vec<InboundConfig>)
    ensures
        r@.len() == rows@.len(),
        forall|i: int| 0 <= i < rows@.len() ==> service_inbound_ok(#[trigger] rows@[i], r@[i]),
{
    let mut out: Vec<InboundConfig> = Vec::new();
    let mut i: usize = 0;
    while i < rows.len()
        invariant
            i <= rows.len(),
            out@.len() == i,
            forall|k: int| 0 <= k < i ==> service_inbound_ok(#[trigger] rows@[k], out@[k]),
        decreases rows.len() - i,
    {
        out.push(service_inbound(&rows[i]));
        i = i + 1;
    }
    out
}

} // verus!
