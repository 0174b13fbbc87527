//! What the periodic jobs decide: which reset statements run with which cut-off times, and
//! what an expiry warning says about a client.
use vstd::prelude::*;
use crate::json::{items_view, members_view, push_item, push_member, string, JsonValue, JsonView};

verus! {

/// Seconds in a day.
pub const DAY_SECS: i64 = 86400;

/// Seconds in a week.
pub const WEEK_SECS: i64 = 604800;

/// Seconds in a thirty-day month.
pub const MONTH_SECS: i64 = 2592000;

/// One reset statement with its two values: the reset time written, and the cut-off before
/// which the last reset must lie.
#[derive(Debug, Clone, Copy, PartialEq, Eq)]
pub struct ResetStatement {
    pub sql: &'static str,
    pub now: i64,
    pub cutoff: i64,
}

/// Daily inbound reset.
pub const RESET_INBOUNDS_DAILY: &'static str = "UPDATE inbounds SET up = 0, down = 0, last_traffic_reset_time = ?
                     WHERE traffic_reset = '1' AND last_traffic_reset_time < ?";

/// Weekly inbound reset.
pub const RESET_INBOUNDS_WEEKLY: &'static str = "UPDATE inbounds SET up = 0, down = 0, last_traffic_reset_time = ?
                     WHERE traffic_reset = '2' AND last_traffic_reset_time < ?";

/// Monthly inbound reset.
pub const RESET_INBOUNDS_MONTHLY: &'static str = "UPDATE inbounds SET up = 0, down = 0, last_traffic_reset_time = ?
                     WHERE traffic_reset = '3' AND last_traffic_reset_time < ?";

/// Daily client reset.
pub const RESET_CLIENTS_DAILY: &'static str = "UPDATE client_traffics SET up = 0, down = 0, updated_at = ?
                     WHERE reset = 1 AND updated_at < ?";

/// Weekly client reset.
pub const RESET_CLIENTS_WEEKLY: &'static str = "UPDATE client_traffics SET up = 0, down = 0, updated_at = ?
                     WHERE reset = 2 AND updated_at < ?";

/// Monthly client reset.
pub const RESET_CLIENTS_MONTHLY: &'static str = "UPDATE client_traffics SET up = 0, down = 0, updated_at = ?
                     WHERE reset = 3 AND updated_at < ?";

/// The hourly reset job's statements, in order: daily, weekly and monthly inbound resets, then
/// daily, weekly and monthly client resets. Each resets what was last reset more than a day,
/// week or thirty days before `now`, and records `now` as the reset time.
pub fn traffic_reset_plan(now: i64) -> (r: Vec<ResetStatement>)
    requires
        now >= i64::MIN + MONTH_SECS,
    ensures
        r@ == seq![
            ResetStatement { sql: RESET_INBOUNDS_DAILY, now, cutoff: (now - DAY_SECS) as i64 },
            ResetStatement { sql: RESET_INBOUNDS_WEEKLY, now, cutoff: (now - WEEK_SECS) as i64 },
            ResetStatement { sql: RESET_INBOUNDS_MONTHLY, now, cutoff: (now - MONTH_SECS) as i64 },
            ResetStatement { sql: RESET_CLIENTS_DAILY, now, cutoff: (now - DAY_SECS) as i64 },
            ResetStatement { sql: RESET_CLIENTS_WEEKLY, now, cutoff: (now - WEEK_SECS) as i64 },
            ResetStatement { sql: RESET_CLIENTS_MONTHLY, now, cutoff: (now - MONTH_SECS) as i64 },
        ],
{
    let day_ago = now - DAY_SECS;
    let week_ago = now - WEEK_SECS;
    let month_ago = now - MONTH_SECS;
    let mut r: Vec<ResetStatement> = Vec::new();
    r.push(ResetStatement { sql: RESET_INBOUNDS_DAILY, now, cutoff: day_ago });
    r.push(ResetStatement { sql: RESET_INBOUNDS_WEEKLY, now, cutoff: week_ago });
    r.push(ResetStatement { sql: RESET_INBOUNDS_MONTHLY, now, cutoff: month_ago });
    r.push(ResetStatement { sql: RESET_CLIENTS_DAILY, now, cutoff: day_ago });
    r.push(ResetStatement { sql: RESET_CLIENTS_WEEKLY, now, cutoff: week_ago });
    r.push(ResetStatement { sql: RESET_CLIENTS_MONTHLY, now, cutoff: month_ago });
    assert(r@ =~= seq![
        ResetStatement { sql: RESET_INBOUNDS_DAILY, now, cutoff: (now - DAY_SECS) as i64 },
        ResetStatement { sql: RESET_INBOUNDS_WEEKLY, now, cutoff: (now - WEEK_SECS) as i64 },
        ResetStatement { sql: RESET_INBOUNDS_MONTHLY, now, cutoff: (now - MONTH_SECS) as i64 },
        ResetStatement { sql: RESET_CLIENTS_DAILY, now, cutoff: (now - DAY_SECS) as i64 },
        ResetStatement { sql: RESET_CLIENTS_WEEKLY, now, cutoff: (now - WEEK_SECS) as i64 },
        ResetStatement { sql: RESET_CLIENTS_MONTHLY, now, cutoff: (now - MONTH_SECS) as i64 },
    ]);
    r
}

/// How far ahead the client check warns about expiry: seven days after `now`.
pub fn expiry_warning_time(now: i64) -> (r: i64)
    requires
        now <= i64::MAX - 7 * DAY_SECS,
    ensures
        r == now + 7 * DAY_SECS,
{
    now + 7 * DAY_SECS
}

/// Selects the clients between 80% and 100% of their traffic limit (no values to bind).
pub const NEAR_LIMIT_SQL: &'static str = "SELECT ct.email, ct.up, ct.down, ct.total, i.tag
                         FROM client_traffics ct
                         JOIN inbounds i ON ct.inbound_id = i.id
                         WHERE ct.total > 0
                         AND ct.enable = 1
                         AND (ct.up + ct.down) >= (ct.total * 8 / 10)
                         AND (ct.up + ct.down) < ct.total";

/// Selects the clients whose expiry falls after the current time and no later than the
/// warning time (values: the warning time, then the current time).
pub const EXPIRING_SQL: &'static str = "SELECT ct.email, ct.expiry_time, i.tag
                         FROM client_traffics ct
                         JOIN inbounds i ON ct.inbound_id = i.id
                         WHERE ct.expiry_time > 0
                         AND ct.enable = 1
                         AND ct.expiry_time <= ?
                         AND ct.expiry_time > ?";

/// Disables the clients whose expiry has passed (value: the current time).
pub const DISABLE_EXPIRED_SQL: &'static str = "UPDATE client_traffics SET enable = 0
                         WHERE expiry_time > 0
                         AND expiry_time <= ?
                         AND enable = 1";

/// The client check's statements with their values.
#[derive(Debug, Clone, Copy, PartialEq, Eq)]
pub struct ClientCheckPlan {
    /// The near-limit query; it takes no values.
    pub near_limit_sql: &'static str,
    /// The expiring-clients query, with the warning time and the current time.
    pub expiring_sql: &'static str,
    pub warning_time: i64,
    pub now: i64,
    /// The statement that disables expired clients, with the current time.
    pub disable_sql: &'static str,
}

/// The client check at `now`: near-limit clients, clients expiring within seven days, and
/// the statement that disables the expired ones.
pub fn client_check_plan(now: i64) -> (r: ClientCheckPlan)
    requires
        now <= i64::MAX - 7 * DAY_SECS,
    ensures
        r == (ClientCheckPlan {
            near_limit_sql: NEAR_LIMIT_SQL,
            expiring_sql: EXPIRING_SQL,
            warning_time: (now + 7 * DAY_SECS) as i64,
            now,
            disable_sql: DISABLE_EXPIRED_SQL,
        }),
{
    ClientCheckPlan {
        near_limit_sql: NEAR_LIMIT_SQL,
        expiring_sql: EXPIRING_SQL,
        warning_time: expiry_warning_time(now),
        now,
        disable_sql: DISABLE_EXPIRED_SQL,
    }
}

/// Integer division rounding toward zero, as Rust's `/` does.
pub open spec fn div_toward_zero(a: int, b: int) -> int {
    if a >= 0 { a / b } else { -((-a) / b) }
}

/// Whole days from `now` to an expiry time, counted toward zero and kept in 32 bits as the
/// original cast does.
pub fn days_remaining(expiry_time: i64, now: i64) -> (r: i32)
    requires
        i64::MIN <= expiry_time - now <= i64::MAX,
    ensures
        r == (div_toward_zero(expiry_time - now, DAY_SECS as int)) as i32,
{
    let d: i64 = expiry_time - now;
    let q: i64 = d / DAY_SECS;
    assert(q as int == div_toward_zero(d as int, DAY_SECS as int));
    q as i32
}

/// The date shown in an expiry warning: the expiry day in UTC as `YYYY-MM-DD`, or empty when
/// the time cannot be represented.
pub fn expiry_date(expiry_time: i64) -> (r: String)
    ensures
        r@ == (match crate::clock::formatted_utc(expiry_time as int, "%Y-%m-%d"@) {
            Some(t) => t,
            None => Seq::empty(),
        }),
{
    match crate::clock::format_utc(expiry_time, "%Y-%m-%d") {
        Some(t) => t,
        None => String::new(),
    }
}

/// The traffic a client has used: upload plus download.
pub fn used_traffic(up: i64, down: i64) -> (r: i64)
    requires
        i64::MIN <= up + down <= i64::MAX,
    ensures
        r == up + down,
{
    up + down
}

/// An inbound's traffic as the traffic job reads it.
#[derive(Debug, Clone)]
pub struct InboundTraffic {
    pub id: i64,
    pub tag: String,
    pub up: i64,
    pub down: i64,
}

/// One inbound in the traffic broadcast.
pub open spec fn traffic_item_view(t: InboundTraffic) -> JsonView {
    JsonView::Object(seq![
        ("id"@, JsonView::Int(t.id as int)),
        ("tag"@, JsonView::Str(t.tag@)),
        ("up"@, JsonView::Int(t.up as int)),
        ("down"@, JsonView::Int(t.down as int)),
    ])
}

/// The traffic broadcast: `{"type": "traffic", "data": [...]}` with one item per inbound.
pub open spec fn traffic_broadcast_view(rows: Seq<InboundTraffic>) -> JsonView {
    JsonView::Object(seq![
        ("type"@, JsonView::Str("traffic"@)),
        ("data"@, JsonView::Array(Seq::new(rows.len(), |k: int| traffic_item_view(rows[k])))),
    ])
}

/// The traffic broadcast sent to connected pages (see `traffic_broadcast_view`).
pub fn traffic_broadcast(rows: &[InboundTraffic]) -> (r: JsonValue)
    ensures
        r@ == traffic_broadcast_view(rows@),
{
    let mut items: Vec<JsonValue> = Vec::new();
    let mut i: usize = 0;
    assert(items_view(items@) =~= Seq::<JsonView>::empty());
    while i < rows.len()
        invariant
            i <= rows.len(),
            items_view(items@) == Seq::new(i as nat, |k: int| traffic_item_view(rows@[k])),
        decreases rows.len() - i,
    {
        let mut m: Vec<(String, JsonValue)> = Vec::new();
        push_member(&mut m, "id", JsonValue::Int(rows[i].id));
        push_member(&mut m, "tag", string(rows[i].tag.as_str()));
        push_member(&mut m, "up", JsonValue::Int(rows[i].up));
        push_member(&mut m, "down", JsonValue::Int(rows[i].down));
        assert(members_view(m@) =~= traffic_item_view(rows@[i as int])->Object_0);
        push_item(&mut items, JsonValue::Object(m));
        assert(items_view(items@) =~= Seq::new((i + 1) as nat, |k: int| traffic_item_view(rows@[k])));
        i = i + 1;
    }
    let mut m: Vec<(String, JsonValue)> = Vec::new();
    push_member(&mut m, "type", string("traffic"));
    push_member(&mut m, "data", JsonValue::Array(items));
    assert(members_view(m@) =~= traffic_broadcast_view(rows@)->Object_0);
    JsonValue::Object(m)
}

/// The traffic broadcast is of type `traffic` and leaves no inbound out: its `data` array has
/// one item per inbound, in order, with the inbound's id, tag, upload and download.
pub proof fn lemma_broadcast_lists_every_inbound(rows: Seq<InboundTraffic>)
    ensures
        traffic_broadcast_view(rows).get("type"@) == Some(JsonView::Str("traffic"@)),
        traffic_broadcast_view(rows).get("data"@) matches Some(JsonView::Array(items))
            && items.len() == rows.len()
            && forall|k: int| 0 <= k < rows.len() ==> {
                &&& (#[trigger] items[k]).get("id"@) == Some(JsonView::Int(rows[k].id as int))
                &&& items[k].get("tag"@) == Some(JsonView::Str(rows[k].tag@))
                &&& items[k].get("up"@) == Some(JsonView::Int(rows[k].up as int))
                &&& items[k].get("down"@) == Some(JsonView::Int(rows[k].down as int))
            },
{
    reveal_strlit("type");
    reveal_strlit("data");
    reveal_strlit("id");
    reveal_strlit("tag");
    reveal_strlit("up");
    reveal_strlit("down");
    reveal_with_fuel(crate::json::member_lookup, 5);
    assert("type"@.len() == 4 && "data"@.len() == 4 && "type"@[0] != "data"@[0]);
    assert("id"@.len() == 2 && "tag"@.len() == 3 && "up"@.len() == 2 && "down"@.len() == 4);
    assert("id"@[0] != "up"@[0]);
}

} // verus!
