//! Client traffic model: usage of one client on one inbound.
use vstd::prelude::*;
use crate::clock::utc_now_timestamp;

verus! {

/// Client traffic record.
#[derive(Debug, Clone)]
pub struct ClientTraffic {
    pub id: i64,
    pub inbound_id: i64,
    pub email: String,
    pub up: i64,
    pub down: i64,
    /// Traffic quota in bytes; zero or less means unlimited.
    pub total: i64,
    /// Expiry as a Unix time; zero or less means never.
    pub expiry_time: i64,
    pub enable: bool,
    /// IP limit for this client (0 = unlimited).
    pub limit_ip: i32,
    /// Telegram user ID for notifications.
    pub tg_id: i64,
    /// Subscription ID for generating subscription links.
    pub sub_id: String,
    /// Optional comment.
    pub comment: String,
    /// Traffic reset strategy (0 = never, 1 = daily, 2 = weekly, 3 = monthly).
    pub reset: i32,
    pub created_at: i64,
    pub updated_at: i64,
}

/// Request to create a new client.
#[derive(Debug)]
pub struct CreateClientRequest {
    pub inbound_id: i64,
    pub email: String,
    pub total: Option<i64>,
    pub expiry_time: Option<i64>,
    pub enable: Option<bool>,
    pub limit_ip: Option<i32>,
    pub tg_id: Option<i64>,
    pub sub_id: Option<String>,
    pub comment: Option<String>,
    pub reset: Option<i32>,
}

/// Request to update an existing client.
#[derive(Debug)]
pub struct UpdateClientRequest {
    pub id: i64,
    pub email: Option<String>,
    pub total: Option<i64>,
    pub expiry_time: Option<i64>,
    pub enable: Option<bool>,
    pub limit_ip: Option<i32>,
    pub tg_id: Option<i64>,
    pub sub_id: Option<String>,
    pub comment: Option<String>,
    pub reset: Option<i32>,
}

/// Client statistics for API responses.
#[derive(Debug)]
pub struct ClientStats {
    pub id: i64,
    pub inbound_id: i64,
    pub email: String,
    pub up: i64,
    pub down: i64,
    pub total: i64,
    pub usage: i64,
    pub enable: bool,
    pub expiry_time: i64,
    pub limit_ip: i32,
    pub tg_id: i64,
    pub sub_id: String,
    pub comment: String,
    pub reset: i32,
}

/// Client for import.
#[derive(Debug)]
pub struct ClientImport {
    pub email: String,
    pub total: Option<i64>,
    pub expiry_time: Option<i64>,
    pub enable: Option<bool>,
    pub limit_ip: Option<i32>,
    pub tg_id: Option<i64>,
    pub sub_id: Option<String>,
    pub comment: Option<String>,
    pub reset: Option<i32>,
}

/// Request to import several clients.
#[derive(Debug)]
pub struct ImportClientsRequest {
    pub inbound_id: i64,
    pub clients: Vec<ClientImport>,
}

/// Client traffic history record.
#[derive(Debug, Clone)]
pub struct ClientTrafficHistory {
    pub id: i64,
    pub client_id: i64,
    pub up: i64,
    pub down: i64,
    pub recorded_at: i64,
}

impl ClientTraffic {
    /// Traffic used so far.
    pub open spec fn used(&self) -> int {
        self.up + self.down
    }

    /// Whether the used traffic fits in an `i64`.
    pub open spec fn used_fits(&self) -> bool {
        i64::MIN <= self.used() <= i64::MAX
    }

    /// Whether a limited client has used its whole quota.
    pub open spec fn spec_depleted(&self) -> bool {
        self.total > 0 && self.used() >= self.total
    }

    /// Whether an expiring client is expired at `now`.
    pub open spec fn spec_expired_at(&self, now: i64) -> bool {
        self.expiry_time > 0 && now >= self.expiry_time
    }

    /// Whether the client is enabled, within quota, and not expired at `now`.
    pub open spec fn spec_active_at(&self, now: i64) -> bool {
        self.enable && !self.spec_depleted() && !self.spec_expired_at(now)
    }

    /// Remaining quota: -1 when unlimited, 0 when used up.
    pub open spec fn spec_remaining_traffic(&self) -> int {
        if self.total <= 0 {
            -1
        } else if self.used() >= self.total {
            0
        } else {
            self.total - self.used()
        }
    }

    /// Seconds until expiry at `now`: -1 when it never expires, 0 when expired.
    pub open spec fn spec_remaining_time_at(&self, now: i64) -> int {
        if self.expiry_time <= 0 {
            -1
        } else if now >= self.expiry_time {
            0
        } else {
            self.expiry_time - now
        }
    }

    /// Whether the client has used up its traffic quota (never for unlimited clients).
    pub fn is_depleted(&self) -> (r: bool)
        requires
            self.used_fits(),
        ensures
            r == self.spec_depleted(),
    {
        if self.total <= 0 {
            return false;
        }
        (self.up + self.down) >= self.total
    }

    /// Whether the client is expired at the given Unix time.
    pub fn is_expired_at(&self, now: i64) -> (r: bool)
        ensures
            r == self.spec_expired_at(now),
    {
        if self.expiry_time <= 0 {
            return false;
        }
        now >= self.expiry_time
    }

    /// Whether the client is expired now; clients without an expiry never are.
    pub fn is_expired(&self) -> (r: bool)
        ensures
            self.expiry_time <= 0 ==> !r,
            exists|now: i64| now >= 0 && r == self.spec_expired_at(now),
    {
        if self.expiry_time <= 0 {
            assert(!self.spec_expired_at(0));
            return false;
        }
        let now = utc_now_timestamp();
        self.is_expired_at(now)
    }

    /// Whether the client is enabled, within quota, and not expired at `now`.
    pub fn is_active_at(&self, now: i64) -> (r: bool)
        requires
            self.used_fits(),
        ensures
            r == (self.enable && !self.spec_depleted() && !self.spec_expired_at(now)),
    {
        self.enable && !self.is_depleted() && !self.is_expired_at(now)
    }

    /// Whether the client is enabled, within quota, and not expired now.
    pub fn is_active(&self) -> (r: bool)
        requires
            self.used_fits(),
        ensures
            r ==> self.enable && !self.spec_depleted(),
            self.enable && !self.spec_depleted() && self.expiry_time <= 0 ==> r,
            exists|now: i64| now >= 0 && r == self.spec_active_at(now),
    {
        if !self.enable || self.is_depleted() {
            proof {
                assert(!self.spec_active_at(0));
            }
            return false;
        }
        let e = self.is_expired();
        proof {
            let now = choose|now: i64| now >= 0 && e == self.spec_expired_at(now);
            assert(!e == self.spec_active_at(now));
        }
        !e
    }

    /// Remaining traffic (-1 when unlimited).
    pub fn remaining_traffic(&self) -> (r: i64)
        requires
            self.used_fits(),
            self.spec_remaining_traffic() <= i64::MAX,
        ensures
            r == self.spec_remaining_traffic(),
    {
        if self.total <= 0 {
            return -1;
        }
        let used = self.up + self.down;
        if used >= self.total {
            return 0;
        }
        self.total - used
    }

    /// Seconds until expiry at the given Unix time (-1 when it never expires).
    pub fn remaining_time_at(&self, now: i64) -> (r: i64)
        requires
            self.spec_remaining_time_at(now) <= i64::MAX,
        ensures
            r == self.spec_remaining_time_at(now),
    {
        if self.expiry_time <= 0 {
            return -1;
        }
        if now >= self.expiry_time {
            return 0;
        }
        self.expiry_time - now
    }

    /// Seconds until expiry now (-1 when it never expires).
    pub fn remaining_time(&self) -> (r: i64)
        ensures
            self.expiry_time <= 0 ==> r == -1,
            self.expiry_time > 0 ==> r >= 0,
            self.expiry_time > 0 ==> exists|now: i64| now >= 0 && r == self.spec_remaining_time_at(now),
    {
        if self.expiry_time <= 0 {
            return -1;
        }
        let now = utc_now_timestamp();
        self.remaining_time_at(now)
    }
}

impl From<ClientTraffic> for ClientStats {
    /// Copies the record and adds its usage (`up + down`, wrapping on overflow).
    fn from(client: ClientTraffic) -> (r: ClientStats) {
        ClientStats {
            id: client.id,
            inbound_id: client.inbound_id,
            email: client.email,
            up: client.up,
            down: client.down,
            total: client.total,
            usage: client.up.wrapping_add(client.down),
            enable: client.enable,
            expiry_time: client.expiry_time,
            limit_ip: client.limit_ip,
            tg_id: client.tg_id,
            sub_id: client.sub_id,
            comment: client.comment,
            reset: client.reset,
        }
    }
}

impl vstd::std_specs::convert::FromSpecImpl<ClientTraffic> for ClientStats {
    open spec fn obeys_from_spec() -> bool {
        true
    }

    open spec fn from_spec(client: ClientTraffic) -> ClientStats {
        ClientStats {
            id: client.id,
            inbound_id: client.inbound_id,
            email: client.email,
            up: client.up,
            down: client.down,
            total: client.total,
            usage: client.up.wrapping_add(client.down),
            enable: client.enable,
            expiry_time: client.expiry_time,
            limit_ip: client.limit_ip,
            tg_id: client.tg_id,
            sub_id: client.sub_id,
            comment: client.comment,
            reset: client.reset,
        }
    }
}

/// Quota and expiry agree across the checks: a client is depleted exactly when no traffic
/// remains and expired exactly when no time remains; what remains of a limited quota plus what
/// was used is the quota, and what remains of the time plus `now` is the expiry; and a client
/// is active exactly when it is enabled with traffic and time left.
pub proof fn lemma_quota_and_expiry_agree(c: ClientTraffic, now: i64)
    ensures
        c.spec_depleted() <==> c.spec_remaining_traffic() == 0,
        c.spec_expired_at(now) <==> c.spec_remaining_time_at(now) == 0,
        c.total > 0 && !c.spec_depleted() ==> c.spec_remaining_traffic() + c.used() == c.total,
        c.total <= 0 ==> !c.spec_depleted() && c.spec_remaining_traffic() == -1,
        c.expiry_time > 0 && !c.spec_expired_at(now) ==> c.spec_remaining_time_at(now) + now == c.expiry_time,
        c.expiry_time <= 0 ==> !c.spec_expired_at(now) && c.spec_remaining_time_at(now) == -1,
        c.spec_active_at(now) <==> (c.enable && c.spec_remaining_traffic() != 0 && c.spec_remaining_time_at(now) != 0),
{
}

} // verus!
