//! Telegram notification service.
use vstd::prelude::*;
use crate::bot::{delivered_to_chat, BotError, TelegramBot};
use crate::json::{member, string, JsonValue, JsonView};
use crate::text::{int_text, owned, push_i64, push_scaled, push_str, scaled_text};

verus! {

/// Notification kinds.
#[derive(Debug, Clone, Copy, PartialEq, Eq, Structural)]
pub enum NotificationType {
    TrafficLimit,
    ExpiryWarning,
    Expired,
    Login,
    SystemAlert,
    BackupComplete,
    XrayRestart,
    XrayStopped,
    XrayError,
}

/// A notification message.
pub struct Notification {
    pub notification_type: NotificationType,
    pub title: String,
    pub message: String,
    pub details: Option<JsonValue>,
}

/// The view of optional details.
pub open spec fn details_view(d: Option<JsonValue>) -> Option<JsonView> {
    match d {
        Some(v) => Some(v@),
        None => None,
    }
}

/// The emoji shown in front of each notification kind.
pub open spec fn emoji_of(t: NotificationType) -> Seq<char> {
    match t {
        NotificationType::TrafficLimit => "⚠️"@,
        NotificationType::ExpiryWarning => "⏰"@,
        NotificationType::Expired => "❌"@,
        NotificationType::Login => "🔐"@,
        NotificationType::SystemAlert => "🚨"@,
        NotificationType::BackupComplete => "💾"@,
        NotificationType::XrayRestart => "🔄"@,
        NotificationType::XrayStopped => "⏹️"@,
        NotificationType::XrayError => "🔥"@,
    }
}

/// The emoji shown in front of each notification kind.
pub fn notification_type_emoji(notification_type: &NotificationType) -> (r: &'static str)
    ensures
        r@ == emoji_of(*notification_type),
{
    match notification_type {
        NotificationType::TrafficLimit => "⚠️",
        NotificationType::ExpiryWarning => "⏰",
        NotificationType::Expired => "❌",
        NotificationType::Login => "🔐",
        NotificationType::SystemAlert => "🚨",
        NotificationType::BackupComplete => "💾",
        NotificationType::XrayRestart => "🔄",
        NotificationType::XrayStopped => "⏹️",
        NotificationType::XrayError => "🔥",
    }
}

/// Human readable size with binary units up to TB; negative sizes read as "0 B".
pub open spec fn byte_count_text(bytes: int) -> Seq<char> {
    if bytes < 0 {
        "0 B"@
    } else if bytes >= 0x100_0000_0000 {
        scaled_text(bytes as nat, 0x100_0000_0000) + " TB"@
    } else if bytes >= 0x4000_0000 {
        scaled_text(bytes as nat, 0x4000_0000) + " GB"@
    } else if bytes >= 0x10_0000 {
        scaled_text(bytes as nat, 0x10_0000) + " MB"@
    } else if bytes >= 1024 {
        scaled_text(bytes as nat, 1024) + " KB"@
    } else {
        int_text(bytes) + " B"@
    }
}

/// Formats a byte count for humans (see `byte_count_text`).
pub fn format_bytes(bytes: i64) -> (r: String)
    ensures
        r@ == byte_count_text(bytes as int),
{
    if bytes < 0 {
        return owned("0 B");
    }
    let mut s = String::new();
    if bytes >= 0x100_0000_0000 {
        push_scaled(&mut s, bytes as u64, 0x100_0000_0000);
        push_str(&mut s, " TB");
    } else if bytes >= 0x4000_0000 {
        push_scaled(&mut s, bytes as u64, 0x4000_0000);
        push_str(&mut s, " GB");
    } else if bytes >= 0x10_0000 {
        push_scaled(&mut s, bytes as u64, 0x10_0000);
        push_str(&mut s, " MB");
    } else if bytes >= 1024 {
        push_scaled(&mut s, bytes as u64, 1024);
        push_str(&mut s, " KB");
    } else {
        push_i64(&mut s, bytes);
        push_str(&mut s, " B");
    }
    s
}

/// The text sent for a notification: emoji, bold title, blank line, message.
pub open spec fn notification_text(t: NotificationType, title: Seq<char>, message: Seq<char>) -> Seq<char> {
    emoji_of(t) + " *"@ + title + "*\n\n"@ + message
}

/// The text sent for a notification.
pub fn render_notification(n: &Notification) -> (r: String)
    ensures
        r@ == notification_text(n.notification_type, n.title@, n.message@),
{
    let mut s = owned(notification_type_emoji(&n.notification_type));
    push_str(&mut s, " *");
    push_str(&mut s, n.title.as_str());
    push_str(&mut s, "*\n\n");
    push_str(&mut s, n.message.as_str());
    s
}

/// Message of a traffic limit alert.
pub open spec fn traffic_limit_message(email: Seq<char>, used: i64, total: i64, percentage: i32, tag: Seq<char>) -> Seq<char> {
    "Client *"@ + email + "* has reached "@ + int_text(percentage as int) + "% of traffic limit.\n\nUsed: *"@
        + byte_count_text(used as int) + "* / *"@ + byte_count_text(total as int) + "*\nInbound: *"@ + tag + "*"@
}

/// A traffic limit alert for a client that has used `percentage` percent of its quota.
pub fn traffic_limit_notification(client_email: &str, used: i64, total: i64, percentage: i32, inbound_tag: &str) -> (r: Notification)
    ensures
        r.notification_type == NotificationType::TrafficLimit,
        r.title@ == "Traffic Limit Alert"@,
        r.message@ == traffic_limit_message(client_email@, used, total, percentage, inbound_tag@),
        details_view(r.details) == Some(JsonView::Object(seq![
            ("client_email"@, JsonView::Str(client_email@)),
            ("used"@, JsonView::Int(used as int)),
            ("total"@, JsonView::Int(total as int)),
            ("percentage"@, JsonView::Int(percentage as int)),
            ("inbound_tag"@, JsonView::Str(inbound_tag@)),
        ])),
{
    let mut m = owned("Client *");
    push_str(&mut m, client_email);
    push_str(&mut m, "* has reached ");
    push_i64(&mut m, percentage as i64);
    push_str(&mut m, "% of traffic limit.\n\nUsed: *");
    let u = format_bytes(used);
    push_str(&mut m, u.as_str());
    push_str(&mut m, "* / *");
    let t = format_bytes(total);
    push_str(&mut m, t.as_str());
    push_str(&mut m, "*\nInbound: *");
    push_str(&mut m, inbound_tag);
    push_str(&mut m, "*");
    let mut d: Vec<(String, JsonValue)> = Vec::new();
    d.push(member("client_email", string(client_email)));
    d.push(member("used", JsonValue::Int(used)));
    d.push(member("total", JsonValue::Int(total)));
    d.push(member("percentage", JsonValue::Int(percentage as i64)));
    d.push(member("inbound_tag", string(inbound_tag)));
    let r = Notification {
        notification_type: NotificationType::TrafficLimit,
        title: owned("Traffic Limit Alert"),
        message: m,
        details: Some(JsonValue::Object(d)),
    };
    proof {
        crate::json::lemma_members_view(d@);
        assert(crate::json::members_view(d@) =~= (seq![
            ("client_email"@, JsonView::Str(client_email@)),
            ("used"@, JsonView::Int(used as int)),
            ("total"@, JsonView::Int(total as int)),
            ("percentage"@, JsonView::Int(percentage as int)),
            ("inbound_tag"@, JsonView::Str(inbound_tag@)),
        ]));
    }
    r
}

/// Message of an expiry warning.
pub open spec fn expiry_warning_message(email: Seq<char>, days: i32, date: Seq<char>, tag: Seq<char>) -> Seq<char> {
    "Client *"@ + email + "* will expire in *"@ + int_text(days as int) + "* day(s).\n\nExpiry Date: *"@ + date
        + "*\nInbound: *"@ + tag + "*"@
}

/// A warning that a client expires in `days_remaining` days.
pub fn expiry_warning_notification(client_email: &str, days_remaining: i32, expiry_date: &str, inbound_tag: &str) -> (r: Notification)
    ensures
        r.notification_type == NotificationType::ExpiryWarning,
        r.title@ == "Expiry Warning"@,
        r.message@ == expiry_warning_message(client_email@, days_remaining, expiry_date@, inbound_tag@),
        details_view(r.details) == Some(JsonView::Object(seq![
            ("client_email"@, JsonView::Str(client_email@)),
            ("days_remaining"@, JsonView::Int(days_remaining as int)),
            ("expiry_date"@, JsonView::Str(expiry_date@)),
            ("inbound_tag"@, JsonView::Str(inbound_tag@)),
        ])),
{
    let mut m = owned("Client *");
    push_str(&mut m, client_email);
    push_str(&mut m, "* will expire in *");
    push_i64(&mut m, days_remaining as i64);
    push_str(&mut m, "* day(s).\n\nExpiry Date: *");
    push_str(&mut m, expiry_date);
    push_str(&mut m, "*\nInbound: *");
    push_str(&mut m, inbound_tag);
    push_str(&mut m, "*");
    let mut d: Vec<(String, JsonValue)> = Vec::new();
    d.push(member("client_email", string(client_email)));
    d.push(member("days_remaining", JsonValue::Int(days_remaining as i64)));
    d.push(member("expiry_date", string(expiry_date)));
    d.push(member("inbound_tag", string(inbound_tag)));
    let r = Notification {
        notification_type: NotificationType::ExpiryWarning,
        title: owned("Expiry Warning"),
        message: m,
        details: Some(JsonValue::Object(d)),
    };
    proof {
        crate::json::lemma_members_view(d@);
        assert(crate::json::members_view(d@) =~= (seq![
            ("client_email"@, JsonView::Str(client_email@)),
            ("days_remaining"@, JsonView::Int(days_remaining as int)),
            ("expiry_date"@, JsonView::Str(expiry_date@)),
            ("inbound_tag"@, JsonView::Str(inbound_tag@)),
        ]));
    }
    r
}

/// A notice that a client has expired.
pub fn expired_notification(client_email: &str, inbound_tag: &str) -> (r: Notification)
    ensures
        r.notification_type == NotificationType::Expired,
        r.title@ == "Client Expired"@,
        r.message@ == "Client *"@ + client_email@ + "* has expired.\n\nInbound: *"@ + inbound_tag@ + "*"@,
        details_view(r.details) == Some(JsonView::Object(seq![
            ("client_email"@, JsonView::Str(client_email@)),
            ("inbound_tag"@, JsonView::Str(inbound_tag@)),
        ])),
{
    let mut m = owned("Client *");
    push_str(&mut m, client_email);
    push_str(&mut m, "* has expired.\n\nInbound: *");
    push_str(&mut m, inbound_tag);
    push_str(&mut m, "*");
    let mut d: Vec<(String, JsonValue)> = Vec::new();
    d.push(member("client_email", string(client_email)));
    d.push(member("inbound_tag", string(inbound_tag)));
    let r = Notification {
        notification_type: NotificationType::Expired,
        title: owned("Client Expired"),
        message: m,
        details: Some(JsonValue::Object(d)),
    };
    proof {
        crate::json::lemma_members_view(d@);
        assert(crate::json::members_view(d@) =~= (seq![
            ("client_email"@, JsonView::Str(client_email@)),
            ("inbound_tag"@, JsonView::Str(inbound_tag@)),
        ]));
    }
    r
}

/// A notice of a new login.
pub fn login_notification(username: &str, ip_address: &str, user_agent: &str) -> (r: Notification)
    ensures
        r.notification_type == NotificationType::Login,
        r.title@ == "New Login"@,
        r.message@ == "User *"@ + username@ + "* logged in.\n\nIP Address: *"@ + ip_address@ + "*\nUser Agent: `"@
            + user_agent@ + "`"@,
        details_view(r.details) == Some(JsonView::Object(seq![
            ("username"@, JsonView::Str(username@)),
            ("ip_address"@, JsonView::Str(ip_address@)),
            ("user_agent"@, JsonView::Str(user_agent@)),
        ])),
{
    let mut m = owned("User *");
    push_str(&mut m, username);
    push_str(&mut m, "* logged in.\n\nIP Address: *");
    push_str(&mut m, ip_address);
    push_str(&mut m, "*\nUser Agent: `");
    push_str(&mut m, user_agent);
    push_str(&mut m, "`");
    let mut d: Vec<(String, JsonValue)> = Vec::new();
    d.push(member("username", string(username)));
    d.push(member("ip_address", string(ip_address)));
    d.push(member("user_agent", string(user_agent)));
    let r = Notification {
        notification_type: NotificationType::Login,
        title: owned("New Login"),
        message: m,
        details: Some(JsonValue::Object(d)),
    };
    proof {
        crate::json::lemma_members_view(d@);
        assert(crate::json::members_view(d@) =~= (seq![
            ("username"@, JsonView::Str(username@)),
            ("ip_address"@, JsonView::Str(ip_address@)),
            ("user_agent"@, JsonView::Str(user_agent@)),
        ]));
    }
    r
}

/// A system alert of the given kind.
pub fn system_alert_notification(alert_type: &str, message: &str) -> (r: Notification)
    ensures
        r.notification_type == NotificationType::SystemAlert,
        r.title@ == "System Alert: "@ + alert_type@,
        r.message@ == message@,
        details_view(r.details) == Some(JsonView::Object(seq![("alert_type"@, JsonView::Str(alert_type@))])),
{
    let mut t = owned("System Alert: ");
    push_str(&mut t, alert_type);
    let mut d: Vec<(String, JsonValue)> = Vec::new();
    d.push(member("alert_type", string(alert_type)));
    let r = Notification {
        notification_type: NotificationType::SystemAlert,
        title: t,
        message: owned(message),
        details: Some(JsonValue::Object(d)),
    };
    proof {
        crate::json::lemma_members_view(d@);
        assert(crate::json::members_view(d@) =~= (seq![("alert_type"@, JsonView::Str(alert_type@))]));
    }
    r
}

/// A notice that a backup was written.
pub fn backup_complete_notification(filename: &str, size: i64) -> (r: Notification)
    ensures
        r.notification_type == NotificationType::BackupComplete,
        r.title@ == "Backup Complete"@,
        r.message@ == "Database backup created successfully.\n\nFile: *"@ + filename@ + "*\nSize: *"@
            + byte_count_text(size as int) + "*"@,
        details_view(r.details) == Some(JsonView::Object(seq![
            ("filename"@, JsonView::Str(filename@)),
            ("size"@, JsonView::Int(size as int)),
        ])),
{
    let mut m = owned("Database backup created successfully.\n\nFile: *");
    push_str(&mut m, filename);
    push_str(&mut m, "*\nSize: *");
    let b = format_bytes(size);
    push_str(&mut m, b.as_str());
    push_str(&mut m, "*");
    let mut d: Vec<(String, JsonValue)> = Vec::new();
    d.push(member("filename", string(filename)));
    d.push(member("size", JsonValue::Int(size)));
    let r = Notification {
        notification_type: NotificationType::BackupComplete,
        title: owned("Backup Complete"),
        message: m,
        details: Some(JsonValue::Object(d)),
    };
    proof {
        crate::json::lemma_members_view(d@);
        assert(crate::json::members_view(d@) =~= (seq![
            ("filename"@, JsonView::Str(filename@)),
            ("size"@, JsonView::Int(size as int)),
        ]));
    }
    r
}

/// A notice that Xray was restarted.
pub fn xray_restart_notification() -> (r: Notification)
    ensures
        r.notification_type == NotificationType::XrayRestart,
        r.title@ == "Xray Restarted"@,
        r.message@ == "Xray service has been restarted."@,
        r.details is None,
{
    Notification {
        notification_type: NotificationType::XrayRestart,
        title: owned("Xray Restarted"),
        message: owned("Xray service has been restarted."),
        details: None,
    }
}

/// Message of an Xray stop notice.
pub open spec fn xray_stopped_message(reason: Option<Seq<char>>) -> Seq<char> {
    match reason {
        Some(r) => "Xray service has been stopped.\n\nReason: "@ + r,
        None => "Xray service has been stopped."@,
    }
}

/// A notice that Xray stopped, with an optional reason.
pub fn xray_stopped_notification(reason: Option<&str>) -> (r: Notification)
    ensures
        r.notification_type == NotificationType::XrayStopped,
        r.title@ == "Xray Stopped"@,
        r.message@ == xray_stopped_message(match reason { Some(x) => Some(x@), None => None }),
        r.details is None,
{
    let message = match reason {
        Some(x) => {
            let mut m = owned("Xray service has been stopped.\n\nReason: ");
            push_str(&mut m, x);
            m
        },
        None => owned("Xray service has been stopped."),
    };
    Notification {
        notification_type: NotificationType::XrayStopped,
        title: owned("Xray Stopped"),
        message,
        details: None,
    }
}

/// A notice that Xray reported an error.
pub fn xray_error_notification(error: &str) -> (r: Notification)
    ensures
        r.notification_type == NotificationType::XrayError,
        r.title@ == "Xray Error"@,
        r.message@ == "Xray encountered an error:\n\n```\n"@ + error@ + "\n```"@,
        details_view(r.details) == Some(JsonView::Object(seq![("error"@, JsonView::Str(error@))])),
{
    let mut m = owned("Xray encountered an error:\n\n```\n");
    push_str(&mut m, error);
    push_str(&mut m, "\n```");
    let mut d: Vec<(String, JsonValue)> = Vec::new();
    d.push(member("error", string(error)));
    let r = Notification {
        notification_type: NotificationType::XrayError,
        title: owned("Xray Error"),
        message: m,
        details: Some(JsonValue::Object(d)),
    };
    proof {
        crate::json::lemma_members_view(d@);
        assert(crate::json::members_view(d@) =~= (seq![("error"@, JsonView::Str(error@))]));
    }
    r
}

/// Sends alerts through the Telegram bot when one is attached and alerts are enabled.
pub struct NotificationService {
    bot: Option<TelegramBot>,
    enabled: bool,
}

impl NotificationService {
    /// Whether alerts are enabled.
    pub closed spec fn spec_enabled(&self) -> bool {
        self.enabled
    }

    /// The attached bot, if any.
    pub closed spec fn spec_bot(&self) -> Option<TelegramBot> {
        self.bot
    }

    /// Whether sending now ends in an error: alerts are enabled, a bot is attached, and
    /// that bot cannot deliver.
    pub open spec fn send_fails(&self) -> bool {
        self.spec_enabled() && self.spec_bot() is Some && !self.spec_bot()->0.spec_config().can_send()
    }

    /// A service with alerts enabled and no bot attached.
    pub fn new() -> (r: NotificationService)
        ensures
            r.spec_enabled(),
            r.spec_bot() is None,
    {
        NotificationService { bot: None, enabled: true }
    }

    /// Attaches a bot.
    pub fn set_bot(&mut self, bot: TelegramBot)
        ensures
            final(self).spec_bot() == Some(bot),
            final(self).spec_enabled() == old(self).spec_enabled(),
    {
        self.bot = Some(bot);
    }

    /// Enables or disables alerts.
    pub fn set_enabled(&mut self, enabled: bool)
        ensures
            final(self).spec_enabled() == enabled,
            final(self).spec_bot() == old(self).spec_bot(),
    {
        self.enabled = enabled;
    }

    /// Whether alerts are enabled.
    pub fn is_enabled(&self) -> (r: bool)
        ensures
            r == self.spec_enabled(),
    {
        self.enabled
    }

    /// `after` is `before` once it was asked to send a notification with `text`: alerts stay
    /// as they were, and when alerts are enabled and a bot is attached, the bot is asked to
    /// deliver `text` (see `delivered_to_chat`); otherwise the bot stays as it was.
    pub open spec fn sends_text(before: NotificationService, after: NotificationService, text: Seq<char>) -> bool {
        &&& after.spec_enabled() == before.spec_enabled()
        &&& match before.spec_bot() {
            Some(b) => after.spec_bot() matches Some(nb) && (if before.spec_enabled() {
                delivered_to_chat(b, nb, text)
            } else {
                nb == b
            }),
            None => after.spec_bot() is None,
        }
    }

    /// Sends a notification: nothing happens while alerts are disabled or no bot is attached;
    /// otherwise the rendered text goes to the bot, whose refusal is passed on.
    pub fn send(&mut self, notification: &Notification) -> (r: Result<(), BotError>)
        ensures
            r is Err <==> old(self).send_fails(),
            r is Err ==> r == Err::<(), BotError>(BotError::NotConfigured),
            Self::sends_text(*old(self), *final(self),
                notification_text(notification.notification_type, notification.title@, notification.message@)),
    {
        if !self.enabled {
            return Ok(());
        }
        match &mut self.bot {
            Some(bot) => {
                let text = render_notification(notification);
                bot.send_message(text.as_str())
            },
            None => Ok(()),
        }
    }

    /// Sends a traffic limit alert (see `traffic_limit_notification`).
    pub fn notify_traffic_limit(&mut self, client_email: &str, used: i64, total: i64, percentage: i32, inbound_tag: &str) -> (r: Result<(), BotError>)
        ensures
            r is Err <==> old(self).send_fails(),
            Self::sends_text(*old(self), *final(self), notification_text(NotificationType::TrafficLimit, "Traffic Limit Alert"@, traffic_limit_message(client_email@, used, total, percentage, inbound_tag@))),
    {
        self.send(&traffic_limit_notification(client_email, used, total, percentage, inbound_tag))
    }

    /// Sends an expiry warning (see `expiry_warning_notification`).
    pub fn notify_expiry_warning(&mut self, client_email: &str, days_remaining: i32, expiry_date: &str, inbound_tag: &str) -> (r: Result<(), BotError>)
        ensures
            r is Err <==> old(self).send_fails(),
            Self::sends_text(*old(self), *final(self), notification_text(NotificationType::ExpiryWarning, "Expiry Warning"@, expiry_warning_message(client_email@, days_remaining, expiry_date@, inbound_tag@))),
    {
        self.send(&expiry_warning_notification(client_email, days_remaining, expiry_date, inbound_tag))
    }

    /// Sends an expiry notice (see `expired_notification`).
    pub fn notify_expired(&mut self, client_email: &str, inbound_tag: &str) -> (r: Result<(), BotError>)
        ensures
            r is Err <==> old(self).send_fails(),
            Self::sends_text(*old(self), *final(self), notification_text(NotificationType::Expired, "Client Expired"@, "Client *"@ + client_email@ + "* has expired.\n\nInbound: *"@ + inbound_tag@ + "*"@)),
    {
        self.send(&expired_notification(client_email, inbound_tag))
    }

    /// Sends a login notice (see `login_notification`).
    pub fn notify_login(&mut self, username: &str, ip_address: &str, user_agent: &str) -> (r: Result<(), BotError>)
        ensures
            r is Err <==> old(self).send_fails(),
            Self::sends_text(*old(self), *final(self), notification_text(NotificationType::Login, "New Login"@, "User *"@ + username@ + "* logged in.\n\nIP Address: *"@ + ip_address@ + "*\nUser Agent: `"@ + user_agent@ + "`"@)),
    {
        self.send(&login_notification(username, ip_address, user_agent))
    }

    /// Sends a system alert (see `system_alert_notification`).
    pub fn notify_system_alert(&mut self, alert_type: &str, message: &str) -> (r: Result<(), BotError>)
        ensures
            r is Err <==> old(self).send_fails(),
            Self::sends_text(*old(self), *final(self), notification_text(NotificationType::SystemAlert, "System Alert: "@ + alert_type@, message@)),
    {
        self.send(&system_alert_notification(alert_type, message))
    }

    /// Sends a backup notice (see `backup_complete_notification`).
    pub fn notify_backup_complete(&mut self, filename: &str, size: i64) -> (r: Result<(), BotError>)
        ensures
            r is Err <==> old(self).send_fails(),
            Self::sends_text(*old(self), *final(self), notification_text(NotificationType::BackupComplete, "Backup Complete"@, "Database backup created successfully.\n\nFile: *"@ + filename@ + "*\nSize: *"@ + byte_count_text(size as int) + "*"@)),
    {
        self.send(&backup_complete_notification(filename, size))
    }

    /// Sends an Xray restart notice.
    pub fn notify_xray_restart(&mut self) -> (r: Result<(), BotError>)
        ensures
            r is Err <==> old(self).send_fails(),
            Self::sends_text(*old(self), *final(self), notification_text(NotificationType::XrayRestart, "Xray Restarted"@, "Xray service has been restarted."@)),
    {
        self.send(&xray_restart_notification())
    }

    /// Sends an Xray stop notice.
    pub fn notify_xray_stopped(&mut self, reason: Option<&str>) -> (r: Result<(), BotError>)
        ensures
            r is Err <==> old(self).send_fails(),
            Self::sends_text(*old(self), *final(self), notification_text(NotificationType::XrayStopped, "Xray Stopped"@, xray_stopped_message(match reason { Some(x) => Some(x@), None => None }))),
    {
        self.send(&xray_stopped_notification(reason))
    }

    /// Sends an Xray error notice.
    pub fn notify_xray_error(&mut self, error: &str) -> (r: Result<(), BotError>)
        ensures
            r is Err <==> old(self).send_fails(),
            Self::sends_text(*old(self), *final(self), notification_text(NotificationType::XrayError, "Xray Error"@, "Xray encountered an error:\n\n```\n"@ + error@ + "\n```"@)),
    {
        self.send(&xray_error_notification(error))
    }
}

impl Default for NotificationService {
    fn default() -> (r: NotificationService)
        ensures
            r.spec_enabled(),
            r.spec_bot() is None,
    {
        NotificationService::new()
    }
}

} // verus!
