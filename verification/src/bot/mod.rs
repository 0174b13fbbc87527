//! Telegram bot integration: configuration, command parsing, notifications and backups.
pub mod backup;
pub mod commands;
pub mod handler;
pub mod notify;

pub use backup::BackupService;
pub use notify::NotificationService;

use vstd::prelude::*;

verus! {

/// Bot configuration.
pub struct BotConfig {
    pub enabled: bool,
    pub token: String,
    pub chat_id: i64,
    pub admin_ids: Vec<i64>,
    pub notify_on_traffic_limit: bool,
    pub notify_on_expiry: bool,
    pub notify_on_login: bool,
}

/// The mathematical content of a `BotConfig`.
pub struct BotConfigView {
    pub enabled: bool,
    pub token: Seq<char>,
    pub chat_id: i64,
    pub admin_ids: Seq<i64>,
    pub notify_on_traffic_limit: bool,
    pub notify_on_expiry: bool,
    pub notify_on_login: bool,
}

impl View for BotConfig {
    type V = BotConfigView;

    open spec fn view(&self) -> BotConfigView {
        BotConfigView {
            enabled: self.enabled,
            token: self.token@,
            chat_id: self.chat_id,
            admin_ids: self.admin_ids@,
            notify_on_traffic_limit: self.notify_on_traffic_limit,
            notify_on_expiry: self.notify_on_expiry,
            notify_on_login: self.notify_on_login,
        }
    }
}

impl BotConfigView {
    /// Whether messages can be delivered with this configuration.
    pub open spec fn can_send(self) -> bool {
        self.enabled && self.chat_id != 0
    }
}

impl BotConfig {
    /// A field-by-field copy.
    pub fn duplicate(&self) -> (r: BotConfig)
        ensures
            r@ == self@,
    {
        BotConfig {
            enabled: self.enabled,
            token: self.token.clone(),
            chat_id: self.chat_id,
            admin_ids: self.admin_ids.clone(),
            notify_on_traffic_limit: self.notify_on_traffic_limit,
            notify_on_expiry: self.notify_on_expiry,
            notify_on_login: self.notify_on_login,
        }
    }
}

impl Default for BotConfig {
    fn default() -> (r: BotConfig)
        ensures
            !r.enabled,
            r.token@ == Seq::<char>::empty(),
            r.chat_id == 0,
            r.admin_ids@ == Seq::<i64>::empty(),
            r.notify_on_traffic_limit,
            r.notify_on_expiry,
            !r.notify_on_login,
    {
        BotConfig {
            enabled: false,
            token: String::new(),
            chat_id: 0,
            admin_ids: Vec::new(),
            notify_on_traffic_limit: true,
            notify_on_expiry: true,
            notify_on_login: false,
        }
    }
}

/// Why the bot could not deliver a message.
#[derive(Debug, Clone, Copy, PartialEq, Eq, Structural)]
pub enum BotError {
    /// The bot is disabled or has no target chat.
    NotConfigured,
}

/// Telegram bot service holding its configuration, and, as ghost state, the messages it has
/// accepted for delivery with their chat ids, in order.
pub struct TelegramBot {
    config: BotConfig,
    delivered: Ghost<Seq<(i64, Seq<char>)>>,
}

/// `after` is `before` once it was asked to deliver `text` to its configured chat: the
/// configuration stays, and the message is recorded when the bot can send.
pub open spec fn delivered_to_chat(before: TelegramBot, after: TelegramBot, text: Seq<char>) -> bool {
    &&& after.spec_config() == before.spec_config()
    &&& after.spec_delivered() == if before.spec_config().can_send() {
            before.spec_delivered().push((before.spec_config().chat_id, text))
        } else {
            before.spec_delivered()
        }
}

impl TelegramBot {
    /// The configuration the bot currently holds.
    pub closed spec fn spec_config(&self) -> BotConfigView {
        self.config@
    }

    /// The messages the bot has accepted for delivery, with their chat ids, in order.
    pub closed spec fn spec_delivered(&self) -> Seq<(i64, Seq<char>)> {
        self.delivered@
    }

    /// Creates a bot with the given configuration.
    pub fn new(config: BotConfig) -> (r: TelegramBot)
        ensures
            r.spec_config() == config@,
            r.spec_delivered() == Seq::<(i64, Seq<char>)>::empty(),
    {
        TelegramBot { config, delivered: Ghost(Seq::empty()) }
    }

    /// Whether the bot is enabled and has a token.
    pub fn is_enabled(&self) -> (r: bool)
        ensures
            r == (self.spec_config().enabled && self.spec_config().token.len() > 0),
    {
        self.config.enabled && !self.config.token.as_str().is_empty()
    }

    /// Replaces the configuration.
    pub fn update_config(&mut self, config: BotConfig) -> (r: Result<(), BotError>)
        ensures
            final(self).spec_config() == config@,
            final(self).spec_delivered() == old(self).spec_delivered(),
            r is Ok,
    {
        self.config = config;
        Ok(())
    }

    /// A copy of the current configuration.
    pub fn get_config(&self) -> (r: BotConfig)
        ensures
            r@ == self.spec_config(),
    {
        self.config.duplicate()
    }

    /// Delivers a message to the configured chat: refused unless the bot is enabled and has
    /// a chat id.
    pub fn send_message(&mut self, text: &str) -> (r: Result<(), BotError>)
        ensures
            r is Ok <==> old(self).spec_config().can_send(),
            r is Err ==> r == Err::<(), BotError>(BotError::NotConfigured),
            delivered_to_chat(*old(self), *final(self), text@),
    {
        if !self.config.enabled || self.config.chat_id == 0 {
            return Err(BotError::NotConfigured);
        }
        self.delivered = Ghost(self.delivered@.push((self.config.chat_id, text@)));
        Ok(())
    }

    /// Delivers a message to a given chat; always accepted.
    pub fn send_message_to(&mut self, chat_id: i64, text: &str) -> (r: Result<(), BotError>)
        ensures
            r is Ok,
            final(self).spec_config() == old(self).spec_config(),
            final(self).spec_delivered() == old(self).spec_delivered().push((chat_id, text@)),
    {
        self.delivered = Ghost(self.delivered@.push((chat_id, text@)));
        Ok(())
    }
}

/// Starts the bot's update loop; the bot needs no loop of its own, so this succeeds at once.
pub fn start_bot(bot: TelegramBot) -> (r: Result<(), BotError>)
    ensures
        r is Ok,
{
    Ok(())
}

} // verus!
