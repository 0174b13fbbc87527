//! Telegram bot commands.
use vstd::prelude::*;
use crate::text::{int_text, owned, push_i64, push_str, str_eq, trim, trimmed};

verus! {

/// Bot commands.
#[derive(Debug, Clone, Copy, PartialEq, Eq, Structural)]
pub enum Command {
    Start,
    Help,
    Status,
    Inbounds,
    Traffic,
    Restart,
    Stop,
    Backup,
    Logs,
    Users,
}

/// The help text that lists every command.
pub open spec fn descriptions_text() -> Seq<char> {
    "\n/start - Start the bot and show welcome message\n/help - Show available commands\n/status - Show server status\n/inbounds - List all inbounds\n/traffic - Show traffic statistics\n/restart - Restart Xray service\n/stop - Stop Xray service\n/backup - Create a database backup\n/logs - Show recent logs\n/users - List active users\n"@
}

impl Command {
    /// The help text that lists every command.
    pub fn descriptions() -> (r: String)
        ensures
            r@ == descriptions_text(),
    {
        owned("\n/start - Start the bot and show welcome message\n/help - Show available commands\n/status - Show server status\n/inbounds - List all inbounds\n/traffic - Show traffic statistics\n/restart - Restart Xray service\n/stop - Stop Xray service\n/backup - Create a database backup\n/logs - Show recent logs\n/users - List active users\n")
    }
}

/// The word that invokes a command.
pub open spec fn command_word(c: Command) -> Seq<char> {
    match c {
        Command::Start => "/start"@,
        Command::Help => "/help"@,
        Command::Status => "/status"@,
        Command::Inbounds => "/inbounds"@,
        Command::Traffic => "/traffic"@,
        Command::Restart => "/restart"@,
        Command::Stop => "/stop"@,
        Command::Backup => "/backup"@,
        Command::Logs => "/logs"@,
        Command::Users => "/users"@,
    }
}

/// Every command, in the order the bot lists them.
pub open spec fn all_commands() -> Seq<Command> {
    seq![
        Command::Start, Command::Help, Command::Status, Command::Inbounds, Command::Traffic,
        Command::Restart, Command::Stop, Command::Backup, Command::Logs, Command::Users,
    ]
}

/// One line per command, `word - description`, in the order given.
pub open spec fn listing(cs: Seq<Command>, describe: spec_fn(Command) -> Seq<char>) -> Seq<char>
    decreases cs.len(),
{
    if cs.len() == 0 {
        Seq::empty()
    } else {
        command_word(cs[0]) + " - "@ + describe(cs[0]) + "\n"@ + listing(cs.drop_first(), describe)
    }
}

/// A command list as the bot writes it: an empty first line, then every command's line.
pub open spec fn command_listing(describe: spec_fn(Command) -> Seq<char>) -> Seq<char> {
    "\n"@ + listing(all_commands(), describe)
}

/// What the help text says a command does.
pub open spec fn help_description(c: Command) -> Seq<char> {
    match c {
        Command::Start => "Start the bot and show welcome message"@,
        Command::Help => "Show available commands"@,
        Command::Status => "Show server status"@,
        Command::Inbounds => "List all inbounds"@,
        Command::Traffic => "Show traffic statistics"@,
        Command::Restart => "Restart Xray service"@,
        Command::Stop => "Stop Xray service"@,
        Command::Backup => "Create a database backup"@,
        Command::Logs => "Show recent logs"@,
        Command::Users => "List active users"@,
    }
}

/// The command written as `text` exactly, if any.
pub open spec fn command_named(text: Seq<char>) -> Option<Command> {
    if text == "/start"@ { Some(Command::Start) }
    else if text == "/help"@ { Some(Command::Help) }
    else if text == "/status"@ { Some(Command::Status) }
    else if text == "/inbounds"@ { Some(Command::Inbounds) }
    else if text == "/traffic"@ { Some(Command::Traffic) }
    else if text == "/restart"@ { Some(Command::Restart) }
    else if text == "/stop"@ { Some(Command::Stop) }
    else if text == "/backup"@ { Some(Command::Backup) }
    else if text == "/logs"@ { Some(Command::Logs) }
    else if text == "/users"@ { Some(Command::Users) }
    else { None }
}

/// The command written as `text` exactly (no surrounding white space allowed).
pub fn command_from_text(text: &str) -> (r: Option<Command>)
    ensures
        r == command_named(text@),
{
    if str_eq(text, "/start") { Some(Command::Start) }
    else if str_eq(text, "/help") { Some(Command::Help) }
    else if str_eq(text, "/status") { Some(Command::Status) }
    else if str_eq(text, "/inbounds") { Some(Command::Inbounds) }
    else if str_eq(text, "/traffic") { Some(Command::Traffic) }
    else if str_eq(text, "/restart") { Some(Command::Restart) }
    else if str_eq(text, "/stop") { Some(Command::Stop) }
    else if str_eq(text, "/backup") { Some(Command::Backup) }
    else if str_eq(text, "/logs") { Some(Command::Logs) }
    else if str_eq(text, "/users") { Some(Command::Users) }
    else { None }
}

/// Parses a command from a message, ignoring surrounding white space.
pub fn parse_command(text: &str) -> (r: Option<Command>)
    ensures
        r == command_named(trimmed(text@)),
{
    let t = trim(text);
    command_from_text(t.as_str())
}

/// Reply to `/start`.
pub open spec fn start_reply(chat_id: i64) -> Seq<char> {
    "🤖 Welcome to r3-UI Bot!\n\nChat ID: "@ + int_text(chat_id as int) + "\n\nUse /help to see available commands."@
}

/// Reply to `/start`: a welcome that shows the chat id.
pub fn handle_start(chat_id: i64) -> (r: String)
    ensures
        r@ == start_reply(chat_id),
{
    let mut s = owned("🤖 Welcome to r3-UI Bot!\n\nChat ID: ");
    push_i64(&mut s, chat_id);
    push_str(&mut s, "\n\nUse /help to see available commands.");
    s
}

/// Reply to `/help`.
pub fn handle_help() -> (r: String)
    ensures
        r@ == descriptions_text(),
{
    Command::descriptions()
}

/// Reply to `/status`.
pub fn handle_status() -> (r: String)
    ensures
        r@ == "📊 Server Status\n\nStatus: Running\nXray: Active"@,
{
    owned("📊 Server Status\n\nStatus: Running\nXray: Active")
}

/// Reply to `/inbounds`.
pub fn handle_inbounds() -> (r: String)
    ensures
        r@ == "📋 Inbounds List\n\nNo inbounds configured."@,
{
    owned("📋 Inbounds List\n\nNo inbounds configured.")
}

/// Reply to `/traffic`.
pub fn handle_traffic() -> (r: String)
    ensures
        r@ == "📈 Traffic Statistics\n\nToday: 0 GB"@,
{
    owned("📈 Traffic Statistics\n\nToday: 0 GB")
}

/// Reply to `/restart`.
pub fn handle_restart() -> (r: String)
    ensures
        r@ == "🔄 Xray restart command received"@,
{
    owned("🔄 Xray restart command received")
}

/// Reply to `/stop`.
pub fn handle_stop() -> (r: String)
    ensures
        r@ == "⏹️ Xray stop command received"@,
{
    owned("⏹️ Xray stop command received")
}

/// Reply to `/backup`.
pub fn handle_backup() -> (r: String)
    ensures
        r@ == "💾 Backup creation initiated"@,
{
    owned("💾 Backup creation initiated")
}

/// Reply to `/logs`.
pub fn handle_logs() -> (r: String)
    ensures
        r@ == "📝 Recent Logs\n\nNo logs available."@,
{
    owned("📝 Recent Logs\n\nNo logs available.")
}

/// Reply to `/users`.
pub fn handle_users() -> (r: String)
    ensures
        r@ == "👥 Active Users\n\nNo active users."@,
{
    owned("👥 Active Users\n\nNo active users.")
}

/// The reply the bot gives to a command in a chat.
pub open spec fn command_reply(command: Command, chat_id: i64) -> Seq<char> {
    match command {
        Command::Start => start_reply(chat_id),
        Command::Help => descriptions_text(),
        Command::Status => "📊 Server Status\n\nStatus: Running\nXray: Active"@,
        Command::Inbounds => "📋 Inbounds List\n\nNo inbounds configured."@,
        Command::Traffic => "📈 Traffic Statistics\n\nToday: 0 GB"@,
        Command::Restart => "🔄 Xray restart command received"@,
        Command::Stop => "⏹️ Xray stop command received"@,
        Command::Backup => "💾 Backup creation initiated"@,
        Command::Logs => "📝 Recent Logs\n\nNo logs available."@,
        Command::Users => "👥 Active Users\n\nNo active users."@,
    }
}

/// Executes a command and returns the reply.
pub fn execute_command(command: Command, chat_id: i64) -> (r: String)
    ensures
        r@ == command_reply(command, chat_id),
{
    match command {
        Command::Start => handle_start(chat_id),
        Command::Help => handle_help(),
        Command::Status => handle_status(),
        Command::Inbounds => handle_inbounds(),
        Command::Traffic => handle_traffic(),
        Command::Restart => handle_restart(),
        Command::Stop => handle_stop(),
        Command::Backup => handle_backup(),
        Command::Logs => handle_logs(),
        Command::Users => handle_users(),
    }
}

/// Each command is read back from its own word, and only from it.
pub proof fn lemma_command_words_roundtrip(c: Command, text: Seq<char>)
    ensures
        command_named(command_word(c)) == Some(c),
        command_named(text) == Some(c) ==> text == command_word(c),
{
    reveal_strlit("/start");
    reveal_strlit("/help");
    reveal_strlit("/status");
    reveal_strlit("/inbounds");
    reveal_strlit("/traffic");
    reveal_strlit("/restart");
    reveal_strlit("/stop");
    reveal_strlit("/backup");
    reveal_strlit("/logs");
    reveal_strlit("/users");
    assert("/start"@.len() == 6 && "/help"@.len() == 5 && "/status"@.len() == 7 && "/inbounds"@.len() == 9 && "/traffic"@.len() == 8 && "/restart"@.len() == 8 && "/stop"@.len() == 5 && "/backup"@.len() == 7 && "/logs"@.len() == 5 && "/users"@.len() == 6);
    assert("/start"@[1] != "/users"@[1]);
    assert("/help"@[1] != "/stop"@[1] && "/help"@[1] != "/logs"@[1] && "/stop"@[1] != "/logs"@[1]);
    assert("/status"@[1] != "/backup"@[1]);
    assert("/traffic"@[1] != "/restart"@[1]);
}

} // verus!
