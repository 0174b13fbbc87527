//! Telegram bot message handler.
use vstd::prelude::*;
use crate::bot::commands::{
    all_commands, command_listing, command_named, command_word, descriptions_text, help_description, Command,
};

verus! {

/// Sets up the message handler; the command set is static, so nothing needs preparing.
pub fn create_handler() {
}

/// The command list registered with Telegram.
pub open spec fn command_schema_text() -> Seq<char> {
    "\n/start - Start the bot\n/help - Show available commands\n/status - Show server status\n/inbounds - List all inbounds\n/traffic - Show traffic statistics\n/restart - Restart Xray service\n/stop - Stop Xray service\n/backup - Create a database backup\n/logs - Show recent logs\n/users - List active users\n"@
}

/// The command list registered with Telegram.
pub fn get_command_schema() -> (r: &'static str)
    ensures
        r@ == command_schema_text(),
{
    "\n/start - Start the bot\n/help - Show available commands\n/status - Show server status\n/inbounds - List all inbounds\n/traffic - Show traffic statistics\n/restart - Restart Xray service\n/stop - Stop Xray service\n/backup - Create a database backup\n/logs - Show recent logs\n/users - List active users\n"
}

/// What the registered command list says a command does: the help text's words, except a
/// shorter line for `/start`.
pub open spec fn schema_description(c: Command) -> Seq<char> {
    match c {
        Command::Start => "Start the bot"@,
        _ => help_description(c),
    }
}

/// The help text and the registered command list name the same ten commands in the same
/// order, one `word - description` line each; every command appears once, and each word is
/// read back as its command.
pub proof fn lemma_command_lists_agree()
    ensures
        descriptions_text() == command_listing(|c: Command| help_description(c)),
        command_schema_text() == command_listing(|c: Command| schema_description(c)),
        all_commands().len() == 10,
        forall|i: int, j: int| 0 <= i < j < 10 ==> all_commands()[i] != all_commands()[j],
        forall|c: Command| all_commands().contains(c),
        forall|c: Command| command_named(#[trigger] command_word(c)) == Some(c),
{
    reveal_strlit("\n");
    reveal_strlit(" - ");
    reveal_strlit("/start");
    reveal_strlit("/help");
    reveal_strlit("/status");
    reveal_strlit("/inbounds");
    reveal_strlit("/traffic");
    reveal_strlit("/restart");
    reveal_strlit("/stop");
    reveal_strlit("/backup");
    reveal_strlit("/logs");
    reveal_strlit("/users");
    reveal_strlit("Start the bot and show welcome message");
    reveal_strlit("Start the bot");
    reveal_strlit("Show available commands");
    reveal_strlit("Show server status");
    reveal_strlit("List all inbounds");
    reveal_strlit("Show traffic statistics");
    reveal_strlit("Restart Xray service");
    reveal_strlit("Stop Xray service");
    reveal_strlit("Create a database backup");
    reveal_strlit("Show recent logs");
    reveal_strlit("List active users");
    reveal_strlit("\n/start - Start the bot and show welcome message\n/help - Show available commands\n/status - Show server status\n/inbounds - List all inbounds\n/traffic - Show traffic statistics\n/restart - Restart Xray service\n/stop - Stop Xray service\n/backup - Create a database backup\n/logs - Show recent logs\n/users - List active users\n");
    reveal_strlit("\n/start - Start the bot\n/help - Show available commands\n/status - Show server status\n/inbounds - List all inbounds\n/traffic - Show traffic statistics\n/restart - Restart Xray service\n/stop - Stop Xray service\n/backup - Create a database backup\n/logs - Show recent logs\n/users - List active users\n");
    reveal_with_fuel(crate::bot::commands::listing, 11);
    assert(descriptions_text() =~= command_listing(|c: Command| help_description(c)));
    assert(command_schema_text() =~= command_listing(|c: Command| schema_description(c)));
    assert forall|c: Command| all_commands().contains(c) by {
        match c {
            Command::Start => assert(all_commands()[0] == c),
            Command::Help => assert(all_commands()[1] == c),
            Command::Status => assert(all_commands()[2] == c),
            Command::Inbounds => assert(all_commands()[3] == c),
            Command::Traffic => assert(all_commands()[4] == c),
            Command::Restart => assert(all_commands()[5] == c),
            Command::Stop => assert(all_commands()[6] == c),
            Command::Backup => assert(all_commands()[7] == c),
            Command::Logs => assert(all_commands()[8] == c),
            Command::Users => assert(all_commands()[9] == c),
        }
    }
    assert forall|c: Command| command_named(#[trigger] command_word(c)) == Some(c) by {
        match c {
            Command::Start => {},
            Command::Help => {
                assert("/help"@.len() != "/start"@.len());
            },
            Command::Status => {
                assert("/status"@.len() != "/start"@.len());
                assert("/status"@.len() != "/help"@.len());
            },
            Command::Inbounds => {
                assert("/inbounds"@.len() != "/start"@.len());
                assert("/inbounds"@.len() != "/help"@.len());
                assert("/inbounds"@.len() != "/status"@.len());
            },
            Command::Traffic => {
                assert("/traffic"@.len() != "/start"@.len());
                assert("/traffic"@.len() != "/help"@.len());
                assert("/traffic"@.len() != "/status"@.len());
                assert("/traffic"@.len() != "/inbounds"@.len());
            },
            Command::Restart => {
                assert("/restart"@.len() != "/start"@.len());
                assert("/restart"@.len() != "/help"@.len());
                assert("/restart"@.len() != "/status"@.len());
                assert("/restart"@.len() != "/inbounds"@.len());
                assert("/restart"@[1] != "/traffic"@[1]);
            },
            Command::Stop => {
                assert("/stop"@.len() != "/start"@.len());
                assert("/stop"@[1] != "/help"@[1]);
                assert("/stop"@.len() != "/status"@.len());
                assert("/stop"@.len() != "/inbounds"@.len());
                assert("/stop"@.len() != "/traffic"@.len());
                assert("/stop"@.len() != "/restart"@.len());
            },
            Command::Backup => {
                assert("/backup"@[1] != "/start"@[1]);
                assert("/backup"@.len() != "/help"@.len());
                assert("/backup"@[1] != "/status"@[1]);
                assert("/backup"@.len() != "/inbounds"@.len());
                assert("/backup"@.len() != "/traffic"@.len());
                assert("/backup"@.len() != "/restart"@.len());
                assert("/backup"@.len() != "/stop"@.len());
            },
            Command::Logs => {
                assert("/logs"@.len() != "/start"@.len());
                assert("/logs"@[1] != "/help"@[1]);
                assert("/logs"@.len() != "/status"@.len());
                assert("/logs"@.len() != "/inbounds"@.len());
                assert("/logs"@.len() != "/traffic"@.len());
                assert("/logs"@.len() != "/restart"@.len());
                assert("/logs"@[1] != "/stop"@[1]);
                assert("/logs"@.len() != "/backup"@.len());
            },
            Command::Users => {
                assert("/users"@[1] != "/start"@[1]);
                assert("/users"@.len() != "/help"@.len());
                assert("/users"@.len() != "/status"@.len());
                assert("/users"@.len() != "/inbounds"@.len());
                assert("/users"@.len() != "/traffic"@.len());
                assert("/users"@.len() != "/restart"@.len());
                assert("/users"@.len() != "/stop"@.len());
                assert("/users"@.len() != "/backup"@.len());
                assert("/users"@.len() != "/logs"@.len());
            },
        }
    }
}

} // verus!
