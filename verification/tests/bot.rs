use r3_ui::bot::backup::{
    backup_file_name, backups_to_delete, format_size, is_backup_file, newest_backups_first, BackupConfig, BackupService,
};
use r3_ui::bot::commands::{execute_command, parse_command, Command};
use r3_ui::bot::notify::{
    format_bytes, notification_type_emoji, render_notification, traffic_limit_notification,
    NotificationService, NotificationType,
};
use r3_ui::bot::handler::get_command_schema;
use r3_ui::bot::{BotConfig, TelegramBot};

#[test]
fn test_format_size() {
    assert_eq!(format_size(500), "500 B");
    assert_eq!(format_size(1024), "1.00 KB");
    assert_eq!(format_size(1048576), "1.00 MB");
    assert_eq!(format_size(1073741824), "1.00 GB");
}

#[test]
fn test_backup_config_default() {
    let config = BackupConfig::default();
    assert!(config.enabled);
    assert_eq!(config.keep_count, 7);
    assert_eq!(config.cron_schedule, "0 3 * * *");
}

#[test]
fn notify_test_format_bytes() {
    assert_eq!(format_bytes(500), "500 B");
    assert_eq!(format_bytes(1024), "1.00 KB");
    assert_eq!(format_bytes(1536), "1.50 KB");
    assert_eq!(format_bytes(1048576), "1.00 MB");
    assert_eq!(format_bytes(1073741824), "1.00 GB");
    assert_eq!(format_bytes(1099511627776), "1.00 TB");
}

#[test]
fn test_notification_type_emoji() {
    assert_eq!(notification_type_emoji(&NotificationType::TrafficLimit), "⚠️");
    assert_eq!(notification_type_emoji(&NotificationType::BackupComplete), "💾");
    assert_eq!(notification_type_emoji(&NotificationType::XrayError), "🔥");
}

fn float_format(bytes: i64) -> String {
    let kb: i64 = 1024;
    let mb = kb * 1024;
    let gb = mb * 1024;
    let tb = gb * 1024;
    if bytes < 0 {
        "0 B".to_string()
    } else if bytes >= tb {
        format!("{:.2} TB", bytes as f64 / tb as f64)
    } else if bytes >= gb {
        format!("{:.2} GB", bytes as f64 / gb as f64)
    } else if bytes >= mb {
        format!("{:.2} MB", bytes as f64 / mb as f64)
    } else if bytes >= kb {
        format!("{:.2} KB", bytes as f64 / kb as f64)
    } else {
        format!("{} B", bytes)
    }
}

#[test]
fn format_bytes_matches_binary64_rounding() {
    let mut samples: Vec<i64> = vec![
        -1, 0, 1, 1023, 1029, 1034, 1035, 1039, 1541, 2047, 10_245, 1_048_575, 5_248_000,
        123_456_789, 1 << 40, (1 << 53) - 1, 1 << 53, (1 << 53) + 1, (1 << 60) + 12345, i64::MAX,
    ];
    // values whose quotient sits exactly half way between two hundredths
    for k in 0..4096i64 {
        if (k * 100) % 1024 == 512 {
            samples.push(k);
            samples.push(k * 1024);
        }
    }
    for x in 0..3000i64 {
        samples.push(1024 + x * 37);
        samples.push((1 << 53) + x * 977);
        samples.push(i64::MAX - x * 1013);
    }
    for b in samples {
        assert_eq!(format_bytes(b), float_format(b), "bytes = {}", b);
    }
}

#[test]
fn format_size_large_values() {
    for x in 0..2000u64 {
        let b = u64::MAX - x * 104_729;
        assert_eq!(format_size(b), format!("{:.2} GB", b as f64 / 1073741824f64));
    }
}

#[test]
fn parse_command_trims_white_space() {
    assert_eq!(parse_command("  /help \n"), Some(Command::Help));
    assert_eq!(parse_command("/users"), Some(Command::Users));
    assert_eq!(parse_command("/unknown"), None);
    assert_eq!(parse_command("/HELP"), None);
    assert_eq!(parse_command("\u{3000}/stop\u{a0}\u{2029}"), Some(Command::Stop));
    assert_eq!(parse_command("\u{200b}/stop"), None);
}

#[test]
fn start_reply_shows_chat_id() {
    assert_eq!(
        execute_command(Command::Start, -42),
        "🤖 Welcome to r3-UI Bot!\n\nChat ID: -42\n\nUse /help to see available commands."
    );
    assert_eq!(execute_command(Command::Help, 1), Command::descriptions());
}

#[test]
fn telegram_bot_refuses_without_chat() {
    let mut config = BotConfig::default();
    let mut bot = TelegramBot::new(BotConfig::default());
    assert!(bot.send_message("x").is_err());
    assert!(!bot.is_enabled());
    config.enabled = true;
    config.chat_id = 7;
    config.token = "t".to_string();
    let mut bot = TelegramBot::new(config);
    assert!(bot.send_message("x").is_ok());
    assert!(bot.is_enabled());
}

#[test]
fn notification_rendering() {
    let n = traffic_limit_notification("a@b", 1536, 2048, 75, "vmess-443");
    assert_eq!(
        n.message,
        "Client *a@b* has reached 75% of traffic limit.\n\nUsed: *1.50 KB* / *2.00 KB*\nInbound: *vmess-443*"
    );
    assert_eq!(
        render_notification(&n),
        "⚠️ *Traffic Limit Alert*\n\nClient *a@b* has reached 75% of traffic limit.\n\nUsed: *1.50 KB* / *2.00 KB*\nInbound: *vmess-443*"
    );
}

#[test]
fn notification_service_send() {
    let mut service = NotificationService::new();
    let n = traffic_limit_notification("a", 1, 2, 50, "t");
    assert!(service.send(&n).is_ok());
    service.set_bot(TelegramBot::new(BotConfig::default()));
    assert!(service.send(&n).is_err());
    service.set_enabled(false);
    assert!(service.send(&n).is_ok());
}

#[test]
fn backup_helpers() {
    assert_eq!(backup_file_name("20240101_030000"), "backup_20240101_030000.db");
    assert_eq!(backups_to_delete(vec![1, 2, 3, 4], 2), vec![3, 4]);
    assert!(backups_to_delete(vec![1, 2], 7).is_empty());
}

#[test]
fn help_and_schema_list_the_same_commands() {
    let words = |text: &str| -> Vec<String> {
        text.lines()
            .filter(|l| l.starts_with('/'))
            .map(|l| l.split(" - ").next().unwrap().to_string())
            .collect()
    };
    let help = words(&Command::descriptions());
    let schema = words(get_command_schema());
    assert_eq!(help, schema);
    assert_eq!(help.len(), 10);
    let mut seen = Vec::new();
    for w in &help {
        let c = parse_command(w).unwrap();
        assert!(!seen.contains(&c));
        seen.push(c);
    }
}

#[test]
fn backup_listing_order() {
    assert!(is_backup_file("backup_20240101_030000.db"));
    assert!(is_backup_file("a.db"));
    assert!(!is_backup_file(".db"));
    assert!(!is_backup_file("db"));
    assert!(!is_backup_file("a.db.bak"));
    let names: Vec<String> = ["old.db", "notes.txt", "new.db", "same.db", "twin.db"].iter().map(|s| s.to_string()).collect();
    let times = vec![(100, 0), (500, 0), (300, 5), (200, 0), (200, 0)];
    assert_eq!(newest_backups_first(&names, &times), vec![2, 3, 4, 0]);
}

#[test]
fn backup_announcement_without_bot_is_quiet() {
    let mut service = BackupService::new(BackupConfig::default(), "data.db".to_string());
    service.announce_backup("backup_x.db", 10);
    assert!(!service.has_bot());
    let mut config = BotConfig::default();
    config.enabled = true;
    config.chat_id = 7;
    service.set_bot(TelegramBot::new(config));
    service.announce_backup("backup_x.db", 10);
    assert!(service.has_bot());
}
