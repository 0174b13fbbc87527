//! Database backup service for the Telegram bot.
use vstd::prelude::*;
use crate::bot::{delivered_to_chat, TelegramBot};
use crate::text::{nat_text, owned, push_scaled, push_str, push_u128, scaled_text};

verus! {

/// Backup configuration.
pub struct BackupConfig {
    pub enabled: bool,
    /// Directory that receives the backups.
    pub backup_path: String,
    pub cron_schedule: String,
    pub keep_count: usize,
    pub send_to_telegram: bool,
}

/// The mathematical content of a `BackupConfig`.
pub struct BackupConfigView {
    pub enabled: bool,
    pub backup_path: Seq<char>,
    pub cron_schedule: Seq<char>,
    pub keep_count: usize,
    pub send_to_telegram: bool,
}

impl View for BackupConfig {
    type V = BackupConfigView;

    open spec fn view(&self) -> BackupConfigView {
        BackupConfigView {
            enabled: self.enabled,
            backup_path: self.backup_path@,
            cron_schedule: self.cron_schedule@,
            keep_count: self.keep_count,
            send_to_telegram: self.send_to_telegram,
        }
    }
}

impl BackupConfig {
    /// A field-by-field copy.
    pub fn duplicate(&self) -> (r: BackupConfig)
        ensures
            r@ == self@,
    {
        BackupConfig {
            enabled: self.enabled,
            backup_path: self.backup_path.clone(),
            cron_schedule: self.cron_schedule.clone(),
            keep_count: self.keep_count,
            send_to_telegram: self.send_to_telegram,
        }
    }
}

impl Default for BackupConfig {
    /// Daily backups at 3 AM into `./backup`, keeping seven, not sent to Telegram.
    fn default() -> (r: BackupConfig)
        ensures
            r.enabled,
            r.backup_path@ == "./backup"@,
            r.cron_schedule@ == "0 3 * * *"@,
            r.keep_count == 7,
            !r.send_to_telegram,
    {
        BackupConfig {
            enabled: true,
            backup_path: owned("./backup"),
            cron_schedule: owned("0 3 * * *"),
            keep_count: 7,
            send_to_telegram: false,
        }
    }
}

/// Human readable file size with binary units up to GB.
pub open spec fn file_size_text(size: nat) -> Seq<char> {
    if size >= 0x4000_0000 {
        scaled_text(size, 0x4000_0000) + " GB"@
    } else if size >= 0x10_0000 {
        scaled_text(size, 0x10_0000) + " MB"@
    } else if size >= 1024 {
        scaled_text(size, 1024) + " KB"@
    } else {
        nat_text(size) + " B"@
    }
}

/// Formats a file size for humans (see `file_size_text`).
pub fn format_size(size: u64) -> (r: String)
    ensures
        r@ == file_size_text(size as nat),
{
    let mut s = String::new();
    if size >= 0x4000_0000 {
        push_scaled(&mut s, size, 0x4000_0000);
        push_str(&mut s, " GB");
    } else if size >= 0x10_0000 {
        push_scaled(&mut s, size, 0x10_0000);
        push_str(&mut s, " MB");
    } else if size >= 1024 {
        push_scaled(&mut s, size, 1024);
        push_str(&mut s, " KB");
    } else {
        push_u128(&mut s, size as u128);
        push_str(&mut s, " B");
    }
    s
}

/// File name of a backup taken at the given `%Y%m%d_%H%M%S` time stamp.
pub fn backup_file_name(stamp: &str) -> (r: String)
    ensures
        r@ == "backup_"@ + stamp@ + ".db"@,
{
    let mut s = owned("backup_");
    push_str(&mut s, stamp);
    push_str(&mut s, ".db");
    s
}

/// Path of the copy kept of the live database before it is overwritten, for a given
/// purpose (`pre_restore` or `pre_import`) and time stamp.
pub fn safety_copy_path(database_path: &str, purpose: &str, stamp: &str) -> (r: String)
    ensures
        r@ == database_path@ + "."@ + purpose@ + "."@ + stamp@,
{
    let mut s = owned(database_path);
    push_str(&mut s, ".");
    push_str(&mut s, purpose);
    push_str(&mut s, ".");
    push_str(&mut s, stamp);
    s
}

/// Chat message announcing a new backup.
pub open spec fn backup_created_text(filename: Seq<char>, size: u64) -> Seq<char> {
    "💾 Backup created: "@ + filename + "\nSize: "@ + nat_text(size as nat) + " bytes"@
}

/// Chat message announcing a new backup (see `backup_created_text`).
pub fn backup_created_message(filename: &str, size: u64) -> (r: String)
    ensures
        r@ == backup_created_text(filename@, size),
{
    let mut s = owned("💾 Backup created: ");
    push_str(&mut s, filename);
    push_str(&mut s, "\nSize: ");
    push_u128(&mut s, size as u128);
    push_str(&mut s, " bytes");
    s
}

/// The backups to delete from a list ordered newest first: all after the first `keep_count`.
pub fn backups_to_delete<T>(backups: Vec<T>, keep_count: usize) -> (r: Vec<T>)
    ensures
        keep_count >= backups@.len() ==> r@ == Seq::<T>::empty(),
        keep_count < backups@.len() ==> r@ == backups@.subrange(keep_count as int, backups@.len() as int),
{
    let mut backups = backups;
    if keep_count >= backups.len() {
        return Vec::new();
    }
    backups.split_off(keep_count)
}

/// Whether a file is a backup: its extension, as `Path::extension` reads it, is `db`, that is
/// the name has at least one character before a final `.db`.
pub open spec fn is_backup_name(name: Seq<char>) -> bool {
    name.len() >= 4 && name.skip(name.len() - 3) == ".db"@
}

/// Whether a modification time `a` (seconds, then nanoseconds) is later than `b`.
pub open spec fn later(a: (i64, u32), b: (i64, u32)) -> bool {
    a.0 > b.0 || (a.0 == b.0 && a.1 > b.1)
}

/// Whether entry `i` comes before entry `j` when backups are listed newest first: it is
/// later, or as late and earlier in the directory.
pub open spec fn listed_before(times: Seq<(i64, u32)>, i: int, j: int) -> bool {
    later(times[i], times[j]) || (times[i] == times[j] && i < j)
}

/// Whether a modification time is later than another (see `later`).
fn is_later(a: (i64, u32), b: (i64, u32)) -> (r: bool)
    ensures
        r == later(a, b),
{
    a.0 > b.0 || (a.0 == b.0 && a.1 > b.1)
}

/// Whether a file name is a backup's (see `is_backup_name`).
pub fn is_backup_file(name: &str) -> (r: bool)
    ensures
        r == is_backup_name(name@),
{
    let cs = crate::text::chars_of(name);
    let n = cs.len();
    proof {
        reveal_strlit(".db");
    }
    if n < 4 {
        return false;
    }
    let r = cs[n - 3] == '.' && cs[n - 2] == 'd' && cs[n - 1] == 'b';
    proof {
        let t = name@.skip(n - 3);
        if r {
            assert(t =~= ".db"@);
        } else {
            if t == ".db"@ {
                assert(t[0] == cs@[n - 3]);
                assert(t[1] == cs@[n - 2]);
                assert(t[2] == cs@[n - 1]);
            }
        }
    }
    r
}

/// The backups of a directory listing, newest first: the positions of the entries whose
/// names are backups', ordered by modification time, later first, with entries of the same
/// time in directory order.
pub fn newest_backups_first(names: &Vec<String>, times: &Vec<(i64, u32)>) -> (r: Vec<usize>)
    requires
        names.len() == times.len(),
    ensures
        forall|i: int| 0 <= i < r.len() ==> r@[i] < names.len(),
        forall|k: int| 0 <= k < names.len() ==> (r@.contains(k as usize) <==> is_backup_name(names@[k]@)),
        forall|i: int, j: int| 0 <= i < j < r.len() ==> listed_before(times@, r@[i] as int, r@[j] as int),
{
    let mut r: Vec<usize> = Vec::new();
    let mut k: usize = 0;
    while k < names.len()
        invariant
            k <= names.len(),
            names.len() == times.len(),
            forall|i: int| 0 <= i < r.len() ==> r@[i] < k,
            forall|m: int| 0 <= m < k ==> (r@.contains(m as usize) <==> is_backup_name(names@[m]@)),
            forall|i: int, j: int| 0 <= i < j < r.len() ==> listed_before(times@, r@[i] as int, r@[j] as int),
        decreases names.len() - k,
    {
        if is_backup_file(names[k].as_str()) {
            let mut p: usize = 0;
            while p < r.len() && !is_later(times[k], times[r[p]])
                invariant
                    p <= r.len(),
                    k < names.len(),
                    names.len() == times.len(),
                    forall|i: int| 0 <= i < r.len() ==> r@[i] < k,
                    forall|q: int| 0 <= q < p ==> !later(times@[k as int], #[trigger] times@[r@[q] as int]),
                decreases r.len() - p,
            {
                p = p + 1;
            }
            let ghost old_r = r@;
            r.insert(p, k);
            proof {
                assert(r@ == old_r.insert(p as int, k));
                assert forall|i: int, j: int| 0 <= i < j < r.len() implies listed_before(times@, r@[i] as int, r@[j] as int) by {
                    if j < p {
                    } else if i < p && j == p {
                        assert(!later(times@[k as int], times@[old_r[i] as int]));
                    } else if i < p && j > p {
                        assert(r@[j] == old_r[j - 1]);
                    } else if i == p {
                        assert(r@[j] == old_r[j - 1]);
                        assert(later(times@[k as int], times@[old_r[p as int] as int]));
                        if j - 1 > p {
                            assert(listed_before(times@, old_r[p as int] as int, old_r[j - 1] as int));
                        }
                    } else {
                        assert(r@[i] == old_r[i - 1]);
                        assert(r@[j] == old_r[j - 1]);
                    }
                }
                assert forall|m: int| 0 <= m <= k implies (r@.contains(m as usize) <==> is_backup_name(names@[m]@)) by {
                    if m < k {
                        if old_r.contains(m as usize) {
                            let w = choose|w: int| 0 <= w < old_r.len() && old_r[w] == m as usize;
                            if w < p { assert(r@[w] == m as usize); } else { assert(r@[w + 1] == m as usize); }
                        }
                        if r@.contains(m as usize) {
                            let w = choose|w: int| 0 <= w < r.len() && r@[w] == m as usize;
                            if w < p { assert(old_r[w] == m as usize); }
                            else if w > p { assert(old_r[w - 1] == m as usize); }
                        }
                    } else {
                        assert(r@[p as int] == k);
                    }
                }
            }
        } else {
            proof {
                assert forall|m: int| 0 <= m <= k implies (r@.contains(m as usize) <==> is_backup_name(names@[m]@)) by {
                    if m == k as int && r@.contains(m as usize) {
                        let w = choose|w: int| 0 <= w < r.len() && r@[w] == m as usize;
                    }
                }
            }
        }
        k = k + 1;
    }
    r
}

/// Backup service state: configuration, optional bot, and the live database file.
pub struct BackupService {
    config: BackupConfig,
    bot: Option<TelegramBot>,
    database_path: String,
}

impl BackupService {
    /// The current configuration.
    pub closed spec fn spec_config(&self) -> BackupConfigView {
        self.config@
    }

    /// Whether a bot is attached.
    pub closed spec fn spec_has_bot(&self) -> bool {
        self.bot is Some
    }

    /// The attached bot, if any.
    pub closed spec fn spec_bot(&self) -> Option<TelegramBot> {
        self.bot
    }

    /// Path of the live database file.
    pub closed spec fn spec_database_path(&self) -> Seq<char> {
        self.database_path@
    }

    /// Creates the service with no bot attached.
    pub fn new(config: BackupConfig, database_path: String) -> (r: BackupService)
        ensures
            r.spec_config() == config@,
            !r.spec_has_bot(),
            r.spec_database_path() == database_path@,
    {
        BackupService { config, bot: None, database_path }
    }

    /// Attaches the bot used for announcements.
    pub fn set_bot(&mut self, bot: TelegramBot)
        ensures
            final(self).spec_has_bot(),
            final(self).spec_bot() == Some(bot),
            final(self).spec_config() == old(self).spec_config(),
            final(self).spec_database_path() == old(self).spec_database_path(),
    {
        self.bot = Some(bot);
    }

    /// Replaces the configuration.
    pub fn update_config(&mut self, config: BackupConfig)
        ensures
            final(self).spec_config() == config@,
            final(self).spec_has_bot() == old(self).spec_has_bot(),
            final(self).spec_bot() == old(self).spec_bot(),
            final(self).spec_database_path() == old(self).spec_database_path(),
    {
        self.config = config;
    }

    /// A copy of the configuration.
    pub fn get_config(&self) -> (r: BackupConfig)
        ensures
            r@ == self.spec_config(),
    {
        self.config.duplicate()
    }

    /// Path of the live database file.
    pub fn database_path(&self) -> (r: &str)
        ensures
            r@ == self.spec_database_path(),
    {
        self.database_path.as_str()
    }

    /// Whether a bot is attached.
    pub fn has_bot(&self) -> (r: bool)
        ensures
            r == self.spec_has_bot(),
    {
        self.bot.is_some()
    }

    /// Announces a new backup through the bot: only when the configuration asks for
    /// announcements and a bot is attached. The bot's refusal is not passed on.
    pub fn announce_backup(&mut self, filename: &str, size: u64)
        ensures
            final(self).spec_config() == old(self).spec_config(),
            final(self).spec_database_path() == old(self).spec_database_path(),
            match old(self).spec_bot() {
                Some(b) => final(self).spec_bot() matches Some(nb) && (if old(self).spec_config().send_to_telegram {
                    delivered_to_chat(b, nb, backup_created_text(filename@, size))
                } else {
                    nb == b
                }),
                None => final(self).spec_bot() is None,
            },
    {
        if self.config.send_to_telegram {
            match &mut self.bot {
                Some(b) => {
                    let text = backup_created_message(filename, size);
                    let _ = b.send_message(text.as_str());
                },
                None => {},
            }
        }
    }
}

} // verus!
