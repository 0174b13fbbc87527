//! The schema the panel creates on start, and the columns added to older user tables.
use vstd::prelude::*;
use crate::text::push_str;

verus! {

/// The users table.
pub const CREATE_USERS_SQL: &'static str = "
        CREATE TABLE IF NOT EXISTS users (
            id INTEGER PRIMARY KEY AUTOINCREMENT,
            username TEXT NOT NULL UNIQUE,
            password TEXT NOT NULL,
            secret TEXT DEFAULT '',
            tfa_enabled INTEGER DEFAULT 0,
            tg_id INTEGER DEFAULT 0,
            created_at INTEGER DEFAULT 0,
            last_login INTEGER DEFAULT 0
        )
        ";

/// The inbounds table.
pub const CREATE_INBOUNDS_SQL: &'static str = "
        CREATE TABLE IF NOT EXISTS inbounds (
            id INTEGER PRIMARY KEY AUTOINCREMENT,
            user_id INTEGER NOT NULL,
            up INTEGER DEFAULT 0,
            down INTEGER DEFAULT 0,
            total INTEGER DEFAULT 0,
            all_time INTEGER DEFAULT 0,
            remark TEXT,
            enable INTEGER DEFAULT 1,
            expiry_time INTEGER DEFAULT 0,
            traffic_reset TEXT DEFAULT 'never',
            last_traffic_reset_time INTEGER DEFAULT 0,
            listen TEXT,
            port INTEGER NOT NULL,
            protocol TEXT NOT NULL,
            settings TEXT,
            stream_settings TEXT,
            tag TEXT UNIQUE NOT NULL,
            sniffing TEXT
        )
        ";

/// The settings table.
pub const CREATE_SETTINGS_SQL: &'static str = "
        CREATE TABLE IF NOT EXISTS settings (
            id INTEGER PRIMARY KEY AUTOINCREMENT,
            key TEXT NOT NULL UNIQUE,
            value TEXT
        )
        ";

/// The client traffic table.
pub const CREATE_CLIENT_TRAFFIC_SQL: &'static str = "
        CREATE TABLE IF NOT EXISTS client_traffic (
            id INTEGER PRIMARY KEY AUTOINCREMENT,
            inbound_id INTEGER NOT NULL,
            email TEXT NOT NULL,
            up INTEGER DEFAULT 0,
            down INTEGER DEFAULT 0,
            total INTEGER DEFAULT 0,
            expiry_time INTEGER DEFAULT 0,
            enable INTEGER DEFAULT 1,
            FOREIGN KEY (inbound_id) REFERENCES inbounds(id)
        )
        ";

/// The columns added to a users table created by an older version, with their definitions.
pub open spec fn user_columns() -> Seq<(Seq<char>, Seq<char>)> {
    seq![
        ("secret"@, "TEXT DEFAULT ''"@),
        ("tfa_enabled"@, "INTEGER DEFAULT 0"@),
        ("tg_id"@, "INTEGER DEFAULT 0"@),
        ("created_at"@, "INTEGER DEFAULT 0"@),
        ("last_login"@, "INTEGER DEFAULT 0"@),
    ]
}

/// The statement that adds a column to the users table.
pub open spec fn add_user_column_sql(name: Seq<char>, definition: Seq<char>) -> Seq<char> {
    "ALTER TABLE users ADD COLUMN "@ + name + " "@ + definition
}

/// The statements that add the newer columns to the users table, in order; each fails
/// harmlessly where the column exists.
pub fn user_column_migrations() -> (r: Vec<String>)
    ensures
        r@.len() == user_columns().len(),
        forall|i: int| 0 <= i < r@.len() ==> #[trigger] r@[i]@ == add_user_column_sql(user_columns()[i].0, user_columns()[i].1),
{
    let cols: Vec<(&str, &str)> = vec![
        ("secret", "TEXT DEFAULT ''"),
        ("tfa_enabled", "INTEGER DEFAULT 0"),
        ("tg_id", "INTEGER DEFAULT 0"),
        ("created_at", "INTEGER DEFAULT 0"),
        ("last_login", "INTEGER DEFAULT 0"),
    ];
    assert(cols@.map_values(|c: (&str, &str)| (c.0@, c.1@)) =~= user_columns());
    let mut out: Vec<String> = Vec::new();
    let mut i: usize = 0;
    while i < cols.len()
        invariant
            i <= cols.len(),
            cols@.map_values(|c: (&str, &str)| (c.0@, c.1@)) == user_columns(),
            out@.len() == i,
            forall|k: int| 0 <= k < i ==> #[trigger] out@[k]@ == add_user_column_sql(user_columns()[k].0, user_columns()[k].1),
        decreases cols.len() - i,
    {
        let (name, def) = cols[i];
        assert((name@, def@) == user_columns()[i as int]);
        let mut s = String::new();
        push_str(&mut s, "ALTER TABLE users ADD COLUMN ");
        push_str(&mut s, name);
        push_str(&mut s, " ");
        push_str(&mut s, def);
        out.push(s);
        i = i + 1;
    }
    out
}

/// The user name of the account created on first start.
pub const DEFAULT_ADMIN_USERNAME: &'static str = "admin";

/// The password of the account created on first start.
pub const DEFAULT_ADMIN_PASSWORD: &'static str = "admin";

/// The statement that creates the first account.
pub const INSERT_ADMIN_SQL: &'static str = "INSERT INTO users (username, password, secret, tfa_enabled, tg_id, created_at, last_login) VALUES (?, ?, '', 0, 0, ?, ?)";

/// The stored hash of a new account's password; none when hashing fails (start-up then
/// stops), which happens only for passwords too long to hash. A hash given back verifies the
/// password at login.
pub fn hash_new_password(password: &str) -> (r: Option<String>)
    ensures
        r matches Some(h) ==> crate::handlers::auth::password_matches(password@, h@),
        password@.len() <= 0x3FFF_FFFF ==> r is Some,
{
    crate::handlers::auth::argon2_hash(password)
}

} // verus!
