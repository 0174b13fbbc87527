# r3_ui

A web panel for the Xray proxy core: inbounds and clients, traffic accounting and resets,
subscription links, two-factor login, translations, a Telegram bot and database backups.

## Layout

- `src/` is the library, written in Verus, and Verus verifies all of it. Its functions state
  what they return or change in `requires` / `ensures` contracts, apart from a few helpers
  that claim nothing (internal value conversions, a clock reading, an empty set-up step).
  It holds the panel's logic: the JSON and TOML document models, the Xray configuration builder, share links and subscription documents, TOTP and
  base32, traffic collectors, reset schedules, SQL statements with their parameters, bot
  commands and notifications, translation lookup, the backup listing order, the WebSocket step function and the
  settings reader.
  Calls into `serde_json`, `toml`, `chrono`, `argon2`, `totp-lite`, `qrcode`, `image`, `base64`,
  `urlencoding`, `uuid` and `rand` go through small trusted wrappers whose doc comments say
  what is assumed of them.
- `app/` is the server around the library: `main`, the axum routes, database access with
  `sqlx`, sessions, the scheduled jobs, the core process, file backups, system sampling with
  `sysinfo` (floating point) and page rendering with `tera`.
- `tests/` exercises the library with concrete values.

The web assets (`web/html`, `web/assets`, `web/translation`) are read at run time from the
directory named by `WEB_ROOT`.
