//! Panel settings: each comes from an environment variable, with a default when it is unset.
use vstd::prelude::*;
use crate::text::owned;

verus! {

/// The panel's settings.
#[derive(Debug, Clone)]
pub struct Settings {
    pub host: String,
    pub port: u16,
    pub database_url: String,
    pub session_secret: String,
    pub xray_binary: String,
    pub xray_config: String,
    pub web_root: String,
}

/// Why a port setting is not a port number, as `u16::from_str` reports it.
#[derive(Debug, Clone, Copy, PartialEq, Eq)]
pub enum PortError {
    Empty,
    InvalidDigit,
    PosOverflow,
}

impl PortError {
    /// The message `std::num::ParseIntError` shows for the error.
    pub fn message(&self) -> (r: &'static str)
        ensures
            *self == PortError::Empty ==> r@ == "cannot parse integer from empty string"@,
            *self == PortError::InvalidDigit ==> r@ == "invalid digit found in string"@,
            *self == PortError::PosOverflow ==> r@ == "number too large to fit in target type"@,
    {
        match self {
            PortError::Empty => "cannot parse integer from empty string",
            PortError::InvalidDigit => "invalid digit found in string",
            PortError::PosOverflow => "number too large to fit in target type",
        }
    }
}

/// Reads decimal digits left to right from `acc`: the first non-digit is an invalid digit,
/// and a value past 65535 is an overflow, whichever comes first.
pub open spec fn scan_digits(s: Seq<char>, acc: nat) -> Result<nat, PortError>
    decreases s.len(),
{
    if s.len() == 0 {
        Ok(acc)
    } else if !('0' <= s[0] && s[0] <= '9') {
        Err(PortError::InvalidDigit)
    } else if acc * 10 + (s[0] as nat - 48) > 65535 {
        Err(PortError::PosOverflow)
    } else {
        scan_digits(s.skip(1), (acc * 10 + (s[0] as nat - 48)) as nat)
    }
}

/// A port number as `u16::from_str` reads it: an optional `+`, then decimal digits.
pub open spec fn parse_port(s: Seq<char>) -> Result<nat, PortError> {
    if s.len() == 0 {
        Err(PortError::Empty)
    } else if s == seq!['+'] || s == seq!['-'] {
        Err(PortError::InvalidDigit)
    } else if s[0] == '+' {
        scan_digits(s.skip(1), 0)
    } else {
        scan_digits(s, 0)
    }
}

/// Reads a port number (see `parse_port`).
pub fn port_from_text(text: &str) -> (r: Result<u16, PortError>)
    ensures
        match r {
            Ok(p) => parse_port(text@) == Ok::<nat, PortError>(p as nat),
            Err(e) => parse_port(text@) == Err::<nat, PortError>(e),
        },
{
    let s = crate::text::chars_of(text);
    if s.len() == 0 {
        return Err(PortError::Empty);
    }
    if s.len() == 1 && (s[0] == '+' || s[0] == '-') {
        assert(s@ =~= seq![s@[0]]);
        return Err(PortError::InvalidDigit);
    }
    let start: usize = if s[0] == '+' { 1 } else { 0 };
    proof {
        assert(s@.skip(0) =~= s@);
        if s@.len() > 1 {
            assert(s@ != seq!['+']);
            assert(s@ != seq!['-']);
        } else {
            assert(s@[0] != '+' && s@[0] != '-');
            assert(s@ != seq!['+']) by {
                if s@ == seq!['+'] {
                    assert(s@[0] == '+');
                }
            }
            assert(s@ != seq!['-']) by {
                if s@ == seq!['-'] {
                    assert(s@[0] == '-');
                }
            }
        }
    }
    let mut acc: u32 = 0;
    let mut i: usize = start;
    assert(s@.skip(start as int) =~= s@.skip(start as int));
    while i < s.len()
        invariant
            start <= i <= s.len(),
            acc <= 65535,
            s@ == text@,
            parse_port(text@) == scan_digits(s@.skip(i as int), acc as nat),
        decreases s.len() - i,
    {
        let c = s[i];
        assert(s@.skip(i as int)[0] == c);
        assert(s@.skip(i as int).skip(1) =~= s@.skip(i + 1));
        if !('0' <= c && c <= '9') {
            return Err(PortError::InvalidDigit);
        }
        let d: u32 = (c as u32) - 48;
        if acc * 10 + d > 65535 {
            return Err(PortError::PosOverflow);
        }
        acc = acc * 10 + d;
        i = i + 1;
    }
    assert(s@.skip(i as int).len() == 0);
    Ok(acc as u16)
}

/// A setting's value, or its default when unset.
pub open spec fn or_default(v: Option<String>, default: Seq<char>) -> Seq<char> {
    match v {
        Some(s) => s@,
        None => default,
    }
}

fn value_or(v: Option<String>, default: &str) -> (r: String)
    ensures
        r@ == or_default(v, default@),
{
    match v {
        Some(s) => s,
        None => owned(default),
    }
}

impl Settings {
    /// The settings from the values of `HOST`, `PORT`, `DATABASE_URL`, `SESSION_SECRET`,
    /// `XRAY_BINARY`, `XRAY_CONFIG` and `WEB_ROOT`: defaults for unset variables, and an error
    /// when the port is not a port number.
    pub fn from_values(
        host: Option<String>,
        port: Option<String>,
        database_url: Option<String>,
        session_secret: Option<String>,
        xray_binary: Option<String>,
        xray_config: Option<String>,
        web_root: Option<String>,
    ) -> (r: Result<Settings, PortError>)
        ensures
            match parse_port(or_default(port, "2053"@)) {
                Err(e) => r == Err::<Settings, PortError>(e),
                Ok(p) => r matches Ok(s) && s.port as nat == p
                    && s.host@ == or_default(host, "0.0.0.0"@)
                    && s.database_url@ == or_default(database_url, "sqlite:data.db?mode=rwc"@)
                    && s.session_secret@ == or_default(session_secret, "default-secret-key-change-me"@)
                    && s.xray_binary@ == or_default(xray_binary, "/usr/local/bin/xray"@)
                    && s.xray_config@ == or_default(xray_config, "/etc/xray/config.json"@)
                    && s.web_root@ == or_default(web_root, "./web/html"@),
            },
    {
        let host = value_or(host, "0.0.0.0");
        let port_text = value_or(port, "2053");
        let port = match port_from_text(port_text.as_str()) {
            Ok(p) => p,
            Err(e) => {
                return Err(e);
            },
        };
        Ok(Settings {
            host,
            port,
            database_url: value_or(database_url, "sqlite:data.db?mode=rwc"),
            session_secret: value_or(session_secret, "default-secret-key-change-me"),
            xray_binary: value_or(xray_binary, "/usr/local/bin/xray"),
            xray_config: value_or(xray_config, "/etc/xray/config.json"),
            web_root: value_or(web_root, "./web/html"),
        })
    }
}

} // verus!
