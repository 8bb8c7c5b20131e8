//! Connection-pool configuration: the defaulting and number-parsing rules
//! applied to raw configuration strings. Reading the process environment and
//! opening pools stay outside the library; this module only decides what the
//! settings mean.

use vstd::prelude::*;
use vstd::string::StrSliceExecFns;

verus! {

/// The value of a decimal digit; ten marks a non-digit.
pub open spec fn dec_digit(c: char) -> u32 {
    if c == '0' { 0 }
    else if c == '1' { 1 }
    else if c == '2' { 2 }
    else if c == '3' { 3 }
    else if c == '4' { 4 }
    else if c == '5' { 5 }
    else if c == '6' { 6 }
    else if c == '7' { 7 }
    else if c == '8' { 8 }
    else if c == '9' { 9 }
    else { 10 }
}

pub open spec fn is_dec_digit(c: char) -> bool {
    dec_digit(c) < 10
}

pub open spec fn all_dec(s: Seq<char>) -> bool {
    forall|i: int| 0 <= i < s.len() ==> is_dec_digit(#[trigger] s[i])
}

/// The number read from a sequence of decimal digits, most significant
/// first.
pub open spec fn dec_value(s: Seq<char>) -> nat
    decreases s.len(),
{
    if s.len() == 0 {
        0
    } else {
        dec_value(s.drop_last()) * 10 + dec_digit(s.last()) as nat
    }
}

/// What parsing a setting as an unsigned 32-bit number yields: the value of
/// a non-empty, all-decimal string that fits; nothing otherwise.
pub open spec fn parse_u32_spec(s: Seq<char>) -> Option<u32> {
    if s.len() >= 1 && all_dec(s) && dec_value(s) <= u32::MAX {
        Some(dec_value(s) as u32)
    } else {
        None
    }
}

/// The value of a decimal digit; ten marks a non-digit.
fn dec_digit_exec(c: char) -> (r: u32)
    ensures
        r == dec_digit(c),
{
    if c == '0' { 0 }
    else if c == '1' { 1 }
    else if c == '2' { 2 }
    else if c == '3' { 3 }
    else if c == '4' { 4 }
    else if c == '5' { 5 }
    else if c == '6' { 6 }
    else if c == '7' { 7 }
    else if c == '8' { 8 }
    else if c == '9' { 9 }
    else { 10 }
}

/// Parse a decimal string as an unsigned 32-bit number; empty strings,
/// stray characters and overflow all come back empty.
pub fn parse_u32_dec(s: &str) -> (r: Option<u32>)
    ensures
        r == parse_u32_spec(s@),
{
    let len = s.unicode_len();
    if len == 0 {
        return None;
    }
    let mut acc: u64 = 0;
    let mut overflow = false;
    let mut i: usize = 0;
    while i < len
        invariant
            len == s@.len(),
            i <= len,
            all_dec(s@.subrange(0, i as int)),
            !overflow ==> acc == dec_value(s@.subrange(0, i as int)) && acc <= u32::MAX,
            overflow ==> dec_value(s@.subrange(0, i as int)) > u32::MAX,
        decreases len - i,
    {
        let c = s.get_char(i);
        let d = dec_digit_exec(c);
        if d >= 10 {
            proof {
                assert(!is_dec_digit(s@[i as int]));
            }
            return None;
        }
        proof {
            assert(s@.subrange(0, i + 1).drop_last() =~= s@.subrange(0, i as int));
            assert(s@.subrange(0, i + 1).last() == s@[i as int]);
        }
        if !overflow {
            acc = acc * 10 + (d as u64);
            if acc > 0xffff_ffff {
                overflow = true;
                acc = 0;
            }
        }
        i += 1;
    }
    proof {
        assert(s@.subrange(0, len as int) =~= s@);
    }
    if overflow {
        None
    } else {
        Some(acc as u32)
    }
}

/// A parsed setting, or its default when the setting is absent or
/// unreadable.
pub open spec fn setting_or(s: Option<Seq<char>>, default: u32) -> u32 {
    match s {
        None => default,
        Some(t) => match parse_u32_spec(t) {
            Some(v) => v,
            None => default,
        },
    }
}

/// Apply a default to an optional raw setting.
fn setting_or_exec(s: &Option<String>, default: u32) -> (r: u32)
    ensures
        r == setting_or(s.deep_view(), default),
{
    match s {
        None => default,
        Some(t) => match parse_u32_dec(t.as_str()) {
            Some(v) => v,
            None => default,
        },
    }
}

/// Connection-pool settings.
pub struct DatabaseConfig {
    /// Connection URL.
    pub url: String,
    /// Most connections the pool may hold.
    pub max_connections: u32,
    /// Fewest connections the pool keeps warm.
    pub min_connections: u32,
    /// Seconds allowed for acquiring a connection.
    pub connect_timeout_secs: u32,
}

pub const DEFAULT_MAX_CONNECTIONS: u32 = 20;

pub const DEFAULT_MIN_CONNECTIONS: u32 = 5;

pub const DEFAULT_CONNECT_TIMEOUT_SECS: u32 = 10;

impl DatabaseConfig {
    /// Settle a configuration from raw settings: the URL is required, and
    /// each number falls back to its default when absent or unreadable.
    pub fn from_values(
        url: Option<String>,
        max_connections: Option<String>,
        min_connections: Option<String>,
        connect_timeout: Option<String>,
    ) -> (r: Option<DatabaseConfig>)
        ensures
            match r {
                Some(cfg) => {
                    &&& url matches Some(u) && cfg.url@ == u@
                    &&& cfg.max_connections == setting_or(
                        max_connections.deep_view(),
                        DEFAULT_MAX_CONNECTIONS,
                    )
                    &&& cfg.min_connections == setting_or(
                        min_connections.deep_view(),
                        DEFAULT_MIN_CONNECTIONS,
                    )
                    &&& cfg.connect_timeout_secs == setting_or(
                        connect_timeout.deep_view(),
                        DEFAULT_CONNECT_TIMEOUT_SECS,
                    )
                },
                None => url is None,
            },
    {
        let url = match url {
            Some(u) => u,
            None => {
                return None;
            },
        };
        let max = setting_or_exec(&max_connections, DEFAULT_MAX_CONNECTIONS);
        let min = setting_or_exec(&min_connections, DEFAULT_MIN_CONNECTIONS);
        let timeout = setting_or_exec(&connect_timeout, DEFAULT_CONNECT_TIMEOUT_SECS);
        Some(DatabaseConfig {
            url,
            max_connections: max,
            min_connections: min,
            connect_timeout_secs: timeout,
        })
    }
}

} // verus!
