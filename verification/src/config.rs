//! Server settings, read from environment variables with defaults.

use vstd::prelude::*;
use vstd::string::*;

verus! {

/// Server settings. Durations are in whole seconds.
pub struct Config {
    pub listen_addr: String,
    pub cors_origin: String,
    pub jwt_secret: String,
    pub token_ttl_secs: usize,
    pub room_timeout_secs: u64,
    pub max_history_messages: usize,
    pub rate_limit_max_messages: u32,
    pub rate_limit_window_secs: u64,
    pub rate_limit_ban_secs: u64,
    pub max_message_size_bytes: usize,
}

/// An ASCII decimal digit.
pub open spec fn is_digit(c: char) -> bool {
    48 <= (c as u32) <= 57
}

/// The value of a string of decimal digits.
pub open spec fn digits_value(s: Seq<char>) -> nat
    decreases s.len(),
{
    if s.len() == 0 {
        0
    } else {
        digits_value(s.drop_last()) * 10 + ((s.last() as u32) - 48) as nat
    }
}

/// The number an unsigned integer's text denotes: an optional `+`, then one
/// or more decimal digits; `None` for any other text.
pub open spec fn unsigned_value(s: Seq<char>) -> Option<nat> {
    let body = unsigned_body(s);
    if body.len() > 0 && all_digits(body) {
        Some(digits_value(body))
    } else {
        None
    }
}

/// The text after an optional leading `+`.
pub open spec fn unsigned_body(s: Seq<char>) -> Seq<char> {
    if s.len() > 0 && s[0] == '+' {
        s.drop_first()
    } else {
        s
    }
}

/// Every character is a decimal digit.
pub open spec fn all_digits(t: Seq<char>) -> bool {
    forall|i: int| 0 <= i < t.len() ==> is_digit(#[trigger] t[i])
}

/// The text parsed as an unsigned integer no larger than `max`, as the standard
/// library's integer parsing does it.
pub open spec fn parse_unsigned(s: Seq<char>, max: nat) -> Option<nat> {
    match unsigned_value(s) {
        Some(v) => if v <= max {
            Some(v)
        } else {
            None
        },
        None => None,
    }
}

/// Parses an unsigned decimal integer that fits in 64 bits.
pub fn parse_u64(s: &str) -> (r: Option<u64>)
    ensures
        r matches Some(v) ==> parse_unsigned(s@, u64::MAX as nat) == Some(v as nat),
        r is None ==> parse_unsigned(s@, u64::MAX as nat) is None,
{
    let len = s.unicode_len();
    let mut start: usize = 0;
    if len > 0 && s.get_char(0) == '+' {
        start = 1;
    }
    let ghost body = unsigned_body(s@);
    assert(body =~= s@.subrange(start as int, len as int));
    if start == len {
        return None;
    }
    let mut value: u64 = 0;
    let mut overflow = false;
    let mut i: usize = start;
    while i < len
        invariant
            start <= i <= len,
            len == s@.len(),
            start < len,
            body == s@.subrange(start as int, len as int),
            body == unsigned_body(s@),
            forall|j: int| 0 <= j < i - start ==> is_digit(#[trigger] body[j]),
            !overflow ==> value as nat == digits_value(body.take(i - start)),
            overflow ==> digits_value(body.take(i - start)) > u64::MAX,
        decreases len - i,
    {
        let c = s.get_char(i);
        let code = c as u32;
        assert(body[i - start] == c);
        if code < 48 || code > 57 {
            assert(!is_digit(body[i - start]));
            assert(!all_digits(body));
            assert(unsigned_value(s@) is None);
            return None;
        }
        let d = (code - 48) as u64;
        let ghost prefix = body.take(i - start);
        assert(body.take(i + 1 - start).drop_last() =~= prefix);
        assert(body.take(i + 1 - start).last() == c);
        if !overflow {
            match value.checked_mul(10) {
                Some(x) => match x.checked_add(d) {
                    Some(y) => {
                        value = y;
                    },
                    None => {
                        overflow = true;
                    },
                },
                None => {
                    overflow = true;
                },
            }
        }
        i += 1;
    }
    assert(body.take(len - start) =~= body);
    if overflow {
        None
    } else {
        Some(value)
    }
}

/// The value set for `key`: the first entry with that name.
pub open spec fn lookup(vars: Seq<(Seq<char>, Seq<char>)>, key: Seq<char>) -> Option<Seq<char>>
    decreases vars.len(),
{
    if vars.len() == 0 {
        None
    } else if vars[0].0 == key {
        Some(vars[0].1)
    } else {
        lookup(vars.drop_first(), key)
    }
}

/// Name–value pairs as character sequences.
pub open spec fn vars_view(v: Seq<(String, String)>) -> Seq<(Seq<char>, Seq<char>)> {
    v.map_values(|p: (String, String)| (p.0@, p.1@))
}

/// A text setting: the value set, else the default.
pub open spec fn text_or(v: Option<Seq<char>>, default: Seq<char>) -> Seq<char> {
    match v {
        Some(t) => t,
        None => default,
    }
}

/// A numeric setting: the value set if it parses within `max`, else the default.
pub open spec fn number_or(v: Option<Seq<char>>, max: nat, default: nat) -> nat {
    match v {
        Some(t) => match parse_unsigned(t, max) {
            Some(x) => x,
            None => default,
        },
        None => default,
    }
}

/// The value set for `key`.
fn lookup_var(vars: &Vec<(String, String)>, key: &str) -> (r: Option<String>)
    ensures
        crate::messages::opt_string_view(r) == lookup(vars_view(vars@), key@),
{
    let ghost all = vars_view(vars@);
    let k = String::from_str(key);
    let mut i: usize = 0;
    assert(all.skip(0) =~= all);
    while i < vars.len()
        invariant
            i <= vars@.len(),
            k@ == key@,
            all == vars_view(vars@),
            lookup(all, key@) == lookup(all.skip(i as int), key@),
        decreases vars@.len() - i,
    {
        assert(all.skip(i as int)[0] == (vars@[i as int].0@, vars@[i as int].1@));
        if vars[i].0 == k {
            return Some(vars[i].1.clone());
        }
        assert(all.skip(i as int).drop_first() =~= all.skip(i + 1));
        i += 1;
    }
    None
}

fn text_setting(vars: &Vec<(String, String)>, key: &str, default: &str) -> (r: String)
    ensures
        r@ == text_or(lookup(vars_view(vars@), key@), default@),
{
    match lookup_var(vars, key) {
        Some(v) => v,
        None => String::from_str(default),
    }
}

fn u64_setting(vars: &Vec<(String, String)>, key: &str, default: u64) -> (r: u64)
    ensures
        r as nat == number_or(lookup(vars_view(vars@), key@), u64::MAX as nat, default as nat),
{
    match lookup_var(vars, key) {
        Some(v) => match parse_u64(v.as_str()) {
            Some(x) => x,
            None => default,
        },
        None => default,
    }
}

fn usize_setting(vars: &Vec<(String, String)>, key: &str, default: usize) -> (r: usize)
    ensures
        r as nat == number_or(lookup(vars_view(vars@), key@), usize::MAX as nat, default as nat),
{
    match lookup_var(vars, key) {
        Some(v) => match parse_u64(v.as_str()) {
            Some(x) => if x <= usize::MAX as u64 {
                x as usize
            } else {
                default
            },
            None => {
                proof {
                    if parse_unsigned(v@, usize::MAX as nat) is Some {
                        assert(parse_unsigned(v@, u64::MAX as nat) is Some);
                    }
                }
                default
            },
        },
        None => default,
    }
}

fn u32_setting(vars: &Vec<(String, String)>, key: &str, default: u32) -> (r: u32)
    ensures
        r as nat == number_or(lookup(vars_view(vars@), key@), u32::MAX as nat, default as nat),
{
    match lookup_var(vars, key) {
        Some(v) => match parse_u64(v.as_str()) {
            Some(x) => if x <= u32::MAX as u64 {
                x as u32
            } else {
                default
            },
            None => {
                proof {
                    if parse_unsigned(v@, u32::MAX as nat) is Some {
                        assert(parse_unsigned(v@, u64::MAX as nat) is Some);
                    }
                }
                default
            },
        },
        None => default,
    }
}

/// The signing secret is left at its insecure default: `JWT_SECRET` is not set.
/// The server warns about this at start-up.
pub fn uses_default_secret(vars: &Vec<(String, String)>) -> (r: bool)
    ensures
        r == (lookup(vars_view(vars@), "JWT_SECRET"@) is None),
{
    lookup_var(vars, "JWT_SECRET").is_none()
}

impl Config {
    /// Settings from environment variables (name–value pairs): each setting takes
    /// the value of its variable when set (and, for a number, when it parses),
    /// else its default.
    pub fn from_env(vars: &Vec<(String, String)>) -> (r: Config)
        ensures
            r.listen_addr@ == text_or(lookup(vars_view(vars@), "LISTEN_ADDR"@), "0.0.0.0:8080"@),
            r.cors_origin@ == text_or(lookup(vars_view(vars@), "CORS_ORIGIN"@), "*"@),
            r.jwt_secret@ == text_or(lookup(vars_view(vars@), "JWT_SECRET"@), "change-me"@),
            r.token_ttl_secs as nat == number_or(
                lookup(vars_view(vars@), "TOKEN_TTL_SECS"@),
                usize::MAX as nat,
                3600,
            ),
            r.room_timeout_secs as nat == number_or(
                lookup(vars_view(vars@), "ROOM_TIMEOUT_SECS"@),
                u64::MAX as nat,
                300,
            ),
            r.max_history_messages as nat == number_or(
                lookup(vars_view(vars@), "MAX_HISTORY_MESSAGES"@),
                usize::MAX as nat,
                100,
            ),
            r.rate_limit_max_messages as nat == number_or(
                lookup(vars_view(vars@), "RATE_LIMIT_MAX_MESSAGES"@),
                u32::MAX as nat,
                20,
            ),
            r.rate_limit_window_secs as nat == number_or(
                lookup(vars_view(vars@), "RATE_LIMIT_WINDOW_SECS"@),
                u64::MAX as nat,
                1,
            ),
            r.rate_limit_ban_secs as nat == number_or(
                lookup(vars_view(vars@), "RATE_LIMIT_BAN_SECS"@),
                u64::MAX as nat,
                60,
            ),
            r.max_message_size_bytes as nat == number_or(
                lookup(vars_view(vars@), "MAX_MESSAGE_SIZE_BYTES"@),
                usize::MAX as nat,
                65536,
            ),
    {
        Config {
            listen_addr: text_setting(vars, "LISTEN_ADDR", "0.0.0.0:8080"),
            cors_origin: text_setting(vars, "CORS_ORIGIN", "*"),
            jwt_secret: text_setting(vars, "JWT_SECRET", "change-me"),
            token_ttl_secs: usize_setting(vars, "TOKEN_TTL_SECS", 3600),
            room_timeout_secs: u64_setting(vars, "ROOM_TIMEOUT_SECS", 300),
            max_history_messages: usize_setting(vars, "MAX_HISTORY_MESSAGES", 100),
            rate_limit_max_messages: u32_setting(vars, "RATE_LIMIT_MAX_MESSAGES", 20),
            rate_limit_window_secs: u64_setting(vars, "RATE_LIMIT_WINDOW_SECS", 1),
            rate_limit_ban_secs: u64_setting(vars, "RATE_LIMIT_BAN_SECS", 60),
            max_message_size_bytes: usize_setting(vars, "MAX_MESSAGE_SIZE_BYTES", 64 * 1024),
        }
    }
}

} // verus!
