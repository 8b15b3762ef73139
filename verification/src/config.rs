//! Settings of the server, from the values of its environment variables.

use vstd::prelude::*;

use crate::auth::claims::{decimal, digits_value, is_digit_char, lemma_decimal_digits};
use crate::text::chars_of;

verus! {

pub struct AppConfig {
    pub database_url: String,
    pub jwt_secret: String,
    pub jwt_expires_seconds: i64,
    pub port: u16,
    pub allowed_origin: String,
}

pub open spec fn all_digits(s: Seq<char>) -> bool {
    forall|i: int| 0 <= i < s.len() ==> is_digit_char(#[trigger] s[i])
}

/// The integer that Rust's `str::parse` reads: an optional `+` (or `-` for
/// a signed type), then at least one ASCII digit, and nothing else.
/// (Whether the number fits the type is checked apart.)
pub open spec fn parsed_integer(s: Seq<char>, signed: bool) -> Option<int> {
    if s.len() == 0 || s == seq!['+'] || s == seq!['-'] {
        None
    } else if s[0] == '+' && all_digits(s.skip(1)) {
        Some(digits_value(s.skip(1)) as int)
    } else if signed && s[0] == '-' && all_digits(s.skip(1)) {
        Some(-(digits_value(s.skip(1)) as int))
    } else if all_digits(s) {
        Some(digits_value(s) as int)
    } else {
        None
    }
}

/// The digits of `v[from..]` as a number; `None` unless they are all
/// digits and the number fits in `u64`.
fn digits_to_u64(v: &Vec<char>, from: usize) -> (r: Option<u64>)
    requires
        from <= v@.len(),
    ensures
        match r {
            Some(n) => all_digits(v@.skip(from as int)) && n == digits_value(v@.skip(from as int)),
            None => !all_digits(v@.skip(from as int)) || digits_value(v@.skip(from as int))
                > u64::MAX,
        },
{
    let ghost w = v@.skip(from as int);
    let n = v.len();
    let mut j = from;
    let mut acc: u64 = 0;
    let mut overflow = false;
    while j < n
        invariant
            from <= j <= n == v@.len(),
            w == v@.skip(from as int),
            forall|m: int| 0 <= m < j - from ==> is_digit_char(#[trigger] w[m]),
            !overflow ==> acc == digits_value(w.take(j - from)),
            overflow ==> digits_value(w.take(j - from)) > u64::MAX,
        decreases n - j,
    {
        let c = v[j];
        assert(w[j - from] == c);
        if !('0' <= c && c <= '9') {
            return None;
        }
        let d = (c as u32 - '0' as u32) as u64;
        let ghost pre = w.take(j - from);
        let ghost next = w.take(j - from + 1);
        assert(next.drop_last() =~= pre);
        assert(next.last() == c);
        assert(digits_value(next) == digits_value(pre) * 10 + d);
        if !overflow {
            match acc.checked_mul(10) {
                Some(a) => match a.checked_add(d) {
                    Some(b) => {
                        acc = b;
                    },
                    None => {
                        overflow = true;
                    },
                },
                None => {
                    overflow = true;
                },
            }
        }
        j = j + 1;
    }
    assert(w.take(j - from) =~= w);
    if overflow {
        return None;
    }
    Some(acc)
}

/// `value.parse::<i64>().ok()`.
pub fn parse_i64(value: &str) -> (r: Option<i64>)
    ensures
        match parsed_integer(value@, true) {
            Some(n) => if i64::MIN <= n <= i64::MAX {
                r == Some(n as i64)
            } else {
                r is None
            },
            None => r is None,
        },
{
    let v = chars_of(value);
    if v.len() == 0 {
        return None;
    }
    if v.len() == 1 && (v[0] == '+' || v[0] == '-') {
        assert(value@ =~= seq![v@[0]]);
        return None;
    }
    proof {
        if value@ == seq!['+'] || value@ == seq!['-'] {
            assert(value@.len() == 1);
        }
    }
    if v[0] == '+' || v[0] == '-' {
        let negative = v[0] == '-';
        match digits_to_u64(&v, 1) {
            Some(m) => {
                if !negative {
                    if m > 0x7fff_ffff_ffff_ffff {
                        return None;
                    }
                    return Some(m as i64);
                } else {
                    if m > 0x8000_0000_0000_0000 {
                        return None;
                    }
                    if m == 0x8000_0000_0000_0000 {
                        return Some(i64::MIN);
                    }
                    return Some(-(m as i64));
                }
            },
            None => {
                return None;
            },
        }
    }
    assert(v@.skip(0) =~= v@);
    match digits_to_u64(&v, 0) {
        Some(m) => {
            if m > 0x7fff_ffff_ffff_ffff {
                return None;
            }
            Some(m as i64)
        },
        None => None,
    }
}

/// `value.parse::<u16>().ok()`.
pub fn parse_u16(value: &str) -> (r: Option<u16>)
    ensures
        match parsed_integer(value@, false) {
            Some(n) => if 0 <= n <= u16::MAX {
                r == Some(n as u16)
            } else {
                r is None
            },
            None => r is None,
        },
{
    let v = chars_of(value);
    if v.len() == 0 {
        return None;
    }
    if v.len() == 1 && (v[0] == '+' || v[0] == '-') {
        assert(value@ =~= seq![v@[0]]);
        return None;
    }
    proof {
        if value@ == seq!['+'] || value@ == seq!['-'] {
            assert(value@.len() == 1);
        }
    }
    let from: usize = if v[0] == '+' {
        1
    } else {
        0
    };
    assert(from == 0 ==> v@.skip(0) =~= v@);
    match digits_to_u64(&v, from) {
        Some(m) => {
            if m > 0xffff {
                return None;
            }
            Some(m as u16)
        },
        None => None,
    }
}

pub const DEFAULT_DATABASE_URL: &'static str = "sqlite://calendar.db";

pub const DEFAULT_JWT_EXPIRES_SECONDS: i64 = 86_400;

pub const DEFAULT_PORT: u16 = 4000;

pub const DEFAULT_ALLOWED_ORIGIN: &'static str = "http://localhost:5173";

/// The value of a number setting: the parsed text, or the default when the
/// variable is missing or does not parse.
pub open spec fn i64_setting(value: Option<String>, default: i64) -> i64 {
    match value {
        Some(v) => match parsed_integer(v@, true) {
            Some(n) => if i64::MIN <= n <= i64::MAX {
                n as i64
            } else {
                default
            },
            None => default,
        },
        None => default,
    }
}

pub open spec fn u16_setting(value: Option<String>, default: u16) -> u16 {
    match value {
        Some(v) => match parsed_integer(v@, false) {
            Some(n) => if 0 <= n <= u16::MAX {
                n as u16
            } else {
                default
            },
            None => default,
        },
        None => default,
    }
}

impl AppConfig {
    /// The settings from the values of `DATABASE_URL`, `JWT_SECRET`,
    /// `JWT_EXPIRES_SECONDS`, `PORT` and `ALLOWED_ORIGIN` (`None` when a
    /// variable is not set); `JWT_SECRET` has no default.
    pub fn from_env(
        database_url: Option<String>,
        jwt_secret: String,
        jwt_expires_seconds: Option<String>,
        port: Option<String>,
        allowed_origin: Option<String>,
    ) -> (c: AppConfig)
        ensures
            c.database_url@ == match database_url {
                Some(u) => u@,
                None => DEFAULT_DATABASE_URL@,
            },
            c.jwt_secret == jwt_secret,
            c.jwt_expires_seconds == i64_setting(jwt_expires_seconds, DEFAULT_JWT_EXPIRES_SECONDS),
            c.port == u16_setting(port, DEFAULT_PORT),
            c.allowed_origin@ == match allowed_origin {
                Some(o) => o@,
                None => DEFAULT_ALLOWED_ORIGIN@,
            },
    {
        let database_url = match database_url {
            Some(u) => u,
            None => DEFAULT_DATABASE_URL.to_string(),
        };
        let jwt_expires_seconds = match &jwt_expires_seconds {
            Some(v) => match parse_i64(v.as_str()) {
                Some(n) => n,
                None => DEFAULT_JWT_EXPIRES_SECONDS,
            },
            None => DEFAULT_JWT_EXPIRES_SECONDS,
        };
        let port = match &port {
            Some(v) => match parse_u16(v.as_str()) {
                Some(n) => n,
                None => DEFAULT_PORT,
            },
            None => DEFAULT_PORT,
        };
        let allowed_origin = match allowed_origin {
            Some(o) => o,
            None => DEFAULT_ALLOWED_ORIGIN.to_string(),
        };
        AppConfig { database_url, jwt_secret, jwt_expires_seconds, port, allowed_origin }
    }
}

/// A number written in decimal reads back as itself, with or without a
/// leading `+`, and negated behind a `-` for a signed type.
pub proof fn law_integer_text_reads_back(n: nat)
    ensures
        parsed_integer(decimal(n), true) == Some(n as int),
        parsed_integer(decimal(n), false) == Some(n as int),
        parsed_integer(seq!['+'] + decimal(n), false) == Some(n as int),
        parsed_integer(seq!['-'] + decimal(n), true) == Some(-(n as int)),
{
    lemma_decimal_digits(n);
    let d = decimal(n);
    assert(is_digit_char(d[0]));
    assert(d != seq!['+'] && d != seq!['-']) by {
        if d.len() == 1 {
            assert(d[0] != '+');
        }
    }
    let p = seq!['+'] + d;
    let m = seq!['-'] + d;
    assert(p.skip(1) =~= d);
    assert(m.skip(1) =~= d);
    assert(p != seq!['+']) by {
        assert(p.len() > 1);
    }
    assert(m != seq!['-']) by {
        assert(m.len() > 1);
    }
    assert(!all_digits(p)) by {
        assert(!is_digit_char(p[0]));
    }
    assert(!all_digits(m)) by {
        assert(!is_digit_char(m[0]));
    }
}

} // verus!
