//! The JSON text of a token's claims, written as `serde_json` writes the
//! claims struct (`{"uid":..,"name":..,"iat":..,"exp":..}`), and the
//! proof that this text determines the claims.

use vstd::prelude::*;

use crate::auth::models::Claims;
use crate::text::push_char;

verus! {

/// The lower-case hexadecimal digit of `n < 16`.
pub open spec fn hex_char(n: int) -> char {
    if n < 10 {
        (('0' as int) + n) as char
    } else {
        (('a' as int) + n - 10) as char
    }
}

/// The decimal digit of `n < 10`.
pub open spec fn digit_char(n: int) -> char {
    (('0' as int) + n) as char
}

/// How `serde_json` writes one character inside a string.
pub open spec fn escape_char(c: char) -> Seq<char> {
    if c == '"' {
        seq!['\\', '"']
    } else if c == '\\' {
        seq!['\\', '\\']
    } else if c == '\u{8}' {
        seq!['\\', 'b']
    } else if c == '\u{c}' {
        seq!['\\', 'f']
    } else if c == '\n' {
        seq!['\\', 'n']
    } else if c == '\r' {
        seq!['\\', 'r']
    } else if c == '\t' {
        seq!['\\', 't']
    } else if (c as u32) < 0x20 {
        seq!['\\', 'u', '0', '0', hex_char(((c as u32) / 16) as int), hex_char(((c as u32) % 16) as int)]
    } else {
        seq![c]
    }
}

/// How `serde_json` writes the characters of a string between its quotes.
pub open spec fn escape(s: Seq<char>) -> Seq<char>
    decreases s.len(),
{
    if s.len() == 0 {
        Seq::empty()
    } else {
        escape(s.drop_last()) + escape_char(s.last())
    }
}

/// The decimal digits of `n`, without leading zeros.
pub open spec fn decimal(n: nat) -> Seq<char>
    decreases n,
{
    if n < 10 {
        seq![digit_char(n as int)]
    } else {
        decimal(n / 10).push(digit_char((n % 10) as int))
    }
}

/// The JSON text of the claims, as `serde_json::to_vec` writes them.
pub open spec fn claims_json(c: Claims) -> Seq<char> {
    seq!['{', '"', 'u', 'i', 'd', '"', ':', '"'] + escape(c.uid@) + seq![
        '"',
        ',',
        '"',
        'n',
        'a',
        'm',
        'e',
        '"',
        ':',
        '"',
    ] + escape(c.name@) + seq!['"', ',', '"', 'i', 'a', 't', '"', ':'] + decimal(c.iat as nat)
        + seq![',', '"', 'e', 'x', 'p', '"', ':'] + decimal(c.exp as nat) + seq!['}']
}

fn hex_digit(n: u32) -> (c: char)
    requires
        n < 16,
    ensures
        c == hex_char(n as int),
{
    match n {
        0 => '0',
        1 => '1',
        2 => '2',
        3 => '3',
        4 => '4',
        5 => '5',
        6 => '6',
        7 => '7',
        8 => '8',
        9 => '9',
        10 => 'a',
        11 => 'b',
        12 => 'c',
        13 => 'd',
        14 => 'e',
        _ => 'f',
    }
}

fn push_all(out: &mut String, cs: &[char])
    ensures
        final(out)@ == old(out)@ + cs@,
{
    let mut i: usize = 0;
    while i < cs.len()
        invariant
            i <= cs@.len(),
            out@ == old(out)@ + cs@.take(i as int),
        decreases cs@.len() - i,
    {
        push_char(out, cs[i]);
        assert(cs@.take(i + 1) =~= cs@.take(i as int).push(cs@[i as int]));
        i = i + 1;
    }
    assert(cs@.take(i as int) =~= cs@);
}

/// Appends how `serde_json` writes `c` inside a string.
fn push_escaped_char(out: &mut String, c: char)
    ensures
        final(out)@ == old(out)@ + escape_char(c),
{
    if c == '"' {
        push_all(out, &['\\', '"']);
    } else if c == '\\' {
        push_all(out, &['\\', '\\']);
    } else if c == '\u{8}' {
        push_all(out, &['\\', 'b']);
    } else if c == '\u{c}' {
        push_all(out, &['\\', 'f']);
    } else if c == '\n' {
        push_all(out, &['\\', 'n']);
    } else if c == '\r' {
        push_all(out, &['\\', 'r']);
    } else if c == '\t' {
        push_all(out, &['\\', 't']);
    } else if (c as u32) < 0x20 {
        let code = c as u32;
        push_all(out, &['\\', 'u', '0', '0', hex_digit(code / 16), hex_digit(code % 16)]);
    } else {
        push_char(out, c);
    }
}

/// Appends how `serde_json` writes the characters of `s` between quotes.
fn push_escaped(out: &mut String, s: &str)
    ensures
        final(out)@ == old(out)@ + escape(s@),
{
    let ghost start = out@;
    for c in it: s.chars()
        invariant
            it.seq() == s@,
            out@ == start + escape(s@.take(it.index() as int)),
    {
        proof {
            let t = s@.take(it.index() + 1);
            assert(t.drop_last() =~= s@.take(it.index() as int));
        }
        push_escaped_char(out, c);
        proof {
            let t = s@.take(it.index() + 1);
            assert(escape(t) == escape(s@.take(it.index() as int)) + escape_char(c));
        }
    }
    assert(s@.take(s@.len() as int) =~= s@);
}

fn decimal_digit(n: usize) -> (c: char)
    requires
        n < 10,
    ensures
        c == digit_char(n as int),
{
    match n {
        0 => '0',
        1 => '1',
        2 => '2',
        3 => '3',
        4 => '4',
        5 => '5',
        6 => '6',
        7 => '7',
        8 => '8',
        _ => '9',
    }
}

/// Appends the decimal digits of `n`.
fn push_decimal(out: &mut String, n: usize)
    ensures
        final(out)@ == old(out)@ + decimal(n as nat),
    decreases n,
{
    if n < 10 {
        push_char(out, decimal_digit(n));
    } else {
        push_decimal(out, n / 10);
        push_char(out, decimal_digit(n % 10));
        assert(decimal(n as nat) == decimal((n / 10) as nat).push(digit_char((n % 10) as int)));
    }
}

/// The JSON text of the claims (`serde_json::to_vec(&claims)`).
pub fn claims_to_json(c: &Claims) -> (json: String)
    ensures
        json@ == claims_json(*c),
{
    let mut out = String::new();
    push_all(&mut out, &['{', '"', 'u', 'i', 'd', '"', ':', '"']);
    push_escaped(&mut out, c.uid.as_str());
    push_all(&mut out, &['"', ',', '"', 'n', 'a', 'm', 'e', '"', ':', '"']);
    push_escaped(&mut out, c.name.as_str());
    push_all(&mut out, &['"', ',', '"', 'i', 'a', 't', '"', ':']);
    push_decimal(&mut out, c.iat);
    push_all(&mut out, &[',', '"', 'e', 'x', 'p', '"', ':']);
    push_decimal(&mut out, c.exp);
    push_all(&mut out, &['}']);
    out
}

// ---------- Reading the claims back ----------

/// The value of a lower-case hexadecimal digit.
pub open spec fn hex_value(c: char) -> int {
    if '0' <= c && c <= '9' {
        c as int - '0' as int
    } else {
        c as int - 'a' as int + 10
    }
}

pub open spec fn is_hex_char(c: char) -> bool {
    ('0' <= c && c <= '9') || ('a' <= c && c <= 'f')
}

/// The first character of a JSON string body and how many characters
/// stand for it; `None` on an escape this reader does not take.
pub open spec fn escaped_head(v: Seq<char>) -> Option<(char, int)> {
    if v.len() == 0 {
        None
    } else if v[0] != '\\' {
        Some((v[0], 1))
    } else if v.len() < 2 {
        None
    } else if v[1] == '"' {
        Some(('"', 2))
    } else if v[1] == '\\' {
        Some(('\\', 2))
    } else if v[1] == 'b' {
        Some(('\u{8}', 2))
    } else if v[1] == 'f' {
        Some(('\u{c}', 2))
    } else if v[1] == 'n' {
        Some(('\n', 2))
    } else if v[1] == 'r' {
        Some(('\r', 2))
    } else if v[1] == 't' {
        Some(('\t', 2))
    } else if v[1] == 'u' && v.len() >= 6 && v[2] == '0' && v[3] == '0' && (v[4] == '0' || v[4]
        == '1') && is_hex_char(v[5]) {
        Some(((16 * hex_value(v[4]) + hex_value(v[5])) as char, 6))
    } else {
        None
    }
}

/// The characters of a JSON string body up to its closing quote, and what
/// follows from that quote on.
pub open spec fn unescape(v: Seq<char>) -> Option<(Seq<char>, Seq<char>)>
    decreases v.len(),
{
    if v.len() == 0 {
        None
    } else if v[0] == '"' {
        Some((Seq::empty(), v))
    } else {
        match escaped_head(v) {
            Some((c, w)) => if 0 < w <= v.len() {
                match unescape(v.skip(w)) {
                    Some((t, rest)) => Some((seq![c] + t, rest)),
                    None => None,
                }
            } else {
                None
            },
            None => None,
        }
    }
}

pub open spec fn is_digit_char(c: char) -> bool {
    '0' <= c && c <= '9'
}

/// The longest run of decimal digits at the front of `v`, and what follows.
pub open spec fn take_digits(v: Seq<char>) -> (Seq<char>, Seq<char>)
    decreases v.len(),
{
    if v.len() > 0 && is_digit_char(v[0]) {
        let (d, r) = take_digits(v.skip(1));
        (seq![v[0]] + d, r)
    } else {
        (Seq::empty(), v)
    }
}

/// The number that a run of decimal digits writes.
pub open spec fn digits_value(s: Seq<char>) -> nat
    decreases s.len(),
{
    if s.len() == 0 {
        0
    } else {
        digits_value(s.drop_last()) * 10 + (s.last() as int - '0' as int) as nat
    }
}

/// A number at the front of `v`, and what follows it.
pub open spec fn read_number(v: Seq<char>) -> Option<(nat, Seq<char>)> {
    let (d, r) = take_digits(v);
    if d.len() == 0 {
        None
    } else {
        Some((digits_value(d), r))
    }
}

/// What follows `p` at the front of `v`.
pub open spec fn strip_prefix(v: Seq<char>, p: Seq<char>) -> Option<Seq<char>> {
    if p.len() <= v.len() && v.take(p.len() as int) == p {
        Some(v.skip(p.len() as int))
    } else {
        None
    }
}

/// The four claims read from the JSON text of a token: uid, name, iat, exp.
pub open spec fn read_claims(v: Seq<char>) -> Option<(Seq<char>, Seq<char>, nat, nat)> {
    match strip_prefix(v, seq!['{', '"', 'u', 'i', 'd', '"', ':', '"']) {
        None => None,
        Some(v1) => match unescape(v1) {
            None => None,
            Some((uid, v2)) => match strip_prefix(
                v2,
                seq!['"', ',', '"', 'n', 'a', 'm', 'e', '"', ':', '"'],
            ) {
                None => None,
                Some(v3) => match unescape(v3) {
                    None => None,
                    Some((name, v4)) => match strip_prefix(
                        v4,
                        seq!['"', ',', '"', 'i', 'a', 't', '"', ':'],
                    ) {
                        None => None,
                        Some(v5) => match read_number(v5) {
                            None => None,
                            Some((iat, v6)) => match strip_prefix(
                                v6,
                                seq![',', '"', 'e', 'x', 'p', '"', ':'],
                            ) {
                                None => None,
                                Some(v7) => match read_number(v7) {
                                    None => None,
                                    Some((exp, v8)) => if v8 == seq!['}'] {
                                        Some((uid, name, iat, exp))
                                    } else {
                                        None
                                    },
                                },
                            },
                        },
                    },
                },
            },
        },
    }
}

// ---------- What is written reads back ----------

proof fn lemma_escape_append(a: Seq<char>, b: Seq<char>)
    ensures
        escape(a + b) == escape(a) + escape(b),
    decreases b.len(),
{
    if b.len() == 0 {
        assert(a + b =~= a);
        assert(escape(a) + escape(b) =~= escape(a));
    } else {
        lemma_escape_append(a, b.drop_last());
        assert((a + b).drop_last() =~= a + b.drop_last());
        assert((a + b).last() == b.last());
        assert(escape(a) + escape(b) =~= escape(a) + escape(b.drop_last()) + escape_char(
            b.last(),
        ));
    }
}

proof fn lemma_escape_cons(c: char, t: Seq<char>)
    ensures
        escape(seq![c] + t) == escape_char(c) + escape(t),
{
    lemma_escape_append(seq![c], t);
    let one = seq![c];
    assert(one.drop_last() =~= Seq::<char>::empty());
    assert(escape(one.drop_last()) =~= Seq::<char>::empty());
    assert(one.last() == c);
    assert(escape(one) =~= escape_char(c));
}

proof fn lemma_hex_roundtrip(n: int)
    requires
        0 <= n < 16,
    ensures
        is_hex_char(hex_char(n)),
        hex_value(hex_char(n)) == n,
{
}

/// The escape of a character reads back as that character.
proof fn lemma_escaped_head(c: char, rest: Seq<char>)
    ensures
        escape_char(c).len() > 0,
        escape_char(c)[0] != '"',
        escaped_head(escape_char(c) + rest) == Some((c, escape_char(c).len() as int)),
{
    let v = escape_char(c) + rest;
    if c == '"' || c == '\\' || c == '\u{8}' || c == '\u{c}' || c == '\n' || c == '\r' || c
        == '\t' {
        assert(v[0] == '\\');
        assert(v[1] == escape_char(c)[1]);
    } else if (c as u32) < 0x20 {
        let code = c as u32;
        lemma_hex_roundtrip((code / 16) as int);
        lemma_hex_roundtrip((code % 16) as int);
        assert(v[0] == '\\');
        assert(v[1] == 'u');
        assert(v[2] == '0');
        assert(v[3] == '0');
        assert(v[4] == hex_char((code / 16) as int));
        assert(v[5] == hex_char((code % 16) as int));
        assert(code / 16 == 0 || code / 16 == 1);
        assert(16 * hex_value(v[4]) + hex_value(v[5]) == code);
        assert(((code as int) as char) == c);
    } else {
        assert(v[0] == c);
    }
}

/// A string body followed by its closing quote reads back as the string.
proof fn lemma_unescape_escape(s: Seq<char>, rest: Seq<char>)
    ensures
        unescape(escape(s) + seq!['"'] + rest) == Some((s, seq!['"'] + rest)),
    decreases s.len(),
{
    let v = escape(s) + seq!['"'] + rest;
    if s.len() == 0 {
        assert(escape(s) =~= Seq::<char>::empty());
        assert(v =~= seq!['"'] + rest);
    } else {
        let c = s[0];
        let t = s.skip(1);
        assert(s =~= seq![c] + t);
        lemma_escape_cons(c, t);
        lemma_escaped_head(c, escape(t) + seq!['"'] + rest);
        let e = escape_char(c);
        assert(v =~= e + (escape(t) + seq!['"'] + rest));
        assert(v[0] == e[0]);
        assert(v.skip(e.len() as int) =~= escape(t) + seq!['"'] + rest);
        lemma_unescape_escape(t, rest);
        assert(seq![c] + t =~= s);
    }
}

proof fn lemma_digit_char_value(n: int)
    requires
        0 <= n < 10,
    ensures
        is_digit_char(digit_char(n)),
        digit_char(n) as int - '0' as int == n,
{
}

pub(crate) proof fn lemma_decimal_digits(n: nat)
    ensures
        decimal(n).len() > 0,
        forall|i: int| 0 <= i < decimal(n).len() ==> is_digit_char(#[trigger] decimal(n)[i]),
        digits_value(decimal(n)) == n,
    decreases n,
{
    lemma_digit_char_value((n % 10) as int);
    if n < 10 {
        let d = decimal(n);
        assert(d.drop_last() =~= Seq::<char>::empty());
        assert(d.last() == digit_char(n as int));
        assert(digits_value(d.drop_last()) == 0);
        assert(digits_value(d) == digits_value(d.drop_last()) * 10 + (d.last() as int - '0' as int) as nat);
    } else {
        lemma_decimal_digits(n / 10);
        let d = decimal(n);
        assert(d.drop_last() =~= decimal(n / 10));
        assert(d.last() == digit_char((n % 10) as int));
        assert forall|i: int| 0 <= i < d.len() implies is_digit_char(#[trigger] d[i]) by {
            if i < d.len() - 1 {
                assert(d[i] == decimal(n / 10)[i]);
            }
        }
        assert(digits_value(d) == digits_value(d.drop_last()) * 10 + (d.last() as int - '0' as int) as nat);
        assert(n == (n / 10) * 10 + n % 10);
    }
}

proof fn lemma_take_digits(d: Seq<char>, rest: Seq<char>)
    requires
        forall|i: int| 0 <= i < d.len() ==> is_digit_char(#[trigger] d[i]),
        rest.len() == 0 || !is_digit_char(rest[0]),
    ensures
        take_digits(d + rest) == (d, rest),
    decreases d.len(),
{
    let v = d + rest;
    if d.len() == 0 {
        assert(v =~= rest);
    } else {
        let t = d.skip(1);
        assert forall|i: int| 0 <= i < t.len() implies is_digit_char(#[trigger] t[i]) by {
            assert(t[i] == d[i + 1]);
        }
        lemma_take_digits(t, rest);
        assert(v.skip(1) =~= t + rest);
        assert(v[0] == d[0]);
        assert(seq![d[0]] + t =~= d);
    }
}

proof fn lemma_read_number(n: nat, rest: Seq<char>)
    requires
        rest.len() == 0 || !is_digit_char(rest[0]),
    ensures
        read_number(decimal(n) + rest) == Some((n, rest)),
{
    lemma_decimal_digits(n);
    lemma_take_digits(decimal(n), rest);
}

proof fn lemma_strip_prefix(p: Seq<char>, rest: Seq<char>)
    ensures
        strip_prefix(p + rest, p) == Some(rest),
{
    assert((p + rest).take(p.len() as int) =~= p);
    assert((p + rest).skip(p.len() as int) =~= rest);
}

/// The claims' JSON text reads back as the same claims.
#[verifier::spinoff_prover]
#[verifier::rlimit(50)]
pub proof fn lemma_read_claims_json(c: Claims)
    ensures
        read_claims(claims_json(c)) == Some((c.uid@, c.name@, c.iat as nat, c.exp as nat)),
{
    let p1 = seq!['{', '"', 'u', 'i', 'd', '"', ':', '"'];
    let p2 = seq!['"', ',', '"', 'n', 'a', 'm', 'e', '"', ':', '"'];
    let p3 = seq!['"', ',', '"', 'i', 'a', 't', '"', ':'];
    let p4 = seq![',', '"', 'e', 'x', 'p', '"', ':'];
    let close = seq!['}'];
    let d_iat = decimal(c.iat as nat);
    let d_exp = decimal(c.exp as nat);
    let tail4 = d_exp + close;
    let tail3 = p4 + tail4;
    let tail2 = d_iat + tail3;
    let v5 = tail2;
    let v4 = p3 + v5;
    let name_body = escape(c.name@);
    let v3 = name_body + v4;
    let v2 = p2.skip(1);
    let after_uid = p2 + v3;
    let v1 = escape(c.uid@) + after_uid;
    assert(claims_json(c) =~= p1 + v1);
    lemma_strip_prefix(p1, v1);
    // uid
    assert(after_uid =~= seq!['"'] + (p2.skip(1) + v3));
    assert(v1 =~= escape(c.uid@) + seq!['"'] + (p2.skip(1) + v3));
    lemma_unescape_escape(c.uid@, p2.skip(1) + v3);
    assert(seq!['"'] + (p2.skip(1) + v3) =~= p2 + v3);
    lemma_strip_prefix(p2, v3);
    // name
    assert(v4 =~= seq!['"'] + p3.skip(1) + v5);
    assert(v3 =~= escape(c.name@) + seq!['"'] + (p3.skip(1) + v5));
    lemma_unescape_escape(c.name@, p3.skip(1) + v5);
    assert(seq!['"'] + (p3.skip(1) + v5) =~= p3 + v5);
    lemma_strip_prefix(p3, v5);
    // iat
    assert(tail3[0] == ',');
    lemma_read_number(c.iat as nat, tail3);
    lemma_strip_prefix(p4, tail4);
    // exp
    assert(close[0] == '}');
    lemma_read_number(c.exp as nat, close);
}

/// Same claims: same text in `uid` and `name`, same numbers.
pub open spec fn same_claims(a: Claims, b: Claims) -> bool {
    a.uid@ == b.uid@ && a.name@ == b.name@ && a.iat == b.iat && a.exp == b.exp
}

} // verus!
