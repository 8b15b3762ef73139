//! Text helpers with the meaning std gives them: Unicode white space,
//! `trim`, blank strings, UTF-8 length and lower-casing.

use vstd::prelude::*;

verus! {

/// The characters with the Unicode `White_Space` property, which is what
/// `char::is_whitespace` and `str::trim` go by.
pub open spec fn is_white_space(c: char) -> bool {
    ||| ('\u{9}' <= c && c <= '\u{d}')
    ||| c == ' '
    ||| c == '\u{85}'
    ||| c == '\u{a0}'
    ||| c == '\u{1680}'
    ||| ('\u{2000}' <= c && c <= '\u{200a}')
    ||| c == '\u{2028}'
    ||| c == '\u{2029}'
    ||| c == '\u{202f}'
    ||| c == '\u{205f}'
    ||| c == '\u{3000}'
}

/// `s` without its leading white space.
pub open spec fn trim_start(s: Seq<char>) -> Seq<char>
    decreases s.len(),
{
    if s.len() > 0 && is_white_space(s[0]) {
        trim_start(s.subrange(1, s.len() as int))
    } else {
        s
    }
}

/// `s` without its trailing white space.
pub open spec fn trim_end(s: Seq<char>) -> Seq<char>
    decreases s.len(),
{
    if s.len() > 0 && is_white_space(s.last()) {
        trim_end(s.drop_last())
    } else {
        s
    }
}

/// What `str::trim` gives back.
pub open spec fn trim(s: Seq<char>) -> Seq<char> {
    trim_end(trim_start(s))
}

/// A string that is empty once trimmed.
pub open spec fn is_blank(s: Seq<char>) -> bool {
    trim(s).len() == 0
}

/// Every character is white space.
pub open spec fn all_white(s: Seq<char>) -> bool {
    forall|i: int| 0 <= i < s.len() ==> is_white_space(#[trigger] s[i])
}

pub fn is_whitespace(c: char) -> (b: bool)
    ensures
        b == is_white_space(c),
{
    ('\u{9}' <= c && c <= '\u{d}') || c == ' ' || c == '\u{85}' || c == '\u{a0}' || c
        == '\u{1680}' || ('\u{2000}' <= c && c <= '\u{200a}') || c == '\u{2028}' || c
        == '\u{2029}' || c == '\u{202f}' || c == '\u{205f}' || c == '\u{3000}'
}

/// Dropping `k` leading white-space characters does not change `trim_start`.
proof fn lemma_trim_start_skip(s: Seq<char>, k: int)
    requires
        0 <= k <= s.len(),
        forall|i: int| 0 <= i < k ==> is_white_space(#[trigger] s[i]),
    ensures
        trim_start(s) == trim_start(s.subrange(k, s.len() as int)),
    decreases k,
{
    if k > 0 {
        let t = s.subrange(1, s.len() as int);
        assert forall|i: int| 0 <= i < k - 1 implies is_white_space(#[trigger] t[i]) by {
            assert(t[i] == s[i + 1]);
        }
        lemma_trim_start_skip(t, k - 1);
        assert(t.subrange(k - 1, t.len() as int) =~= s.subrange(k, s.len() as int));
    } else {
        assert(s.subrange(0, s.len() as int) =~= s);
    }
}

/// Dropping trailing white space from index `k` on does not change `trim_end`.
proof fn lemma_trim_end_cut(s: Seq<char>, k: int)
    requires
        0 <= k <= s.len(),
        forall|i: int| k <= i < s.len() ==> is_white_space(#[trigger] s[i]),
    ensures
        trim_end(s) == trim_end(s.subrange(0, k)),
    decreases s.len() - k,
{
    if k < s.len() {
        let t = s.drop_last();
        assert forall|i: int| k <= i < t.len() implies is_white_space(#[trigger] t[i]) by {
            assert(t[i] == s[i]);
        }
        lemma_trim_end_cut(t, k);
        assert(t.subrange(0, k) =~= s.subrange(0, k));
    } else {
        assert(s.subrange(0, k) =~= s);
    }
}

/// Trimming an all-white string leaves nothing; otherwise the result keeps
/// the span from the first to the last character that is not white space.
proof fn lemma_trim_span(s: Seq<char>, a: int, b: int)
    requires
        0 <= a <= b <= s.len(),
        forall|i: int| 0 <= i < a ==> is_white_space(#[trigger] s[i]),
        forall|i: int| b <= i < s.len() ==> is_white_space(#[trigger] s[i]),
        a == b || (!is_white_space(s[a]) && !is_white_space(s[b - 1])),
    ensures
        trim(s) == s.subrange(a, b),
{
    lemma_trim_start_skip(s, a);
    let u = s.subrange(a, s.len() as int);
    if a < b {
        assert(trim_start(u) == u);
        assert forall|i: int| b - a <= i < u.len() implies is_white_space(#[trigger] u[i]) by {
            assert(u[i] == s[i + a]);
        }
        lemma_trim_end_cut(u, b - a);
        let w = u.subrange(0, b - a);
        assert(w.last() == s[b - 1]);
        assert(trim_end(w) == w);
        assert(w =~= s.subrange(a, b));
    } else {
        assert forall|i: int| 0 <= i < u.len() implies is_white_space(#[trigger] u[i]) by {
            assert(u[i] == s[i + a]);
        }
        lemma_all_white_trim_start(u);
        assert(s.subrange(a, b) =~= Seq::<char>::empty());
    }
}

proof fn lemma_all_white_trim_start(s: Seq<char>)
    requires
        all_white(s),
    ensures
        trim_start(s).len() == 0,
        trim_end(trim_start(s)).len() == 0,
    decreases s.len(),
{
    if s.len() > 0 {
        let t = s.subrange(1, s.len() as int);
        assert forall|i: int| 0 <= i < t.len() implies is_white_space(#[trigger] t[i]) by {
            assert(t[i] == s[i + 1]);
        }
        lemma_all_white_trim_start(t);
    }
}

/// The characters of `s`, one per element.
pub fn chars_of(s: &str) -> (v: Vec<char>)
    ensures
        v@ == s@,
{
    let mut v: Vec<char> = Vec::new();
    for c in it: s.chars()
        invariant
            it.seq() == s@,
            v@ == it.seq().take(it.index() as int),
    {
        v.push(c);
        assert(v@ =~= it.seq().take(it.index() + 1));
    }
    assert(v@ =~= s@);
    v
}

/// Appends one character, as `String::push` does.
#[verifier::external_body]
pub(crate) fn push_char(s: &mut String, c: char)
    ensures
        final(s)@ == old(s)@.push(c),
{
    s.push(c);
}

/// The string made of `v[from..to]`.
pub fn string_from_chars(v: &Vec<char>, from: usize, to: usize) -> (s: String)
    requires
        from <= to <= v@.len(),
    ensures
        s@ == v@.subrange(from as int, to as int),
{
    let mut s = String::new();
    let mut i = from;
    while i < to
        invariant
            from <= i <= to <= v@.len(),
            s@ == v@.subrange(from as int, i as int),
        decreases to - i,
    {
        push_char(&mut s, v[i]);
        assert(s@ =~= v@.subrange(from as int, i + 1));
        i = i + 1;
    }
    s
}

/// `str::trim`: the string without leading and trailing white space.
pub fn trim_string(s: &str) -> (t: String)
    ensures
        t@ == trim(s@),
{
    let v = chars_of(s);
    let n = v.len();
    let mut a: usize = 0;
    while a < n && is_whitespace(v[a])
        invariant
            a <= n == v@.len(),
            forall|i: int| 0 <= i < a ==> is_white_space(#[trigger] v@[i]),
        decreases n - a,
    {
        a = a + 1;
    }
    let mut b: usize = n;
    while b > a && is_whitespace(v[b - 1])
        invariant
            a <= b <= n == v@.len(),
            forall|i: int| b <= i < n ==> is_white_space(#[trigger] v@[i]),
        decreases b,
    {
        b = b - 1;
    }
    proof {
        lemma_trim_span(s@, a as int, b as int);
    }
    string_from_chars(&v, a, b)
}

/// Whether `s.trim().is_empty()`.
pub fn is_blank_str(s: &str) -> (b: bool)
    ensures
        b == is_blank(s@),
{
    let mut all = true;
    for c in it: s.chars()
        invariant
            it.seq() == s@,
            all == (forall|i: int| 0 <= i < it.index() ==> is_white_space(#[trigger] s@[i])),
    {
        if !is_whitespace(c) {
            all = false;
        }
    }
    proof {
        if all {
            lemma_trim_span(s@, s@.len() as int, s@.len() as int);
        } else {
            let a = choose|i: int| 0 <= i < s@.len() && !is_white_space(s@[i]);
            lemma_not_blank(s@, a);
        }
    }
    all
}

/// A string with a character that is not white space is not blank.
proof fn lemma_not_blank(s: Seq<char>, k: int)
    requires
        0 <= k < s.len(),
        !is_white_space(s[k]),
    ensures
        !is_blank(s),
{
    let j = lemma_trim_start_from(s, k);
    let t = trim_start(s);
    assert(t[k - j] == s[k]);
    lemma_trim_end_keeps(t, k - j);
}

/// `trim_start` only drops a prefix, and not past a character that is not white space.
proof fn lemma_trim_start_from(s: Seq<char>, k: int) -> (j: int)
    requires
        0 <= k < s.len(),
        !is_white_space(s[k]),
    ensures
        0 <= j <= k,
        trim_start(s) == s.subrange(j, s.len() as int),
    decreases s.len(),
{
    if s.len() > 0 && is_white_space(s[0]) {
        let t = s.subrange(1, s.len() as int);
        assert(t[k - 1] == s[k]);
        let j2 = lemma_trim_start_from(t, k - 1);
        assert(t.subrange(j2, t.len() as int) =~= s.subrange(j2 + 1, s.len() as int));
        j2 + 1
    } else {
        assert(s.subrange(0, s.len() as int) =~= s);
        0
    }
}

/// `trim_end` keeps every character up to one that is not white space.
proof fn lemma_trim_end_keeps(s: Seq<char>, m: int)
    requires
        0 <= m < s.len(),
        !is_white_space(s[m]),
    ensures
        trim_end(s).len() > m,
    decreases s.len(),
{
    if s.len() > 0 && is_white_space(s.last()) {
        let t = s.drop_last();
        assert(t[m] == s[m]);
        lemma_trim_end_keeps(t, m);
    }
}

/// Whether two strings hold the same characters.
pub fn same_text(a: &str, b: &str) -> (r: bool)
    ensures
        r == (a@ == b@),
{
    a.to_string() == b.to_string()
}

/// What `str::to_lowercase` gives for `s` (Unicode lower-case mapping).
pub uninterp spec fn lowercase(s: Seq<char>) -> Seq<char>;

/// `str::to_lowercase`. Claimed: the result is the named lower-case
/// mapping of the argument, a function of the text alone, and it is empty
/// exactly when the argument is (each character is mapped to one or more
/// characters, as `char::to_lowercase` documents).
#[verifier::external_body]
pub(crate) fn to_lowercase(s: &str) -> (r: String)
    ensures
        r@ == lowercase(s@),
        r@.len() == 0 <==> s@.len() == 0,
{
    s.to_lowercase()
}

/// The number of bytes of the UTF-8 encoding (what `str::len` counts).
pub open spec fn utf8_len(s: Seq<char>) -> usize {
    vstd::utf8::encode_utf8(s).len() as usize
}

/// Every character takes at least one byte.
proof fn lemma_utf8_at_least_chars(s: Seq<char>)
    ensures
        vstd::utf8::encode_utf8(s).len() >= s.len(),
    decreases s.len(),
{
    if s.len() > 0 {
        lemma_utf8_at_least_chars(s.drop_first());
    }
}

pub fn byte_len(s: &str) -> (n: usize)
    ensures
        n == utf8_len(s@),
        n >= s@.len(),
{
    proof {
        lemma_utf8_at_least_chars(s@);
    }
    s.as_bytes().len()
}

proof fn lemma_trim_bounds(s: Seq<char>) -> (ab: (int, int))
    ensures
        0 <= ab.0 <= ab.1 <= s.len(),
        trim(s) == s.subrange(ab.0, ab.1),
        ab.0 == ab.1 || (!is_white_space(s[ab.0]) && !is_white_space(s[ab.1 - 1])),
{
    if all_white(s) {
        lemma_trim_span(s, s.len() as int, s.len() as int);
        (s.len() as int, s.len() as int)
    } else {
        let k = choose|i: int| 0 <= i < s.len() && !is_white_space(s[i]);
        let a = lemma_trim_start_from(s, k);
        let t = trim_start(s);
        assert(t[k - a] == s[k]);
        lemma_trim_end_keeps(t, k - a);
        // trim_start stops at a character that is not white space
        lemma_trim_start_head(s);
        let e = lemma_trim_end_prefix(t);
        assert(trim(s) == t.subrange(0, e));
        assert(t.subrange(0, e) =~= s.subrange(a, a + e));
        assert(trim(s)[e - 1] == s[a + e - 1]);
        assert(trim(s)[0] == s[a]);
        (a, a + e)
    }
}

proof fn lemma_trim_start_head(s: Seq<char>)
    ensures
        trim_start(s).len() > 0 ==> !is_white_space(trim_start(s)[0]),
    decreases s.len(),
{
    if s.len() > 0 && is_white_space(s[0]) {
        lemma_trim_start_head(s.subrange(1, s.len() as int));
    }
}

proof fn lemma_trim_end_prefix(s: Seq<char>) -> (e: int)
    ensures
        0 <= e <= s.len(),
        trim_end(s) == s.subrange(0, e),
        e > 0 ==> !is_white_space(s[e - 1]),
    decreases s.len(),
{
    if s.len() > 0 && is_white_space(s.last()) {
        let e = lemma_trim_end_prefix(s.drop_last());
        assert(s.drop_last().subrange(0, e) =~= s.subrange(0, e));
        e
    } else {
        assert(s.subrange(0, s.len() as int) =~= s);
        s.len() as int
    }
}

/// Trimming twice trims once, and a trimmed text is blank exactly when the
/// untrimmed one is: the names stored trimmed pass the checks their
/// payloads passed.
pub proof fn law_trim_idempotent(s: Seq<char>)
    ensures
        trim(trim(s)) == trim(s),
        is_blank(trim(s)) == is_blank(s),
{
    let (a, b) = lemma_trim_bounds(s);
    let t = trim(s);
    assert(t.len() == b - a);
    if a < b {
        assert(t[0] == s[a]);
        assert(t[b - a - 1] == s[b - 1]);
    }
    lemma_trim_span(t, 0, t.len() as int);
    assert(t.subrange(0, t.len() as int) =~= t);
}

} // verus!
