//! Character classes and string primitives shared by the validators and
//! renderers. Every helper states its result over `Seq<char>` views.
use vstd::prelude::*;

verus! {

/// `String::push` appends one character.
pub assume_specification[ String::push ](s: &mut String, ch: char)
    ensures
        final(s)@ == old(s)@.push(ch),
;

// ── character classes ────────────────────────────────────────────

pub open spec fn is_ascii_digit(c: char) -> bool {
    '0' <= c && c <= '9'
}

pub open spec fn is_ascii_alpha(c: char) -> bool {
    ('a' <= c && c <= 'z') || ('A' <= c && c <= 'Z')
}

pub open spec fn is_ascii_alnum(c: char) -> bool {
    is_ascii_alpha(c) || is_ascii_digit(c)
}

pub open spec fn is_ascii_hex(c: char) -> bool {
    is_ascii_digit(c) || ('a' <= c && c <= 'f') || ('A' <= c && c <= 'F')
}

/// Unicode general category Cc: U+0000–U+001F and U+007F–U+009F.
pub open spec fn is_control(c: char) -> bool {
    c <= '\u{1f}' || ('\u{7f}' <= c && c <= '\u{9f}')
}

/// The Unicode `White_Space` property.
pub open spec fn is_whitespace(c: char) -> bool {
    ('\u{9}' <= c && c <= '\u{d}') || c == ' ' || c == '\u{85}' || c == '\u{a0}' || c
        == '\u{1680}' || ('\u{2000}' <= c && c <= '\u{200a}') || c == '\u{2028}' || c
        == '\u{2029}' || c == '\u{202f}' || c == '\u{205f}' || c == '\u{3000}'
}

/// The flag given, or `d` where none is.
pub open spec fn bool_or(o: Option<bool>, d: bool) -> bool {
    match o {
        Some(b) => b,
        None => d,
    }
}

/// The view of an optional owned string.
pub open spec fn opt_str(o: Option<String>) -> Option<Seq<char>> {
    match o {
        Some(s) => Some(s@),
        None => None,
    }
}

pub open spec fn ascii_lower(c: char) -> char {
    if 'A' <= c && c <= 'Z' {
        ((c as u32) + 32) as char
    } else {
        c
    }
}

pub open spec fn lower_seq(s: Seq<char>) -> Seq<char> {
    s.map_values(|c: char| ascii_lower(c))
}

pub open spec fn eq_ignore_case(a: Seq<char>, b: Seq<char>) -> bool {
    lower_seq(a) == lower_seq(b)
}

pub fn char_is_ascii_alnum(c: char) -> (r: bool)
    ensures
        r == is_ascii_alnum(c),
{
    ('a' <= c && c <= 'z') || ('A' <= c && c <= 'Z') || ('0' <= c && c <= '9')
}

pub fn char_is_ascii_hex(c: char) -> (r: bool)
    ensures
        r == is_ascii_hex(c),
{
    ('0' <= c && c <= '9') || ('a' <= c && c <= 'f') || ('A' <= c && c <= 'F')
}

pub fn char_is_control(c: char) -> (r: bool)
    ensures
        r == is_control(c),
{
    c <= '\u{1f}' || ('\u{7f}' <= c && c <= '\u{9f}')
}

pub fn char_is_whitespace(c: char) -> (r: bool)
    ensures
        r == is_whitespace(c),
{
    ('\u{9}' <= c && c <= '\u{d}') || c == ' ' || c == '\u{85}' || c == '\u{a0}' || c
        == '\u{1680}' || ('\u{2000}' <= c && c <= '\u{200a}') || c == '\u{2028}' || c
        == '\u{2029}' || c == '\u{202f}' || c == '\u{205f}' || c == '\u{3000}'
}

pub fn char_to_ascii_lower(c: char) -> (r: char)
    ensures
        r == ascii_lower(c),
{
    if 'A' <= c && c <= 'Z' {
        let u: u32 = c as u32;
        let b: u8 = (u + 32) as u8;
        b as char
    } else {
        c
    }
}

// ── sequences of characters ─────────────────────────────────────

/// The characters of `s`, in order.
pub fn chars_of(s: &str) -> (v: Vec<char>)
    ensures
        v@ == s@,
{
    let mut v: Vec<char> = Vec::new();
    for c in it: s.chars()
        invariant
            v@ == it.seq().take(it.index() as int),
            it.seq() == s@,
    {
        v.push(c);
    }
    v
}


pub fn seq_eq(a: &Vec<char>, b: &Vec<char>) -> (r: bool)
    ensures
        r == (a@ == b@),
{
    if a.len() != b.len() {
        return false;
    }
    let n = a.len();
    for i in 0..n
        invariant
            n == a.len(),
            n == b.len(),
            forall|j: int| 0 <= j < i ==> a@[j] == b@[j],
    {
        if a[i] != b[i] {
            return false;
        }
    }
    assert(a@ =~= b@);
    true
}

/// Whether the characters in `s` are exactly those of `lit`.
pub fn chars_are(s: &Vec<char>, lit: &str) -> (r: bool)
    ensures
        r == (s@ == lit@),
{
    let l = chars_of(lit);
    seq_eq(s, &l)
}

pub fn str_eq(a: &str, b: &str) -> (r: bool)
    ensures
        r == (a@ == b@),
{
    let x = chars_of(a);
    chars_are(&x, b)
}

pub fn seq_has_prefix(s: &Vec<char>, p: &Vec<char>) -> (r: bool)
    ensures
        r == p@.is_prefix_of(s@),
{
    if p.len() > s.len() {
        return false;
    }
    let n = p.len();
    for i in 0..n
        invariant
            n == p.len(),
            n <= s.len(),
            forall|j: int| 0 <= j < i ==> p@[j] == s@[j],
    {
        if p[i] != s[i] {
            return false;
        }
    }
    assert(s@.subrange(0, p@.len() as int) =~= p@);
    true
}

pub fn seq_has_suffix(s: &Vec<char>, p: &Vec<char>) -> (r: bool)
    ensures
        r == p@.is_suffix_of(s@),
{
    if p.len() > s.len() {
        return false;
    }
    let n = p.len();
    let off = s.len() - n;
    for i in 0..n
        invariant
            n == p.len(),
            off + n == s.len(),
            forall|j: int| 0 <= j < i ==> p@[j] == s@[off + j],
    {
        if p[i] != s[off + i] {
            return false;
        }
    }
    assert(s@.subrange(off as int, s@.len() as int) =~= p@);
    true
}

pub fn starts_with_lit(s: &Vec<char>, lit: &str) -> (r: bool)
    ensures
        r == lit@.is_prefix_of(s@),
{
    let l = chars_of(lit);
    seq_has_prefix(s, &l)
}

pub fn ends_with_lit(s: &Vec<char>, lit: &str) -> (r: bool)
    ensures
        r == lit@.is_suffix_of(s@),
{
    let l = chars_of(lit);
    seq_has_suffix(s, &l)
}

pub fn seq_contains_char(s: &Vec<char>, c: char) -> (r: bool)
    ensures
        r == s@.contains(c),
{
    let n = s.len();
    for i in 0..n
        invariant
            n == s.len(),
            forall|j: int| 0 <= j < i ==> s@[j] != c,
    {
        if s[i] == c {
            assert(s@[i as int] == c);
            return true;
        }
    }
    false
}

/// Appends the characters of `s` to `out`.
pub fn push_chars(out: &mut String, s: &Vec<char>)
    ensures
        final(out)@ == old(out)@ + s@,
{
    let n = s.len();
    for i in 0..n
        invariant
            n == s.len(),
            out@ == old(out)@ + s@.take(i as int),
    {
        out.push(s[i]);
        assert(s@.take(i + 1) =~= s@.take(i as int).push(s@[i as int]));
    }
    assert(s@.take(n as int) =~= s@);
}

pub fn string_of(s: &Vec<char>) -> (r: String)
    ensures
        r@ == s@,
{
    let mut out = String::new();
    push_chars(&mut out, s);
    out
}

pub fn push_lit(out: &mut String, lit: &str)
    ensures
        final(out)@ == old(out)@ + lit@,
{
    out.append(lit);
}

pub fn lower_chars(s: &Vec<char>) -> (r: Vec<char>)
    ensures
        r@ == lower_seq(s@),
{
    let mut out: Vec<char> = Vec::new();
    let n = s.len();
    for i in 0..n
        invariant
            n == s.len(),
            out@ == lower_seq(s@.take(i as int)),
    {
        let c = char_to_ascii_lower(s[i]);
        out.push(c);
        assert(lower_seq(s@.take(i + 1)) =~= lower_seq(s@.take(i as int)).push(c));
    }
    assert(s@.take(n as int) =~= s@);
    out
}

pub fn eq_ignore_ascii_case(a: &Vec<char>, b: &Vec<char>) -> (r: bool)
    ensures
        r == eq_ignore_case(a@, b@),
{
    let la = lower_chars(a);
    let lb = lower_chars(b);
    seq_eq(&la, &lb)
}


// ── UTF-8 byte length ───────────────────────────────────────────

/// Bytes of the UTF-8 encoding of one character.
pub open spec fn char_utf8_width(c: char) -> nat {
    if (c as u32) < 0x80 {
        1
    } else if (c as u32) < 0x800 {
        2
    } else if (c as u32) < 0x10000 {
        3
    } else {
        4
    }
}

/// Bytes of the UTF-8 encoding of `s` (what `str::len` reports).
pub open spec fn utf8_len(s: Seq<char>) -> nat
    decreases s.len(),
{
    if s.len() == 0 {
        0
    } else {
        char_utf8_width(s[0]) + utf8_len(s.drop_first())
    }
}

/// `utf8_len` is the length of the UTF-8 encoding, i.e. of `str::len`.
pub proof fn lemma_utf8_len_is_encoded_len(s: Seq<char>)
    ensures
        utf8_len(s) == vstd::utf8::encode_utf8(s).len(),
    decreases s.len(),
{
    if s.len() > 0 {
        vstd::utf8::char_is_scalar(s[0]);
        lemma_utf8_len_is_encoded_len(s.drop_first());
    }
}

pub proof fn lemma_utf8_len_push(s: Seq<char>, c: char)
    ensures
        utf8_len(s.push(c)) == utf8_len(s) + char_utf8_width(c),
    decreases s.len(),
{
    let t = s.push(c);
    if s.len() == 0 {
        assert(t[0] == c);
        assert(t.drop_first() =~= Seq::<char>::empty());
        assert(utf8_len(t.drop_first()) == 0);
        assert(utf8_len(t) == char_utf8_width(c) + utf8_len(t.drop_first()));
    } else {
        assert(t[0] == s[0]);
        assert(t.drop_first() =~= s.drop_first().push(c));
        lemma_utf8_len_push(s.drop_first(), c);
        assert(utf8_len(t) == char_utf8_width(t[0]) + utf8_len(t.drop_first()));
    }
}

fn char_width(c: char) -> (w: usize)
    ensures
        w == char_utf8_width(c),
{
    let u = c as u32;
    if u < 0x80 {
        1
    } else if u < 0x800 {
        2
    } else if u < 0x10000 {
        3
    } else {
        4
    }
}

/// Whether the UTF-8 encoding of `s` is longer than `limit` bytes.
pub fn utf8_len_exceeds(s: &Vec<char>, limit: usize) -> (r: bool)
    ensures
        r == (utf8_len(s@) > limit),
{
    let mut total: usize = 0;
    let n = s.len();
    for i in 0..n
        invariant
            n == s.len(),
            total == utf8_len(s@.take(i as int)),
            total <= limit,
    {
        proof {
            assert(s@.take(i + 1) =~= s@.take(i as int).push(s@[i as int]));
            lemma_utf8_len_push(s@.take(i as int), s@[i as int]);
        }
        let w = char_width(s[i]);
        if w > limit - total {
            proof {
                lemma_utf8_len_monotone(s@, (i + 1) as int);
            }
            return true;
        }
        total = total + w;
    }
    assert(s@.take(n as int) =~= s@);
    false
}

pub proof fn lemma_utf8_len_monotone(s: Seq<char>, i: int)
    requires
        0 <= i <= s.len(),
    ensures
        utf8_len(s.take(i)) <= utf8_len(s),
    decreases s.len() - i,
{
    if i < s.len() {
        assert(s.take(i + 1) =~= s.take(i).push(s[i]));
        lemma_utf8_len_push(s.take(i), s[i]);
        lemma_utf8_len_monotone(s, i + 1);
    } else {
        assert(s.take(i) =~= s);
    }
}


// ── decimal numbers ─────────────────────────────────────────────

pub open spec fn digit_char(d: nat) -> char {
    ((d + 48) as u8) as char
}

/// The decimal rendering of `n`, as `to_string` gives it.
pub open spec fn decimal(n: nat) -> Seq<char>
    decreases n,
{
    if n < 10 {
        seq![digit_char(n)]
    } else {
        decimal(n / 10).push(digit_char(n % 10))
    }
}

fn digit_of(d: u64) -> (c: char)
    requires
        d < 10,
    ensures
        c == digit_char(d as nat),
{
    let b: u8 = (d as u8) + 48;
    b as char
}

/// The decimal digits of `n`.
pub fn decimal_chars(n: u64) -> (v: Vec<char>)
    ensures
        v@ == decimal(n as nat),
    decreases n,
{
    if n < 10 {
        let c = digit_of(n);
        let v = vec![c];
        assert(v@ =~= seq![c]);
        v
    } else {
        let mut v = decimal_chars(n / 10);
        let c = digit_of(n % 10);
        v.push(c);
        v
    }
}

/// Appends the decimal rendering of `n`.
pub fn push_decimal(out: &mut String, n: u64)
    ensures
        final(out)@ == old(out)@ + decimal(n as nat),
{
    let d = decimal_chars(n);
    push_chars(out, &d);
}

}
