//! Reading text apart: trimming, splitting into fields, tokens and lines,
//! searching, and decimal numbers.
use vstd::prelude::*;

use crate::text::{char_is_whitespace, is_ascii_digit, is_whitespace};

verus! {

// ── trimming ────────────────────────────────────────────────────

pub open spec fn trim_start_seq(s: Seq<char>) -> Seq<char>
    decreases s.len(),
{
    if s.len() > 0 && is_whitespace(s[0]) {
        trim_start_seq(s.drop_first())
    } else {
        s
    }
}

pub open spec fn trim_end_seq(s: Seq<char>) -> Seq<char>
    decreases s.len(),
{
    if s.len() > 0 && is_whitespace(s.last()) {
        trim_end_seq(s.drop_last())
    } else {
        s
    }
}

/// What `str::trim` leaves: leading and trailing Unicode white space removed.
pub open spec fn trim_seq(s: Seq<char>) -> Seq<char> {
    trim_end_seq(trim_start_seq(s))
}

fn copy_range(s: &Vec<char>, a: usize, b: usize) -> (r: Vec<char>)
    requires
        a <= b <= s.len(),
    ensures
        r@ == s@.subrange(a as int, b as int),
{
    let mut out: Vec<char> = Vec::new();
    for i in a..b
        invariant
            a <= b <= s.len(),
            out@ == s@.subrange(a as int, i as int),
    {
        out.push(s[i]);
        assert(out@ =~= s@.subrange(a as int, i + 1));
    }
    out
}

pub fn trim_chars(s: &Vec<char>) -> (r: Vec<char>)
    ensures
        r@ == trim_seq(s@),
{
    let n = s.len();
    let mut a: usize = 0;
    assert(s@.subrange(0, n as int) =~= s@);
    while a < n && char_is_whitespace(s[a])
        invariant
            n == s.len(),
            a <= n,
            trim_start_seq(s@) == trim_start_seq(s@.subrange(a as int, n as int)),
        decreases n - a,
    {
        assert(s@.subrange(a as int, n as int).drop_first() =~= s@.subrange(a + 1, n as int));
        a = a + 1;
    }
    let ghost t = s@.subrange(a as int, n as int);
    assert(trim_start_seq(t) == t);
    let mut b: usize = n;
    while b > a && char_is_whitespace(s[b - 1])
        invariant
            n == s.len(),
            a <= b <= n,
            t == s@.subrange(a as int, n as int),
            trim_end_seq(t) == trim_end_seq(s@.subrange(a as int, b as int)),
        decreases b,
    {
        assert(s@.subrange(a as int, b as int).drop_last() =~= s@.subrange(a as int, b - 1));
        b = b - 1;
    }
    copy_range(s, a, b)
}

// ── fields and tokens ───────────────────────────────────────────

/// The position of the first `c` in `s`, if there is one.
pub open spec fn first_index_of(s: Seq<char>, c: char) -> Option<int> {
    if exists|i: int| 0 <= i < s.len() && s[i] == c {
        Some(choose|i: int| 0 <= i < s.len() && s[i] == c && forall|j: int| 0 <= j < i ==> s[j] != c)
    } else {
        None
    }
}

/// `str::split_once`: the text before the first `c` and the text after it.
pub open spec fn split_once_seq(s: Seq<char>, c: char) -> Option<(Seq<char>, Seq<char>)> {
    match first_index_of(s, c) {
        Some(i) => Some((s.take(i), s.skip(i + 1))),
        None => None,
    }
}

proof fn lemma_first_index(s: Seq<char>, c: char, i: int)
    requires
        0 <= i < s.len(),
        s[i] == c,
        forall|j: int| 0 <= j < i ==> s[j] != c,
    ensures
        first_index_of(s, c) == Some(i),
{
    let w = choose|k: int| 0 <= k < s.len() && s[k] == c && forall|j: int| 0 <= j < k ==> s[j] != c;
    assert(0 <= i < s.len() && s[i] == c && forall|j: int| 0 <= j < i ==> s[j] != c);
    if w < i {
    } else if w > i {
        assert(s[i] != c);
    }
}

pub fn split_once_chars(s: &Vec<char>, c: char) -> (r: Option<(Vec<char>, Vec<char>)>)
    ensures
        match split_once_seq(s@, c) {
            Some((a, b)) => (r matches Some((x, y)) && x@ == a && y@ == b),
            None => r is None,
        },
{
    let n = s.len();
    for i in 0..n
        invariant
            n == s.len(),
            forall|j: int| 0 <= j < i ==> s@[j] != c,
    {
        if s[i] == c {
            proof {
                lemma_first_index(s@, c, i as int);
            }
            let a = copy_range(s, 0, i);
            let b = copy_range(s, i + 1, n);
            assert(s@.take(i as int) =~= s@.subrange(0, i as int));
            assert(s@.skip(i + 1) =~= s@.subrange(i + 1, n as int));
            return Some((a, b));
        }
    }
    None
}

/// Pieces separated by `sep`, with empty pieces dropped (`split` then
/// filtering out empty strings): finished pieces and the piece being read.
pub open spec fn tokens_state(s: Seq<char>, sep: char) -> (Seq<Seq<char>>, Seq<char>)
    decreases s.len(),
{
    if s.len() == 0 {
        (Seq::empty(), Seq::empty())
    } else {
        let (done, cur) = tokens_state(s.drop_last(), sep);
        if s.last() == sep {
            (if cur.len() > 0 {
                done.push(cur)
            } else {
                done
            }, Seq::empty())
        } else {
            (done, cur.push(s.last()))
        }
    }
}

pub open spec fn tokens(s: Seq<char>, sep: char) -> Seq<Seq<char>> {
    let (done, cur) = tokens_state(s, sep);
    if cur.len() > 0 {
        done.push(cur)
    } else {
        done
    }
}

pub fn tokens_of(s: &Vec<char>, sep: char) -> (out: Vec<Vec<char>>)
    ensures
        out@.map_values(|v: Vec<char>| v@) == tokens(s@, sep),
{
    let mut done: Vec<Vec<char>> = Vec::new();
    let mut cur: Vec<char> = Vec::new();
    let n = s.len();
    for i in 0..n
        invariant
            n == s@.len(),
            (done@.map_values(|v: Vec<char>| v@), cur@) == tokens_state(s@.take(i as int), sep),
    {
        assert(s@.take(i + 1).drop_last() =~= s@.take(i as int));
        assert(s@.take(i + 1).last() == s@[i as int]);
        let c = s[i];
        if c == sep {
            if cur.len() > 0 {
                let ghost before = done@;
                done.push(cur);
                assert(done@.map_values(|v: Vec<char>| v@) =~= before.map_values(
                    |v: Vec<char>| v@,
                ).push(cur@));
            }
            cur = Vec::new();
            assert(cur@ =~= Seq::<char>::empty());
        } else {
            cur.push(c);
        }
    }
    assert(s@.take(n as int) =~= s@);
    if cur.len() > 0 {
        let ghost before = done@;
        done.push(cur);
        assert(done@.map_values(|v: Vec<char>| v@) =~= before.map_values(|v: Vec<char>| v@).push(
            cur@,
        ));
    }
    done
}

/// `str::split_whitespace`: maximal runs of non-white-space characters.
pub open spec fn ws_tokens_state(s: Seq<char>) -> (Seq<Seq<char>>, Seq<char>)
    decreases s.len(),
{
    if s.len() == 0 {
        (Seq::empty(), Seq::empty())
    } else {
        let (done, cur) = ws_tokens_state(s.drop_last());
        if is_whitespace(s.last()) {
            (if cur.len() > 0 {
                done.push(cur)
            } else {
                done
            }, Seq::empty())
        } else {
            (done, cur.push(s.last()))
        }
    }
}

pub open spec fn ws_tokens(s: Seq<char>) -> Seq<Seq<char>> {
    let (done, cur) = ws_tokens_state(s);
    if cur.len() > 0 {
        done.push(cur)
    } else {
        done
    }
}

pub fn ws_tokens_of(s: &Vec<char>) -> (out: Vec<Vec<char>>)
    ensures
        out@.map_values(|v: Vec<char>| v@) == ws_tokens(s@),
{
    let mut done: Vec<Vec<char>> = Vec::new();
    let mut cur: Vec<char> = Vec::new();
    let n = s.len();
    for i in 0..n
        invariant
            n == s@.len(),
            (done@.map_values(|v: Vec<char>| v@), cur@) == ws_tokens_state(s@.take(i as int)),
    {
        assert(s@.take(i + 1).drop_last() =~= s@.take(i as int));
        assert(s@.take(i + 1).last() == s@[i as int]);
        let c = s[i];
        if char_is_whitespace(c) {
            if cur.len() > 0 {
                let ghost before = done@;
                done.push(cur);
                assert(done@.map_values(|v: Vec<char>| v@) =~= before.map_values(
                    |v: Vec<char>| v@,
                ).push(cur@));
            }
            cur = Vec::new();
            assert(cur@ =~= Seq::<char>::empty());
        } else {
            cur.push(c);
        }
    }
    assert(s@.take(n as int) =~= s@);
    if cur.len() > 0 {
        let ghost before = done@;
        done.push(cur);
        assert(done@.map_values(|v: Vec<char>| v@) =~= before.map_values(|v: Vec<char>| v@).push(
            cur@,
        ));
    }
    done
}

// ── lines ───────────────────────────────────────────────────────

/// A line ended by `\n` loses one `\r` before it.
pub open spec fn strip_cr(l: Seq<char>) -> Seq<char> {
    if l.len() > 0 && l.last() == '\r' {
        l.drop_last()
    } else {
        l
    }
}

pub open spec fn lines_state(s: Seq<char>) -> (Seq<Seq<char>>, Seq<char>)
    decreases s.len(),
{
    if s.len() == 0 {
        (Seq::empty(), Seq::empty())
    } else {
        let (done, cur) = lines_state(s.drop_last());
        if s.last() == '\n' {
            (done.push(strip_cr(cur)), Seq::empty())
        } else {
            (done, cur.push(s.last()))
        }
    }
}

/// What `str::lines` yields: the pieces ended by `\n` (without it, and
/// without one `\r` before it), then the rest where it is not empty.
pub open spec fn lines_seq(s: Seq<char>) -> Seq<Seq<char>> {
    let (done, cur) = lines_state(s);
    if cur.len() > 0 {
        done.push(cur)
    } else {
        done
    }
}

fn strip_cr_chars(cur: Vec<char>) -> (r: Vec<char>)
    ensures
        r@ == strip_cr(cur@),
{
    let mut cur = cur;
    if cur.len() > 0 && cur[cur.len() - 1] == '\r' {
        cur.pop();
    }
    cur
}

pub fn lines_of(s: &Vec<char>) -> (out: Vec<Vec<char>>)
    ensures
        out@.map_values(|v: Vec<char>| v@) == lines_seq(s@),
{
    let mut done: Vec<Vec<char>> = Vec::new();
    let mut cur: Vec<char> = Vec::new();
    let n = s.len();
    for i in 0..n
        invariant
            n == s@.len(),
            (done@.map_values(|v: Vec<char>| v@), cur@) == lines_state(s@.take(i as int)),
    {
        assert(s@.take(i + 1).drop_last() =~= s@.take(i as int));
        assert(s@.take(i + 1).last() == s@[i as int]);
        let c = s[i];
        if c == '\n' {
            let ghost before = done@;
            let line = strip_cr_chars(cur);
            let ghost lv = line@;
            done.push(line);
            assert(done@.map_values(|v: Vec<char>| v@) =~= before.map_values(|v: Vec<char>| v@).push(
                lv,
            ));
            cur = Vec::new();
            assert(cur@ =~= Seq::<char>::empty());
        } else {
            cur.push(c);
        }
    }
    assert(s@.take(n as int) =~= s@);
    if cur.len() > 0 {
        let ghost before = done@;
        done.push(cur);
        assert(done@.map_values(|v: Vec<char>| v@) =~= before.map_values(|v: Vec<char>| v@).push(
            cur@,
        ));
    }
    done
}

// ── searching ───────────────────────────────────────────────────

pub open spec fn occurs_at(s: Seq<char>, p: Seq<char>, i: int) -> bool {
    0 <= i && i + p.len() <= s.len() && s.subrange(i, i + p.len()) == p
}

/// `str::contains` with a string pattern.
pub open spec fn contains_seq(s: Seq<char>, p: Seq<char>) -> bool {
    exists|i: int| occurs_at(s, p, i)
}

fn occurs_at_exec(s: &Vec<char>, p: &Vec<char>, i: usize) -> (r: bool)
    requires
        i + p.len() <= s.len(),
    ensures
        r == occurs_at(s@, p@, i as int),
{
    let m = p.len();
    for k in 0..m
        invariant
            m == p.len(),
            i + m <= s.len(),
            forall|j: int| 0 <= j < k ==> s@[i + j] == p@[j],
    {
        if s[i + k] != p[k] {
            assert(s@.subrange(i as int, i + m)[k as int] != p@[k as int]);
            return false;
        }
    }
    assert(s@.subrange(i as int, i + m) =~= p@);
    true
}

pub fn contains_chars(s: &Vec<char>, p: &Vec<char>) -> (r: bool)
    ensures
        r == contains_seq(s@, p@),
{
    if p.len() > s.len() {
        return false;
    }
    if p.len() == 0 {
        assert(s@.subrange(0, 0) =~= p@);
        assert(occurs_at(s@, p@, 0));
        return true;
    }
    let last = s.len() - p.len();
    let mut i: usize = 0;
    while i <= last
        invariant
            last == s.len() - p.len(),
            0 < p.len() <= s.len(),
            i <= last + 1,
            forall|j: int| 0 <= j < i ==> !occurs_at(s@, p@, j),
        decreases last + 1 - i,
    {
        if occurs_at_exec(s, p, i) {
            return true;
        }
        i = i + 1;
    }
    assert forall|j: int| !occurs_at(s@, p@, j) by {
        if 0 <= j && j + p@.len() <= s@.len() {
            assert(j <= last);
        }
    }
    false
}

// ── decimal numbers ─────────────────────────────────────────────

pub open spec fn all_digits(s: Seq<char>) -> bool {
    forall|i: int| 0 <= i < s.len() ==> is_ascii_digit(#[trigger] s[i])
}

pub open spec fn digits_value(s: Seq<char>) -> nat
    decreases s.len(),
{
    if s.len() == 0 {
        0
    } else {
        digits_value(s.drop_last()) * 10 + ((s.last() as u32) - 48) as nat
    }
}

/// What `u32::from_str` accepts: an optional `+`, then one or more ASCII
/// digits whose value fits in 32 bits.
pub open spec fn spec_parse_u32(s: Seq<char>) -> Option<u32> {
    let d = if s.len() > 0 && s[0] == '+' {
        s.drop_first()
    } else {
        s
    };
    if d.len() > 0 && all_digits(d) && digits_value(d) <= u32::MAX {
        Some(digits_value(d) as u32)
    } else {
        None
    }
}

pub proof fn lemma_digits_value_prefix(s: Seq<char>, i: int)
    requires
        0 <= i <= s.len(),
        all_digits(s),
    ensures
        digits_value(s.take(i)) <= digits_value(s),
    decreases s.len() - i,
{
    if i < s.len() {
        assert(s.take(i + 1).drop_last() =~= s.take(i));
        assert(s.take(i + 1).last() == s[i]);
        assert(is_ascii_digit(s[i]));
        lemma_digits_value_prefix(s, i + 1);
    } else {
        assert(s.take(i) =~= s);
    }
}

pub fn parse_u32(s: &Vec<char>) -> (r: Option<u32>)
    ensures
        r == spec_parse_u32(s@),
{
    let n = s.len();
    let start: usize = if n > 0 && s[0] == '+' {
        1
    } else {
        0
    };
    let ghost d = if s@.len() > 0 && s@[0] == '+' {
        s@.drop_first()
    } else {
        s@
    };
    assert(d =~= s@.subrange(start as int, n as int));
    if start == n {
        return None;
    }
    let mut acc: u64 = 0;
    let mut i: usize = start;
    while i < n
        invariant
            n == s.len(),
            start <= i <= n,
            d == s@.subrange(start as int, n as int),
            d == (if s@.len() > 0 && s@[0] == '+' {
                s@.drop_first()
            } else {
                s@
            }),
            d.len() > 0,
            acc == digits_value(d.take(i - start)),
            acc <= u32::MAX,
            all_digits(d.take(i - start)),
        decreases n - i,
    {
        let c = s[i];
        assert(d.take(i - start + 1).drop_last() =~= d.take(i - start));
        assert(d.take(i - start + 1).last() == c);
        if !('0' <= c && c <= '9') {
            assert(d[i - start] == c);
            return None;
        }
        let v: u64 = (c as u32 - 48) as u64;
        acc = acc * 10 + v;
        assert(all_digits(d.take(i - start + 1)));
        if acc > 0xFFFF_FFFF {
            proof {
                if all_digits(d) {
                    lemma_digits_value_prefix(d, i - start + 1);
                }
            }
            return None;
        }
        i = i + 1;
    }
    assert(d.take(n - start) =~= d);
    Some(acc as u32)
}


/// The position of the last `c` in `s`, if there is one.
pub open spec fn last_index_of(s: Seq<char>, c: char) -> Option<int> {
    if exists|i: int| 0 <= i < s.len() && s[i] == c {
        Some(choose|i: int| 0 <= i < s.len() && s[i] == c && forall|j: int| i < j < s.len() ==> s[j] != c)
    } else {
        None
    }
}

/// `str::rsplit_once`: the text before the last `c` and the text after it.
pub open spec fn rsplit_once_seq(s: Seq<char>, c: char) -> Option<(Seq<char>, Seq<char>)> {
    match last_index_of(s, c) {
        Some(i) => Some((s.take(i), s.skip(i + 1))),
        None => None,
    }
}

proof fn lemma_last_index(s: Seq<char>, c: char, k: int)
    requires
        0 <= k < s.len(),
        s[k] == c,
        forall|j: int| k < j < s.len() ==> s[j] != c,
    ensures
        last_index_of(s, c) == Some(k),
{
    let w = choose|m: int| 0 <= m < s.len() && s[m] == c && forall|j: int| m < j < s.len() ==> s[j] != c;
    assert(0 <= k < s.len() && s[k] == c && forall|j: int| k < j < s.len() ==> s[j] != c);
    if w < k {
        assert(s[k] != c);
    } else if w > k {
    }
}

pub fn rsplit_once_chars(s: &Vec<char>, c: char) -> (r: Option<(Vec<char>, Vec<char>)>)
    ensures
        match rsplit_once_seq(s@, c) {
            Some((a, b)) => (r matches Some((x, y)) && x@ == a && y@ == b),
            None => r is None,
        },
{
    let n = s.len();
    let mut i = n;
    while i > 0
        invariant
            n == s.len(),
            i <= n,
            forall|j: int| i <= j < n ==> s@[j] != c,
        decreases i,
    {
        if s[i - 1] == c {
            let k = i - 1;
            proof {
                lemma_last_index(s@, c, k as int);
            }
            let a = copy_range(s, 0, k);
            let b = copy_range(s, k + 1, n);
            assert(s@.take(k as int) =~= s@.subrange(0, k as int));
            assert(s@.skip(k + 1) =~= s@.subrange(k + 1, n as int));
            return Some((a, b));
        }
        i = i - 1;
    }
    None
}

/// What `u64::from_str` accepts: an optional `+`, then one or more ASCII
/// digits whose value fits in 64 bits.
pub open spec fn spec_parse_u64(s: Seq<char>) -> Option<u64> {
    let d = if s.len() > 0 && s[0] == '+' {
        s.drop_first()
    } else {
        s
    };
    if d.len() > 0 && all_digits(d) && digits_value(d) <= u64::MAX {
        Some(digits_value(d) as u64)
    } else {
        None
    }
}

pub fn parse_u64(s: &Vec<char>) -> (r: Option<u64>)
    ensures
        r == spec_parse_u64(s@),
{
    let n = s.len();
    let start: usize = if n > 0 && s[0] == '+' {
        1
    } else {
        0
    };
    let ghost d = if s@.len() > 0 && s@[0] == '+' {
        s@.drop_first()
    } else {
        s@
    };
    assert(d =~= s@.subrange(start as int, n as int));
    if start == n {
        return None;
    }
    let mut acc: u64 = 0;
    let mut i: usize = start;
    while i < n
        invariant
            n == s.len(),
            start <= i <= n,
            d == s@.subrange(start as int, n as int),
            d == (if s@.len() > 0 && s@[0] == '+' {
                s@.drop_first()
            } else {
                s@
            }),
            d.len() > 0,
            acc == digits_value(d.take(i - start)),
            all_digits(d.take(i - start)),
        decreases n - i,
    {
        let c = s[i];
        assert(d.take(i - start + 1).drop_last() =~= d.take(i - start));
        assert(d.take(i - start + 1).last() == c);
        if !('0' <= c && c <= '9') {
            assert(d[i - start] == c);
            return None;
        }
        let v: u64 = (c as u32 - 48) as u64;
        assert(all_digits(d.take(i - start + 1)));
        if acc > (0xFFFF_FFFF_FFFF_FFFFu64 - v) / 10 {
            proof {
                assert(acc * 10 + v > 0xFFFF_FFFF_FFFF_FFFFu64) by (nonlinear_arith)
                    requires
                        acc > (0xFFFF_FFFF_FFFF_FFFFu64 - v) / 10,
                        v <= 9,
                ;
                if all_digits(d) {
                    lemma_digits_value_prefix(d, i - start + 1);
                }
            }
            return None;
        }
        proof {
            assert(acc * 10 + v <= 0xFFFF_FFFF_FFFF_FFFFu64) by (nonlinear_arith)
                requires
                    acc <= (0xFFFF_FFFF_FFFF_FFFFu64 - v) / 10,
                    v <= 9,
            ;
        }
        acc = acc * 10 + v;
        i = i + 1;
    }
    assert(d.take(n - start) =~= d);
    Some(acc)
}

} // verus!
