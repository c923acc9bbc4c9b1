//! SMB shares served by ksmbd: validation of everything that is written into
//! `ksmbd.conf`, the portal's share policy, and the config renderer.
use vstd::prelude::*;

use crate::backup::{spec_within_fs_root, within_fs_root};
use crate::ids::{is_v4_uuid_text, new_share_id, NO_RANDOM_SOURCE_MSG};
use crate::sorting::{key_views, all_keys, sorted_indices, stable_order};
use crate::text::{
    char_is_ascii_alnum, char_is_control, char_is_whitespace, chars_of, decimal, eq_ignore_ascii_case, lower_seq,
    eq_ignore_case, is_ascii_alnum, is_control, is_whitespace, push_chars, push_lit,
    seq_contains_char, string_of, utf8_len, bool_or, opt_str,
    utf8_len_exceeds,
};

verus! {

/// Errors of the SMB share and account services.
pub enum SmbError {
    NotFound(String),
    NameExists(String),
    PathNotFound(String),
    PathNotInFilesystem(String),
    InvalidName(String),
    TimeMachineUnsupported,
    ReloadFailed(String),
    PrincipalLookup(String),
    Io(String),
}

/// The message of an `InvalidName` error.
pub open spec fn invalid_name_msg(e: SmbError) -> Option<Seq<char>> {
    match e {
        SmbError::InvalidName(m) => Some(m@),
        _ => None,
    }
}

pub open spec fn result_invalid_name(r: Result<(), SmbError>) -> Option<Seq<char>> {
    match r {
        Ok(_) => None,
        Err(e) => invalid_name_msg(e),
    }
}

/// The variant of an error, without its text.
#[derive(Clone, Copy, Debug, PartialEq, Eq, Structural)]
pub enum SmbErrorKind {
    NotFound,
    NameExists,
    PathNotFound,
    PathNotInFilesystem,
    InvalidName,
    TimeMachineUnsupported,
    ReloadFailed,
    PrincipalLookup,
    Io,
}

/// An error as plain values: its variant and its text.
pub open spec fn smb_error_view(e: SmbError) -> (SmbErrorKind, Seq<char>) {
    match e {
        SmbError::NotFound(m) => (SmbErrorKind::NotFound, m@),
        SmbError::NameExists(m) => (SmbErrorKind::NameExists, m@),
        SmbError::PathNotFound(m) => (SmbErrorKind::PathNotFound, m@),
        SmbError::PathNotInFilesystem(m) => (SmbErrorKind::PathNotInFilesystem, m@),
        SmbError::InvalidName(m) => (SmbErrorKind::InvalidName, m@),
        SmbError::TimeMachineUnsupported => (SmbErrorKind::TimeMachineUnsupported, Seq::empty()),
        SmbError::ReloadFailed(m) => (SmbErrorKind::ReloadFailed, m@),
        SmbError::PrincipalLookup(m) => (SmbErrorKind::PrincipalLookup, m@),
        SmbError::Io(m) => (SmbErrorKind::Io, m@),
    }
}

/// The error of a result, as plain values.
pub open spec fn error_of<T>(r: Result<T, SmbError>) -> Option<(SmbErrorKind, Seq<char>)> {
    match r {
        Ok(_) => None,
        Err(e) => Some(smb_error_view(e)),
    }
}

/// An SMB share as stored by the engine.
pub struct SmbShare {
    pub id: String,
    /// Name used in `\\server\name` paths.
    pub name: String,
    /// Absolute path being shared (under `/fs/`).
    pub path: String,
    pub comment: Option<String>,
    pub read_only: bool,
    pub browseable: bool,
    pub guest_ok: bool,
    /// Users (`name`, `DOMAIN\name`) and groups (`@group`) allowed to connect;
    /// empty means no restriction beyond authentication.
    pub valid_users: Vec<String>,
    /// Additional raw share parameters (keys are distinct).
    pub extra_params: Vec<(String, String)>,
    /// Legacy Time Machine flag; always rejected.
    pub time_machine: bool,
    pub time_machine_max_size_gib: Option<u32>,
    /// Whether the share is active in `ksmbd.conf`.
    pub enabled: bool,
}

/// Optional tuning knobs merged into `[global]`.
pub struct SmbTuningGlobals {
    pub max_connections: u32,
    pub deadtime: u32,
}

impl Default for SmbTuningGlobals {
    fn default() -> (t: Self)
        ensures
            t.max_connections == 0,
            t.deadtime == 0,
    {
        SmbTuningGlobals { max_connections: 0, deadtime: 0 }
    }
}

impl SmbTuningGlobals {
    /// The knobs as the tuning settings hold them: a missing one is 0, and a
    /// larger number keeps its low 32 bits.
    pub fn from_settings(max_connections: Option<u64>, deadtime: Option<u64>) -> (t: Self)
        ensures
            t.max_connections == (match max_connections {
                Some(v) => v as u32,
                None => 0u32,
            }),
            t.deadtime == (match deadtime {
                Some(v) => v as u32,
                None => 0u32,
            }),
    {
        let m: u64 = match max_connections {
            Some(v) => v,
            None => 0,
        };
        let d: u64 = match deadtime {
            Some(v) => v,
            None => 0,
        };
        SmbTuningGlobals { max_connections: m as u32, deadtime: d as u32 }
    }

    /// The knobs from the two lookups into the tuning file: where the file
    /// could not be read as JSON (a lookup is `None`) both are 0, otherwise
    /// each is read as `from_settings` reads it.
    pub fn from_lookups(max_connections: Option<Option<u64>>, deadtime: Option<Option<u64>>) -> (t:
        Self)
        ensures
            (t.max_connections, t.deadtime) == spec_tuning_from_lookups(max_connections, deadtime),
    {
        match (max_connections, deadtime) {
            (Some(m), Some(d)) => SmbTuningGlobals::from_settings(m, d),
            _ => SmbTuningGlobals::default(),
        }
    }
}

/// One knob as the tuning file holds it: its low 32 bits, or 0 where it is
/// missing.
pub open spec fn tuning_knob(v: Option<u64>) -> u32 {
    match v {
        Some(x) => x as u32,
        None => 0u32,
    }
}

/// The knobs `(max_connections, deadtime)` from the two lookups.
pub open spec fn spec_tuning_from_lookups(
    max_connections: Option<Option<u64>>,
    deadtime: Option<Option<u64>>,
) -> (u32, u32) {
    match (max_connections, deadtime) {
        (Some(m), Some(d)) => (tuning_knob(m), tuning_knob(d)),
        _ => (0u32, 0u32),
    }
}

/// The tuning file's key of the connection limit.
pub const TUNING_MAX_CONNECTIONS_KEY: &'static str = "smb_max_connections";

/// The tuning file's key of the idle timeout.
pub const TUNING_DEADTIME_KEY: &'static str = "smb_deadtime";

/// What `serde_json` makes of one key of a text: `None` where the text is
/// not JSON, otherwise the key's value as an unsigned 64-bit integer, with
/// `Some(None)` where the key is missing or holds no such integer.
pub uninterp spec fn json_u64_field(raw: Seq<char>, key: Seq<char>) -> Option<Option<u64>>;

/// Parses `raw` with `serde_json::from_str` into a `serde_json::Value` and
/// reads `key` of it with `Value::get` and `Value::as_u64`. The contract
/// claims only that the result is `json_u64_field` of the two texts.
#[verifier::external_body]
fn json_u64_field_of(raw: &str, key: &str) -> (r: Option<Option<u64>>)
    ensures
        r == json_u64_field(raw@, key@),
{
    match serde_json::from_str::<serde_json::Value>(raw) {
        Ok(v) => Some(v.get(key).and_then(serde_json::Value::as_u64)),
        Err(_) => None,
    }
}

/// The SMB knobs of the tuning file's text (`tuning.json`): its keys
/// `smb_max_connections` and `smb_deadtime`, or both 0 where the text is
/// not JSON.
pub fn tuning_globals_from_json(raw: &str) -> (t: SmbTuningGlobals)
    ensures
        (t.max_connections, t.deadtime) == spec_tuning_from_lookups(
            json_u64_field(raw@, TUNING_MAX_CONNECTIONS_KEY@),
            json_u64_field(raw@, TUNING_DEADTIME_KEY@),
        ),
{
    let m = json_u64_field_of(raw, TUNING_MAX_CONNECTIONS_KEY);
    let d = json_u64_field_of(raw, TUNING_DEADTIME_KEY);
    SmbTuningGlobals::from_lookups(m, d)
}

// ── sanitizing ──────────────────────────────────────────────────

/// Characters that could start a new `ksmbd.conf` directive.
pub open spec fn conf_breaking(c: char) -> bool {
    is_control(c) || c == ';' || c == '\n' || c == '\r'
}

pub open spec fn sanitize_seq(s: Seq<char>) -> Seq<char>
    decreases s.len(),
{
    if s.len() == 0 {
        Seq::empty()
    } else if conf_breaking(s.last()) {
        sanitize_seq(s.drop_last())
    } else {
        sanitize_seq(s.drop_last()).push(s.last())
    }
}

fn sanitize_chars(s: &Vec<char>) -> (r: Vec<char>)
    ensures
        r@ == sanitize_seq(s@),
{
    let mut out: Vec<char> = Vec::new();
    let n = s.len();
    for i in 0..n
        invariant
            n == s.len(),
            out@ == sanitize_seq(s@.take(i as int)),
    {
        assert(s@.take(i + 1).drop_last() =~= s@.take(i as int));
        assert(s@.take(i + 1).last() == s@[i as int]);
        let c = s[i];
        if !(char_is_control(c) || c == ';' || c == '\n' || c == '\r') {
            out.push(c);
        }
    }
    assert(s@.take(n as int) =~= s@);
    out
}

/// Strip characters that could inject new ksmbd.conf directives: control
/// characters (newlines and carriage returns among them) and semicolons.
pub fn sanitize_smb_value(s: &str) -> (r: String)
    ensures
        r@ == sanitize_seq(s@),
{
    let c = chars_of(s);
    let o = sanitize_chars(&c);
    string_of(&o)
}

fn exec_path_forbidden(c: char) -> (b: bool)
    ensures
        b == path_forbidden(c),
{
    c == '\n' || c == '\r' || c == '\0' || c == '"' || c == '#'
}

fn exec_entry_forbidden(c: char) -> (b: bool)
    ensures
        b == entry_forbidden(c),
{
    char_is_control(c) || c == ';' || c == '"' || c == '#' || c == '=' || c == '\n'
                    || c == '\r'
}

fn exec_local_name_char(c: char) -> (b: bool)
    ensures
        b == local_name_char(c),
{
    char_is_ascii_alnum(c) || c == '-' || c == '_' || c == '.'
}

fn exec_domain_char(c: char) -> (b: bool)
    ensures
        b == domain_char(c),
{
    char_is_ascii_alnum(c) || c == '-'
}

fn exec_account_char(c: char) -> (b: bool)
    ensures
        b == account_char(c),
{
    char_is_ascii_alnum(c) || c == '-' || c == '_' || c == '.' || c == ' '
}

// ── validators ──────────────────────────────────────────────────

pub open spec fn share_name_forbidden(c: char) -> bool {
    c == '/' || c == '\\' || c == '[' || c == ']' || c == ':' || c == '|' || c == '<' || c == '>'
        || c == '+' || c == '=' || c == ';' || c == ',' || c == '?' || c == '*'
}

pub open spec fn share_name_invalid(name: Seq<char>) -> bool {
    name.len() == 0 || utf8_len(name) > 80 || exists|i: int|
        0 <= i < name.len() && share_name_forbidden(#[trigger] name[i])
}

/// Share names are 1–80 bytes without characters special to SMB paths or
/// the config syntax.
pub fn validate_share_name(name: &str) -> (r: Result<(), SmbError>)
    ensures
        r is Ok <==> !share_name_invalid(name@),
        r is Err ==> result_invalid_name(r) == Some(
            "Share name must be 1-80 chars without special characters"@,
        ),
{
    let n = chars_of(name);
    let mut bad = n.len() == 0 || utf8_len_exceeds(&n, 80);
    let len = n.len();
    let mut i: usize = 0;
    while i < len && !bad
        invariant
            len == n@.len(),
            n@ == name@,
            i <= len,
            bad == (n@.len() == 0 || utf8_len(n@) > 80 || exists|j: int|
                0 <= j < i && share_name_forbidden(#[trigger] n@[j])),
        decreases len - i,
    {
        let c = n[i];
        if c == '/' || c == '\\' || c == '[' || c == ']' || c == ':' || c == '|' || c == '<' || c
            == '>' || c == '+' || c == '=' || c == ';' || c == ',' || c == '?' || c == '*' {
            bad = true;
        }
        i = i + 1;
    }
    if bad {
        Err(
            SmbError::InvalidName(
                String::from_str("Share name must be 1-80 chars without special characters"),
            ),
        )
    } else {
        Ok(())
    }
}

pub open spec fn path_forbidden(c: char) -> bool {
    c == '\n' || c == '\r' || c == '\0' || c == '"' || c == '#'
}

pub open spec fn spec_share_path_error(path: Seq<char>) -> Option<Seq<char>> {
    if path.len() == 0 {
        Some("share path is empty"@)
    } else if exists|i: int| 0 <= i < path.len() && path_forbidden(#[trigger] path[i]) {
        Some(
            "share path contains characters that would inject smb.conf directives (newline, CR, NUL, double-quote, '#')"@,
        )
    } else {
        None
    }
}

fn first_matching(
    s: &Vec<char>,
    Ghost(forbidden): Ghost<spec_fn(char) -> bool>,
    test: impl Fn(char) -> bool,
) -> (r: bool)
    requires
        forall|c: char| call_requires(test, (c,)),
        forall|c: char, b: bool| call_ensures(test, (c,), b) ==> b == forbidden(c),
    ensures
        r == exists|i: int| 0 <= i < s@.len() && forbidden(#[trigger] s@[i]),
{
    let n = s.len();
    for i in 0..n
        invariant
            n == s@.len(),
            forall|c: char| call_requires(test, (c,)),
            forall|c: char, b: bool| call_ensures(test, (c,), b) ==> b == forbidden(c),
            forall|j: int| 0 <= j < i ==> !forbidden(#[trigger] s@[j]),
    {
        if test(s[i]) {
            return true;
        }
    }
    false
}

/// Reject share paths that could smuggle a new directive into the share
/// section (`path = <path>`): newline, CR, NUL, double quote, `#`.
pub fn validate_share_path(path: &str) -> (r: Result<(), SmbError>)
    ensures
        r is Ok <==> spec_share_path_error(path@) is None,
        r is Err ==> result_invalid_name(r) == spec_share_path_error(path@),
{
    let p = chars_of(path);
    if p.len() == 0 {
        return Err(SmbError::InvalidName(String::from_str("share path is empty")));
    }
    let bad = first_matching(
        &p,
        Ghost(|c: char| path_forbidden(c)),
        exec_path_forbidden,
    );
    if bad {
        return Err(
            SmbError::InvalidName(
                String::from_str(
                    "share path contains characters that would inject smb.conf directives (newline, CR, NUL, double-quote, '#')",
                ),
            ),
        );
    }
    Ok(())
}

// ── valid users ─────────────────────────────────────────────────

pub open spec fn entry_body(raw: Seq<char>) -> Seq<char> {
    if raw.len() > 0 && raw[0] == '@' {
        raw.drop_first()
    } else {
        raw
    }
}

pub open spec fn entry_forbidden(c: char) -> bool {
    is_control(c) || c == ';' || c == '"' || c == '#' || c == '=' || c == '\n' || c == '\r'
}

pub open spec fn local_name_char(c: char) -> bool {
    is_ascii_alnum(c) || c == '-' || c == '_' || c == '.'
}

pub open spec fn domain_char(c: char) -> bool {
    is_ascii_alnum(c) || c == '-'
}

pub open spec fn account_char(c: char) -> bool {
    is_ascii_alnum(c) || c == '-' || c == '_' || c == '.' || c == ' '
}

pub open spec fn all_chars(s: Seq<char>, p: spec_fn(char) -> bool) -> bool {
    forall|i: int| 0 <= i < s.len() ==> p(#[trigger] s[i])
}

pub open spec fn any_char(s: Seq<char>, p: spec_fn(char) -> bool) -> bool {
    exists|i: int| 0 <= i < s.len() && p(#[trigger] s[i])
}

pub open spec fn count_char(s: Seq<char>, c: char) -> nat
    decreases s.len(),
{
    if s.len() == 0 {
        0
    } else {
        count_char(s.drop_last(), c) + if s.last() == c {
            1nat
        } else {
            0nat
        }
    }
}

/// Index of the first `c` in `s` (or `s.len()`).
pub open spec fn index_of(s: Seq<char>, c: char) -> int
    decreases s.len(),
{
    if s.len() == 0 {
        0
    } else if s[0] == c {
        0
    } else {
        1 + index_of(s.drop_first(), c)
    }
}

pub open spec fn domain_ok(d: Seq<char>) -> bool {
    d.len() > 0 && utf8_len(d) <= 15 && all_chars(d, |c: char| domain_char(c))
}

pub open spec fn account_ok(n: Seq<char>) -> bool {
    n.len() > 0 && all_chars(n, |c: char| account_char(c))
}

pub open spec fn quoted(raw: Seq<char>) -> Seq<char> {
    "'"@ + raw + "'"@
}

/// Why a `valid_users` entry is rejected, if it is: local `name`, local
/// `@group`, and `DOMAIN\name` / `@DOMAIN\group` are accepted.
pub open spec fn entry_error(raw: Seq<char>) -> Option<Seq<char>> {
    let e = entry_body(raw);
    if e.len() == 0 || utf8_len(e) > 256 {
        Some("invalid valid_users entry "@ + quoted(raw))
    } else if any_char(e, |c: char| entry_forbidden(c)) {
        Some("valid_users entry "@ + quoted(raw) + " contains forbidden characters"@)
    } else if count_char(e, '\\') == 0 {
        if all_chars(e, |c: char| local_name_char(c)) {
            None
        } else {
            Some("invalid user/group name "@ + quoted(raw))
        }
    } else if count_char(e, '\\') == 1 {
        let k = index_of(e, '\\');
        if domain_ok(e.take(k)) && account_ok(e.skip(k + 1)) {
            None
        } else {
            Some("invalid domain principal "@ + quoted(raw))
        }
    } else {
        Some("invalid valid_users entry "@ + quoted(raw))
    }
}

/// The first rejected entry's message, scanning in order.
pub open spec fn users_error(entries: Seq<Seq<char>>) -> Option<Seq<char>>
    decreases entries.len(),
{
    if entries.len() == 0 {
        None
    } else {
        match users_error(entries.drop_last()) {
            Some(m) => Some(m),
            None => entry_error(entries.last()),
        }
    }
}

fn all_match(
    s: &Vec<char>,
    from: usize,
    to: usize,
    Ghost(p): Ghost<spec_fn(char) -> bool>,
    test: impl Fn(char) -> bool,
) -> (r: bool)
    requires
        from <= to <= s@.len(),
        forall|c: char| call_requires(test, (c,)),
        forall|c: char, b: bool| call_ensures(test, (c,), b) ==> b == p(c),
    ensures
        r == all_chars(s@.subrange(from as int, to as int), p),
{
    let mut i = from;
    while i < to
        invariant
            from <= i <= to,
            to <= s@.len(),
            forall|c: char| call_requires(test, (c,)),
            forall|c: char, b: bool| call_ensures(test, (c,), b) ==> b == p(c),
            forall|j: int| from <= j < i ==> p(#[trigger] s@[j]),
        decreases to - i,
    {
        if !test(s[i]) {
            assert(s@.subrange(from as int, to as int)[i - from] == s@[i as int]);
            return false;
        }
        i = i + 1;
    }
    assert forall|j: int| 0 <= j < s@.subrange(from as int, to as int).len() implies p(
        #[trigger] s@.subrange(from as int, to as int)[j],
    ) by {
        assert(s@.subrange(from as int, to as int)[j] == s@[from + j]);
    }
    true
}

proof fn lemma_count_char_push(s: Seq<char>, x: char, c: char)
    ensures
        count_char(s.push(x), c) == count_char(s, c) + if x == c {
            1nat
        } else {
            0nat
        },
{
    assert(s.push(x).drop_last() =~= s);
}

proof fn lemma_index_of(s: Seq<char>, c: char, k: int)
    requires
        0 <= k <= s.len(),
        forall|j: int| 0 <= j < k ==> s[j] != c,
        k == s.len() || s[k] == c,
    ensures
        index_of(s, c) == k,
    decreases s.len(),
{
    if s.len() > 0 && k > 0 {
        let t = s.drop_first();
        assert forall|j: int| 0 <= j < k - 1 implies t[j] != c by {
            assert(t[j] == s[j + 1]);
        }
        if k - 1 < t.len() {
            assert(t[k - 1] == s[k]);
        }
        lemma_index_of(t, c, k - 1);
    }
}

fn quoted_msg(prefix: &str, raw: &String, suffix: &str) -> (m: String)
    ensures
        m@ == prefix@ + quoted(raw@) + suffix@,
{
    let mut m = String::new();
    push_lit(&mut m, prefix);
    push_lit(&mut m, "'");
    m.append(raw.as_str());
    push_lit(&mut m, "'");
    push_lit(&mut m, suffix);
    proof {
        reveal_strlit("'");
    }
    assert(m@ =~= prefix@ + quoted(raw@) + suffix@);
    m
}

fn check_entry(raw: &String) -> (r: Result<(), SmbError>)
    ensures
        r is Ok <==> entry_error(raw@) is None,
        r is Err ==> result_invalid_name(r) == entry_error(raw@),
{
    proof {
        reveal_strlit("");
        assert(""@ =~= Seq::<char>::empty());
    }
    let rc = chars_of(raw.as_str());
    let start: usize = if rc.len() > 0 && rc[0] == '@' {
        1
    } else {
        0
    };
    let mut e: Vec<char> = Vec::new();
    let mut i = start;
    while i < rc.len()
        invariant
            start <= i <= rc.len(),
            e@ == rc@.subrange(start as int, i as int),
        decreases rc.len() - i,
    {
        e.push(rc[i]);
        assert(rc@.subrange(start as int, i + 1) =~= rc@.subrange(start as int, i as int).push(
            rc@[i as int],
        ));
        i = i + 1;
    }
    assert(e@ =~= entry_body(raw@));
    if e.len() == 0 || utf8_len_exceeds(&e, 256) {
        return Err(SmbError::InvalidName(quoted_msg("invalid valid_users entry ", raw, "")));
    }
    let forbidden = first_matching(
        &e,
        Ghost(|c: char| entry_forbidden(c)),
        exec_entry_forbidden,
    );
    if forbidden {
        return Err(
            SmbError::InvalidName(
                quoted_msg("valid_users entry ", raw, " contains forbidden characters"),
            ),
        );
    }
    // Count backslashes and remember the first.
    let mut count: usize = 0;
    let mut first: usize = e.len();
    let n = e.len();
    for j in 0..n
        invariant
            n == e@.len(),
            count == count_char(e@.take(j as int), '\\'),
            count <= j,
            first <= n,
            count == 0 ==> first == n,
            count > 0 ==> first < j && e@[first as int] == '\\' && forall|q: int|
                0 <= q < first ==> e@[q] != '\\',
            count == 0 ==> forall|q: int| 0 <= q < j ==> e@[q] != '\\',
    {
        proof {
            assert(e@.take(j + 1) =~= e@.take(j as int).push(e@[j as int]));
            lemma_count_char_push(e@.take(j as int), e@[j as int], '\\');
        }
        if e[j] == '\\' {
            if count == 0 {
                first = j;
            }
            count = count + 1;
        }
    }
    assert(e@.take(n as int) =~= e@);
    if count == 0 {
        let ok = all_match(
            &e,
            0,
            n,
            Ghost(|c: char| local_name_char(c)),
            exec_local_name_char,
        );
        assert(e@.subrange(0, n as int) =~= e@);
        if ok {
            Ok(())
        } else {
            Err(SmbError::InvalidName(quoted_msg("invalid user/group name ", raw, "")))
        }
    } else if count == 1 {
        proof {
            lemma_index_of(e@, '\\', first as int);
        }
        let mut d: Vec<char> = Vec::new();
        let mut q: usize = 0;
        while q < first
            invariant
                q <= first,
                first < e@.len(),
                d@ == e@.take(q as int),
            decreases first - q,
        {
            d.push(e[q]);
            assert(e@.take(q + 1) =~= e@.take(q as int).push(e@[q as int]));
            q = q + 1;
        }
        let dom_chars_ok = all_match(
            &e,
            0,
            first,
            Ghost(|c: char| domain_char(c)),
            exec_domain_char,
        );
        assert(e@.subrange(0, first as int) =~= e@.take(first as int));
        let dom_ok = first > 0 && !utf8_len_exceeds(&d, 15) && dom_chars_ok;
        let acct_chars_ok = all_match(
            &e,
            first + 1,
            n,
            Ghost(|c: char| account_char(c)),
            exec_account_char,
        );
        assert(e@.subrange(first + 1, n as int) =~= e@.skip(first + 1));
        let acct_ok = first + 1 < n && acct_chars_ok;
        if dom_ok && acct_ok {
            Ok(())
        } else {
            Err(SmbError::InvalidName(quoted_msg("invalid domain principal ", raw, "")))
        }
    } else {
        Err(SmbError::InvalidName(quoted_msg("invalid valid_users entry ", raw, "")))
    }
}

pub open spec fn string_views(v: Seq<String>) -> Seq<Seq<char>> {
    v.map_values(|s: String| s@)
}

/// Validate `valid_users` entries in order; the first bad entry decides the
/// error.
pub fn validate_valid_users(entries: &Vec<String>) -> (r: Result<(), SmbError>)
    ensures
        r is Ok <==> users_error(string_views(entries@)) is None,
        r is Err ==> result_invalid_name(r) == users_error(string_views(entries@)),
{
    let n = entries.len();
    for i in 0..n
        invariant
            n == entries@.len(),
            users_error(string_views(entries@.take(i as int))) is None,
    {
        assert(string_views(entries@.take(i + 1)).drop_last() =~= string_views(
            entries@.take(i as int),
        ));
        assert(string_views(entries@.take(i + 1)).last() == entries@[i as int]@);
        let r = check_entry(&entries[i]);
        if r.is_err() {
            proof {
                lemma_users_error_prefix(string_views(entries@), (i + 1) as int);
                assert(string_views(entries@).take(i + 1) =~= string_views(
                    entries@.take(i + 1),
                ));
            }
            return r;
        }
    }
    assert(entries@.take(n as int) =~= entries@);
    Ok(())
}

/// Once a prefix has an error, the whole sequence reports that error.
pub proof fn lemma_users_error_prefix(s: Seq<Seq<char>>, k: int)
    requires
        0 <= k <= s.len(),
        users_error(s.take(k)) is Some,
    ensures
        users_error(s) == users_error(s.take(k)),
    decreases s.len() - k,
{
    if k < s.len() {
        assert(s.take(k + 1).drop_last() =~= s.take(k));
        lemma_users_error_prefix(s, k + 1);
    } else {
        assert(s.take(k) =~= s);
    }
}

/// A portal file principal is one non-empty user entry without surrounding
/// whitespace (groups are not principals).
pub open spec fn spec_file_principal_error(p: Seq<char>) -> Option<Seq<char>> {
    if p.len() == 0 || is_whitespace(p[0]) || is_whitespace(p.last()) || p[0] == '@' {
        Some("file principal must be a non-empty user principal"@)
    } else {
        entry_error(p)
    }
}

pub fn validate_file_principal(principal: &str) -> (r: Result<(), SmbError>)
    ensures
        r is Ok <==> spec_file_principal_error(principal@) is None,
        r is Err ==> result_invalid_name(r) == spec_file_principal_error(principal@),
{
    let p = chars_of(principal);
    if p.len() == 0 || char_is_whitespace(p[0]) || char_is_whitespace(p[p.len() - 1]) || p[0]
        == '@' {
        return Err(
            SmbError::InvalidName(
                String::from_str("file principal must be a non-empty user principal"),
            ),
        );
    }
    check_entry(&String::from_str(principal))
}

// ── portal policy ───────────────────────────────────────────────

pub open spec fn allowed_by(allowed: Seq<char>, principal: Seq<char>, groups: Seq<Seq<char>>) -> bool {
    if allowed.len() > 0 && allowed[0] == '@' {
        exists|g: int| 0 <= g < groups.len() && eq_ignore_case(#[trigger] groups[g], allowed.drop_first())
    } else {
        eq_ignore_case(allowed, principal)
    }
}

pub open spec fn spec_share_allows_principal(
    share: SmbShare,
    principal: Seq<char>,
    groups: Seq<Seq<char>>,
) -> bool {
    share.enabled && !share.guest_ok && share.valid_users@.len() > 0 && share.extra_params@.len()
        == 0 && exists|i: int|
        0 <= i < share.valid_users@.len() && allowed_by(
            #[trigger] share.valid_users@[i]@,
            principal,
            groups,
        )
}

fn allowed_entry_matches(allowed: &String, principal: &Vec<char>, groups: &Vec<Vec<char>>) -> (r: bool)
    ensures
        r == allowed_by(allowed@, principal@, groups@.map_values(|g: Vec<char>| g@)),
{
    let a = chars_of(allowed.as_str());
    if a.len() > 0 && a[0] == '@' {
        let mut rest: Vec<char> = Vec::new();
        let mut i: usize = 1;
        while i < a.len()
            invariant
                1 <= i <= a.len(),
                rest@ == a@.subrange(1, i as int),
            decreases a.len() - i,
        {
            rest.push(a[i]);
            assert(a@.subrange(1, i + 1) =~= a@.subrange(1, i as int).push(a@[i as int]));
            i = i + 1;
        }
        assert(rest@ =~= a@.drop_first());
        let ghost gv = groups@.map_values(|g: Vec<char>| g@);
        let n = groups.len();
        for g in 0..n
            invariant
                n == groups@.len(),
                gv == groups@.map_values(|g: Vec<char>| g@),
                a@ == allowed@,
                a@.len() > 0,
                a@[0] == '@',
                rest@ == a@.drop_first(),
                forall|k: int| 0 <= k < g ==> !eq_ignore_case(#[trigger] gv[k], rest@),
        {
            if eq_ignore_ascii_case(&groups[g], &rest) {
                assert(eq_ignore_case(gv[g as int], rest@));
                return true;
            }
        }
        false
    } else {
        eq_ignore_ascii_case(&a, principal)
    }
}

/// Pure portal policy: a share admits a principal only when it is enabled,
/// not guest-accessible, restricted by `valid_users`, free of raw
/// parameters, and one entry names the principal or one of its groups (ASCII
/// case-insensitively, exact otherwise).
pub fn share_allows_principal(share: &SmbShare, principal: &str, groups: &Vec<String>) -> (r: bool)
    ensures
        r == spec_share_allows_principal(*share, principal@, string_views(groups@)),
{
    if !share.enabled || share.guest_ok || share.valid_users.len() == 0
        || share.extra_params.len() != 0 {
        return false;
    }
    let p = chars_of(principal);
    let mut gs: Vec<Vec<char>> = Vec::new();
    let ng = groups.len();
    for k in 0..ng
        invariant
            ng == groups@.len(),
            gs@.map_values(|g: Vec<char>| g@) == string_views(groups@.take(k as int)),
    {
        let c = chars_of(groups[k].as_str());
        let ghost prev = gs@;
        gs.push(c);
        assert(groups@.take(k + 1) =~= groups@.take(k as int).push(groups@[k as int]));
        assert(gs@.map_values(|g: Vec<char>| g@) =~= prev.map_values(|g: Vec<char>| g@).push(
            groups@[k as int]@,
        ));
        assert(gs@.map_values(|g: Vec<char>| g@) =~= string_views(groups@.take(k + 1)));
    }
    assert(groups@.take(ng as int) =~= groups@);
    let n = share.valid_users.len();
    for i in 0..n
        invariant
            n == share.valid_users@.len(),
            share.enabled,
            !share.guest_ok,
            share.extra_params@.len() == 0,
            gs@.map_values(|g: Vec<char>| g@) == string_views(groups@),
            p@ == principal@,
            forall|j: int| 0 <= j < i ==> !allowed_by(
                #[trigger] share.valid_users@[j]@,
                principal@,
                string_views(groups@),
            ),
    {
        if allowed_entry_matches(&share.valid_users[i], &p, &gs) {
            assert(allowed_by(share.valid_users@[i as int]@, principal@, string_views(groups@)));
            return true;
        }
    }
    false
}

pub fn reject_time_machine(share: &SmbShare) -> (r: Result<(), SmbError>)
    ensures
        r is Ok <==> !(share.time_machine || share.time_machine_max_size_gib is Some),
        r matches Err(e) ==> e is TimeMachineUnsupported,
{
    if share.time_machine || share.time_machine_max_size_gib.is_some() {
        return Err(SmbError::TimeMachineUnsupported);
    }
    Ok(())
}


// ── rendering ───────────────────────────────────────────────────

pub open spec fn yes_no(b: bool) -> Seq<char> {
    if b {
        "yes"@
    } else {
        "no"@
    }
}

/// One indented `key = value` line of a section.
pub open spec fn conf_line(key: Seq<char>, val: Seq<char>) -> Seq<char> {
    "    "@ + key + " = "@ + val + "\n"@
}

pub open spec fn is_group_entry(u: Seq<char>) -> bool {
    u.len() > 0 && u[0] == '@'
}

pub open spec fn first_non_group(users: Seq<Seq<char>>) -> Option<Seq<char>>
    decreases users.len(),
{
    if users.len() == 0 {
        None
    } else if !is_group_entry(users[0]) {
        Some(users[0])
    } else {
        first_non_group(users.drop_first())
    }
}

/// A sanitized `valid users` entry, quoted when it holds a space.
pub open spec fn user_token(u: Seq<char>) -> Seq<char> {
    let s = sanitize_seq(u);
    if s.contains(' ') {
        "\""@ + s + "\""@
    } else {
        s
    }
}

pub open spec fn join_users(users: Seq<Seq<char>>) -> Seq<char>
    decreases users.len(),
{
    if users.len() == 0 {
        Seq::empty()
    } else if users.len() == 1 {
        user_token(users[0])
    } else {
        join_users(users.drop_last()) + " "@ + user_token(users.last())
    }
}

pub open spec fn param_views(ps: Seq<(String, String)>) -> Seq<(Seq<char>, Seq<char>)> {
    ps.map_values(|p: (String, String)| (p.0@, p.1@))
}

pub open spec fn param_keys(ps: Seq<(Seq<char>, Seq<char>)>) -> Seq<Seq<Seq<char>>> {
    ps.map_values(|p: (Seq<char>, Seq<char>)| seq![p.0])
}

pub open spec fn params_block(ps: Seq<(Seq<char>, Seq<char>)>, order: Seq<int>) -> Seq<char>
    decreases order.len(),
{
    if order.len() == 0 {
        Seq::empty()
    } else {
        let p = ps[order.last()];
        params_block(ps, order.drop_last()) + conf_line(sanitize_seq(p.0), sanitize_seq(p.1))
    }
}

pub open spec fn comment_block(c: Option<String>) -> Seq<char> {
    match c {
        Some(t) => conf_line("comment"@, sanitize_seq(t@)),
        None => Seq::empty(),
    }
}

pub open spec fn access_block(guest_ok: bool, users: Seq<Seq<char>>) -> Seq<char> {
    if guest_ok {
        conf_line("force user"@, "nobody"@) + conf_line("force group"@, "nogroup"@) + conf_line(
            "create mask"@,
            "0666"@,
        ) + conf_line("directory mask"@, "0777"@)
    } else if users.len() > 0 {
        (match first_non_group(users) {
            Some(u) => conf_line("force user"@, sanitize_seq(u)),
            None => Seq::empty(),
        }) + conf_line("create mask"@, "0664"@) + conf_line("directory mask"@, "0775"@)
    } else {
        Seq::empty()
    }
}

pub open spec fn users_block(users: Seq<Seq<char>>) -> Seq<char> {
    if users.len() > 0 {
        conf_line("valid users"@, join_users(users))
    } else {
        Seq::empty()
    }
}

/// The share section: header, path, flags, the access block, the allowed
/// users, then the raw parameters in key order. Names, comments, users and
/// parameters are sanitized; the path is written as validated.
pub open spec fn spec_render_share_conf(share: SmbShare) -> Seq<char> {
    let users = string_views(share.valid_users@);
    let ps = param_views(share.extra_params@);
    "["@ + sanitize_seq(share.name@) + "]\n"@ + conf_line("path"@, share.path@) + comment_block(
        share.comment,
    ) + conf_line("read only"@, yes_no(share.read_only)) + conf_line(
        "browseable"@,
        yes_no(share.browseable),
    ) + conf_line("guest ok"@, yes_no(share.guest_ok)) + access_block(share.guest_ok, users)
        + users_block(users) + params_block(ps, stable_order(param_keys(ps)))
}

fn push_conf_line(out: &mut String, key: &str, val: &Vec<char>)
    ensures
        final(out)@ == old(out)@ + conf_line(key@, val@),
{
    push_lit(out, "    ");
    push_lit(out, key);
    push_lit(out, " = ");
    push_chars(out, val);
    push_lit(out, "\n");
    assert(out@ =~= old(out)@ + conf_line(key@, val@));
}

fn push_conf_line_lit(out: &mut String, key: &str, val: &str)
    ensures
        final(out)@ == old(out)@ + conf_line(key@, val@),
{
    let v = chars_of(val);
    push_conf_line(out, key, &v);
}

fn yes_no_chars(b: bool) -> (r: Vec<char>)
    ensures
        r@ == yes_no(b),
{
    if b {
        chars_of("yes")
    } else {
        chars_of("no")
    }
}

fn user_token_chars(u: &String) -> (r: Vec<char>)
    ensures
        r@ == user_token(u@),
{
    let c = chars_of(u.as_str());
    let s = sanitize_chars(&c);
    if seq_contains_char(&s, ' ') {
        let mut q: Vec<char> = Vec::new();
        q.push('"');
        let mut i: usize = 0;
        while i < s.len()
            invariant
                i <= s.len(),
                q@ == seq!['"'] + s@.take(i as int),
            decreases s.len() - i,
        {
            q.push(s[i]);
            assert(s@.take(i + 1) =~= s@.take(i as int).push(s@[i as int]));
            i = i + 1;
        }
        q.push('"');
        proof {
            reveal_strlit("\"");
            assert(s@.take(s@.len() as int) =~= s@);
        }
        assert(q@ =~= "\""@ + s@ + "\""@);
        q
    } else {
        s
    }
}

fn push_users(out: &mut String, users: &Vec<String>)
    requires
        users@.len() > 0,
    ensures
        final(out)@ == old(out)@ + join_users(string_views(users@)),
{
    let ghost uv = string_views(users@);
    let t0 = user_token_chars(&users[0]);
    push_chars(out, &t0);
    assert(uv.take(1).len() == 1);
    assert(join_users(uv.take(1)) == user_token(uv.take(1)[0]));
    let n = users.len();
    for i in 1..n
        invariant
            n == users@.len(),
            n > 0,
            uv == string_views(users@),
            out@ == old(out)@ + join_users(uv.take(i as int)),
    {
        let t = user_token_chars(&users[i]);
        push_lit(out, " ");
        push_chars(out, &t);
        assert(uv.take(i + 1).drop_last() =~= uv.take(i as int));
        assert(uv.take(i + 1).last() == users@[i as int]@);
        assert(out@ =~= old(out)@ + join_users(uv.take(i + 1)));
    }
    assert(uv.take(n as int) =~= uv);
}

fn first_non_group_index(users: &Vec<String>) -> (r: Option<usize>)
    ensures
        match r {
            Some(i) => i < users@.len() && first_non_group(string_views(users@)) == Some(
                users@[i as int]@,
            ),
            None => first_non_group(string_views(users@)) is None,
        },
{
    let ghost uv = string_views(users@);
    assert(uv.skip(0) =~= uv);
    let n = users.len();
    for i in 0..n
        invariant
            n == users@.len(),
            uv == string_views(users@),
            first_non_group(uv) == first_non_group(uv.skip(i as int)),
    {
        let c = chars_of(users[i].as_str());
        assert(uv.skip(i as int)[0] == uv[i as int]);
        assert(uv.skip(i as int).drop_first() =~= uv.skip(i + 1));
        if !(c.len() > 0 && c[0] == '@') {
            return Some(i);
        }
    }
    assert(uv.skip(n as int).len() == 0);
    None
}

fn param_key_list(ps: &Vec<(String, String)>) -> (keys: Vec<Vec<Vec<char>>>)
    ensures
        crate::sorting::all_keys(keys@) == param_keys(param_views(ps@)),
{
    let mut keys: Vec<Vec<Vec<char>>> = Vec::new();
    let n = ps.len();
    for i in 0..n
        invariant
            n == ps@.len(),
            crate::sorting::all_keys(keys@) == param_keys(param_views(ps@.take(i as int))),
    {
        let k = chars_of(ps[i].0.as_str());
        let kv = vec![k];
        assert(key_views(kv) =~= seq![ps@[i as int].0@]);
        let ghost prev = keys@;
        keys.push(kv);
        assert(ps@.take(i + 1) =~= ps@.take(i as int).push(ps@[i as int]));
        assert(crate::sorting::all_keys(keys@) =~= crate::sorting::all_keys(prev).push(
            key_views(kv),
        ));
        assert(crate::sorting::all_keys(keys@) =~= param_keys(param_views(ps@.take(i + 1))));
    }
    assert(ps@.take(n as int) =~= ps@);
    keys
}

fn push_params(out: &mut String, ps: &Vec<(String, String)>)
    ensures
        final(out)@ == old(out)@ + params_block(
            param_views(ps@),
            stable_order(param_keys(param_views(ps@))),
        ),
{
    let keys = param_key_list(ps);
    let order = sorted_indices(&keys);
    let ghost pv = param_views(ps@);
    let ghost ov = order@.map_values(|x: usize| x as int);
    proof {
        crate::sorting::lemma_stable_order_indices(all_keys(keys@));
    }
    let n = order.len();
    for i in 0..n
        invariant
            n == order@.len(),
            pv == param_views(ps@),
            ov == order@.map_values(|x: usize| x as int),
            ov == stable_order(param_keys(pv)),
            forall|j: int| 0 <= j < n ==> 0 <= #[trigger] ov[j] < ps@.len(),
            out@ == old(out)@ + params_block(pv, ov.take(i as int)),
    {
        let idx = order[i];
        assert(ov[i as int] == idx as int);
        let kc = chars_of(ps[idx].0.as_str());
        let vc = chars_of(ps[idx].1.as_str());
        let ks = sanitize_chars(&kc);
        let vs = sanitize_chars(&vc);
        push_lit(out, "    ");
        push_chars(out, &ks);
        push_lit(out, " = ");
        push_chars(out, &vs);
        push_lit(out, "\n");
        assert(ov.take(i + 1).drop_last() =~= ov.take(i as int));
        assert(ov.take(i + 1).last() == idx as int);
        assert(pv[idx as int] == (ps@[idx as int].0@, ps@[idx as int].1@));
        assert(out@ =~= old(out)@ + params_block(pv, ov.take(i + 1)));
    }
    assert(ov.take(n as int) =~= ov);
}

fn push_access_block(out: &mut String, guest_ok: bool, users: &Vec<String>)
    ensures
        final(out)@ == old(out)@ + access_block(guest_ok, string_views(users@)),
{
    if guest_ok {
        push_conf_line_lit(out, "force user", "nobody");
        push_conf_line_lit(out, "force group", "nogroup");
        push_conf_line_lit(out, "create mask", "0666");
        push_conf_line_lit(out, "directory mask", "0777");
    } else if users.len() > 0 {
        match first_non_group_index(users) {
            Some(i) => {
                let uc = chars_of(users[i].as_str());
                let us = sanitize_chars(&uc);
                push_conf_line(out, "force user", &us);
            },
            None => {},
        }
        push_conf_line_lit(out, "create mask", "0664");
        push_conf_line_lit(out, "directory mask", "0775");
    }
    assert(out@ =~= old(out)@ + access_block(guest_ok, string_views(users@)));
}

fn push_users_block(out: &mut String, users: &Vec<String>)
    ensures
        final(out)@ == old(out)@ + users_block(string_views(users@)),
{
    if users.len() > 0 {
        push_lit(out, "    ");
        push_lit(out, "valid users");
        push_lit(out, " = ");
        push_users(out, users);
        push_lit(out, "\n");
        assert(out@ =~= old(out)@ + conf_line("valid users"@, join_users(string_views(users@))));
    }
    assert(out@ =~= old(out)@ + users_block(string_views(users@)));
}

fn push_head(out: &mut String, share: &SmbShare)
    ensures
        final(out)@ == old(out)@ + "["@ + sanitize_seq(share.name@) + "]\n"@ + conf_line(
            "path"@,
            share.path@,
        ) + comment_block(share.comment),
{
    push_lit(out, "[");
    let nc = chars_of(share.name.as_str());
    let ns = sanitize_chars(&nc);
    push_chars(out, &ns);
    push_lit(out, "]\n");
    let pc = chars_of(share.path.as_str());
    push_conf_line(out, "path", &pc);
    let ghost mark = out@;
    match &share.comment {
        Some(c) => {
            let cc = chars_of(c.as_str());
            let cs = sanitize_chars(&cc);
            push_conf_line(out, "comment", &cs);
        },
        None => {},
    }
    assert(out@ =~= mark + comment_block(share.comment));
}

fn push_flags(out: &mut String, share: &SmbShare)
    ensures
        final(out)@ == old(out)@ + conf_line("read only"@, yes_no(share.read_only)) + conf_line(
            "browseable"@,
            yes_no(share.browseable),
        ) + conf_line("guest ok"@, yes_no(share.guest_ok)),
{
    let ro = yes_no_chars(share.read_only);
    push_conf_line(out, "read only", &ro);
    let br = yes_no_chars(share.browseable);
    push_conf_line(out, "browseable", &br);
    let go = yes_no_chars(share.guest_ok);
    push_conf_line(out, "guest ok", &go);
}

/// Render one share section.
pub fn render_share_conf(share: &SmbShare) -> (r: String)
    ensures
        r@ == spec_render_share_conf(*share),
{
    let mut conf = String::new();
    push_head(&mut conf, share);
    let ghost a = conf@;
    push_flags(&mut conf, share);
    let ghost b = conf@;
    push_access_block(&mut conf, share.guest_ok, &share.valid_users);
    let ghost c = conf@;
    push_users_block(&mut conf, &share.valid_users);
    let ghost d = conf@;
    push_params(&mut conf, &share.extra_params);
    assert(conf@ =~= spec_render_share_conf(*share));
    conf
}


// ── ksmbd.conf ──────────────────────────────────────────────────

pub open spec fn enabled_shares(ss: Seq<SmbShare>) -> Seq<SmbShare>
    decreases ss.len(),
{
    if ss.len() == 0 {
        Seq::empty()
    } else if ss.last().enabled {
        enabled_shares(ss.drop_last()).push(ss.last())
    } else {
        enabled_shares(ss.drop_last())
    }
}

/// Sections are ordered by ASCII-lowercased name.
pub open spec fn share_name_keys(ss: Seq<SmbShare>) -> Seq<Seq<Seq<char>>> {
    ss.map_values(|s: SmbShare| seq![lower_seq(s.name@)])
}

pub open spec fn share_sections(ss: Seq<SmbShare>, order: Seq<int>) -> Seq<char>
    decreases order.len(),
{
    if order.len() == 0 {
        Seq::empty()
    } else {
        share_sections(ss, order.drop_last()) + spec_render_share_conf(ss[order.last()]) + "\n"@
    }
}

pub open spec fn tuning_lines(t: SmbTuningGlobals) -> Seq<char> {
    (if t.max_connections > 0 {
        conf_line("max connections"@, decimal(t.max_connections as nat))
    } else {
        Seq::empty()
    }) + (if t.deadtime > 0 {
        conf_line("deadtime"@, decimal(t.deadtime as nat))
    } else {
        Seq::empty()
    })
}

pub open spec fn global_section(t: SmbTuningGlobals) -> Seq<char> {
    "[global]\n"@ + conf_line("workgroup"@, "WORKGROUP"@) + conf_line("server string"@, "NASty"@)
        + conf_line("map to guest"@, "bad user"@) + conf_line("guest account"@, "nobody"@)
        + tuning_lines(t) + "\n"@
}

/// The whole `ksmbd.conf`: a header, `[global]` with the tuning knobs that
/// are set, then every enabled share's section, ordered by lowercased name.
pub open spec fn spec_render_ksmbd_conf(shares: Seq<SmbShare>, t: SmbTuningGlobals) -> Seq<char> {
    let en = enabled_shares(shares);
    "# Managed by NASty — do not edit manually\n\n"@ + global_section(t) + share_sections(
        en,
        stable_order(share_name_keys(en)),
    )
}

fn push_tuning(out: &mut String, t: &SmbTuningGlobals)
    ensures
        final(out)@ == old(out)@ + tuning_lines(*t),
{
    let ghost start = out@;
    if t.max_connections > 0 {
        let d = crate::text::decimal_chars(t.max_connections as u64);
        push_conf_line(out, "max connections", &d);
    }
    let ghost mid = out@;
    if t.deadtime > 0 {
        let d = crate::text::decimal_chars(t.deadtime as u64);
        push_conf_line(out, "deadtime", &d);
    }
    assert(out@ =~= start + tuning_lines(*t));
}

fn push_global(out: &mut String, t: &SmbTuningGlobals)
    ensures
        final(out)@ == old(out)@ + global_section(*t),
{
    push_lit(out, "[global]\n");
    push_conf_line_lit(out, "workgroup", "WORKGROUP");
    push_conf_line_lit(out, "server string", "NASty");
    push_conf_line_lit(out, "map to guest", "bad user");
    push_conf_line_lit(out, "guest account", "nobody");
    push_tuning(out, t);
    push_lit(out, "\n");
    assert(out@ =~= old(out)@ + global_section(*t));
}

fn enabled_indices(shares: &Vec<SmbShare>) -> (idx: Vec<usize>)
    ensures
        idx@.map_values(|i: usize| shares@[i as int]) == enabled_shares(shares@),
        forall|j: int| 0 <= j < idx@.len() ==> #[trigger] idx@[j] < shares@.len(),
{
    let mut idx: Vec<usize> = Vec::new();
    let n = shares.len();
    for i in 0..n
        invariant
            n == shares@.len(),
            idx@.map_values(|k: usize| shares@[k as int]) == enabled_shares(shares@.take(i as int)),
            forall|j: int| 0 <= j < idx@.len() ==> #[trigger] idx@[j] < i,
    {
        assert(shares@.take(i + 1).drop_last() =~= shares@.take(i as int));
        assert(shares@.take(i + 1).last() == shares@[i as int]);
        if shares[i].enabled {
            idx.push(i);
        }
        assert(idx@.map_values(|k: usize| shares@[k as int]) =~= enabled_shares(
            shares@.take(i + 1),
        ));
    }
    assert(shares@.take(n as int) =~= shares@);
    idx
}

/// Build the full `ksmbd.conf`.
pub fn render_ksmbd_conf(shares: &Vec<SmbShare>, tuning: &SmbTuningGlobals) -> (r: String)
    ensures
        r@ == spec_render_ksmbd_conf(shares@, *tuning),
{
    let mut conf = String::new();
    push_lit(&mut conf, "# Managed by NASty — do not edit manually\n\n");
    push_global(&mut conf, tuning);
    let idx = enabled_indices(shares);
    let ghost en = enabled_shares(shares@);
    let mut keys: Vec<Vec<Vec<char>>> = Vec::new();
    let m = idx.len();
    for j in 0..m
        invariant
            m == idx@.len(),
            en == idx@.map_values(|i: usize| shares@[i as int]),
            forall|q: int| 0 <= q < idx@.len() ==> #[trigger] idx@[q] < shares@.len(),
            all_keys(keys@) == share_name_keys(en.take(j as int)),
    {
        let nc = chars_of(shares[idx[j]].name.as_str());
        let lc = crate::text::lower_chars(&nc);
        let kv = vec![lc];
        assert(key_views(kv) =~= seq![lower_seq(en[j as int].name@)]);
        let ghost prev = keys@;
        keys.push(kv);
        assert(en.take(j + 1) =~= en.take(j as int).push(en[j as int]));
        assert(all_keys(keys@) =~= all_keys(prev).push(key_views(kv)));
        assert(all_keys(keys@) =~= share_name_keys(en.take(j + 1)));
    }
    assert(en.take(m as int) =~= en);
    let order = sorted_indices(&keys);
    let ghost ov = order@.map_values(|x: usize| x as int);
    proof {
        crate::sorting::lemma_stable_order_indices(all_keys(keys@));
    }
    let ghost head = conf@;
    let n = order.len();
    for k in 0..n
        invariant
            n == order@.len(),
            m == idx@.len(),
            en == idx@.map_values(|i: usize| shares@[i as int]),
            forall|q: int| 0 <= q < idx@.len() ==> #[trigger] idx@[q] < shares@.len(),
            ov == order@.map_values(|x: usize| x as int),
            ov == stable_order(share_name_keys(en)),
            forall|q: int| 0 <= q < n ==> 0 <= #[trigger] ov[q] < m,
            conf@ == head + share_sections(en, ov.take(k as int)),
    {
        let o = order[k];
        assert(ov[k as int] == o as int);
        let section = render_share_conf(&shares[idx[o]]);
        assert(en[o as int] == shares@[idx@[o as int] as int]);
        conf.append(section.as_str());
        push_lit(&mut conf, "\n");
        assert(ov.take(k + 1).drop_last() =~= ov.take(k as int));
        assert(ov.take(k + 1).last() == o as int);
        assert(conf@ =~= head + share_sections(en, ov.take(k + 1)));
    }
    assert(ov.take(n as int) =~= ov);
    conf
}


// ── the share service ───────────────────────────────────────────

pub struct CreateSmbShareRequest {
    /// 1–80 characters, no special characters.
    pub name: String,
    /// Absolute path to share (must exist and be under `/fs/`).
    pub path: String,
    pub comment: Option<String>,
    /// Default: false.
    pub read_only: Option<bool>,
    /// Default: true.
    pub browseable: Option<bool>,
    /// Default: false.
    pub guest_ok: Option<bool>,
    pub valid_users: Option<Vec<String>>,
    pub extra_params: Option<Vec<(String, String)>>,
    pub time_machine: Option<bool>,
    pub time_machine_max_size_gib: Option<u32>,
    /// Default: true.
    pub enabled: Option<bool>,
}

pub struct UpdateSmbShareRequest {
    pub id: String,
    pub name: Option<String>,
    pub comment: Option<String>,
    pub read_only: Option<bool>,
    pub browseable: Option<bool>,
    pub guest_ok: Option<bool>,
    pub valid_users: Option<Vec<String>>,
    pub extra_params: Option<Vec<(String, String)>>,
    pub time_machine: Option<bool>,
    /// 0 clears the cap.
    pub time_machine_max_size_gib: Option<u32>,
    pub enabled: Option<bool>,
}

pub struct DeleteSmbShareRequest {
    pub id: String,
}

/// The SMB share and account service.
pub struct SmbService;

pub const SHARE_NAME_MSG: &'static str = "Share name must be 1-80 chars without special characters";

/// No key occurs twice among the extra parameters.
pub open spec fn distinct_keys(ps: Seq<(String, String)>) -> bool {
    forall|i: int, j: int| 0 <= i < j < ps.len() ==> (#[trigger] ps[i]).0@ != (#[trigger] ps[j]).0@
}

/// Requested extra parameters, if any, have distinct keys.
pub open spec fn opt_params_distinct(o: Option<Vec<(String, String)>>) -> bool {
    match o {
        Some(v) => distinct_keys(v@),
        None => true,
    }
}

pub open spec fn opt_users_error(v: Option<Vec<String>>) -> Option<Seq<char>> {
    match v {
        Some(u) => users_error(string_views(u@)),
        None => None,
    }
}

/// Why a create request is refused before the stored shares are read.
pub open spec fn spec_create_share_error(
    req: CreateSmbShareRequest,
    canonical: Option<String>,
) -> Option<(SmbErrorKind, Seq<char>)> {
    if share_name_invalid(req.name@) {
        Some((SmbErrorKind::InvalidName, SHARE_NAME_MSG@))
    } else if spec_share_path_error(req.path@) is Some {
        Some((SmbErrorKind::InvalidName, spec_share_path_error(req.path@).unwrap()))
    } else if opt_users_error(req.valid_users) is Some {
        Some((SmbErrorKind::InvalidName, opt_users_error(req.valid_users).unwrap()))
    } else if canonical is None {
        Some((SmbErrorKind::PathNotFound, req.path@))
    } else if !spec_within_fs_root(canonical.unwrap()@) {
        Some((SmbErrorKind::PathNotInFilesystem, req.path@))
    } else {
        None
    }
}

pub open spec fn smb_first_named_at(ss: Seq<SmbShare>, name: Seq<char>, i: int) -> bool {
    &&& 0 <= i < ss.len()
    &&& ss[i].name@ == name
    &&& forall|j: int| 0 <= j < i ==> (#[trigger] ss[j]).name@ != name
}

pub open spec fn smb_has_named(ss: Seq<SmbShare>, name: Seq<char>) -> bool {
    exists|i: int| 0 <= i < ss.len() && (#[trigger] ss[i]).name@ == name
}

/// A positive size cap, or none.
pub open spec fn positive_cap(o: Option<u32>) -> Option<u32> {
    match o {
        Some(n) => if n > 0 {
            Some(n)
        } else {
            None
        },
        None => None,
    }
}

pub open spec fn create_wants_time_machine(req: CreateSmbShareRequest) -> bool {
    bool_or(req.time_machine, false) || positive_cap(req.time_machine_max_size_gib) is Some
}

/// The share that an update request makes of `c`.
pub open spec fn spec_updated_smb_share(c: SmbShare, req: UpdateSmbShareRequest) -> SmbShare {
    SmbShare {
        id: c.id,
        name: match req.name {
            Some(n) => n,
            None => c.name,
        },
        path: c.path,
        comment: match req.comment {
            Some(x) => Some(x),
            None => c.comment,
        },
        read_only: bool_or(req.read_only, c.read_only),
        browseable: bool_or(req.browseable, c.browseable),
        guest_ok: bool_or(req.guest_ok, c.guest_ok),
        valid_users: match req.valid_users {
            Some(v) => v,
            None => c.valid_users,
        },
        extra_params: match req.extra_params {
            Some(v) => v,
            None => c.extra_params,
        },
        time_machine: bool_or(req.time_machine, c.time_machine),
        time_machine_max_size_gib: match req.time_machine_max_size_gib {
            Some(n) => positive_cap(Some(n)),
            None => c.time_machine_max_size_gib,
        },
        enabled: bool_or(req.enabled, c.enabled),
    }
}

pub open spec fn smb_name_taken(existing: Seq<SmbShare>, name: Seq<char>, id: Seq<char>) -> bool {
    exists|i: int|
        0 <= i < existing.len() && (#[trigger] existing[i]).name@ == name && existing[i].id@ != id
}

/// Why an update request is refused, in the order the checks run.
pub open spec fn spec_update_share_error(
    req: UpdateSmbShareRequest,
    current: Option<SmbShare>,
    existing: Seq<SmbShare>,
) -> Option<(SmbErrorKind, Seq<char>)> {
    if req.name is Some && share_name_invalid(req.name.unwrap()@) {
        Some((SmbErrorKind::InvalidName, SHARE_NAME_MSG@))
    } else if current is None {
        Some((SmbErrorKind::NotFound, req.id@))
    } else if req.name is Some && smb_name_taken(existing, req.name.unwrap()@, req.id@) {
        Some((SmbErrorKind::NameExists, req.name.unwrap()@))
    } else if opt_users_error(req.valid_users) is Some {
        Some((SmbErrorKind::InvalidName, opt_users_error(req.valid_users).unwrap()))
    } else if spec_updated_smb_share(current.unwrap(), req).time_machine || spec_updated_smb_share(
        current.unwrap(),
        req,
    ).time_machine_max_size_gib is Some {
        Some((SmbErrorKind::TimeMachineUnsupported, Seq::empty()))
    } else {
        None
    }
}

fn check_share_name(name: &str) -> (r: Result<(), SmbError>)
    ensures
        r is Ok <==> !share_name_invalid(name@),
        r is Err ==> error_of(r) == Some((SmbErrorKind::InvalidName, SHARE_NAME_MSG@)),
{
    match validate_share_name(name) {
        Ok(()) => Ok(()),
        Err(e) => {
            proof {
                reveal_strlit("Share name must be 1-80 chars without special characters");
            }
            Err(e)
        },
    }
}

fn apply_share_update(c: SmbShare, req: UpdateSmbShareRequest) -> (r: SmbShare)
    ensures
        r == spec_updated_smb_share(c, req),
{
    let SmbShare {
        id,
        name,
        path,
        comment,
        read_only,
        browseable,
        guest_ok,
        valid_users,
        extra_params,
        time_machine,
        time_machine_max_size_gib,
        enabled,
    } = c;
    SmbShare {
        id,
        name: match req.name {
            Some(n) => n,
            None => name,
        },
        path,
        comment: match req.comment {
            Some(x) => Some(x),
            None => comment,
        },
        read_only: match req.read_only {
            Some(b) => b,
            None => read_only,
        },
        browseable: match req.browseable {
            Some(b) => b,
            None => browseable,
        },
        guest_ok: match req.guest_ok {
            Some(b) => b,
            None => guest_ok,
        },
        valid_users: match req.valid_users {
            Some(v) => v,
            None => valid_users,
        },
        extra_params: match req.extra_params {
            Some(v) => v,
            None => extra_params,
        },
        time_machine: match req.time_machine {
            Some(b) => b,
            None => time_machine,
        },
        time_machine_max_size_gib: match req.time_machine_max_size_gib {
            Some(n) => if n > 0 {
                Some(n)
            } else {
                None
            },
            None => time_machine_max_size_gib,
        },
        enabled: match req.enabled {
            Some(b) => b,
            None => enabled,
        },
    }
}

impl SmbService {
    pub fn new() -> Self {
        SmbService
    }

    /// Decides a create request. `canonical` is the canonical form of the
    /// requested path, or `None` where it does not exist; `existing` are the
    /// stored shares. A share of the same name is returned as it is.
    pub fn create(
        &self,
        req: CreateSmbShareRequest,
        canonical: Option<String>,
        existing: Vec<SmbShare>,
    ) -> (r: Result<SmbShare, SmbError>)
        requires
            opt_params_distinct(req.extra_params),
            forall|i: int| 0 <= i < existing@.len() ==> distinct_keys((#[trigger] existing@[i]).extra_params@),
        ensures
            r is Ok ==> distinct_keys(r->Ok_0.extra_params@),
            spec_create_share_error(req, canonical) is Some ==> error_of(r) == spec_create_share_error(
                req,
                canonical,
            ),
            spec_create_share_error(req, canonical) is None && smb_has_named(existing@, req.name@)
                ==> r is Ok && exists|i: int|
                smb_first_named_at(existing@, req.name@, i) && r->Ok_0 == existing@[i],
            spec_create_share_error(req, canonical) is None && !smb_has_named(existing@, req.name@)
                && create_wants_time_machine(req) ==> error_of(r) == Some(
                (SmbErrorKind::TimeMachineUnsupported, Seq::<char>::empty()),
            ),
            spec_create_share_error(req, canonical) is None && !smb_has_named(existing@, req.name@)
                && !create_wants_time_machine(req) ==> error_of(r) == Some(
                (SmbErrorKind::Io, NO_RANDOM_SOURCE_MSG@),
            ) || r is Ok && is_v4_uuid_text(r->Ok_0.id@)
                && r->Ok_0.name@ == req.name@ && r->Ok_0.path@ == req.path@ && opt_str(
                r->Ok_0.comment,
            ) == opt_str(req.comment) && r->Ok_0.read_only == bool_or(req.read_only, false)
                && r->Ok_0.browseable == bool_or(req.browseable, true) && r->Ok_0.guest_ok
                == bool_or(req.guest_ok, false) && r->Ok_0.valid_users@ == (match req.valid_users {
                Some(v) => v@,
                None => Seq::empty(),
            }) && r->Ok_0.extra_params@ == (match req.extra_params {
                Some(v) => v@,
                None => Seq::empty(),
            }) && !r->Ok_0.time_machine && r->Ok_0.time_machine_max_size_gib is None
                && r->Ok_0.enabled == bool_or(req.enabled, true),
    {
        let ghost rq = req;
        let ghost cv = canonical;
        match check_share_name(req.name.as_str()) {
            Err(e) => return Err(e),
            Ok(()) => {},
        }
        match validate_share_path(req.path.as_str()) {
            Err(e) => return Err(e),
            Ok(()) => {},
        }
        if let Some(users) = &req.valid_users {
            match validate_valid_users(users) {
                Err(e) => return Err(e),
                Ok(()) => {},
            }
        }
        let c = match canonical {
            None => return Err(SmbError::PathNotFound(req.path)),
            Some(c) => c,
        };
        if !within_fs_root(c.as_str()) {
            return Err(SmbError::PathNotInFilesystem(req.path));
        }
        assert(spec_create_share_error(rq, cv) is None);
        let ghost ev = existing@;
        let mut pool = existing;
        let n = pool.len();
        let mut i: usize = 0;
        while i < n
            invariant
                n == pool@.len(),
                pool@ == ev,
                existing@ == ev,
                rq == req,
                cv == canonical,
                spec_create_share_error(rq, cv) is None,
                i <= n,
                forall|j: int| 0 <= j < i ==> (#[trigger] ev[j]).name@ != req.name@,
                forall|k: int| 0 <= k < ev.len() ==> distinct_keys((#[trigger] ev[k]).extra_params@),
            decreases n - i,
        {
            if pool[i].name == req.name {
                let s = pool.remove(i);
                assert(smb_first_named_at(ev, req.name@, i as int));
                assert(distinct_keys(ev[i as int].extra_params@));
                return Ok(s);
            }
            i = i + 1;
        }
        let mut share = SmbShare {
            id: String::new(),
            name: req.name,
            path: req.path,
            comment: req.comment,
            read_only: match req.read_only {
                Some(b) => b,
                None => false,
            },
            browseable: match req.browseable {
                Some(b) => b,
                None => true,
            },
            guest_ok: match req.guest_ok {
                Some(b) => b,
                None => false,
            },
            valid_users: match req.valid_users {
                Some(v) => v,
                None => Vec::new(),
            },
            extra_params: match req.extra_params {
                Some(v) => v,
                None => Vec::new(),
            },
            time_machine: match req.time_machine {
                Some(b) => b,
                None => false,
            },
            time_machine_max_size_gib: match req.time_machine_max_size_gib {
                Some(n) => if n > 0 {
                    Some(n)
                } else {
                    None
                },
                None => None,
            },
            enabled: match req.enabled {
                Some(b) => b,
                None => true,
            },
        };
        match reject_time_machine(&share) {
            Err(e) => return Err(e),
            Ok(()) => {},
        }
        match new_share_id() {
            Some(id) => share.id = id,
            None => return Err(SmbError::Io(String::from_str(NO_RANDOM_SOURCE_MSG))),
        }
        Ok(share)
    }

    /// Decides an update request against the stored share with the
    /// requested id (`None` where there is none) and all stored shares.
    pub fn update(
        &self,
        req: UpdateSmbShareRequest,
        current: Option<SmbShare>,
        existing: &Vec<SmbShare>,
    ) -> (r: Result<SmbShare, SmbError>)
        requires
            opt_params_distinct(req.extra_params),
            current matches Some(c) ==> distinct_keys(c.extra_params@),
        ensures
            r is Ok ==> distinct_keys(r->Ok_0.extra_params@),
            spec_update_share_error(req, current, existing@) is Some ==> error_of(r)
                == spec_update_share_error(req, current, existing@),
            spec_update_share_error(req, current, existing@) is None ==> r == Ok::<
                SmbShare,
                SmbError,
            >(spec_updated_smb_share(current.unwrap(), req)),
    {
        let ghost rq = req;
        if let Some(n) = &req.name {
            match check_share_name(n.as_str()) {
                Err(e) => return Err(e),
                Ok(()) => {},
            }
        }
        let share = match current {
            None => return Err(SmbError::NotFound(req.id)),
            Some(s) => s,
        };
        let ghost c = share;
        assert(current == Some(c));
        if let Some(n) = &req.name {
            let m = existing.len();
            for k in 0..m
                invariant
                    m == existing@.len(),
                    rq == req,
                    current == Some(c),
                    req.name == Some(*n),
                    !share_name_invalid(n@),
                    forall|j: int|
                        0 <= j < k ==> !((#[trigger] existing@[j]).name@ == n@ && existing@[j].id@
                            != req.id@),
            {
                if existing[k].name == *n && !(existing[k].id == req.id) {
                    return Err(SmbError::NameExists(n.clone()));
                }
            }
        }
        if let Some(valid_users) = &req.valid_users {
            match validate_valid_users(valid_users) {
                Err(e) => return Err(e),
                Ok(()) => {},
            }
        }
        let share = apply_share_update(share, req);
        match reject_time_machine(&share) {
            Err(e) => return Err(e),
            Ok(()) => {},
        }
        Ok(share)
    }
}

// ── laws ────────────────────────────────────────────────────────

/// A sanitized value holds no character that could start a new `ksmbd.conf`
/// directive, keeps every other character in order, and sanitizing it again
/// changes nothing.
pub proof fn law_sanitized_values_cannot_break_the_config(s: Seq<char>)
    ensures
        forall|i: int| 0 <= i < sanitize_seq(s).len() ==> !conf_breaking(#[trigger] sanitize_seq(s)[i]),
        sanitize_seq(sanitize_seq(s)) == sanitize_seq(s),
        (forall|i: int| 0 <= i < s.len() ==> !conf_breaking(#[trigger] s[i])) ==> sanitize_seq(s) == s,
    decreases s.len(),
{
    if s.len() > 0 {
        let rest = s.drop_last();
        law_sanitized_values_cannot_break_the_config(rest);
        let r = sanitize_seq(rest);
        if !conf_breaking(s.last()) {
            let t = r.push(s.last());
            assert(t.drop_last() =~= r);
            assert(sanitize_seq(t) == sanitize_seq(r).push(s.last()));
            if forall|i: int| 0 <= i < s.len() ==> !conf_breaking(#[trigger] s[i]) {
                assert forall|i: int| 0 <= i < rest.len() implies !conf_breaking(#[trigger] rest[i]) by {
                    assert(rest[i] == s[i]);
                }
                assert(s =~= rest.push(s.last()));
            }
        } else {
            assert(!(forall|i: int| 0 <= i < s.len() ==> !conf_breaking(#[trigger] s[i])));
        }
    }
}

} // verus!
