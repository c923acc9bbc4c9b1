//! Release channels, update checks and snapshot generations: the decisions
//! of the update service, from the versions, release lists and command
//! output that the caller gathers.
use vstd::prelude::*;
use std::collections::HashMap;

use crate::scan::{contains_chars, contains_seq, lines_of, lines_seq, split_once_chars, split_once_seq, trim_chars, trim_end_seq, trim_seq, trim_start_seq};
use crate::sorting::{lemma_num_stable_order_indices, num_stable_order, sorted_indices_by_number};
use crate::text::{chars_are, chars_of, is_whitespace, lower_chars, lower_seq, opt_str, push_chars, push_decimal, push_lit, decimal, seq_eq, starts_with_lit, string_of, str_eq};

verus! {

// ── release channels ────────────────────────────────────────────

#[derive(Clone, Copy, Debug, PartialEq, Eq, Structural)]
pub enum ReleaseChannel {
    /// Tagged releases only (`v*`).
    Mild,
    /// Pre-release tags (`s*`) as well.
    Spicy,
    /// The apt candidate, whatever it is.
    Nasty,
}

pub open spec fn channel_name(c: ReleaseChannel) -> Seq<char> {
    match c {
        ReleaseChannel::Mild => "mild"@,
        ReleaseChannel::Spicy => "spicy"@,
        ReleaseChannel::Nasty => "nasty"@,
    }
}

pub open spec fn channel_display_name(c: ReleaseChannel) -> Seq<char> {
    match c {
        ReleaseChannel::Mild => "Mild"@,
        ReleaseChannel::Spicy => "Spicy"@,
        ReleaseChannel::Nasty => "Nasty"@,
    }
}

/// A channel name, ignoring surrounding white space and ASCII case.
pub open spec fn spec_parse_channel(s: Seq<char>) -> Option<ReleaseChannel> {
    let t = lower_seq(trim_seq(s));
    if t == "mild"@ {
        Some(ReleaseChannel::Mild)
    } else if t == "spicy"@ {
        Some(ReleaseChannel::Spicy)
    } else if t == "nasty"@ {
        Some(ReleaseChannel::Nasty)
    } else {
        None
    }
}

impl ReleaseChannel {
    pub fn as_str(self) -> (r: &'static str)
        ensures
            r@ == channel_name(self),
    {
        match self {
            ReleaseChannel::Mild => "mild",
            ReleaseChannel::Spicy => "spicy",
            ReleaseChannel::Nasty => "nasty",
        }
    }

    pub fn display_name(self) -> (r: &'static str)
        ensures
            r@ == channel_display_name(self),
    {
        match self {
            ReleaseChannel::Mild => "Mild",
            ReleaseChannel::Spicy => "Spicy",
            ReleaseChannel::Nasty => "Nasty",
        }
    }

    pub fn parse(s: &str) -> (r: Option<ReleaseChannel>)
        ensures
            r == spec_parse_channel(s@),
    {
        let c = chars_of(s);
        let t = lower_chars(&trim_chars(&c));
        if chars_are(&t, "mild") {
            Some(ReleaseChannel::Mild)
        } else if chars_are(&t, "spicy") {
            Some(ReleaseChannel::Spicy)
        } else if chars_are(&t, "nasty") {
            Some(ReleaseChannel::Nasty)
        } else {
            None
        }
    }
}

/// The channel a stored channel file names; Mild where there is none or
/// it names none.
pub fn channel_from_file(content: Option<&str>) -> (r: ReleaseChannel)
    ensures
        r == match content {
            Some(s) => match spec_parse_channel(s@) {
                Some(c) => c,
                None => ReleaseChannel::Mild,
            },
            None => ReleaseChannel::Mild,
        },
{
    match content {
        Some(s) => match ReleaseChannel::parse(s) {
            Some(c) => c,
            None => ReleaseChannel::Mild,
        },
        None => ReleaseChannel::Mild,
    }
}

/// What the channel file holds for a channel.
pub fn channel_file_body(channel: ReleaseChannel) -> (r: String)
    ensures
        r@ == channel_name(channel) + seq!['\n'],
{
    let mut s = String::from_str(channel.as_str());
    s.push('\n');
    s
}

// ── errors and records ──────────────────────────────────────────

pub enum UpdateError {
    AlreadyRunning,
    CommandFailed(String),
    Io(String),
}

pub open spec fn command_failed_msg<T>(r: Result<T, UpdateError>) -> Option<Seq<char>> {
    match r {
        Err(UpdateError::CommandFailed(m)) => Some(m@),
        _ => None,
    }
}

pub struct UpdateBuildDirConfig {
    pub path: Option<String>,
    pub available_pools: Vec<String>,
    pub resolved: Option<String>,
}

pub struct VersionInputInfo {
    pub name: String,
    pub url: String,
    pub rev: Option<String>,
    pub tag: Option<String>,
}

pub struct VersionInfo {
    pub inputs: Vec<VersionInputInfo>,
}

pub struct VersionTaggedReleaseStatus {
    pub current_url: String,
    pub latest_tag: String,
    pub latest_url: String,
    pub current_is_latest_standard_url: bool,
}

pub struct BootstrapSystemFlakeResult {
    pub flake_path: String,
}

pub struct VersionSwitchInput {
    pub name: String,
    pub url: String,
    pub update: bool,
}

pub struct VersionSwitchRequest {
    pub inputs: Vec<VersionSwitchInput>,
}

pub struct UpdateInfo {
    pub current_version: String,
    pub latest_version: Option<String>,
    pub update_available: Option<bool>,
    pub channel: ReleaseChannel,
    pub last_attempt: Option<String>,
    pub error: Option<String>,
    pub inputs: Option<Vec<VersionInputInfo>>,
}

pub struct UpdateStatus {
    pub state: String,
    pub log: String,
    pub reboot_required: bool,
    pub webui_changed: bool,
}

/// A snapshot the system can be rolled back to.
pub struct Generation {
    /// Snapper snapshot number.
    pub generation: u64,
    pub date: String,
    /// Snapshot description (the field name is kept for the WebUI).
    pub nixos_version: String,
    pub kernel_version: String,
    pub nasty_version: Option<String>,
    pub current: bool,
    pub booted: bool,
    pub label: Option<String>,
}

/// A GitHub release as listed by the releases API.
pub struct GitHubRelease {
    pub tag_name: String,
    pub draft: bool,
    pub prerelease: bool,
}

/// A snapshot as `snapper --jsonout list` reports it; `date` is already
/// rendered as text.
pub struct SnapperSnapshot {
    pub number: u64,
    pub snapshot_type: String,
    pub description: String,
    pub date: String,
    pub default: bool,
    pub active: bool,
}

/// The update service.
pub struct UpdateService;

impl UpdateService {
    pub fn new() -> Self {
        UpdateService
    }
}

// ── text read from files and commands ───────────────────────────

pub open spec fn spec_nonempty_trimmed(s: Seq<char>) -> Option<Seq<char>> {
    if trim_seq(s).len() == 0 {
        None
    } else {
        Some(trim_seq(s))
    }
}

/// A value read from a file or a command's output: trimmed, and nothing
/// where that leaves it empty.
pub fn nonempty_trimmed(s: &str) -> (r: Option<String>)
    ensures
        opt_str(r) == spec_nonempty_trimmed(s@),
{
    let c = chars_of(s);
    let t = trim_chars(&c);
    if t.len() == 0 {
        None
    } else {
        Some(string_of(&t))
    }
}

/// What the build-dir file holds for a setting: the trimmed path and a
/// newline, or nothing (the file is removed) for an empty or missing path.
pub fn build_dir_file_body(path: Option<&str>) -> (r: Option<String>)
    ensures
        opt_str(r) == match path {
            Some(p) => if trim_seq(p@).len() > 0 {
                Some(trim_seq(p@) + seq!['\n'])
            } else {
                None
            },
            None => None,
        },
{
    match path {
        Some(p) => {
            let c = chars_of(p);
            let t = trim_chars(&c);
            if t.len() > 0 {
                let mut s = string_of(&t);
                s.push('\n');
                Some(s)
            } else {
                None
            }
        },
        None => None,
    }
}

impl UpdateBuildDirConfig {
    /// The build-dir settings as reported: Debian builds have no pools to
    /// offer and resolve nothing.
    pub fn from_path(path: Option<String>) -> (r: Self)
        ensures
            r.path == path,
            r.available_pools@.len() == 0,
            r.resolved is None,
    {
        UpdateBuildDirConfig { path, available_pools: Vec::new(), resolved: None }
    }
}

/// Whether a reboot is needed: a reboot-required flag file exists, or the
/// last update log asks for one.
pub open spec fn spec_reboot_required(flag_file: bool, log: Option<Seq<char>>) -> bool {
    flag_file || match log {
        Some(l) => contains_seq(l, "reboot required"@) || contains_seq(l, "Reboot required"@),
        None => false,
    }
}

pub fn reboot_required_from(flag_file: bool, log: Option<&str>) -> (r: bool)
    ensures
        r == spec_reboot_required(flag_file, crate::dependents::opt_view(log)),
{
    if flag_file {
        return true;
    }
    match log {
        Some(l) => {
            let c = chars_of(l);
            let a = chars_of("reboot required");
            let b = chars_of("Reboot required");
            contains_chars(&c, &a) || contains_chars(&c, &b)
        },
        None => false,
    }
}

} // verus!

verus! {

// ── versions ────────────────────────────────────────────────────

/// `trim_start_matches('v')`: every leading `v` removed.
pub open spec fn strip_leading_v(s: Seq<char>) -> Seq<char>
    decreases s.len(),
{
    if s.len() > 0 && s[0] == 'v' {
        strip_leading_v(s.drop_first())
    } else {
        s
    }
}

fn strip_leading_v_chars(s: &Vec<char>) -> (r: Vec<char>)
    ensures
        r@ == strip_leading_v(s@),
{
    let n = s.len();
    let mut a: usize = 0;
    assert(s@.subrange(0, n as int) =~= s@);
    while a < n && s[a] == 'v'
        invariant
            n == s.len(),
            a <= n,
            strip_leading_v(s@) == strip_leading_v(s@.subrange(a as int, n as int)),
        decreases n - a,
    {
        assert(s@.subrange(a as int, n as int).drop_first() =~= s@.subrange(a + 1, n as int));
        a = a + 1;
    }
    let mut out: Vec<char> = Vec::new();
    for i in a..n
        invariant
            n == s.len(),
            a <= n,
            out@ == s@.subrange(a as int, i as int),
    {
        out.push(s[i]);
        assert(out@ =~= s@.subrange(a as int, i + 1));
    }
    out
}

/// A version compared without a leading `v` and without the Debian
/// revision after the first `-`.
pub open spec fn spec_normalize_ver(v: Seq<char>) -> Seq<char> {
    let t = strip_leading_v(trim_seq(v));
    match split_once_seq(t, '-') {
        Some((a, _)) => a,
        None => t,
    }
}

fn normalize_chars(v: &Vec<char>) -> (r: Vec<char>)
    ensures
        r@ == spec_normalize_ver(v@),
{
    let t = strip_leading_v_chars(&trim_chars(v));
    match split_once_chars(&t, '-') {
        Some((a, _b)) => a,
        None => t,
    }
}

pub fn normalize_ver(v: &str) -> (r: String)
    ensures
        r@ == spec_normalize_ver(v@),
{
    let c = chars_of(v);
    let n = normalize_chars(&c);
    string_of(&n)
}

pub open spec fn ends_with_dirty(s: Seq<char>) -> bool {
    s.len() >= 6 && s.subrange(s.len() - 6, s.len() as int) == "-dirty"@
}

/// `trim_end_matches("-dirty")`: every trailing `-dirty` removed.
pub open spec fn strip_dirty(s: Seq<char>) -> Seq<char>
    decreases s.len(),
{
    if ends_with_dirty(s) {
        strip_dirty(s.take(s.len() - 6))
    } else {
        s
    }
}

fn strip_dirty_chars(s: &Vec<char>) -> (r: Vec<char>)
    ensures
        r@ == strip_dirty(s@),
{
    let d = chars_of("-dirty");
    proof {
        reveal_strlit("-dirty");
    }
    let mut b = s.len();
    assert(s@.take(b as int) =~= s@);
    loop
        invariant
            b <= s.len(),
            d@ == "-dirty"@,
            d@.len() == 6,
            strip_dirty(s@) == strip_dirty(s@.take(b as int)),
        ensures
            b <= s.len(),
            strip_dirty(s@) == s@.take(b as int),
        decreases b,
    {
        let ghost t = s@.take(b as int);
        if b < 6 {
            assert(!ends_with_dirty(t));
            break;
        }
        let mut same = true;
        let mut k: usize = 0;
        while k < 6 && same
            invariant
                b >= 6,
                b <= s.len(),
                k <= 6,
                d@ == "-dirty"@,
                d@.len() == 6,
                same == forall|j: int| 0 <= j < k ==> s@[b - 6 + j] == d@[j],
            decreases 6 - k,
        {
            if s[b - 6 + k] != d[k] {
                same = false;
            }
            k = k + 1;
        }
        proof {
            reveal_strlit("-dirty");
            if same {
                assert(t.subrange(t.len() - 6, t.len() as int) =~= d@);
            } else {
                let j = choose|j: int| 0 <= j < 6 && s@[b - 6 + j] != d@[j];
                assert(t.subrange(t.len() - 6, t.len() as int)[j] != d@[j]);
            }
        }
        if !same {
            assert(!ends_with_dirty(t));
            break;
        }
        assert(t.take(t.len() - 6) =~= s@.take(b - 6));
        b = b - 6;
    }
    let mut out: Vec<char> = Vec::new();
    for i in 0..b
        invariant
            b <= s.len(),
            out@ == s@.take(i as int),
    {
        out.push(s[i]);
        assert(out@ =~= s@.take(i + 1));
    }
    out
}

/// Whether an update is available: unknown where the latest version is
/// (`None`); a development build always may update; otherwise the versions
/// differ once normalized. A failed last attempt, or a newer apt candidate
/// for one of the packages, also offers one.
pub open spec fn spec_update_available(
    current: Seq<char>,
    latest: Seq<char>,
    last_attempt: Option<Seq<char>>,
    upgrade_pending: bool,
) -> Option<bool> {
    let clean = strip_dirty(current);
    let base = if latest == "unknown"@ {
        None
    } else if clean == "dev"@ {
        Some(true)
    } else {
        Some(spec_normalize_ver(clean) != spec_normalize_ver(latest))
    };
    let a = if last_attempt == Some("failed"@) {
        Some(true)
    } else {
        base
    };
    if a != Some(true) && upgrade_pending {
        Some(true)
    } else {
        a
    }
}

pub fn update_available(
    current: &str,
    latest: &str,
    last_attempt: Option<&str>,
    upgrade_pending: bool,
) -> (r: Option<bool>)
    ensures
        r == spec_update_available(
            current@,
            latest@,
            crate::dependents::opt_view(last_attempt),
            upgrade_pending,
        ),
{
    let cur = chars_of(current);
    let lat = chars_of(latest);
    let clean = strip_dirty_chars(&cur);
    let base: Option<bool> = if chars_are(&lat, "unknown") {
        None
    } else if chars_are(&clean, "dev") {
        Some(true)
    } else {
        let a = normalize_chars(&clean);
        let b = normalize_chars(&lat);
        Some(!seq_eq(&a, &b))
    };
    let failed = match last_attempt {
        Some(s) => str_eq(s, "failed"),
        None => false,
    };
    let a = if failed {
        Some(true)
    } else {
        base
    };
    let is_true = match a {
        Some(b) => b,
        None => false,
    };
    if !is_true && upgrade_pending {
        Some(true)
    } else {
        a
    }
}

/// The apt candidate is taken as the latest version on the Nasty channel,
/// or where it differs from the installed version; otherwise GitHub is asked.
pub fn use_apt_candidate(channel: ReleaseChannel, current: &str, candidate: Option<&str>) -> (r:
    bool)
    ensures
        r == match candidate {
            Some(c) => channel == ReleaseChannel::Nasty || c@ != current@,
            None => false,
        },
{
    match candidate {
        Some(c) => channel == ReleaseChannel::Nasty || !str_eq(c, current),
        None => false,
    }
}

/// The latest version after asking GitHub: its tag, or where the lookup
/// failed the apt candidate (else `unknown`) together with the failure.
pub fn resolve_latest(candidate: Option<String>, lookup: Result<String, String>) -> (r: (
    String,
    Option<String>,
))
    ensures
        match lookup {
            Ok(t) => r.0@ == t@ && r.1 is None,
            Err(e) => r.0@ == (match candidate {
                Some(c) => c@,
                None => "unknown"@,
            }) && opt_str(r.1) == Some(e@),
        },
{
    match lookup {
        Ok(t) => (t, None),
        Err(e) => {
            let latest = match candidate {
                Some(c) => c,
                None => String::from_str("unknown"),
            };
            (latest, Some(e))
        },
    }
}

/// The latest version as reported: none where it is unknown.
pub fn known_version(latest: String) -> (r: Option<String>)
    ensures
        opt_str(r) == (if latest@ == "unknown"@ {
            None
        } else {
            Some(latest@)
        }),
{
    if str_eq(latest.as_str(), "unknown") {
        None
    } else {
        Some(latest)
    }
}

/// The `Candidate:` of `apt-cache policy` output: the rest of the first
/// line that starts with it, where that is neither empty nor `(none)`.
pub open spec fn candidate_rest(ls: Seq<Seq<char>>) -> Option<Seq<char>>
    decreases ls.len(),
{
    if ls.len() == 0 {
        None
    } else {
        let t = trim_seq(ls[0]);
        if t.len() >= 10 && t.take(10) == "Candidate:"@ {
            Some(t.skip(10))
        } else {
            candidate_rest(ls.drop_first())
        }
    }
}

pub open spec fn spec_apt_candidate(text: Seq<char>) -> Option<Seq<char>> {
    match candidate_rest(lines_seq(text)) {
        Some(rest) => {
            let c = trim_seq(rest);
            if c.len() == 0 || c == "(none)"@ {
                None
            } else {
                Some(c)
            }
        },
        None => None,
    }
}

pub fn apt_candidate_from_policy(text: &str) -> (r: Option<String>)
    ensures
        opt_str(r) == spec_apt_candidate(text@),
{
    let c = chars_of(text);
    let ls = lines_of(&c);
    let ghost lv = ls@.map_values(|x: Vec<char>| x@);
    let n = ls.len();
    let mut i: usize = 0;
    assert(lv.skip(0) =~= lv);
    while i < n
        invariant
            n == ls@.len(),
            i <= n,
            lv == ls@.map_values(|x: Vec<char>| x@),
            lv == lines_seq(text@),
            candidate_rest(lv) == candidate_rest(lv.skip(i as int)),
        decreases n - i,
    {
        let t = trim_chars(&ls[i]);
        assert(lv.skip(i as int)[0] == ls@[i as int]@);
        assert(lv.skip(i as int).drop_first() =~= lv.skip(i + 1));
        if starts_with_lit(&t, "Candidate:") {
            proof {
                reveal_strlit("Candidate:");
                assert(t@.take(10) =~= "Candidate:"@);
            }
            let mut rest: Vec<char> = Vec::new();
            let m = t.len();
            for k in 10..m
                invariant
                    m == t@.len(),
                    10 <= m,
                    rest@ == t@.subrange(10, k as int),
            {
                rest.push(t[k]);
                assert(rest@ =~= t@.subrange(10, k + 1));
            }
            assert(rest@ =~= t@.skip(10));
            let cand = trim_chars(&rest);
            if cand.len() == 0 || chars_are(&cand, "(none)") {
                return None;
            }
            return Some(string_of(&cand));
        }
        proof {
            reveal_strlit("Candidate:");
            if t@.len() >= 10 && t@.take(10) == "Candidate:"@ {
                assert(t@.take(10) == "Candidate:"@);
            }
        }
        i = i + 1;
    }
    None
}

// ── releases ────────────────────────────────────────────────────

/// Which release tags a channel follows: Mild takes `v*` tags that are no
/// release candidates or alphas, Spicy takes `s*` and `v*`, Nasty any.
pub open spec fn channel_accepts(c: ReleaseChannel, t: Seq<char>) -> bool {
    match c {
        ReleaseChannel::Mild => t.len() > 0 && t[0] == 'v' && !contains_seq(t, "rc"@)
            && !contains_seq(t, "alpha"@),
        ReleaseChannel::Spicy => t.len() > 0 && (t[0] == 's' || t[0] == 'v'),
        ReleaseChannel::Nasty => true,
    }
}

/// The tag of the first published release the channel follows.
pub open spec fn first_release(c: ReleaseChannel, rs: Seq<GitHubRelease>) -> Option<Seq<char>>
    decreases rs.len(),
{
    if rs.len() == 0 {
        None
    } else if !rs[0].draft && channel_accepts(c, rs[0].tag_name@) {
        Some(rs[0].tag_name@)
    } else {
        first_release(c, rs.drop_first())
    }
}

fn accepts(c: ReleaseChannel, t: &String) -> (r: bool)
    ensures
        r == channel_accepts(c, t@),
{
    let s = chars_of(t.as_str());
    match c {
        ReleaseChannel::Mild => {
            let rc = chars_of("rc");
            let alpha = chars_of("alpha");
            s.len() > 0 && s[0] == 'v' && !contains_chars(&s, &rc) && !contains_chars(&s, &alpha)
        },
        ReleaseChannel::Spicy => s.len() > 0 && (s[0] == 's' || s[0] == 'v'),
        ReleaseChannel::Nasty => true,
    }
}

/// Picks the latest release of a channel from GitHub's list (newest first).
pub fn select_release_tag(channel: ReleaseChannel, releases: &Vec<GitHubRelease>) -> (r: Result<
    String,
    UpdateError,
>)
    ensures
        match first_release(channel, releases@) {
            Some(t) => r is Ok && r->Ok_0@ == t,
            None => command_failed_msg(r) == Some("no matching GitHub release"@),
        },
{
    let n = releases.len();
    let mut i: usize = 0;
    assert(releases@.skip(0) =~= releases@);
    while i < n
        invariant
            n == releases@.len(),
            i <= n,
            first_release(channel, releases@) == first_release(channel, releases@.skip(i as int)),
        decreases n - i,
    {
        assert(releases@.skip(i as int)[0] == releases@[i as int]);
        assert(releases@.skip(i as int).drop_first() =~= releases@.skip(i + 1));
        if !releases[i].draft && accepts(channel, &releases[i].tag_name) {
            return Ok(releases[i].tag_name.clone());
        }
        i = i + 1;
    }
    Err(UpdateError::CommandFailed(String::from_str("no matching GitHub release")))
}

/// How the installed version compares with the latest tagged release.
pub fn tagged_release_status(current: String, latest: String) -> (r: VersionTaggedReleaseStatus)
    ensures
        r.current_url@ == "apt:nasty="@ + current@,
        r.latest_url@ == "github:nasty-project/nasty/"@ + latest@,
        r.latest_tag@ == latest@,
        r.current_is_latest_standard_url == (current@ == latest@ || strip_leading_v(current@)
            == strip_leading_v(latest@)),
{
    let c = chars_of(current.as_str());
    let l = chars_of(latest.as_str());
    let same = seq_eq(&c, &l) || seq_eq(&strip_leading_v_chars(&c), &strip_leading_v_chars(&l));
    let mut latest_url = String::from_str("github:nasty-project/nasty/");
    latest_url.append(latest.as_str());
    let mut current_url = String::from_str("apt:nasty=");
    current_url.append(current.as_str());
    VersionTaggedReleaseStatus {
        current_url,
        latest_tag: latest,
        latest_url,
        current_is_latest_standard_url: same,
    }
}

// ── the update unit ─────────────────────────────────────────────

/// The update unit's state: `running` while `systemctl is-active` says
/// active or activating, else the last attempt's result (`failed`,
/// `success`), else `idle`; `idle` too where systemctl could not be run.
pub open spec fn spec_unit_state(is_active: Option<Seq<char>>, last_attempt: Option<Seq<char>>) -> Seq<
    char,
> {
    match is_active {
        None => "idle"@,
        Some(s) => if trim_seq(s) == "active"@ || trim_seq(s) == "activating"@ {
            "running"@
        } else if last_attempt == Some("failed"@) {
            "failed"@
        } else if last_attempt == Some("success"@) {
            "success"@
        } else {
            "idle"@
        },
    }
}

pub fn unit_state(is_active: Option<&str>, last_attempt: Option<&str>) -> (r: String)
    ensures
        r@ == spec_unit_state(
            crate::dependents::opt_view(is_active),
            crate::dependents::opt_view(last_attempt),
        ),
{
    match is_active {
        None => String::from_str("idle"),
        Some(s) => {
            let c = chars_of(s);
            let t = trim_chars(&c);
            if chars_are(&t, "active") || chars_are(&t, "activating") {
                String::from_str("running")
            } else {
                match last_attempt {
                    Some(a) => if str_eq(a, "failed") {
                        String::from_str("failed")
                    } else if str_eq(a, "success") {
                        String::from_str("success")
                    } else {
                        String::from_str("idle")
                    },
                    None => String::from_str("idle"),
                }
            }
        },
    }
}

/// Refuses to start an update while one runs.
pub fn check_idle(state: &str) -> (r: Result<(), UpdateError>)
    ensures
        r is Ok <==> state@ != "running"@,
        r matches Err(e) ==> e is AlreadyRunning,
{
    if str_eq(state, "running") {
        Err(UpdateError::AlreadyRunning)
    } else {
        Ok(())
    }
}

} // verus!

verus! {

// ── generations ─────────────────────────────────────────────────

/// A generation as plain values: number, date, description, kernel,
/// package version, current, booted, label.
pub open spec fn gen_view(g: Generation) -> (
    u64,
    Seq<char>,
    Seq<char>,
    Seq<char>,
    Option<Seq<char>>,
    bool,
    bool,
    Option<Seq<char>>,
) {
    (
        g.generation,
        g.date@,
        g.nixos_version@,
        g.kernel_version@,
        opt_str(g.nasty_version),
        g.current,
        g.booted,
        opt_str(g.label),
    )
}

pub open spec fn gen_views(gs: Seq<Generation>) -> Seq<
    (u64, Seq<char>, Seq<char>, Seq<char>, Option<Seq<char>>, bool, bool, Option<Seq<char>>),
> {
    gs.map_values(|g: Generation| gen_view(g))
}

/// The stored label of snapshot `n`: the first entry for it.
pub open spec fn label_for(labels: Seq<(u64, String)>, n: u64) -> Option<Seq<char>>
    decreases labels.len(),
{
    if labels.len() == 0 {
        None
    } else if labels[0].0 == n {
        Some(labels[0].1@)
    } else {
        label_for(labels.drop_first(), n)
    }
}

/// The generation a snapshot stands for: labelled by the stored label,
/// else by its own description; described by its description, or the
/// Debian release and snapshot type where it has none.
pub open spec fn spec_generation(
    s: SnapperSnapshot,
    labels: Seq<(u64, String)>,
    debian: Seq<char>,
    kernel: Seq<char>,
    nasty: Option<Seq<char>>,
) -> (u64, Seq<char>, Seq<char>, Seq<char>, Option<Seq<char>>, bool, bool, Option<Seq<char>>) {
    let d = trim_seq(s.description@);
    (
        s.number,
        s.date@,
        if d.len() == 0 {
            debian + seq![' ', '('] + s.snapshot_type@ + seq![')']
        } else {
            s.description@
        },
        kernel,
        nasty,
        s.default || s.active,
        s.active,
        match label_for(labels, s.number) {
            Some(l) => Some(l),
            None => if d.len() == 0 {
                None
            } else {
                Some(d)
            },
        },
    )
}

/// The generations of the listed snapshots (without snapper's synthetic
/// entry 0), in listing order.
pub open spec fn listed_generations(
    snaps: Seq<SnapperSnapshot>,
    labels: Seq<(u64, String)>,
    debian: Seq<char>,
    kernel: Seq<char>,
    nasty: Option<Seq<char>>,
) -> Seq<(u64, Seq<char>, Seq<char>, Seq<char>, Option<Seq<char>>, bool, bool, Option<Seq<char>>)>
    decreases snaps.len(),
{
    if snaps.len() == 0 {
        Seq::empty()
    } else {
        let rest = listed_generations(snaps.drop_last(), labels, debian, kernel, nasty);
        if snaps.last().number == 0 {
            rest
        } else {
            rest.push(spec_generation(snaps.last(), labels, debian, kernel, nasty))
        }
    }
}

/// The listed generations, stably sorted by number.
pub open spec fn spec_generations(
    snaps: Seq<SnapperSnapshot>,
    labels: Seq<(u64, String)>,
    debian: Seq<char>,
    kernel: Seq<char>,
    nasty: Option<Seq<char>>,
) -> Seq<(u64, Seq<char>, Seq<char>, Seq<char>, Option<Seq<char>>, bool, bool, Option<Seq<char>>)> {
    let l = listed_generations(snaps, labels, debian, kernel, nasty);
    let o = num_stable_order(l.map_values(|g: (u64, Seq<char>, Seq<char>, Seq<char>, Option<Seq<char>>, bool, bool, Option<Seq<char>>)| g.0));
    Seq::new(o.len(), |k: int| l[o[k]])
}

fn find_label(labels: &Vec<(u64, String)>, n: u64) -> (r: Option<String>)
    ensures
        opt_str(r) == label_for(labels@, n),
{
    let m = labels.len();
    let mut i: usize = 0;
    assert(labels@.skip(0) =~= labels@);
    while i < m
        invariant
            m == labels@.len(),
            i <= m,
            label_for(labels@, n) == label_for(labels@.skip(i as int), n),
        decreases m - i,
    {
        assert(labels@.skip(i as int)[0] == labels@[i as int]);
        assert(labels@.skip(i as int).drop_first() =~= labels@.skip(i + 1));
        if labels[i].0 == n {
            return Some(labels[i].1.clone());
        }
        i = i + 1;
    }
    None
}

fn clone_opt(o: &Option<String>) -> (r: Option<String>)
    ensures
        opt_str(r) == opt_str(*o),
{
    match o {
        Some(s) => Some(s.clone()),
        None => None,
    }
}

fn generation_of(
    s: &SnapperSnapshot,
    labels: &Vec<(u64, String)>,
    debian: &str,
    kernel: &str,
    nasty: &Option<String>,
) -> (r: Generation)
    ensures
        gen_view(r) == spec_generation(*s, labels@, debian@, kernel@, opt_str(*nasty)),
{
    let dc = chars_of(s.description.as_str());
    let d = trim_chars(&dc);
    let desc = if d.len() == 0 {
        let mut x = String::from_str(debian);
        x.push(' ');
        x.push('(');
        x.append(s.snapshot_type.as_str());
        x.push(')');
        x
    } else {
        s.description.clone()
    };
    let label = match find_label(labels, s.number) {
        Some(l) => Some(l),
        None => if d.len() == 0 {
            None
        } else {
            Some(string_of(&d))
        },
    };
    Generation {
        generation: s.number,
        date: s.date.clone(),
        nixos_version: desc,
        kernel_version: String::from_str(kernel),
        nasty_version: clone_opt(nasty),
        current: s.default || s.active,
        booted: s.active,
        label,
    }
}

fn clone_generation(g: &Generation) -> (r: Generation)
    ensures
        gen_view(r) == gen_view(*g),
{
    Generation {
        generation: g.generation,
        date: g.date.clone(),
        nixos_version: g.nixos_version.clone(),
        kernel_version: g.kernel_version.clone(),
        nasty_version: clone_opt(&g.nasty_version),
        current: g.current,
        booted: g.booted,
        label: clone_opt(&g.label),
    }
}

/// The generations of a snapshot listing, sorted by number. `labels` are
/// the stored labels (one per number), `debian` the Debian release,
/// `kernel` the running kernel and `nasty` the installed package version.
pub fn generations_from(
    snaps: &Vec<SnapperSnapshot>,
    labels: &Vec<(u64, String)>,
    debian: &str,
    kernel: &str,
    nasty: &Option<String>,
) -> (r: Vec<Generation>)
    ensures
        gen_views(r@) == spec_generations(snaps@, labels@, debian@, kernel@, opt_str(*nasty)),
{
    let ghost nv = opt_str(*nasty);
    let mut listed: Vec<Generation> = Vec::new();
    let n = snaps.len();
    for i in 0..n
        invariant
            n == snaps@.len(),
            nv == opt_str(*nasty),
            gen_views(listed@) == listed_generations(
                snaps@.take(i as int),
                labels@,
                debian@,
                kernel@,
                nv,
            ),
    {
        assert(snaps@.take(i + 1).drop_last() =~= snaps@.take(i as int));
        assert(snaps@.take(i + 1).last() == snaps@[i as int]);
        if snaps[i].number != 0 {
            let ghost before = listed@;
            let g = generation_of(&snaps[i], labels, debian, kernel, nasty);
            let ghost gv = gen_view(g);
            listed.push(g);
            assert(gen_views(listed@) =~= gen_views(before).push(gv));
        }
    }
    assert(snaps@.take(n as int) =~= snaps@);
    let ghost l = gen_views(listed@);
    let mut keys: Vec<u64> = Vec::new();
    let m = listed.len();
    for k in 0..m
        invariant
            m == listed@.len(),
            l == gen_views(listed@),
            keys@ == l.map_values(|g: (u64, Seq<char>, Seq<char>, Seq<char>, Option<Seq<char>>, bool, bool, Option<Seq<char>>)| g.0).take(k as int),
    {
        keys.push(listed[k].generation);
        assert(keys@ =~= l.map_values(|g: (u64, Seq<char>, Seq<char>, Seq<char>, Option<Seq<char>>, bool, bool, Option<Seq<char>>)| g.0).take(k + 1));
    }
    let ghost ks = l.map_values(|g: (u64, Seq<char>, Seq<char>, Seq<char>, Option<Seq<char>>, bool, bool, Option<Seq<char>>)| g.0);
    assert(keys@ =~= ks);
    let order = sorted_indices_by_number(&keys);
    let ghost o = num_stable_order(ks);
    proof {
        lemma_num_stable_order_indices(ks);
    }
    let mut out: Vec<Generation> = Vec::new();
    for k in 0..m
        invariant
            m == listed@.len(),
            l == gen_views(listed@),
            ks.len() == m,
            o == num_stable_order(ks),
            order@.map_values(|x: usize| x as int) == o,
            o.len() == m,
            forall|j: int| 0 <= j < m ==> 0 <= #[trigger] o[j] < m,
            out@.len() == k,
            forall|j: int| 0 <= j < k ==> gen_view(#[trigger] out@[j]) == l[o[j]],
    {
        assert(o[k as int] == order@[k as int] as int);
        let g = clone_generation(&listed[order[k]]);
        out.push(g);
    }
    assert(gen_views(out@) =~= Seq::new(o.len(), |k: int| l[o[k]]));
    out
}

/// The largest number among generations that are not current (and, where
/// `skip_booted`, not booted either).
pub open spec fn max_generation(gs: Seq<Generation>, skip_booted: bool) -> Option<u64>
    decreases gs.len(),
{
    if gs.len() == 0 {
        None
    } else {
        let rest = max_generation(gs.drop_last(), skip_booted);
        let g = gs.last();
        if !g.current && !(skip_booted && g.booted) {
            match rest {
                Some(m) => Some(if g.generation >= m {
                    g.generation
                } else {
                    m
                }),
                None => Some(g.generation),
            }
        } else {
            rest
        }
    }
}

/// The snapshot a rollback goes to: the newest that is neither current nor
/// booted, else the newest that is not current.
pub open spec fn spec_rollback_target(gs: Seq<Generation>) -> Option<u64> {
    match max_generation(gs, true) {
        Some(m) => Some(m),
        None => max_generation(gs, false),
    }
}

fn max_gen(gens: &Vec<Generation>, skip_booted: bool) -> (r: Option<u64>)
    ensures
        r == max_generation(gens@, skip_booted),
{
    let mut best: Option<u64> = None;
    let n = gens.len();
    for i in 0..n
        invariant
            n == gens@.len(),
            best == max_generation(gens@.take(i as int), skip_booted),
    {
        assert(gens@.take(i + 1).drop_last() =~= gens@.take(i as int));
        assert(gens@.take(i + 1).last() == gens@[i as int]);
        let g = &gens[i];
        if !g.current && !(skip_booted && g.booted) {
            best = match best {
                Some(m) => Some(if g.generation >= m {
                    g.generation
                } else {
                    m
                }),
                None => Some(g.generation),
            };
        }
    }
    assert(gens@.take(n as int) =~= gens@);
    best
}

/// The snapshot to roll back to, or the error where there is none.
pub fn rollback_target(gens: &Vec<Generation>) -> (r: Result<u64, UpdateError>)
    ensures
        match spec_rollback_target(gens@) {
            Some(t) => r == Ok::<u64, UpdateError>(t),
            None => command_failed_msg(r) == Some(
                "no snapper snapshot available to roll back to"@,
            ),
        },
{
    let t = match max_gen(gens, true) {
        Some(m) => Some(m),
        None => max_gen(gens, false),
    };
    match t {
        Some(g) => Ok(g),
        None => Err(
            UpdateError::CommandFailed(
                String::from_str("no snapper snapshot available to roll back to"),
            ),
        ),
    }
}

/// The script the update unit runs to upgrade the packages with apt.
pub const APT_UPGRADE_SCRIPT: &'static str = "#!/bin/bash\nset -euo pipefail\nLOG=/var/lib/nasty/update.log\nmkdir -p /var/lib/nasty\nexec > >(tee -a \"$LOG\") 2>&1\necho \"==> Starting apt upgrade ($(date -Is))\"\necho \"failed\" > /var/lib/nasty/last-upgrade-attempt\nWEBUI_BEFORE=$(dpkg-query -W -f='${Version}' nasty-webui 2>/dev/null || true)\n\nif command -v snapper >/dev/null 2>&1; then\n  if snapper -c root get-config >/dev/null 2>&1; then\n    echo \"==> Creating snapper pre-snapshot\"\n    snapper -c root create --type pre --cleanup-algorithm number \\\n      --description \"nasty apt upgrade\" --userdata \"nasty=upgrade\" || true\n  else\n    echo \"==> snapper config 'root' missing; skipping explicit pre-snapshot\"\n    echo \"    (install snapper and run: snapper -c root create-config /)\"\n  fi\nelse\n  echo \"==> snapper not installed; continuing without snapshots\"\nfi\n\nexport DEBIAN_FRONTEND=noninteractive\necho \"==> apt-get update\"\napt-get update -y\necho \"==> apt-get upgrade\"\napt-get -y -o Dpkg::Options::=--force-confdef -o Dpkg::Options::=--force-confold \\\n  upgrade --with-new-pkgs\n# Prefer upgrading our packages even if held back from a full upgrade path.\napt-get -y -o Dpkg::Options::=--force-confdef -o Dpkg::Options::=--force-confold \\\n  install --only-upgrade nasty nasty-engine nasty-webui || true\n\nWEBUI_AFTER=$(dpkg-query -W -f='${Version}' nasty-webui 2>/dev/null || true)\nif [ -n \"$WEBUI_BEFORE\" ] && [ -n \"$WEBUI_AFTER\" ] && [ \"$WEBUI_BEFORE\" != \"$WEBUI_AFTER\" ]; then\n  touch /var/lib/nasty/update-webui-changed\nfi\n\n# Persist package version for the Version page.\nVER=$(dpkg-query -W -f='${Version}' nasty 2>/dev/null \\\n  || dpkg-query -W -f='${Version}' nasty-engine 2>/dev/null \\\n  || true)\nif [ -n \"${VER:-}\" ]; then\n  printf '%s\\n' \"$VER\" > /var/lib/nasty/version\n  printf '%s\\n' \"$VER\" > /etc/nasty-version\nfi\n\necho \"success\" > /var/lib/nasty/last-upgrade-attempt\necho \"==> Upgrade finished ($(date -Is))\"\n";

pub const SWITCH_P0: &'static str = "#!/bin/bash\nset -euo pipefail\nLOG=/var/lib/nasty/update.log\nmkdir -p /var/lib/nasty\nexec > >(tee -a \"$LOG\") 2>&1\necho \"==> Switching to generation ";

pub const SWITCH_P1: &'static str = "\"\necho \"failed\" > /var/lib/nasty/last-upgrade-attempt\necho \"==> Activating generation ";

pub const SWITCH_P2: &'static str = " via snapper rollback\"\nsnapper -c root --ambit classic rollback ";

pub const SWITCH_P3: &'static str = "\necho \"success\" > /var/lib/nasty/last-upgrade-attempt\necho \"==> Switch to generation ";

pub const SWITCH_P4: &'static str = " complete — reboot required\"\n";

pub open spec fn spec_switch_script(gen_id: u64) -> Seq<char> {
    let d = decimal(gen_id as nat);
    SWITCH_P0@ + d + SWITCH_P1@ + d + SWITCH_P2@ + d + SWITCH_P3@ + d + SWITCH_P4@
}

/// The script that rolls the system back to snapshot `gen_id`.
pub fn switch_generation_script(gen_id: u64) -> (r: String)
    ensures
        r@ == spec_switch_script(gen_id),
{
    let mut s = String::new();
    push_lit(&mut s, SWITCH_P0);
    push_decimal(&mut s, gen_id);
    push_lit(&mut s, SWITCH_P1);
    push_decimal(&mut s, gen_id);
    push_lit(&mut s, SWITCH_P2);
    push_decimal(&mut s, gen_id);
    push_lit(&mut s, SWITCH_P3);
    push_decimal(&mut s, gen_id);
    push_lit(&mut s, SWITCH_P4);
    s
}

/// The label stored for a generation: the trimmed label, or none (the
/// label is removed) where it is missing or blank.
pub fn normalized_label(label: Option<String>) -> (r: Option<String>)
    ensures
        opt_str(r) == match label {
            Some(l) => spec_nonempty_trimmed(l@),
            None => None,
        },
{
    match label {
        Some(l) => nonempty_trimmed(l.as_str()),
        None => None,
    }
}

/// What `serde_json` reads from a text as a map from generation numbers to
/// labels, or `None` where the text is no such map.
pub uninterp spec fn json_generation_labels(raw: Seq<char>) -> Option<Map<u64, Seq<char>>>;

/// A map of labels as plain values.
pub open spec fn labels_view(m: HashMap<u64, String>) -> Map<u64, Seq<char>> {
    m@.map_values(|s: String| s@)
}

/// Parses `raw` with `serde_json::from_str` as a `HashMap<u64, String>`,
/// a parse error becoming `None`. The contract claims only that the result
/// is `json_generation_labels` of the text.
#[verifier::external_body]
fn parse_generation_labels(raw: &str) -> (r: Option<HashMap<u64, String>>)
    ensures
        match r {
            Some(m) => json_generation_labels(raw@) == Some(labels_view(m)),
            None => json_generation_labels(raw@) is None,
        },
{
    serde_json::from_str::<HashMap<u64, String>>(raw).ok()
}

/// The stored labels from the parse of their file: the map, or no labels
/// where the file could not be parsed.
pub fn labels_or_empty(parsed: Option<HashMap<u64, String>>) -> (r: HashMap<u64, String>)
    ensures
        labels_view(r) == match parsed {
            Some(m) => labels_view(m),
            None => Map::<u64, Seq<char>>::empty(),
        },
{
    match parsed {
        Some(m) => m,
        None => {
            let m: HashMap<u64, String> = HashMap::new();
            assert(labels_view(m) =~= Map::<u64, Seq<char>>::empty());
            m
        },
    }
}

/// The stored generation labels from their file's text (`None` where it
/// could not be read): no labels where the text is missing or is not a map
/// from numbers to labels.
pub fn generation_labels_from(content: Option<&str>) -> (r: HashMap<u64, String>)
    ensures
        labels_view(r) == match content {
            Some(raw) => match json_generation_labels(raw@) {
                Some(m) => m,
                None => Map::<u64, Seq<char>>::empty(),
            },
            None => Map::<u64, Seq<char>>::empty(),
        },
{
    match content {
        Some(raw) => labels_or_empty(parse_generation_labels(raw)),
        None => labels_or_empty(None),
    }
}

/// Whether apt would upgrade a package: both its installed and its
/// candidate version are known and they differ once normalized.
pub fn upgrade_pending(installed: Option<&str>, candidate: Option<&str>) -> (r: bool)
    ensures
        r == (installed is Some && candidate is Some && spec_normalize_ver(installed.unwrap()@)
            != spec_normalize_ver(candidate.unwrap()@)),
{
    match (installed, candidate) {
        (Some(i), Some(c)) => {
            let a = normalize_ver(i);
            let b = normalize_ver(c);
            !str_eq(a.as_str(), b.as_str())
        },
        _ => false,
    }
}

/// The date of a snapper snapshot: its own date as text (a string, or a
/// number written out), else the `date` of its user data, else empty.
pub fn snapshot_date(date_text: Option<String>, userdata_date: Option<String>) -> (r: String)
    ensures
        r@ == match date_text {
            Some(d) => d@,
            None => match userdata_date {
                Some(u) => u@,
                None => Seq::<char>::empty(),
            },
        },
{
    match date_text {
        Some(d) => d,
        None => match userdata_date {
            Some(u) => u,
            None => String::new(),
        },
    }
}

pub open spec fn input_view(i: VersionInputInfo) -> (Seq<char>, Seq<char>, Option<Seq<char>>, Option<Seq<char>>) {
    (i.name@, i.url@, opt_str(i.rev), opt_str(i.tag))
}

fn version_input(name: &str, url: &str, version: &String) -> (r: VersionInputInfo)
    ensures
        input_view(r) == (name@, url@, Some(version@), Some(version@)),
{
    VersionInputInfo {
        name: String::from_str(name),
        url: String::from_str(url),
        rev: Some(version.clone()),
        tag: Some(version.clone()),
    }
}

/// The version inputs reported: the nasty package, Debian and the kernel,
/// each with its version as revision and tag (`unknown` where it could not
/// be read).
pub fn version_info_from(nasty: Option<String>, debian: Option<String>, kernel: String) -> (r:
    VersionInfo)
    ensures
        r.inputs@.len() == 3,
        input_view(r.inputs@[0]) == ("nasty"@, "apt:nasty"@, Some(
            match nasty {
                Some(n) => n@,
                None => "unknown"@,
            },
        ), Some(
            match nasty {
                Some(n) => n@,
                None => "unknown"@,
            },
        )),
        input_view(r.inputs@[1]) == ("debian"@, "apt:debian"@, Some(
            match debian {
                Some(d) => d@,
                None => "unknown"@,
            },
        ), Some(
            match debian {
                Some(d) => d@,
                None => "unknown"@,
            },
        )),
        input_view(r.inputs@[2]) == ("kernel"@, "uname -r"@, Some(kernel@), Some(kernel@)),
{
    let n = match nasty {
        Some(n) => n,
        None => String::from_str("unknown"),
    };
    let d = match debian {
        Some(d) => d,
        None => String::from_str("unknown"),
    };
    let a = version_input("nasty", "apt:nasty", &n);
    let b = version_input("debian", "apt:debian", &d);
    let c = version_input("kernel", "uname -r", &kernel);
    let ghost (av, bv, cv) = (input_view(a), input_view(b), input_view(c));
    let inputs = vec![a, b, c];
    assert(input_view(inputs@[0]) == av);
    assert(input_view(inputs@[1]) == bv);
    assert(input_view(inputs@[2]) == cv);
    VersionInfo { inputs }
}

// ── what Debian builds do not offer ─────────────────────────────

/// Debian builds pin no bcachefs flake input.
pub fn embedded_default_bcachefs_tools_ref() -> (r: Result<String, UpdateError>)
    ensures
        command_failed_msg(r) == Some("bcachefs flake pin is not available on Debian builds"@),
{
    Err(
        UpdateError::CommandFailed(
            String::from_str("bcachefs flake pin is not available on Debian builds"),
        ),
    )
}

/// Debian builds bootstrap no system flake.
pub fn bootstrap_system_flake_from_template_path(
    template_path: &str,
    dest_dir: &str,
    nasty_version: &str,
    local_system: &str,
) -> (r: Result<BootstrapSystemFlakeResult, UpdateError>)
    ensures
        command_failed_msg(r) == Some(
            "NixOS system-flake bootstrap is not available on Debian; use the nasty .deb packages"@,
        ),
{
    Err(
        UpdateError::CommandFailed(
            String::from_str(
                "NixOS system-flake bootstrap is not available on Debian; use the nasty .deb packages",
            ),
        ),
    )
}

pub fn bootstrap_system_flake_from_template(
    template: &str,
    dest_dir: &str,
    nasty_version: &str,
    local_system: &str,
) -> (r: Result<BootstrapSystemFlakeResult, UpdateError>)
    ensures
        command_failed_msg(r) == Some(
            "NixOS system-flake bootstrap is not available on Debian; use the nasty .deb packages"@,
        ),
{
    bootstrap_system_flake_from_template_path("", "", "", "")
}

/// Debian builds spill no Nix builds onto pools.
pub fn list_bcachefs_pool_mounts() -> (r: Vec<String>)
    ensures
        r@.len() == 0,
{
    Vec::new()
}

/// Debian builds have no flake lock to read a bcachefs pin from.
pub fn read_flake_lock_bcachefs_pub() -> (r: (Option<String>, Option<String>))
    ensures
        r.0 is None && r.1 is None,
{
    (None, None)
}

impl UpdateService {
    /// Switching flake inputs is not available on Debian.
    pub fn version_switch(&self, req: VersionSwitchRequest) -> (r: Result<(), UpdateError>)
        ensures
            command_failed_msg(r) == Some(
                "flake input switching is not available on Debian; install/upgrade .deb packages via apt"@,
            ),
    {
        Err(
            UpdateError::CommandFailed(
                String::from_str(
                    "flake input switching is not available on Debian; install/upgrade .deb packages via apt",
                ),
            ),
        )
    }
}

// ── laws ────────────────────────────────────────────────────────

/// A channel's name parses back to the channel.
pub proof fn law_channel_roundtrip(c: ReleaseChannel)
    ensures
        spec_parse_channel(channel_name(c)) == Some(c),
{
    reveal_strlit("mild");
    reveal_strlit("spicy");
    reveal_strlit("nasty");
    let s = channel_name(c);
    lemma_channel_name_trimmed(s);
    assert(lower_seq(s) =~= s);
    match c {
        ReleaseChannel::Mild => {},
        ReleaseChannel::Spicy => {
            assert("spicy"@.len() != "mild"@.len());
        },
        ReleaseChannel::Nasty => {
            assert("nasty"@[0] != "mild"@[0]);
            assert("nasty"@[0] != "spicy"@[0]);
        },
    }
}

/// Channel names have no surrounding white space to trim.
proof fn lemma_channel_name_trimmed(s: Seq<char>)
    requires
        s == "mild"@ || s == "spicy"@ || s == "nasty"@,
    ensures
        trim_seq(s) == s,
{
    reveal_strlit("mild");
    reveal_strlit("spicy");
    reveal_strlit("nasty");
    assert(!crate::text::is_whitespace(s[0]));
    assert(crate::scan::trim_start_seq(s) == s);
    assert(!crate::text::is_whitespace(s.last()));
}

/// A rollback never targets the current generation.
pub proof fn law_rollback_avoids_current(gs: Seq<Generation>)
    requires
        spec_rollback_target(gs) is Some,
    ensures
        exists|i: int|
            0 <= i < gs.len() && !gs[i].current && gs[i].generation == spec_rollback_target(
                gs,
            ).unwrap(),
{
    if max_generation(gs, true) is Some {
        lemma_max_generation_witness(gs, true);
    } else {
        lemma_max_generation_witness(gs, false);
    }
}

proof fn lemma_max_generation_witness(gs: Seq<Generation>, skip_booted: bool)
    requires
        max_generation(gs, skip_booted) is Some,
    ensures
        exists|i: int|
            0 <= i < gs.len() && !gs[i].current && gs[i].generation == max_generation(
                gs,
                skip_booted,
            ).unwrap(),
    decreases gs.len(),
{
    let rest = max_generation(gs.drop_last(), skip_booted);
    let g = gs.last();
    let eligible = !g.current && !(skip_booted && g.booted);
    if eligible && (rest is None || g.generation >= rest.unwrap()) {
        assert(gs[gs.len() - 1] == g);
    } else {
        lemma_max_generation_witness(gs.drop_last(), skip_booted);
        let i = choose|i: int|
            0 <= i < gs.drop_last().len() && !gs.drop_last()[i].current
                && gs.drop_last()[i].generation == rest.unwrap();
        assert(gs[i] == gs.drop_last()[i]);
    }
}

/// `trim_start_seq` leaves no white space in front.
proof fn lemma_trim_start_edge(s: Seq<char>)
    ensures
        trim_start_seq(s).len() > 0 ==> !is_whitespace(trim_start_seq(s)[0]),
    decreases s.len(),
{
    if s.len() > 0 && is_whitespace(s[0]) {
        lemma_trim_start_edge(s.drop_first());
    }
}

/// `trim_end_seq` keeps a prefix and leaves no white space at the end.
proof fn lemma_trim_end_edge(s: Seq<char>)
    ensures
        trim_end_seq(s).len() <= s.len(),
        trim_end_seq(s) =~= s.take(trim_end_seq(s).len() as int),
        trim_end_seq(s).len() > 0 ==> !is_whitespace(trim_end_seq(s).last()),
    decreases s.len(),
{
    if s.len() > 0 && is_whitespace(s.last()) {
        lemma_trim_end_edge(s.drop_last());
        let t = trim_end_seq(s.drop_last());
        assert(s.drop_last().take(t.len() as int) =~= s.take(t.len() as int));
    }
}

/// Trimmed text has no white space at either end, ASCII lowercasing keeps
/// that, and neither trimming nor lowercasing it again changes it.
proof fn lemma_trimmed_lower_is_stable(s: Seq<char>)
    ensures
        trim_seq(lower_seq(trim_seq(s))) == lower_seq(trim_seq(s)),
        lower_seq(lower_seq(trim_seq(s))) == lower_seq(trim_seq(s)),
{
    let u = trim_start_seq(s);
    let t = trim_seq(s);
    lemma_trim_start_edge(s);
    lemma_trim_end_edge(u);
    let l = lower_seq(t);
    if t.len() > 0 {
        assert(t[0] == u[0]);
        assert(!is_whitespace(l[0]));
        assert(!is_whitespace(l.last()));
    }
    assert(trim_start_seq(l) == l);
    assert(trim_end_seq(l) == l);
    assert(lower_seq(l) =~= l);
}

/// `parse` reads only the text trimmed and ASCII-lowercased: parsing that
/// text gives the same channel, and a text names a channel exactly when,
/// trimmed and lowercased, it is `mild`, `spicy` or `nasty`.
pub proof fn law_parse_ignores_case_and_surrounding_space(s: Seq<char>)
    ensures
        spec_parse_channel(s) == spec_parse_channel(lower_seq(trim_seq(s))),
        spec_parse_channel(s) is Some <==> (lower_seq(trim_seq(s)) == "mild"@ || lower_seq(
            trim_seq(s),
        ) == "spicy"@ || lower_seq(trim_seq(s)) == "nasty"@),
{
    lemma_trimmed_lower_is_stable(s);
}

/// No stretch of `t` spells `p`.
pub open spec fn nowhere_in(t: Seq<char>, p: Seq<char>) -> bool {
    forall|i: int| 0 <= i && i + p.len() <= t.len() ==> #[trigger] t.subrange(i, i + p.len()) != p
}

/// A tag the Mild channel may offer: it starts with `v` and holds neither
/// `rc` nor `alpha` anywhere.
pub open spec fn plain_release_tag(t: Seq<char>) -> bool {
    &&& t.len() > 0
    &&& t[0] == 'v'
    &&& nowhere_in(t, "rc"@)
    &&& nowhere_in(t, "alpha"@)
}

proof fn lemma_absent_at_every_position(t: Seq<char>, p: Seq<char>)
    ensures
        !contains_seq(t, p) <==> nowhere_in(t, p),
{
    if contains_seq(t, p) {
        let i = choose|i: int| crate::scan::occurs_at(t, p, i);
        assert(t.subrange(i, i + p.len()) == p);
    }
    if !nowhere_in(t, p) {
        let i = choose|i: int| !(0 <= i && i + p.len() <= t.len() ==> #[trigger] t.subrange(i, i + p.len()) != p);
        assert(crate::scan::occurs_at(t, p, i));
    }
}

proof fn lemma_mild_accepts_plain_tags(t: Seq<char>)
    ensures
        channel_accepts(ReleaseChannel::Mild, t) == plain_release_tag(t),
{
    lemma_absent_at_every_position(t, "rc"@);
    lemma_absent_at_every_position(t, "alpha"@);
}

/// The Mild channel offers the first published release whose tag starts
/// with `v` and holds neither `rc` nor `alpha`, and no release when there
/// is none such; the Spicy channel only offers tags that start with `s` or
/// `v`.
pub proof fn law_channels_offer_only_their_releases(rs: Seq<GitHubRelease>)
    ensures
        first_release(ReleaseChannel::Mild, rs) matches Some(t) ==> plain_release_tag(t) && exists|i: int|
            0 <= i < rs.len() && (#[trigger] rs[i]).tag_name@ == t && !rs[i].draft && forall|k: int|
                0 <= k < i ==> (#[trigger] rs[k]).draft || !plain_release_tag(rs[k].tag_name@),
        first_release(ReleaseChannel::Mild, rs) is None ==> forall|i: int|
            0 <= i < rs.len() ==> (#[trigger] rs[i]).draft || !plain_release_tag(rs[i].tag_name@),
        first_release(ReleaseChannel::Spicy, rs) matches Some(t) ==> t.len() > 0 && (t[0] == 's'
            || t[0] == 'v'),
    decreases rs.len(),
{
    if rs.len() > 0 {
        let rest = rs.drop_first();
        law_channels_offer_only_their_releases(rest);
        lemma_mild_accepts_plain_tags(rs[0].tag_name@);
        assert forall|k: int| 0 <= k < rest.len() implies rest[k] == rs[k + 1] by {}
        if !(!rs[0].draft && channel_accepts(ReleaseChannel::Mild, rs[0].tag_name@)) {
            if let Some(t) = first_release(ReleaseChannel::Mild, rs) {
                let j = choose|j: int|
                    0 <= j < rest.len() && (#[trigger] rest[j]).tag_name@ == t && !rest[j].draft
                        && forall|k: int|
                        0 <= k < j ==> (#[trigger] rest[k]).draft || !plain_release_tag(
                            rest[k].tag_name@,
                        );
                assert(rs[j + 1] == rest[j]);
                assert forall|k: int| 0 <= k < j + 1 implies (#[trigger] rs[k]).draft
                    || !plain_release_tag(rs[k].tag_name@) by {
                    if k > 0 {
                        assert(rs[k] == rest[k - 1]);
                    }
                }
            } else {
                assert forall|i: int| 0 <= i < rs.len() implies (#[trigger] rs[i]).draft
                    || !plain_release_tag(rs[i].tag_name@) by {
                    if i > 0 {
                        assert(rs[i] == rest[i - 1]);
                    }
                }
            }
        } else {
            assert(rs[0].tag_name@ == rs[0].tag_name@);
        }
    }
}

} // verus!
