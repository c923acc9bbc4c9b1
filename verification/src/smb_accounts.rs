//! Local SMB accounts and groups: name rules, the register of ksmbd users,
//! the reading of `id`, `getent` and `/etc/group` output, and the checks
//! that decide whether a portal principal may be authorized.
use vstd::prelude::*;

use crate::scan::{
    contains_chars, contains_seq, lines_of, lines_seq, parse_u32, spec_parse_u32, split_once_chars,
    split_once_seq, tokens, tokens_of, trim_chars, trim_seq, ws_tokens, ws_tokens_of,
};
use crate::smb::{error_of, string_views, SmbError, SmbErrorKind};
use crate::sorting::{all_keys, sorted_indices, stable_order};
use crate::text::{
    char_is_ascii_alnum, chars_of, eq_ignore_ascii_case, eq_ignore_case, is_ascii_alnum,
    lower_chars, lower_seq, seq_contains_char, seq_eq, string_of, utf8_len, utf8_len_exceeds,
};

verus! {

/// Lowest UID and GID handed to SMB accounts; a thousand follow.
pub const SMB_ID_MIN: u32 = 3000;

/// Most groups a portal principal may carry.
pub const MAX_PRINCIPAL_GROUPS: usize = 128;

/// An SMB user as listed.
pub struct SmbUser {
    /// Linux username.
    pub username: String,
    pub uid: u32,
}

pub struct CreateSmbUserRequest {
    /// Alphanumeric, `-` and `_`, 1–32 characters.
    pub username: String,
    /// Password for SMB authentication.
    pub password: String,
}

/// An SMB group as listed.
pub struct SmbGroup {
    /// Linux group name.
    pub name: String,
    pub gid: u32,
    /// Member usernames.
    pub members: Vec<String>,
}

/// Current NSS view of a portal user's identity.
pub struct PrincipalAuthorization {
    pub principal: String,
    pub groups: Vec<String>,
}

// ── account names ───────────────────────────────────────────────

pub open spec fn plain_name_char(c: char) -> bool {
    is_ascii_alnum(c) || c == '-' || c == '_'
}

/// Why a trimmed user (or group) name is refused, if it is.
pub open spec fn spec_account_name_error(t: Seq<char>, group: bool) -> Option<Seq<char>> {
    if t.len() == 0 || utf8_len(t) > 32 {
        Some(
            if group {
                "group name must be 1-32 characters"@
            } else {
                "username must be 1-32 characters"@
            },
        )
    } else if exists|i: int| 0 <= i < t.len() && !plain_name_char(#[trigger] t[i]) {
        Some(
            if group {
                "group name must be alphanumeric, hyphens, or underscores"@
            } else {
                "username must be alphanumeric, hyphens, or underscores"@
            },
        )
    } else {
        None
    }
}

fn account_name(raw: &str, group: bool) -> (r: Result<String, SmbError>)
    ensures
        match spec_account_name_error(trim_seq(raw@), group) {
            Some(m) => error_of(r) == Some((SmbErrorKind::InvalidName, m)),
            None => r is Ok && r->Ok_0@ == trim_seq(raw@),
        },
{
    let c = chars_of(raw);
    let t = trim_chars(&c);
    if t.len() == 0 || utf8_len_exceeds(&t, 32) {
        let m = if group {
            String::from_str("group name must be 1-32 characters")
        } else {
            String::from_str("username must be 1-32 characters")
        };
        return Err(SmbError::InvalidName(m));
    }
    let n = t.len();
    for i in 0..n
        invariant
            n == t@.len(),
            t@ == trim_seq(raw@),
            n > 0,
            utf8_len(t@) <= 32,
            forall|j: int| 0 <= j < i ==> plain_name_char(#[trigger] t@[j]),
    {
        let ch = t[i];
        if !(char_is_ascii_alnum(ch) || ch == '-' || ch == '_') {
            assert(!plain_name_char(t@[i as int]));
            let m = if group {
                String::from_str("group name must be alphanumeric, hyphens, or underscores")
            } else {
                String::from_str("username must be alphanumeric, hyphens, or underscores")
            };
            return Err(SmbError::InvalidName(m));
        }
    }
    Ok(string_of(&t))
}

/// The name a new SMB user gets: the request's name, trimmed, 1–32 bytes of
/// letters, digits, `-` and `_`.
pub fn validate_user_name(raw: &str) -> (r: Result<String, SmbError>)
    ensures
        match spec_account_name_error(trim_seq(raw@), false) {
            Some(m) => error_of(r) == Some((SmbErrorKind::InvalidName, m)),
            None => r is Ok && r->Ok_0@ == trim_seq(raw@),
        },
{
    account_name(raw, false)
}

/// The name a new SMB group gets, under the same rules as user names.
pub fn validate_group_name(raw: &str) -> (r: Result<String, SmbError>)
    ensures
        match spec_account_name_error(trim_seq(raw@), true) {
            Some(m) => error_of(r) == Some((SmbErrorKind::InvalidName, m)),
            None => r is Ok && r->Ok_0@ == trim_seq(raw@),
        },
{
    account_name(raw, true)
}

// ── the register of ksmbd users ─────────────────────────────────

pub open spec fn name_keys(ns: Seq<Seq<char>>) -> Seq<Seq<Seq<char>>> {
    ns.map_values(|n: Seq<char>| seq![n])
}

/// `ns` sorted (stably) in string order.
pub open spec fn sorted_names(ns: Seq<Seq<char>>) -> Seq<Seq<char>> {
    let o = stable_order(name_keys(ns));
    Seq::new(o.len(), |k: int| ns[o[k]])
}

/// The register after `name` is added: unchanged where it is listed
/// already, else with `name` and sorted.
pub open spec fn spec_registered(users: Seq<Seq<char>>, name: Seq<char>) -> Seq<Seq<char>> {
    if users.contains(name) {
        users
    } else {
        sorted_names(users.push(name))
    }
}

fn sorted_strings(v: Vec<String>) -> (r: Vec<String>)
    ensures
        string_views(r@) == sorted_names(string_views(v@)),
{
    let mut keys: Vec<Vec<Vec<char>>> = Vec::new();
    let n = v.len();
    for i in 0..n
        invariant
            n == v@.len(),
            keys@.len() == i,
            forall|j: int|
                0 <= j < i ==> (#[trigger] all_keys(keys@)[j]) == name_keys(string_views(v@))[j],
    {
        let k = vec![chars_of(v[i].as_str())];
        assert(all_keys(keys@.push(k))[i as int] =~= name_keys(string_views(v@))[i as int]);
        let ghost before = keys@;
        keys.push(k);
        assert forall|j: int| 0 <= j < i + 1 implies (#[trigger] all_keys(keys@)[j]) == name_keys(
            string_views(v@),
        )[j] by {
            if j < i {
                assert(all_keys(keys@)[j] == all_keys(before)[j]);
            }
        }
    }
    assert(all_keys(keys@) =~= name_keys(string_views(v@)));
    let order = sorted_indices(&keys);
    let ghost o = stable_order(name_keys(string_views(v@)));
    proof {
        crate::sorting::lemma_stable_order_indices(name_keys(string_views(v@)));
    }
    let mut out: Vec<String> = Vec::new();
    let m = order.len();
    for k in 0..m
        invariant
            m == order@.len(),
            n == v@.len(),
            o == stable_order(name_keys(string_views(v@))),
            order@.map_values(|x: usize| x as int) == o,
            o.len() == n,
            forall|j: int| 0 <= j < n ==> 0 <= #[trigger] o[j] < n,
            out@.len() == k,
            forall|j: int| 0 <= j < k ==> (#[trigger] out@[j])@ == v@[o[j]]@,
    {
        assert(o[k as int] == order@[k as int] as int);
        let s = v[order[k]].clone();
        out.push(s);
    }
    assert(string_views(out@) =~= sorted_names(string_views(v@)));
    out
}

fn listed(users: &Vec<String>, name: &String) -> (r: bool)
    ensures
        r == string_views(users@).contains(name@),
{
    let n = users.len();
    for i in 0..n
        invariant
            n == users@.len(),
            forall|j: int| 0 <= j < i ==> (#[trigger] users@[j])@ != name@,
    {
        if users[i] == *name {
            assert(string_views(users@)[i as int] == name@);
            return true;
        }
    }
    assert forall|j: int| 0 <= j < users@.len() implies string_views(users@)[j] != name@ by {
        assert(string_views(users@)[j] == users@[j]@);
    }
    false
}

/// Adds a newly created user to the register of ksmbd users; the flag says
/// whether the register changed and must be written back.
pub fn register_ksmbd_user(users: Vec<String>, username: &String) -> (r: (Vec<String>, bool))
    ensures
        string_views(r.0@) == spec_registered(string_views(users@), username@),
        r.1 == !string_views(users@).contains(username@),
{
    if listed(&users, username) {
        return (users, false);
    }
    let mut users = users;
    let ghost before = users@;
    users.push(username.clone());
    assert(string_views(users@) =~= string_views(before).push(username@));
    (sorted_strings(users), true)
}

/// The register without every name equal to `name` ignoring ASCII case.
pub open spec fn spec_forgotten(users: Seq<Seq<char>>, name: Seq<char>) -> Seq<Seq<char>>
    decreases users.len(),
{
    if users.len() == 0 {
        users
    } else {
        let rest = spec_forgotten(users.drop_last(), name);
        if eq_ignore_case(users.last(), name) {
            rest
        } else {
            rest.push(users.last())
        }
    }
}

/// Removes a deleted user from the register of ksmbd users, matching names
/// ignoring ASCII case; the flag says whether the register changed.
pub fn forget_ksmbd_user(users: Vec<String>, username: &str) -> (r: (Vec<String>, bool))
    ensures
        string_views(r.0@) == spec_forgotten(string_views(users@), username@),
        r.1 == (spec_forgotten(string_views(users@), username@).len() != users@.len()),
{
    let name = chars_of(username);
    let mut out: Vec<String> = Vec::new();
    let n = users.len();
    for i in 0..n
        invariant
            n == users@.len(),
            name@ == username@,
            string_views(out@) == spec_forgotten(string_views(users@).take(i as int), username@),
            out@.len() <= i,
    {
        let u = chars_of(users[i].as_str());
        let ghost sv = string_views(users@);
        assert(sv.take(i + 1).drop_last() =~= sv.take(i as int));
        assert(sv.take(i + 1).last() == users@[i as int]@);
        if !eq_ignore_ascii_case(&u, &name) {
            let ghost before = out@;
            out.push(users[i].clone());
            assert(string_views(out@) =~= string_views(before).push(users@[i as int]@));
        }
    }
    assert(string_views(users@).take(n as int) =~= string_views(users@));
    let changed = out.len() != n;
    (out, changed)
}


// ── principal lookups ───────────────────────────────────────────

/// The first occurrence of each token, in order.
pub open spec fn dedup_seq(ts: Seq<Seq<char>>) -> Seq<Seq<char>>
    decreases ts.len(),
{
    if ts.len() == 0 {
        ts
    } else {
        let rest = dedup_seq(ts.drop_last());
        if rest.contains(ts.last()) {
            rest
        } else {
            rest.push(ts.last())
        }
    }
}

/// How the output of `id -G` is read: every white-space separated token a
/// GID, each kept once, at least one and at most the group limit.
pub open spec fn spec_group_ids(out: Seq<char>) -> Result<Seq<Seq<char>>, Seq<char>> {
    let ts = ws_tokens(out);
    if exists|i: int| 0 <= i < ts.len() && (#[trigger] spec_parse_u32(ts[i])) is None {
        Err("id returned an invalid GID"@)
    } else if dedup_seq(ts).len() == 0 || dedup_seq(ts).len() > MAX_PRINCIPAL_GROUPS {
        Err("principal has no groups or exceeds the group limit"@)
    } else {
        Ok(dedup_seq(ts))
    }
}

fn contains_token(v: &Vec<Vec<char>>, t: &Vec<char>) -> (r: bool)
    ensures
        r == v@.map_values(|x: Vec<char>| x@).contains(t@),
{
    let ghost vv = v@.map_values(|x: Vec<char>| x@);
    let n = v.len();
    for i in 0..n
        invariant
            n == v@.len(),
            vv == v@.map_values(|x: Vec<char>| x@),
            forall|j: int| 0 <= j < i ==> vv[j] != t@,
    {
        assert(vv[i as int] == v@[i as int]@);
        if seq_eq(&v[i], t) {
            return true;
        }
    }
    false
}

/// Reads the GIDs that `id -G` printed for a principal.
pub fn parse_group_ids(stdout: &str) -> (r: Result<Vec<String>, SmbError>)
    ensures
        match spec_group_ids(stdout@) {
            Ok(ids) => r is Ok && string_views(r->Ok_0@) == ids,
            Err(m) => error_of(r) == Some((SmbErrorKind::PrincipalLookup, m)),
        },
{
    let c = chars_of(stdout);
    let ts = ws_tokens_of(&c);
    let ghost tv = ts@.map_values(|x: Vec<char>| x@);
    let n = ts.len();
    let mut kept: Vec<Vec<char>> = Vec::new();
    for i in 0..n
        invariant
            n == ts@.len(),
            tv == ts@.map_values(|x: Vec<char>| x@),
            tv == ws_tokens(stdout@),
            forall|j: int| 0 <= j < i ==> (#[trigger] spec_parse_u32(tv[j])) is Some,
            kept@.map_values(|x: Vec<char>| x@) == dedup_seq(tv.take(i as int)),
    {
        assert(tv[i as int] == ts@[i as int]@);
        assert(tv.take(i + 1).drop_last() =~= tv.take(i as int));
        assert(tv.take(i + 1).last() == tv[i as int]);
        if parse_u32(&ts[i]).is_none() {
            return Err(SmbError::PrincipalLookup(String::from_str("id returned an invalid GID")));
        }
        if !contains_token(&kept, &ts[i]) {
            let ghost before = kept@;
            kept.push(ts[i].clone());
            assert(kept@.map_values(|x: Vec<char>| x@) =~= before.map_values(|x: Vec<char>| x@).push(
                tv[i as int],
            ));
        }
    }
    assert(tv.take(n as int) =~= tv);
    if kept.len() == 0 || kept.len() > MAX_PRINCIPAL_GROUPS {
        return Err(
            SmbError::PrincipalLookup(
                String::from_str("principal has no groups or exceeds the group limit"),
            ),
        );
    }
    let mut out: Vec<String> = Vec::new();
    let m = kept.len();
    for k in 0..m
        invariant
            m == kept@.len(),
            string_views(out@) == kept@.map_values(|x: Vec<char>| x@).take(k as int),
    {
        let ghost before = out@;
        let st = string_of(&kept[k]);
        let ghost sv = st@;
        out.push(st);
        assert(string_views(out@) =~= string_views(before).push(sv));
        assert(kept@.map_values(|x: Vec<char>| x@).take(k + 1) =~= kept@.map_values(
            |x: Vec<char>| x@,
        ).take(k as int).push(kept@[k as int]@));
    }
    assert(kept@.map_values(|x: Vec<char>| x@).take(m as int) =~= kept@.map_values(
        |x: Vec<char>| x@,
    ));
    Ok(out)
}

/// The group name in a `getent group` record: the text before the first
/// `:` of its first line, which must not be empty.
pub open spec fn spec_record_name(record: Seq<char>) -> Option<Seq<char>> {
    let ls = lines_seq(record);
    if ls.len() == 0 {
        None
    } else {
        match split_once_seq(ls[0], ':') {
            Some((name, _)) => if name.len() > 0 {
                Some(name)
            } else {
                None
            },
            None => None,
        }
    }
}

/// Reads the group name from the `getent group <gid>` record of `gid`.
pub fn group_record_name(record: &str, gid: &str) -> (r: Result<String, SmbError>)
    ensures
        match spec_record_name(record@) {
            Some(n) => r is Ok && r->Ok_0@ == n,
            None => error_of(r) == Some(
                (
                    SmbErrorKind::PrincipalLookup,
                    "getent returned an invalid record for GID "@ + gid@,
                ),
            ),
        },
{
    let c = chars_of(record);
    let ls = lines_of(&c);
    if ls.len() > 0 {
        assert(ls@.map_values(|x: Vec<char>| x@)[0] == ls@[0]@);
        match split_once_chars(&ls[0], ':') {
            Some((name, _rest)) => {
                if name.len() > 0 {
                    return Ok(string_of(&name));
                }
            },
            None => {},
        }
    }
    let mut m = String::from_str("getent returned an invalid record for GID ");
    m.append(gid);
    Err(SmbError::PrincipalLookup(m))
}

/// Why a portal principal with resolved groups is not authorized: domain
/// principals are not supported, and a local one must be in the ksmbd
/// user register (ignoring ASCII case).
pub open spec fn spec_principal_error(principal: Seq<char>, users: Seq<Seq<char>>) -> Option<
    Seq<char>,
> {
    if principal.contains('\\') {
        Some("domain principals are not supported with ksmbd"@)
    } else if !(exists|i: int| 0 <= i < users.len() && eq_ignore_case(#[trigger] users[i], principal)) {
        Some("local principal is not present in ksmbd user database"@)
    } else {
        None
    }
}

/// The last step of authorizing a portal principal whose groups were
/// resolved: the checks against domain names and the ksmbd register.
pub fn authorize_principal(principal: &str, groups: Vec<String>, users: &Vec<String>) -> (r:
    Result<PrincipalAuthorization, SmbError>)
    ensures
        match spec_principal_error(principal@, string_views(users@)) {
            Some(m) => error_of(r) == Some((SmbErrorKind::PrincipalLookup, m)),
            None => r is Ok && r->Ok_0.principal@ == principal@ && r->Ok_0.groups@ == groups@,
        },
{
    let p = chars_of(principal);
    if seq_contains_char(&p, '\\') {
        return Err(
            SmbError::PrincipalLookup(
                String::from_str("domain principals are not supported with ksmbd"),
            ),
        );
    }
    let n = users.len();
    let mut found = false;
    let mut i: usize = 0;
    while i < n && !found
        invariant
            n == users@.len(),
            i <= n,
            p@ == principal@,
            found ==> exists|j: int|
                0 <= j < n && eq_ignore_case(#[trigger] string_views(users@)[j], principal@),
            !found ==> forall|j: int|
                0 <= j < i ==> !eq_ignore_case(#[trigger] string_views(users@)[j], principal@),
        decreases n - i + (if found { 0int } else { 1int }),
    {
        let u = chars_of(users[i].as_str());
        assert(string_views(users@)[i as int] == users@[i as int]@);
        if eq_ignore_ascii_case(&u, &p) {
            found = true;
        } else {
            i = i + 1;
        }
    }
    if !found {
        return Err(
            SmbError::PrincipalLookup(
                String::from_str("local principal is not present in ksmbd user database"),
            ),
        );
    }
    Ok(PrincipalAuthorization { principal: string_of(&p), groups })
}

/// Whether a portal principal names a local account rather than a domain
/// one (`DOMAIN\name`); only a local one is looked up in the ksmbd register.
pub fn principal_is_local(principal: &str) -> (r: bool)
    ensures
        r == !principal@.contains('\\'),
{
    let p = chars_of(principal);
    !seq_contains_char(&p, '\\')
}

// ── the ksmbd user register file ────────────────────────────────

/// Where the names of the ksmbd users are kept, as a JSON list of strings.
pub const KSMBD_USERS_STATE: &'static str = "/var/lib/nasty/shares/ksmbd-users.json";

/// What `serde_json` reads from a text as a list of strings: the strings, or
/// the text of its error.
pub uninterp spec fn json_string_list(raw: Seq<char>) -> Result<Seq<Seq<char>>, Seq<char>>;

/// A parsed list of strings, or its error text, as plain values.
pub open spec fn string_list_view(r: Result<Vec<String>, String>) -> Result<Seq<Seq<char>>, Seq<char>> {
    match r {
        Ok(v) => Ok(string_views(v@)),
        Err(e) => Err(e@),
    }
}

/// Parses `raw` with `serde_json::from_str` as a `Vec<String>`, an error
/// becoming its `Display` text. The contract claims only that the result is
/// `json_string_list` of the text.
#[verifier::external_body]
fn parse_string_list(raw: &str) -> (r: Result<Vec<String>, String>)
    ensures
        string_list_view(r) == json_string_list(raw@),
{
    match serde_json::from_str::<Vec<String>>(raw) {
        Ok(v) => Ok(v),
        Err(e) => Err(e.to_string()),
    }
}

/// The message of a register file that is not a list of strings.
pub open spec fn register_parse_msg(e: Seq<char>) -> Seq<char> {
    "parse "@ + KSMBD_USERS_STATE@ + ": "@ + e
}

/// The user register from the parse of its file: the names, or a
/// `ReloadFailed` error that names the file and the parse error.
pub fn user_names_from_parse(parsed: Result<Vec<String>, String>) -> (r: Result<Vec<String>, SmbError>)
    ensures
        match parsed {
            Ok(v) => r is Ok && r->Ok_0@ == v@,
            Err(e) => error_of(r) == Some((SmbErrorKind::ReloadFailed, register_parse_msg(e@))),
        },
{
    match parsed {
        Ok(v) => Ok(v),
        Err(e) => {
            let mut m = String::new();
            crate::text::push_lit(&mut m, "parse ");
            crate::text::push_lit(&mut m, KSMBD_USERS_STATE);
            crate::text::push_lit(&mut m, ": ");
            crate::text::push_lit(&mut m, e.as_str());
            Err(SmbError::ReloadFailed(m))
        },
    }
}

/// The user register from its file's text, or `None` where there is no
/// such file (an empty register).
pub fn user_names_from_state(content: Option<&str>) -> (r: Result<Vec<String>, SmbError>)
    ensures
        content is None ==> r is Ok && r->Ok_0@.len() == 0,
        content matches Some(raw) ==> match json_string_list(raw@) {
            Ok(names) => r is Ok && string_views(r->Ok_0@) == names,
            Err(e) => error_of(r) == Some((SmbErrorKind::ReloadFailed, register_parse_msg(e))),
        },
{
    match content {
        None => Ok(Vec::new()),
        Some(raw) => user_names_from_parse(parse_string_list(raw)),
    }
}


// ── /etc/group and command output ───────────────────────────────

/// One `/etc/group` line as `name:x:gid:members` (split at most four ways):
/// a group with a GID in the SMB range, or nothing.
pub open spec fn spec_group_line(line: Seq<char>) -> Option<(Seq<char>, u32, Seq<Seq<char>>)> {
    match split_once_seq(line, ':') {
        None => None,
        Some((name, r1)) => match split_once_seq(r1, ':') {
            None => None,
            Some((_x, r2)) => {
                let (g, members) = match split_once_seq(r2, ':') {
                    Some((g, rest)) => (g, tokens(rest, ',')),
                    None => (r2, Seq::empty()),
                };
                match spec_parse_u32(g) {
                    Some(gid) => if SMB_ID_MIN <= gid < SMB_ID_MIN + 1000 {
                        Some((name, gid, members))
                    } else {
                        None
                    },
                    None => None,
                }
            },
        },
    }
}

/// The SMB groups of a sequence of `/etc/group` lines, in order.
pub open spec fn spec_group_lines(ls: Seq<Seq<char>>) -> Seq<(Seq<char>, u32, Seq<Seq<char>>)>
    decreases ls.len(),
{
    if ls.len() == 0 {
        Seq::empty()
    } else {
        let rest = spec_group_lines(ls.drop_last());
        match spec_group_line(ls.last()) {
            Some(g) => rest.push(g),
            None => rest,
        }
    }
}

pub open spec fn group_view(g: SmbGroup) -> (Seq<char>, u32, Seq<Seq<char>>) {
    (g.name@, g.gid, string_views(g.members@))
}

fn strings_of(v: &Vec<Vec<char>>) -> (r: Vec<String>)
    ensures
        string_views(r@) == v@.map_values(|x: Vec<char>| x@),
{
    let mut out: Vec<String> = Vec::new();
    let n = v.len();
    for k in 0..n
        invariant
            n == v@.len(),
            string_views(out@) == v@.map_values(|x: Vec<char>| x@).take(k as int),
    {
        let ghost before = out@;
        let st = string_of(&v[k]);
        let ghost sv = st@;
        out.push(st);
        assert(string_views(out@) =~= string_views(before).push(sv));
        assert(v@.map_values(|x: Vec<char>| x@).take(k + 1) =~= v@.map_values(
            |x: Vec<char>| x@,
        ).take(k as int).push(v@[k as int]@));
    }
    assert(v@.map_values(|x: Vec<char>| x@).take(n as int) =~= v@.map_values(|x: Vec<char>| x@));
    out
}

fn group_line(line: &Vec<char>) -> (r: Option<SmbGroup>)
    ensures
        match spec_group_line(line@) {
            Some(g) => r is Some && group_view(r->0) == g,
            None => r is None,
        },
{
    let (name, r1) = match split_once_chars(line, ':') {
        None => return None,
        Some(p) => p,
    };
    let (_x, r2) = match split_once_chars(&r1, ':') {
        None => return None,
        Some(p) => p,
    };
    let (g, members) = match split_once_chars(&r2, ':') {
        Some((g, rest)) => (g, tokens_of(&rest, ',')),
        None => (r2, Vec::new()),
    };
    assert(members@.map_values(|x: Vec<char>| x@) == (match split_once_seq(r2@, ':') {
        Some((_g, rest)) => tokens(rest, ','),
        None => Seq::<Seq<char>>::empty(),
    }));
    match parse_u32(&g) {
        Some(gid) => {
            if SMB_ID_MIN <= gid && gid < SMB_ID_MIN + 1000 {
                let ms = strings_of(&members);
                Some(SmbGroup { name: string_of(&name), gid, members: ms })
            } else {
                None
            }
        },
        None => None,
    }
}

/// The SMB-managed groups (GIDs 3000–3999) listed in `/etc/group`.
pub fn parse_group_file(content: &str) -> (r: Vec<SmbGroup>)
    ensures
        r@.map_values(|g: SmbGroup| group_view(g)) == spec_group_lines(lines_seq(content@)),
{
    let c = chars_of(content);
    let ls = lines_of(&c);
    let ghost lv = ls@.map_values(|x: Vec<char>| x@);
    let mut out: Vec<SmbGroup> = Vec::new();
    let n = ls.len();
    for i in 0..n
        invariant
            n == ls@.len(),
            lv == ls@.map_values(|x: Vec<char>| x@),
            out@.map_values(|g: SmbGroup| group_view(g)) == spec_group_lines(lv.take(i as int)),
    {
        assert(lv.take(i + 1).drop_last() =~= lv.take(i as int));
        assert(lv.take(i + 1).last() == ls@[i as int]@);
        match group_line(&ls[i]) {
            Some(g) => {
                let ghost before = out@;
                let ghost gv = group_view(g);
                out.push(g);
                assert(out@.map_values(|g: SmbGroup| group_view(g)) =~= before.map_values(
                    |g: SmbGroup| group_view(g),
                ).push(gv));
            },
            None => {},
        }
    }
    assert(lv.take(n as int) =~= lv);
    out
}

/// The UID that `id -u <name>` printed (`None` where it failed): the
/// trimmed text as a number, 0 where it is none.
pub open spec fn spec_uid_of(stdout: Option<Seq<char>>) -> u32 {
    match stdout {
        Some(s) => match spec_parse_u32(trim_seq(s)) {
            Some(u) => u,
            None => 0,
        },
        None => 0,
    }
}

/// A registered user as listed: only accounts with a UID in the SMB range.
pub fn managed_user(username: String, id_stdout: Option<&str>) -> (r: Option<SmbUser>)
    ensures
        spec_uid_of(crate::dependents::opt_view(id_stdout)) >= SMB_ID_MIN ==> r is Some
            && r->0.username == username && r->0.uid == spec_uid_of(
            crate::dependents::opt_view(id_stdout),
        ),
        spec_uid_of(crate::dependents::opt_view(id_stdout)) < SMB_ID_MIN ==> r is None,
{
    let uid: u32 = match id_stdout {
        Some(s) => {
            let c = chars_of(s);
            let t = trim_chars(&c);
            match parse_u32(&t) {
                Some(u) => u,
                None => 0,
            }
        },
        None => 0,
    };
    if uid >= SMB_ID_MIN {
        Some(SmbUser { username, uid })
    } else {
        None
    }
}

/// Whether `ksmbd.control --list` lists the share: a line that, trimmed,
/// equals its name ignoring ASCII case.
pub open spec fn spec_share_listed(listing: Seq<char>, name: Seq<char>) -> bool {
    exists|i: int|
        0 <= i < lines_seq(listing).len() && eq_ignore_case(
            trim_seq(#[trigger] lines_seq(listing)[i]),
            name,
        )
}

pub fn share_listed(listing: &str, share_name: &str) -> (r: bool)
    ensures
        r == spec_share_listed(listing@, share_name@),
{
    let c = chars_of(listing);
    let name = chars_of(share_name);
    let ls = lines_of(&c);
    let ghost lv = ls@.map_values(|x: Vec<char>| x@);
    let n = ls.len();
    for i in 0..n
        invariant
            n == ls@.len(),
            lv == ls@.map_values(|x: Vec<char>| x@),
            lv == lines_seq(listing@),
            name@ == share_name@,
            forall|j: int| 0 <= j < i ==> !eq_ignore_case(trim_seq(#[trigger] lv[j]), share_name@),
    {
        assert(lv[i as int] == ls@[i as int]@);
        let t = trim_chars(&ls[i]);
        if eq_ignore_ascii_case(&t, &name) {
            return true;
        }
    }
    false
}

/// A failed `ksmbd.control --reload` that only means ksmbd is not running
/// yet: the error text says so.
pub open spec fn spec_reload_failure_benign(stderr: Seq<char>) -> bool {
    contains_seq(stderr, "No such process"@) || contains_seq(stderr, "not running"@)
        || contains_seq(lower_seq(stderr), "no ksmbd"@)
}

pub fn reload_failure_is_benign(stderr: &str) -> (r: bool)
    ensures
        r == spec_reload_failure_benign(stderr@),
{
    let s = chars_of(stderr);
    let a = chars_of("No such process");
    let b = chars_of("not running");
    let c = chars_of("no ksmbd");
    let lower = lower_chars(&s);
    contains_chars(&s, &a) || contains_chars(&s, &b) || contains_chars(&lower, &c)
}

// ── laws ────────────────────────────────────────────────────────

/// Registering a user lists exactly the users listed before and the new
/// one.
pub proof fn law_register_lists_the_user(users: Seq<Seq<char>>, name: Seq<char>)
    ensures
        forall|u: Seq<char>| #[trigger] spec_registered(users, name).contains(u) <==> (
        users.contains(u) || u == name),
{
    if !users.contains(name) {
        let ns = users.push(name);
        let keys = name_keys(ns);
        let o = stable_order(keys);
        crate::sorting::lemma_stable_order_indices(keys);
        crate::sorting::lemma_sort_order_covers(keys, keys.len());
        let r = sorted_names(ns);
        assert forall|u: Seq<char>| #[trigger] r.contains(u) <==> (users.contains(u) || u == name) by {
            if r.contains(u) {
                let k = choose|k: int| 0 <= k < r.len() && r[k] == u;
                assert(ns[o[k]] == u);
                assert(ns.contains(u));
                if ns[o[k]] != name {
                    assert(o[k] < users.len());
                    assert(users[o[k]] == u);
                }
            }
            if users.contains(u) || u == name {
                let j = if u == name {
                    users.len() as int
                } else {
                    choose|j: int| 0 <= j < users.len() && users[j] == u
                };
                assert(ns[j] == u);
                assert(o.contains(j));
                let k = choose|k: int| 0 <= k < o.len() && o[k] == j;
                assert(r[k] == u);
            }
        }
    }
}

/// Forgetting a user lists exactly the users listed before that do not
/// match its name ignoring ASCII case.
pub proof fn law_forget_drops_every_match(users: Seq<Seq<char>>, name: Seq<char>)
    ensures
        forall|u: Seq<char>| #[trigger] spec_forgotten(users, name).contains(u) <==> (
        users.contains(u) && !eq_ignore_case(u, name)),
    decreases users.len(),
{
    if users.len() > 0 {
        let rest = users.drop_last();
        law_forget_drops_every_match(rest, name);
        assert forall|u: Seq<char>| #[trigger] spec_forgotten(users, name).contains(u) <==> (
        users.contains(u) && !eq_ignore_case(u, name)) by {
            assert(users =~= rest.push(users.last()));
            let f = spec_forgotten(users, name);
            let fr = spec_forgotten(rest, name);
            if !eq_ignore_case(users.last(), name) {
                assert(f == fr.push(users.last()));
                if f.contains(u) {
                    let k = choose|k: int| 0 <= k < f.len() && f[k] == u;
                    if k < fr.len() {
                        assert(fr[k] == u);
                    }
                }
                if fr.contains(u) {
                    let k = choose|k: int| 0 <= k < fr.len() && fr[k] == u;
                    assert(f[k] == u);
                }
                if u == users.last() {
                    assert(f[fr.len() as int] == u);
                }
            }
            if users.contains(u) {
                let k = choose|k: int| 0 <= k < users.len() && users[k] == u;
                if k < rest.len() {
                    assert(rest[k] == u);
                }
            }
            if rest.contains(u) {
                let k = choose|k: int| 0 <= k < rest.len() && rest[k] == u;
                assert(users[k] == u);
            }
        }
    }
}

} // verus!
