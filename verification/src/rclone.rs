//! FTP, SFTP and S3 file serving via `rclone serve`: one unit per protocol
//! presents every enabled share as a folder (FTP/SFTP) or bucket (S3)
//! through rclone's `combine` backend. Credentials and ports are
//! per-protocol.
use vstd::prelude::*;

use crate::backup::{spec_within_fs_root, within_fs_root};
use crate::ids::{is_v4_uuid_text, new_share_id, NO_RANDOM_SOURCE_MSG};
use crate::text::{
    char_is_ascii_alnum, char_is_control, char_is_whitespace, chars_of, decimal, decimal_chars,
    bool_or, is_ascii_alnum, is_control, is_whitespace, opt_str, push_chars, push_decimal, push_lit,
    string_of, utf8_len, utf8_len_exceeds,
};

verus! {

#[derive(Clone, Copy, Debug, PartialEq, Eq, Structural)]
pub enum RcloneKind {
    Ftp,
    Sftp,
    S3,
}

pub const RCLONE_DIR: &'static str = "/var/lib/nasty/rclone";

pub const EMPTY_DIR: &'static str = "/var/lib/nasty/rclone/empty";

pub const SFTP_HOST_KEY: &'static str = "/var/lib/nasty/rclone/sftp_host_key";

pub const DEFAULT_USERNAME: &'static str = "nasty";

pub const DEFAULT_PASSIVE_MIN: u16 = 30000;

pub const DEFAULT_PASSIVE_MAX: u16 = 30100;

pub const PASSWORD_LEN: usize = 24;

pub open spec fn kind_name(k: RcloneKind) -> Seq<char> {
    match k {
        RcloneKind::Ftp => "ftp"@,
        RcloneKind::Sftp => "sftp"@,
        RcloneKind::S3 => "s3"@,
    }
}

pub open spec fn kind_default_port(k: RcloneKind) -> u16 {
    match k {
        RcloneKind::Ftp => 21,
        RcloneKind::Sftp => 2022,
        RcloneKind::S3 => 9000,
    }
}

impl RcloneKind {
    pub fn name(self) -> (r: &'static str)
        ensures
            r@ == kind_name(self),
    {
        match self {
            RcloneKind::Ftp => "ftp",
            RcloneKind::Sftp => "sftp",
            RcloneKind::S3 => "s3",
        }
    }

    pub fn display_name(self) -> (r: &'static str)
        ensures
            r@ == (match self {
                RcloneKind::Ftp => "FTP"@,
                RcloneKind::Sftp => "SFTP"@,
                RcloneKind::S3 => "S3"@,
            }),
    {
        match self {
            RcloneKind::Ftp => "FTP",
            RcloneKind::Sftp => "SFTP",
            RcloneKind::S3 => "S3",
        }
    }

    pub fn default_port(self) -> (r: u16)
        ensures
            r == kind_default_port(self),
    {
        match self {
            RcloneKind::Ftp => 21,
            RcloneKind::Sftp => 2022,
            RcloneKind::S3 => 9000,
        }
    }

    /// The templated systemd unit serving this protocol.
    pub fn unit(self) -> (r: &'static str)
        ensures
            r@ == (match self {
                RcloneKind::Ftp => "nasty-rclone@ftp.service"@,
                RcloneKind::Sftp => "nasty-rclone@sftp.service"@,
                RcloneKind::S3 => "nasty-rclone@s3.service"@,
            }),
    {
        match self {
            RcloneKind::Ftp => "nasty-rclone@ftp.service",
            RcloneKind::Sftp => "nasty-rclone@sftp.service",
            RcloneKind::S3 => "nasty-rclone@s3.service",
        }
    }

    pub fn state_dir(self) -> (r: String)
        ensures
            r@ == "/var/lib/nasty/shares/"@ + kind_name(self),
    {
        let mut s = String::new();
        push_lit(&mut s, "/var/lib/nasty/shares/");
        push_lit(&mut s, self.name());
        s
    }

    pub fn conf_path(self) -> (r: String)
        ensures
            r@ == RCLONE_DIR@ + "/"@ + kind_name(self) + ".conf"@,
    {
        let mut s = String::new();
        push_lit(&mut s, RCLONE_DIR);
        push_lit(&mut s, "/");
        push_lit(&mut s, self.name());
        push_lit(&mut s, ".conf");
        s
    }

    pub fn script_path(self) -> (r: String)
        ensures
            r@ == RCLONE_DIR@ + "/"@ + kind_name(self) + "-serve.sh"@,
    {
        let mut s = String::new();
        push_lit(&mut s, RCLONE_DIR);
        push_lit(&mut s, "/");
        push_lit(&mut s, self.name());
        push_lit(&mut s, "-serve.sh");
        s
    }

    pub fn settings_path(self) -> (r: String)
        ensures
            r@ == RCLONE_DIR@ + "/"@ + kind_name(self) + "-server.json"@,
    {
        let mut s = String::new();
        push_lit(&mut s, RCLONE_DIR);
        push_lit(&mut s, "/");
        push_lit(&mut s, self.name());
        push_lit(&mut s, "-server.json");
        s
    }

    /// Name under which the protocol password is sealed.
    pub fn secrets_name(self) -> (r: &'static str)
        ensures
            r@ == "nasty.rclone."@ + kind_name(self) + ".password"@,
    {
        proof {
            reveal_strlit("nasty.rclone.");
            reveal_strlit(".password");
            reveal_strlit("ftp");
            reveal_strlit("sftp");
            reveal_strlit("s3");
            reveal_strlit("nasty.rclone.ftp.password");
            reveal_strlit("nasty.rclone.sftp.password");
            reveal_strlit("nasty.rclone.s3.password");
        }
        match self {
            RcloneKind::Ftp => {
                assert("nasty.rclone.ftp.password"@ =~= "nasty.rclone."@ + "ftp"@ + ".password"@);
                "nasty.rclone.ftp.password"
            },
            RcloneKind::Sftp => {
                assert("nasty.rclone.sftp.password"@ =~= "nasty.rclone."@ + "sftp"@
                    + ".password"@);
                "nasty.rclone.sftp.password"
            },
            RcloneKind::S3 => {
                assert("nasty.rclone.s3.password"@ =~= "nasty.rclone."@ + "s3"@ + ".password"@);
                "nasty.rclone.s3.password"
            },
        }
    }
}

/// Errors of the rclone share services.
pub enum RcloneError {
    NotFound(String),
    NameExists(String),
    PathNotFound(String),
    PathNotInFilesystem(String),
    InvalidName(String),
    InvalidPath(String),
    InvalidSettings(String),
    Encrypt(String),
    Decrypt(String),
    Io(String),
}

pub open spec fn invalid_name_msg<T>(r: Result<T, RcloneError>) -> Option<Seq<char>> {
    match r {
        Err(RcloneError::InvalidName(m)) => Some(m@),
        _ => None,
    }
}

pub open spec fn invalid_path_msg<T>(r: Result<T, RcloneError>) -> Option<Seq<char>> {
    match r {
        Err(RcloneError::InvalidPath(m)) => Some(m@),
        _ => None,
    }
}

pub open spec fn invalid_settings_msg<T>(r: Result<T, RcloneError>) -> Option<Seq<char>> {
    match r {
        Err(RcloneError::InvalidSettings(m)) => Some(m@),
        _ => None,
    }
}

pub struct RcloneShare {
    /// Unique share identifier (UUID).
    pub id: String,
    /// Folder (FTP/SFTP) or bucket (S3) name presented to clients.
    pub name: String,
    /// Absolute path being shared (under `/fs/`).
    pub path: String,
    pub comment: Option<String>,
    pub read_only: bool,
    /// Whether the share is currently served.
    pub enabled: bool,
}

pub struct CreateRcloneShareRequest {
    pub name: String,
    pub path: String,
    pub comment: Option<String>,
    pub read_only: Option<bool>,
    pub enabled: Option<bool>,
}

pub struct UpdateRcloneShareRequest {
    pub id: String,
    pub name: Option<String>,
    pub comment: Option<String>,
    pub read_only: Option<bool>,
    pub enabled: Option<bool>,
}

pub struct DeleteRcloneShareRequest {
    pub id: String,
}

/// Live server settings, including the decrypted secret.
pub struct RcloneSettings {
    pub listen: String,
    pub port: u16,
    /// FTP/SFTP username, or S3 access key.
    pub username: String,
    /// FTP/SFTP password, or S3 secret key.
    pub password: String,
    /// FTP only: accept any password as `anonymous`.
    pub anonymous: bool,
    pub passive_port_min: u16,
    pub passive_port_max: u16,
}

pub struct UpdateRcloneSettingsRequest {
    pub listen: Option<String>,
    pub port: Option<u16>,
    pub username: Option<String>,
    pub password: Option<String>,
    pub anonymous: Option<bool>,
    pub passive_port_min: Option<u16>,
    pub passive_port_max: Option<u16>,
}

/// Ports the firewall should open: control port, plus the FTP PASV range.
#[derive(Clone, Copy, Debug, PartialEq, Eq)]
pub struct RcloneListenPorts {
    pub port: u16,
    pub passive: Option<(u16, u16)>,
}

/// The persisted server settings, apart from the sealed password.
pub struct StoredServer {
    pub listen: String,
    pub port: u16,
    pub username: String,
    pub anonymous: bool,
    pub passive_port_min: u16,
    pub passive_port_max: u16,
}

// ── validators ──────────────────────────────────────────────────

pub open spec fn name_rest_char(c: char) -> bool {
    is_ascii_alnum(c) || c == '.' || c == '_' || c == '-'
}

pub open spec fn spec_share_name_error(name: Seq<char>) -> Option<Seq<char>> {
    if name.len() == 0 || utf8_len(name) > 80 {
        Some("share name must be 1–80 characters"@)
    } else if !is_ascii_alnum(name[0]) {
        Some("share name must start with a letter or digit"@)
    } else if exists|i: int| 1 <= i < name.len() && !name_rest_char(#[trigger] name[i]) {
        Some("share name may only contain letters, digits, '.', '_' and '-'"@)
    } else {
        None
    }
}

/// Folder / bucket names: 1–80 bytes, a letter or digit first, then letters,
/// digits, `.`, `_`, `-`.
pub fn validate_share_name(name: &str) -> (r: Result<(), RcloneError>)
    ensures
        r is Ok <==> spec_share_name_error(name@) is None,
        r is Err ==> invalid_name_msg(r) == spec_share_name_error(name@),
{
    let n = chars_of(name);
    if n.len() == 0 || utf8_len_exceeds(&n, 80) {
        return Err(RcloneError::InvalidName(String::from_str("share name must be 1–80 characters")));
    }
    if !char_is_ascii_alnum(n[0]) {
        return Err(
            RcloneError::InvalidName(String::from_str("share name must start with a letter or digit")),
        );
    }
    let len = n.len();
    for i in 1..len
        invariant
            len == n@.len(),
            len > 0,
            n@ == name@,
            forall|j: int| 1 <= j < i ==> name_rest_char(#[trigger] name@[j]),
            utf8_len(name@) <= 80,
            is_ascii_alnum(name@[0]),
    {
        let c = n[i];
        assert(name@[i as int] == c);
        if !(char_is_ascii_alnum(c) || c == '.' || c == '_' || c == '-') {
            return Err(
                RcloneError::InvalidName(
                    String::from_str(
                        "share name may only contain letters, digits, '.', '_' and '-'",
                    ),
                ),
            );
        }
    }
    Ok(())
}

pub open spec fn conf_path_forbidden(c: char) -> bool {
    is_control(c) || c == '\n' || c == '\r' || c == '"' || c == '#' || c == '='
}

pub open spec fn spec_share_path_error(path: Seq<char>) -> Option<Seq<char>> {
    if path.len() == 0 {
        Some("share path is empty"@)
    } else if exists|i: int| 0 <= i < path.len() && conf_path_forbidden(#[trigger] path[i]) {
        Some("share path contains characters that would break rclone.conf"@)
    } else {
        None
    }
}

/// Paths are written into `rclone.conf`; reject what would break its syntax.
pub fn validate_share_path(path: &str) -> (r: Result<(), RcloneError>)
    ensures
        r is Ok <==> spec_share_path_error(path@) is None,
        r is Err ==> invalid_path_msg(r) == spec_share_path_error(path@),
{
    let p = chars_of(path);
    if p.len() == 0 {
        return Err(RcloneError::InvalidPath(String::from_str("share path is empty")));
    }
    let n = p.len();
    for i in 0..n
        invariant
            n == p@.len(),
            p@ == path@,
            forall|j: int| 0 <= j < i ==> !conf_path_forbidden(#[trigger] p@[j]),
    {
        let c = p[i];
        if char_is_control(c) || c == '\n' || c == '\r' || c == '"' || c == '#' || c == '=' {
            return Err(
                RcloneError::InvalidPath(
                    String::from_str("share path contains characters that would break rclone.conf"),
                ),
            );
        }
    }
    Ok(())
}

pub open spec fn listen_forbidden(c: char) -> bool {
    is_whitespace(c) || is_control(c) || c == '/' || c == '\\' || c == '"' || c == '\'' || c == ';'
}

pub open spec fn spec_listen_invalid(l: Seq<char>) -> bool {
    l.len() == 0 || exists|i: int| 0 <= i < l.len() && listen_forbidden(#[trigger] l[i])
}

pub fn validate_listen(listen: &str) -> (r: Result<(), RcloneError>)
    ensures
        r is Ok <==> !spec_listen_invalid(listen@),
        r is Err ==> invalid_settings_msg(r) == Some(
            "listen address contains invalid characters"@,
        ),
{
    let l = chars_of(listen);
    let mut bad = l.len() == 0;
    let n = l.len();
    let mut i: usize = 0;
    while i < n && !bad
        invariant
            n == l@.len(),
            l@ == listen@,
            i <= n,
            bad == (l@.len() == 0 || exists|j: int| 0 <= j < i && listen_forbidden(#[trigger] l@[j])),
        decreases n - i,
    {
        let c = l[i];
        if char_is_whitespace(c) || char_is_control(c) || c == '/' || c == '\\' || c == '"' || c
            == '\'' || c == ';' {
            bad = true;
        }
        i = i + 1;
    }
    if bad {
        Err(
            RcloneError::InvalidSettings(
                String::from_str("listen address contains invalid characters"),
            ),
        )
    } else {
        Ok(())
    }
}

/// Ports claimed by other NASty services or the host SSH daemon.
pub open spec fn reserved_port(p: u16) -> bool {
    p == 22 || p == 80 || p == 443 || p == 139 || p == 445 || p == 2049 || p == 2138 || p == 3260
        || p == 3493 || p == 4420 || p == 8000
}

pub open spec fn spec_port_error(kind: RcloneKind, port: u16) -> Option<Seq<char>> {
    if port == 0 {
        Some("port must be 1–65535"@)
    } else if reserved_port(port) {
        Some("port "@ + decimal(port as nat) + " is reserved by another NASty service"@)
    } else if kind == RcloneKind::Sftp && port == 21 {
        Some("SFTP cannot bind FTP port 21"@)
    } else {
        None
    }
}

pub fn validate_port(kind: RcloneKind, port: u16) -> (r: Result<(), RcloneError>)
    ensures
        r is Ok <==> spec_port_error(kind, port) is None,
        r is Err ==> invalid_settings_msg(r) == spec_port_error(kind, port),
{
    if port == 0 {
        return Err(RcloneError::InvalidSettings(String::from_str("port must be 1–65535")));
    }
    if port == 22 || port == 80 || port == 443 || port == 139 || port == 445 || port == 2049
        || port == 2138 || port == 3260 || port == 3493 || port == 4420 || port == 8000 {
        let mut m = String::new();
        push_lit(&mut m, "port ");
        push_decimal(&mut m, port as u64);
        push_lit(&mut m, " is reserved by another NASty service");
        return Err(RcloneError::InvalidSettings(m));
    }
    if kind == RcloneKind::Sftp && port == 21 {
        return Err(RcloneError::InvalidSettings(String::from_str("SFTP cannot bind FTP port 21")));
    }
    Ok(())
}

pub open spec fn username_char(c: char) -> bool {
    is_ascii_alnum(c) || c == '.' || c == '_' || c == '-' || c == '@'
}

pub open spec fn spec_username_error(u: Seq<char>) -> Option<Seq<char>> {
    if u.len() == 0 || utf8_len(u) > 64 {
        Some("username must be 1–64 characters"@)
    } else if exists|i: int| 0 <= i < u.len() && !username_char(#[trigger] u[i]) {
        Some("username may only contain letters, digits, '.', '_', '-' and '@'"@)
    } else {
        None
    }
}

pub fn validate_username(username: &str) -> (r: Result<(), RcloneError>)
    ensures
        r is Ok <==> spec_username_error(username@) is None,
        r is Err ==> invalid_settings_msg(r) == spec_username_error(username@),
{
    let u = chars_of(username);
    if u.len() == 0 || utf8_len_exceeds(&u, 64) {
        return Err(RcloneError::InvalidSettings(String::from_str("username must be 1–64 characters")));
    }
    let n = u.len();
    for i in 0..n
        invariant
            n == u@.len(),
            u@ == username@,
            forall|j: int| 0 <= j < i ==> username_char(#[trigger] username@[j]),
            n > 0,
            utf8_len(username@) <= 64,
    {
        let c = u[i];
        assert(username@[i as int] == c);
        if !(char_is_ascii_alnum(c) || c == '.' || c == '_' || c == '-' || c == '@') {
            return Err(
                RcloneError::InvalidSettings(
                    String::from_str(
                        "username may only contain letters, digits, '.', '_', '-' and '@'",
                    ),
                ),
            );
        }
    }
    Ok(())
}

pub open spec fn spec_password_error(p: Seq<char>) -> Option<Seq<char>> {
    if p.len() == 0 || utf8_len(p) > 128 {
        Some("password must be 1–128 characters"@)
    } else if exists|i: int| 0 <= i < p.len() && (is_control(#[trigger] p[i]) || p[i] == ',') {
        Some("password must not contain commas or control characters"@)
    } else {
        None
    }
}

pub fn validate_password(password: &str) -> (r: Result<(), RcloneError>)
    ensures
        r is Ok <==> spec_password_error(password@) is None,
        r is Err ==> invalid_settings_msg(r) == spec_password_error(password@),
{
    let p = chars_of(password);
    if p.len() == 0 || utf8_len_exceeds(&p, 128) {
        return Err(RcloneError::InvalidSettings(String::from_str("password must be 1–128 characters")));
    }
    let n = p.len();
    for i in 0..n
        invariant
            n == p@.len(),
            p@ == password@,
            forall|j: int| 0 <= j < i ==> !(is_control(#[trigger] password@[j]) || password@[j] == ','),
            n > 0,
            utf8_len(password@) <= 128,
    {
        let c = p[i];
        assert(password@[i as int] == c);
        if char_is_control(c) || c == ',' {
            return Err(
                RcloneError::InvalidSettings(
                    String::from_str("password must not contain commas or control characters"),
                ),
            );
        }
    }
    Ok(())
}

pub open spec fn spec_passive_range_error(min: u16, max: u16) -> Option<Seq<char>> {
    if min < 1024 || max < 1024 {
        Some("FTP passive ports must be ≥ 1024"@)
    } else if min > max {
        Some("FTP passive port min must be ≤ max"@)
    } else {
        None
    }
}

pub fn validate_passive_range(min: u16, max: u16) -> (r: Result<(), RcloneError>)
    ensures
        r is Ok <==> spec_passive_range_error(min, max) is None,
        r is Err ==> invalid_settings_msg(r) == spec_passive_range_error(min, max),
{
    if min < 1024 || max < 1024 {
        return Err(RcloneError::InvalidSettings(String::from_str("FTP passive ports must be ≥ 1024")));
    }
    if min > max {
        return Err(RcloneError::InvalidSettings(String::from_str("FTP passive port min must be ≤ max")));
    }
    Ok(())
}

// ── rclone.conf ─────────────────────────────────────────────────

pub open spec fn strip_hyphens(s: Seq<char>) -> Seq<char>
    decreases s.len(),
{
    if s.len() == 0 {
        Seq::empty()
    } else if s.last() == '-' {
        strip_hyphens(s.drop_last())
    } else {
        strip_hyphens(s.drop_last()).push(s.last())
    }
}

/// The rclone remote name of a share: `s` and the id without hyphens.
pub open spec fn spec_remote_id(id: Seq<char>) -> Seq<char> {
    seq!['s'] + strip_hyphens(id)
}

fn remote_id_chars(id: &String) -> (r: Vec<char>)
    ensures
        r@ == spec_remote_id(id@),
{
    let c = chars_of(id.as_str());
    let mut out: Vec<char> = Vec::new();
    out.push('s');
    let n = c.len();
    for i in 0..n
        invariant
            n == c@.len(),
            c@ == id@,
            out@ == seq!['s'] + strip_hyphens(c@.take(i as int)),
    {
        assert(c@.take(i + 1).drop_last() =~= c@.take(i as int));
        assert(c@.take(i + 1).last() == c@[i as int]);
        if c[i] != '-' {
            out.push(c[i]);
        }
        assert(out@ =~= seq!['s'] + strip_hyphens(c@.take(i + 1)));
    }
    assert(c@.take(n as int) =~= c@);
    out
}

pub fn remote_id(share: &RcloneShare) -> (r: String)
    ensures
        r@ == spec_remote_id(share.id@),
{
    let v = remote_id_chars(&share.id);
    string_of(&v)
}

/// The remote section(s) of one enabled share: a read-only share wraps its
/// local alias in a union `:ro` upstream.
pub open spec fn share_remote_section(s: RcloneShare) -> Seq<char> {
    let id = spec_remote_id(s.id@);
    if s.read_only {
        "["@ + id + "_local]\ntype = alias\nremote = "@ + s.path@ + "\n\n["@ + id
            + "]\ntype = union\nupstreams = "@ + id + "_local::ro\n\n"@
    } else {
        "["@ + id + "]\ntype = alias\nremote = "@ + s.path@ + "\n\n"@
    }
}

pub open spec fn remote_sections(ss: Seq<RcloneShare>) -> Seq<char>
    decreases ss.len(),
{
    if ss.len() == 0 {
        Seq::empty()
    } else if ss.last().enabled {
        remote_sections(ss.drop_last()) + share_remote_section(ss.last())
    } else {
        remote_sections(ss.drop_last())
    }
}

/// `name=remote:` of each enabled share, in order.
pub open spec fn upstream_tokens(ss: Seq<RcloneShare>) -> Seq<Seq<char>>
    decreases ss.len(),
{
    if ss.len() == 0 {
        Seq::empty()
    } else if ss.last().enabled {
        upstream_tokens(ss.drop_last()).push(
            ss.last().name@ + "="@ + spec_remote_id(ss.last().id@) + ":"@,
        )
    } else {
        upstream_tokens(ss.drop_last())
    }
}

pub open spec fn join_spaced(ts: Seq<Seq<char>>) -> Seq<char>
    decreases ts.len(),
{
    if ts.len() == 0 {
        Seq::empty()
    } else if ts.len() == 1 {
        ts[0]
    } else {
        join_spaced(ts.drop_last()) + " "@ + ts.last()
    }
}

/// `rclone.conf`: a named remote per enabled share, combined under
/// `[shares]`.
pub open spec fn spec_render_rclone_conf(ss: Seq<RcloneShare>) -> Seq<char> {
    let ups = upstream_tokens(ss);
    "# Managed by NASty — do not edit\n\n"@ + remote_sections(ss) + "[shares]\ntype = combine\n"@
        + if ups.len() == 0 {
        "upstreams =\n"@
    } else {
        "upstreams = "@ + join_spaced(ups) + "\n"@
    }
}

fn push_remote_section(out: &mut String, s: &RcloneShare)
    ensures
        final(out)@ == old(out)@ + share_remote_section(*s),
{
    let id = remote_id_chars(&s.id);
    if s.read_only {
        push_lit(out, "[");
        push_chars(out, &id);
        push_lit(out, "_local]\ntype = alias\nremote = ");
        push_lit(out, s.path.as_str());
        push_lit(out, "\n\n[");
        push_chars(out, &id);
        push_lit(out, "]\ntype = union\nupstreams = ");
        push_chars(out, &id);
        push_lit(out, "_local::ro\n\n");
    } else {
        push_lit(out, "[");
        push_chars(out, &id);
        push_lit(out, "]\ntype = alias\nremote = ");
        push_lit(out, s.path.as_str());
        push_lit(out, "\n\n");
    }
    assert(out@ =~= old(out)@ + share_remote_section(*s));
}

fn upstream_token(s: &RcloneShare) -> (r: String)
    ensures
        r@ == s.name@ + "="@ + spec_remote_id(s.id@) + ":"@,
{
    let id = remote_id_chars(&s.id);
    let mut t = String::new();
    push_lit(&mut t, s.name.as_str());
    push_lit(&mut t, "=");
    push_chars(&mut t, &id);
    push_lit(&mut t, ":");
    t
}

/// Render `rclone.conf` for `shares`.
pub fn render_rclone_conf(shares: &Vec<RcloneShare>) -> (r: String)
    ensures
        r@ == spec_render_rclone_conf(shares@),
{
    let mut out = String::new();
    push_lit(&mut out, "# Managed by NASty — do not edit\n\n");
    let ghost head = out@;
    let mut ups: Vec<String> = Vec::new();
    let n = shares.len();
    for i in 0..n
        invariant
            n == shares@.len(),
            out@ == head + remote_sections(shares@.take(i as int)),
            ups@.map_values(|t: String| t@) == upstream_tokens(shares@.take(i as int)),
    {
        assert(shares@.take(i + 1).drop_last() =~= shares@.take(i as int));
        assert(shares@.take(i + 1).last() == shares@[i as int]);
        if shares[i].enabled {
            push_remote_section(&mut out, &shares[i]);
            let t = upstream_token(&shares[i]);
            let ghost prev = ups@;
            ups.push(t);
            assert(ups@.map_values(|t: String| t@) =~= prev.map_values(|t: String| t@).push(t@));
        }
        assert(out@ =~= head + remote_sections(shares@.take(i + 1)));
    }
    assert(shares@.take(n as int) =~= shares@);
    let ghost mid = out@;
    push_lit(&mut out, "[shares]\ntype = combine\n");
    let ghost uv = ups@.map_values(|t: String| t@);
    if ups.len() == 0 {
        push_lit(&mut out, "upstreams =\n");
    } else {
        push_lit(&mut out, "upstreams = ");
        let ghost base = out@;
        out.append(ups[0].as_str());
        assert(uv.take(1).len() == 1);
        assert(join_spaced(uv.take(1)) == uv[0]);
        let m = ups.len();
        for j in 1..m
            invariant
                m == ups@.len(),
                m > 0,
                uv == ups@.map_values(|t: String| t@),
                out@ == base + join_spaced(uv.take(j as int)),
        {
            push_lit(&mut out, " ");
            out.append(ups[j].as_str());
            assert(uv.take(j + 1).drop_last() =~= uv.take(j as int));
            assert(uv.take(j + 1).last() == ups@[j as int]@);
            assert(out@ =~= base + join_spaced(uv.take(j + 1)));
        }
        assert(uv.take(m as int) =~= uv);
        push_lit(&mut out, "\n");
    }
    assert(out@ =~= spec_render_rclone_conf(shares@));
    out
}

// ── serve script ────────────────────────────────────────────────

pub open spec fn quote_body(s: Seq<char>) -> Seq<char>
    decreases s.len(),
{
    if s.len() == 0 {
        Seq::empty()
    } else if s.last() == '\'' {
        quote_body(s.drop_last()) + seq!['\'', '\\', '\'', '\'']
    } else {
        quote_body(s.drop_last()).push(s.last())
    }
}

/// A POSIX single-quoted word whose value is exactly `s`.
pub open spec fn spec_shell_single_quote(s: Seq<char>) -> Seq<char> {
    seq!['\''] + quote_body(s) + seq!['\'']
}

fn quote_chars(s: &Vec<char>) -> (r: Vec<char>)
    ensures
        r@ == spec_shell_single_quote(s@),
{
    let mut out: Vec<char> = Vec::new();
    out.push('\'');
    let n = s.len();
    for i in 0..n
        invariant
            n == s@.len(),
            out@ == seq!['\''] + quote_body(s@.take(i as int)),
    {
        assert(s@.take(i + 1).drop_last() =~= s@.take(i as int));
        assert(s@.take(i + 1).last() == s@[i as int]);
        if s[i] == '\'' {
            out.push('\'');
            out.push('\\');
            out.push('\'');
            out.push('\'');
        } else {
            out.push(s[i]);
        }
        assert(out@ =~= seq!['\''] + quote_body(s@.take(i + 1)));
    }
    assert(s@.take(n as int) =~= s@);
    out.push('\'');
    out
}

/// Quote `s` for `/bin/sh`: wrap in single quotes, writing each `'` as `'\''`.
pub fn shell_single_quote(s: &str) -> (r: String)
    ensures
        r@ == spec_shell_single_quote(s@),
{
    let c = chars_of(s);
    let q = quote_chars(&c);
    string_of(&q)
}

pub open spec fn any_enabled(ss: Seq<RcloneShare>) -> bool {
    exists|i: int| 0 <= i < ss.len() && (#[trigger] ss[i]).enabled
}

/// The argument vector of `rclone serve` for `kind`.
pub open spec fn serve_args(
    kind: RcloneKind,
    st: RcloneSettings,
    ss: Seq<RcloneShare>,
    host_key_exists: bool,
) -> Seq<Seq<char>> {
    let remote = if any_enabled(ss) {
        "shares:"@
    } else {
        EMPTY_DIR@
    };
    let base = seq![
        "serve"@,
        kind_name(kind),
        remote,
        "--config"@,
        RCLONE_DIR@ + "/"@ + kind_name(kind) + ".conf"@,
        "--addr"@,
        st.listen@ + ":"@ + decimal(st.port as nat),
    ];
    match kind {
        RcloneKind::Ftp => base + seq![
            "--passive-port"@,
            decimal(st.passive_port_min as nat) + "-"@ + decimal(st.passive_port_max as nat),
        ] + if st.anonymous {
            seq!["--user"@, "anonymous"@]
        } else {
            seq!["--user"@, st.username@, "--pass"@, st.password@]
        },
        RcloneKind::Sftp => base + seq!["--user"@, st.username@, "--pass"@, st.password@]
            + if host_key_exists {
            seq!["--key"@, SFTP_HOST_KEY@]
        } else {
            Seq::empty()
        },
        RcloneKind::S3 => base + seq![
            "--force-path-style"@,
            "--auth-key"@,
            st.username@ + ","@ + st.password@,
        ],
    }
}

pub open spec fn quoted_args(args: Seq<Seq<char>>) -> Seq<char>
    decreases args.len(),
{
    if args.len() == 0 {
        Seq::empty()
    } else {
        quoted_args(args.drop_last()) + " "@ + spec_shell_single_quote(args.last())
    }
}

/// `#!/bin/sh` + `exec /usr/bin/rclone` with every argument single-quoted.
pub open spec fn spec_render_serve_script(
    kind: RcloneKind,
    st: RcloneSettings,
    ss: Seq<RcloneShare>,
    host_key_exists: bool,
) -> Seq<char> {
    "#!/bin/sh\nexec /usr/bin/rclone"@ + quoted_args(serve_args(kind, st, ss, host_key_exists))
        + "\n"@
}

fn any_share_enabled(ss: &Vec<RcloneShare>) -> (r: bool)
    ensures
        r == any_enabled(ss@),
{
    let n = ss.len();
    for i in 0..n
        invariant
            n == ss@.len(),
            forall|j: int| 0 <= j < i ==> !(#[trigger] ss@[j]).enabled,
    {
        if ss[i].enabled {
            return true;
        }
    }
    false
}

fn concat3(a: &Vec<char>, b: &str, c: &Vec<char>) -> (r: Vec<char>)
    ensures
        r@ == a@ + b@ + c@,
{
    let mut out = a.clone();
    let bc = chars_of(b);
    let mut i: usize = 0;
    while i < bc.len()
        invariant
            i <= bc.len(),
            out@ == a@ + bc@.take(i as int),
        decreases bc.len() - i,
    {
        out.push(bc[i]);
        assert(bc@.take(i + 1) =~= bc@.take(i as int).push(bc@[i as int]));
        i = i + 1;
    }
    assert(bc@.take(bc@.len() as int) =~= bc@);
    let mut j: usize = 0;
    while j < c.len()
        invariant
            j <= c.len(),
            out@ == a@ + b@ + c@.take(j as int),
        decreases c.len() - j,
    {
        out.push(c[j]);
        assert(c@.take(j + 1) =~= c@.take(j as int).push(c@[j as int]));
        j = j + 1;
    }
    assert(c@.take(c@.len() as int) =~= c@);
    out
}

fn serve_arg_list(
    kind: RcloneKind,
    st: &RcloneSettings,
    ss: &Vec<RcloneShare>,
    host_key_exists: bool,
) -> (args: Vec<Vec<char>>)
    ensures
        args@.map_values(|a: Vec<char>| a@) == serve_args(kind, *st, ss@, host_key_exists),
{
    let mut args: Vec<Vec<char>> = Vec::new();
    args.push(chars_of("serve"));
    args.push(chars_of(kind.name()));
    if any_share_enabled(ss) {
        args.push(chars_of("shares:"));
    } else {
        args.push(chars_of(EMPTY_DIR));
    }
    args.push(chars_of("--config"));
    let conf = kind.conf_path();
    args.push(chars_of(conf.as_str()));
    args.push(chars_of("--addr"));
    let listen = chars_of(st.listen.as_str());
    let port = decimal_chars(st.port as u64);
    args.push(concat3(&listen, ":", &port));
    match kind {
        RcloneKind::Ftp => {
            args.push(chars_of("--passive-port"));
            let lo = decimal_chars(st.passive_port_min as u64);
            let hi = decimal_chars(st.passive_port_max as u64);
            args.push(concat3(&lo, "-", &hi));
            if st.anonymous {
                args.push(chars_of("--user"));
                args.push(chars_of("anonymous"));
            } else {
                args.push(chars_of("--user"));
                args.push(chars_of(st.username.as_str()));
                args.push(chars_of("--pass"));
                args.push(chars_of(st.password.as_str()));
            }
        },
        RcloneKind::Sftp => {
            args.push(chars_of("--user"));
            args.push(chars_of(st.username.as_str()));
            args.push(chars_of("--pass"));
            args.push(chars_of(st.password.as_str()));
            if host_key_exists {
                args.push(chars_of("--key"));
                args.push(chars_of(SFTP_HOST_KEY));
            }
        },
        RcloneKind::S3 => {
            args.push(chars_of("--force-path-style"));
            args.push(chars_of("--auth-key"));
            let u = chars_of(st.username.as_str());
            let p = chars_of(st.password.as_str());
            args.push(concat3(&u, ",", &p));
        },
    }
    assert(args@.map_values(|a: Vec<char>| a@) =~= serve_args(kind, *st, ss@, host_key_exists));
    args
}

/// Render the serve script. Whether the SFTP host key exists is read by the
/// caller and passed as `host_key_exists`.
pub fn render_serve_script(
    kind: RcloneKind,
    settings: &RcloneSettings,
    shares: &Vec<RcloneShare>,
    host_key_exists: bool,
) -> (r: String)
    ensures
        r@ == spec_render_serve_script(kind, *settings, shares@, host_key_exists),
{
    let args = serve_arg_list(kind, settings, shares, host_key_exists);
    let ghost av = args@.map_values(|a: Vec<char>| a@);
    let mut script = String::new();
    push_lit(&mut script, "#!/bin/sh\nexec /usr/bin/rclone");
    let ghost head = script@;
    let n = args.len();
    for i in 0..n
        invariant
            n == args@.len(),
            av == args@.map_values(|a: Vec<char>| a@),
            script@ == head + quoted_args(av.take(i as int)),
    {
        push_lit(&mut script, " ");
        let q = quote_chars(&args[i]);
        push_chars(&mut script, &q);
        assert(av.take(i + 1).drop_last() =~= av.take(i as int));
        assert(av.take(i + 1).last() == args@[i as int]@);
        assert(script@ =~= head + quoted_args(av.take(i + 1)));
    }
    assert(av.take(n as int) =~= av);
    push_lit(&mut script, "\n");
    script
}


// ── the service ─────────────────────────────────────────────────

/// One rclone-backed file service: FTP, SFTP or S3.
pub struct RcloneService {
    kind: RcloneKind,
}

impl View for RcloneService {
    type V = RcloneKind;

    closed spec fn view(&self) -> RcloneKind {
        self.kind
    }
}

pub open spec fn is_generated_password(p: Seq<char>) -> bool {
    &&& p.len() == PASSWORD_LEN
    &&& forall|i: int| 0 <= i < p.len() ==> is_ascii_alnum(#[trigger] p[i])
}

/// Seeds a `rand::rngs::StdRng` with `SeedableRng::try_from_os_rng` and
/// calls `Alphanumeric.sample_string` on it for `PASSWORD_LEN` characters;
/// `None` where the operating system's random source fails. Trusted: the
/// characters are random; what is claimed is that `sample_string` appends
/// exactly `PASSWORD_LEN` characters drawn from `A-Z`, `a-z` and `0-9`.
#[verifier::external_body]
fn generate_password() -> (r: Option<String>)
    ensures
        r matches Some(p) ==> is_generated_password(p@),
{
    let mut rng = match <rand::rngs::StdRng as rand::SeedableRng>::try_from_os_rng() {
        Ok(rng) => rng,
        Err(_) => return None,
    };
    Some(rand::distr::SampleString::sample_string(&rand::distr::Alphanumeric, &mut rng, PASSWORD_LEN))
}

pub open spec fn nonzero_or(p: u16, d: u16) -> u16 {
    if p > 0 {
        p
    } else {
        d
    }
}

/// Whether `ss` holds a share called `name`, and `i` is the first one.
pub open spec fn first_named_at(ss: Seq<RcloneShare>, name: Seq<char>, i: int) -> bool {
    &&& 0 <= i < ss.len()
    &&& ss[i].name@ == name
    &&& forall|j: int| 0 <= j < i ==> (#[trigger] ss[j]).name@ != name
}

pub open spec fn has_named(ss: Seq<RcloneShare>, name: Seq<char>) -> bool {
    exists|i: int| 0 <= i < ss.len() && (#[trigger] ss[i]).name@ == name
}

pub open spec fn create_request_valid(req: CreateRcloneShareRequest) -> bool {
    spec_share_name_error(req.name@) is None && spec_share_path_error(req.path@) is None
}

/// The share that an update request makes of `c`.
pub open spec fn spec_updated_share(c: RcloneShare, req: UpdateRcloneShareRequest) -> RcloneShare {
    RcloneShare {
        id: c.id,
        name: match req.name {
            Some(n) => n,
            None => c.name,
        },
        path: c.path,
        comment: match req.comment {
            Some(x) => Some(x),
            None => c.comment,
        },
        read_only: bool_or(req.read_only, c.read_only),
        enabled: bool_or(req.enabled, c.enabled),
    }
}

/// Another share than `c` already carries the new name of an update.
pub open spec fn update_name_clash(
    c: RcloneShare,
    name: Seq<char>,
    existing: Seq<RcloneShare>,
) -> bool {
    &&& name != c.name@
    &&& exists|i: int|
        0 <= i < existing.len() && (#[trigger] existing[i]).id@ != c.id@ && existing[i].name@
            == name
}

/// What a settings update is refused for, if anything: each given field is
/// checked in turn, then the passive range that results.
pub open spec fn spec_settings_update_error(
    kind: RcloneKind,
    stored: StoredServer,
    req: UpdateRcloneSettingsRequest,
) -> Option<Seq<char>> {
    let min = match req.passive_port_min {
        Some(m) => m,
        None => stored.passive_port_min,
    };
    let max = match req.passive_port_max {
        Some(m) => m,
        None => stored.passive_port_max,
    };
    let listen_bad = match req.listen {
        Some(l) => spec_listen_invalid(l@),
        None => false,
    };
    let port_err = match req.port {
        Some(p) => spec_port_error(kind, p),
        None => None,
    };
    let user_err = match req.username {
        Some(u) => spec_username_error(u@),
        None => None,
    };
    let pass_err = match req.password {
        Some(p) => spec_password_error(p@),
        None => None,
    };
    if listen_bad {
        Some("listen address contains invalid characters"@)
    } else if port_err is Some {
        port_err
    } else if user_err is Some {
        user_err
    } else if pass_err is Some {
        pass_err
    } else {
        spec_passive_range_error(min, max)
    }
}

pub open spec fn spec_updated_settings(
    kind: RcloneKind,
    stored: StoredServer,
    req: UpdateRcloneSettingsRequest,
) -> StoredServer {
    StoredServer {
        listen: match req.listen {
            Some(l) => l,
            None => stored.listen,
        },
        port: match req.port {
            Some(p) => p,
            None => stored.port,
        },
        username: match req.username {
            Some(u) => u,
            None => stored.username,
        },
        anonymous: match req.anonymous {
            Some(a) => a && kind == RcloneKind::Ftp,
            None => stored.anonymous,
        },
        passive_port_min: match req.passive_port_min {
            Some(m) => m,
            None => stored.passive_port_min,
        },
        passive_port_max: match req.passive_port_max {
            Some(m) => m,
            None => stored.passive_port_max,
        },
    }
}

pub open spec fn spec_listen_ports(kind: RcloneKind, stored: Option<&StoredServer>) -> RcloneListenPorts {
    let port = match stored {
        Some(s) => nonzero_or(s.port, kind_default_port(kind)),
        None => kind_default_port(kind),
    };
    let min = match stored {
        Some(s) => nonzero_or(s.passive_port_min, DEFAULT_PASSIVE_MIN),
        None => DEFAULT_PASSIVE_MIN,
    };
    let max = match stored {
        Some(s) => nonzero_or(s.passive_port_max, DEFAULT_PASSIVE_MAX),
        None => DEFAULT_PASSIVE_MAX,
    };
    RcloneListenPorts {
        port,
        passive: if kind == RcloneKind::Ftp {
            Some((min, max))
        } else {
            None
        },
    }
}

impl RcloneService {
    pub fn ftp() -> (r: Self)
        ensures
            r@ == RcloneKind::Ftp,
    {
        RcloneService { kind: RcloneKind::Ftp }
    }

    pub fn sftp() -> (r: Self)
        ensures
            r@ == RcloneKind::Sftp,
    {
        RcloneService { kind: RcloneKind::Sftp }
    }

    pub fn s3() -> (r: Self)
        ensures
            r@ == RcloneKind::S3,
    {
        RcloneService { kind: RcloneKind::S3 }
    }

    pub fn kind(&self) -> (r: RcloneKind)
        ensures
            r == self@,
    {
        self.kind
    }

    /// Settings for a protocol that has none stored yet, with a fresh random
    /// password; the caller seals the password and stores both. Fails where
    /// the operating system gives no random bytes.
    pub fn initial_settings(&self) -> (r: Result<(StoredServer, String), RcloneError>)
        ensures
            r matches Err(e) ==> (e matches RcloneError::Io(m) && m@ == NO_RANDOM_SOURCE_MSG@),
            r matches Ok(v) ==> {
                &&& v.0.listen@ == "0.0.0.0"@
                &&& v.0.port == kind_default_port(self@)
                &&& v.0.username@ == DEFAULT_USERNAME@
                &&& !v.0.anonymous
                &&& v.0.passive_port_min == DEFAULT_PASSIVE_MIN
                &&& v.0.passive_port_max == DEFAULT_PASSIVE_MAX
                &&& is_generated_password(v.1@)
            },
    {
        let password = match generate_password() {
            Some(p) => p,
            None => return Err(RcloneError::Io(String::from_str(NO_RANDOM_SOURCE_MSG))),
        };
        let stored = StoredServer {
            listen: String::from_str("0.0.0.0"),
            port: self.kind.default_port(),
            username: String::from_str(DEFAULT_USERNAME),
            anonymous: false,
            passive_port_min: DEFAULT_PASSIVE_MIN,
            passive_port_max: DEFAULT_PASSIVE_MAX,
        };
        Ok((stored, password))
    }

    /// The live settings of stored ones whose password the caller unsealed:
    /// empty or zero fields fall back to the defaults, and only FTP can be
    /// anonymous.
    pub fn settings(&self, stored: &StoredServer, password: String) -> (r: RcloneSettings)
        ensures
            r.listen@ == (if stored.listen@.len() == 0 {
                "0.0.0.0"@
            } else {
                stored.listen@
            }),
            r.port == nonzero_or(stored.port, kind_default_port(self@)),
            r.username@ == (if stored.username@.len() == 0 {
                DEFAULT_USERNAME@
            } else {
                stored.username@
            }),
            r.password@ == password@,
            r.anonymous == (stored.anonymous && self@ == RcloneKind::Ftp),
            r.passive_port_min == nonzero_or(stored.passive_port_min, DEFAULT_PASSIVE_MIN),
            r.passive_port_max == nonzero_or(stored.passive_port_max, DEFAULT_PASSIVE_MAX),
    {
        let listen = if stored.listen.as_str().is_empty() {
            String::from_str("0.0.0.0")
        } else {
            stored.listen.clone()
        };
        let username = if stored.username.as_str().is_empty() {
            String::from_str(DEFAULT_USERNAME)
        } else {
            stored.username.clone()
        };
        RcloneSettings {
            listen,
            port: if stored.port == 0 {
                self.kind.default_port()
            } else {
                stored.port
            },
            username,
            password,
            anonymous: stored.anonymous && self.kind == RcloneKind::Ftp,
            passive_port_min: if stored.passive_port_min == 0 {
                DEFAULT_PASSIVE_MIN
            } else {
                stored.passive_port_min
            },
            passive_port_max: if stored.passive_port_max == 0 {
                DEFAULT_PASSIVE_MAX
            } else {
                stored.passive_port_max
            },
        }
    }

    /// Applies a settings update to the stored settings. A new password is
    /// only checked here; sealing it is the caller's part.
    pub fn update_settings(&self, stored: StoredServer, req: &UpdateRcloneSettingsRequest) -> (r:
        Result<StoredServer, RcloneError>)
        ensures
            r is Ok <==> spec_settings_update_error(self@, stored, *req) is None,
            r is Err ==> invalid_settings_msg(r) == spec_settings_update_error(self@, stored, *req),
            r is Ok ==> r->Ok_0 == spec_updated_settings(self@, stored, *req),
    {
        let mut stored = stored;
        if let Some(listen) = &req.listen {
            match validate_listen(listen.as_str()) {
                Err(e) => return Err(e),
                Ok(()) => {},
            }
            stored.listen = listen.clone();
        }
        if let Some(port) = req.port {
            match validate_port(self.kind, port) {
                Err(e) => return Err(e),
                Ok(()) => {},
            }
            stored.port = port;
        }
        if let Some(username) = &req.username {
            match validate_username(username.as_str()) {
                Err(e) => return Err(e),
                Ok(()) => {},
            }
            stored.username = username.clone();
        }
        if let Some(password) = &req.password {
            match validate_password(password.as_str()) {
                Err(e) => return Err(e),
                Ok(()) => {},
            }
        }
        if let Some(anonymous) = req.anonymous {
            stored.anonymous = anonymous && self.kind == RcloneKind::Ftp;
        }
        if let Some(min) = req.passive_port_min {
            stored.passive_port_min = min;
        }
        if let Some(max) = req.passive_port_max {
            stored.passive_port_max = max;
        }
        match validate_passive_range(stored.passive_port_min, stored.passive_port_max) {
            Err(e) => return Err(e),
            Ok(()) => {},
        }
        Ok(stored)
    }

    /// Ports the firewall should open, from the stored settings where they
    /// could be read: zero fields fall back to the defaults.
    pub fn listen_ports(&self, stored: Option<&StoredServer>) -> (r: RcloneListenPorts)
        ensures
            r == spec_listen_ports(self@, stored),
            r.port > 0,
    {
        let port = match stored {
            Some(s) => if s.port > 0 {
                s.port
            } else {
                self.kind.default_port()
            },
            None => self.kind.default_port(),
        };
        let passive = if self.kind == RcloneKind::Ftp {
            let min = match stored {
                Some(s) => if s.passive_port_min > 0 {
                    s.passive_port_min
                } else {
                    DEFAULT_PASSIVE_MIN
                },
                None => DEFAULT_PASSIVE_MIN,
            };
            let max = match stored {
                Some(s) => if s.passive_port_max > 0 {
                    s.passive_port_max
                } else {
                    DEFAULT_PASSIVE_MAX
                },
                None => DEFAULT_PASSIVE_MAX,
            };
            Some((min, max))
        } else {
            None
        };
        RcloneListenPorts { port, passive }
    }

    /// Decides a create request. `canonical` is the canonical form of the
    /// requested path, or `None` where it does not exist; `existing` are the
    /// stored shares. A share of the same name is returned as it is.
    pub fn create(
        &self,
        req: CreateRcloneShareRequest,
        canonical: Option<String>,
        existing: Vec<RcloneShare>,
    ) -> (r: Result<RcloneShare, RcloneError>)
        ensures
            spec_share_name_error(req.name@) is Some ==> invalid_name_msg(r) == spec_share_name_error(
                req.name@,
            ),
            spec_share_name_error(req.name@) is None && spec_share_path_error(req.path@) is Some
                ==> invalid_path_msg(r) == spec_share_path_error(req.path@),
            create_request_valid(req) && canonical is None ==> (r matches Err(
                RcloneError::PathNotFound(p),
            ) && p@ == req.path@),
            create_request_valid(req) && canonical is Some && !spec_within_fs_root(
                canonical.unwrap()@,
            ) ==> (r matches Err(RcloneError::PathNotInFilesystem(p)) && p@ == req.path@),
            create_request_valid(req) && canonical is Some && spec_within_fs_root(
                canonical.unwrap()@,
            ) && has_named(existing@, req.name@) ==> r is Ok && exists|i: int|
                first_named_at(existing@, req.name@, i) && r->Ok_0 == existing@[i],
            create_request_valid(req) && canonical is Some && spec_within_fs_root(
                canonical.unwrap()@,
            ) && !has_named(existing@, req.name@) ==> (r matches Err(RcloneError::Io(m)) && m@
                == NO_RANDOM_SOURCE_MSG@) || r is Ok && is_v4_uuid_text(r->Ok_0.id@)
                && r->Ok_0.name@ == req.name@ && r->Ok_0.path@ == canonical.unwrap()@ && opt_str(
                r->Ok_0.comment,
            ) == opt_str(req.comment) && r->Ok_0.read_only == bool_or(req.read_only, false)
                && r->Ok_0.enabled == bool_or(req.enabled, true),
    {
        match validate_share_name(req.name.as_str()) {
            Err(e) => return Err(e),
            Ok(()) => {},
        }
        match validate_share_path(req.path.as_str()) {
            Err(e) => return Err(e),
            Ok(()) => {},
        }
        let ghost cv = canonical;
        let c = match canonical {
            None => return Err(RcloneError::PathNotFound(req.path)),
            Some(c) => c,
        };
        if !within_fs_root(c.as_str()) {
            return Err(RcloneError::PathNotInFilesystem(req.path));
        }
        let ghost ev = existing@;
        let mut pool = existing;
        let n = pool.len();
        let mut i: usize = 0;
        while i < n
            invariant
                n == pool@.len(),
                pool@ == ev,
                existing@ == ev,
                i <= n,
                spec_share_name_error(req.name@) is None,
                spec_share_path_error(req.path@) is None,
                cv == Some(c),
                canonical == cv,
                spec_within_fs_root(c@),
                forall|j: int| 0 <= j < i ==> (#[trigger] ev[j]).name@ != req.name@,
            decreases n - i,
        {
            if pool[i].name == req.name {
                let s = pool.remove(i);
                assert(first_named_at(ev, req.name@, i as int));
                return Ok(s);
            }
            i = i + 1;
        }
        let id = match new_share_id() {
            Some(id) => id,
            None => return Err(RcloneError::Io(String::from_str(NO_RANDOM_SOURCE_MSG))),
        };
        Ok(
            RcloneShare {
                id,
                name: req.name,
                path: c,
                comment: req.comment,
                read_only: match req.read_only {
                    Some(b) => b,
                    None => false,
                },
                enabled: match req.enabled {
                    Some(b) => b,
                    None => true,
                },
            },
        )
    }

    /// Decides an update request against the stored share `current` (`None`
    /// where no share has the requested id) and all stored shares.
    pub fn update(
        &self,
        req: UpdateRcloneShareRequest,
        current: Option<RcloneShare>,
        existing: &Vec<RcloneShare>,
    ) -> (r: Result<RcloneShare, RcloneError>)
        ensures
            current is None ==> (r matches Err(RcloneError::NotFound(m)) && m@ == req.id@),
            current is Some && req.name is Some && spec_share_name_error(req.name.unwrap()@) is Some
                ==> invalid_name_msg(r) == spec_share_name_error(req.name.unwrap()@),
            current is Some && req.name is Some && spec_share_name_error(req.name.unwrap()@) is None
                && update_name_clash(current.unwrap(), req.name.unwrap()@, existing@) ==> (r matches Err(
                RcloneError::NameExists(m),
            ) && m@ == req.name.unwrap()@),
            current is Some && (req.name is Some ==> spec_share_name_error(req.name.unwrap()@) is None
                && !update_name_clash(current.unwrap(), req.name.unwrap()@, existing@)) ==> r
                == Ok::<RcloneShare, RcloneError>(spec_updated_share(current.unwrap(), req)),
    {
        let ghost rq = req;
        let mut share = match current {
            None => return Err(RcloneError::NotFound(req.id)),
            Some(s) => s,
        };
        let ghost c = share;
        assert(current == Some(c));
        if let Some(n) = req.name {
            match validate_share_name(n.as_str()) {
                Err(e) => return Err(e),
                Ok(()) => {},
            }
            if !(n == share.name) {
                let m = existing.len();
                for k in 0..m
                    invariant
                        m == existing@.len(),
                        share == c,
                        n@ != c.name@,
                        current == Some(c),
                        rq == req,
                        rq.name == Some(n),
                        spec_share_name_error(n@) is None,
                        forall|j: int|
                            0 <= j < k ==> !((#[trigger] existing@[j]).id@ != c.id@
                                && existing@[j].name@ == n@),
                {
                    if !(existing[k].id == share.id) && existing[k].name == n {
                        return Err(RcloneError::NameExists(n));
                    }
                }
            }
            share.name = n;
        }
        if let Some(comment) = req.comment {
            share.comment = Some(comment);
        }
        if let Some(read_only) = req.read_only {
            share.read_only = read_only;
        }
        if let Some(enabled) = req.enabled {
            share.enabled = enabled;
        }
        Ok(share)
    }
}

} // verus!
