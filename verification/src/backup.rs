//! Access rules for backup profiles: a profile that reads anything outside
//! the data filesystems under `/fs` captures system state and needs an
//! unscoped admin session.
use vstd::prelude::*;

use crate::dependents::{opt_view, BackupProfileRef};
use crate::rpc_policy::Role;
use crate::text::{chars_are, chars_of, seq_eq};

verus! {

/// The fields of an authenticated session that access decisions read.
pub struct Session {
    pub username: String,
    pub role: Role,
    /// Set when the session is scoped to one filesystem.
    pub filesystem: Option<String>,
    /// Set when the session is scoped to one owner.
    pub owner: Option<String>,
    pub must_change_password: bool,
}

/// Closes the component being read: empty and `.` components vanish, as
/// they do when a path is split into components.
pub open spec fn close_segment(done: Seq<Seq<char>>, cur: Seq<char>) -> Seq<Seq<char>> {
    if cur.len() == 0 || cur == seq!['.'] {
        done
    } else {
        done.push(cur)
    }
}

/// Completed components and the component being read, after `s`.
pub open spec fn segment_state(s: Seq<char>) -> (Seq<Seq<char>>, Seq<char>)
    decreases s.len(),
{
    if s.len() == 0 {
        (Seq::empty(), Seq::empty())
    } else {
        let (done, cur) = segment_state(s.drop_last());
        if s.last() == '/' {
            (close_segment(done, cur), Seq::empty())
        } else {
            (done, cur.push(s.last()))
        }
    }
}

/// The normal components of a path: separators collapse and `.` drops out.
pub open spec fn segments(s: Seq<char>) -> Seq<Seq<char>> {
    close_segment(segment_state(s).0, segment_state(s).1)
}

/// An absolute path naming `/fs/<name>` or something below it, with no
/// `..` component after `/fs`.
pub open spec fn spec_is_data_source(s: Seq<char>) -> bool {
    let segs = segments(s);
    &&& s.len() > 0
    &&& s[0] == '/'
    &&& segs.len() >= 2
    &&& segs[0] == seq!['f', 's']
    &&& forall|i: int| 1 <= i < segs.len() ==> segs[i] != seq!['.', '.']
}

fn is_dot(cur: &Vec<char>) -> (r: bool)
    ensures
        r == (cur@ == seq!['.']),
{
    if cur.len() == 1 && cur[0] == '.' {
        assert(cur@ =~= seq!['.']);
        true
    } else {
        false
    }
}

pub(crate) fn path_segments(s: &Vec<char>) -> (out: Vec<Vec<char>>)
    ensures
        out@.map_values(|v: Vec<char>| v@) == segments(s@),
{
    let mut done: Vec<Vec<char>> = Vec::new();
    let mut cur: Vec<char> = Vec::new();
    let n = s.len();
    for i in 0..n
        invariant
            n == s@.len(),
            (done@.map_values(|v: Vec<char>| v@), cur@) == segment_state(s@.take(i as int)),
    {
        assert(s@.take(i + 1).drop_last() =~= s@.take(i as int));
        assert(s@.take(i + 1).last() == s@[i as int]);
        let c = s[i];
        if c == '/' {
            if cur.len() > 0 && !is_dot(&cur) {
                let ghost before = done@;
                done.push(cur);
                assert(done@.map_values(|v: Vec<char>| v@) =~= before.map_values(
                    |v: Vec<char>| v@,
                ).push(cur@));
            }
            cur = Vec::new();
            assert(cur@ =~= Seq::<char>::empty());
        } else {
            cur.push(c);
        }
    }
    assert(s@.take(n as int) =~= s@);
    if cur.len() > 0 && !is_dot(&cur) {
        let ghost before = done@;
        done.push(cur);
        assert(done@.map_values(|v: Vec<char>| v@) =~= before.map_values(|v: Vec<char>| v@).push(
            cur@,
        ));
    }
    done
}

/// True when `source` names data under a filesystem mount (`/fs/<name>...`),
/// i.e. not system state.
pub fn is_data_source(source: &str) -> (r: bool)
    ensures
        r == spec_is_data_source(source@),
{
    let s = chars_of(source);
    if s.len() == 0 || s[0] != '/' {
        return false;
    }
    let segs = path_segments(&s);
    let ghost sv = segs@.map_values(|v: Vec<char>| v@);
    if segs.len() < 2 {
        return false;
    }
    let fs: Vec<char> = vec!['f', 's'];
    assert(fs@ =~= seq!['f', 's']);
    assert(sv[0] == segs@[0]@);
    if !seq_eq(&segs[0], &fs) {
        return false;
    }
    let dots: Vec<char> = vec!['.', '.'];
    assert(dots@ =~= seq!['.', '.']);
    let n = segs.len();
    for i in 1..n
        invariant
            n == segs@.len(),
            dots@ == seq!['.', '.'],
            sv == segs@.map_values(|v: Vec<char>| v@),
            sv == segments(source@),
            forall|j: int| 1 <= j < i ==> sv[j] != seq!['.', '.'],
    {
        assert(sv[i as int] == segs@[i as int]@);
        if seq_eq(&segs[i], &dots) {
            return false;
        }
    }
    true
}

/// A path whose components begin with the root and then `fs`: `/fs` itself
/// or anything below it, compared component by component.
pub open spec fn spec_within_fs_root(s: Seq<char>) -> bool {
    &&& s.len() > 0
    &&& s[0] == '/'
    &&& segments(s).len() >= 1
    &&& segments(s)[0] == seq!['f', 's']
}

/// Whether `path` lies in the tree of filesystem mounts under `/fs`.
pub fn within_fs_root(path: &str) -> (r: bool)
    ensures
        r == spec_within_fs_root(path@),
{
    let s = chars_of(path);
    if s.len() == 0 || s[0] != '/' {
        return false;
    }
    let segs = path_segments(&s);
    let ghost sv = segs@.map_values(|v: Vec<char>| v@);
    if segs.len() < 1 {
        return false;
    }
    let fs: Vec<char> = vec!['f', 's'];
    assert(fs@ =~= seq!['f', 's']);
    assert(sv[0] == segs@[0]@);
    seq_eq(&segs[0], &fs)
}

pub open spec fn spec_profile_requires_admin(p: BackupProfileRef) -> bool {
    exists|i: int| #![auto] 0 <= i < p.sources@.len() && !spec_is_data_source(p.sources@[i]@)
}

/// A profile reading anything but data under `/fs` captures system state.
pub fn profile_requires_admin(profile: &BackupProfileRef) -> (r: bool)
    ensures
        r == spec_profile_requires_admin(*profile),
{
    let n = profile.sources.len();
    for i in 0..n
        invariant
            n == profile.sources@.len(),
            forall|j: int| #![auto] 0 <= j < i ==> spec_is_data_source(profile.sources@[j]@),
    {
        if !is_data_source(profile.sources[i].as_str()) {
            return true;
        }
    }
    false
}

pub open spec fn spec_profile_access_error(session: Session, profile: BackupProfileRef) -> Option<
    Seq<char>,
> {
    if session.filesystem is Some || session.owner is Some {
        Some("backup management requires an unscoped session"@)
    } else if spec_profile_requires_admin(profile) && session.role != Role::Admin {
        Some("an admin session is required for system-state backup profiles"@)
    } else {
        None
    }
}

/// Why `session` may not manage `profile`, or `None` when it may: backup
/// management needs an unscoped session, and system-state profiles an admin.
pub fn profile_access_error(session: &Session, profile: &BackupProfileRef) -> (r: Option<
    &'static str,
>)
    ensures
        opt_view(r) == spec_profile_access_error(*session, *profile),
{
    if session.filesystem.is_some() || session.owner.is_some() {
        return Some("backup management requires an unscoped session");
    }
    if profile_requires_admin(profile) && session.role != Role::Admin {
        return Some("an admin session is required for system-state backup profiles");
    }
    None
}

}

verus! {

// ── routing of backup requests ──────────────────────────────────

/// What a `backup.*` request does.
#[derive(Clone, Copy, Debug, PartialEq, Eq, Structural)]
pub enum BackupAction {
    ListProfiles,
    GetProfile,
    CreateProfile,
    UpdateProfile,
    DeleteProfile,
    Status,
    InitRepo,
    Run,
    Snapshots,
    Restore,
    CheckRepo,
    ListJobs,
    GetJob,
    SecretsStatus,
}

/// The action a method names, if it is a backup method.
pub open spec fn spec_backup_action(m: Seq<char>) -> Option<BackupAction> {
    if m == "backup.profile.list"@ {
        Some(BackupAction::ListProfiles)
    } else if m == "backup.profile.get"@ {
        Some(BackupAction::GetProfile)
    } else if m == "backup.profile.create"@ {
        Some(BackupAction::CreateProfile)
    } else if m == "backup.profile.update"@ {
        Some(BackupAction::UpdateProfile)
    } else if m == "backup.profile.delete"@ {
        Some(BackupAction::DeleteProfile)
    } else if m == "backup.status"@ {
        Some(BackupAction::Status)
    } else if m == "backup.repo.init"@ {
        Some(BackupAction::InitRepo)
    } else if m == "backup.run"@ {
        Some(BackupAction::Run)
    } else if m == "backup.snapshots"@ {
        Some(BackupAction::Snapshots)
    } else if m == "backup.restore"@ {
        Some(BackupAction::Restore)
    } else if m == "backup.repo.check"@ {
        Some(BackupAction::CheckRepo)
    } else if m == "backup.jobs.list"@ {
        Some(BackupAction::ListJobs)
    } else if m == "backup.jobs.get"@ {
        Some(BackupAction::GetJob)
    } else if m == "backup.secrets_status"@ {
        Some(BackupAction::SecretsStatus)
    } else {
        None
    }
}

/// The action takes the `id` parameter, required before anything else.
pub open spec fn spec_needs_id(a: BackupAction) -> bool {
    a == BackupAction::GetProfile
    || a == BackupAction::UpdateProfile
    || a == BackupAction::DeleteProfile
    || a == BackupAction::InitRepo
    || a == BackupAction::Run
    || a == BackupAction::Snapshots
    || a == BackupAction::CheckRepo
    || a == BackupAction::GetJob
}

/// The action acts on a stored profile, which the session must be allowed
/// to manage.
pub open spec fn spec_checks_stored_profile(a: BackupAction) -> bool {
    a == BackupAction::UpdateProfile
    || a == BackupAction::DeleteProfile
    || a == BackupAction::InitRepo
    || a == BackupAction::Run
    || a == BackupAction::Restore
    || a == BackupAction::CheckRepo
}

/// The action stores a submitted profile, which the session must be
/// allowed to manage.
pub open spec fn spec_checks_submitted_profile(a: BackupAction) -> bool {
    a == BackupAction::CreateProfile
    || a == BackupAction::UpdateProfile
}

/// Routes a backup method to its action.
pub fn backup_action(method: &str) -> (r: Option<BackupAction>)
    ensures
        r == spec_backup_action(method@),
{
    let m = chars_of(method);
    if chars_are(&m, "backup.profile.list") {
        Some(BackupAction::ListProfiles)
    } else if chars_are(&m, "backup.profile.get") {
        Some(BackupAction::GetProfile)
    } else if chars_are(&m, "backup.profile.create") {
        Some(BackupAction::CreateProfile)
    } else if chars_are(&m, "backup.profile.update") {
        Some(BackupAction::UpdateProfile)
    } else if chars_are(&m, "backup.profile.delete") {
        Some(BackupAction::DeleteProfile)
    } else if chars_are(&m, "backup.status") {
        Some(BackupAction::Status)
    } else if chars_are(&m, "backup.repo.init") {
        Some(BackupAction::InitRepo)
    } else if chars_are(&m, "backup.run") {
        Some(BackupAction::Run)
    } else if chars_are(&m, "backup.snapshots") {
        Some(BackupAction::Snapshots)
    } else if chars_are(&m, "backup.restore") {
        Some(BackupAction::Restore)
    } else if chars_are(&m, "backup.repo.check") {
        Some(BackupAction::CheckRepo)
    } else if chars_are(&m, "backup.jobs.list") {
        Some(BackupAction::ListJobs)
    } else if chars_are(&m, "backup.jobs.get") {
        Some(BackupAction::GetJob)
    } else if chars_are(&m, "backup.secrets_status") {
        Some(BackupAction::SecretsStatus)
    } else {
        None
    }
}

impl BackupAction {
    pub fn needs_id(self) -> (r: bool)
        ensures
            r == spec_needs_id(self),
    {
        match self {
            BackupAction::ListProfiles => false,
            BackupAction::GetProfile => true,
            BackupAction::CreateProfile => false,
            BackupAction::UpdateProfile => true,
            BackupAction::DeleteProfile => true,
            BackupAction::Status => false,
            BackupAction::InitRepo => true,
            BackupAction::Run => true,
            BackupAction::Snapshots => true,
            BackupAction::Restore => false,
            BackupAction::CheckRepo => true,
            BackupAction::ListJobs => false,
            BackupAction::GetJob => true,
            BackupAction::SecretsStatus => false,
        }
    }

    pub fn checks_stored_profile(self) -> (r: bool)
        ensures
            r == spec_checks_stored_profile(self),
    {
        match self {
            BackupAction::ListProfiles => false,
            BackupAction::GetProfile => false,
            BackupAction::CreateProfile => false,
            BackupAction::UpdateProfile => true,
            BackupAction::DeleteProfile => true,
            BackupAction::Status => false,
            BackupAction::InitRepo => true,
            BackupAction::Run => true,
            BackupAction::Snapshots => false,
            BackupAction::Restore => true,
            BackupAction::CheckRepo => true,
            BackupAction::ListJobs => false,
            BackupAction::GetJob => false,
            BackupAction::SecretsStatus => false,
        }
    }

    pub fn checks_submitted_profile(self) -> (r: bool)
        ensures
            r == spec_checks_submitted_profile(self),
    {
        match self {
            BackupAction::ListProfiles => false,
            BackupAction::GetProfile => false,
            BackupAction::CreateProfile => true,
            BackupAction::UpdateProfile => true,
            BackupAction::DeleteProfile => false,
            BackupAction::Status => false,
            BackupAction::InitRepo => false,
            BackupAction::Run => false,
            BackupAction::Snapshots => false,
            BackupAction::Restore => false,
            BackupAction::CheckRepo => false,
            BackupAction::ListJobs => false,
            BackupAction::GetJob => false,
            BackupAction::SecretsStatus => false,
        }
    }

}

/// The job-list filter: a missing or empty profile id lists every job.
pub fn jobs_profile_filter(profile_id: Option<&str>) -> (r: Option<&str>)
    ensures
        r == match profile_id {
            Some(p) => if p@.len() > 0 {
                Some(p)
            } else {
                None
            },
            None => None,
        },
{
    match profile_id {
        Some(p) => if p.is_empty() {
            None
        } else {
            Some(p)
        },
        None => None,
    }
}

/// Every backup action that changes, runs or restores a stored profile
/// checks that the session may manage it; every action that stores a
/// submitted profile checks that profile too.
pub proof fn law_backup_mutations_are_checked(a: BackupAction)
    ensures
        (a == BackupAction::UpdateProfile || a == BackupAction::DeleteProfile || a
            == BackupAction::InitRepo || a == BackupAction::Run || a == BackupAction::Restore || a
            == BackupAction::CheckRepo) ==> spec_checks_stored_profile(a),
        (a == BackupAction::CreateProfile || a == BackupAction::UpdateProfile)
            ==> spec_checks_submitted_profile(a),
{
}

} // verus!
