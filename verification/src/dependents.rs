//! Aggregate "what depends on this filesystem" across services.
//!
//! A path depends on filesystem `X` when it lives at or under `/fs/X`. Block
//! exports and VM disks that point at a loop device are attributed through
//! the subvolume that owns that device, and block exports also through the
//! immutable block-volume identity they recorded.
//!
//! Service state is read elsewhere and handed in as a [`DependentsSnapshot`];
//! read failures become `state_errors` so destructive callers can fail closed.
use vstd::prelude::*;

use crate::text::{chars_of, push_chars, push_lit, seq_eq, seq_has_prefix, string_of};

verus! {

pub open spec fn views(v: Seq<String>) -> Seq<Seq<char>> {
    v.map_values(|s: String| s@)
}

/// Names/IDs of every downstream entity that depends on a filesystem.
pub struct FsDependents {
    pub filesystem: String,
    pub mounted: bool,
    pub subvolumes: Vec<String>,
    pub apps_storage: bool,
    pub apps: Vec<String>,
    pub vms: Vec<String>,
    pub backup_jobs: Vec<String>,
    pub nfs_shares: Vec<String>,
    pub smb_shares: Vec<String>,
    pub ftp_shares: Vec<String>,
    pub sftp_shares: Vec<String>,
    pub s3_shares: Vec<String>,
    pub iscsi_targets: Vec<String>,
    pub nvmeof_subsystems: Vec<String>,
    pub state_errors: Vec<String>,
}

impl Default for FsDependents {
    fn default() -> (d: Self)
        ensures
            d.filesystem@ == Seq::<char>::empty(),
            !d.mounted,
            !d.apps_storage,
            d.subvolumes@.len() == 0,
            d.apps@.len() == 0,
            d.vms@.len() == 0,
            d.backup_jobs@.len() == 0,
            d.nfs_shares@.len() == 0,
            d.smb_shares@.len() == 0,
            d.ftp_shares@.len() == 0,
            d.sftp_shares@.len() == 0,
            d.s3_shares@.len() == 0,
            d.iscsi_targets@.len() == 0,
            d.nvmeof_subsystems@.len() == 0,
            d.state_errors@.len() == 0,
    {
        FsDependents {
            filesystem: String::new(),
            mounted: false,
            subvolumes: Vec::new(),
            apps_storage: false,
            apps: Vec::new(),
            vms: Vec::new(),
            backup_jobs: Vec::new(),
            nfs_shares: Vec::new(),
            smb_shares: Vec::new(),
            ftp_shares: Vec::new(),
            sftp_shares: Vec::new(),
            s3_shares: Vec::new(),
            iscsi_targets: Vec::new(),
            nvmeof_subsystems: Vec::new(),
            state_errors: Vec::new(),
        }
    }
}

impl FsDependents {
    /// Whether any entity depends on the filesystem. Read failures
    /// (`state_errors`) and mount state are reported separately.
    pub open spec fn spec_has_dependents(&self) -> bool {
        self.subvolumes@.len() > 0 || self.apps_storage || self.apps@.len() > 0 || self.vms@.len()
            > 0 || self.backup_jobs@.len() > 0 || self.nfs_shares@.len() > 0
            || self.smb_shares@.len() > 0 || self.ftp_shares@.len() > 0
            || self.sftp_shares@.len() > 0 || self.s3_shares@.len() > 0
            || self.iscsi_targets@.len() > 0 || self.nvmeof_subsystems@.len() > 0
    }

    pub fn has_dependents(&self) -> (r: bool)
        ensures
            r == self.spec_has_dependents(),
    {
        !self.subvolumes.is_empty() || self.apps_storage || !self.apps.is_empty()
            || !self.vms.is_empty() || !self.backup_jobs.is_empty()
            || !self.nfs_shares.is_empty() || !self.smb_shares.is_empty()
            || !self.ftp_shares.is_empty() || !self.sftp_shares.is_empty()
            || !self.s3_shares.is_empty() || !self.iscsi_targets.is_empty()
            || !self.nvmeof_subsystems.is_empty()
    }
}

/// True if `path` is `/fs/<fs>` or lies below `/fs/<fs>/`.
pub open spec fn spec_path_belongs_to_fs(path: Seq<char>, fs: Seq<char>) -> bool {
    ("/fs/"@ + fs + "/"@).is_prefix_of(path) || path == "/fs/"@ + fs
}

/// True if `path` falls under `/fs/<fs_name>/` or is that mount point. The
/// trailing slash matters: `/fs/tank2` does not belong to `tank`.
pub fn path_belongs_to_fs(path: &str, fs_name: &str) -> (r: bool)
    ensures
        r == spec_path_belongs_to_fs(path@, fs_name@),
{
    let p = chars_of(path);
    let f = chars_of(fs_name);
    let mut root = chars_of("/fs/");
    let mut i: usize = 0;
    while i < f.len()
        invariant
            i <= f.len(),
            root@ == "/fs/"@ + f@.take(i as int),
        decreases f.len() - i,
    {
        root.push(f[i]);
        assert(f@.take(i + 1) =~= f@.take(i as int).push(f@[i as int]));
        i = i + 1;
    }
    assert(f@.take(f@.len() as int) =~= f@);
    let exact = seq_eq(&p, &root);
    root.push('/');
    proof {
        reveal_strlit("/");
        assert(root@ =~= "/fs/"@ + f@ + "/"@);
    }
    seq_has_prefix(&p, &root) || exact
}

/// Identity of a block volume: stable across loop-device renumbering.
pub struct BlockVolumeId {
    pub filesystem_uuid: String,
    /// The remaining identity fields, in one canonical string.
    pub volume: String,
}

pub open spec fn id_view(b: BlockVolumeId) -> (Seq<char>, Seq<char>) {
    (b.filesystem_uuid@, b.volume@)
}

pub fn same_volume(a: &BlockVolumeId, b: &BlockVolumeId) -> (r: bool)
    ensures
        r == (id_view(*a) == id_view(*b)),
{
    let a1 = chars_of(a.filesystem_uuid.as_str());
    let b1 = chars_of(b.filesystem_uuid.as_str());
    let a2 = chars_of(a.volume.as_str());
    let b2 = chars_of(b.volume.as_str());
    seq_eq(&a1, &b1) && seq_eq(&a2, &b2)
}

/// A subvolume on the queried filesystem.
pub struct SubvolumeRef {
    pub name: String,
    pub block_device: Option<String>,
    pub block_volume_id: Option<BlockVolumeId>,
}

/// Where the apps runtime keeps its storage.
pub struct AppsStorageConfig {
    pub storage_path: Option<String>,
    pub appdata_path: Option<String>,
}

pub struct VmDiskRef {
    pub path: String,
    pub source: Option<String>,
}

pub struct VmRef {
    pub name: String,
    pub disks: Vec<VmDiskRef>,
}

pub struct BackupProfileRef {
    pub name: String,
    pub sources: Vec<String>,
}

/// A file share: `key` is what identifies it in the report (the NFS id or
/// the share name).
pub struct PathShareRef {
    pub key: String,
    pub path: String,
}

/// One LUN / namespace of a block export.
pub struct BlockExportRef {
    pub device_path: String,
    pub backing_volume: Option<BlockVolumeId>,
    pub backing_volume_unresolved: bool,
}

/// An iSCSI target (by IQN) or NVMe-oF subsystem (by NQN).
pub struct BlockTargetRef {
    pub name: String,
    pub exports: Vec<BlockExportRef>,
}

/// Everything the services reported, as plain values.
pub struct DependentsSnapshot {
    /// `Some(mounted)` when the filesystem itself could be read.
    pub mounted: Option<bool>,
    pub subvolumes: Result<Vec<SubvolumeRef>, String>,
    pub apps_config: Result<AppsStorageConfig, String>,
    /// The app list; only consulted when the apps storage is on this
    /// filesystem.
    pub apps: Result<Vec<String>, String>,
    pub vms: Result<Vec<VmRef>, String>,
    pub backups: Result<Vec<BackupProfileRef>, String>,
    pub nfs: Result<Vec<PathShareRef>, String>,
    pub smb: Result<Vec<PathShareRef>, String>,
    pub ftp: Result<Vec<PathShareRef>, String>,
    pub sftp: Result<Vec<PathShareRef>, String>,
    pub s3: Result<Vec<PathShareRef>, String>,
    pub iscsi: Result<Vec<BlockTargetRef>, String>,
    pub nvmeof: Result<Vec<BlockTargetRef>, String>,
}

// ── spec model ──────────────────────────────────────────────────

pub open spec fn opt_on_fs(p: Option<String>, fs: Seq<char>) -> bool {
    p matches Some(q) && spec_path_belongs_to_fs(q@, fs)
}

pub open spec fn opt_is(o: Option<String>, p: Seq<char>) -> bool {
    match o {
        Some(d) => d@ == p,
        None => false,
    }
}

pub open spec fn opt_id_is(o: Option<BlockVolumeId>, id: BlockVolumeId) -> bool {
    match o {
        Some(b) => id_view(b) == id_view(id),
        None => false,
    }
}

pub open spec fn is_block_device_of(subs: Seq<SubvolumeRef>, path: Seq<char>) -> bool {
    exists|i: int| #![auto] 0 <= i < subs.len() && opt_is(subs[i].block_device, path)
}

pub open spec fn is_block_id_of(subs: Seq<SubvolumeRef>, id: BlockVolumeId) -> bool {
    exists|i: int| #![auto] 0 <= i < subs.len() && opt_id_is(subs[i].block_volume_id, id)
}

pub open spec fn disk_touches(d: VmDiskRef, fs: Seq<char>, subs: Seq<SubvolumeRef>) -> bool {
    spec_path_belongs_to_fs(d.path@, fs) || opt_on_fs(d.source, fs) || is_block_device_of(
        subs,
        d.path@,
    )
}

pub open spec fn vm_touches(vm: VmRef, fs: Seq<char>, subs: Seq<SubvolumeRef>) -> bool {
    exists|j: int| #![auto] 0 <= j < vm.disks@.len() && disk_touches(vm.disks@[j], fs, subs)
}

pub open spec fn profile_touches(p: BackupProfileRef, fs: Seq<char>) -> bool {
    exists|j: int| #![auto] 0 <= j < p.sources@.len() && spec_path_belongs_to_fs(p.sources@[j]@, fs)
}

pub open spec fn export_touches(
    e: BlockExportRef,
    fs: Seq<char>,
    uuid: Option<Seq<char>>,
    subs: Seq<SubvolumeRef>,
) -> bool {
    spec_path_belongs_to_fs(e.device_path@, fs) || is_block_device_of(subs, e.device_path@) || (
    e.backing_volume matches Some(id) && (is_block_id_of(subs, id) || uuid == Some(
        id.filesystem_uuid@,
    )))
}

pub open spec fn target_touches(
    t: BlockTargetRef,
    fs: Seq<char>,
    uuid: Option<Seq<char>>,
    subs: Seq<SubvolumeRef>,
) -> bool {
    exists|j: int| #![auto] 0 <= j < t.exports@.len() && export_touches(t.exports@[j], fs, uuid, subs)
}

pub open spec fn target_unresolved(t: BlockTargetRef) -> bool {
    exists|j: int| #![auto]
        0 <= j < t.exports@.len() && t.exports@[j].backing_volume_unresolved
            && t.exports@[j].backing_volume is None
}

pub open spec fn select_vms(vms: Seq<VmRef>, fs: Seq<char>, subs: Seq<SubvolumeRef>) -> Seq<
    Seq<char>,
>
    decreases vms.len(),
{
    if vms.len() == 0 {
        Seq::empty()
    } else {
        let prev = select_vms(vms.drop_last(), fs, subs);
        if vm_touches(vms.last(), fs, subs) {
            prev.push(vms.last().name@)
        } else {
            prev
        }
    }
}

pub open spec fn select_profiles(ps: Seq<BackupProfileRef>, fs: Seq<char>) -> Seq<Seq<char>>
    decreases ps.len(),
{
    if ps.len() == 0 {
        Seq::empty()
    } else {
        let prev = select_profiles(ps.drop_last(), fs);
        if profile_touches(ps.last(), fs) {
            prev.push(ps.last().name@)
        } else {
            prev
        }
    }
}

pub open spec fn select_shares(ss: Seq<PathShareRef>, fs: Seq<char>) -> Seq<Seq<char>>
    decreases ss.len(),
{
    if ss.len() == 0 {
        Seq::empty()
    } else {
        let prev = select_shares(ss.drop_last(), fs);
        if spec_path_belongs_to_fs(ss.last().path@, fs) {
            prev.push(ss.last().key@)
        } else {
            prev
        }
    }
}

pub open spec fn select_targets(
    ts: Seq<BlockTargetRef>,
    fs: Seq<char>,
    uuid: Option<Seq<char>>,
    subs: Seq<SubvolumeRef>,
) -> Seq<Seq<char>>
    decreases ts.len(),
{
    if ts.len() == 0 {
        Seq::empty()
    } else {
        let prev = select_targets(ts.drop_last(), fs, uuid, subs);
        if target_touches(ts.last(), fs, uuid, subs) {
            prev.push(ts.last().name@)
        } else {
            prev
        }
    }
}

/// One warning per target whose legacy block-volume ownership is unresolved.
pub open spec fn unresolved_warnings(ts: Seq<BlockTargetRef>, what: Seq<char>) -> Seq<Seq<char>>
    decreases ts.len(),
{
    if ts.len() == 0 {
        Seq::empty()
    } else {
        let prev = unresolved_warnings(ts.drop_last(), what);
        if target_unresolved(ts.last()) {
            prev.push(
                what + " '"@ + ts.last().name@ + "' has unresolved legacy block-volume ownership"@,
            )
        } else {
            prev
        }
    }
}

pub open spec fn load_error(what: Seq<char>, e: Seq<char>) -> Seq<char> {
    what + " state failed to load: "@ + e
}

pub open spec fn err_msgs<T>(r: Result<T, String>, what: Seq<char>) -> Seq<Seq<char>> {
    match r {
        Ok(_) => Seq::empty(),
        Err(e) => seq![load_error(what, e@)],
    }
}

pub open spec fn subvolume_seq(snap: DependentsSnapshot) -> Seq<SubvolumeRef> {
    match snap.subvolumes {
        Ok(v) => v@,
        Err(_) => Seq::empty(),
    }
}

pub open spec fn spec_apps_storage_on_fs(c: AppsStorageConfig, fs: Seq<char>) -> bool {
    opt_on_fs(c.storage_path, fs) || opt_on_fs(c.appdata_path, fs)
}

pub open spec fn spec_apps_storage(snap: DependentsSnapshot, fs: Seq<char>) -> bool {
    snap.apps_config matches Ok(c) && spec_apps_storage_on_fs(c, fs)
}

pub open spec fn app_errors(snap: DependentsSnapshot, fs: Seq<char>) -> Seq<Seq<char>> {
    match snap.apps_config {
        Ok(c) => if spec_apps_storage_on_fs(c, fs) {
            err_msgs(snap.apps, "app"@)
        } else {
            Seq::empty()
        },
        Err(e) => seq!["app config failed to load: "@ + e@],
    }
}

/// The load error of a block listing (named `what`), or one warning per
/// target (each called `item`) whose ownership is unresolved.
pub open spec fn block_errors(
    r: Result<Vec<BlockTargetRef>, String>,
    what: Seq<char>,
    item: Seq<char>,
) -> Seq<Seq<char>> {
    match r {
        Ok(ts) => unresolved_warnings(ts@, item),
        Err(e) => seq![load_error(what, e@)],
    }
}

/// The state errors, in the order the services are consulted.
pub open spec fn spec_state_errors(snap: DependentsSnapshot, fs: Seq<char>) -> Seq<Seq<char>> {
    err_msgs(snap.subvolumes, "subvolume"@) + app_errors(snap, fs) + err_msgs(snap.vms, "VM"@)
        + err_msgs(snap.backups, "backup"@) + err_msgs(snap.nfs, "NFS"@) + err_msgs(
        snap.smb,
        "SMB"@,
    ) + err_msgs(snap.ftp, "FTP"@) + err_msgs(snap.sftp, "SFTP"@) + err_msgs(snap.s3, "S3"@)
        + block_errors(snap.iscsi, "iSCSI"@, "iSCSI target"@) + block_errors(
        snap.nvmeof,
        "NVMe-oF"@,
        "NVMe-oF subsystem"@,
    )
}

pub open spec fn shares_on(r: Result<Vec<PathShareRef>, String>, fs: Seq<char>) -> Seq<Seq<char>> {
    match r {
        Ok(v) => select_shares(v@, fs),
        Err(_) => Seq::empty(),
    }
}

pub open spec fn targets_on(
    r: Result<Vec<BlockTargetRef>, String>,
    fs: Seq<char>,
    uuid: Option<Seq<char>>,
    subs: Seq<SubvolumeRef>,
) -> Seq<Seq<char>> {
    match r {
        Ok(v) => select_targets(v@, fs, uuid, subs),
        Err(_) => Seq::empty(),
    }
}

pub open spec fn opt_view(o: Option<&str>) -> Option<Seq<char>> {
    match o {
        Some(s) => Some(s@),
        None => None,
    }
}

// ── executable pieces ───────────────────────────────────────────

fn load_error_msg(what: &str, e: &String) -> (r: String)
    ensures
        r@ == load_error(what@, e@),
{
    let mut s = String::new();
    push_lit(&mut s, what);
    push_lit(&mut s, " state failed to load: ");
    s.append(e.as_str());
    s
}

fn opt_path_on_fs(p: &Option<String>, fs_name: &str) -> (r: bool)
    ensures
        r == opt_on_fs(*p, fs_name@),
{
    match p {
        Some(q) => path_belongs_to_fs(q.as_str(), fs_name),
        None => false,
    }
}

/// Whether the apps runtime keeps its storage or app data on `fs_name`; when
/// it does, every app depends on the filesystem.
pub fn apps_storage_on_fs(config: &AppsStorageConfig, fs_name: &str) -> (r: bool)
    ensures
        r == spec_apps_storage_on_fs(*config, fs_name@),
{
    opt_path_on_fs(&config.storage_path, fs_name) || opt_path_on_fs(&config.appdata_path, fs_name)
}

fn block_device_of(subs: &Vec<SubvolumeRef>, path: &String) -> (r: bool)
    ensures
        r == is_block_device_of(subs@, path@),
{
    let p = chars_of(path.as_str());
    let n = subs.len();
    for i in 0..n
        invariant
            n == subs@.len(),
            p@ == path@,
            forall|k: int| #![auto]
                0 <= k < i ==> !opt_is(subs@[k].block_device, path@),
    {
        match &subs[i].block_device {
            Some(d) => {
                let dc = chars_of(d.as_str());
                if seq_eq(&dc, &p) {
                    assert(opt_is(subs@[i as int].block_device, path@));
                    return true;
                }
            },
            None => {},
        }
    }
    false
}

fn block_id_of(subs: &Vec<SubvolumeRef>, id: &BlockVolumeId) -> (r: bool)
    ensures
        r == is_block_id_of(subs@, *id),
{
    let n = subs.len();
    for i in 0..n
        invariant
            n == subs@.len(),
            forall|k: int| #![auto]
                0 <= k < i ==> !opt_id_is(subs@[k].block_volume_id, *id),
    {
        match &subs[i].block_volume_id {
            Some(b) => {
                if same_volume(b, id) {
                    assert(opt_id_is(subs@[i as int].block_volume_id, *id));
                    return true;
                }
            },
            None => {},
        }
    }
    false
}

fn disk_touches_fs(d: &VmDiskRef, fs_name: &str, subs: &Vec<SubvolumeRef>) -> (r: bool)
    ensures
        r == disk_touches(*d, fs_name@, subs@),
{
    path_belongs_to_fs(d.path.as_str(), fs_name) || opt_path_on_fs(&d.source, fs_name)
        || block_device_of(subs, &d.path)
}

fn vm_touches_fs(vm: &VmRef, fs_name: &str, subs: &Vec<SubvolumeRef>) -> (r: bool)
    ensures
        r == vm_touches(*vm, fs_name@, subs@),
{
    let n = vm.disks.len();
    for j in 0..n
        invariant
            n == vm.disks@.len(),
            forall|k: int| #![auto] 0 <= k < j ==> !disk_touches(vm.disks@[k], fs_name@, subs@),
    {
        if disk_touches_fs(&vm.disks[j], fs_name, subs) {
            return true;
        }
    }
    false
}

fn profile_touches_fs(p: &BackupProfileRef, fs_name: &str) -> (r: bool)
    ensures
        r == profile_touches(*p, fs_name@),
{
    let n = p.sources.len();
    for j in 0..n
        invariant
            n == p.sources@.len(),
            forall|k: int| #![auto]
                0 <= k < j ==> !spec_path_belongs_to_fs(p.sources@[k]@, fs_name@),
    {
        if path_belongs_to_fs(p.sources[j].as_str(), fs_name) {
            return true;
        }
    }
    false
}

fn uuid_matches(uuid: Option<&str>, id: &BlockVolumeId) -> (r: bool)
    ensures
        r == (opt_view(uuid) == Some(id.filesystem_uuid@)),
{
    match uuid {
        Some(u) => {
            let a = chars_of(u);
            let b = chars_of(id.filesystem_uuid.as_str());
            seq_eq(&a, &b)
        },
        None => false,
    }
}

fn export_touches_fs(
    e: &BlockExportRef,
    fs_name: &str,
    uuid: Option<&str>,
    subs: &Vec<SubvolumeRef>,
) -> (r: bool)
    ensures
        r == export_touches(*e, fs_name@, opt_view(uuid), subs@),
{
    if path_belongs_to_fs(e.device_path.as_str(), fs_name) || block_device_of(
        subs,
        &e.device_path,
    ) {
        return true;
    }
    match &e.backing_volume {
        Some(id) => block_id_of(subs, id) || uuid_matches(uuid, id),
        None => false,
    }
}

fn target_touches_fs(
    t: &BlockTargetRef,
    fs_name: &str,
    uuid: Option<&str>,
    subs: &Vec<SubvolumeRef>,
) -> (r: bool)
    ensures
        r == target_touches(*t, fs_name@, opt_view(uuid), subs@),
{
    let n = t.exports.len();
    for j in 0..n
        invariant
            n == t.exports@.len(),
            forall|k: int| #![auto]
                0 <= k < j ==> !export_touches(t.exports@[k], fs_name@, opt_view(uuid), subs@),
    {
        if export_touches_fs(&t.exports[j], fs_name, uuid, subs) {
            return true;
        }
    }
    false
}

fn target_is_unresolved(t: &BlockTargetRef) -> (r: bool)
    ensures
        r == target_unresolved(*t),
{
    let n = t.exports.len();
    for j in 0..n
        invariant
            n == t.exports@.len(),
            forall|k: int| #![auto]
                0 <= k < j ==> !(t.exports@[k].backing_volume_unresolved
                    && t.exports@[k].backing_volume is None),
    {
        if t.exports[j].backing_volume_unresolved && t.exports[j].backing_volume.is_none() {
            return true;
        }
    }
    false
}

fn vms_on_fs(vms: &Vec<VmRef>, fs_name: &str, subs: &Vec<SubvolumeRef>) -> (out: Vec<String>)
    ensures
        views(out@) == select_vms(vms@, fs_name@, subs@),
{
    let mut out: Vec<String> = Vec::new();
    let n = vms.len();
    for i in 0..n
        invariant
            n == vms@.len(),
            views(out@) == select_vms(vms@.take(i as int), fs_name@, subs@),
    {
        assert(vms@.take(i + 1).drop_last() =~= vms@.take(i as int));
        if vm_touches_fs(&vms[i], fs_name, subs) {
            out.push(vms[i].name.clone());
        }
        assert(views(out@) =~= select_vms(vms@.take(i + 1), fs_name@, subs@));
    }
    assert(vms@.take(n as int) =~= vms@);
    out
}

fn profiles_on_fs(ps: &Vec<BackupProfileRef>, fs_name: &str) -> (out: Vec<String>)
    ensures
        views(out@) == select_profiles(ps@, fs_name@),
{
    let mut out: Vec<String> = Vec::new();
    let n = ps.len();
    for i in 0..n
        invariant
            n == ps@.len(),
            views(out@) == select_profiles(ps@.take(i as int), fs_name@),
    {
        assert(ps@.take(i + 1).drop_last() =~= ps@.take(i as int));
        if profile_touches_fs(&ps[i], fs_name) {
            out.push(ps[i].name.clone());
        }
        assert(views(out@) =~= select_profiles(ps@.take(i + 1), fs_name@));
    }
    assert(ps@.take(n as int) =~= ps@);
    out
}

fn shares_on_fs(ss: &Vec<PathShareRef>, fs_name: &str) -> (out: Vec<String>)
    ensures
        views(out@) == select_shares(ss@, fs_name@),
{
    let mut out: Vec<String> = Vec::new();
    let n = ss.len();
    for i in 0..n
        invariant
            n == ss@.len(),
            views(out@) == select_shares(ss@.take(i as int), fs_name@),
    {
        assert(ss@.take(i + 1).drop_last() =~= ss@.take(i as int));
        if path_belongs_to_fs(ss[i].path.as_str(), fs_name) {
            out.push(ss[i].key.clone());
        }
        assert(views(out@) =~= select_shares(ss@.take(i + 1), fs_name@));
    }
    assert(ss@.take(n as int) =~= ss@);
    out
}

fn targets_on_fs(
    ts: &Vec<BlockTargetRef>,
    fs_name: &str,
    uuid: Option<&str>,
    subs: &Vec<SubvolumeRef>,
) -> (out: Vec<String>)
    ensures
        views(out@) == select_targets(ts@, fs_name@, opt_view(uuid), subs@),
{
    let mut out: Vec<String> = Vec::new();
    let n = ts.len();
    for i in 0..n
        invariant
            n == ts@.len(),
            views(out@) == select_targets(ts@.take(i as int), fs_name@, opt_view(uuid), subs@),
    {
        assert(ts@.take(i + 1).drop_last() =~= ts@.take(i as int));
        if target_touches_fs(&ts[i], fs_name, uuid, subs) {
            out.push(ts[i].name.clone());
        }
        assert(views(out@) =~= select_targets(ts@.take(i + 1), fs_name@, opt_view(uuid), subs@));
    }
    assert(ts@.take(n as int) =~= ts@);
    out
}

fn push_unresolved_warnings(errors: &mut Vec<String>, ts: &Vec<BlockTargetRef>, what: &str)
    ensures
        views(final(errors)@) == views(old(errors)@) + unresolved_warnings(ts@, what@),
{
    let ghost start = views(errors@);
    let n = ts.len();
    for i in 0..n
        invariant
            n == ts@.len(),
            views(errors@) == start + unresolved_warnings(ts@.take(i as int), what@),
    {
        assert(ts@.take(i + 1).drop_last() =~= ts@.take(i as int));
        assert(ts@.take(i + 1).last() == ts@[i as int]);
        let ghost prev = errors@;
        if target_is_unresolved(&ts[i]) {
            let mut s = String::new();
            push_lit(&mut s, what);
            push_lit(&mut s, " '");
            s.append(ts[i].name.as_str());
            push_lit(&mut s, "' has unresolved legacy block-volume ownership");
            assert(s@ == what@ + " '"@ + ts@[i as int].name@
                + "' has unresolved legacy block-volume ownership"@);
            errors.push(s);
            assert(views(errors@) =~= views(prev).push(s@));
        }
        assert(views(errors@) =~= start + unresolved_warnings(ts@.take(i + 1), what@));
    }
    assert(ts@.take(n as int) =~= ts@);
}

fn push_load_error<T>(errors: &mut Vec<String>, r: &Result<T, String>, what: &str)
    ensures
        views(final(errors)@) == views(old(errors)@) + err_msgs(*r, what@),
{
    match r {
        Ok(_) => {
            assert(views(errors@) =~= views(errors@) + Seq::<Seq<char>>::empty());
        },
        Err(e) => {
            let m = load_error_msg(what, e);
            errors.push(m);
            assert(views(errors@) =~= views(old(errors)@) + seq![load_error(what@, e@)]);
        },
    }
}

fn collect_shares(r: &Result<Vec<PathShareRef>, String>, fs_name: &str) -> (out: Vec<String>)
    ensures
        views(out@) == shares_on(*r, fs_name@),
{
    match r {
        Ok(v) => shares_on_fs(v, fs_name),
        Err(_) => {
            let out: Vec<String> = Vec::new();
            assert(views(out@) =~= Seq::<Seq<char>>::empty());
            out
        },
    }
}

fn collect_targets(
    r: &Result<Vec<BlockTargetRef>, String>,
    fs_name: &str,
    uuid: Option<&str>,
    subs: &Vec<SubvolumeRef>,
) -> (out: Vec<String>)
    ensures
        views(out@) == targets_on(*r, fs_name@, opt_view(uuid), subs@),
{
    match r {
        Ok(v) => targets_on_fs(v, fs_name, uuid, subs),
        Err(_) => {
            let out: Vec<String> = Vec::new();
            assert(views(out@) =~= Seq::<Seq<char>>::empty());
            out
        },
    }
}

fn push_block_errors(
    errors: &mut Vec<String>,
    r: &Result<Vec<BlockTargetRef>, String>,
    what: &str,
    item: &str,
)
    ensures
        views(final(errors)@) == views(old(errors)@) + block_errors(*r, what@, item@),
{
    match r {
        Ok(ts) => push_unresolved_warnings(errors, ts, item),
        Err(e) => {
            let m = load_error_msg(what, e);
            errors.push(m);
            assert(views(errors@) =~= views(old(errors)@) + seq![load_error(what@, e@)]);
        },
    }
}

/// Build the dependents view of filesystem `fs_name` from what every
/// service reported. `filesystem_uuid` additionally attributes block
/// exports whose recorded identity names that filesystem, so they stay
/// visible while the filesystem itself cannot be read.
pub fn collect_dependents(
    fs_name: &str,
    filesystem_uuid: Option<&str>,
    snap: &DependentsSnapshot,
) -> (out: FsDependents)
    ensures
        out.filesystem@ == fs_name@,
        out.mounted == (snap.mounted == Some(true)),
        views(out.subvolumes@) == subvolume_seq(*snap).map_values(|s: SubvolumeRef| s.name@),
        out.apps_storage == spec_apps_storage(*snap, fs_name@),
        views(out.apps@) == (if spec_apps_storage(*snap, fs_name@) && snap.apps is Ok {
            views(snap.apps->Ok_0@)
        } else {
            Seq::empty()
        }),
        views(out.vms@) == (match snap.vms {
            Ok(v) => select_vms(v@, fs_name@, subvolume_seq(*snap)),
            Err(_) => Seq::empty(),
        }),
        views(out.backup_jobs@) == (match snap.backups {
            Ok(v) => select_profiles(v@, fs_name@),
            Err(_) => Seq::empty(),
        }),
        views(out.nfs_shares@) == shares_on(snap.nfs, fs_name@),
        views(out.smb_shares@) == shares_on(snap.smb, fs_name@),
        views(out.ftp_shares@) == shares_on(snap.ftp, fs_name@),
        views(out.sftp_shares@) == shares_on(snap.sftp, fs_name@),
        views(out.s3_shares@) == shares_on(snap.s3, fs_name@),
        views(out.iscsi_targets@) == targets_on(
            snap.iscsi,
            fs_name@,
            opt_view(filesystem_uuid),
            subvolume_seq(*snap),
        ),
        views(out.nvmeof_subsystems@) == targets_on(
            snap.nvmeof,
            fs_name@,
            opt_view(filesystem_uuid),
            subvolume_seq(*snap),
        ),
        views(out.state_errors@) == spec_state_errors(*snap, fs_name@),
{
    let empty_subs: Vec<SubvolumeRef> = Vec::new();
    let subs: &Vec<SubvolumeRef> = match &snap.subvolumes {
        Ok(v) => v,
        Err(_) => &empty_subs,
    };
    assert(subs@ == subvolume_seq(*snap));
    let mut errors: Vec<String> = Vec::new();
    push_load_error(&mut errors, &snap.subvolumes, "subvolume");

    let mut subvolumes: Vec<String> = Vec::new();
    let n = subs.len();
    for i in 0..n
        invariant
            n == subs@.len(),
            views(subvolumes@) == subs@.take(i as int).map_values(|s: SubvolumeRef| s.name@),
    {
        let ghost prev = subvolumes@;
        let nm = subs[i].name.clone();
        assert(nm@ == subs@[i as int].name@);
        subvolumes.push(nm);
        assert(views(subvolumes@) =~= views(prev).push(subs@[i as int].name@));
        assert(subs@.take(i + 1) =~= subs@.take(i as int).push(subs@[i as int]));
        assert(views(subvolumes@) =~= subs@.take(i + 1).map_values(|s: SubvolumeRef| s.name@));
    }
    assert(subs@.take(n as int) =~= subs@);

    // Apps: when the runtime's storage is on this filesystem, every app is.
    let ghost before_apps = views(errors@);
    let mut apps_storage = false;
    let mut apps: Vec<String> = Vec::new();
    match &snap.apps_config {
        Ok(config) => {
            if apps_storage_on_fs(config, fs_name) {
                apps_storage = true;
                match &snap.apps {
                    Ok(list) => {
                        apps = list.clone();
                        assert(views(errors@) =~= before_apps + Seq::<Seq<char>>::empty());
                    },
                    Err(e) => {
                        let m = load_error_msg("app", e);
                        errors.push(m);
                        assert(views(errors@) =~= before_apps + seq![load_error("app"@, e@)]);
                    },
                }
            } else {
                assert(views(errors@) =~= before_apps + Seq::<Seq<char>>::empty());
            }
        },
        Err(e) => {
            let mut m = String::new();
            push_lit(&mut m, "app config failed to load: ");
            m.append(e.as_str());
            errors.push(m);
            assert(views(errors@) =~= before_apps + seq!["app config failed to load: "@ + e@]);
        },
    }
    assert(views(errors@) == before_apps + app_errors(*snap, fs_name@));

    let vms = match &snap.vms {
        Ok(v) => vms_on_fs(v, fs_name, subs),
        Err(_) => Vec::new(),
    };
    push_load_error(&mut errors, &snap.vms, "VM");

    let backup_jobs = match &snap.backups {
        Ok(v) => profiles_on_fs(v, fs_name),
        Err(_) => Vec::new(),
    };
    push_load_error(&mut errors, &snap.backups, "backup");

    let nfs_shares = collect_shares(&snap.nfs, fs_name);
    push_load_error(&mut errors, &snap.nfs, "NFS");
    let smb_shares = collect_shares(&snap.smb, fs_name);
    push_load_error(&mut errors, &snap.smb, "SMB");
    let ftp_shares = collect_shares(&snap.ftp, fs_name);
    push_load_error(&mut errors, &snap.ftp, "FTP");
    let sftp_shares = collect_shares(&snap.sftp, fs_name);
    push_load_error(&mut errors, &snap.sftp, "SFTP");
    let s3_shares = collect_shares(&snap.s3, fs_name);
    push_load_error(&mut errors, &snap.s3, "S3");

    push_block_errors(&mut errors, &snap.iscsi, "iSCSI", "iSCSI target");
    let iscsi_targets = collect_targets(&snap.iscsi, fs_name, filesystem_uuid, subs);
    push_block_errors(&mut errors, &snap.nvmeof, "NVMe-oF", "NVMe-oF subsystem");
    let nvmeof_subsystems = collect_targets(&snap.nvmeof, fs_name, filesystem_uuid, subs);

    proof {
        let e = spec_state_errors(*snap, fs_name@);
        assert(views(errors@) =~= e);
    }
    let vms_empty_ok = match &snap.vms {
        Ok(_) => true,
        Err(_) => true,
    };
    assert(vms_empty_ok);
    FsDependents {
        filesystem: String::from_str(fs_name),
        mounted: match snap.mounted {
            Some(m) => m,
            None => false,
        },
        subvolumes,
        apps_storage,
        apps,
        vms,
        backup_jobs,
        nfs_shares,
        smb_shares,
        ftp_shares,
        sftp_shares,
        s3_shares,
        iscsi_targets,
        nvmeof_subsystems,
        state_errors: errors,
    }
}

// ── locked-filesystem badges ────────────────────────────────────

/// Only encrypted-and-locked filesystems carry a "locked" badge.
pub fn is_locked_encrypted(encrypted: Option<bool>, locked: Option<bool>) -> (r: bool)
    ensures
        r == (encrypted == Some(true) && locked == Some(true)),
{
    encrypted == Some(true) && locked == Some(true)
}

/// A filesystem's name and its `encrypted` and `locked` options.
pub struct FsLockState {
    pub name: String,
    pub encrypted: Option<bool>,
    pub locked: Option<bool>,
}

/// The names of the encrypted-and-locked filesystems, in the order given.
pub open spec fn spec_locked_names(fss: Seq<FsLockState>) -> Seq<Seq<char>>
    decreases fss.len(),
{
    if fss.len() == 0 {
        Seq::empty()
    } else if fss.last().encrypted == Some(true) && fss.last().locked == Some(true) {
        spec_locked_names(fss.drop_last()).push(fss.last().name@)
    } else {
        spec_locked_names(fss.drop_last())
    }
}

/// The filesystems whose dependents are gathered for the locked badges:
/// those encrypted and locked, in the order listed.
pub fn locked_filesystem_names(fss: &Vec<FsLockState>) -> (r: Vec<String>)
    ensures
        r@.len() == spec_locked_names(fss@).len(),
        forall|i: int| 0 <= i < r@.len() ==> (#[trigger] r@[i])@ == spec_locked_names(fss@)[i],
{
    let mut out: Vec<String> = Vec::new();
    let n = fss.len();
    for k in 0..n
        invariant
            n == fss@.len(),
            out@.len() == spec_locked_names(fss@.take(k as int)).len(),
            forall|i: int|
                0 <= i < out@.len() ==> (#[trigger] out@[i])@ == spec_locked_names(fss@.take(k as int))[i],
    {
        assert(fss@.take(k + 1).drop_last() =~= fss@.take(k as int));
        assert(fss@.take(k + 1).last() == fss@[k as int]);
        if is_locked_encrypted(fss[k].encrypted, fss[k].locked) {
            let name = String::from_str(fss[k].name.as_str());
            out.push(name);
        }
    }
    assert(fss@.take(n as int) =~= fss@);
    out
}

/// A locked filesystem is reported only when it blocks an app or a VM.
pub fn blocks_apps_or_vms(deps: &FsDependents) -> (r: bool)
    ensures
        r == (deps.apps@.len() > 0 || deps.vms@.len() > 0),
{
    !deps.apps.is_empty() || !deps.vms.is_empty()
}

/// The dependents of the locked filesystems that block an app or a VM, in
/// the order given.
pub open spec fn spec_blocking(ds: Seq<FsDependents>) -> Seq<FsDependents>
    decreases ds.len(),
{
    if ds.len() == 0 {
        ds
    } else if ds.last().apps@.len() > 0 || ds.last().vms@.len() > 0 {
        spec_blocking(ds.drop_last()).push(ds.last())
    } else {
        spec_blocking(ds.drop_last())
    }
}

/// Of the dependents of the encrypted-and-locked filesystems, those that
/// block an app or a VM: what the Apps and VMs pages show as locked.
pub fn locked_dependents(locked: Vec<FsDependents>) -> (r: Vec<FsDependents>)
    ensures
        r@ == spec_blocking(locked@),
{
    let ghost all = locked@;
    let mut rest = locked;
    let mut out: Vec<FsDependents> = Vec::new();
    let n = rest.len();
    let mut k: usize = 0;
    while k < n
        invariant
            n == all.len(),
            k <= n,
            rest@ == all.skip(k as int),
            out@ == spec_blocking(all.take(k as int)),
        decreases n - k,
    {
        let d = rest.remove(0);
        assert(d == all[k as int]);
        assert(all.take(k + 1).drop_last() =~= all.take(k as int));
        assert(all.take(k + 1).last() == all[k as int]);
        assert(rest@ =~= all.skip(k + 1));
        if blocks_apps_or_vms(&d) {
            out.push(d);
        }
        k = k + 1;
    }
    assert(all.take(n as int) =~= all);
    out
}

// ── laws ────────────────────────────────────────────────────────

/// A path belongs to at most one filesystem: the trailing-slash rule keeps
/// `/fs/tank2/...` from matching `tank` (names never contain `/`).
pub proof fn law_path_belongs_to_one_fs(path: Seq<char>, a: Seq<char>, b: Seq<char>)
    requires
        !a.contains('/'),
        !b.contains('/'),
        spec_path_belongs_to_fs(path, a),
        spec_path_belongs_to_fs(path, b),
    ensures
        a == b,
{
    reveal_strlit("/fs/");
    reveal_strlit("/");
    let pa = "/fs/"@ + a;
    let pb = "/fs/"@ + b;
    assert(pa.is_prefix_of(path));
    assert(pb.is_prefix_of(path));
    if a.len() < b.len() {
        // path[4 + a.len()] is '/' (or the end) under `a`, but b's char there.
        let k: int = 4 + a.len() as int;
        let q = "/fs/"@ + a + "/"@;
        if q.is_prefix_of(path) {
            assert(q.len() == k + 1);
            assert(q[k] == '/');
            assert(path[k] == q[k]);
        } else {
            assert(path.len() == k);
        }
        assert(path[k] == pb[k]);
        assert(pb[k] == b[a.len() as int]);
        assert(b.contains(b[a.len() as int]));
    } else if b.len() < a.len() {
        let k: int = 4 + b.len() as int;
        let q = "/fs/"@ + b + "/"@;
        if q.is_prefix_of(path) {
            assert(q.len() == k + 1);
            assert(q[k] == '/');
            assert(path[k] == q[k]);
        } else {
            assert(path.len() == k);
        }
        assert(path[k] == pa[k]);
        assert(pa[k] == a[b.len() as int]);
        assert(a.contains(a[b.len() as int]));
    } else {
        assert forall|i: int| 0 <= i < a.len() implies a[i] == b[i] by {
            assert(path[4 + i] == pa[4 + i]);
            assert(path[4 + i] == pb[4 + i]);
        }
        assert(a =~= b);
    }
}

/// Whether a filesystem "has dependents" is decided by the dependency
/// fields alone: read failures and mount state never count as one.
pub proof fn law_dependents_ignore_state_errors(d: FsDependents, e: FsDependents)
    requires
        d.subvolumes@.len() == e.subvolumes@.len(),
        d.apps_storage == e.apps_storage,
        d.apps@.len() == e.apps@.len(),
        d.vms@.len() == e.vms@.len(),
        d.backup_jobs@.len() == e.backup_jobs@.len(),
        d.nfs_shares@.len() == e.nfs_shares@.len(),
        d.smb_shares@.len() == e.smb_shares@.len(),
        d.ftp_shares@.len() == e.ftp_shares@.len(),
        d.sftp_shares@.len() == e.sftp_shares@.len(),
        d.s3_shares@.len() == e.s3_shares@.len(),
        d.iscsi_targets@.len() == e.iscsi_targets@.len(),
        d.nvmeof_subsystems@.len() == e.nvmeof_subsystems@.len(),
    ensures
        d.spec_has_dependents() == e.spec_has_dependents(),
{
}

/// A backup profile with a source on `fs`: any one of its sources counts.
pub open spec fn has_source_on(p: BackupProfileRef, fs: Seq<char>) -> bool {
    exists|j: int| 0 <= j < p.sources@.len() && spec_path_belongs_to_fs(#[trigger] p.sources@[j]@, fs)
}

/// Some profile of `ps` named `name` has a source on `fs`.
pub open spec fn named_profile_on(ps: Seq<BackupProfileRef>, fs: Seq<char>, name: Seq<char>) -> bool {
    exists|i: int| 0 <= i < ps.len() && has_source_on(#[trigger] ps[i], fs) && ps[i].name@ == name
}

/// A backup profile is listed as a dependent of a filesystem as soon as one
/// of its sources (not necessarily all) lies on it, and every name listed
/// is that of such a profile.
pub proof fn law_profiles_with_any_source_on_fs_are_listed(ps: Seq<BackupProfileRef>, fs: Seq<char>)
    ensures
        forall|i: int, j: int|
            #![trigger ps[i].sources@[j]]
            0 <= i < ps.len() && 0 <= j < ps[i].sources@.len() && spec_path_belongs_to_fs(
                ps[i].sources@[j]@,
                fs,
            ) ==> select_profiles(ps, fs).contains(ps[i].name@),
        forall|k: int|
            #![trigger select_profiles(ps, fs)[k]]
            0 <= k < select_profiles(ps, fs).len() ==> named_profile_on(
                ps,
                fs,
                select_profiles(ps, fs)[k],
            ),
    decreases ps.len(),
{
    if ps.len() > 0 {
        let prev = ps.drop_last();
        law_profiles_with_any_source_on_fs_are_listed(prev, fs);
        let last = ps.last();
        let sp = select_profiles(prev, fs);
        assert(profile_touches(last, fs) == has_source_on(last, fs)) by {
            if profile_touches(last, fs) {
                let j = choose|j: int|
                    #![auto]
                    0 <= j < last.sources@.len() && spec_path_belongs_to_fs(last.sources@[j]@, fs);
                assert(spec_path_belongs_to_fs(last.sources@[j]@, fs));
            }
            if has_source_on(last, fs) {
                let j = choose|j: int|
                    0 <= j < last.sources@.len() && spec_path_belongs_to_fs(
                        #[trigger] last.sources@[j]@,
                        fs,
                    );
                assert(spec_path_belongs_to_fs(last.sources@[j]@, fs));
            }
        }
        assert forall|i: int, j: int|
            #![trigger ps[i].sources@[j]]
            0 <= i < ps.len() && 0 <= j < ps[i].sources@.len() && spec_path_belongs_to_fs(
                ps[i].sources@[j]@,
                fs,
            ) implies select_profiles(ps, fs).contains(ps[i].name@) by {
            if i < ps.len() - 1 {
                assert(prev[i] == ps[i]);
                assert(prev[i].sources@[j] == ps[i].sources@[j]);
                assert(sp.contains(ps[i].name@));
                if profile_touches(last, fs) {
                    let w = choose|w: int| 0 <= w < sp.len() && sp[w] == ps[i].name@;
                    assert(sp.push(last.name@)[w] == ps[i].name@);
                }
            } else {
                assert(has_source_on(last, fs));
                assert(sp.push(last.name@)[sp.len() as int] == last.name@);
            }
        }
        assert forall|k: int|
            #![trigger select_profiles(ps, fs)[k]]
            0 <= k < select_profiles(ps, fs).len() implies named_profile_on(
            ps,
            fs,
            select_profiles(ps, fs)[k],
        ) by {
            if k < sp.len() {
                assert(select_profiles(ps, fs)[k] == sp[k]);
                assert(named_profile_on(prev, fs, sp[k]));
                let i = choose|i: int|
                    0 <= i < prev.len() && has_source_on(#[trigger] prev[i], fs) && prev[i].name@
                        == sp[k];
                assert(ps[i] == prev[i]);
                assert(has_source_on(ps[i], fs));
            } else {
                assert(profile_touches(last, fs));
                assert(select_profiles(ps, fs)[k] == last.name@);
                assert(ps[ps.len() - 1] == last);
                assert(has_source_on(ps[ps.len() - 1], fs));
            }
        }
    } else {
        assert(select_profiles(ps, fs).len() == 0);
    }
}

}
