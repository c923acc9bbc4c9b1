//! Whether a subvolume, block device or filesystem is still in use, from
//! the state the sharing and VM services report, and how VM disks map to
//! the subvolumes behind them.
use vstd::prelude::*;

use crate::dependents::{
    id_view, opt_id_is, same_volume, BlockExportRef, BlockTargetRef, BlockVolumeId, PathShareRef,
    VmRef,
};
use crate::text::{chars_of, push_lit, seq_eq, seq_has_prefix, str_eq, string_of};

verus! {

/// Whether an export is backed by the device `device` or by the volume `id`.
pub open spec fn export_hit(e: BlockExportRef, device: Option<Seq<char>>, id: Option<BlockVolumeId>) -> bool {
    (device matches Some(d) && e.device_path@ == d) || (id matches Some(i) && opt_id_is(
        e.backing_volume,
        i,
    ))
}

pub open spec fn target_hit(t: BlockTargetRef, device: Option<Seq<char>>, id: Option<BlockVolumeId>) -> bool {
    exists|i: int| 0 <= i < t.exports@.len() && export_hit(#[trigger] t.exports@[i], device, id)
}

/// The name of the first target that exports the device or volume.
pub open spec fn first_hit(
    ts: Seq<BlockTargetRef>,
    device: Option<Seq<char>>,
    id: Option<BlockVolumeId>,
) -> Option<Seq<char>>
    decreases ts.len(),
{
    if ts.len() == 0 {
        None
    } else if target_hit(ts[0], device, id) {
        Some(ts[0].name@)
    } else {
        first_hit(ts.drop_first(), device, id)
    }
}

fn opt_same(o: &Option<BlockVolumeId>, id: &BlockVolumeId) -> (r: bool)
    ensures
        r == opt_id_is(*o, *id),
{
    match o {
        Some(b) => same_volume(b, id),
        None => false,
    }
}

fn hits(e: &BlockExportRef, device: Option<&str>, id: Option<&BlockVolumeId>) -> (r: bool)
    ensures
        r == export_hit(
            *e,
            crate::dependents::opt_view(device),
            match id {
                Some(i) => Some(*i),
                None => None,
            },
        ),
{
    let by_device = match device {
        Some(d) => str_eq(e.device_path.as_str(), d),
        None => false,
    };
    let by_id = match id {
        Some(i) => opt_same(&e.backing_volume, i),
        None => false,
    };
    by_device || by_id
}

fn find_hit(ts: &Vec<BlockTargetRef>, device: Option<&str>, id: Option<&BlockVolumeId>) -> (r:
    Option<String>)
    ensures
        crate::text::opt_str(r) == first_hit(
            ts@,
            crate::dependents::opt_view(device),
            match id {
                Some(i) => Some(*i),
                None => None,
            },
        ),
{
    let ghost dv = crate::dependents::opt_view(device);
    let ghost iv = match id {
        Some(i) => Some(*i),
        None => None,
    };
    let n = ts.len();
    let mut i: usize = 0;
    assert(ts@.skip(0) =~= ts@);
    while i < n
        invariant
            n == ts@.len(),
            i <= n,
            dv == crate::dependents::opt_view(device),
            iv == (match id {
                Some(i) => Some(*i),
                None => None::<BlockVolumeId>,
            }),
            first_hit(ts@, dv, iv) == first_hit(ts@.skip(i as int), dv, iv),
        decreases n - i,
    {
        assert(ts@.skip(i as int)[0] == ts@[i as int]);
        assert(ts@.skip(i as int).drop_first() =~= ts@.skip(i + 1));
        let t = &ts[i];
        let m = t.exports.len();
        let mut found = false;
        for k in 0..m
            invariant
                m == t.exports@.len(),
                dv == crate::dependents::opt_view(device),
                iv == (match id {
                    Some(i) => Some(*i),
                    None => None::<BlockVolumeId>,
                }),
                found == exists|j: int| 0 <= j < k && export_hit(#[trigger] t.exports@[j], dv, iv),
        {
            if hits(&t.exports[k], device, id) {
                found = true;
            }
        }
        if found {
            return Some(t.name.clone());
        }
        i = i + 1;
    }
    None
}

// ── block devices ───────────────────────────────────────────────

/// Why a block device may not be exported by another protocol: it already
/// is (through its path or through the volume identity it belongs to), or
/// the exports could not be read. `exclude_protocol` (`iscsi` or
/// `nvmeof`) is the one asking, whose own exports are not checked.
pub open spec fn spec_block_device_conflict(
    device: Seq<char>,
    identity: Result<Option<BlockVolumeId>, String>,
    exclude_protocol: Seq<char>,
    iscsi: Result<Vec<BlockTargetRef>, String>,
    nvmeof: Result<Vec<BlockTargetRef>, String>,
) -> Option<Seq<char>> {
    match identity {
        Err(e) => Some(e@),
        Ok(id) => {
            let iscsi_msg = if exclude_protocol == "iscsi"@ {
                None
            } else {
                match iscsi {
                    Ok(ts) => match first_hit(ts@, Some(device), id) {
                        Some(iqn) => Some(
                            "device "@ + device + " is already exported via iSCSI (target '"@ + iqn
                                + "')"@,
                        ),
                        None => None,
                    },
                    Err(e) => Some(
                        "cannot verify iSCSI device conflicts because state failed to load: "@
                            + e@,
                    ),
                }
            };
            if iscsi_msg is Some {
                iscsi_msg
            } else if exclude_protocol == "nvmeof"@ {
                None
            } else {
                match nvmeof {
                    Ok(ts) => match first_hit(ts@, Some(device), id) {
                        Some(nqn) => Some(
                            "device "@ + device + " is already exported via NVMe-oF (subsystem '"@
                                + nqn + "')"@,
                        ),
                        None => None,
                    },
                    Err(e) => Some(
                        "cannot verify NVMe-oF device conflicts because state failed to load: "@
                            + e@,
                    ),
                }
            }
        },
    }
}

pub fn check_block_device_conflict(
    device_path: &str,
    identity: &Result<Option<BlockVolumeId>, String>,
    exclude_protocol: &str,
    iscsi: &Result<Vec<BlockTargetRef>, String>,
    nvmeof: &Result<Vec<BlockTargetRef>, String>,
) -> (r: Option<String>)
    ensures
        crate::text::opt_str(r) == spec_block_device_conflict(
            device_path@,
            *identity,
            exclude_protocol@,
            *iscsi,
            *nvmeof,
        ),
{
    let id: Option<&BlockVolumeId> = match identity {
        Err(e) => return Some(e.clone()),
        Ok(i) => match i {
            Some(x) => Some(x),
            None => None,
        },
    };
    if !str_eq(exclude_protocol, "iscsi") {
        match iscsi {
            Ok(ts) => match find_hit(ts, Some(device_path), id) {
                Some(iqn) => {
                    let mut m = String::from_str("device ");
                    m.append(device_path);
                    m.append(" is already exported via iSCSI (target '");
                    m.append(iqn.as_str());
                    m.append("')");
                    return Some(m);
                },
                None => {},
            },
            Err(e) => {
                let mut m = String::from_str(
                    "cannot verify iSCSI device conflicts because state failed to load: ",
                );
                m.append(e.as_str());
                return Some(m);
            },
        }
    }
    if !str_eq(exclude_protocol, "nvmeof") {
        match nvmeof {
            Ok(ts) => match find_hit(ts, Some(device_path), id) {
                Some(nqn) => {
                    let mut m = String::from_str("device ");
                    m.append(device_path);
                    m.append(" is already exported via NVMe-oF (subsystem '");
                    m.append(nqn.as_str());
                    m.append("')");
                    return Some(m);
                },
                None => {},
            },
            Err(e) => {
                let mut m = String::from_str(
                    "cannot verify NVMe-oF device conflicts because state failed to load: ",
                );
                m.append(e.as_str());
                return Some(m);
            },
        }
    }
    None
}

} // verus!

verus! {

// ── subvolumes ──────────────────────────────────────────────────

/// A subvolume whose deletion is being checked.
pub struct SubvolumeUse {
    pub path: String,
    pub block_device: Option<String>,
    pub block_volume_id: Option<BlockVolumeId>,
}

/// `p` is `root` or lies below it.
pub open spec fn under_path(p: Seq<char>, root: Seq<char>) -> bool {
    p == root || (root + seq!['/']).is_prefix_of(p)
}

/// The first share at or below `root`.
pub open spec fn first_share_under(ss: Seq<PathShareRef>, root: Seq<char>) -> Option<PathShareRef>
    decreases ss.len(),
{
    if ss.len() == 0 {
        None
    } else if under_path(ss[0].path@, root) {
        Some(ss[0])
    } else {
        first_share_under(ss.drop_first(), root)
    }
}

/// The name of the first VM with a disk at `device`.
pub open spec fn vm_using(vms: Seq<VmRef>, device: Seq<char>) -> Option<Seq<char>>
    decreases vms.len(),
{
    if vms.len() == 0 {
        None
    } else if exists|j: int|
        0 <= j < vms[0].disks@.len() && (#[trigger] vms[0].disks@[j]).path@ == device {
        Some(vms[0].name@)
    } else {
        vm_using(vms.drop_first(), device)
    }
}

/// The message of the first share of a listing (where it could be read)
/// that lies at or below `root`; `what` names the protocol. NFS shares are
/// named by path, the others by name.
pub open spec fn share_use_msg(r: Result<Vec<PathShareRef>, String>, root: Seq<char>, what: Seq<char>, by_path: bool) -> Option<Seq<char>> {
    match r {
        Ok(ss) => match first_share_under(ss@, root) {
            Some(s) => Some(
                if by_path {
                    "subvolume is shared via "@ + what + " (path: "@ + s.path@ + "). Delete the "@
                        + what + " share first."@
                } else {
                    "subvolume is shared via "@ + what + " as '"@ + s.key@ + "'. Delete the "@ + what
                        + " share first."@
                },
            ),
            None => None,
        },
        Err(_) => None,
    }
}

pub open spec fn block_use_msg(
    r: Result<Vec<BlockTargetRef>, String>,
    device: Option<Seq<char>>,
    id: Option<BlockVolumeId>,
    nvme: bool,
) -> Option<Seq<char>> {
    match r {
        Ok(ts) => match first_hit(ts@, device, id) {
            Some(n) => Some(
                if nvme {
                    "subvolume is in use by NVMe-oF subsystem '"@ + n
                        + "'. Delete the subsystem first."@
                } else {
                    "subvolume is in use by iSCSI target '"@ + n + "'. Delete the target first."@
                },
            ),
            None => None,
        },
        Err(e) => Some(
            if nvme {
                "cannot verify NVMe-oF dependencies because state failed to load: "@ + e@
            } else {
                "cannot verify iSCSI dependencies because state failed to load: "@ + e@
            },
        ),
    }
}

pub open spec fn or_else(a: Option<Seq<char>>, b: Option<Seq<char>>) -> Option<Seq<char>> {
    if a is Some {
        a
    } else {
        b
    }
}

/// Why a subvolume may not be deleted: a VM uses its block device, a block
/// export uses its device or volume (or the exports could not be read), or
/// a file share lies at or below its path. An unknown subvolume is free.
pub open spec fn spec_subvolume_in_use(
    sv: Option<SubvolumeUse>,
    vms: Result<Vec<VmRef>, String>,
    iscsi: Result<Vec<BlockTargetRef>, String>,
    nvmeof: Result<Vec<BlockTargetRef>, String>,
    nfs: Result<Vec<PathShareRef>, String>,
    smb: Result<Vec<PathShareRef>, String>,
    ftp: Result<Vec<PathShareRef>, String>,
    sftp: Result<Vec<PathShareRef>, String>,
    s3: Result<Vec<PathShareRef>, String>,
) -> Option<Seq<char>> {
    match sv {
        None => None,
        Some(s) => {
            let dev = crate::text::opt_str(s.block_device);
            let vm_msg = match dev {
                Some(d) => match vms {
                    Ok(v) => match vm_using(v@, d) {
                        Some(n) => Some(
                            "subvolume is in use as a disk by VM '"@ + n
                                + "'. Detach the disk first."@,
                        ),
                        None => None,
                    },
                    Err(_) => None,
                },
                None => None,
            };
            or_else(
                vm_msg,
                or_else(
                    block_use_msg(iscsi, dev, s.block_volume_id, false),
                    or_else(
                        block_use_msg(nvmeof, dev, s.block_volume_id, true),
                        or_else(
                            share_use_msg(nfs, s.path@, "NFS"@, true),
                            or_else(
                                share_use_msg(smb, s.path@, "SMB"@, false),
                                or_else(
                                    share_use_msg(ftp, s.path@, "FTP"@, false),
                                    or_else(
                                        share_use_msg(sftp, s.path@, "SFTP"@, false),
                                        share_use_msg(s3, s.path@, "S3"@, false),
                                    ),
                                ),
                            ),
                        ),
                    ),
                ),
            )
        },
    }
}

fn is_under(p: &String, root: &Vec<char>) -> (r: bool)
    ensures
        r == under_path(p@, root@),
{
    let pc = chars_of(p.as_str());
    let mut rs = root.clone();
    assert(rs@ == root@);
    rs.push('/');
    seq_eq(&pc, root) || seq_has_prefix(&pc, &rs)
}

fn find_share_under(ss: &Vec<PathShareRef>, root: &Vec<char>) -> (r: Option<usize>)
    ensures
        match first_share_under(ss@, root@) {
            Some(s) => r matches Some(i) && i < ss@.len() && ss@[i as int] == s,
            None => r is None,
        },
{
    let n = ss.len();
    let mut i: usize = 0;
    assert(ss@.skip(0) =~= ss@);
    while i < n
        invariant
            n == ss@.len(),
            i <= n,
            first_share_under(ss@, root@) == first_share_under(ss@.skip(i as int), root@),
        decreases n - i,
    {
        assert(ss@.skip(i as int)[0] == ss@[i as int]);
        assert(ss@.skip(i as int).drop_first() =~= ss@.skip(i + 1));
        if is_under(&ss[i].path, root) {
            return Some(i);
        }
        i = i + 1;
    }
    None
}

fn share_message(r: &Result<Vec<PathShareRef>, String>, root: &Vec<char>, what: &str, by_path: bool) -> (m: Option<String>)
    ensures
        crate::text::opt_str(m) == share_use_msg(*r, root@, what@, by_path),
{
    match r {
        Ok(ss) => match find_share_under(ss, root) {
            Some(i) => {
                let s = &ss[i];
                let mut m = String::from_str("subvolume is shared via ");
                m.append(what);
                if by_path {
                    m.append(" (path: ");
                    m.append(s.path.as_str());
                    m.append("). Delete the ");
                } else {
                    m.append(" as '");
                    m.append(s.key.as_str());
                    m.append("'. Delete the ");
                }
                m.append(what);
                m.append(" share first.");
                Some(m)
            },
            None => None,
        },
        Err(_) => None,
    }
}

fn block_message(
    r: &Result<Vec<BlockTargetRef>, String>,
    device: Option<&str>,
    id: Option<&BlockVolumeId>,
    nvme: bool,
) -> (m: Option<String>)
    ensures
        crate::text::opt_str(m) == block_use_msg(
            *r,
            crate::dependents::opt_view(device),
            match id {
                Some(i) => Some(*i),
                None => None,
            },
            nvme,
        ),
{
    match r {
        Ok(ts) => match find_hit(ts, device, id) {
            Some(n) => {
                let mut m = if nvme {
                    String::from_str("subvolume is in use by NVMe-oF subsystem '")
                } else {
                    String::from_str("subvolume is in use by iSCSI target '")
                };
                m.append(n.as_str());
                if nvme {
                    m.append("'. Delete the subsystem first.");
                } else {
                    m.append("'. Delete the target first.");
                }
                Some(m)
            },
            None => None,
        },
        Err(e) => {
            let mut m = if nvme {
                String::from_str("cannot verify NVMe-oF dependencies because state failed to load: ")
            } else {
                String::from_str("cannot verify iSCSI dependencies because state failed to load: ")
            };
            m.append(e.as_str());
            Some(m)
        },
    }
}

fn find_vm_using(vms: &Vec<VmRef>, device: &str) -> (r: Option<String>)
    ensures
        crate::text::opt_str(r) == vm_using(vms@, device@),
{
    let n = vms.len();
    let mut i: usize = 0;
    assert(vms@.skip(0) =~= vms@);
    while i < n
        invariant
            n == vms@.len(),
            i <= n,
            vm_using(vms@, device@) == vm_using(vms@.skip(i as int), device@),
        decreases n - i,
    {
        assert(vms@.skip(i as int)[0] == vms@[i as int]);
        assert(vms@.skip(i as int).drop_first() =~= vms@.skip(i + 1));
        let vm = &vms[i];
        let m = vm.disks.len();
        let mut found = false;
        for k in 0..m
            invariant
                m == vm.disks@.len(),
                found == exists|j: int| 0 <= j < k && (#[trigger] vm.disks@[j]).path@ == device@,
        {
            if str_eq(vm.disks[k].path.as_str(), device) {
                found = true;
            }
        }
        if found {
            return Some(vm.name.clone());
        }
        i = i + 1;
    }
    None
}

/// Why a subvolume may not be deleted, if it may not: from the subvolume
/// (`None` where it is not known) and the state each service reported.
pub fn check_subvolume_in_use(
    sv: &Option<SubvolumeUse>,
    vms: &Result<Vec<VmRef>, String>,
    iscsi: &Result<Vec<BlockTargetRef>, String>,
    nvmeof: &Result<Vec<BlockTargetRef>, String>,
    nfs: &Result<Vec<PathShareRef>, String>,
    smb: &Result<Vec<PathShareRef>, String>,
    ftp: &Result<Vec<PathShareRef>, String>,
    sftp: &Result<Vec<PathShareRef>, String>,
    s3: &Result<Vec<PathShareRef>, String>,
) -> (r: Option<String>)
    ensures
        crate::text::opt_str(r) == spec_subvolume_in_use(
            *sv,
            *vms,
            *iscsi,
            *nvmeof,
            *nfs,
            *smb,
            *ftp,
            *sftp,
            *s3,
        ),
{
    let s = match sv {
        None => return None,
        Some(s) => s,
    };
    let dev: Option<&str> = match &s.block_device {
        Some(d) => Some(d.as_str()),
        None => None,
    };
    let id: Option<&BlockVolumeId> = match &s.block_volume_id {
        Some(i) => Some(i),
        None => None,
    };
    assert(crate::dependents::opt_view(dev) == crate::text::opt_str(s.block_device));
    if let Some(d) = dev {
        if let Ok(v) = vms {
            if let Some(n) = find_vm_using(v, d) {
                let mut m = String::from_str("subvolume is in use as a disk by VM '");
                m.append(n.as_str());
                m.append("'. Detach the disk first.");
                return Some(m);
            }
        }
    }
    if let Some(m) = block_message(iscsi, dev, id, false) {
        return Some(m);
    }
    if let Some(m) = block_message(nvmeof, dev, id, true) {
        return Some(m);
    }
    let root = chars_of(s.path.as_str());
    if let Some(m) = share_message(nfs, &root, "NFS", true) {
        return Some(m);
    }
    if let Some(m) = share_message(smb, &root, "SMB", false) {
        return Some(m);
    }
    if let Some(m) = share_message(ftp, &root, "FTP", false) {
        return Some(m);
    }
    if let Some(m) = share_message(sftp, &root, "SFTP", false) {
        return Some(m);
    }
    share_message(s3, &root, "S3", false)
}

// ── filesystems ─────────────────────────────────────────────────

/// A subvolume with the filesystem it is on and why it may not be deleted
/// (`None` where it may).
pub struct SubvolumeCheck {
    pub filesystem: String,
    pub name: String,
    pub in_use: Option<String>,
}

/// The first subvolume of filesystem `fs` that is in use.
pub open spec fn first_busy(cs: Seq<SubvolumeCheck>, fs: Seq<char>) -> Option<SubvolumeCheck>
    decreases cs.len(),
{
    if cs.len() == 0 {
        None
    } else if cs[0].filesystem@ == fs && cs[0].in_use is Some {
        Some(cs[0])
    } else {
        first_busy(cs.drop_first(), fs)
    }
}

/// Why filesystem `name` may not be destroyed: one of its subvolumes is in
/// use, or the apps runtime (where enabled; `apps_storage` is its storage
/// path) keeps its storage on it.
pub open spec fn spec_filesystem_in_use(
    name: Seq<char>,
    subvolumes: Seq<SubvolumeCheck>,
    apps_storage: Option<Seq<char>>,
) -> Option<Seq<char>> {
    match first_busy(subvolumes, name) {
        Some(c) => Some(
            "filesystem '"@ + name + "' cannot be destroyed: subvolume '"@ + c.name@
                + "' is in use — "@ + crate::text::opt_str(c.in_use).unwrap(),
        ),
        None => match apps_storage {
            Some(p) => if ("/fs/"@ + name + seq!['/']).is_prefix_of(p) {
                Some(
                    "filesystem '"@ + name
                        + "' cannot be destroyed: apps runtime storage is on this filesystem. Disable Apps first."@,
                )
            } else {
                None
            },
            None => None,
        },
    }
}

pub fn check_filesystem_in_use(
    name: &str,
    subvolumes: &Vec<SubvolumeCheck>,
    apps_storage: Option<&str>,
) -> (r: Option<String>)
    ensures
        crate::text::opt_str(r) == spec_filesystem_in_use(
            name@,
            subvolumes@,
            crate::dependents::opt_view(apps_storage),
        ),
{
    let n = subvolumes.len();
    let mut i: usize = 0;
    assert(subvolumes@.skip(0) =~= subvolumes@);
    while i < n
        invariant
            n == subvolumes@.len(),
            i <= n,
            first_busy(subvolumes@, name@) == first_busy(subvolumes@.skip(i as int), name@),
        decreases n - i,
    {
        assert(subvolumes@.skip(i as int)[0] == subvolumes@[i as int]);
        assert(subvolumes@.skip(i as int).drop_first() =~= subvolumes@.skip(i + 1));
        let c = &subvolumes[i];
        if str_eq(c.filesystem.as_str(), name) {
            if let Some(reason) = &c.in_use {
                let mut m = String::from_str("filesystem '");
                m.append(name);
                m.append("' cannot be destroyed: subvolume '");
                m.append(c.name.as_str());
                m.append("' is in use — ");
                m.append(reason.as_str());
                return Some(m);
            }
        }
        i = i + 1;
    }
    match apps_storage {
        Some(p) => {
            let pc = chars_of(p);
            let mut root = String::from_str("/fs/");
            root.append(name);
            root.push('/');
            let rc = chars_of(root.as_str());
            if seq_has_prefix(&pc, &rc) {
                let mut m = String::from_str("filesystem '");
                m.append(name);
                m.append(
                    "' cannot be destroyed: apps runtime storage is on this filesystem. Disable Apps first.",
                );
                Some(m)
            } else {
                None
            }
        },
        None => None,
    }
}

// ── VM disks ────────────────────────────────────────────────────

/// A block subvolume and the loop device it is attached to, if any.
pub struct BlockSubvolume {
    pub filesystem: String,
    pub name: String,
    pub block_device: Option<String>,
}

/// A VM disk and the subvolume behind it.
pub struct VmDiskSubvolume {
    pub filesystem: String,
    pub subvolume: String,
    pub device: String,
}

/// The first subvolume attached at `path`.
pub open spec fn subvolume_at(svs: Seq<BlockSubvolume>, path: Seq<char>) -> Option<BlockSubvolume>
    decreases svs.len(),
{
    if svs.len() == 0 {
        None
    } else if crate::text::opt_str(svs[0].block_device) == Some(path) {
        Some(svs[0])
    } else {
        subvolume_at(svs.drop_first(), path)
    }
}

pub open spec fn disk_subvolume_view(d: VmDiskSubvolume) -> (Seq<char>, Seq<char>, Seq<char>) {
    (d.filesystem@, d.subvolume@, d.device@)
}

/// The subvolumes behind a VM's disks, in disk order; disks on no block
/// subvolume are left out.
pub open spec fn spec_resolve_vm_disks(disks: Seq<String>, svs: Seq<BlockSubvolume>) -> Seq<
    (Seq<char>, Seq<char>, Seq<char>),
>
    decreases disks.len(),
{
    if disks.len() == 0 {
        Seq::empty()
    } else {
        let rest = spec_resolve_vm_disks(disks.drop_last(), svs);
        match subvolume_at(svs, disks.last()@) {
            Some(s) => rest.push((s.filesystem@, s.name@, disks.last()@)),
            None => rest,
        }
    }
}

fn find_subvolume_at(svs: &Vec<BlockSubvolume>, path: &String) -> (r: Option<usize>)
    ensures
        match subvolume_at(svs@, path@) {
            Some(s) => r matches Some(i) && i < svs@.len() && svs@[i as int] == s,
            None => r is None,
        },
{
    let n = svs.len();
    let mut i: usize = 0;
    assert(svs@.skip(0) =~= svs@);
    while i < n
        invariant
            n == svs@.len(),
            i <= n,
            subvolume_at(svs@, path@) == subvolume_at(svs@.skip(i as int), path@),
        decreases n - i,
    {
        assert(svs@.skip(i as int)[0] == svs@[i as int]);
        assert(svs@.skip(i as int).drop_first() =~= svs@.skip(i + 1));
        let hit = match &svs[i].block_device {
            Some(bd) => *bd == *path,
            None => false,
        };
        if hit {
            return Some(i);
        }
        i = i + 1;
    }
    None
}

/// Resolves VM disk paths to the subvolumes whose loop devices they are.
pub fn resolve_vm_disks(disk_paths: &Vec<String>, subvolumes: &Vec<BlockSubvolume>) -> (r: Vec<
    VmDiskSubvolume,
>)
    ensures
        r@.map_values(|d: VmDiskSubvolume| disk_subvolume_view(d)) == spec_resolve_vm_disks(
            disk_paths@,
            subvolumes@,
        ),
{
    let mut out: Vec<VmDiskSubvolume> = Vec::new();
    let n = disk_paths.len();
    for i in 0..n
        invariant
            n == disk_paths@.len(),
            out@.map_values(|d: VmDiskSubvolume| disk_subvolume_view(d)) == spec_resolve_vm_disks(
                disk_paths@.take(i as int),
                subvolumes@,
            ),
    {
        assert(disk_paths@.take(i + 1).drop_last() =~= disk_paths@.take(i as int));
        assert(disk_paths@.take(i + 1).last() == disk_paths@[i as int]);
        match find_subvolume_at(subvolumes, &disk_paths[i]) {
            Some(k) => {
                let ghost before = out@;
                let d = VmDiskSubvolume {
                    filesystem: subvolumes[k].filesystem.clone(),
                    subvolume: subvolumes[k].name.clone(),
                    device: disk_paths[i].clone(),
                };
                let ghost dv = disk_subvolume_view(d);
                out.push(d);
                assert(out@.map_values(|d: VmDiskSubvolume| disk_subvolume_view(d)) =~= before.map_values(
                    |d: VmDiskSubvolume| disk_subvolume_view(d),
                ).push(dv));
            },
            None => {},
        }
    }
    assert(disk_paths@.take(n as int) =~= disk_paths@);
    out
}

/// The checks a VM snapshot makes before it starts: the VM has block
/// disks, and a session scoped to a filesystem may only snapshot disks on
/// it.
pub fn check_vm_snapshot(disks: &Vec<VmDiskSubvolume>, filesystem_filter: Option<&str>) -> (r:
    Result<(), String>)
    ensures
        disks@.len() == 0 ==> r is Err && r->Err_0@ == "no block subvolumes found for this VM"@,
        disks@.len() > 0 && (filesystem_filter matches Some(f) && exists|i: int|
            0 <= i < disks@.len() && (#[trigger] disks@[i]).filesystem@ != f@) ==> r is Err
            && r->Err_0@ == "access denied"@,
        disks@.len() > 0 && !(filesystem_filter matches Some(f) && exists|i: int|
            0 <= i < disks@.len() && (#[trigger] disks@[i]).filesystem@ != f@) ==> r is Ok,
{
    if disks.len() == 0 {
        return Err(String::from_str("no block subvolumes found for this VM"));
    }
    if let Some(f) = filesystem_filter {
        let n = disks.len();
        for i in 0..n
            invariant
                n == disks@.len(),
                filesystem_filter == Some(f),
                forall|j: int| 0 <= j < i ==> (#[trigger] disks@[j]).filesystem@ == f@,
        {
            if !str_eq(disks[i].filesystem.as_str(), f) {
                return Err(String::from_str("access denied"));
            }
        }
    }
    Ok(())
}

/// The candidate names of a VM clone's disk subvolumes
/// (`<subvolume>-<new name>`), refused while the VM runs. Each is then
/// checked as a subvolume name, and `accept_clone_names` decides on the
/// outcome.
pub fn vm_clone_names(running: bool, subvolumes: &Vec<String>, new_name: &str) -> (r: Result<
    Vec<String>,
    String,
>)
    ensures
        running ==> r is Err && r->Err_0@ == "stop the VM before cloning"@,
        !running ==> r is Ok && r->Ok_0@.len() == subvolumes@.len() && forall|i: int|
            0 <= i < subvolumes@.len() ==> (#[trigger] r->Ok_0@[i])@ == subvolumes@[i]@
                + seq!['-'] + new_name@,
{
    if running {
        return Err(String::from_str("stop the VM before cloning"));
    }
    let mut out: Vec<String> = Vec::new();
    let n = subvolumes.len();
    for i in 0..n
        invariant
            n == subvolumes@.len(),
            out@.len() == i,
            forall|j: int| 0 <= j < i ==> (#[trigger] out@[j])@ == subvolumes@[j]@ + seq!['-']
                + new_name@,
    {
        let mut s = subvolumes[i].clone();
        s.push('-');
        s.append(new_name);
        out.push(s);
    }
    Ok(out)
}

/// `rejections[i]` is the first refusal among the first `n` entries.
pub open spec fn first_rejection_at(rejections: Seq<Option<String>>, i: int, n: int) -> bool {
    &&& 0 <= i < n
    &&& rejections[i] is Some
    &&& forall|j: int| 0 <= j < i ==> (#[trigger] rejections[j]) is None
}

/// How many entries two lists pair up.
pub open spec fn paired_len(a: nat, b: nat) -> int {
    if a <= b {
        a as int
    } else {
        b as int
    }
}

/// The clone names once each was checked as a subvolume name:
/// `rejections[i]` is the refusal of `names[i]` (`None` where it is valid).
/// The first refusal is the error; with none the names are kept.
pub fn accept_clone_names(names: Vec<String>, rejections: &Vec<Option<String>>) -> (r: Result<
    Vec<String>,
    String,
>)
    ensures
        (exists|i: int| first_rejection_at(rejections@, i, paired_len(names@.len(), rejections@.len())))
            ==> r is Err && exists|i: int|
            first_rejection_at(rejections@, i, paired_len(names@.len(), rejections@.len()))
                && r->Err_0@ == rejections@[i].unwrap()@,
        !(exists|i: int| first_rejection_at(rejections@, i, paired_len(names@.len(), rejections@.len())))
            ==> r is Ok && r->Ok_0@ == names@,
{
    let n = if names.len() <= rejections.len() {
        names.len()
    } else {
        rejections.len()
    };
    let mut i: usize = 0;
    while i < n
        invariant
            n <= rejections@.len(),
            n == paired_len(names@.len(), rejections@.len()),
            i <= n,
            forall|j: int| 0 <= j < i ==> (#[trigger] rejections@[j]) is None,
        decreases n - i,
    {
        match &rejections[i] {
            Some(e) => {
                let m = String::from_str(e.as_str());
                assert(first_rejection_at(rejections@, i as int, n as int));
                assert(m@ == rejections@[i as int].unwrap()@);
                return Err(m);
            },
            None => {},
        }
        i = i + 1;
    }
    assert forall|k: int| !first_rejection_at(rejections@, k, n as int) by {
        if 0 <= k < n {
            assert(rejections@[k] is None);
        }
    }
    Ok(names)
}

/// The description a VM clone gets.
pub fn clone_description(source_name: &str) -> (r: String)
    ensures
        r@ == "Clone of "@ + source_name@,
{
    let mut s = String::from_str("Clone of ");
    s.append(source_name);
    s
}

/// Some disk of `vm` is the block device `device`.
pub open spec fn has_disk_at(vm: VmRef, device: Seq<char>) -> bool {
    exists|j: int| 0 <= j < vm.disks@.len() && (#[trigger] vm.disks@[j]).path@ == device
}

proof fn lemma_first_vm_with_disk(vms: Seq<VmRef>, device: Seq<char>, i: int)
    requires
        0 <= i < vms.len(),
        has_disk_at(vms[i], device),
    ensures
        exists|a: int|
            0 <= a <= i && has_disk_at(#[trigger] vms[a], device) && vm_using(vms, device) == Some(
                vms[a].name@,
            ) && forall|b: int| 0 <= b < a ==> !has_disk_at(#[trigger] vms[b], device),
    decreases i,
{
    if has_disk_at(vms[0], device) {
        assert(vm_using(vms, device) == Some(vms[0].name@));
        assert(has_disk_at(vms[0], device) && vm_using(vms, device) == Some(vms[0].name@));
    } else {
        let rest = vms.drop_first();
        assert(rest[i - 1] == vms[i]);
        lemma_first_vm_with_disk(rest, device, i - 1);
        let a = choose|a: int|
            0 <= a <= i - 1 && has_disk_at(#[trigger] rest[a], device) && vm_using(rest, device)
                == Some(rest[a].name@) && forall|b: int| 0 <= b < a ==> !has_disk_at(#[trigger] rest[b], device);
        assert(vms[a + 1] == rest[a]);
        assert forall|b: int| 0 <= b < a + 1 implies !has_disk_at(#[trigger] vms[b], device) by {
            if b > 0 {
                assert(vms[b] == rest[b - 1]);
            }
        }
        assert(vm_using(vms, device) == vm_using(rest, device));
    }
}

/// A subvolume whose block device is a disk of any listed VM (any disk,
/// not only the first) may not be deleted: the refusal names the first VM
/// in the listing that has such a disk.
pub proof fn law_vm_disk_blocks_subvolume_delete(
    sv: Option<SubvolumeUse>,
    vms: Result<Vec<VmRef>, String>,
    iscsi: Result<Vec<BlockTargetRef>, String>,
    nvmeof: Result<Vec<BlockTargetRef>, String>,
    nfs: Result<Vec<PathShareRef>, String>,
    smb: Result<Vec<PathShareRef>, String>,
    ftp: Result<Vec<PathShareRef>, String>,
    sftp: Result<Vec<PathShareRef>, String>,
    s3: Result<Vec<PathShareRef>, String>,
    i: int,
    j: int,
)
    requires
        sv is Some,
        sv.unwrap().block_device is Some,
        vms is Ok,
        0 <= i < vms.unwrap()@.len(),
        0 <= j < vms.unwrap()@[i].disks@.len(),
        vms.unwrap()@[i].disks@[j].path@ == sv.unwrap().block_device.unwrap()@,
    ensures
        spec_subvolume_in_use(sv, vms, iscsi, nvmeof, nfs, smb, ftp, sftp, s3) is Some,
        exists|a: int|
            0 <= a <= i && has_disk_at(#[trigger] vms.unwrap()@[a], sv.unwrap().block_device.unwrap()@)
                && (forall|b: int|
                0 <= b < a ==> !has_disk_at(#[trigger] vms.unwrap()@[b], sv.unwrap().block_device.unwrap()@))
                && spec_subvolume_in_use(sv, vms, iscsi, nvmeof, nfs, smb, ftp, sftp, s3) == Some(
                "subvolume is in use as a disk by VM '"@ + vms.unwrap()@[a].name@
                    + "'. Detach the disk first."@,
            ),
{
    let v = vms.unwrap()@;
    let d = sv.unwrap().block_device.unwrap()@;
    assert(has_disk_at(v[i], d));
    lemma_first_vm_with_disk(v, d, i);
    assert(crate::text::opt_str(sv.unwrap().block_device) == Some(d));
}

} // verus!
