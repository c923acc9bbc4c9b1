use nasty::dependents::{
    locked_dependents,
    apps_storage_on_fs, blocks_apps_or_vms, collect_dependents, is_locked_encrypted, same_volume,
    AppsStorageConfig, BackupProfileRef, BlockExportRef, BlockTargetRef, BlockVolumeId, DependentsSnapshot,
    FsDependents, PathShareRef, SubvolumeRef, VmDiskRef, VmRef,
};
use nasty::usage::{
    check_block_device_conflict, check_filesystem_in_use, check_subvolume_in_use, check_vm_snapshot,
    clone_description, resolve_vm_disks, vm_clone_names, BlockSubvolume, SubvolumeCheck, SubvolumeUse,
    VmDiskSubvolume,
};

fn vol(uuid: &str, v: &str) -> BlockVolumeId {
    BlockVolumeId { filesystem_uuid: uuid.to_string(), volume: v.to_string() }
}

fn target(name: &str, device: &str, backing: Option<BlockVolumeId>) -> BlockTargetRef {
    BlockTargetRef {
        name: name.to_string(),
        exports: vec![BlockExportRef {
            device_path: device.to_string(),
            backing_volume: backing,
            backing_volume_unresolved: false,
        }],
    }
}

fn share(key: &str, path: &str) -> PathShareRef {
    PathShareRef { key: key.to_string(), path: path.to_string() }
}

#[test]
fn block_device_conflicts_name_the_other_protocol() {
    let iscsi = Ok(vec![target("iqn.a", "/dev/loop3", None)]);
    let nvme: Result<Vec<BlockTargetRef>, String> = Ok(vec![]);
    assert_eq!(
        check_block_device_conflict("/dev/loop3", &Ok(None), "nvmeof", &iscsi, &nvme),
        Some("device /dev/loop3 is already exported via iSCSI (target 'iqn.a')".to_string())
    );
    assert_eq!(check_block_device_conflict("/dev/loop3", &Ok(None), "iscsi", &iscsi, &nvme), None);
    let nvme = Ok(vec![target("nqn.b", "/dev/loop9", Some(vol("u1", "a")))]);
    assert_eq!(
        check_block_device_conflict("/dev/loop4", &Ok(Some(vol("u1", "a"))), "iscsi", &iscsi, &nvme),
        Some("device /dev/loop4 is already exported via NVMe-oF (subsystem 'nqn.b')".to_string())
    );
    assert_eq!(
        check_block_device_conflict("/dev/x", &Err("boom".to_string()), "iscsi", &iscsi, &nvme),
        Some("boom".to_string())
    );
    assert_eq!(
        check_block_device_conflict("/dev/x", &Ok(None), "nvmeof", &Err("gone".to_string()), &nvme),
        Some("cannot verify iSCSI device conflicts because state failed to load: gone".to_string())
    );
}

#[test]
fn subvolume_use_checks_vms_blocks_and_shares_in_order() {
    let sv = Some(SubvolumeUse {
        path: "/fs/tank/data".to_string(),
        block_device: Some("/dev/loop1".to_string()),
        block_volume_id: None,
    });
    let vms = Ok(vec![VmRef {
        name: "vm1".to_string(),
        disks: vec![VmDiskRef { path: "/dev/loop1".to_string(), source: None }],
    }]);
    let none_t: Result<Vec<BlockTargetRef>, String> = Ok(vec![]);
    let none_s: Result<Vec<PathShareRef>, String> = Ok(vec![]);
    assert_eq!(
        check_subvolume_in_use(&sv, &vms, &none_t, &none_t, &none_s, &none_s, &none_s, &none_s, &none_s),
        Some("subvolume is in use as a disk by VM 'vm1'. Detach the disk first.".to_string())
    );
    let no_vms: Result<Vec<VmRef>, String> = Ok(vec![]);
    let nfs = Ok(vec![share("/fs/tank/data/sub", "/fs/tank/data/sub")]);
    assert_eq!(
        check_subvolume_in_use(&sv, &no_vms, &none_t, &none_t, &nfs, &none_s, &none_s, &none_s, &none_s),
        Some("subvolume is shared via NFS (path: /fs/tank/data/sub). Delete the NFS share first.".to_string())
    );
    let smb = Ok(vec![share("docs", "/fs/tank/data")]);
    assert_eq!(
        check_subvolume_in_use(&sv, &no_vms, &none_t, &none_t, &none_s, &smb, &none_s, &none_s, &none_s),
        Some("subvolume is shared via SMB as 'docs'. Delete the SMB share first.".to_string())
    );
    let sibling = Ok(vec![share("x", "/fs/tank/database")]);
    assert_eq!(
        check_subvolume_in_use(&sv, &no_vms, &none_t, &none_t, &sibling, &none_s, &none_s, &none_s, &none_s),
        None
    );
    assert_eq!(
        check_subvolume_in_use(
            &sv, &no_vms, &Err("x".to_string()), &none_t, &none_s, &none_s, &none_s, &none_s, &none_s
        ),
        Some("cannot verify iSCSI dependencies because state failed to load: x".to_string())
    );
    assert_eq!(
        check_subvolume_in_use(&None, &vms, &none_t, &none_t, &none_s, &none_s, &none_s, &none_s, &none_s),
        None
    );
}

#[test]
fn filesystem_in_use_reports_first_busy_subvolume_or_apps() {
    let subs = vec![
        SubvolumeCheck { filesystem: "other".to_string(), name: "a".to_string(), in_use: Some("x".to_string()) },
        SubvolumeCheck { filesystem: "tank".to_string(), name: "b".to_string(), in_use: None },
        SubvolumeCheck { filesystem: "tank".to_string(), name: "c".to_string(), in_use: Some("busy".to_string()) },
    ];
    assert_eq!(
        check_filesystem_in_use("tank", &subs, None),
        Some("filesystem 'tank' cannot be destroyed: subvolume 'c' is in use — busy".to_string())
    );
    assert_eq!(
        check_filesystem_in_use("pool", &subs, Some("/fs/pool/apps")),
        Some("filesystem 'pool' cannot be destroyed: apps runtime storage is on this filesystem. Disable Apps first.".to_string())
    );
    assert_eq!(check_filesystem_in_use("pool", &subs, Some("/fs/pool2/apps")), None);
}

#[test]
fn vm_disks_resolve_to_subvolumes() {
    let svs = vec![
        BlockSubvolume { filesystem: "tank".to_string(), name: "vm1-root".to_string(), block_device: Some("/dev/loop2".to_string()) },
        BlockSubvolume { filesystem: "tank".to_string(), name: "plain".to_string(), block_device: None },
    ];
    let disks = resolve_vm_disks(&vec!["/dev/loop9".to_string(), "/dev/loop2".to_string()], &svs);
    assert_eq!(disks.len(), 1);
    assert_eq!(disks[0].subvolume, "vm1-root");
    assert_eq!(disks[0].device, "/dev/loop2");

    let d = vec![VmDiskSubvolume { filesystem: "tank".to_string(), subvolume: "s".to_string(), device: "/dev/loop2".to_string() }];
    assert!(check_vm_snapshot(&d, None).is_ok());
    assert!(check_vm_snapshot(&d, Some("tank")).is_ok());
    assert_eq!(check_vm_snapshot(&d, Some("pool")), Err("access denied".to_string()));
    assert_eq!(check_vm_snapshot(&vec![], None), Err("no block subvolumes found for this VM".to_string()));

    assert_eq!(
        vm_clone_names(false, &vec!["root".to_string(), "data".to_string()], "copy"),
        Ok(vec!["root-copy".to_string(), "data-copy".to_string()])
    );
    assert_eq!(vm_clone_names(true, &vec![], "copy"), Err("stop the VM before cloning".to_string()));
    assert_eq!(clone_description("vm1"), "Clone of vm1");
}

fn empty_snapshot() -> DependentsSnapshot {
    DependentsSnapshot {
        mounted: Some(true),
        subvolumes: Ok(vec![]),
        apps_config: Ok(AppsStorageConfig { storage_path: None, appdata_path: None }),
        apps: Ok(vec![]),
        vms: Ok(vec![]),
        backups: Ok(vec![]),
        nfs: Ok(vec![]),
        smb: Ok(vec![]),
        ftp: Ok(vec![]),
        sftp: Ok(vec![]),
        s3: Ok(vec![]),
        iscsi: Ok(vec![]),
        nvmeof: Ok(vec![]),
    }
}

#[test]
fn dependents_collects_every_consumer_of_the_filesystem() {
    let mut snap = empty_snapshot();
    snap.subvolumes = Ok(vec![SubvolumeRef {
        name: "vmdisk".to_string(),
        block_device: Some("/dev/loop5".to_string()),
        block_volume_id: Some(vol("uuid-1", "v")),
    }]);
    snap.apps_config = Ok(AppsStorageConfig { storage_path: Some("/fs/tank/apps".to_string()), appdata_path: None });
    snap.apps = Ok(vec!["web".to_string()]);
    snap.vms = Ok(vec![
        VmRef { name: "on-loop".to_string(), disks: vec![VmDiskRef { path: "/dev/loop5".to_string(), source: None }] },
        VmRef { name: "elsewhere".to_string(), disks: vec![VmDiskRef { path: "/fs/pool/x.img".to_string(), source: None }] },
    ]);
    snap.backups = Ok(vec![BackupProfileRef { name: "nightly".to_string(), sources: vec!["/fs/tank/docs".to_string()] }]);
    snap.nfs = Ok(vec![share("/fs/tank/docs", "/fs/tank/docs"), share("/fs/tank2", "/fs/tank2")]);
    snap.smb = Err("corrupt".to_string());
    snap.iscsi = Ok(vec![target("iqn.x", "/dev/loop99", Some(vol("uuid-1", "other")))]);
    let deps = collect_dependents("tank", Some("uuid-1"), &snap);
    assert_eq!(deps.filesystem, "tank");
    assert!(deps.mounted);
    assert_eq!(deps.subvolumes, vec!["vmdisk".to_string()]);
    assert!(deps.apps_storage);
    assert_eq!(deps.apps, vec!["web".to_string()]);
    assert_eq!(deps.vms, vec!["on-loop".to_string()]);
    assert_eq!(deps.backup_jobs, vec!["nightly".to_string()]);
    assert_eq!(deps.nfs_shares, vec!["/fs/tank/docs".to_string()]);
    assert!(deps.smb_shares.is_empty());
    assert_eq!(deps.iscsi_targets, vec!["iqn.x".to_string()]);
    assert_eq!(deps.state_errors, vec!["SMB state failed to load: corrupt".to_string()]);
    assert!(deps.has_dependents());
    assert!(blocks_apps_or_vms(&deps));
}

#[test]
fn dependents_of_an_unused_filesystem_are_empty() {
    let deps = collect_dependents("tank", None, &empty_snapshot());
    assert!(!deps.has_dependents());
    assert!(deps.state_errors.is_empty());
    assert!(!blocks_apps_or_vms(&FsDependents::default()));
}

#[test]
fn small_predicates() {
    assert!(same_volume(&vol("a", "b"), &vol("a", "b")));
    assert!(!same_volume(&vol("a", "b"), &vol("a", "c")));
    assert!(is_locked_encrypted(Some(true), Some(true)));
    assert!(!is_locked_encrypted(Some(true), Some(false)));
    assert!(!is_locked_encrypted(None, Some(true)));
    assert!(apps_storage_on_fs(&AppsStorageConfig { storage_path: None, appdata_path: Some("/fs/tank/a".to_string()) }, "tank"));
    assert!(!apps_storage_on_fs(&AppsStorageConfig { storage_path: Some("/var/lib".to_string()), appdata_path: None }, "tank"));
}

#[test]
fn unresolved_block_ownership_is_reported_per_target() {
    let mut snap = empty_snapshot();
    snap.iscsi = Ok(vec![BlockTargetRef {
        name: "iqn.u".to_string(),
        exports: vec![BlockExportRef {
            device_path: "/dev/loop7".to_string(),
            backing_volume: None,
            backing_volume_unresolved: true,
        }],
    }]);
    snap.nvmeof = Ok(vec![BlockTargetRef {
        name: "nqn.u".to_string(),
        exports: vec![BlockExportRef {
            device_path: "/dev/loop8".to_string(),
            backing_volume: None,
            backing_volume_unresolved: true,
        }],
    }]);
    let deps = collect_dependents("tank", None, &snap);
    assert_eq!(
        deps.state_errors,
        vec![
            "iSCSI target 'iqn.u' has unresolved legacy block-volume ownership".to_string(),
            "NVMe-oF subsystem 'nqn.u' has unresolved legacy block-volume ownership".to_string(),
        ]
    );
}

#[test]
fn locked_filesystems_are_listed_only_when_they_block_apps_or_vms() {
    let with_app = FsDependents { filesystem: "a".to_string(), apps: vec!["web".to_string()], ..Default::default() };
    let idle = FsDependents { filesystem: "b".to_string(), nfs_shares: vec!["/fs/b".to_string()], ..Default::default() };
    let with_vm = FsDependents { filesystem: "c".to_string(), vms: vec!["vm1".to_string()], ..Default::default() };
    let out = locked_dependents(vec![with_app, idle, with_vm]);
    let names: Vec<&str> = out.iter().map(|d| d.filesystem.as_str()).collect();
    assert_eq!(names, vec!["a", "c"]);
}
