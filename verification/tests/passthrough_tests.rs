use nasty::passthrough::{
    is_hex4, pci_id_field, resolve_update, validate_claims, PassthroughUpdate,
    bdf_from_device_path, derive_ids, is_bdf, normalize_ids, reconcile_legacy, render_udev_rules,
    resolve_pairs, DeviceId, PassthroughConfig, PassthroughEntry, PciInventoryEntry,
};

fn id(v: &str, d: &str) -> DeviceId {
    DeviceId { vendor: v.into(), device: d.into() }
}

fn entry(addr: &str, v: &str, d: &str) -> PassthroughEntry {
    PassthroughEntry { address: addr.into(), vendor: v.into(), device: d.into() }
}

fn inv(addr: &str, v: &str, d: &str) -> PciInventoryEntry {
    PciInventoryEntry { address: addr.into(), vendor: v.into(), device: d.into() }
}

#[test]
fn vfio_id_renders_as_vendor_colon_device() {
    assert_eq!(id("10de", "2204").to_vfio_id(), "10de:2204");
}

#[test]
fn bdf_format_validation() {
    assert!(is_bdf("0000:06:00.1"));
    assert!(is_bdf("0000:ff:1f.7"));
    assert!(!is_bdf("06:00.1"));
    assert!(!is_bdf("0000:06:00"));
    assert!(!is_bdf("0000-06-00.1"));
    assert!(!is_bdf("zzzz:06:00.1"));
}

#[test]
fn normalize_lowercases_and_sorts_dedupes() {
    let raw = vec![id("8086", "1539"), id("10DE", "2204"), id("10de", "2204"), id("8086", "1539")];
    let out = normalize_ids(raw);
    assert_eq!(out.len(), 2);
    assert_eq!(out[0], id("10de", "2204"));
    assert_eq!(out[1], id("8086", "1539"));
}

#[test]
fn normalize_drops_malformed_ids() {
    let raw = vec![
        id("10de", "2204"),
        id("zzzz", "0000"),
        id("10de", "abc"),
        id("10de", "12345"),
        id("8086", "1539"),
    ];
    let out = normalize_ids(raw);
    assert_eq!(out, vec![id("10de", "2204"), id("8086", "1539")]);
}

#[test]
fn resolve_pairs_claims_every_matching_device() {
    let inventory = vec![
        inv("0000:06:00.0", "15b3", "1018"),
        inv("0000:06:00.1", "15b3", "1018"),
        inv("0000:07:00.0", "8086", "1539"),
    ];
    let out = resolve_pairs(&vec![id("15b3", "1018")], &inventory);
    assert_eq!(
        out.iter().map(|e| e.address.as_str()).collect::<Vec<_>>(),
        vec!["0000:06:00.0", "0000:06:00.1"]
    );
}

#[test]
fn reconcile_migrates_legacy_ids_when_devices_empty() {
    let cfg = PassthroughConfig { devices: vec![], ids: vec![id("15b3", "1018")] };
    let inventory = vec![inv("0000:06:00.1", "15b3", "1018"), inv("0000:07:00.0", "8086", "1539")];
    let out = reconcile_legacy(cfg, &inventory);
    assert_eq!(out.devices, vec![entry("0000:06:00.1", "15b3", "1018")]);
}

#[test]
fn reconcile_prefers_ids_when_rollback_edited_them() {
    let cfg = PassthroughConfig {
        devices: vec![entry("0000:06:00.1", "15b3", "1018")],
        ids: vec![id("8086", "1539")],
    };
    let inventory = vec![inv("0000:06:00.1", "15b3", "1018"), inv("0000:07:00.0", "8086", "1539")];
    let out = reconcile_legacy(cfg, &inventory);
    assert_eq!(out.devices, vec![entry("0000:07:00.0", "8086", "1539")]);
}

#[test]
fn reconcile_keeps_consistent_state_untouched() {
    let cfg = PassthroughConfig {
        devices: vec![entry("0000:06:00.1", "15b3", "1018")],
        ids: vec![id("15b3", "1018")],
    };
    let out = reconcile_legacy(cfg, &vec![]);
    assert_eq!(out.devices, vec![entry("0000:06:00.1", "15b3", "1018")]);
}

#[test]
fn derive_ids_dedupes_sibling_devices() {
    let ids = derive_ids(&vec![entry("0000:06:00.1", "15b3", "1018"), entry("0000:06:00.2", "15b3", "1018")]);
    assert_eq!(ids, vec![id("15b3", "1018")]);
}

#[test]
fn render_udev_rules_emits_one_rule_per_device() {
    let cfg = PassthroughConfig {
        devices: vec![entry("0000:01:00.0", "1af4", "1041"), entry("0000:06:00.1", "15b3", "1018")],
        ids: vec![],
    };
    let rules = render_udev_rules(&cfg);
    assert!(rules.contains(r#"KERNEL=="0000:01:00.0", ATTR{driver_override}="vfio-pci""#), "{rules}");
    assert!(rules.contains(r#"KERNEL=="0000:06:00.1""#), "{rules}");
    assert!(!rules.contains("vfio-pci.ids"), "{rules}");
}

#[test]
fn render_udev_rules_empty_when_no_devices() {
    let rules = render_udev_rules(&PassthroughConfig::default());
    assert!(rules.is_empty());
}

#[test]
fn bdf_resolution_walks_up_nested_buses() {
    assert_eq!(
        bdf_from_device_path("/sys/devices/pci0000:00/0000:00:05.0/0000:07:12.0/virtio3"),
        Some("0000:07:12.0".to_string())
    );
    assert_eq!(bdf_from_device_path("/sys/devices/pci0000:00/0000:06:00.1"), Some("0000:06:00.1".to_string()));
    assert_eq!(bdf_from_device_path("/sys/devices/virtual/net/x"), None);
}


#[test]
fn id_fields_and_hex_checks() {
    assert!(is_hex4("10de"));
    assert!(is_hex4("ABCD"));
    assert!(!is_hex4("10d"));
    assert!(!is_hex4("10dg"));
    assert_eq!(pci_id_field("0x10DE\n"), "10de");
    assert_eq!(pci_id_field("  8086 "), "8086");
}

#[test]
fn config_from_devices_mirrors_pairs() {
    let cfg = PassthroughConfig::from_devices(vec![
        entry("0000:06:00.2", "15b3", "1018"),
        entry("0000:06:00.1", "15b3", "1018"),
    ]);
    assert_eq!(cfg.ids, vec![id("15b3", "1018")]);
    assert_eq!(cfg.devices.len(), 2);
}

#[test]
fn update_by_address_sorts_dedupes_and_checks() {
    let inventory = vec![inv("0000:06:00.1", "15b3", "1018"), inv("0000:07:00.0", "8086", "1539")];
    let up = PassthroughUpdate {
        addresses: vec!["0000:07:00.0".to_string(), " 0000:06:00.1 ".to_string(), "0000:07:00.0".to_string()],
        ids: vec![],
    };
    assert_eq!(
        resolve_update(up, &inventory),
        Ok(vec![entry("0000:06:00.1", "15b3", "1018"), entry("0000:07:00.0", "8086", "1539")])
    );
    let bad = PassthroughUpdate { addresses: vec!["06:00.1".to_string()], ids: vec![] };
    assert_eq!(
        resolve_update(bad, &inventory),
        Err("'06:00.1' is not a PCI address (expected dddd:bb:dd.f, e.g. 0000:06:00.1)".to_string())
    );
    let gone = PassthroughUpdate { addresses: vec!["0000:09:00.0".to_string()], ids: vec![] };
    assert_eq!(
        resolve_update(gone, &inventory),
        Err("no PCI device at 0000:09:00.0 — it may have moved slots; refresh the hardware page and re-select it".to_string())
    );
    let by_pair = PassthroughUpdate { addresses: vec![], ids: vec![id("8086", "1539")] };
    assert_eq!(resolve_update(by_pair, &inventory), Ok(vec![entry("0000:07:00.0", "8086", "1539")]));
    assert_eq!(resolve_update(PassthroughUpdate::default(), &inventory), Ok(vec![]));
}

#[test]
fn management_device_is_never_claimed() {
    let devices = vec![entry("0000:06:00.1", "15b3", "1018")];
    assert!(validate_claims(&devices, None, None).is_ok());
    assert!(validate_claims(&devices, Some("eth0"), None).is_ok());
    assert!(validate_claims(&devices, Some("eth0"), Some("0000:07:00.0")).is_ok());
    assert_eq!(
        validate_claims(&devices, Some("eth0"), Some("0000:06:00.1")),
        Err("refusing to claim 0000:06:00.1 (15b3:1018) for passthrough — that is the PCI device behind the management interface 'eth0', so vfio-pci would steal it at boot and lock you out. Reach the box on a different interface (or console) and retry.".to_string())
    );
}

#[test]
fn validate_passes_when_mgmt_iface_unknown() {
    let res = validate_claims(&vec![entry("0000:06:00.1", "15b3", "1018")], None, None);
    assert!(res.is_ok());
}

#[test]
fn validate_passes_when_mgmt_iface_has_no_pci_device() {
    // An interface without a PCI device resolves to no BDF.
    let res = validate_claims(&vec![entry("0000:06:00.1", "15b3", "1018")], Some("nonexistent-iface-zzz"), None);
    assert!(res.is_ok());
}
