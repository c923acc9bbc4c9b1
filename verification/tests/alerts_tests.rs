use nasty::alerts::{
    cycle_coverage,
    check_still_active,
    bcachefs_health_metrics, disk_metrics, filesystem_metrics, reconcile_health, BcachefsDeviceHealth,
    ReconcileObservation,
    clear_reconcile_tracker, disk_label, error_count_from, mount_failure_alert,
    progress_sample, reconcile_progress, reconcile_stall_check_at, scrub_reports_errors,
    AlertCoverage, AlertMetric, AlertSeverity, MountedFsState, MoveCtx, ProgressRead,
    ReconcileProgress, ReconcileProgressReads, ReconcileProgressSample, ReconcileSample,
    ReconcileStallTracker,
};

const WINDOW: u64 = 30 * 60;

#[test]
fn smart_attribute_resolution_requires_the_specific_attribute() {
    let mut coverage = AlertCoverage::default();
    coverage.observe_smart_attributes("/dev/sda".into(), vec![5, 197]);

    assert!(coverage.is_observed(AlertMetric::SmartAttribute, "/dev/sda#5"));
    assert!(!coverage.is_observed(AlertMetric::SmartAttribute, "/dev/sda#198"));
    assert!(coverage.is_observed(AlertMetric::SmartAttribute, "/dev/sdb#198"));
}

fn ctx(kind: &str, keys: u64, seen: u64, moved: u64) -> MoveCtx {
    MoveCtx { kind: kind.to_string(), keys_moved: keys, bytes_seen: seen, bytes_moved: moved }
}

#[test]
fn reconcile_progress_uses_only_reconcile_movement_counters() {
    // The contexts of "scrub: active / keys moved: 999" and
    // "reconcile_work: active / keys moved: 11 / bytes seen: 2K / bytes moved: 1K".
    let contexts = vec![ctx("scrub", 999, 0, 0), ctx("reconcile", 11, 2 * 1024, 1024)];

    assert_eq!(
        reconcile_progress(&contexts),
        Some(ReconcileProgress { keys_moved: 11, bytes_seen: 2 * 1024, bytes_moved: 1024 })
    );
}

fn pending(p: &str) -> ReconcileSample {
    ReconcileSample { pending: Some(p.to_string()), active: false }
}

fn progress(keys: u64) -> ReconcileProgressSample {
    ReconcileProgressSample::Available(Some(ReconcileProgress {
        keys_moved: keys,
        bytes_seen: 1_000,
        bytes_moved: 500,
    }))
}

#[test]
fn reconcile_movement_resets_stall_window_when_pending_is_unchanged() {
    let mut tracker = ReconcileStallTracker::new();
    let fs_name = "reconcile-movement-test";
    clear_reconcile_tracker(&mut tracker, fs_name);
    let sample = pending("pending: 900 GiB");
    let start: u64 = 1_000_000;
    let initial = progress(10);

    assert!(!reconcile_stall_check_at(&mut tracker, fs_name, &sample, initial, start, WINDOW));
    assert!(reconcile_stall_check_at(&mut tracker, fs_name, &sample, initial, start + WINDOW, WINDOW));

    let advanced = progress(11);
    assert!(!reconcile_stall_check_at(&mut tracker, fs_name, &sample, advanced, start + WINDOW, WINDOW));
    assert!(reconcile_stall_check_at(
        &mut tracker,
        fs_name,
        &sample,
        advanced,
        start + WINDOW + WINDOW,
        WINDOW
    ));
    clear_reconcile_tracker(&mut tracker, fs_name);
}

#[test]
fn unavailable_reconcile_progress_does_not_reset_or_fire_stall_timer() {
    let mut tracker = ReconcileStallTracker::new();
    let fs_name = "reconcile-progress-unavailable-test";
    let sample = pending("pending: 900 GiB");
    let start: u64 = 1_000_000;
    let p = progress(10);

    assert!(!reconcile_stall_check_at(&mut tracker, fs_name, &sample, p, start, WINDOW));
    assert!(!reconcile_stall_check_at(
        &mut tracker,
        fs_name,
        &sample,
        ReconcileProgressSample::Unavailable,
        start + WINDOW,
        WINDOW
    ));
    assert!(reconcile_stall_check_at(&mut tracker, fs_name, &sample, p, start + WINDOW, WINDOW));
    clear_reconcile_tracker(&mut tracker, fs_name);
}

#[test]
fn pending_changes_reset_timer_while_reconcile_progress_is_unavailable() {
    let mut tracker = ReconcileStallTracker::new();
    let fs_name = "reconcile-pending-change-unavailable-test";
    let first = pending("pending: 900 GiB");
    let second = pending("pending: 800 GiB");
    let start: u64 = 1_000_000;
    let p = progress(10);

    assert!(!reconcile_stall_check_at(&mut tracker, fs_name, &first, p, start, WINDOW));
    assert!(!reconcile_stall_check_at(
        &mut tracker,
        fs_name,
        &second,
        ReconcileProgressSample::Unavailable,
        start + WINDOW,
        WINDOW
    ));
    assert!(!reconcile_stall_check_at(&mut tracker, fs_name, &second, p, start + WINDOW, WINDOW));
    clear_reconcile_tracker(&mut tracker, fs_name);
}

#[test]
fn missing_moving_ctxts_falls_back_to_pending_only_stall_detection() {
    let mut tracker = ReconcileStallTracker::new();
    let fs_name = "reconcile-progress-unsupported-test";
    let sample = pending("pending: 900 GiB");
    let start: u64 = 1_000_000;
    let unsupported = ReconcileProgressSample::Available(None);

    assert!(!reconcile_stall_check_at(&mut tracker, fs_name, &sample, unsupported, start, WINDOW));
    assert!(reconcile_stall_check_at(
        &mut tracker,
        fs_name,
        &sample,
        unsupported,
        start + WINDOW,
        WINDOW
    ));
    clear_reconcile_tracker(&mut tracker, fs_name);
}

#[test]
fn active_reconcile_is_never_stalled_and_is_forgotten() {
    let mut tracker = ReconcileStallTracker::new();
    let fs = "busy";
    let p = progress(1);
    assert!(!reconcile_stall_check_at(&mut tracker, fs, &pending("x"), p, 0, WINDOW));
    let active = ReconcileSample { pending: Some("x".to_string()), active: true };
    assert!(!reconcile_stall_check_at(&mut tracker, fs, &active, p, WINDOW * 10, WINDOW));
    // Forgotten: the window starts over.
    assert!(!reconcile_stall_check_at(&mut tracker, fs, &pending("x"), p, WINDOW * 10, WINDOW));
    assert!(!reconcile_stall_check_at(&mut tracker, fs, &pending("x"), p, WINDOW * 11 - 1, WINDOW));
    assert!(reconcile_stall_check_at(&mut tracker, fs, &pending("x"), p, WINDOW * 11, WINDOW));
}

#[test]
fn progress_counters_saturate() {
    let contexts = vec![ctx("reconcile", u64::MAX, 1, 2), ctx("reconcile", 5, 1, 2)];
    assert_eq!(
        reconcile_progress(&contexts),
        Some(ReconcileProgress { keys_moved: u64::MAX, bytes_seen: 2, bytes_moved: 4 })
    );
    assert_eq!(reconcile_progress(&vec![ctx("scrub", 1, 1, 1)]), None);
}

#[test]
fn progress_reads_map_to_samples() {
    assert_eq!(progress_sample(ProgressRead::Missing), ReconcileProgressSample::Available(None));
    assert_eq!(progress_sample(ProgressRead::Failed), ReconcileProgressSample::Unavailable);
    assert_eq!(
        progress_sample(ProgressRead::Contexts(vec![ctx("reconcile", 3, 4, 5)])),
        ReconcileProgressSample::Available(Some(ReconcileProgress {
            keys_moved: 3,
            bytes_seen: 4,
            bytes_moved: 5
        }))
    );
}

#[test]
fn one_progress_read_per_filesystem() {
    let mut reads = ReconcileProgressReads::new();
    assert!(reads.acquire("uuid-a"));
    assert!(!reads.acquire("uuid-a"));
    assert!(reads.acquire("uuid-b"));
    reads.release("uuid-a");
    assert!(reads.acquire("uuid-a"));
}

#[test]
fn marked_metrics_and_sources_are_not_observed() {
    let mut coverage = AlertCoverage::new();
    coverage.mark_metric(AlertMetric::KernelErrors);
    coverage.mark_source(AlertMetric::BcachefsIOErrors, "tank".to_string());
    assert!(!coverage.is_observed(AlertMetric::KernelErrors, "anything"));
    assert!(!coverage.is_observed(AlertMetric::BcachefsIOErrors, "tank"));
    assert!(coverage.is_observed(AlertMetric::BcachefsIOErrors, "other"));
    assert!(coverage.is_observed(AlertMetric::FsUsagePercent, "tank"));
}

#[test]
fn disk_coverage_follows_what_the_disk_reported() {
    let mut coverage = AlertCoverage::new();
    let label = disk_label("/dev/sda", Some("sata"));
    assert_eq!(label, "/dev/sda [sata]");
    coverage.cover_disk(label.clone(), false, "UNAVAILABLE", Some(true), vec![]);
    assert!(!coverage.is_observed(AlertMetric::DiskTemperature, "/dev/sda [sata]"));
    assert!(!coverage.is_observed(AlertMetric::SmartHealth, "/dev/sda [sata]"));
    assert!(!coverage.is_observed(AlertMetric::SmartAttribute, "/dev/sda [sata]#5"));

    let mut coverage = AlertCoverage::new();
    coverage.cover_disk("/dev/sdb".to_string(), true, "PASSED", Some(true), vec![5]);
    assert!(coverage.is_observed(AlertMetric::DiskTemperature, "/dev/sdb"));
    assert!(coverage.is_observed(AlertMetric::SmartAttribute, "/dev/sdb#5"));
    assert!(!coverage.is_observed(AlertMetric::SmartAttribute, "/dev/sdb#9"));
    assert!(!coverage.is_observed(AlertMetric::SmartAttribute, "/dev/sdb#x"));

    let mut coverage = AlertCoverage::new();
    coverage.cover_disk("/dev/nvme0".to_string(), true, "PASSED", None, vec![]);
    assert!(!coverage.is_observed(AlertMetric::SmartAttribute, "/dev/nvme0#1"));
    assert_eq!(disk_label("/dev/sdc", None), "/dev/sdc");
}

#[test]
fn mount_failures_distinguish_locked_filesystems() {
    let locked = mount_failure_alert(
        "vault",
        Some(MountedFsState { mounted: false, encrypted: Some(true) }),
    )
    .unwrap();
    assert_eq!(locked.rule_name, "Encrypted filesystem locked");
    assert_eq!(locked.severity, AlertSeverity::Warning);
    assert_eq!(locked.message, "Filesystem \"vault\" is encrypted and locked — unlock it to mount.");

    let failed = mount_failure_alert("tank", None).unwrap();
    assert_eq!(failed.rule_name, "Filesystem failed to mount");
    assert_eq!(failed.severity, AlertSeverity::Critical);
    assert_eq!(
        failed.message,
        "Filesystem \"tank\" failed to mount after boot. Check disk connectivity and logs."
    );

    assert!(mount_failure_alert("tank", Some(MountedFsState { mounted: true, encrypted: None })).is_none());
}

#[test]
fn error_counters_sum_and_report_completeness() {
    let reads = vec![Some("3\n".to_string()), Some(" 4 ".to_string()), Some("5".to_string())];
    assert_eq!(error_count_from(&reads), (12, true));
    let reads = vec![Some("3".to_string()), None, Some("bad".to_string())];
    assert_eq!(error_count_from(&reads), (3, false));
}

#[test]
fn scrub_errors_are_found_in_any_case() {
    assert!(scrub_reports_errors("3 ERRORS found"));
    assert!(!scrub_reports_errors("clean"));
}

#[test]
fn failed_checks_mark_their_metric_groups() {
    let mut coverage = AlertCoverage::new();
    coverage.mark_metrics(&bcachefs_health_metrics());
    assert!(!coverage.is_observed(AlertMetric::BcachefsScrubErrors, "tank"));
    assert!(coverage.is_observed(AlertMetric::FsUsagePercent, "tank"));
    coverage.mark_sources(AlertMetric::DiskTemperature, &vec!["/dev/sda".to_string(), "/dev/sdb".to_string()]);
    assert!(!coverage.is_observed(AlertMetric::DiskTemperature, "/dev/sdb"));
    assert!(coverage.is_observed(AlertMetric::DiskTemperature, "/dev/sdc"));
    assert_eq!(filesystem_metrics().len(), 7);
    assert_eq!(filesystem_metrics()[0], AlertMetric::FsUsagePercent);
    assert_eq!(disk_metrics(), vec![AlertMetric::DiskTemperature, AlertMetric::SmartHealth, AlertMetric::SmartAttribute]);
}

#[test]
fn device_health_defaults_to_rw() {
    let d = BcachefsDeviceHealth::from_device("/dev/sda".to_string(), None, Some("journal,btree,user,error"));
    assert_eq!(d.state, "rw");
    assert!(d.has_errors);
    let d = BcachefsDeviceHealth::from_device("/dev/sdb".to_string(), Some("ro".to_string()), Some("user"));
    assert_eq!(d.state, "ro");
    assert!(!d.has_errors);
    assert_eq!(d.path, "/dev/sdb");
}

#[test]
fn reconcile_health_disabled_or_failed_forgets_the_filesystem() {
    let mut tracker = ReconcileStallTracker::new();
    let sample = pending("pending: 1 GiB");
    let obs = ReconcileObservation::Enabled(sample, progress(1));
    assert_eq!(reconcile_health(&mut tracker, "tank", &obs, 100, WINDOW), (false, false));
    assert_eq!(reconcile_health(&mut tracker, "tank", &obs, 100 + WINDOW, WINDOW), (true, false));
    assert_eq!(reconcile_health(&mut tracker, "tank", &ReconcileObservation::Disabled, 100 + WINDOW, WINDOW), (false, false));
    assert_eq!(reconcile_health(&mut tracker, "tank", &obs, 200 + WINDOW, WINDOW), (false, false));
    assert_eq!(reconcile_health(&mut tracker, "tank", &ReconcileObservation::Failed, 200 + WINDOW, WINDOW), (false, true));
    let unavailable = ReconcileObservation::Enabled(pending("pending: 1 GiB"), ReconcileProgressSample::Unavailable);
    assert_eq!(reconcile_health(&mut tracker, "tank", &unavailable, 300 + WINDOW, WINDOW), (false, true));
}

#[test]
fn only_active_alerts_can_be_acknowledged() {
    let active = vec!["a-1".to_string(), "b-2".to_string()];
    assert_eq!(check_still_active(&active, "b-2"), Ok(()));
    assert_eq!(check_still_active(&active, "c-3"), Err("alert is no longer active".to_string()));
    assert_eq!(check_still_active(&vec![], "a-1"), Err("alert is no longer active".to_string()));
}

#[test]
fn failed_reads_decide_what_a_cycle_observes() {
    assert!(cycle_coverage(false, true, true, true, true).is_none());
    let c = cycle_coverage(true, false, true, false, true).unwrap();
    assert!(!c.is_observed(AlertMetric::FsUsagePercent, "tank"));
    assert!(!c.is_observed(AlertMetric::BcachefsReconcileStalled, "tank"));
    assert!(!c.is_observed(AlertMetric::SmartHealth, "/dev/sda"));
    assert!(c.is_observed(AlertMetric::KernelErrors, "kernel"));
    let c = cycle_coverage(true, true, false, false, false).unwrap();
    assert!(c.is_observed(AlertMetric::SmartHealth, "/dev/sda"));
    assert!(c.is_observed(AlertMetric::FsUsagePercent, "tank"));
    assert!(!c.is_observed(AlertMetric::KernelErrors, "kernel"));
}
