use nasty::update::{
    APT_UPGRADE_SCRIPT,
    apt_candidate_from_policy, build_dir_file_body, channel_file_body, channel_from_file, check_idle,
    generations_from, known_version, nonempty_trimmed, normalize_ver, normalized_label,
    reboot_required_from, resolve_latest, rollback_target, select_release_tag, switch_generation_script,
    tagged_release_status, unit_state, update_available, use_apt_candidate, version_info_from, GitHubRelease,
    Generation, ReleaseChannel, SnapperSnapshot, UpdateError,
};

#[test]
fn normalize_strips_v_and_revision() {
    assert_eq!(normalize_ver("v0.0.15"), "0.0.15");
    assert_eq!(normalize_ver("0.0.15-1"), "0.0.15");
}

#[test]
fn channel_roundtrip() {
    assert_eq!(ReleaseChannel::parse("mild"), Some(ReleaseChannel::Mild));
    assert_eq!(ReleaseChannel::Nasty.as_str(), "nasty");
}

#[test]
fn channel_parse_every_name_back() {
    for c in [ReleaseChannel::Mild, ReleaseChannel::Spicy, ReleaseChannel::Nasty] {
        assert_eq!(ReleaseChannel::parse(c.as_str()), Some(c));
    }
    assert_eq!(ReleaseChannel::parse("  SPICY\n"), Some(ReleaseChannel::Spicy));
    assert_eq!(ReleaseChannel::parse("hot"), None);
    assert_eq!(ReleaseChannel::Spicy.display_name(), "Spicy");
}

#[test]
fn channel_file_defaults_to_mild() {
    assert_eq!(channel_from_file(None), ReleaseChannel::Mild);
    assert_eq!(channel_from_file(Some("garbage")), ReleaseChannel::Mild);
    assert_eq!(channel_from_file(Some("nasty\n")), ReleaseChannel::Nasty);
    assert_eq!(channel_file_body(ReleaseChannel::Spicy), "spicy\n");
}

#[test]
fn trimmed_values_and_build_dir_body() {
    assert_eq!(nonempty_trimmed("  x \n"), Some("x".to_string()));
    assert_eq!(nonempty_trimmed(" \n"), None);
    assert_eq!(build_dir_file_body(Some(" /fs/tank/build ")), Some("/fs/tank/build\n".to_string()));
    assert_eq!(build_dir_file_body(Some("   ")), None);
    assert_eq!(build_dir_file_body(None), None);
    assert_eq!(normalized_label(Some("  keep me ".to_string())), Some("keep me".to_string()));
    assert_eq!(normalized_label(Some("".to_string())), None);
}

#[test]
fn reboot_required_from_flag_or_log() {
    assert!(reboot_required_from(true, None));
    assert!(reboot_required_from(false, Some("... Reboot required ...")));
    assert!(reboot_required_from(false, Some("reboot required")));
    assert!(!reboot_required_from(false, Some("all good")));
    assert!(!reboot_required_from(false, None));
}

#[test]
fn update_availability_rules() {
    assert_eq!(update_available("0.0.15", "unknown", None, false), None);
    assert_eq!(update_available("dev-dirty", "v1.0.0", None, false), Some(true));
    assert_eq!(update_available("v0.0.15", "0.0.15-1", None, false), Some(false));
    assert_eq!(update_available("0.0.14", "v0.0.15", None, false), Some(true));
    assert_eq!(update_available("0.0.15", "v0.0.15", Some("failed"), false), Some(true));
    assert_eq!(update_available("0.0.15", "unknown", None, true), Some(true));
}

#[test]
fn apt_candidate_selection() {
    assert!(use_apt_candidate(ReleaseChannel::Nasty, "1", Some("1")));
    assert!(!use_apt_candidate(ReleaseChannel::Mild, "1", Some("1")));
    assert!(use_apt_candidate(ReleaseChannel::Mild, "1", Some("2")));
    assert!(!use_apt_candidate(ReleaseChannel::Nasty, "1", None));
    let policy = "nasty:\n  Installed: 0.0.14\n  Candidate: 0.0.15\n  Version table:\n";
    assert_eq!(apt_candidate_from_policy(policy), Some("0.0.15".to_string()));
    assert_eq!(apt_candidate_from_policy("  Candidate: (none)\n"), None);
    assert_eq!(apt_candidate_from_policy("nothing here"), None);
}

#[test]
fn latest_version_fallbacks() {
    let (l, e) = resolve_latest(Some("0.0.15".to_string()), Err("offline".to_string()));
    assert_eq!(l, "0.0.15");
    assert_eq!(e, Some("offline".to_string()));
    let (l, e) = resolve_latest(None, Err("offline".to_string()));
    assert_eq!(l, "unknown");
    assert!(e.is_some());
    let (l, e) = resolve_latest(None, Ok("v1.0.0".to_string()));
    assert_eq!(l, "v1.0.0");
    assert_eq!(e, None);
    assert_eq!(known_version("unknown".to_string()), None);
    assert_eq!(known_version("v1".to_string()), Some("v1".to_string()));
}

fn rel(tag: &str, draft: bool) -> GitHubRelease {
    GitHubRelease { tag_name: tag.to_string(), draft, prerelease: false }
}

#[test]
fn release_tags_follow_the_channel() {
    let releases = vec![rel("v2.0.0", true), rel("s1.9.0", false), rel("v1.8.0-rc1", false), rel("v1.7.0", false)];
    assert!(matches!(select_release_tag(ReleaseChannel::Mild, &releases), Ok(t) if t == "v1.7.0"));
    assert!(matches!(select_release_tag(ReleaseChannel::Spicy, &releases), Ok(t) if t == "s1.9.0"));
    assert!(matches!(select_release_tag(ReleaseChannel::Nasty, &releases), Ok(t) if t == "s1.9.0"));
    assert!(matches!(
        select_release_tag(ReleaseChannel::Mild, &vec![rel("x", false)]),
        Err(UpdateError::CommandFailed(m)) if m == "no matching GitHub release"
    ));
}

#[test]
fn tagged_release_urls() {
    let s = tagged_release_status("0.0.15".to_string(), "v0.0.15".to_string());
    assert_eq!(s.current_url, "apt:nasty=0.0.15");
    assert_eq!(s.latest_url, "github:nasty-project/nasty/v0.0.15");
    assert_eq!(s.latest_tag, "v0.0.15");
    assert!(s.current_is_latest_standard_url);
    assert!(!tagged_release_status("0.0.14".to_string(), "v0.0.15".to_string()).current_is_latest_standard_url);
}

#[test]
fn unit_state_and_idle_check() {
    assert_eq!(unit_state(Some("active\n"), None), "running");
    assert_eq!(unit_state(Some("activating"), Some("failed")), "running");
    assert_eq!(unit_state(Some("inactive"), Some("failed")), "failed");
    assert_eq!(unit_state(Some("inactive"), Some("success")), "success");
    assert_eq!(unit_state(Some("inactive"), None), "idle");
    assert_eq!(unit_state(None, Some("failed")), "idle");
    assert!(matches!(check_idle("running"), Err(UpdateError::AlreadyRunning)));
    assert!(check_idle("idle").is_ok());
}

fn snap(number: u64, description: &str, default: bool, active: bool) -> SnapperSnapshot {
    SnapperSnapshot {
        number,
        snapshot_type: "single".to_string(),
        description: description.to_string(),
        date: "2024-01-01".to_string(),
        default,
        active,
    }
}

#[test]
fn generations_are_sorted_and_labelled() {
    let snaps = vec![snap(0, "current", false, false), snap(5, "after upgrade", true, true), snap(3, "", false, false)];
    let labels = vec![(3u64, "known good".to_string())];
    let gens = generations_from(&snaps, &labels, "Debian 13", "6.12", &Some("0.0.15".to_string()));
    assert_eq!(gens.len(), 2);
    assert_eq!(gens[0].generation, 3);
    assert_eq!(gens[0].nixos_version, "Debian 13 (single)");
    assert_eq!(gens[0].label, Some("known good".to_string()));
    assert!(!gens[0].current);
    assert_eq!(gens[1].generation, 5);
    assert_eq!(gens[1].label, Some("after upgrade".to_string()));
    assert!(gens[1].current && gens[1].booted);
    assert_eq!(gens[1].kernel_version, "6.12");
}

fn generation(n: u64, current: bool, booted: bool) -> Generation {
    Generation {
        generation: n,
        date: String::new(),
        nixos_version: String::new(),
        kernel_version: String::new(),
        nasty_version: None,
        current,
        booted,
        label: None,
    }
}

#[test]
fn rollback_picks_newest_other_snapshot() {
    let gens = vec![generation(2, false, false), generation(7, false, true), generation(9, true, false)];
    assert!(matches!(rollback_target(&gens), Ok(2)));
    let gens = vec![generation(7, false, true), generation(9, true, false)];
    assert!(matches!(rollback_target(&gens), Ok(7)));
    assert!(matches!(
        rollback_target(&vec![generation(9, true, true)]),
        Err(UpdateError::CommandFailed(m)) if m == "no snapper snapshot available to roll back to"
    ));
}

#[test]
fn switch_script_names_the_generation() {
    let s = switch_generation_script(42);
    assert!(s.starts_with("#!/bin/bash\n"));
    assert!(s.contains("snapper -c root --ambit classic rollback 42\n"));
    assert!(s.contains("==> Switch to generation 42 complete"));
}

#[test]
fn version_info_lists_three_inputs() {
    let v = version_info_from(None, Some("13".to_string()), "6.12".to_string());
    assert_eq!(v.inputs.len(), 3);
    assert_eq!(v.inputs[0].name, "nasty");
    assert_eq!(v.inputs[0].rev, Some("unknown".to_string()));
    assert_eq!(v.inputs[1].tag, Some("13".to_string()));
    assert_eq!(v.inputs[2].url, "uname -r");
}

#[test]
fn apt_upgrade_script_records_the_attempt() {
    assert!(APT_UPGRADE_SCRIPT.starts_with("#!/bin/bash\nset -euo pipefail\n"));
    assert!(APT_UPGRADE_SCRIPT.contains("echo \"failed\" > /var/lib/nasty/last-upgrade-attempt\n"));
    assert!(APT_UPGRADE_SCRIPT.contains("install --only-upgrade nasty nasty-engine nasty-webui || true"));
    assert!(APT_UPGRADE_SCRIPT.ends_with("echo \"==> Upgrade finished ($(date -Is))\"\n"));
}
