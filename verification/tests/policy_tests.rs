use nasty::backup::{backup_action, jobs_profile_filter, BackupAction};
use nasty::rpc_policy::{
    gate_refusal_message,
    invalid_params_message, missing_param_message, RDMA_DISABLED_MESSAGE,
    audit_detail, audits_on_success, collection_for_method, is_operator_allowed, is_read_only,
    is_universally_allowed, is_user_allowed, route_domain, rpc_gate, unknown_method_message,
    GateDecision, Role, RouteDomain,
};

#[test]
fn standard_user_rpc_policy_is_explicit_and_deny_by_default() {
    for method in [
        "auth.me",
        "auth.logout",
        "auth.change_password",
        "auth.webauthn.config",
        "auth.webauthn.list",
        "auth.webauthn.register.start",
        "auth.webauthn.register.finish",
        "auth.webauthn.delete",
        "audit.mine",
    ] {
        assert!(is_user_allowed(method), "expected {method} to be allowed");
    }
    for method in [
        "audit.list",
        "auth.list_users",
        "fs.list",
        "share.smb.list",
        "new.feature.list",
        "auth.token.create",
        "auth.webauthn.reset_for_user",
    ] {
        assert!(!is_user_allowed(method), "expected {method} to be denied");
    }
}

#[test]
fn fs_tpm_status_is_read_only() {
    assert!(is_read_only("fs.tpm.status"));
}

#[test]
fn status_suffix_is_read_only() {
    for m in [
        "fs.tpm.status",
        "fs.scrub.status",
        "fs.reconcile.status",
        "system.update.status",
        "system.ssh.status",
        "system.nut.status",
        "system.acme.status",
        "system.firewall.status",
        "apps.status",
    ] {
        assert!(is_read_only(m), "expected {m} to be read-only");
    }
}

#[test]
fn writes_stay_writes() {
    for m in [
        "fs.tpm.bind",
        "fs.tpm.unbind",
        "device.set_io_scheduler",
        "fs.create",
        "fs.destroy",
        "fs.forget",
        "fs.mount",
        "fs.unmount",
        "fs.unlock",
        "fs.lock",
        "fs.device.add",
        "fs.device.remove",
        "subvolume.create",
        "snapshot.create",
        "share.nfs.add",
        "service.protocol.enable",
        "system.settings.set",
    ] {
        assert!(!is_read_only(m), "expected {m} to be a write");
    }
}

#[test]
fn domain_principal_search_is_not_read_only() {}

#[test]
fn custom_config_contents_are_admin_only() {
    assert!(!is_read_only("system.custom_config.get"));
    assert!(!is_operator_allowed("system.custom_config.get"));
}

#[test]
fn guest_share_management_is_operator_only() {
    for method in [
        "guestshare.list",
        "guestshare.get",
        "guestshare.create",
        "guestshare.revoke",
        "guestshare.remove",
    ] {
        assert!(!is_read_only(method));
        assert!(is_operator_allowed(method));
    }
}

#[test]
fn list_and_get_suffixes_remain_read_only() {
    assert!(is_read_only("fs.list"));
    assert!(is_read_only("device.list"));
    assert!(is_read_only("subvolume.get"));
    assert!(is_read_only("snapshot.get"));
    assert!(is_read_only("fs.get"));
}

#[test]
fn role_hierarchy_holds_on_examples() {
    for m in ["auth.me", "fs.list", "fs.tpm.status", "guestshare.create", "fs.create"] {
        if is_user_allowed(m) {
            assert!(is_universally_allowed(m));
        }
        if is_read_only(m) {
            assert!(is_universally_allowed(m));
        }
        if is_universally_allowed(m) {
            assert!(is_operator_allowed(m));
        }
    }
}

#[test]
fn forced_password_change_admits_only_auth_methods() {
    assert_eq!(rpc_gate(Role::Admin, true, "fs.list"), GateDecision::PasswordChangeRequired);
    assert_eq!(rpc_gate(Role::Admin, true, "auth.change_password"), GateDecision::Allow);
    assert_eq!(rpc_gate(Role::User, true, "auth.me"), GateDecision::Allow);
    assert_eq!(rpc_gate(Role::ReadOnly, false, "fs.create"), GateDecision::PermissionDenied);
    assert_eq!(rpc_gate(Role::Admin, false, "fs.create"), GateDecision::Allow);
    assert_eq!(rpc_gate(Role::User, false, "fs.list"), GateDecision::PermissionDenied);
}

#[test]
fn mutations_announce_their_collection() {
    assert_eq!(collection_for_method("fs.create"), Some("filesystem"));
    assert_eq!(collection_for_method("share.smb.create"), Some("share.smb"));
    assert_eq!(collection_for_method("fs.list"), None);
    assert_eq!(collection_for_method("fs.device.list"), None);
    assert_eq!(collection_for_method("fs.device.add"), Some("filesystem"));
    assert!(audits_on_success("fs.create"));
    assert!(!audits_on_success("auth.logout"));
    assert!(!audits_on_success("fs.list"));
}

#[test]
fn methods_route_by_prefix() {
    assert_eq!(route_domain("fs.list"), Some(RouteDomain::Fs));
    assert_eq!(route_domain("device.list"), Some(RouteDomain::Fs));
    assert_eq!(route_domain("system.alerts"), Some(RouteDomain::Alerts));
    assert_eq!(route_domain("system.info"), Some(RouteDomain::System));
    assert_eq!(route_domain("firmware.list"), Some(RouteDomain::System));
    assert_eq!(route_domain("telemetry"), Some(RouteDomain::Alerts));
    assert_eq!(route_domain("nope.x"), None);
    assert_eq!(unknown_method_message("nope.x"), "Unknown method: nope.x");
}

#[test]
fn audit_detail_prefers_the_most_specific_field() {
    let fields = vec![
        ("path".to_string(), "/fs/tank".to_string()),
        ("name".to_string(), "docs".to_string()),
    ];
    assert_eq!(audit_detail(&fields), "docs");
    let fields = vec![("device".to_string(), "/dev/sda".to_string())];
    assert_eq!(audit_detail(&fields), "/dev/sda");
    assert_eq!(audit_detail(&Vec::new()), "");
}

#[test]
fn backup_methods_route_with_their_checks() {
    assert_eq!(backup_action("backup.run"), Some(BackupAction::Run));
    assert!(BackupAction::Run.needs_id());
    assert!(BackupAction::Run.checks_stored_profile());
    assert!(!BackupAction::Run.checks_submitted_profile());
    assert!(BackupAction::UpdateProfile.checks_submitted_profile());
    assert!(!BackupAction::Restore.needs_id());
    assert!(BackupAction::Restore.checks_stored_profile());
    assert_eq!(backup_action("backup.unknown"), None);
    assert_eq!(jobs_profile_filter(Some("")), None);
    assert_eq!(jobs_profile_filter(Some("p1")), Some("p1"));
}

#[test]
fn router_error_texts() {
    assert_eq!(invalid_params_message("missing params"), "Invalid params: missing params");
    assert_eq!(missing_param_message("name"), "Missing required param: name");
    assert!(RDMA_DISABLED_MESSAGE.starts_with("RDMA transport is disabled on this box"));
}

#[test]
fn gate_refusals_have_fixed_texts() {
    assert_eq!(gate_refusal_message(GateDecision::Allow), None);
    assert_eq!(gate_refusal_message(GateDecision::PermissionDenied), Some("Permission denied"));
    assert_eq!(gate_refusal_message(rpc_gate(Role::User, true, "fs.create")), Some("Password change required"));
}
