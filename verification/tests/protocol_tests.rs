use nasty::protocol::{enable_outcome, EnableOutcome, protocol_not_enabled_message, protocol_modules, restore_action, Protocol, ProtocolState, ProtocolStatus, RestoreAction};

#[test]
fn smb_protocol_uses_ksmbd_service() {
    let svcs = Protocol::Smb.services(Vec::new());
    assert_eq!(svcs, &["ksmbd.service", "wsdd2.service"]);
}

#[test]
fn rclone_protocols_use_templated_units() {
    assert_eq!(Protocol::Ftp.services(Vec::new()), &["nasty-rclone@ftp.service"]);
    assert_eq!(Protocol::Sftp.services(Vec::new()), &["nasty-rclone@sftp.service"]);
    assert_eq!(Protocol::S3.services(Vec::new()), &["nasty-rclone@s3.service"]);
    assert_eq!(Protocol::from_name("ftp"), Some(Protocol::Ftp));
    assert_eq!(Protocol::from_name("sftp"), Some(Protocol::Sftp));
    assert_eq!(Protocol::from_name("s3"), Some(Protocol::S3));
}

#[test]
fn nut_units_are_passed_through() {
    assert_eq!(Protocol::Nut.services(vec!["nut-server.service"]), &["nut-server.service"]);
    assert!(Protocol::Nvmeof.services(vec!["x"]).is_empty());
}

#[test]
fn every_protocol_name_parses_back() {
    for p in Protocol::all() {
        assert_eq!(Protocol::from_name(p.name()), Some(p));
    }
    assert_eq!(Protocol::all().len(), 12);
    assert_eq!(Protocol::from_name("gopher"), None);
}

#[test]
fn state_set_then_get() {
    let mut s = ProtocolState::default();
    assert!(s.get(Protocol::Ssh));
    assert!(!s.get(Protocol::Nfs));
    s.set(Protocol::Nfs, true);
    assert!(s.get(Protocol::Nfs));
    s.set(Protocol::Ssh, false);
    assert!(!s.get(Protocol::Ssh));
    assert!(s.get(Protocol::Avahi));
}

#[test]
fn status_and_system_services() {
    let st = ProtocolStatus::of(Protocol::Smb, true, false);
    assert_eq!(st.name, "smb");
    assert!(st.enabled && !st.running);
    assert!(!st.system_service);
    assert!(Protocol::Ssh.is_system_service());
    assert!(!Protocol::Nfs.is_system_service());
}

#[test]
fn rdma_modules_only_when_asked() {
    assert_eq!(protocol_modules(Protocol::Iscsi, true), vec!["target_core_mod", "iscsi_target_mod", "ib_isert"]);
    assert_eq!(protocol_modules(Protocol::Nvmeof, false), vec!["nvmet", "nvmet-tcp"]);
    assert!(protocol_modules(Protocol::Smb, true).is_empty());
}

#[test]
fn restore_starts_enabled_protocols_only() {
    assert_eq!(restore_action(Protocol::Nfs, true, false), RestoreAction::Restore);
    assert_eq!(restore_action(Protocol::Nfs, true, true), RestoreAction::Skip);
    assert_eq!(restore_action(Protocol::Nfs, false, false), RestoreAction::Skip);
    assert_eq!(restore_action(Protocol::Smart, false, false), RestoreAction::StopDisabled);
}

#[test]
fn disabled_protocols_refuse_requests() {
    assert_eq!(protocol_not_enabled_message(Protocol::Iscsi, true), None);
    assert_eq!(
        protocol_not_enabled_message(Protocol::Iscsi, false),
        Some("iSCSI protocol is not enabled — enable it first via service.protocol.enable".to_string())
    );
}

#[test]
fn a_failed_start_rolls_back_the_units_already_started() {
    let units = vec!["a.service", "b.service", "c.service"];
    assert!(matches!(enable_outcome(Protocol::Smb, &units, None), EnableOutcome::Enabled));
    match enable_outcome(Protocol::Smb, &units, Some((2, "boom".to_string()))) {
        EnableOutcome::RolledBack { stop, message } => {
            assert_eq!(stop, vec!["a.service", "b.service"]);
            assert_eq!(message, "Failed to start SMB: boom");
        }
        EnableOutcome::Enabled => panic!("expected a rollback"),
    }
}
