use nasty::backup::{is_data_source, profile_requires_admin, profile_access_error, within_fs_root, Session};
use nasty::dependents::{path_belongs_to_fs, BackupProfileRef, FsDependents};
use nasty::rpc_policy::Role;

#[test]
fn path_match_handles_prefix_and_exact() {
    assert!(path_belongs_to_fs("/fs/tank/foo", "tank"));
    assert!(path_belongs_to_fs("/fs/tank/sub/file", "tank"));
    assert!(path_belongs_to_fs("/fs/tank", "tank"));
    assert!(!path_belongs_to_fs("/fs/tank2/foo", "tank"));
    assert!(!path_belongs_to_fs("/fs/tank2", "tank"));
    assert!(!path_belongs_to_fs("/var/lib/nasty", "tank"));
    assert!(!path_belongs_to_fs("", "tank"));
}

#[test]
fn dependency_presence_is_separate_from_state_errors() {
    let mut dependents = FsDependents {
        state_errors: vec!["unreadable".to_string()],
        ..Default::default()
    };
    assert!(!dependents.has_dependents());

    dependents.nvmeof_subsystems.push("nqn.test".to_string());
    assert!(dependents.has_dependents());
}

#[test]
fn data_sources_are_absolute_children_of_fs() {
    assert!(is_data_source("/fs/tank"));
    assert!(is_data_source("/fs/tank/appdata"));
    assert!(!is_data_source("/fs"));
    assert!(!is_data_source("/fs/../etc"));
    assert!(!is_data_source("/var/lib/nasty"));
    assert!(!is_data_source("relative/path"));
}

fn profile(sources: &[&str]) -> BackupProfileRef {
    BackupProfileRef {
        name: "Profile".to_string(),
        sources: sources.iter().map(|s| s.to_string()).collect(),
    }
}

fn session(role: Role, scoped: bool) -> Session {
    Session {
        username: "user".to_string(),
        role,
        filesystem: if scoped { Some("tank".to_string()) } else { None },
        owner: None,
        must_change_password: false,
    }
}

#[test]
fn system_profiles_require_an_unscoped_admin() {
    let data = profile(&["/fs/tank/appdata"]);
    let system = profile(&["/var/lib/nasty", "/etc/nasty"]);

    assert!(profile_access_error(&session(Role::Operator, false), &data).is_none());
    assert!(profile_access_error(&session(Role::Operator, false), &system).is_some());
    assert!(profile_access_error(&session(Role::Admin, false), &system).is_none());
    assert!(profile_access_error(&session(Role::Admin, true), &system).is_some());
}

#[test]
fn scoped_sessions_get_the_unscoped_message_first() {
    let system = profile(&["/etc/nasty"]);
    assert_eq!(
        profile_access_error(&session(Role::Operator, true), &system),
        Some("backup management requires an unscoped session")
    );
    assert_eq!(
        profile_access_error(&session(Role::Operator, false), &system),
        Some("an admin session is required for system-state backup profiles")
    );
}

#[test]
fn dot_components_do_not_escape_fs() {
    assert!(is_data_source("/fs/./tank"));
    assert!(is_data_source("//fs//tank/"));
    assert!(!is_data_source("/fs/tank/../.."));
}

#[test]
fn fs_root_membership_is_by_component() {
    assert!(within_fs_root("/fs"));
    assert!(within_fs_root("/fs/tank/x"));
    assert!(!within_fs_root("/fsx/tank"));
    assert!(!within_fs_root("fs/tank"));
    assert!(!within_fs_root("/var/fs"));
}

#[test]
fn system_paths_make_a_profile_admin_only() {
    assert!(!profile_requires_admin(&profile(&["/fs/tank/docs"])));
    assert!(profile_requires_admin(&profile(&["/fs/tank/docs", "/etc"])));
}
