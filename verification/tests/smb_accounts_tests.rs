use nasty::smb::SmbError;
use nasty::smb_accounts::{
    authorize_principal, forget_ksmbd_user, group_record_name, managed_user, parse_group_file,
    parse_group_ids, register_ksmbd_user, reload_failure_is_benign, share_listed, validate_group_name,
    validate_user_name,
};

fn strings(v: &[&str]) -> Vec<String> {
    v.iter().map(|s| s.to_string()).collect()
}

#[test]
fn user_names_are_trimmed_and_checked() {
    assert!(matches!(validate_user_name("  alice_01 "), Ok(n) if n == "alice_01"));
    assert!(matches!(
        validate_user_name("   "),
        Err(SmbError::InvalidName(m)) if m == "username must be 1-32 characters"
    ));
    assert!(matches!(
        validate_user_name(&"a".repeat(33)),
        Err(SmbError::InvalidName(m)) if m == "username must be 1-32 characters"
    ));
    assert!(validate_user_name(&"a".repeat(32)).is_ok());
    assert!(matches!(
        validate_user_name("bob smith"),
        Err(SmbError::InvalidName(m)) if m == "username must be alphanumeric, hyphens, or underscores"
    ));
    assert!(matches!(
        validate_group_name("staff;rm"),
        Err(SmbError::InvalidName(m)) if m == "group name must be alphanumeric, hyphens, or underscores"
    ));
    assert!(matches!(validate_group_name("staff"), Ok(n) if n == "staff"));
}

#[test]
fn register_adds_once_and_sorts() {
    let (users, changed) = register_ksmbd_user(strings(&["carol", "alice"]), &"bob".to_string());
    assert!(changed);
    assert_eq!(users, strings(&["alice", "bob", "carol"]));
    let (again, changed) = register_ksmbd_user(users.clone(), &"bob".to_string());
    assert!(!changed);
    assert_eq!(again, users);
}

#[test]
fn forget_removes_case_insensitively() {
    let (users, changed) = forget_ksmbd_user(strings(&["Alice", "bob", "ALICE"]), "alice");
    assert!(changed);
    assert_eq!(users, strings(&["bob"]));
    let (same, changed) = forget_ksmbd_user(strings(&["bob"]), "carol");
    assert!(!changed);
    assert_eq!(same, strings(&["bob"]));
}

#[test]
fn group_ids_are_deduplicated_and_checked() {
    assert!(matches!(parse_group_ids("3001 100 3001\n"), Ok(v) if v == strings(&["3001", "100"])));
    assert!(matches!(
        parse_group_ids("3001 abc"),
        Err(SmbError::PrincipalLookup(m)) if m == "id returned an invalid GID"
    ));
    assert!(matches!(
        parse_group_ids("  \n"),
        Err(SmbError::PrincipalLookup(m)) if m == "principal has no groups or exceeds the group limit"
    ));
}

#[test]
fn group_record_name_reads_first_field() {
    assert!(matches!(group_record_name("staff:x:3001:alice\n", "3001"), Ok(n) if n == "staff"));
    assert!(matches!(
        group_record_name(":x:3001:", "3001"),
        Err(SmbError::PrincipalLookup(m)) if m == "getent returned an invalid record for GID 3001"
    ));
}

#[test]
fn principals_must_be_local_and_registered() {
    let users = strings(&["Alice"]);
    let ok = authorize_principal("alice", strings(&["staff"]), &users);
    assert!(matches!(ok, Ok(a) if a.principal == "alice" && a.groups == strings(&["staff"])));
    assert!(matches!(
        authorize_principal("CORP\\alice", vec![], &users),
        Err(SmbError::PrincipalLookup(m)) if m == "domain principals are not supported with ksmbd"
    ));
    assert!(matches!(
        authorize_principal("mallory", vec![], &users),
        Err(SmbError::PrincipalLookup(m)) if m == "local principal is not present in ksmbd user database"
    ));
}

#[test]
fn group_file_keeps_smb_range_only() {
    let content = "root:x:0:\nstaff:x:3001:alice,bob\nempty:x:3002:\nlone:x:3999\nbig:x:4000:zed\nbad line\n";
    let groups = parse_group_file(content);
    assert_eq!(groups.len(), 3);
    assert_eq!(groups[0].name, "staff");
    assert_eq!(groups[0].gid, 3001);
    assert_eq!(groups[0].members, strings(&["alice", "bob"]));
    assert_eq!(groups[1].name, "empty");
    assert!(groups[1].members.is_empty());
    assert_eq!(groups[2].gid, 3999);
}

#[test]
fn managed_users_have_smb_uids() {
    let u = managed_user("alice".to_string(), Some("3005\n")).unwrap();
    assert_eq!(u.username, "alice");
    assert_eq!(u.uid, 3005);
    assert!(managed_user("root".to_string(), Some("0")).is_none());
    assert!(managed_user("ghost".to_string(), None).is_none());
    assert!(managed_user("odd".to_string(), Some("n/a")).is_none());
}

#[test]
fn share_listing_and_benign_reload_errors() {
    assert!(share_listed("global\n  Docs \nmedia\n", "docs"));
    assert!(!share_listed("global\nmedia\n", "docs"));
    assert!(reload_failure_is_benign("kill: No such process"));
    assert!(reload_failure_is_benign("ksmbd is not running"));
    assert!(reload_failure_is_benign("error: No KSMBD daemon"));
    assert!(!reload_failure_is_benign("permission denied"));
}
