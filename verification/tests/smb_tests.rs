use nasty::smb::{
    reject_time_machine, render_ksmbd_conf, render_share_conf, sanitize_smb_value,
    share_allows_principal, validate_file_principal, validate_share_name, validate_share_path,
    validate_valid_users, SmbError, SmbShare, SmbTuningGlobals,
};

fn minimal_share() -> SmbShare {
    SmbShare {
        id: "id-1".to_string(),
        name: "share1".to_string(),
        path: "/fs/p/data".to_string(),
        comment: None,
        read_only: false,
        browseable: true,
        guest_ok: false,
        valid_users: vec![],
        extra_params: Vec::new(),
        time_machine: false,
        time_machine_max_size_gib: None,
        enabled: true,
    }
}

fn set_param(share: &mut SmbShare, key: &str, value: &str) {
    share.extra_params.retain(|(k, _)| k != key);
    share.extra_params.push((key.to_string(), value.to_string()));
}

#[test]
fn sanitize_smb_value_strips_injection_chars() {
    assert_eq!(sanitize_smb_value("hello"), "hello");
    assert_eq!(sanitize_smb_value("a;b\nc\rd"), "abcd");
    assert_eq!(sanitize_smb_value("name\twith\x01control"), "namewithcontrol");
}

#[test]
fn validate_share_name_accepts_normal_names() {
    assert!(validate_share_name("docs").is_ok());
    assert!(validate_share_name("My Share 2024").is_ok());
}

#[test]
fn smb_validate_share_name_rejects_invalid() {
    assert!(validate_share_name("").is_err());
    assert!(validate_share_name(&"x".repeat(81)).is_err());
    for bad in ["a/b", "a\\b", "a[b", "a]b", "a:b", "a|b", "a;b"] {
        assert!(validate_share_name(bad).is_err(), "should reject '{bad}'");
    }
}

#[test]
fn validate_share_path_accepts_real_paths() {
    assert!(validate_share_path("/fs/tank/docs").is_ok());
    assert!(validate_share_path("/fs/pool/My Files").is_ok());
    assert!(validate_share_path("/fs/a/b/c-d_e.f").is_ok());
}

#[test]
fn validate_share_path_rejects_smb_conf_injection() {
    assert!(validate_share_path("/fs/tank\ninclude = /etc/passwd").is_err());
    assert!(validate_share_path("/fs/tank\rinclude").is_err());
    assert!(validate_share_path("/fs/tank\0bad").is_err());
    assert!(validate_share_path("/fs/tank#comment").is_err());
    assert!(validate_share_path("/fs/tank\"quoted").is_err());
}

#[test]
fn validate_share_path_rejects_empty() {
    assert!(validate_share_path("").is_err());
}

#[test]
fn validate_valid_users_accepts_local_group_and_domain_forms() {
    assert!(validate_valid_users(&vec!["alice".into()]).is_ok());
    assert!(validate_valid_users(&vec!["@staff".into()]).is_ok());
    assert!(validate_valid_users(&vec!["CORP\\alice".into()]).is_ok());
    assert!(validate_valid_users(&vec!["@CORP\\domain admins".into()]).is_ok());
    assert!(validate_valid_users(&vec!["CORP\\svc account.backup".into()]).is_ok());
}

#[test]
fn validate_valid_users_rejects_injection_shapes() {
    assert!(validate_valid_users(&vec!["alice\ninclude = /etc/passwd".into()]).is_err());
    assert!(validate_valid_users(&vec!["alice;rm".into()]).is_err());
    assert!(validate_valid_users(&vec!["CORP\\\\alice".into()]).is_err(), "double backslash");
    assert!(validate_valid_users(&vec!["\\alice".into()]).is_err(), "empty domain part");
    assert!(validate_valid_users(&vec!["CORP\\".into()]).is_err(), "empty account part");
    assert!(validate_valid_users(&vec!["".into()]).is_err());
    assert!(validate_valid_users(&vec!["THISNETBIOSNAMEISTOOLONG\\alice".into()]).is_err());
}

#[test]
fn portal_share_policy_matches_direct_users_exactly_and_case_insensitively() {
    let mut share = minimal_share();
    share.valid_users = vec!["CORP\\Alice".into()];

    assert!(share_allows_principal(&share, "corp\\alice", &vec![]));
    assert!(!share_allows_principal(&share, "CORP\\alice2", &vec![]));
    assert!(!share_allows_principal(&share, "alice", &vec![]));
}

#[test]
fn portal_share_policy_matches_local_and_domain_groups_with_spaces() {
    let mut share = minimal_share();
    share.valid_users = vec!["@staff".into(), "@CORP\\Domain Users".into()];

    assert!(share_allows_principal(&share, "alice", &vec!["STAFF".into()]));
    assert!(share_allows_principal(&share, "CORP\\alice", &vec!["corp\\domain users".into()]));
    assert!(!share_allows_principal(&share, "CORP\\alice", &vec!["CORP\\Domain User".into()]));
}

#[test]
fn portal_share_policy_denies_disabled_guest_and_unrestricted_shares() {
    let mut share = minimal_share();
    share.valid_users = vec!["alice".into()];

    share.enabled = false;
    assert!(!share_allows_principal(&share, "alice", &vec![]));
    share.enabled = true;
    share.guest_ok = true;
    assert!(!share_allows_principal(&share, "alice", &vec![]));
    share.guest_ok = false;
    share.valid_users.clear();
    assert!(!share_allows_principal(&share, "alice", &vec![]));
}

#[test]
fn portal_share_policy_denies_all_raw_samba_parameters() {
    let mut share = minimal_share();
    share.valid_users = vec!["alice".into()];

    for key in ["valid users", "invalid users", "path", "read only"] {
        share.extra_params.clear();
        set_param(&mut share, key, "override");
        assert!(!share_allows_principal(&share, "alice", &vec![]));
    }
}

#[test]
fn file_principal_validation_accepts_users_but_not_groups_or_whitespace() {
    assert!(validate_file_principal("alice").is_ok());
    assert!(validate_file_principal("CORP\\Alice Smith").is_ok());
    assert!(validate_file_principal("@staff").is_err());
    assert!(validate_file_principal(" alice").is_err());
    assert!(validate_file_principal("").is_err());
}

#[test]
fn render_share_conf_minimal() {
    let out = render_share_conf(&minimal_share());
    assert_eq!(
        out,
        "[share1]\n    \
         path = /fs/p/data\n    \
         read only = no\n    \
         browseable = yes\n    \
         guest ok = no\n"
    );
}

#[test]
fn render_share_conf_with_comment() {
    let mut share = minimal_share();
    share.comment = Some("Family photos".to_string());
    let out = render_share_conf(&share);
    assert!(out.contains("    comment = Family photos\n"));
}

#[test]
fn render_share_conf_guest_ok_emits_nobody_block() {
    let mut share = minimal_share();
    share.guest_ok = true;
    let out = render_share_conf(&share);
    assert!(out.contains("    guest ok = yes\n"));
    assert!(out.contains("    force user = nobody\n"));
    assert!(out.contains("    force group = nogroup\n"));
    assert!(out.contains("    create mask = 0666\n"));
    assert!(out.contains("    directory mask = 0777\n"));
}

#[test]
fn render_share_conf_authenticated_force_user_picks_first_non_group() {
    let mut share = minimal_share();
    share.valid_users = vec!["@admins".to_string(), "alice".to_string(), "bob".to_string()];
    let out = render_share_conf(&share);
    assert!(out.contains("    force user = alice\n"));
    assert!(out.contains("    valid users = @admins alice bob\n"));
    assert!(out.contains("    create mask = 0664\n"));
    assert!(out.contains("    directory mask = 0775\n"));
}

#[test]
fn render_share_conf_authenticated_all_groups_omits_force_user() {
    let mut share = minimal_share();
    share.valid_users = vec!["@admins".to_string(), "@users".to_string()];
    let out = render_share_conf(&share);
    assert!(!out.contains("force user"));
    assert!(out.contains("    valid users = @admins @users\n"));
}

#[test]
fn render_share_conf_quotes_spaced_valid_users_entries() {
    let mut share = minimal_share();
    share.valid_users = vec!["@CORP\\domain admins".to_string(), "alice".to_string()];
    let conf = render_share_conf(&share);
    assert!(conf.contains("valid users = \"@CORP\\domain admins\" alice"), "{conf}");
}

#[test]
fn render_share_conf_extra_params_sorted_and_sanitized() {
    let mut share = minimal_share();
    set_param(&mut share, "zeta", "1");
    set_param(&mut share, "alpha", "two");
    set_param(&mut share, "middle", "v;injected\nx");
    let out = render_share_conf(&share);
    let alpha_pos = out.find("alpha = two").unwrap();
    let middle_pos = out.find("middle = ").unwrap();
    let zeta_pos = out.find("zeta = 1").unwrap();
    assert!(alpha_pos < middle_pos && middle_pos < zeta_pos);
    assert!(out.contains("    middle = vinjectedx\n"));
}

#[test]
fn render_ksmbd_conf_puts_global_then_enabled_shares() {
    let mut a = minimal_share();
    a.name = "beta".into();
    let mut b = minimal_share();
    b.name = "alpha".into();
    b.enabled = false;
    let mut c = minimal_share();
    c.name = "gamma".into();
    let out = render_ksmbd_conf(&vec![a, b, c], &SmbTuningGlobals { max_connections: 64, deadtime: 15 });
    assert!(out.contains("[global]\n"));
    assert!(out.contains("    max connections = 64\n"));
    assert!(out.contains("    deadtime = 15\n"));
    assert!(out.contains("[beta]\n"));
    assert!(out.contains("[gamma]\n"));
    assert!(!out.contains("[alpha]\n"));
    let beta = out.find("[beta]").unwrap();
    let gamma = out.find("[gamma]").unwrap();
    assert!(beta < gamma, "shares sorted by name: {out}");
}

#[test]
fn reject_time_machine_when_flag_set() {
    let mut share = minimal_share();
    assert!(reject_time_machine(&share).is_ok());
    share.time_machine = true;
    assert!(matches!(reject_time_machine(&share), Err(SmbError::TimeMachineUnsupported)));
}

#[test]
fn tuning_defaults_to_zero() {
    let t = SmbTuningGlobals::from_settings(Some(64), None);
    assert_eq!(t.max_connections, 64);
    assert_eq!(t.deadtime, 0);
    let d = SmbTuningGlobals::default();
    assert_eq!(d.max_connections, 0);
}
