use nasty::rclone::{
    remote_id, render_rclone_conf, render_serve_script, shell_single_quote, validate_listen,
    validate_passive_range, validate_password, validate_port, validate_share_name,
    validate_share_path, validate_username, CreateRcloneShareRequest, RcloneError, RcloneKind,
    RcloneService, RcloneSettings, RcloneShare, StoredServer, UpdateRcloneSettingsRequest,
    UpdateRcloneShareRequest, EMPTY_DIR,
};

fn share(name: &str, path: &str, read_only: bool) -> RcloneShare {
    RcloneShare {
        id: "11111111-2222-3333-4444-555555555555".into(),
        name: name.into(),
        path: path.into(),
        comment: None,
        read_only,
        enabled: true,
    }
}

fn settings() -> RcloneSettings {
    RcloneSettings {
        listen: "0.0.0.0".into(),
        port: 21,
        username: "nasty".into(),
        password: "s3cret".into(),
        anonymous: false,
        passive_port_min: 30000,
        passive_port_max: 30100,
    }
}

#[test]
fn validate_share_name_accepts_safe_names() {
    assert!(validate_share_name("docs").is_ok());
    assert!(validate_share_name("My-Share_2024").is_ok());
    assert!(validate_share_name("a.b").is_ok());
}

#[test]
fn rclone_validate_share_name_rejects_invalid() {
    assert!(validate_share_name("").is_err());
    assert!(validate_share_name(&"x".repeat(81)).is_err());
    assert!(validate_share_name("My Share").is_err());
    assert!(validate_share_name("a/b").is_err());
    assert!(validate_share_name("-leading").is_err());
    assert!(validate_share_name("has=eq").is_err());
}

#[test]
fn validate_share_path_rejects_ini_injection() {
    assert!(validate_share_path("/fs/tank/docs").is_ok());
    assert!(validate_share_path("/fs/tank\nupstreams = evil").is_err());
    assert!(validate_share_path("/fs/tank#comment").is_err());
    assert!(validate_share_path("/fs/tank=eq").is_err());
}

fn contains(hay: &str, needle: &str) -> bool {
    hay.contains(needle)
}

#[test]
fn render_conf_combine_and_readonly_union() {
    let rw = share("photos", "/fs/tank/photos", false);
    let mut ro = share("docs", "/fs/tank/docs", true);
    ro.id = "aaaaaaaa-bbbb-cccc-dddd-eeeeeeeeeeee".into();
    let conf = render_rclone_conf(&vec![rw, ro]);
    assert!(contains(&conf, "[shares]"));
    assert!(contains(&conf, "type = combine"));
    assert!(contains(&conf, "photos=s11111111222233334444555555555555:"));
    assert!(contains(&conf, "docs=saaaaaaaabbbbccccddddeeeeeeeeeeee:"));
    assert!(contains(&conf, "type = union"));
    assert!(contains(&conf, "upstreams = saaaaaaaabbbbccccddddeeeeeeeeeeee_local::ro"));
    assert!(contains(&conf, "remote = /fs/tank/photos"));
}

#[test]
fn render_conf_omits_disabled_shares() {
    let mut s = share("photos", "/fs/tank/photos", false);
    s.enabled = false;
    let conf = render_rclone_conf(&vec![s]);
    assert!(contains(&conf, "upstreams =\n"));
    assert!(!contains(&conf, "photos="));
}

#[test]
fn serve_script_quotes_password_and_sets_ftp_flags() {
    let script = render_serve_script(
        RcloneKind::Ftp,
        &settings(),
        &vec![share("photos", "/fs/tank/photos", false)],
        false,
    );
    assert!(script.starts_with("#!/bin/sh\nexec /usr/bin/rclone"));
    assert!(contains(&script, "'serve' 'ftp' 'shares:'"));
    assert!(contains(&script, "'--addr' '0.0.0.0:21'"));
    assert!(contains(&script, "'--user' 'nasty'"));
    assert!(contains(&script, "'--pass' 's3cret'"));
    assert!(contains(&script, "'--passive-port' '30000-30100'"));
}

#[test]
fn serve_script_anonymous_ftp_omits_password() {
    let mut s = settings();
    s.anonymous = true;
    let script = render_serve_script(RcloneKind::Ftp, &s, &vec![], false);
    assert!(contains(&script, "'--user' 'anonymous'"));
    assert!(!contains(&script, "'--pass'"));
    assert!(contains(&script, EMPTY_DIR));
}

#[test]
fn serve_script_s3_auth_key_and_path_style() {
    let mut s = settings();
    s.port = 9000;
    let script =
        render_serve_script(RcloneKind::S3, &s, &vec![share("docs", "/fs/tank/docs", false)], false);
    assert!(contains(&script, "'serve' 's3' 'shares:'"));
    assert!(contains(&script, "'--force-path-style'"));
    assert!(contains(&script, "'--auth-key' 'nasty,s3cret'"));
    assert!(contains(&script, "'--addr' '0.0.0.0:9000'"));
}

#[test]
fn serve_script_escapes_single_quotes_in_password() {
    let mut s = settings();
    s.password = "it's-secret".into();
    let script = render_serve_script(RcloneKind::Sftp, &s, &vec![], false);
    assert!(contains(&script, "'it'\\''s-secret'"));
}

#[test]
fn sftp_script_names_the_host_key_only_where_it_exists() {
    let s = settings();
    let with_key = render_serve_script(RcloneKind::Sftp, &s, &vec![], true);
    let without = render_serve_script(RcloneKind::Sftp, &s, &vec![], false);
    assert!(contains(&with_key, "'--key' '/var/lib/nasty/rclone/sftp_host_key'"));
    assert!(!contains(&without, "'--key'"));
}

#[test]
fn reserved_ports_are_rejected() {
    assert!(validate_port(RcloneKind::Ftp, 21).is_ok());
    assert!(validate_port(RcloneKind::Ftp, 2121).is_ok());
    assert!(validate_port(RcloneKind::Sftp, 2022).is_ok());
    assert!(validate_port(RcloneKind::S3, 9000).is_ok());
    assert!(validate_port(RcloneKind::Ftp, 445).is_err());
    assert!(validate_port(RcloneKind::Sftp, 22).is_err());
    assert!(validate_port(RcloneKind::S3, 80).is_err());
}

#[test]
fn shell_quote_wraps_plain_values() {
    assert_eq!(shell_single_quote("abc"), "'abc'");
    assert_eq!(shell_single_quote("a'b"), "'a'\\''b'");
}

fn settings_message(r: Result<(), RcloneError>) -> String {
    match r {
        Err(RcloneError::InvalidSettings(m)) => m,
        _ => String::from("(other)"),
    }
}

#[test]
fn settings_validators_explain_themselves() {
    assert_eq!(settings_message(validate_port(RcloneKind::Ftp, 0)), "port must be 1–65535");
    assert_eq!(
        settings_message(validate_port(RcloneKind::Ftp, 445)),
        "port 445 is reserved by another NASty service"
    );
    assert_eq!(
        settings_message(validate_port(RcloneKind::Sftp, 21)),
        "SFTP cannot bind FTP port 21"
    );
    assert!(validate_listen("0.0.0.0").is_ok());
    assert!(validate_listen("").is_err());
    assert!(validate_listen("a b").is_err());
    assert!(validate_username("user@host").is_ok());
    assert!(validate_username("bad user").is_err());
    assert!(validate_password("pw").is_ok());
    assert!(validate_password("a,b").is_err());
    assert!(validate_passive_range(30000, 30100).is_ok());
    assert!(validate_passive_range(100, 30100).is_err());
    assert!(validate_passive_range(30100, 30000).is_err());
}

#[test]
fn remote_ids_drop_hyphens() {
    assert_eq!(remote_id(&share("x", "/fs/t/x", false)), "s11111111222233334444555555555555");
}

fn stored(port: u16) -> StoredServer {
    StoredServer {
        listen: String::new(),
        port,
        username: String::new(),
        anonymous: true,
        passive_port_min: 0,
        passive_port_max: 0,
    }
}

#[test]
fn live_settings_fall_back_to_defaults() {
    let sftp = RcloneService::sftp();
    let s = sftp.settings(&stored(0), "pw".to_string());
    assert_eq!(s.listen, "0.0.0.0");
    assert_eq!(s.port, 2022);
    assert_eq!(s.username, "nasty");
    assert_eq!(s.password, "pw");
    assert!(!s.anonymous);
    assert_eq!((s.passive_port_min, s.passive_port_max), (30000, 30100));
    let ftp = RcloneService::ftp();
    assert!(ftp.settings(&stored(2121), "pw".to_string()).anonymous);
    assert_eq!(ftp.settings(&stored(2121), "pw".to_string()).port, 2121);
}

#[test]
fn listen_ports_fall_back_to_defaults() {
    let ftp = RcloneService::ftp();
    let p = ftp.listen_ports(None);
    assert_eq!(p.port, 21);
    assert_eq!(p.passive, Some((30000, 30100)));
    let s3 = RcloneService::s3();
    assert_eq!(s3.listen_ports(Some(&stored(9100))).port, 9100);
    assert_eq!(s3.listen_ports(Some(&stored(9100))).passive, None);
    assert_eq!(s3.kind(), RcloneKind::S3);
}

#[test]
fn initial_settings_generate_a_password() {
    let (st, pw) = RcloneService::ftp().initial_settings().ok().unwrap();
    assert_eq!(st.listen, "0.0.0.0");
    assert_eq!(st.port, 21);
    assert_eq!(st.username, "nasty");
    assert_eq!(pw.len(), 24);
    assert!(pw.chars().all(|c| c.is_ascii_alphanumeric()));
    let (_, pw2) = RcloneService::ftp().initial_settings().ok().unwrap();
    assert_ne!(pw, pw2);
}

#[test]
fn settings_updates_validate_then_apply() {
    let ftp = RcloneService::ftp();
    let req = UpdateRcloneSettingsRequest {
        listen: None,
        port: Some(2121),
        username: Some("alice".into()),
        password: Some("pw".into()),
        anonymous: Some(true),
        passive_port_min: Some(40000),
        passive_port_max: Some(40010),
    };
    let out = match ftp.update_settings(stored(21), &req) {
        Ok(s) => s,
        Err(_) => panic!("update refused"),
    };
    assert_eq!(out.port, 2121);
    assert_eq!(out.username, "alice");
    assert!(out.anonymous);
    assert_eq!((out.passive_port_min, out.passive_port_max), (40000, 40010));

    let bad = UpdateRcloneSettingsRequest {
        listen: None,
        port: Some(22),
        username: None,
        password: None,
        anonymous: None,
        passive_port_min: None,
        passive_port_max: None,
    };
    assert!(matches!(ftp.update_settings(stored(21), &bad), Err(RcloneError::InvalidSettings(_))));
    // The stored range (zeros) is refused once nothing else is.
    let none = UpdateRcloneSettingsRequest {
        listen: None,
        port: None,
        username: None,
        password: None,
        anonymous: Some(true),
        passive_port_min: None,
        passive_port_max: None,
    };
    assert!(ftp.update_settings(stored(21), &none).is_err());
    // Only FTP may be anonymous.
    let mut st = stored(22);
    st.passive_port_min = 30000;
    st.passive_port_max = 30100;
    st.anonymous = false;
    let sftp = RcloneService::sftp();
    match sftp.update_settings(st, &none) {
        Ok(s) => assert!(!s.anonymous),
        Err(_) => panic!("update refused"),
    }
}

fn create_req(name: &str, path: &str) -> CreateRcloneShareRequest {
    CreateRcloneShareRequest {
        name: name.into(),
        path: path.into(),
        comment: Some("c".into()),
        read_only: None,
        enabled: None,
    }
}

#[test]
fn create_checks_then_builds_a_share() {
    let svc = RcloneService::ftp();
    let s = match svc.create(create_req("docs", "/fs/tank/docs"), Some("/fs/tank/docs".into()), vec![]) {
        Ok(s) => s,
        Err(_) => panic!("create refused"),
    };
    assert_eq!(s.name, "docs");
    assert_eq!(s.path, "/fs/tank/docs");
    assert_eq!(s.comment.as_deref(), Some("c"));
    assert!(!s.read_only);
    assert!(s.enabled);
    assert_eq!(s.id.len(), 36);
    assert_eq!(s.id.chars().nth(14), Some('4'));
    assert!(matches!(
        svc.create(create_req("docs", "/fs/tank/docs"), None, vec![]),
        Err(RcloneError::PathNotFound(_))
    ));
    assert!(matches!(
        svc.create(create_req("docs", "/etc"), Some("/etc".into()), vec![]),
        Err(RcloneError::PathNotInFilesystem(_))
    ));
    assert!(matches!(
        svc.create(create_req("bad name", "/fs/tank/docs"), Some("/fs/tank/docs".into()), vec![]),
        Err(RcloneError::InvalidName(_))
    ));
    // Idempotent by name.
    let existing = vec![share("docs", "/fs/tank/old", true)];
    match svc.create(create_req("docs", "/fs/tank/docs"), Some("/fs/tank/docs".into()), existing) {
        Ok(s) => {
            assert_eq!(s.path, "/fs/tank/old");
            assert_eq!(s.id, "11111111-2222-3333-4444-555555555555");
        },
        Err(_) => panic!("create refused"),
    }
}

#[test]
fn update_renames_only_to_free_names() {
    let svc = RcloneService::sftp();
    let mut other = share("taken", "/fs/tank/t", false);
    other.id = "other".into();
    let current = share("docs", "/fs/tank/docs", false);
    let existing = vec![share("docs", "/fs/tank/docs", false), other];
    let req = UpdateRcloneShareRequest {
        id: current.id.clone(),
        name: Some("taken".into()),
        comment: None,
        read_only: None,
        enabled: None,
    };
    assert!(matches!(svc.update(req, Some(share("docs", "/fs/tank/docs", false)), &existing), Err(RcloneError::NameExists(_))));
    let req = UpdateRcloneShareRequest {
        id: current.id.clone(),
        name: Some("fresh".into()),
        comment: Some("note".into()),
        read_only: Some(true),
        enabled: None,
    };
    match svc.update(req, Some(current), &existing) {
        Ok(s) => {
            assert_eq!(s.name, "fresh");
            assert_eq!(s.comment.as_deref(), Some("note"));
            assert!(s.read_only);
            assert!(s.enabled);
        },
        Err(_) => panic!("update refused"),
    }
    let req = UpdateRcloneShareRequest {
        id: "missing".into(),
        name: None,
        comment: None,
        read_only: None,
        enabled: None,
    };
    assert!(matches!(svc.update(req, None, &existing), Err(RcloneError::NotFound(_))));
}

#[test]
fn kind_paths_and_units() {
    assert_eq!(RcloneKind::Sftp.unit(), "nasty-rclone@sftp.service");
    assert_eq!(RcloneKind::S3.state_dir(), "/var/lib/nasty/shares/s3");
    assert!(RcloneKind::Ftp.conf_path().ends_with("/ftp.conf"));
    assert!(RcloneKind::Ftp.script_path().ends_with("/ftp-serve.sh"));
    assert!(RcloneKind::Sftp.settings_path().ends_with("/sftp-server.json"));
    assert_eq!(RcloneKind::S3.secrets_name(), "nasty.rclone.s3.password");
    assert_eq!(RcloneKind::Ftp.default_port(), 21);
}
