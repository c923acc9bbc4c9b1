use nasty::alerts::{AlertCoverage, AlertMetric};
use nasty::dependents::{locked_filesystem_names, FsLockState};
use nasty::smb::{tuning_globals_from_json, SmbError, SmbTuningGlobals};
use nasty::smb_accounts::{principal_is_local, user_names_from_parse, user_names_from_state};
use nasty::update::{generation_labels_from, labels_or_empty, snapshot_date, upgrade_pending};
use nasty::usage::accept_clone_names;
use std::collections::HashMap;

#[test]
fn tuning_file_knobs_are_read_by_key() {
    let t = tuning_globals_from_json(r#"{"smb_max_connections": 50, "smb_deadtime": 15, "other": 1}"#);
    assert_eq!(t.max_connections, 50);
    assert_eq!(t.deadtime, 15);
}

#[test]
fn tuning_file_missing_or_odd_knobs_are_zero() {
    let t = tuning_globals_from_json(r#"{"smb_deadtime": "soon"}"#);
    assert_eq!(t.max_connections, 0);
    assert_eq!(t.deadtime, 0);
    let t = tuning_globals_from_json("{}");
    assert_eq!((t.max_connections, t.deadtime), (0, 0));
}

#[test]
fn tuning_file_large_knob_keeps_low_bits() {
    let t = tuning_globals_from_json(r#"{"smb_max_connections": 4294967297, "smb_deadtime": 7}"#);
    assert_eq!(t.max_connections, 1);
    assert_eq!(t.deadtime, 7);
}

#[test]
fn tuning_file_that_is_not_json_gives_defaults() {
    let t = tuning_globals_from_json("smb_max_connections = 50");
    assert_eq!((t.max_connections, t.deadtime), (0, 0));
}

#[test]
fn tuning_lookups_without_a_document_give_defaults() {
    let t = SmbTuningGlobals::from_lookups(Some(Some(3)), None);
    assert_eq!((t.max_connections, t.deadtime), (0, 0));
    let t = SmbTuningGlobals::from_lookups(Some(Some(3)), Some(None));
    assert_eq!((t.max_connections, t.deadtime), (3, 0));
}

#[test]
fn absent_user_register_is_empty() {
    assert!(matches!(user_names_from_state(None), Ok(v) if v.is_empty()));
}

#[test]
fn user_register_lists_its_names() {
    let r = user_names_from_state(Some(r#"["alice", "bob"]"#));
    assert!(matches!(r, Ok(v) if v == vec!["alice".to_string(), "bob".to_string()]));
}

#[test]
fn unreadable_user_register_names_the_file() {
    match user_names_from_state(Some("{not a list")) {
        Err(SmbError::ReloadFailed(m)) => {
            assert!(m.starts_with("parse /var/lib/nasty/shares/ksmbd-users.json: "));
            assert!(m.len() > "parse /var/lib/nasty/shares/ksmbd-users.json: ".len());
        },
        _ => panic!("expected a parse failure"),
    }
    assert!(matches!(
        user_names_from_parse(Err("boom".to_string())),
        Err(SmbError::ReloadFailed(m)) if m == "parse /var/lib/nasty/shares/ksmbd-users.json: boom"
    ));
}

#[test]
fn domain_principals_are_not_local() {
    assert!(principal_is_local("alice"));
    assert!(!principal_is_local("CORP\\alice"));
}

#[test]
fn generation_labels_are_read_from_json() {
    let labels = generation_labels_from(Some(r#"{"3": "before upgrade", "12": "pinned"}"#));
    assert_eq!(labels.len(), 2);
    assert_eq!(labels.get(&3).map(String::as_str), Some("before upgrade"));
    assert_eq!(labels.get(&12).map(String::as_str), Some("pinned"));
}

#[test]
fn unreadable_generation_labels_are_empty() {
    assert!(generation_labels_from(Some("[1, 2]")).is_empty());
    assert!(generation_labels_from(None).is_empty());
    assert!(labels_or_empty(None).is_empty());
    let mut m = HashMap::new();
    m.insert(4u64, "x".to_string());
    assert_eq!(labels_or_empty(Some(m.clone())), m);
}

#[test]
fn upgrade_pending_compares_normalized_versions() {
    assert!(!upgrade_pending(Some("v1.2-1"), Some("1.2-3")));
    assert!(upgrade_pending(Some("1.2"), Some("1.3")));
    assert!(!upgrade_pending(None, Some("1.3")));
    assert!(!upgrade_pending(Some("1.2"), None));
}

#[test]
fn snapshot_date_prefers_its_own_date() {
    assert_eq!(snapshot_date(Some("2024-01-02".into()), Some("x".into())), "2024-01-02");
    assert_eq!(snapshot_date(None, Some("2023-05-06".into())), "2023-05-06");
    assert_eq!(snapshot_date(None, None), "");
}

#[test]
fn first_refused_clone_name_is_the_error() {
    let names = vec!["a-new".to_string(), "b-new".to_string(), "c-new".to_string()];
    let r = accept_clone_names(names.clone(), &vec![None, Some("bad b".into()), Some("bad c".into())]);
    assert_eq!(r, Err("bad b".to_string()));
    let r = accept_clone_names(names.clone(), &vec![None, None, None]);
    assert_eq!(r, Ok(names));
}

#[test]
fn coverage_after_a_sequence_of_calls() {
    let mut c = AlertCoverage::default();
    assert!(c.is_observed(AlertMetric::SmartAttribute, "/dev/sda#5"));
    c.observe_smart_attributes("/dev/sda".into(), vec![5]);
    c.mark_source(AlertMetric::SmartAttribute, "/dev/sdb".into());
    c.observe_smart_attributes("/dev/sda".into(), vec![9]);
    assert!(!c.is_observed(AlertMetric::SmartAttribute, "/dev/sda#5"));
    assert!(c.is_observed(AlertMetric::SmartAttribute, "/dev/sda#9"));
    assert!(!c.is_observed(AlertMetric::SmartAttribute, "/dev/sdb#9"));
    c.mark_metric(AlertMetric::SmartAttribute);
    assert!(!c.is_observed(AlertMetric::SmartAttribute, "/dev/sda#9"));
}

#[test]
fn only_encrypted_and_locked_filesystems_are_gathered() {
    let fs = |name: &str, encrypted: Option<bool>, locked: Option<bool>| FsLockState {
        name: name.to_string(),
        encrypted,
        locked,
    };
    let all = vec![
        fs("tank", Some(true), Some(true)),
        fs("plain", None, None),
        fs("open", Some(true), Some(false)),
        fs("odd", Some(false), Some(true)),
        fs("vault", Some(true), Some(true)),
    ];
    assert_eq!(locked_filesystem_names(&all), vec!["tank".to_string(), "vault".to_string()]);
}
