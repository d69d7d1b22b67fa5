use finupdate::action_journal::{is_enabled, record, record_str, Journal, Suppressed};


#[test]
fn dev_mode_wins_over_dry_run() {
    assert_eq!(Suppressed::from_flags(true, true), Suppressed::DevMode);
    assert_eq!(Suppressed::from_flags(true, false), Suppressed::DevMode);
}

#[test]
fn dry_run_alone_is_dry_run() {
    assert_eq!(Suppressed::from_flags(false, true), Suppressed::DryRun);
}

#[test]
fn neither_flag_means_execution_proceeds() {
    let s = Suppressed::from_flags(false, false);
    assert_eq!(s, Suppressed::No);
    assert!(!s.blocks_execution());
}

#[test]
fn both_suppression_reasons_block_execution() {
    assert!(Suppressed::DryRun.blocks_execution());
    assert!(Suppressed::DevMode.blocks_execution());
}

#[test]
fn reason_strings_are_stable_test_contract() {
    assert_eq!(Suppressed::DryRun.as_str(), "dry_run");
    assert_eq!(Suppressed::DevMode.as_str(), "dev_mode");
    assert_eq!(Suppressed::No.as_str(), "none");
}

#[test]
fn journal_is_off_without_a_file() {
    assert!(!is_enabled(&Journal::open(None, false)));
    assert!(!is_enabled(&Journal::open(Some(""), true)));
    assert!(!is_enabled(&Journal::open(Some("/tmp/j"), false)));
    assert!(is_enabled(&Journal::open(Some("/tmp/j"), true)));
    let mut off = Journal::open(None, false);
    assert!(record(&mut off, "reboot", vec![], vec![], Suppressed::No).is_none());
}

#[test]
fn entries_are_numbered_in_order() {
    let mut j = Journal::open(Some("/tmp/j"), true);
    let a = record_str(&mut j, "reboot", vec![], &["systemctl", "reboot"], Suppressed::DevMode).unwrap();
    let b = record(
        &mut j,
        "switch_image",
        vec![("target".to_string(), "x".to_string())],
        vec!["bootc".to_string()],
        Suppressed::No,
    )
    .unwrap();
    assert_eq!((a.seq, b.seq), (0, 1));
    assert_eq!(a.action, "reboot");
    assert_eq!(a.would_run, vec!["systemctl", "reboot"]);
    assert_eq!(a.suppressed_by, "dev_mode");
    assert_eq!(b.args, vec![("target".to_string(), "x".to_string())]);
}
