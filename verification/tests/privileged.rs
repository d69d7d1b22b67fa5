use finupdate::action_journal::{Journal, Suppressed};
use finupdate::privileged::{
    privileged, privileged_async, resolve_argv, Exec, ExecAsync, Privilege,
};

fn journal() -> Journal {
    Journal::open(Some("/tmp/journal"), true)
}


#[test]
fn argv_gets_pkexec_prefix() {
    let got = resolve_argv(&["systemctl", "reboot"], Privilege::Pkexec, false);
    assert_eq!(got, vec!["pkexec", "systemctl", "reboot"]);
}

#[test]
fn argv_preserves_argument_order_and_arity() {
    let got = resolve_argv(
        &["bootc", "switch", "ghcr.io/ublue-os/bluefin:stable"],
        Privilege::Pkexec,
        false,
    );
    assert_eq!(
        got,
        vec![
            "pkexec",
            "bootc",
            "switch",
            "ghcr.io/ublue-os/bluefin:stable"
        ]
    );
}

#[test]
fn host_privilege_does_not_elevate() {
    // The uupd config *read* and the unprivileged `bootc status` attempt
    // must not gain a pkexec prefix — otherwise the journal would claim a
    // password prompt that never happens.
    let got = resolve_argv(&["cat", "/etc/uupd/config.json"], Privilege::Host, false);
    assert_eq!(got, vec!["cat", "/etc/uupd/config.json"]);
}

#[test]
fn empty_argv_still_yields_pkexec() {
    // Degenerate but must not panic — privileged() indexes full[0].
    assert_eq!(resolve_argv(&[], Privilege::Pkexec, false), vec!["pkexec"]);
}

#[test]
fn suppressed_returns_no_command() {
    let (e, _) = privileged(
        &mut journal(),
        "reboot",
        vec![],
        &["systemctl", "reboot"],
        Privilege::Pkexec,
        Suppressed::DryRun,
        false,
    );
    assert!(matches!(e, Exec::Suppressed));
}

#[test]
fn dev_mode_also_suppresses() {
    let (e, _) = privileged(
        &mut journal(),
        "powerwash",
        vec![],
        &["bootc", "install"],
        Privilege::Pkexec,
        Suppressed::DevMode,
        false,
    );
    assert!(matches!(e, Exec::Suppressed));
}

#[test]
fn unsuppressed_yields_a_command_with_the_resolved_program() {
    let (e, _) = privileged(
        &mut journal(),
        "reboot",
        vec![],
        &["systemctl", "reboot"],
        Privilege::Pkexec,
        Suppressed::No,
        false,
    );
    match e {
        Exec::Run(cmd) => {
            assert_eq!(cmd.program, "pkexec");
            assert_eq!(cmd.args, vec!["systemctl", "reboot"]);
        }
        Exec::Suppressed => panic!("Suppressed::No must produce a runnable command"),
    }
}

#[test]
fn async_variant_suppresses_identically() {
    let (e, _) = privileged_async(
        &mut journal(),
        "switch_image",
        vec![("target".to_string(), "ghcr.io/x/y:z".to_string())],
        &["bootc", "switch", "ghcr.io/x/y:z"],
        Privilege::Pkexec,
        Suppressed::DryRun,
        false,
    );
    assert!(matches!(e, ExecAsync::Suppressed));
}

#[test]
fn sandboxed_argv_goes_through_the_host() {
    assert_eq!(
        resolve_argv(&["bootc", "upgrade"], Privilege::Pkexec, true),
        vec!["flatpak-spawn", "--host", "pkexec", "bootc", "upgrade"]
    );
    assert_eq!(
        resolve_argv(&["bootc", "status"], Privilege::Host, true),
        vec!["flatpak-spawn", "--host", "bootc", "status"]
    );
}

#[test]
fn journal_tells_the_command_whether_or_not_it_runs() {
    let mut j = journal();
    let (_, first) = privileged(
        &mut j,
        "reboot",
        vec![],
        &["systemctl", "reboot"],
        Privilege::Pkexec,
        Suppressed::DryRun,
        false,
    );
    let first = first.unwrap();
    assert_eq!(first.seq, 0);
    assert_eq!(first.would_run, vec!["pkexec", "systemctl", "reboot"]);
    assert_eq!(first.suppressed_by, "dry_run");
    let (run, second) = privileged_async(
        &mut j,
        "reboot",
        vec![],
        &["systemctl", "reboot"],
        Privilege::Pkexec,
        Suppressed::No,
        false,
    );
    assert!(matches!(run, ExecAsync::Run(_)));
    let second = second.unwrap();
    assert_eq!(second.seq, 1);
    assert_eq!(second.would_run, vec!["pkexec", "systemctl", "reboot"]);
    assert_eq!(second.suppressed_by, "none");
}
