use finupdate::action_journal::Journal;
use finupdate::privileged::Exec;
use finupdate::ui::host_actions::{
    code_name, host_command_result, install_reset_summary, powerwash_steps, powerwash_summary,
    reboot_scheduled, run_bootc_install_reset, run_host_command, run_powerwash,
    run_unpin_to_stream, schedule_reboot_tonight, tail_line, unpin_end, CommandEnd, Flags, StepEnd,
};

const REAL: Flags = Flags {
    dev_mode: false,
    dry_run: false,
};

const DRY: Flags = Flags {
    dev_mode: false,
    dry_run: true,
};

fn journal() -> Journal {
    Journal::open(Some("/tmp/journal"), true)
}

fn failed(code: Option<i32>, stderr: &str) -> CommandEnd {
    CommandEnd::Failed {
        code,
        stderr: stderr.to_string(),
    }
}

#[test]
fn tails_and_codes() {
    assert_eq!(tail_line("first\nlast\n", "none"), "last");
    assert_eq!(tail_line("", "none"), "none");
    assert_eq!(code_name(Some(-1)), "-1");
    assert_eq!(code_name(Some(126)), "126");
}

#[test]
fn factory_reset_is_recorded_and_run() {
    let mut j = journal();
    let plan = run_bootc_install_reset(&mut j, "Factory reset", REAL, REAL, false);
    assert_eq!(
        plan.toasts[0].text,
        "Factory reset starting… (running `bootc install reset`)"
    );
    assert!(plan.command.is_some());
    let entry = plan.entry.unwrap();
    assert_eq!(entry.action, "factory_reset");
    assert_eq!(
        entry.would_run.join(" "),
        "pkexec bootc install reset --experimental --apply"
    );
    assert_eq!(j.next_seq, 1);
}

#[test]
fn factory_reset_is_withheld() {
    let mut j = journal();
    let plan = run_bootc_install_reset(&mut j, "Factory reset", DRY, REAL, false);
    assert!(plan.command.is_none() && plan.entry.is_none());
    assert_eq!(
        plan.toasts[0].text,
        "Factory reset aborted (settings now in dry-run)"
    );
    assert_eq!(j.next_seq, 0);
    let plan = run_bootc_install_reset(&mut j, "Factory reset", REAL, DRY, false);
    assert!(plan.command.is_none() && plan.entry.is_some());
    assert_eq!(
        plan.toasts[1].text,
        "Factory reset staged (dry-run, no commands run)"
    );
    let plan = run_unpin_to_stream(&mut j, "ghcr.io/a/b", "stable", DRY, false);
    assert!(plan.command.is_none());
    let plan = schedule_reboot_tonight(&mut j, DRY, false);
    assert!(plan.command.is_none());
    assert_eq!(plan.toasts[0].text, "Restart scheduled for 02:00 (dry-run)");
}

#[test]
fn unpin_switches_to_the_stream() {
    let mut j = journal();
    let plan = run_unpin_to_stream(&mut j, "ghcr.io/a/b", "stable", REAL, true);
    let entry = plan.entry.unwrap();
    assert_eq!(
        entry.would_run.join(" "),
        "flatpak-spawn --host pkexec bootc switch ghcr.io/a/b:stable"
    );
    assert_eq!(
        entry.args[0],
        ("target".to_string(), "ghcr.io/a/b:stable".to_string())
    );
    assert_eq!(
        unpin_end("ghcr.io/a/b:stable", &CommandEnd::Success).text,
        "Unpinned to ghcr.io/a/b:stable — reboot to apply"
    );
    assert_eq!(
        unpin_end("x", &failed(Some(1), "boom\n")).text,
        "Unpin failed (exit 1): boom"
    );
    assert_eq!(
        unpin_end("x", &CommandEnd::NotStarted("no pkexec".to_string())).text,
        "Unpin could not start: no pkexec"
    );
}

#[test]
fn ends_are_told() {
    assert_eq!(
        install_reset_summary("Factory reset", &CommandEnd::Success).text,
        "Factory reset complete — reboot to finish"
    );
    assert_eq!(
        install_reset_summary("Factory reset", &failed(Some(2), "a\nb")).text,
        "Factory reset failed (exit 2): b"
    );
    assert_eq!(
        install_reset_summary("Factory reset", &CommandEnd::NotStarted("x".to_string())).text,
        "Factory reset could not start: x"
    );
    assert_eq!(
        reboot_scheduled(&CommandEnd::Success).text,
        "Restart scheduled for 02:00 — `sudo shutdown -c` to cancel"
    );
    assert_eq!(
        reboot_scheduled(&failed(Some(1), "denied")).text,
        "Couldn't schedule restart (exit 1): denied"
    );
    assert_eq!(
        reboot_scheduled(&CommandEnd::NotStarted("x".to_string())).text,
        "Couldn't schedule restart: x"
    );
}

#[test]
fn powerwash_runs_every_step() {
    let (begins, toast) = run_powerwash(REAL);
    assert!(begins);
    assert_eq!(
        toast.text,
        "Powerwash starting… (uninstalling apps and containers)"
    );
    let (begins, toast) = run_powerwash(DRY);
    assert!(!begins);
    assert_eq!(toast.text, "Powerwash aborted (settings now in dry-run)");
    let steps = powerwash_steps();
    assert_eq!(steps[0].argv.join(" "), "flatpak uninstall --user --all -y");
    assert_eq!(steps[1].argv.join(" "), "distrobox rm -f -a");
    let mut j = journal();
    let (exec, entry) = run_host_command(&mut j, "step", &["distrobox", "rm"], REAL, true);
    assert!(matches!(exec, Exec::Run(_)));
    assert_eq!(
        entry.unwrap().would_run.join(" "),
        "flatpak-spawn --host distrobox rm"
    );
    let (exec, _) = run_host_command(&mut j, "step", &["distrobox", "rm"], DRY, true);
    assert!(matches!(exec, Exec::Suppressed));
}

#[test]
fn powerwash_is_complete_where_every_step_succeeded() {
    assert_eq!(host_command_result(&None), (true, String::new()));
    assert_eq!(
        host_command_result(&Some(failed(Some(1), ""))),
        (false, "(no stderr)".to_string())
    );
    assert_eq!(
        host_command_result(&Some(CommandEnd::NotStarted("gone".to_string()))),
        (false, "gone".to_string())
    );
    let step = |label: &str, ok: bool, error: &str| StepEnd {
        label: label.to_string(),
        ok,
        error: error.to_string(),
    };
    assert_eq!(
        powerwash_summary(&vec![step("a", true, ""), step("b", true, "")]).text,
        "Powerwash complete — apps and containers cleared"
    );
    assert_eq!(
        powerwash_summary(&vec![
            step("a", false, "x"),
            step("b", true, ""),
            step("c", false, "y")
        ])
        .text,
        "Powerwash finished with errors — a: x; c: y"
    );
}
