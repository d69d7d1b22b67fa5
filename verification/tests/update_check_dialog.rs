use finupdate::orchestrator::{Module, ModuleStatus};
use finupdate::ui::update_check_dialog::{
    extract_module_key_from_line, show_update_check_dialog, source_defs, source_matches_key,
    strip_ansi_escapes, CheckClick, CheckDialog, CheckEvent, CheckOutcome, CheckResult, CheckRun, SourceState,
};
use finupdate::update_worker::UpdateEvent;

// ── source_matches_key ──────────────────────────────────────────────
// Maps display labels shown in the check dialog ("System image",
// "Homebrew", etc.) to the module key uupd uses internally. Lets the
// dialog highlight whichever source corresponds to the running module.

#[test]
fn source_matches_system_image_for_system_key() {
    assert!(source_matches_key("System image", "system"));
}

#[test]
fn source_matches_flatpak() {
    assert!(source_matches_key("Flatpak", "flatpak"));
}

#[test]
fn source_matches_homebrew_for_brew_key() {
    // uupd internally calls it "brew" but the user-facing label is the
    // full "Homebrew" — pin both sides of the mapping.
    assert!(source_matches_key("Homebrew", "brew"));
}

#[test]
fn source_matches_distrobox() {
    assert!(source_matches_key("Distrobox", "distrobox"));
}

#[test]
fn source_rejects_wrong_label_for_key() {
    assert!(!source_matches_key("Flatpak", "system"));
    assert!(!source_matches_key("System image", "brew"));
}

#[test]
fn source_rejects_unknown_key() {
    assert!(!source_matches_key("System image", "mystery"));
}

// ── extract_module_key_from_line ────────────────────────────────────

#[test]
fn extract_recognises_system() {
    assert_eq!(
        extract_module_key_from_line("time=2026-05-30 module_name=System level=INFO"),
        Some("system")
    );
}

#[test]
fn extract_recognises_flatpak() {
    assert_eq!(
        extract_module_key_from_line("module_name=Flatpak"),
        Some("flatpak")
    );
}

#[test]
fn extract_recognises_brew() {
    assert_eq!(
        extract_module_key_from_line("module_name=Brew"),
        Some("brew")
    );
}

#[test]
fn extract_recognises_distrobox() {
    assert_eq!(
        extract_module_key_from_line("module_name=Distrobox"),
        Some("distrobox")
    );
}

#[test]
fn extract_returns_none_for_non_module_lines() {
    assert!(extract_module_key_from_line("time=2026-05-30 level=INFO message=ready").is_none());
    assert!(extract_module_key_from_line("").is_none());
}

// ── the run and the dialog ──────────────────────────────────────────

fn follow(dialog: &mut CheckDialog, run: &mut CheckRun, event: UpdateEvent) -> Option<CheckResult> {
    let mut result = None;
    let (events, _) = run.follow(event);
    for e in events {
        if let Some(r) = dialog.update(e) {
            result = Some(r);
        }
    }
    result
}

fn line(s: &str) -> UpdateEvent {
    UpdateEvent::Output(s.to_string())
}

#[test]
fn dialog_opens_with_every_source_waiting() {
    let dialog = show_update_check_dialog();
    assert_eq!(dialog.title, "Updating…");
    assert_eq!(dialog.summary, "Running update across 4 sources…");
    assert_eq!(dialog.close_label, "Cancel");
    assert!(dialog
        .sources
        .iter()
        .all(|s| s.state == SourceState::Waiting));
    assert_eq!(dialog.update_progress(), (0, 8));
    let defs = source_defs();
    assert_eq!(defs.len(), 4);
    assert_eq!(defs[2], ("brew", "Homebrew", "User formulae and casks", "package-x-generic-symbolic"));
}

#[test]
fn run_that_completes_updates_the_system() {
    let mut dialog = show_update_check_dialog();
    let mut run = CheckRun::new();
    follow(&mut dialog, &mut run, line("before any module"));
    assert!(dialog.sources.iter().all(|s| s.log.is_empty()));
    follow(&mut dialog, &mut run, line("module_name=System start"));
    assert_eq!(dialog.sources[0].state, SourceState::Checking);
    assert_eq!(dialog.update_progress(), (1, 8));
    follow(&mut dialog, &mut run, line("\u{1b}[32mpulling\u{1b}[0m"));
    assert_eq!(dialog.sources[0].log, "module_name=System start\npulling");
    follow(&mut dialog, &mut run, UpdateEvent::ModuleStarted(Module::Flatpak));
    assert_eq!(dialog.sources[0].state, SourceState::UpToDate);
    assert_eq!(dialog.sources[1].state, SourceState::Checking);
    assert_eq!(dialog.update_progress(), (3, 8));
    follow(
        &mut dialog,
        &mut run,
        UpdateEvent::ModuleFinished(Module::Flatpak, ModuleStatus::Success),
    );
    assert_eq!(dialog.sources[1].state, SourceState::UpToDate);
    let result = follow(&mut dialog, &mut run, UpdateEvent::Complete).unwrap();
    assert_eq!(
        result,
        CheckResult {
            system_update: true,
            sources_with_updates: 1,
            total_updates: 1
        }
    );
    assert_eq!(dialog.title, "Updates installed · 1 source");
    assert_eq!(dialog.summary, "Reboot to apply system changes.");
    assert_eq!(dialog.close_label, "Close");
    assert!(dialog.done && dialog.full);
    assert_eq!(
        dialog.sources[0].state,
        SourceState::Found("Update installed".to_string())
    );
    assert_eq!(dialog.sources[3].state, SourceState::UpToDate);
    assert_eq!(dialog.update_progress(), (8, 8));
}

#[test]
fn button_closes_what_is_done() {
    let mut dialog = show_update_check_dialog();
    assert!(dialog
        .update(CheckEvent::Error("it broke".to_string()))
        .is_none());
    assert!(dialog.done);
    assert_eq!(dialog.title, "Check failed");
    assert_eq!(dialog.close_label, "Cancel");
    dialog.update(CheckEvent::Done);
    assert_eq!(dialog.close_label, "Close");
}

#[test]
fn buttons_have_outcomes() {
    assert_eq!(CheckClick::InstallAll.label(), Some("Install all"));
    assert_eq!(CheckClick::InstallAll.outcome(), CheckOutcome::Install);
    assert_eq!(CheckClick::Close.label(), None);
    assert_eq!(CheckClick::Close.outcome(), CheckOutcome::Closed);
}

#[test]
fn two_sources_are_counted() {
    let mut dialog = show_update_check_dialog();
    dialog.update(CheckEvent::ModuleFound("flatpak".to_string(), "3 apps".to_string()));
    dialog.update(CheckEvent::ModuleFound("brew".to_string(), "1".to_string()));
    let result = dialog.update(CheckEvent::Done).unwrap();
    assert!(!result.system_update);
    assert_eq!(result.sources_with_updates, 2);
    assert_eq!(dialog.title, "Updates installed · 2 sources");
}

#[test]
fn run_with_nothing_to_update() {
    let mut dialog = show_update_check_dialog();
    let mut run = CheckRun::new();
    let (events, last) = run.follow(UpdateEvent::UpToDate);
    assert_eq!(events, vec![CheckEvent::Done]);
    assert!(last);
    let result = dialog.update(CheckEvent::Done).unwrap();
    assert_eq!(result.sources_with_updates, 0);
    assert_eq!(dialog.title, "Everything is up to date");
    assert_eq!(dialog.summary, "You're running the latest images and apps.");
}

#[test]
fn failed_module_is_told_and_does_not_end_the_run() {
    let mut dialog = show_update_check_dialog();
    let mut run = CheckRun::new();
    follow(&mut dialog, &mut run, UpdateEvent::ModuleStarted(Module::Brew));
    let (events, last) = run.follow(UpdateEvent::ModuleFinished(
        Module::Brew,
        ModuleStatus::Failed(3),
    ));
    assert_eq!(
        events,
        vec![CheckEvent::Error("brew module failed (exit 3)".to_string())]
    );
    assert!(!last);
    for e in events {
        dialog.update(e);
    }
    assert_eq!(dialog.title, "Check failed");
    assert_eq!(dialog.summary, "brew module failed (exit 3)");
    assert_eq!(dialog.sources[2].state, SourceState::UpToDate);
    assert_eq!(dialog.sources[0].state, SourceState::Waiting);
    assert!(dialog.done && !dialog.full);
    let (events, last) = run.follow(UpdateEvent::Error("gone".to_string()));
    assert_eq!(events, vec![CheckEvent::Error("gone".to_string())]);
    assert!(last);
}

#[test]
fn module_that_starts_again_is_not_completed_first() {
    let mut run = CheckRun::new();
    run.follow(line("module_name=Brew"));
    let (events, _) = run.follow(line("module_name=Brew again"));
    assert_eq!(
        events,
        vec![
            CheckEvent::ModuleStart("brew".to_string()),
            CheckEvent::LogLine {
                module: "brew".to_string(),
                line: "module_name=Brew again".to_string()
            }
        ]
    );
}

#[test]
fn escapes_are_dropped_and_plain_text_is_kept() {
    assert_eq!(strip_ansi_escapes("plain [text]"), "plain [text]");
    assert_eq!(strip_ansi_escapes("\u{1b}[1;31mred\u{1b}[0m!"), "red!");
    assert_eq!(strip_ansi_escapes("a\u{1b}b"), "a\u{1b}b");
    assert_eq!(strip_ansi_escapes("cut\u{1b}[1;3"), "cut");
    assert_eq!(strip_ansi_escapes(""), "");
}
