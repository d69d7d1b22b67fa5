use finupdate::ui::update_list::{
    detect_module_start, modules, status_page, status_subtitle, ModuleStatus, UpdateList,
    UpdateListInput,
};

// ── detect_module_start ─────────────────────────────────────────────
// Parses uupd's structured log lines to figure out which module just
// started — drives the per-module status indicators in the update list.
// If uupd renames a module these tests fail loudly.

#[test]
fn detect_module_start_recognises_system() {
    let idx = detect_module_start("time=2026-05-30 module_name=System message=starting")
        .expect("System matched");
    assert_eq!(modules()[idx].0, "system");
}

#[test]
fn detect_module_start_recognises_flatpak() {
    let idx = detect_module_start("module_name=Flatpak module_state=running").expect("matched");
    assert_eq!(modules()[idx].0, "flatpak");
}

#[test]
fn detect_module_start_recognises_brew() {
    let idx = detect_module_start("module_name=Brew").expect("matched");
    assert_eq!(modules()[idx].0, "brew");
}

#[test]
fn detect_module_start_recognises_distrobox() {
    let idx = detect_module_start("module_name=Distrobox").expect("matched");
    assert_eq!(modules()[idx].0, "distrobox");
}

#[test]
fn detect_module_start_ignores_non_module_lines() {
    assert!(detect_module_start("time=2026-05-30 level=INFO message=ready").is_none());
}

#[test]
fn detect_module_start_rejects_lowercase_module_name() {
    // uupd emits the display-name capitalised; if it ever switches to
    // lowercase the matcher needs to be updated — this test pins the
    // current contract.
    assert!(detect_module_start("module_name=system").is_none());
}

#[test]
fn detect_module_start_rejects_unknown_module() {
    assert!(detect_module_start("module_name=Mystery").is_none());
}

fn statuses(list: &UpdateList) -> Vec<ModuleStatus> {
    list.modules.iter().map(|m| m.status).collect()
}

fn process(list: &mut UpdateList, line: &str) {
    list.update(UpdateListInput::ProcessLine(line.to_string()));
}

#[test]
fn at_most_one_module_runs() {
    let mut list = UpdateList::init();
    assert_eq!(statuses(&list), vec![ModuleStatus::Pending; 4]);
    process(&mut list, "before");
    assert_eq!(list.current_module, None);
    process(&mut list, "module_name=System");
    process(&mut list, "more");
    assert_eq!(list.modules[0].log_text, "module_name=System\nmore");
    assert_eq!(list.modules[0].log_label, "module_name=System\nmore");
    process(&mut list, "module_name=Flatpak");
    assert_eq!(
        statuses(&list),
        vec![
            ModuleStatus::Complete,
            ModuleStatus::Running,
            ModuleStatus::Pending,
            ModuleStatus::Pending
        ]
    );
    assert_eq!(list.modules[1].log_text, "module_name=Flatpak");
}

#[test]
fn errors_of_the_log_fail_the_module() {
    let mut list = UpdateList::init();
    process(&mut list, "module_name=Brew level=ERROR");
    assert_eq!(list.modules[2].status, ModuleStatus::Failed);
    list.update(UpdateListInput::MarkCurrentFailed);
    list.update(UpdateListInput::MarkAllComplete);
    assert_eq!(
        statuses(&list),
        vec![
            ModuleStatus::Complete,
            ModuleStatus::Complete,
            ModuleStatus::Failed,
            ModuleStatus::Complete
        ]
    );
    assert_eq!(list.current_module, None);
}

#[test]
fn run_that_fails_fails_the_running_module() {
    let mut list = UpdateList::init();
    list.update(UpdateListInput::SetNerdMode(true));
    assert!(list.nerd_mode);
    process(&mut list, "module_name=Distrobox");
    list.update(UpdateListInput::MarkCurrentFailed);
    assert_eq!(list.modules[3].status, ModuleStatus::Failed);
    list.update(UpdateListInput::Reset);
    assert_eq!(statuses(&list), vec![ModuleStatus::Pending; 4]);
    assert_eq!(list.modules[3].log_label, "No output yet.");
    assert!(!list.nerd_mode);
}

#[test]
fn rows_say_their_status() {
    assert_eq!(status_page(ModuleStatus::Running), "running");
    assert_eq!(status_page(ModuleStatus::Failed), "failed");
    assert_eq!(
        status_subtitle("Applications", ModuleStatus::Pending),
        "Applications"
    );
}
