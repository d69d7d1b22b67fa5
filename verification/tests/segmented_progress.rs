use finupdate::ui::segmented_progress::{module_to_seg, same_segment, SegStatus, SegmentedProgress};

// ── module_to_seg ───────────────────────────────────────────────────
// Maps a uupd module key onto one of the three visible segments of the
// progress bar. brew + distrobox share segment 2 ("Developer Tools").

#[test]
fn system_maps_to_first_segment() {
    assert_eq!(module_to_seg("system"), Some(0));
}

#[test]
fn flatpak_maps_to_second_segment() {
    assert_eq!(module_to_seg("flatpak"), Some(1));
}

#[test]
fn brew_maps_to_third_segment() {
    assert_eq!(module_to_seg("brew"), Some(2));
}

#[test]
fn distrobox_shares_third_segment_with_brew() {
    // brew and distrobox both render under the "Developer Tools" pill.
    assert_eq!(module_to_seg("distrobox"), Some(2));
    assert_eq!(module_to_seg("distrobox"), module_to_seg("brew"));
}

#[test]
fn unknown_module_returns_none() {
    assert!(module_to_seg("mystery").is_none());
    assert!(module_to_seg("").is_none());
}

// ── same_segment ────────────────────────────────────────────────────
// Callers use this to skip the "complete previous module" transition
// when the previous and incoming module share a segment (e.g. brew →
// distrobox shouldn't visually "complete" before going to "running"
// again).

#[test]
fn same_segment_brew_and_distrobox() {
    assert!(same_segment("brew", "distrobox"));
    assert!(same_segment("distrobox", "brew"));
}

#[test]
fn same_segment_self() {
    assert!(same_segment("system", "system"));
}

#[test]
fn same_segment_distinct_modules() {
    assert!(!same_segment("system", "flatpak"));
    assert!(!same_segment("flatpak", "brew"));
}

#[test]
fn same_segment_unknown_vs_known() {
    // An unknown module should never share a segment with a known one.
    assert!(!same_segment("mystery", "system"));
    assert!(!same_segment("flatpak", "mystery"));
}

#[test]
fn same_segment_two_unknowns_reports_same() {
    // Both unknowns map to None, so `Option::eq` returns true. The
    // caller (UpdateList state machine) never actually feeds unknown
    // modules into this — `detect_module_start` is the only producer
    // and it returns Some for the 4 known modules or None. Pin the
    // behaviour anyway so a future refactor doesn't quietly change it.
    assert!(same_segment("mystery", "another-mystery"));
}

#[test]
fn bar_follows_the_modules() {
    let mut bar = SegmentedProgress::new();
    assert_eq!(bar.system, SegStatus::Pending);
    assert!(!bar.ensure_animating());
    bar.set_module_active("system");
    assert_eq!(bar.system, SegStatus::Downloading);
    assert!(bar.ensure_animating());
    bar.set_module_complete("system");
    bar.set_module_active("flatpak");
    assert_eq!(bar.system, SegStatus::Complete);
    assert_eq!(bar.applications, SegStatus::Active);
    bar.set_module_active("mystery");
    assert_eq!(bar.tools, SegStatus::Pending);
    bar.mark_all_complete();
    assert_eq!(bar.tools, SegStatus::Complete);
    bar.reset();
    assert_eq!(bar, SegmentedProgress::new());
}

#[test]
fn failed_segment_stays_failed() {
    let mut bar = SegmentedProgress::new();
    bar.set_module_failed("brew");
    bar.set_module_active("distrobox");
    bar.set_module_complete("distrobox");
    bar.mark_all_complete();
    assert_eq!(bar.tools, SegStatus::Failed);
    assert_eq!(bar.system, SegStatus::Complete);
}
