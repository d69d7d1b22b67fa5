use finupdate::action_journal::Journal;
use finupdate::calendar::{days_in_month, next_month, previous_month, CalendarDate, Moment};
use finupdate::registry_client::{Family, ImageVersion, Variant};
use finupdate::service::{family_of, ImageRef, ServiceError};
use finupdate::ui::host_actions::Flags;
use finupdate::ui::rebase_dialog::{
    can_load_older, elapsed_label, fetch_result, rebasing_page, run_bootc_switch, run_rebase,
    run_rebase_simulated, start_version_fetch, switch_command, BootcProgress, FetchPage,
    FetchResult, RebaseProgress, SwitchEnd,
};
use finupdate::ui::rebase_page::build_loaded_page;

fn day(y: i32, m: u32, d: u32) -> CalendarDate {
    CalendarDate::from_ymd_opt(y, m, d).unwrap()
}

fn build(d: u32, version: &str) -> ImageVersion {
    let date = day(2026, 5, d);
    ImageVersion {
        date,
        full_ref: format!("ghcr.io/ublue-os/bluefin:{version}"),
        version: version.to_string(),
        kernel: "6.17".to_string(),
        revision: String::new(),
        created: Moment::at(&date, 16, 5).unwrap(),
    }
}

fn families() -> Vec<Family> {
    vec![Family {
        name: "Bluefin Stable".to_string(),
        org: "ublue-os".to_string(),
        base_image: "bluefin".to_string(),
        features: vec!["dx".to_string()],
        variants: vec![
            Variant {
                image: "bluefin".to_string(),
                features: vec![],
            },
            Variant {
                image: "bluefin-dx".to_string(),
                features: vec!["dx".to_string()],
            },
        ],
        streams: vec!["stable".to_string()],
    }]
}

#[test]
fn recent_builds_come_first() {
    let today = day(2026, 5, 31);
    let page = build_loaded_page(
        (20..31).rev().map(|d| build(d, &format!("v{d}"))).collect(),
        &today,
    );
    let recent = page.recent();
    assert_eq!(recent.len(), 4);
    assert_eq!(recent[0].title, "May 30, 2026");
    assert_eq!(recent[0].subtitle, "v30");
    assert!(page.details().is_none());
}

#[test]
fn calendar_shows_every_day_and_selects_only_builds() {
    let today = day(2026, 5, 29);
    let mut page = build_loaded_page(
        vec![build(30, "v30"), build(28, "v28"), build(27, "v27")],
        &today,
    );
    let grid = page.redraw_grid(&today);
    assert_eq!(grid.month, "May 2026");
    assert!(!grid.can_go_on);
    assert_eq!(grid.cells.len(), 42);
    // The first of May 2026 is a Friday.
    assert!(!grid.cells[3].visible);
    assert_eq!(grid.cells[4].label, "1");
    assert_eq!(grid.cells[34].label, "31");
    assert!(!grid.cells[35].visible);
    assert!(grid.cells[31].sensitive && grid.cells[31].available);
    assert!(grid.cells[32].today && !grid.cells[32].sensitive);
    assert!(grid.cells[33].available && !grid.cells[33].sensitive);
    assert!(grid.cells[30].current && !grid.cells[33].current);

    page.click_day(&today, 32);
    assert!(page.details().is_none());
    page.click_day(&today, 31);
    let details = page.details().unwrap();
    assert_eq!(details.version, "v28");
    assert_eq!(details.built, "May 28, 2026 · 16:05 UTC");
    assert_eq!(details.commit, "—");
    assert_eq!(details.button, "Rebase to May 28…");
    assert!(details.can_rebase);
    assert!(page.redraw_grid(&today).cells[31].selected);
    page.select_recent(0);
    let details = page.details().unwrap();
    assert_eq!(details.button, "Rebase to May 30…");
    page.select_recent(2);
    let details = page.details().unwrap();
    assert_eq!(details.button, "Currently Installed");
    assert!(!details.can_rebase);

    page.go_back();
    assert_eq!(page.redraw_grid(&today).month, "April 2026");
    assert!(page.redraw_grid(&today).can_go_on);
    page.go_on();
    assert_eq!(page.redraw_grid(&today).month, "May 2026");
}

#[test]
fn question_names_the_target() {
    let today = day(2026, 5, 30);
    let booted = ImageRef::parse("ghcr.io/ublue-os/bluefin:stable").unwrap();
    let family = family_of(&families(), Some(&booted));
    let mut page = build_loaded_page(vec![build(30, "v30")], &today);
    assert!(page.ask(&families(), family.as_ref(), &vec![]).is_none());
    page.select_recent(0);
    let q = page.ask(&families(), family.as_ref(), &vec![]).unwrap();
    assert_eq!(q.target, "ghcr.io/ublue-os/bluefin:v30");
    assert!(q
        .body
        .starts_with("Your system will be rebased to the May 30, 2026 build (version v30)."));
    let q = page
        .ask(&families(), family.as_ref(), &vec!["dx".to_string()])
        .unwrap();
    assert_eq!(q.target, "ghcr.io/ublue-os/bluefin-dx:v30");
    assert!(q
        .body
        .starts_with("Your system will be rebased to:\n\nghcr.io/ublue-os/bluefin-dx:v30\n\n"));
}

#[test]
fn months_follow_each_other() {
    assert_eq!(previous_month(&day(2026, 1, 1)).year(), 2025);
    assert_eq!(previous_month(&day(2026, 1, 1)).month(), 12);
    assert_eq!(next_month(&day(2025, 12, 1)).year(), 2026);
    assert_eq!(next_month(&day(2026, 1, 1)).month(), 2);
    assert_eq!(days_in_month(&day(2026, 2, 1)), 28);
    assert_eq!(days_in_month(&day(2028, 2, 1)), 29);
    assert_eq!(days_in_month(&day(2026, 12, 1)), 31);
    assert!(CalendarDate::from_ymd_opt(2026, 2, 29).is_none());
    assert_eq!(day(2026, 5, 1).weekday(), 4);
}

#[test]
fn dates_are_written_out() {
    let d = day(2026, 1, 5);
    assert_eq!(d.short(), "Jan 5, 2026");
    assert_eq!(d.long(), "January 5, 2026");
    assert_eq!(d.month_year(), "January 2026");
    assert_eq!(d.month_day(), "Jan 5");
    assert_eq!(d.digits(), "01-05");
    assert_eq!(d.iso(), "2026-01-05");
    let m = Moment::at(&d, 3, 4).unwrap();
    assert_eq!(m.short(), "Jan 5, 2026");
    assert_eq!(m.long(), "January 5, 2026");
    assert_eq!(m.clock(), "03:04 UTC");
    assert_eq!(m.full(), "Jan 5, 2026 · 03:04 UTC");
    assert!(Moment::at(&d, 24, 0).is_none());
    assert!(day(2026, 1, 5).earlier_than(&day(2026, 1, 6)));
    assert!(day(2026, 1, 5).same(&d));
}

#[test]
fn progress_of_a_rebase() {
    let mut p = RebaseProgress::new();
    assert_eq!(p.fraction, None);
    p.apply(BootcProgress::Fraction {
        current: 3,
        total: 12,
    });
    p.apply(BootcProgress::Status("Staging deployment…".to_string()));
    assert_eq!(p.fraction, Some((3, 12)));
    assert_eq!(p.description, "Staging deployment…");
    assert_eq!(elapsed_label(65), "Elapsed: 1:05");
}

#[test]
fn switch_is_recorded() {
    let mut journal = Journal::open(Some("/tmp/journal"), true);
    let real = Flags {
        dev_mode: false,
        dry_run: false,
    };
    let plan = switch_command(&mut journal, "ghcr.io/a/b:c", real, false);
    let command = plan.command.unwrap();
    assert_eq!(command.program, "pkexec");
    assert_eq!(command.args.join(" "), "bootc switch ghcr.io/a/b:c");
    let entry = plan.entry.unwrap();
    assert_eq!(entry.seq, 0);
    assert_eq!(entry.action, "switch_image");
    assert_eq!(
        entry.args,
        vec![("target".to_string(), "ghcr.io/a/b:c".to_string())]
    );
    assert_eq!(
        entry.would_run.join(" "),
        "pkexec bootc switch ghcr.io/a/b:c"
    );
    assert_eq!(entry.suppressed_by, "none");
    let dry = Flags {
        dry_run: true,
        ..real
    };
    let plan = switch_command(&mut journal, "ghcr.io/a/b:c", dry, true);
    assert!(plan.command.is_none() && plan.toasts.is_empty());
    let entry = plan.entry.unwrap();
    assert_eq!(entry.seq, 1);
    assert_eq!(
        entry.would_run.join(" "),
        "flatpak-spawn --host pkexec bootc switch ghcr.io/a/b:c"
    );
    assert_eq!(entry.suppressed_by, "dry_run");
    assert_eq!(rebasing_page(true).0, "Rebasing… (simulated)");
    assert_eq!(rebasing_page(false).0, "Rebasing…");
}

#[test]
fn switch_tells_how_it_ended() {
    let done = run_bootc_switch(SwitchEnd::Exited {
        success: true,
        code: Some(0),
    });
    assert_eq!(done, Ok(()));
    assert_eq!(run_rebase(&done).title, "Rebase Complete");
    let failed = run_bootc_switch(SwitchEnd::Exited {
        success: false,
        code: Some(5),
    });
    assert_eq!(failed, Err("bootc switch exited with code 5".to_string()));
    assert_ne!(run_rebase(&failed).name, "done");
    assert_eq!(
        run_bootc_switch(SwitchEnd::NotStarted("x".to_string())),
        Err("Failed to spawn bootc switch: x".to_string())
    );
    assert_eq!(
        run_bootc_switch(SwitchEnd::NotAwaited("x".to_string())),
        Err("Failed to wait for bootc switch: x".to_string())
    );
    assert_eq!(run_rebase_simulated().title, "Rebase Complete (simulated)");
}

#[test]
fn builds_are_fetched() {
    assert!(matches!(
        fetch_result(None, "default"),
        FetchResult::DetectFailed
    ));
    let versions = || vec![build(30, "stable-43"), build(29, "latest-43")];
    match fetch_result(Some(Ok(versions())), "latest") {
        FetchResult::Versions(v) => {
            assert_eq!(v.len(), 1);
            assert_eq!(v[0].version, "latest-43");
        }
        other => panic!("{other:?}"),
    }
    for all in ["", "default"] {
        assert!(matches!(
            fetch_result(Some(Ok(versions())), all),
            FetchResult::Versions(v) if v.len() == 2
        ));
    }
    let failed = fetch_result(Some(Err(ServiceError::Io("offline".to_string()))), "");
    assert!(matches!(&failed, FetchResult::Failed(m) if m == "io: offline"));
    assert_eq!(start_version_fetch(&None, 20000), FetchPage::Loading);
    assert_eq!(
        start_version_fetch(&None, 20001),
        FetchPage::Error("Check your internet connection and try again.".to_string())
    );
    assert_eq!(
        start_version_fetch(&Some(failed), 0),
        FetchPage::Error("Check your internet connection and try again.".to_string())
    );
    assert!(matches!(
        start_version_fetch(&Some(FetchResult::DetectFailed), 0),
        FetchPage::Error(m) if m.starts_with("Could not detect")
    ));
    assert_eq!(
        start_version_fetch(&Some(FetchResult::Versions(vec![])), 0),
        FetchPage::Loaded
    );
    assert!(can_load_older(12));
    assert!(!can_load_older(120));
}
