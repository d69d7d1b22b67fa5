use finupdate::app::{AppState, PreflightStatus};
use finupdate::calendar::{CalendarDate, Moment};
use finupdate::orchestrator::{Module, ModuleStatus};
use finupdate::registry_client::{AvailableTag, ImageVersion};
use finupdate::sbom_diff::{PackageDiff, SbomDiffResult};
use finupdate::service::{ImageRef, ServiceError};
use finupdate::settings::Settings;
use finupdate::ui::deployments::MockDeployment;
use finupdate::ui::image_info::OsRelease;
use finupdate::ui::image_source::{tags_fetched, versions_fetched, Start};
use finupdate::ui::segmented_progress::SegStatus;
use finupdate::ui::status_pages::{
    history_can_be_shown, images_count, rebuild_history_list, removals_title, upgrades_title,
    RowAction, VersionMark,
};
use finupdate::ui::status_view::{
    Readings, StatusEffect, StatusView, StatusViewInput, StatusViewOutput,
};
use finupdate::ui::update_list::UpdateListInput;

fn os() -> OsRelease {
    OsRelease {
        host: None,
        own: Some("PRETTY_NAME=\"Bluefin Dakota\"\n".to_string()),
    }
}

fn start() -> Start {
    Start {
        image: ImageRef::parse("ghcr.io/projectbluefin/dakota:latest-20260527"),
        os: os(),
        last_update: None,
        auto_updates: true,
        configured_tags: None,
        deployments: vec![],
    }
}

fn view() -> StatusView {
    StatusView::init(AppState::Idle, start()).0
}

fn readings() -> Readings {
    Readings {
        display: true,
        elapsed_seconds: 125,
        deployments: vec![],
        last_update: Some("Last update: 2 hours ago".to_string()),
        image_info: None,
    }
}

fn deployment(id: &str, state: &str, tag: &str) -> MockDeployment {
    MockDeployment {
        id: id.to_string(),
        state: state.to_string(),
        title: "dakota".to_string(),
        image: "ghcr.io/projectbluefin/dakota".to_string(),
        tag: tag.to_string(),
        digest: "sha256:0123456789".to_string(),
        deployed: "Currently booted".to_string(),
        deployed_full: "Built: 2026-05-27".to_string(),
        size: "—".to_string(),
        kernel: "6.17".to_string(),
        package_count: 0,
        signer: "projectbluefin (sigstore)".to_string(),
        pinned: false,
    }
}

fn build(day: u32, version: &str) -> ImageVersion {
    let date = CalendarDate::from_ymd_opt(2026, 5, day).unwrap();
    ImageVersion {
        date,
        full_ref: format!("ghcr.io/projectbluefin/dakota:{version}"),
        version: version.to_string(),
        kernel: "6.17".to_string(),
        revision: "abcdef0123".to_string(),
        created: Moment::at(&date, 4, 5).unwrap(),
    }
}

fn send(v: &mut StatusView, msg: StatusViewInput) -> Vec<StatusEffect> {
    v.update(msg, readings())
}

#[test]
fn view_starts_on_the_booted_image() {
    let (v, effects) = StatusView::init(AppState::Idle, start());
    assert_eq!(v.registry_uri, "ghcr.io/projectbluefin/dakota");
    assert_eq!(v.selected_tag, "latest");
    assert_eq!(v.image_info.as_deref(), Some("Bluefin Dakota"));
    assert_eq!(v.preflight_status, PreflightStatus::Checking);
    assert_eq!(v.tag_raws, vec!["latest"]);
    assert!(effects.contains(&StatusEffect::FetchChangelog(
        "ghcr.io/projectbluefin/dakota".to_string(),
        "latest".to_string()
    )));
    let mut other = start();
    other.image = ImageRef::parse("ghcr.io/ublue-os/bluefin:stable-daily-43.20260527");
    let (v, effects) = StatusView::init(AppState::Idle, other);
    assert_eq!(v.tag_raws, vec!["latest", "stable-daily-43"]);
    assert!(effects.contains(&StatusEffect::SetTags(
        vec!["latest".to_string(), "stable-daily-43".to_string()],
        1,
        true
    )));
}

#[test]
fn update_stages_an_image() {
    let mut v = view();
    let effects = send(&mut v, StatusViewInput::StateChanged(AppState::Updating));
    assert!(v.updating);
    assert_eq!(
        effects,
        vec![
            StatusEffect::ShowStack("updating".to_string()),
            StatusEffect::SetElapsed("0:00".to_string()),
            StatusEffect::UpdateList(UpdateListInput::Reset),
        ]
    );
    assert_eq!(
        send(&mut v, StatusViewInput::TimerTick),
        vec![StatusEffect::SetElapsed("2:05".to_string())]
    );
    send(&mut v, StatusViewInput::ModuleStarted(Module::System));
    assert_eq!(v.seg_progress.system, SegStatus::Downloading);
    send(&mut v, StatusViewInput::ModuleStarted(Module::Brew));
    assert_eq!(v.seg_progress.system, SegStatus::Complete);
    send(&mut v, StatusViewInput::ModuleStarted(Module::Distrobox));
    assert_eq!(v.seg_progress.tools, SegStatus::Active);
    send(&mut v, StatusViewInput::StateChanged(AppState::Complete));
    assert!(v.reboot_pending);
    assert_eq!(v.preflight_status, PreflightStatus::UpToDate);
    assert!(send(&mut v, StatusViewInput::TimerTick).is_empty());
    assert_eq!(
        send(&mut v, StatusViewInput::HeroActionClicked),
        vec![StatusEffect::Output(StatusViewOutput::Reboot)]
    );
    let panel = v.refresh_idle_description(None, &os(), &None);
    assert_eq!(panel.subtitle, "Reboot to update");
    assert!(panel.restart_buttons && !panel.pill_visible);
    assert_eq!(panel.banner.unwrap().title, "Reboot to finish updating");
    send(&mut v, StatusViewInput::DismissBanner);
    assert!(!v.reboot_pending);
    assert_eq!(
        send(&mut v, StatusViewInput::HeroActionClicked),
        vec![StatusEffect::Output(StatusViewOutput::StartUpdate)]
    );
}

#[test]
fn failure_is_shown_with_its_module() {
    let mut v = view();
    send(&mut v, StatusViewInput::StateChanged(AppState::Updating));
    send(&mut v, StatusViewInput::ModuleStarted(Module::Flatpak));
    let effects = send(
        &mut v,
        StatusViewInput::StateChanged(AppState::Error("offline".to_string())),
    );
    assert_eq!(v.seg_progress.applications, SegStatus::Failed);
    assert_eq!(v.active_module, None);
    assert!(effects.contains(&StatusEffect::SetErrorDescription("offline".to_string())));
    assert!(effects.contains(&StatusEffect::UpdateList(UpdateListInput::MarkCurrentFailed)));
    // The failure stays although the module reports again.
    send(
        &mut v,
        StatusViewInput::ModuleFinished(Module::Flatpak, ModuleStatus::Success),
    );
    assert_eq!(v.seg_progress.applications, SegStatus::Failed);
    send(
        &mut v,
        StatusViewInput::ModuleFinished(Module::System, ModuleStatus::Failed(1)),
    );
    assert_eq!(v.seg_progress.system, SegStatus::Failed);
}

#[test]
fn log_is_kept_and_copied() {
    let mut v = view();
    send(&mut v, StatusViewInput::AppendLog("one".to_string()));
    send(&mut v, StatusViewInput::AppendLog("two".to_string()));
    assert_eq!(v.log_text, "one\ntwo");
    let effects = send(&mut v, StatusViewInput::CopyLog);
    assert_eq!(effects[0], StatusEffect::CopyText("one\ntwo".to_string()));
    let headless = Readings {
        display: false,
        ..readings()
    };
    assert!(v.update(StatusViewInput::CopyLog, headless).is_empty());
    assert_eq!(
        send(&mut v, StatusViewInput::ClearLog),
        vec![StatusEffect::LogClear]
    );
    assert_eq!(v.log_text, "");
}

#[test]
fn idle_state_reads_the_system_anew() {
    let mut v = view();
    send(&mut v, StatusViewInput::StateChanged(AppState::UpToDate));
    assert_eq!(v.preflight_status, PreflightStatus::UpToDate);
    send(&mut v, StatusViewInput::StateChanged(AppState::Idle));
    assert_eq!(
        v.last_update_text.as_deref(),
        Some("Last update: 2 hours ago")
    );
    let panel = v.refresh_idle_description(None, &os(), &None);
    assert_eq!(panel.title, "Bluefin Dakota");
    assert_eq!(panel.subtitle, "Last update: 2 hours ago");
    assert_eq!(panel.pill_text, "Up to date");
    assert!(panel.banner.is_none());
    let panel = v.refresh_idle_description(None, &os(), &Some("43  ·  shaabc".to_string()));
    assert_eq!(panel.subtitle, "43  ·  shaabc");
}

#[test]
fn available_update_is_offered() {
    let mut v = view();
    send(
        &mut v,
        StatusViewInput::PreflightResult(PreflightStatus::UpdateAvailable),
    );
    let panel = v.refresh_idle_description(None, &os(), &None);
    assert!(!panel.pill_visible && !panel.restart_buttons);
    let banner = panel.banner.unwrap();
    assert!(banner.install && banner.whats_new && !banner.discard);
    send(
        &mut v,
        StatusViewInput::PreflightResult(PreflightStatus::Unknown),
    );
    assert_eq!(
        v.refresh_idle_description(None, &os(), &None).pill_text,
        "Ready"
    );
}

#[test]
fn pages_are_shown_under_their_names() {
    let mut v = view();
    assert_eq!(
        send(&mut v, StatusViewInput::ShowPage("main".to_string())),
        vec![
            StatusEffect::ShowStack("idle".to_string()),
            StatusEffect::Output(StatusViewOutput::PageChanged("main".to_string())),
        ]
    );
    assert_eq!(
        send(&mut v, StatusViewInput::ShowPage("source".to_string()))[0],
        StatusEffect::ShowStack("source".to_string())
    );
}

#[test]
fn restart_at_night_is_planned() {
    let mut v = view();
    assert_eq!(
        send(&mut v, StatusViewInput::ScheduleRebootTonight),
        vec![StatusEffect::ScheduleReboot]
    );
}

#[test]
fn switch_follows_the_preferences() {
    let mut v = view();
    let mut settings = Settings::for_profile("default");
    assert!(send(&mut v, StatusViewInput::SettingsChanged(settings.clone())).is_empty());
    settings.auto_updates = false;
    assert_eq!(
        send(&mut v, StatusViewInput::SettingsChanged(settings)),
        vec![StatusEffect::SetAutoSwitch(false)]
    );
    assert!(!v.auto_updates);
}

#[test]
fn showing_tags_fetches_nothing() {
    let mut v = view();
    let tags = vec![
        AvailableTag {
            display: "Stable".to_string(),
            raw: "stable".to_string(),
        },
        AvailableTag {
            display: "Latest".to_string(),
            raw: "latest".to_string(),
        },
    ];
    let effects = send(&mut v, StatusViewInput::AvailableTagsLoaded(tags));
    assert_eq!(
        effects,
        vec![StatusEffect::SetTags(
            vec!["Stable".to_string(), "Latest".to_string()],
            1,
            true
        )]
    );
    // The combo box answers with the tag that is selected already.
    assert!(send(&mut v, StatusViewInput::SelectTag("latest".to_string())).is_empty());
    let effects = send(&mut v, StatusViewInput::SelectTag("20260527".to_string()));
    assert_eq!(
        effects[0],
        StatusEffect::SetTagSubtitle("Pinned to this version".to_string())
    );
    assert_eq!(
        effects[1],
        StatusEffect::SetRegistrySub("dakota:20260527".to_string())
    );
    assert_eq!(
        effects[3],
        StatusEffect::FetchChangelog(
            "ghcr.io/projectbluefin/dakota".to_string(),
            "20260527".to_string()
        )
    );
}

#[test]
fn address_of_blanks_changes_nothing() {
    let mut v = view();
    assert!(send(&mut v, StatusViewInput::SaveRegistryUri("  ".to_string())).is_empty());
    let effects = send(
        &mut v,
        StatusViewInput::SaveRegistryUri("ghcr.io/ublue-os/bluefin".to_string()),
    );
    assert_eq!(v.registry_uri, "ghcr.io/ublue-os/bluefin");
    assert_eq!(
        effects[1],
        StatusEffect::SetRegistrySub("bluefin:latest".to_string())
    );
}

#[test]
fn rows_fold_and_pins_come_off() {
    let mut v = view();
    v.deployments = vec![deployment("d-current", "current", "latest")];
    send(
        &mut v,
        StatusViewInput::TogglePin("expand:d-current".to_string()),
    );
    assert_eq!(v.expanded_deployment_id.as_deref(), Some("d-current"));
    send(
        &mut v,
        StatusViewInput::TogglePin("expand:d-current".to_string()),
    );
    assert_eq!(v.expanded_deployment_id, None);
    let effects = send(&mut v, StatusViewInput::TogglePin("d-current".to_string()));
    assert!(v.deployments[0].pinned);
    assert!(matches!(
        &effects[0],
        StatusEffect::Say(t) if t.text == "Pinned latest (preventing pruning)"
    ));
    send(&mut v, StatusViewInput::TogglePin("d-current".to_string()));
    assert!(!v.deployments[0].pinned);
    assert_eq!(
        send(&mut v, StatusViewInput::TogglePin("nobody".to_string())),
        vec![StatusEffect::RebuildHistory]
    );
    assert_eq!(
        send(&mut v, StatusViewInput::TogglePin("powerwash".to_string())),
        vec![StatusEffect::AskPowerwash]
    );
    assert_eq!(
        send(&mut v, StatusViewInput::TogglePin("factory".to_string())),
        vec![StatusEffect::AskFactoryReset]
    );
}

#[test]
fn roll_back_is_confirmed_once() {
    let mut v = view();
    assert!(send(&mut v, StatusViewInput::ConfirmRollback).is_empty());
    let effects = send(
        &mut v,
        StatusViewInput::RollbackTo(deployment("d", "previous", "20260527")),
    );
    assert!(matches!(
        &effects[..],
        [StatusEffect::AskRollback(h, b)] if h == "Roll back to 20260527?"
            && b.starts_with("The next boot will use ghcr.io/projectbluefin/dakota:20260527.\n")
    ));
    assert_eq!(send(&mut v, StatusViewInput::ConfirmRollback).len(), 1);
    assert!(send(&mut v, StatusViewInput::ConfirmRollback).is_empty());
    let effects = send(
        &mut v,
        StatusViewInput::SetDefaultBoot(deployment("d", "previous", "x")),
    );
    assert!(matches!(
        &effects[..],
        [StatusEffect::Say(t)] if t.text == "Set x as default boot"
    ));
}

#[test]
fn builds_of_the_registry_fill_the_history() {
    let mut v = view();
    v.deployments = vec![deployment("d-current", "current", "v28")];
    send(
        &mut v,
        StatusViewInput::RegistryVersionsLoaded(vec![
            build(30, "v30"),
            build(28, "v28"),
            build(29, "v29"),
        ]),
    );
    let order: Vec<&str> = v
        .registry_versions
        .iter()
        .map(|b| b.version.as_str())
        .collect();
    assert_eq!(order, vec!["v28", "v29", "v30"]);
    assert_eq!(v.changelog_version, "v30");
    let rows: Vec<&str> = v.deployments.iter().map(|d| d.tag.as_str()).collect();
    assert_eq!(rows, vec!["v28", "v30", "v29"]);
    assert_eq!(v.deployments[1].id, "remote-v30");
    assert_eq!(v.deployments[1].deployed, "Available · May 30, 2026");
    assert_eq!(
        v.deployments[1].deployed_full,
        "Built: May 30, 2026 · 04:05 UTC"
    );
    // What is known already is not added again, and the history has a cap.
    send(
        &mut v,
        StatusViewInput::RegistryVersionsLoaded(vec![build(30, "v30")]),
    );
    assert_eq!(v.registry_versions.len(), 3);
    // Nor is one that comes twice.
    let mut once = view();
    send(
        &mut once,
        StatusViewInput::RegistryVersionsLoaded(vec![
            build(30, "v30"),
            build(29, "v30"),
            build(28, "v28"),
        ]),
    );
    let order: Vec<&str> = once
        .registry_versions
        .iter()
        .map(|b| b.version.as_str())
        .collect();
    assert_eq!(order, vec!["v28", "v30"]);
    assert_eq!(once.changelog_version, "v30");
    send(
        &mut v,
        StatusViewInput::RegistryVersionsLoaded(
            (1..12).map(|d| build(d, &format!("w{d}"))).collect(),
        ),
    );
    assert_eq!(v.deployments.len(), 8);
}

#[test]
fn changelog_is_rebuilt_only_for_another_version() {
    let mut v = view();
    let effects = send(
        &mut v,
        StatusViewInput::SelectChangelogVersion(String::new()),
    );
    assert_eq!(
        effects,
        vec![
            StatusEffect::ShowStack("changelog".to_string()),
            StatusEffect::Output(StatusViewOutput::PageChanged("changelog".to_string())),
        ]
    );
    let effects = send(
        &mut v,
        StatusViewInput::SelectChangelogVersion("v30".to_string()),
    );
    assert_eq!(effects[0], StatusEffect::RebuildChangelog);
    assert_eq!(v.changelog_version, "v30");
}

#[test]
fn changelog_page_tells_of_the_build() {
    let mut v = view();
    assert!(v.rebuild_changelog_page("latest").loading);
    send(
        &mut v,
        StatusViewInput::RegistryVersionsLoaded(
            (25..31).map(|d| build(d, &format!("v{d}"))).collect(),
        ),
    );
    send(
        &mut v,
        StatusViewInput::GithubCommitsLoaded(vec![(
            "0123456789abcdef".to_string(),
            "Fix it".to_string(),
            "Someone".to_string(),
        )]),
    );
    send(
        &mut v,
        StatusViewInput::SbomDiffLoaded(SbomDiffResult {
            upgraded: vec![],
            removed: vec!["nano".to_string()],
            added: vec![PackageDiff {
                name: "micro".to_string(),
                old_version: String::new(),
                new_version: "2.0".to_string(),
            }],
        }),
    );
    send(
        &mut v,
        StatusViewInput::PreflightResult(PreflightStatus::UpdateAvailable),
    );
    assert!(v.changelog_can_be_shown("latest"));
    let page = v.rebuild_changelog_page("latest");
    assert!(!page.loading);
    let labels: Vec<&str> = page.pills.iter().map(|p| p.label.as_str()).collect();
    assert_eq!(labels, vec!["05-30", "05-29", "05-28", "05-27"]);
    assert!(page.pills[0].selected);
    assert_eq!(page.reference, "ghcr.io/projectbluefin/dakota:v30");
    assert_eq!(page.mark, VersionMark::Update);
    assert_eq!(page.meta, "v30  ·  May 30, 2026");
    assert_eq!(
        page.summary,
        "Image build. Kernel 6.17 · git commit abcdef0."
    );
    assert_eq!(
        page.upgrades,
        vec![(
            "micro".to_string(),
            "(added)".to_string(),
            "2.0".to_string()
        )]
    );
    assert_eq!(page.removals, vec!["nano"]);
    assert_eq!(page.commits[0].sha, "0123456");
    assert_eq!(
        page.commits[0].url.as_deref(),
        Some("https://github.com/projectbluefin/dakota/commit/0123456789abcdef")
    );
    let booted = v.rebuild_changelog_page("v30");
    assert_eq!(booted.mark, VersionMark::Booted);
    assert_eq!(
        booted.summary,
        "Currently booted. Kernel 6.17 · stable point release."
    );
    assert_eq!(upgrades_title(3), "Updated  ·  3");
    assert_eq!(removals_title(1), "Removed  ·  1");
}

#[test]
fn hash_that_cannot_be_cut_is_found() {
    let mut v = view();
    send(
        &mut v,
        StatusViewInput::GithubCommitsLoaded(vec![(
            "abcdefé".to_string(),
            String::new(),
            String::new(),
        )]),
    );
    assert!(!v.changelog_can_be_shown("latest"));
}

#[test]
fn history_rows_offer_what_fits() {
    let rows = vec![
        deployment("a", "staged", "t1"),
        deployment("b", "current", "t2"),
        deployment("c", "previous", "t3"),
        deployment("d", "remote", "t4"),
    ];
    assert!(history_can_be_shown(&rows));
    let shown = rebuild_history_list(&rows, &Some("c".to_string()));
    let actions: Vec<RowAction> = shown.iter().map(|r| r.action).collect();
    assert_eq!(
        actions,
        vec![
            RowAction::Nothing,
            RowAction::Nothing,
            RowAction::RollBack,
            RowAction::Pull
        ]
    );
    assert_eq!(
        shown[1].badge,
        Some(("Booted".to_string(), "success".to_string()))
    );
    assert_eq!(shown[2].badge, None);
    assert!(shown[2].expanded && !shown[1].expanded);
    assert_eq!(shown[2].chevron, "go-up-symbolic");
    assert_eq!(
        shown[0].submeta,
        "ghcr.io/projectbluefin/dakota:t1  ·  sha256:01234…  ·  Currently booted"
    );
    assert!(!shown[3].can_pin && !shown[3].can_set_default);
    assert!(shown[2].can_set_default && !shown[1].can_set_default);
    assert_eq!(
        shown[0].fields[5],
        ("Packages".to_string(), "0 installed".to_string())
    );
    assert_eq!(images_count(4), "4 images");
    let mut bad = rows;
    bad[0].digest = "01234567890é".to_string();
    assert!(!history_can_be_shown(&bad));
}

#[test]
fn replies_of_the_registry_become_messages() {
    assert!(tags_fetched(Ok(vec![])).is_none());
    assert!(tags_fetched(Err(ServiceError::Io("x".to_string()))).is_none());
    assert!(matches!(
        tags_fetched(Ok(vec![AvailableTag {
            display: "a".to_string(),
            raw: "a".to_string()
        }])),
        Some(StatusViewInput::AvailableTagsLoaded(t)) if t.len() == 1
    ));
    assert!(versions_fetched(Err(ServiceError::Io("x".to_string()))).is_none());
    assert!(matches!(
        versions_fetched(Ok(vec![])),
        Some(StatusViewInput::RegistryVersionsLoaded(v)) if v.is_empty()
    ));
}
