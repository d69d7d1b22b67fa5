use finupdate::action_journal::Journal;
use finupdate::app::{
    message_of_action, message_of_check, message_of_event, message_of_output, preflight_result, shortcuts, App,
    AppEffect, AppMsg, AppReadings, AppState, PreflightStatus, Question,
};
use finupdate::orchestrator::{Module, ModuleStatus};
use finupdate::settings::{MockBootcIdentity, RuntimeOverrides, Settings};
use finupdate::ui::host_actions::{restart_host, Flags};
use finupdate::ui::image_info::OsRelease;
use finupdate::ui::image_source::Start;
use finupdate::ui::status_view::{
    Readings, StatusEffect, StatusView, StatusViewInput, StatusViewOutput,
};
use finupdate::ui::update_check_dialog::{CheckClick, CheckOutcome, CheckResult};
use finupdate::update_worker::{run_simulated, SimulationScenario, UpdateEvent};

fn installed() -> Settings {
    Settings::for_profile("default")
}

fn quiet() -> AppReadings {
    AppReadings {
        metered: false,
        kept: installed(),
        overrides: None,
    }
}

fn app() -> App {
    App::init(installed(), false).0
}

fn view() -> StatusView {
    let start = Start {
        image: None,
        os: OsRelease {
            host: None,
            own: None,
        },
        last_update: None,
        auto_updates: true,
        configured_tags: None,
        deployments: vec![],
    };
    StatusView::init(AppState::Idle, start).0
}

fn readings() -> Readings {
    Readings {
        display: true,
        elapsed_seconds: 0,
        deployments: vec![],
        last_update: None,
        image_info: None,
    }
}

/// Sends a message, and what it leads to: to the view and back.
fn send(app: &mut App, view: &mut StatusView, msg: AppMsg) {
    let mut queue = vec![msg];
    while !queue.is_empty() {
        let msg = queue.remove(0);
        for effect in app.update(msg, &quiet()) {
            match effect {
                AppEffect::Send(m) => queue.push(m),
                AppEffect::ToStatus(input) => {
                    for e in view.update(input, readings()) {
                        if let StatusEffect::Output(o) = e {
                            queue.push(message_of_output(o));
                        }
                    }
                }
                _ => {}
            }
        }
    }
}

#[test]
fn test_app_ui_flow() {
    let mut app = app();
    let mut view = view();

    assert_eq!(app.state, AppState::Idle);
    assert_eq!(app.current_page, "main");

    send(&mut app, &mut view, AppMsg::ToggleDevMode(true));
    send(
        &mut app,
        &mut view,
        AppMsg::SetSimScenario(SimulationScenario::Success),
    );

    assert!(app.settings.dev_mode);
    assert_eq!(app.sim_scenario, SimulationScenario::Success);

    send(
        &mut app,
        &mut view,
        AppMsg::PageChanged("preferences".to_string()),
    );
    assert_eq!(app.current_page, "preferences");

    send(&mut app, &mut view, AppMsg::GoBack);
    assert_eq!(app.current_page, "main");
}

#[test]
fn preflight_is_asked_of_the_host() {
    let (app, effects) = App::init(installed(), true);
    assert_eq!(app.preflight_status, PreflightStatus::Checking);
    assert!(effects.iter().any(|e| matches!(
        e,
        AppEffect::Preflight(argv) if argv.join(" ") == "flatpak-spawn --host pkexec bootc upgrade --check"
    )));
}

#[test]
fn pretended_image_has_an_update() {
    let mut settings = installed();
    settings.mock_identity = Some(MockBootcIdentity {
        registry: "ghcr.io".to_string(),
        org: "projectbluefin".to_string(),
        image: "dakota".to_string(),
        tag: "latest".to_string(),
        digest: None,
        booted_at: None,
    });
    let (_, effects) = App::init(settings, false);
    assert!(matches!(
        effects.last(),
        Some(AppEffect::Send(AppMsg::PreflightResult(
            PreflightStatus::UpdateAvailable
        )))
    ));
}

#[test]
fn preflight_codes() {
    assert_eq!(preflight_result(Some(0)), PreflightStatus::UpdateAvailable);
    assert_eq!(preflight_result(Some(77)), PreflightStatus::UpToDate);
    assert_eq!(preflight_result(Some(1)), PreflightStatus::Unknown);
    assert_eq!(preflight_result(None), PreflightStatus::Unknown);
}

#[test]
fn scenario_is_read_in_developer_mode_alone() {
    let mut settings = installed();
    settings.sim_scenario = Some("Failure".to_string());
    assert_eq!(
        App::init(settings.clone(), false).0.sim_scenario,
        SimulationScenario::Success
    );
    settings.dev_mode = true;
    for (name, scenario) in [
        ("Failure", SimulationScenario::Failure),
        ("failure", SimulationScenario::Failure),
        ("AlreadyUpToDate", SimulationScenario::AlreadyUpToDate),
        ("up-to-date", SimulationScenario::AlreadyUpToDate),
        ("uptodate", SimulationScenario::AlreadyUpToDate),
        ("success", SimulationScenario::Success),
        ("?", SimulationScenario::Success),
    ] {
        settings.sim_scenario = Some(name.to_string());
        assert_eq!(App::init(settings.clone(), false).0.sim_scenario, scenario);
    }
}

#[test]
fn update_runs_to_its_end() {
    let mut app = app();
    let effects = app.update(
        AppMsg::StartUpdate {
            skip_metered_check: false,
        },
        &quiet(),
    );
    assert_eq!(app.state, AppState::Updating);
    assert!(app.cancellable);
    assert_eq!(app.progress.state, "updating");
    assert_eq!(app.progress.message, "Starting update…");
    assert!(matches!(effects.last(), Some(AppEffect::StartWorker(None))));
    assert!(effects
        .iter()
        .any(|e| matches!(e, AppEffect::SetWindowTitle(t) if t == "System Update — Updating…")));

    // A second start does nothing while the update runs.
    assert!(app
        .update(
            AppMsg::StartUpdate {
                skip_metered_check: true
            },
            &quiet()
        )
        .is_empty());

    app.update(AppMsg::OutputLine("one".to_string()), &quiet());
    app.update(AppMsg::OutputLine("two".to_string()), &quiet());
    assert_eq!(app.log_lines, vec!["one", "two"]);

    app.update(AppMsg::ModuleStarted(Module::Brew), &quiet());
    assert_eq!(app.progress.percent, 50);
    assert_eq!(app.progress.message, "Updating brew…");

    let effects = app.update(AppMsg::UpdateComplete, &quiet());
    assert_eq!(app.state, AppState::Complete);
    assert!(!app.cancellable);
    assert_eq!(app.progress.state, "complete");
    assert_eq!(app.progress.percent, 100);
    assert!(effects.iter().any(|e| matches!(
        e,
        AppEffect::Say(t, true) if t.text == "System update complete — restart to apply" && t.timeout == 0
    )));
    assert!(effects
        .iter()
        .any(|e| matches!(e, AppEffect::Notify { id, .. } if id == "update-complete")));

    // The log of a new update is empty.
    app.update(
        AppMsg::StartUpdate {
            skip_metered_check: false,
        },
        &quiet(),
    );
    assert!(app.log_lines.is_empty());
}

#[test]
fn metered_connection_asks_first() {
    let mut app = app();
    let metered = AppReadings {
        metered: true,
        ..quiet()
    };
    let effects = app.update(
        AppMsg::StartUpdate {
            skip_metered_check: false,
        },
        &metered,
    );
    assert!(matches!(
        effects[..],
        [AppEffect::Ask(Question::Metered)]
    ));
    assert_eq!(app.state, AppState::Idle);
    assert!(matches!(
        Question::Metered.answer("proceed"),
        Some(AppEffect::Send(AppMsg::StartUpdate {
            skip_metered_check: true
        }))
    ));
    assert!(Question::Metered.answer("cancel").is_none());
    app.update(
        AppMsg::StartUpdate {
            skip_metered_check: true,
        },
        &metered,
    );
    assert_eq!(app.state, AppState::Updating);
}

#[test]
fn withheld_updates_are_simulated() {
    let mut settings = installed();
    settings.dry_run = true;
    let mut app = App::init(settings, false).0;
    app.update(AppMsg::SetSimScenario(SimulationScenario::Failure), &quiet());
    let effects = app.update(
        AppMsg::StartUpdate {
            skip_metered_check: false,
        },
        &quiet(),
    );
    assert!(matches!(
        effects.last(),
        Some(AppEffect::StartWorker(Some(SimulationScenario::Failure)))
    ));
    let effects = app.update(AppMsg::ConfirmReboot, &quiet());
    assert!(matches!(
        &effects[..],
        [AppEffect::Restart(Flags {
            dev_mode: false,
            dry_run: true
        })]
    ));
    app.update(AppMsg::ToggleDevMode(true), &quiet());
    let effects = app.update(AppMsg::ConfirmReboot, &quiet());
    assert!(matches!(
        &effects[..],
        [AppEffect::Restart(f)] if restart_host(&mut Journal::open(None, false), *f, false).toasts[0]
            .text
            == "Reboot suppressed (developer mode)"
    ));
    assert!(matches!(
        app.update(AppMsg::ShowRebaseDialog, &quiet())[..],
        [AppEffect::OpenRebase(Flags { dev_mode: true, .. })]
    ));
}

#[test]
fn restart_is_asked_of_the_host() {
    let mut app = app();
    assert!(matches!(
        app.update(AppMsg::RequestReboot, &quiet())[..],
        [AppEffect::Ask(Question::Restart)]
    ));
    let flags = match app.update(AppMsg::ConfirmReboot, &quiet())[..] {
        [AppEffect::Restart(flags)] => flags,
        _ => panic!("no restart"),
    };
    let mut journal = Journal::open(Some("/tmp/journal"), true);
    let plan = restart_host(&mut journal, flags, false);
    let command = plan.command.unwrap();
    assert_eq!(command.program, "systemctl");
    assert_eq!(command.args, vec!["reboot"]);
    let entry = plan.entry.unwrap();
    assert_eq!((entry.seq, entry.action.as_str()), (0, "reboot"));
    assert_eq!(entry.would_run.join(" "), "systemctl reboot");
    assert_eq!(entry.suppressed_by, "none");
    let plan = restart_host(&mut journal, flags, true);
    assert_eq!(
        plan.entry.unwrap().would_run.join(" "),
        "flatpak-spawn --host systemctl reboot"
    );

    app.settings.dry_run = true;
    let flags = match app.update(AppMsg::ConfirmReboot, &quiet())[..] {
        [AppEffect::Restart(flags)] => flags,
        _ => panic!("no restart"),
    };
    let plan = restart_host(&mut journal, flags, false);
    assert!(plan.command.is_none());
    assert_eq!(plan.toasts[0].text, "Reboot suppressed (dry-run)");
    assert_eq!(plan.toasts[0].timeout, 3);
    let entry = plan.entry.unwrap();
    assert_eq!(entry.seq, 2);
    assert_eq!(entry.would_run.join(" "), "systemctl reboot");
    assert_eq!(entry.suppressed_by, "dry_run");
}

#[test]
fn failure_is_told_everywhere() {
    let mut app = app();
    app.update(
        AppMsg::StartUpdate {
            skip_metered_check: true,
        },
        &quiet(),
    );
    let effects = app.update(AppMsg::UpdateFailed("disk full".to_string()), &quiet());
    assert_eq!(app.state, AppState::Error("disk full".to_string()));
    assert_eq!(app.progress.state, "error");
    assert_eq!(app.progress.message, "disk full");
    assert!(effects
        .iter()
        .any(|e| matches!(e, AppEffect::Notify { id, body, .. } if id == "update-failed" && body == "disk full")));
    assert!(effects
        .iter()
        .any(|e| matches!(e, AppEffect::SetWindowTitle(t) if t == "System Update — Update failed")));
}

#[test]
fn nothing_to_update() {
    let mut app = app();
    app.update(AppMsg::UpdateUpToDate, &quiet());
    assert_eq!(app.state, AppState::UpToDate);
    assert_eq!(app.progress.message, "Up to date");
    assert!(matches!(
        app.update_subtitle(),
        AppEffect::SetWindowTitle(t) if t == "System Update — Already up to date"
    ));
}

#[test]
fn cancelled_once() {
    let mut app = app();
    assert!(app.update(AppMsg::CancelUpdate, &quiet()).is_empty());
    app.update(
        AppMsg::StartUpdate {
            skip_metered_check: true,
        },
        &quiet(),
    );
    assert!(matches!(
        app.update(AppMsg::CancelUpdate, &quiet())[..],
        [AppEffect::CancelWorker]
    ));
    assert!(app.update(AppMsg::CancelUpdate, &quiet()).is_empty());
}

#[test]
fn running_update_is_not_closed_unasked() {
    let mut app = app();
    assert!(matches!(
        app.update(AppMsg::Quit, &quiet())[..],
        [AppEffect::Quit]
    ));
    app.update(
        AppMsg::StartUpdate {
            skip_metered_check: true,
        },
        &quiet(),
    );
    assert!(matches!(
        app.update(AppMsg::Quit, &quiet())[..],
        [AppEffect::Send(AppMsg::CloseRequest)]
    ));
    assert!(matches!(
        app.update(AppMsg::CloseRequest, &quiet())[..],
        [AppEffect::Ask(Question::Close)]
    ));
    assert!(matches!(
        Question::Close.answer("close"),
        Some(AppEffect::Quit)
    ));
    assert_eq!(Question::Close.alert().heading, "Update in Progress");
    assert!(Question::Close.alert().destructive);
    assert!(!Question::Metered.alert().destructive);
    assert_eq!(Question::Restart.alert().response, "restart");
}

#[test]
fn check_dialog_sets_the_preflight() {
    let mut app = app();
    let effects = app.update(AppMsg::OpenCheckDialog, &quiet());
    assert_eq!(app.progress.state, "checking");
    assert!(matches!(
        effects.last(),
        Some(AppEffect::OpenCheckDialog(None))
    ));
    app.update(
        AppMsg::CheckComplete(CheckResult {
            system_update: true,
            sources_with_updates: 1,
            total_updates: 1,
        }),
        &quiet(),
    );
    assert_eq!(app.preflight_status, PreflightStatus::UpdateAvailable);
    assert_eq!(app.progress.message, "Updates available");
    app.update(
        AppMsg::CheckComplete(CheckResult {
            system_update: false,
            sources_with_updates: 0,
            total_updates: 0,
        }),
        &quiet(),
    );
    assert_eq!(app.preflight_status, PreflightStatus::UpToDate);
    assert_eq!(app.progress.state, "idle");
    assert_eq!(app.progress.message, "");
    assert!(matches!(
        app.update(AppMsg::InstallFromCheck, &quiet())[..],
        [AppEffect::Send(AppMsg::StartUpdate {
            skip_metered_check: true
        })]
    ));
}

#[test]
fn dialog_tells_the_window() {
    let result = CheckResult {
        system_update: true,
        sources_with_updates: 1,
        total_updates: 1,
    };
    assert!(matches!(
        message_of_check(CheckClick::InstallAll.outcome()),
        Some(AppMsg::InstallFromCheck)
    ));
    assert!(message_of_check(CheckClick::Close.outcome()).is_none());
    assert!(matches!(
        message_of_check(CheckOutcome::Finished(result)),
        Some(AppMsg::CheckComplete(r)) if r == result
    ));
}

#[test]
fn pages_have_their_titles() {
    let mut app = app();
    for (page, title, window) in [
        ("history", "Version History", "Finupdate — Version History"),
        ("source", "Image Source", "Finupdate — Image Source"),
        ("changelog", "What’s New", "Finupdate — What’s New"),
        ("other", "Finupdate", "Finupdate — Finupdate"),
    ] {
        let effects = app.update(AppMsg::PageChanged(page.to_string()), &quiet());
        assert!(matches!(
            &effects[..],
            [AppEffect::SetHeader { title: t, subtitle, back: true }, AppEffect::SetWindowTitle(w)]
                if t == title && subtitle == "Finupdate" && w == window
        ));
    }
    let effects = app.update(AppMsg::PageChanged("main".to_string()), &quiet());
    assert!(matches!(
        &effects[..],
        [AppEffect::SetHeader { title: t, subtitle, back: false }, AppEffect::SetWindowTitle(w)]
            if t == "Finupdate" && subtitle.is_empty() && w == "Finupdate"
    ));
}

#[test]
fn switch_of_developer_mode_stores_no_override() {
    let overrides = RuntimeOverrides {
        dev_mode: None,
        dry_run: Some(true),
        sim_scenario: Some("failure".to_string()),
        mock_identity: None,
    };
    let mut settings = installed();
    settings.apply_overrides(Some(&overrides));
    let mut app = App::init(settings, false).0;
    let r = AppReadings {
        overrides: Some(overrides),
        ..quiet()
    };
    let effects = app.update(AppMsg::ToggleDevMode(true), &r);
    assert!(app.settings.dry_run);
    assert!(matches!(
        &effects[..],
        [AppEffect::SaveSettings(s), AppEffect::RevealDevBanner(true)]
            if s.dev_mode && !s.dry_run && s.sim_scenario.is_none()
    ));
}

#[test]
fn settings_reach_the_view() {
    let mut app = app();
    let mut changed = installed();
    changed.dev_mode = true;
    changed.auto_updates = false;
    let effects = app.update(AppMsg::SettingsChanged(changed), &quiet());
    assert!(app.settings.dev_mode);
    assert!(matches!(
        &effects[..],
        [AppEffect::RevealDevBanner(true), AppEffect::ToStatus(StatusViewInput::SettingsChanged(s))]
            if !s.auto_updates
    ));
}

#[test]
fn messages_pass_to_the_view() {
    let mut app = app();
    assert!(matches!(
        &app.update(AppMsg::ShowWhatsNew, &quiet())[..],
        [AppEffect::ToStatus(StatusViewInput::SelectChangelogVersion(v))] if v.is_empty()
    ));
    assert!(matches!(
        &app.update(AppMsg::TriggerPowerwash, &quiet())[..],
        [AppEffect::ToStatus(StatusViewInput::TogglePin(v))] if v == "powerwash"
    ));
    assert!(matches!(
        &app.update(AppMsg::TriggerFactoryReset, &quiet())[..],
        [AppEffect::ToStatus(StatusViewInput::TogglePin(v))] if v == "factory"
    ));
    assert!(matches!(
        &app.update(AppMsg::ShowStatusPage("source".to_string()), &quiet())[..],
        [AppEffect::ToStatus(StatusViewInput::ShowPage(p))] if p == "source"
    ));
    assert!(matches!(
        app.update(AppMsg::DismissBanner, &quiet())[..],
        [AppEffect::ToStatus(StatusViewInput::DismissBanner)]
    ));
    assert!(matches!(
        app.update(AppMsg::ModuleFinished(Module::System, ModuleStatus::Failed(3)), &quiet())[..],
        [AppEffect::ToStatus(StatusViewInput::ModuleFinished(Module::System, ModuleStatus::Failed(3)))]
    ));
    assert!(matches!(
        app.update(AppMsg::PreflightResult(PreflightStatus::Unknown), &quiet())[..],
        [AppEffect::ToStatus(StatusViewInput::PreflightResult(PreflightStatus::Unknown))]
    ));
    assert!(matches!(
        app.update(AppMsg::ShowAbout, &quiet())[..],
        [AppEffect::ShowAbout]
    ));
    assert!(matches!(
        app.update(AppMsg::ShowPreferences, &quiet())[..],
        [AppEffect::ShowPreferences(_)]
    ));
}

#[test]
fn events_become_messages() {
    assert!(matches!(
        message_of_event(UpdateEvent::Output("x".to_string())),
        (AppMsg::OutputLine(l), false) if l == "x"
    ));
    assert!(matches!(
        message_of_event(UpdateEvent::ModuleStarted(Module::Flatpak)),
        (AppMsg::ModuleStarted(Module::Flatpak), false)
    ));
    assert!(matches!(
        message_of_event(UpdateEvent::Complete),
        (AppMsg::UpdateComplete, true)
    ));
    assert!(matches!(
        message_of_event(UpdateEvent::UpToDate),
        (AppMsg::UpdateUpToDate, true)
    ));
    assert!(matches!(
        message_of_event(UpdateEvent::Error("e".to_string())),
        (AppMsg::UpdateFailed(e), true) if e == "e"
    ));
}

#[test]
fn outputs_become_messages() {
    assert!(matches!(
        message_of_output(StatusViewOutput::StartUpdate),
        AppMsg::StartUpdate {
            skip_metered_check: false
        }
    ));
    assert!(matches!(
        message_of_output(StatusViewOutput::Reboot),
        AppMsg::RequestReboot
    ));
    assert!(matches!(
        message_of_output(StatusViewOutput::OpenAdvanced),
        AppMsg::ShowPreferences
    ));
}

#[test]
fn shortcuts_lead_to_messages_and_to_nothing_destructive() {
    for (_, _, action, _) in shortcuts() {
        assert!(action == "show-shortcuts" || message_of_action(action).is_some());
        assert!(!matches!(
            message_of_action(action),
            Some(AppMsg::TriggerPowerwash) | Some(AppMsg::TriggerFactoryReset)
        ));
    }
    assert_eq!(shortcuts().len(), 8);
    assert!(message_of_action("nothing").is_none());
}

#[test]
fn simulated_updates_come_to_their_end() {
    for (scenario, cancel_after, state) in [
        (SimulationScenario::Success, None, AppState::Complete),
        (SimulationScenario::AlreadyUpToDate, None, AppState::UpToDate),
        (
            SimulationScenario::Success,
            Some(2),
            AppState::Error("Update cancelled by user".to_string()),
        ),
    ] {
        let mut app = app();
        app.update(
            AppMsg::StartUpdate {
                skip_metered_check: true,
            },
            &quiet(),
        );
        for e in run_simulated(scenario, cancel_after) {
            app.update(message_of_event(e).0, &quiet());
        }
        assert_eq!(app.state, state);
        assert!(!app.cancellable);
    }
}
