use finupdate::orchestrator::{Module, ModuleStatus};
use finupdate::update_worker::{
    cancelled, is_flatpak, run_simulated, simulate_update, SimulationScenario, UpdateEvent,
};

fn module_events(events: &[UpdateEvent]) -> Vec<(&'static str, &str)> {
    events
        .iter()
        .filter_map(|e| match e {
            UpdateEvent::ModuleStarted(m) => Some(("start", m.key())),
            UpdateEvent::ModuleFinished(m, _) => Some(("end", m.key())),
            _ => None,
        })
        .collect()
}

#[test]
fn success_scenario_emits_all_four_modules_then_complete() {
    let events = run_simulated(SimulationScenario::Success, None);

    // Last event must be Complete.
    assert!(
        matches!(events.last(), Some(UpdateEvent::Complete)),
        "expected Complete at end, got {:?}",
        events.last()
    );

    // Every module starts and finishes in order.
    let module_seq = module_events(&events);
    assert_eq!(
        module_seq,
        vec![
            ("start", "system"),
            ("end", "system"),
            ("start", "flatpak"),
            ("end", "flatpak"),
            ("start", "brew"),
            ("end", "brew"),
            ("start", "distrobox"),
            ("end", "distrobox"),
        ]
    );

    // Every ModuleFinished should be Success in this scenario.
    for ev in &events {
        if let UpdateEvent::ModuleFinished(_, status) = ev {
            assert_eq!(status, &ModuleStatus::Success);
        }
    }
}

#[test]
fn already_up_to_date_short_circuits_after_system() {
    let events = run_simulated(SimulationScenario::AlreadyUpToDate, None);

    // Last event is UpToDate.
    assert!(matches!(events.last(), Some(UpdateEvent::UpToDate)));

    // Only the system module ran.
    let module_seq = module_events(&events);
    assert_eq!(module_seq, vec![("start", "system"), ("end", "system")]);

    // System finished as UpToDate, not Success.
    let system_finish = events
        .iter()
        .find_map(|e| match e {
            UpdateEvent::ModuleFinished(Module::System, s) => Some(s),
            _ => None,
        })
        .expect("expected ModuleFinished for system");
    assert_eq!(system_finish, &ModuleStatus::UpToDate);
}

#[test]
fn failure_scenario_emits_error_after_system() {
    let events = run_simulated(SimulationScenario::Failure, None);

    // Last event is Error with the dev-mode marker text.
    match events.last() {
        Some(UpdateEvent::Error(msg)) => {
            assert!(msg.contains("[DEV MODE]"), "got: {msg}");
        }
        other => panic!("expected Error, got {other:?}"),
    }

    // System started and finished as Failed(1).
    let system_finish = events
        .iter()
        .find_map(|e| match e {
            UpdateEvent::ModuleFinished(Module::System, s) => Some(s),
            _ => None,
        })
        .expect("expected ModuleFinished for system");
    assert_eq!(system_finish, &ModuleStatus::Failed(1));

    // No other modules ran.
    let other_modules = module_events(&events)
        .into_iter()
        .filter(|(_, key)| *key != "system")
        .count();
    assert_eq!(other_modules, 0);
}

#[test]
fn cancellation_emits_error_and_stops() {
    // Cancel almost immediately.
    let events = run_simulated(SimulationScenario::Success, Some(0));

    // The cancel message should land as an Error.
    let last_is_cancel = matches!(
        events.last(),
        Some(UpdateEvent::Error(m)) if m.contains("cancelled")
    );
    assert!(last_is_cancel, "tail: {:?}", events.last());

    // We should NOT see Complete after a cancel.
    assert!(!events.iter().any(|e| matches!(e, UpdateEvent::Complete)));
}

#[test]
fn cancellation_keeps_what_was_sent() {
    let all = run_simulated(SimulationScenario::Success, None);
    let cut = run_simulated(SimulationScenario::Success, Some(3));
    assert_eq!(cut.len(), 4);
    assert_eq!(cut[0..3], all[0..3]);
    assert_eq!(cut[3], cancelled());
}

#[test]
fn every_simulation_pauses_between_events() {
    let steps = simulate_update(SimulationScenario::Failure);
    assert!(steps.len() > 2);
    assert!(matches!(
        steps[steps.len() - 1].event,
        UpdateEvent::Error(_)
    ));
}

#[test]
fn the_sandbox_is_told_by_its_info_file() {
    assert!(is_flatpak(true));
    assert!(!is_flatpak(false));
}
