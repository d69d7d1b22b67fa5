use finupdate::app::App;
use finupdate::args::{parse_args, Arguments, USAGE};
use finupdate::settings::Settings;
use finupdate::update_worker::SimulationScenario;

fn parse(args: &[&str]) -> Arguments {
    parse_args(&args.iter().map(|s| s.to_string()).collect())
}

#[test]
fn no_arguments_override_nothing() {
    match parse(&[]) {
        Arguments::Run(o) => {
            assert_eq!(o.dev_mode, None);
            assert_eq!(o.dry_run, None);
            assert_eq!(o.sim_scenario, None);
        }
        other => panic!("{other:?}"),
    }
}

#[test]
fn outcome_implies_developer_mode() {
    match parse(&["--sim=up-to-date"]) {
        Arguments::Run(o) => {
            assert_eq!(o.dev_mode, Some(true));
            assert_eq!(o.sim_scenario.as_deref(), Some("up-to-date"));
            let mut settings = Settings::for_profile("default");
            settings.apply_overrides(Some(&o));
            let (app, _) = App::init(settings, false);
            assert_eq!(app.sim_scenario, SimulationScenario::AlreadyUpToDate);
        }
        other => panic!("{other:?}"),
    }
}

#[test]
fn last_outcome_counts() {
    match parse(&["--dev-mode", "--sim=success", "--sim=failure"]) {
        Arguments::Run(o) => assert_eq!(o.sim_scenario.as_deref(), Some("failure")),
        other => panic!("{other:?}"),
    }
}

#[test]
fn first_help_or_error_decides() {
    assert!(matches!(parse(&["-h", "--nonsense"]), Arguments::Help));
    assert!(matches!(parse(&["--help"]), Arguments::Help));
    match parse(&["--nonsense", "-h"]) {
        Arguments::Invalid(m) => {
            assert_eq!(
                m,
                format!("finupdate: unknown argument '--nonsense'\n\n{USAGE}")
            );
        }
        other => panic!("{other:?}"),
    }
    match parse(&["--sim=maybe"]) {
        Arguments::Invalid(m) => assert_eq!(
            m,
            "finupdate: invalid --sim scenario 'maybe'\nValid: success | failure | up-to-date\n"
        ),
        other => panic!("{other:?}"),
    }
}
