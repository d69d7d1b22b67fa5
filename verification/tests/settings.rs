use finupdate::settings::{
    default_true, migration, overrides, set_runtime_overrides, using_gsettings, Migration,
    MockBootcIdentity, OverrideSlot, PartialSettings, RuntimeOverrides, SaveTarget, Settings,
    SettingsFile, StoredSettings, UpdateInterval,
};
use serde_json::Value;

fn identity(v: &Value) -> MockBootcIdentity {
    let field = |k: &str| v[k].as_str().unwrap().to_string();
    MockBootcIdentity {
        registry: field("registry"),
        org: field("org"),
        image: field("image"),
        tag: field("tag"),
        digest: v["digest"].as_str().map(str::to_string),
        booted_at: v["booted_at"].as_str().map(str::to_string),
    }
}

fn parse(json: &str) -> Settings {
    let v: Value = serde_json::from_str(json).unwrap();
    let partial = PartialSettings {
        auto_updates: v["auto_updates"].as_bool(),
        update_interval: v["update_interval"].as_str().map(UpdateInterval::named),
        pause_on_metered: v["pause_on_metered"].as_bool(),
        custom_interval_hours: v["custom_interval_hours"].as_u64().map(|n| n as u32),
        dev_mode: v["dev_mode"].as_bool(),
        mock_identity: v.get("mock_identity").map(identity),
        dry_run: v["dry_run"].as_bool(),
        include_app_updates: v["include_app_updates"].as_bool(),
        sim_scenario: v["sim_scenario"].as_str().map(str::to_string),
    };
    Settings::from_partial(partial, "")
}

fn to_json(s: &Settings) -> String {
    let mut m = serde_json::Map::new();
    m.insert("auto_updates".into(), s.auto_updates.into());
    m.insert("update_interval".into(), s.update_interval.name().into());
    m.insert("pause_on_metered".into(), s.pause_on_metered.into());
    m.insert("custom_interval_hours".into(), s.custom_interval_hours.into());
    m.insert("dev_mode".into(), s.dev_mode.into());
    if let Some(id) = &s.mock_identity {
        let mut i = serde_json::Map::new();
        i.insert("registry".into(), id.registry.clone().into());
        i.insert("org".into(), id.org.clone().into());
        i.insert("image".into(), id.image.clone().into());
        i.insert("tag".into(), id.tag.clone().into());
        m.insert("mock_identity".into(), Value::Object(i));
    }
    m.insert("dry_run".into(), s.dry_run.into());
    m.insert("include_app_updates".into(), s.include_app_updates.into());
    if let Some(sim) = &s.sim_scenario {
        m.insert("sim_scenario".into(), sim.clone().into());
    }
    Value::Object(m).to_string()
}


#[test]
fn no_overrides_leaves_settings_untouched() {
    let mut s = Settings::default();
    s.dev_mode = false;
    s.dry_run = false;
    s.apply_overrides(None);
    assert!(!s.dev_mode);
    assert!(!s.dry_run);
}

#[test]
fn none_fields_defer_to_the_loaded_file() {
    // An override struct that sets only dry_run must not clobber dev_mode.
    let mut s = Settings::default();
    s.dev_mode = true;
    s.dry_run = false;
    s.apply_overrides(Some(&RuntimeOverrides {
        dry_run: Some(true),
        ..Default::default()
    }));
    assert!(s.dev_mode, "dev_mode should be left as the file had it");
    assert!(s.dry_run, "dry_run should be forced on");
}

#[test]
fn override_can_force_a_flag_off() {
    // Some(false) must win over a file that says true — otherwise you
    // could never use the CLI to escape a dev_mode=true config.
    let mut s = Settings::default();
    s.dev_mode = true;
    s.apply_overrides(Some(&RuntimeOverrides {
        dev_mode: Some(false),
        ..Default::default()
    }));
    assert!(!s.dev_mode);
}

#[test]
fn sim_scenario_and_mock_identity_override() {
    let mut s = Settings::default();
    s.apply_overrides(Some(&RuntimeOverrides {
        sim_scenario: Some("Failure".into()),
        mock_identity: Some(MockBootcIdentity {
            registry: "ghcr.io".into(),
            org: "ublue-os".into(),
            image: "bluefin".into(),
            tag: "stable".into(),
            digest: None,
            booted_at: None,
        }),
        ..Default::default()
    }));
    assert_eq!(s.sim_scenario.as_deref(), Some("Failure"));
    assert_eq!(
        s.mock_identity.map(|m| m.full_ref()),
        Some("ghcr.io/ublue-os/bluefin:stable".to_string())
    );
}

#[test]
fn update_interval_index_round_trip() {
    for v in [
        UpdateInterval::Hourly,
        UpdateInterval::Daily,
        UpdateInterval::Weekly,
        UpdateInterval::Custom,
    ] {
        assert_eq!(UpdateInterval::from_index(v.to_index()), v);
    }
}

#[test]
fn update_interval_unknown_index_falls_back_to_custom() {
    assert_eq!(UpdateInterval::from_index(99), UpdateInterval::Custom);
}

#[test]
fn update_interval_serializes_lowercase() {
    let json = serde_json::to_string(UpdateInterval::Daily.name()).unwrap();
    assert_eq!(json, r#""daily""#);
}

#[test]
fn update_interval_deserializes_lowercase() {
    let name: String = serde_json::from_str(r#""weekly""#).unwrap();
    let v = UpdateInterval::named(&name);
    assert_eq!(v, UpdateInterval::Weekly);
}

// ── Settings ─────────────────────────────────────────────────────────

#[test]
fn settings_round_trip_through_json() {
    let original = Settings {
        auto_updates: false,
        update_interval: UpdateInterval::Weekly,
        pause_on_metered: false,
        custom_interval_hours: 12,
        dev_mode: false,
        mock_identity: Some(MockBootcIdentity {
            registry: "ghcr.io".into(),
            org: "ublue-os".into(),
            image: "bluefin".into(),
            tag: "stable".into(),
            digest: None,
            booted_at: None,
        }),
        dry_run: true,
        include_app_updates: false,
        sim_scenario: Some("Failure".to_string()),
    };
    let json = to_json(&original);
    let back: Settings = parse(&json);
    assert_eq!(back.auto_updates, original.auto_updates);
    assert_eq!(back.update_interval, original.update_interval);
    assert_eq!(back.pause_on_metered, original.pause_on_metered);
    assert_eq!(back.custom_interval_hours, original.custom_interval_hours);
    assert_eq!(back.dev_mode, original.dev_mode);
    assert_eq!(back.mock_identity, original.mock_identity);
    assert_eq!(back.dry_run, original.dry_run);
    assert_eq!(back.include_app_updates, original.include_app_updates);
    assert_eq!(back.sim_scenario, original.sim_scenario);
}

#[test]
fn settings_include_app_updates_defaults_true_when_missing() {
    let json = r#"{"auto_updates":true,"update_interval":"daily","pause_on_metered":true,"custom_interval_hours":6,"dev_mode":false}"#;
    let s: Settings = parse(json);
    assert!(s.include_app_updates);
}

#[test]
fn mock_identity_full_ref_formats_correctly() {
    let id = MockBootcIdentity {
        registry: "ghcr.io".into(),
        org: "ublue-os".into(),
        image: "bluefin-nvidia".into(),
        tag: "stable".into(),
        digest: None,
        booted_at: None,
    };
    assert_eq!(id.full_ref(), "ghcr.io/ublue-os/bluefin-nvidia:stable");
}

#[test]
fn settings_missing_mock_identity_and_dry_run_default_to_none_false() {
    let partial = r#"{"auto_updates": true, "dev_mode": false}"#;
    let s: Settings = parse(partial);
    assert!(s.mock_identity.is_none());
    assert!(!s.dry_run);
}

#[test]
fn settings_missing_fields_get_defaults() {
    let partial = r#"{"auto_updates": false}"#;
    let s: Settings = parse(partial);
    assert!(!s.auto_updates);
    // Other fields fall back to Default::default()'s values.
    assert_eq!(s.update_interval, UpdateInterval::Daily);
    assert_eq!(s.custom_interval_hours, 6);
    assert!(s.pause_on_metered);
}

#[test]
fn settings_unknown_fields_are_ignored() {
    let extended = r#"{"auto_updates": true, "future_field": 42}"#;
    let s: Settings = parse(extended);
    assert!(s.auto_updates);
}

#[test]
fn dry_run_defaults_on_only_for_development_builds() {
    assert!(Settings::for_profile("").dry_run);
    assert!(Settings::for_profile("Devel").dry_run);
    assert!(!Settings::for_profile("Stable").dry_run);
    assert!(default_true());
}

#[test]
fn overrides_are_set_once() {
    let mut slot = OverrideSlot { value: None };
    assert!(overrides(&slot).is_none());
    assert!(set_runtime_overrides(
        &mut slot,
        RuntimeOverrides {
            dry_run: Some(true),
            ..Default::default()
        }
    ));
    assert!(!set_runtime_overrides(&mut slot, RuntimeOverrides::default()));
    assert_eq!(overrides(&slot).unwrap().dry_run, Some(true));
}

fn store() -> StoredSettings {
    StoredSettings {
        auto_updates: false,
        update_interval: "weekly".into(),
        pause_on_metered: true,
        custom_interval_hours: 12,
        dev_mode: true,
        mock_identity: None,
        dry_run: false,
        include_app_updates: true,
        sim_scenario: "".into(),
    }
}

#[test]
fn stored_settings_round_trip() {
    let s = Settings::from_gsettings(&store());
    assert_eq!(s.update_interval, UpdateInterval::Weekly);
    assert!(s.sim_scenario.is_none());
    let back = s.write_gsettings();
    assert_eq!(back.update_interval, "weekly");
    assert_eq!(back.custom_interval_hours, 12);
    assert_eq!(back.sim_scenario, "");
}

#[test]
fn the_store_wins_over_the_file_and_overrides_win_over_both() {
    let o = RuntimeOverrides {
        dev_mode: Some(false),
        ..Default::default()
    };
    let s = Settings::load(Some(&store()), SettingsFile::Unusable, "", Some(&o));
    assert!(!s.dev_mode);
    assert!(!s.auto_updates);
    let d = Settings::load(None, SettingsFile::Unusable, "Stable", None);
    assert!(d.auto_updates);
    assert!(!d.dry_run);
}

#[test]
fn saving_goes_where_settings_live() {
    let s = Settings::default();
    assert!(using_gsettings(true) && !using_gsettings(false));
    assert!(matches!(s.save(true), SaveTarget::Store(_)));
    assert!(matches!(s.save(false), SaveTarget::File));
}

#[test]
fn the_file_is_imported_once() {
    assert_eq!(migration(true, true), Migration::Done);
    assert_eq!(migration(false, true), Migration::ImportAndMark);
    assert_eq!(migration(false, false), Migration::MarkOnly);
}

#[test]
fn unknown_interval_names_mean_the_default() {
    assert_eq!(UpdateInterval::named("hourly"), UpdateInterval::Hourly);
    assert_eq!(UpdateInterval::named("custom"), UpdateInterval::Custom);
    assert_eq!(UpdateInterval::named("fortnightly"), UpdateInterval::Daily);
}
