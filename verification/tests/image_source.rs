use finupdate::action_journal::Journal;
use finupdate::registry_client::{Family, Variant};
use finupdate::service::{family_of, ImageRef};
use finupdate::settings::{RuntimeOverrides, Settings};
use finupdate::ui::family_switches::{nvidia_subtitle, populate_family_switches, NvidiaChange};
use finupdate::ui::image_info::{
    apply_auto_updates_setting, get_last_update_time, logo_icon_names, read_auto_updates_enabled,
    read_image_info, read_logo_icon_name, read_registry_uri, read_selected_tag, stream_tag,
    timer_query, Age, OsRelease,
};
use finupdate::ui::rebase_dialog::{derive_initial_toggle_state, resolve_dx_nvidia};
use finupdate::ui::image_source::{spawn_changelog_fetch, variant_uri, variants};

fn variant(image: &str, features: &[&str]) -> Variant {
    Variant {
        image: image.to_string(),
        features: features.iter().map(|f| f.to_string()).collect(),
    }
}

fn strings(list: &[&str]) -> Vec<String> {
    list.iter().map(|s| s.to_string()).collect()
}

fn families() -> Vec<Family> {
    vec![Family {
        name: "Bluefin Stable".to_string(),
        org: "ublue-os".to_string(),
        base_image: "bluefin".to_string(),
        features: strings(&["dx", "nvidia", "open"]),
        variants: vec![
            variant("bluefin", &[]),
            variant("bluefin-dx", &["dx"]),
            variant("bluefin-nvidia-open", &["nvidia", "open"]),
        ],
        streams: strings(&["stable", "latest"]),
    }]
}

fn image(s: &str) -> ImageRef {
    ImageRef::parse(s).unwrap()
}

#[test]
fn fetch_asks_for_the_stream() {
    let plan = spawn_changelog_fetch(
        "ghcr.io/ublue-os/sub/bluefin",
        "stable-daily-43.20260527",
        "stable",
        false,
    );
    let asked = plan.image.unwrap();
    assert_eq!(asked.image, "sub/bluefin");
    assert_eq!(asked.tag, "stable-daily-43");
    assert_eq!(plan.max_versions, 8);
    assert_eq!(
        plan.commits_url.as_deref(),
        Some("https://api.github.com/repos/ublue-os/sub/bluefin/commits")
    );
    assert_eq!(
        plan.sboms,
        Some((
            "ghcr.io/ublue-os/sub/bluefin:stable".to_string(),
            "ghcr.io/ublue-os/sub/bluefin:stable-daily-43.20260527".to_string()
        ))
    );
    let plan = spawn_changelog_fetch("bluefin", "latest", "latest", true);
    assert!(plan.image.is_none() && plan.commits_url.is_none() && plan.sboms.is_none());
}

#[test]
fn variants_follow_the_booted_image() {
    let booted = image("ghcr.io/ublue-os/bluefin-nvidia-open:stable");
    let family = family_of(&families(), Some(&booted));
    let v = variants(family.as_ref(), Some(&booted));
    assert!(v.dx_shown && v.nvidia_shown && !v.dx && v.nvidia);
    let v = variants(None, Some(&booted));
    assert!(!v.dx_shown && !v.nvidia_shown && !v.dx && !v.nvidia);
    let f = family.unwrap();
    assert_eq!(
        variant_uri(&families(), &f, "ghcr.io/ublue-os/bluefin", true, false),
        Some("ghcr.io/ublue-os/bluefin-dx".to_string())
    );
    assert_eq!(
        variant_uri(&families(), &f, "ghcr.io/ublue-os/bluefin", true, true),
        None
    );
    assert_eq!(
        variant_uri(&families(), &f, "bluefin", true, false),
        None
    );
}

#[test]
fn preview_matches_the_features() {
    let booted = image("ghcr.io/ublue-os/bluefin:stable");
    let family = family_of(&families(), Some(&booted));
    let mut s = populate_family_switches(family, Some(&booted));
    assert_eq!(s.label(), "Family: Bluefin Stable");
    assert_eq!(s.shown(), (true, true));
    assert_eq!(s.target, "bluefin (currently booted)");
    assert_eq!(s.stream, "stable");
    s.set_dx(true, &families());
    assert_eq!(s.target, "bluefin-dx (resolved)");
    assert_eq!(s.features, vec!["dx"]);
    assert_eq!(
        s.set_nvidia(true, false, &families()),
        NvidiaChange::Applied
    );
    assert_eq!(
        s.target,
        "(combination doesn't match any published image)"
    );
    s.set_dx(false, &families());
    assert_eq!(s.target, "bluefin-nvidia-open (resolved)");
    s.select_stream("latest".to_string(), &families());
    assert_eq!(s.stream, "latest");

    let dx = image("ghcr.io/ublue-os/bluefin-dx:stable");
    let opened = populate_family_switches(family_of(&families(), Some(&dx)), Some(&dx));
    assert!(opened.dx && !opened.nvidia);
    assert_eq!(opened.features, vec!["dx"]);
    assert_eq!(opened.target, "bluefin-dx (currently booted)");

    let none = populate_family_switches(None, Some(&booted));
    assert!(none.features.is_empty());
    assert_eq!(none.label(), "Family not recognized");
    assert_eq!(
        none.target,
        "(this image isn't in the KNOWN_FAMILIES catalogue)"
    );
}

#[test]
fn switches_are_read_back() {
    let booted = image("ghcr.io/ublue-os/bluefin:stable");
    let family = family_of(&families(), Some(&booted)).unwrap();
    for (dx, nvidia) in [(false, false), (true, false), (false, true)] {
        let (_, found) = resolve_dx_nvidia(&families(), &family, dx, nvidia);
        let found = found.unwrap();
        assert_eq!(
            derive_initial_toggle_state(&family, Some(&found)),
            (dx, nvidia)
        );
    }
    let (_, found) = resolve_dx_nvidia(&families(), &family, true, true);
    assert!(found.is_none());
}

#[test]
fn driver_of_a_present_card_goes_only_after_a_question() {
    let booted = image("ghcr.io/ublue-os/bluefin-nvidia-open:stable");
    let family = family_of(&families(), Some(&booted));
    let mut s = populate_family_switches(family, Some(&booted));
    assert!(s.nvidia);
    assert_eq!(s.set_nvidia(false, true, &families()), NvidiaChange::Ask);
    assert!(s.nvidia);
    assert!(s.answer_nvidia(false, &families()));
    assert!(s.nvidia);
    assert!(!s.answer_nvidia(true, &families()));
    assert!(!s.nvidia);
    assert_eq!(s.target, "bluefin (resolved)");
    assert_ne!(nvidia_subtitle(true), nvidia_subtitle(false));
}

#[test]
fn booted_image_has_address_and_stream() {
    let booted = image("ghcr.io/ublue-os/bluefin:stable-daily-43.20260527");
    assert_eq!(
        read_registry_uri(Some(&booted)).as_deref(),
        Some("ghcr.io/ublue-os/bluefin")
    );
    assert_eq!(read_selected_tag(Some(&booted)), "stable-daily-43");
    assert_eq!(read_registry_uri(None), None);
    assert_eq!(read_selected_tag(None), "latest");
    assert_eq!(stream_tag("latest"), "latest");
}

#[test]
fn system_has_a_name() {
    let none = OsRelease {
        host: None,
        own: None,
    };
    assert_eq!(read_image_info(&none, None), None);
    let booted = image("ghcr.io/ublue-os/bluefin:stable");
    assert_eq!(
        read_image_info(&none, Some(&booted)).as_deref(),
        Some("ublue-os/bluefin")
    );
    let both = OsRelease {
        host: Some("IMAGE_ID=dakota\nVARIANT_ID=nvidia\n".to_string()),
        own: Some("PRETTY_NAME=\"GNOME OS\"\n".to_string()),
    };
    assert_eq!(
        read_image_info(&both, Some(&booted)).as_deref(),
        Some("GNOME OS")
    );
    let ids = OsRelease {
        host: Some("IMAGE_ID=dakota\nVARIANT_ID=nvidia\n".to_string()),
        own: None,
    };
    assert_eq!(
        read_image_info(&ids, None).as_deref(),
        Some("dakota  ·  nvidia")
    );
}

#[test]
fn first_icon_that_exists_is_taken() {
    let files = OsRelease {
        host: Some("LOGO=bluefin\nID=dakota\n".to_string()),
        own: None,
    };
    let names = logo_icon_names(&files);
    assert!(names.contains(&"bluefin".to_string()));
    let mut has: Vec<bool> = names.iter().map(|_| false).collect();
    let last = names.len() - 1;
    has[last] = true;
    assert_eq!(read_logo_icon_name(&names, &has), names[last]);
    has[0] = true;
    assert_eq!(read_logo_icon_name(&names, &has), names[0]);
}

#[test]
fn last_update_in_words() {
    assert_eq!(
        get_last_update_time(Age::Seconds(10), Age::Absent, Age::Absent).as_deref(),
        Some("Last update: less than an hour ago")
    );
    assert_eq!(
        get_last_update_time(Age::Absent, Age::Seconds(7200), Age::Absent).as_deref(),
        Some("Last update: 2 hours ago")
    );
    assert_eq!(
        get_last_update_time(Age::Seconds(49 * 3600), Age::Absent, Age::Absent).as_deref(),
        Some("Last update: 2 days ago")
    );
    assert_eq!(
        get_last_update_time(Age::Future, Age::Seconds(7200), Age::Absent),
        None
    );
    assert_eq!(
        get_last_update_time(Age::Absent, Age::Absent, Age::Seconds(60)).as_deref(),
        Some("System deployed: 0 hours ago")
    );
    assert_eq!(
        get_last_update_time(Age::Absent, Age::Absent, Age::Seconds(48 * 3600)).as_deref(),
        Some("System deployed: 2 days ago")
    );
    assert_eq!(
        get_last_update_time(Age::Absent, Age::Absent, Age::Absent),
        None
    );
}

#[test]
fn timer_is_asked_and_switched() {
    assert!(read_auto_updates_enabled(Some("enabled\n"), false));
    assert!(!read_auto_updates_enabled(Some("disabled\n"), true));
    assert!(read_auto_updates_enabled(Some("masked"), true));
    assert!(!read_auto_updates_enabled(None, false));
    assert_eq!(
        timer_query(true).join(" "),
        "flatpak-spawn --host systemctl is-enabled uupd.timer"
    );
    let kept = Settings::for_profile("default");
    let mut journal = Journal::open(Some("/tmp/journal"), true);
    let (saved, plan) = apply_auto_updates_setting(&mut journal, false, &kept, None, false);
    assert!(!saved.auto_updates);
    assert!(plan.command.is_some());
    assert_eq!(
        plan.entry.unwrap().would_run.join(" "),
        "pkexec systemctl disable --now uupd.timer"
    );
    let o = RuntimeOverrides {
        dev_mode: Some(true),
        dry_run: None,
        sim_scenario: None,
        mock_identity: None,
    };
    let (saved, plan) = apply_auto_updates_setting(&mut journal, true, &kept, Some(&o), false);
    assert!(saved.auto_updates && !saved.dev_mode);
    assert!(plan.command.is_none());
    let entry = plan.entry.unwrap();
    assert_eq!((entry.seq, entry.action.as_str()), (1, "toggle_timer"));
    assert_eq!(
        entry.would_run.join(" "),
        "pkexec systemctl enable --now uupd.timer"
    );
    assert_eq!(entry.suppressed_by, "dev_mode");
}
