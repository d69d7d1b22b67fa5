use finupdate::calendar::{CalendarDate, Moment};
use finupdate::rebase_widget::{build_rebase_widget, recent_build_rows, resolve_features};
use finupdate::registry_client::{Family, ImageVersion, Variant};
use finupdate::service::{family_of, ImageRef};

fn variant(image: &str, features: &[&str]) -> Variant {
    Variant {
        image: image.to_string(),
        features: features.iter().map(|f| f.to_string()).collect(),
    }
}

fn strings(list: &[&str]) -> Vec<String> {
    list.iter().map(|s| s.to_string()).collect()
}

fn families() -> Vec<Family> {
    vec![
        Family {
            name: "Bluefin Stable".to_string(),
            org: "ublue-os".to_string(),
            base_image: "bluefin".to_string(),
            features: strings(&["dx", "nvidia", "open"]),
            variants: vec![
                variant("bluefin", &[]),
                variant("bluefin-dx", &["dx"]),
                variant("bluefin-nvidia-open", &["nvidia", "open"]),
                variant("bluefin-dx-nvidia-open", &["dx", "nvidia", "open"]),
            ],
            streams: strings(&["stable", "latest"]),
        },
        Family {
            name: "Bluefin Dakota".to_string(),
            org: "projectbluefin".to_string(),
            base_image: "dakota".to_string(),
            features: strings(&["nvidia"]),
            variants: vec![variant("dakota", &[]), variant("dakota-nvidia", &["nvidia"])],
            streams: strings(&["latest"]),
        },
    ]
}

fn image(s: &str) -> ImageRef {
    ImageRef::parse(s).unwrap()
}

#[test]
fn resolve_features_empty_when_off() {
    assert!(resolve_features(false, false).is_empty());
}

#[test]
fn resolve_features_dx_only() {
    assert_eq!(resolve_features(true, false), vec!["dx"]);
}

#[test]
fn resolve_features_nvidia_prefers_open() {
    // NVIDIA on adds both "nvidia" and "open"; the resolver picks
    // the open variant first when the family publishes one.
    assert_eq!(resolve_features(false, true), vec!["nvidia", "open"]);
}

#[test]
fn resolve_features_dx_plus_nvidia() {
    assert_eq!(resolve_features(true, true), vec!["dx", "nvidia", "open"]);
}

#[test]
fn page_opens_on_the_booted_variant() {
    let booted = image("ghcr.io/ublue-os/bluefin-dx-nvidia-open:stable");
    let family = family_of(&families(), Some(&booted));
    let mut page = build_rebase_widget(family, Some(booted), &families());
    assert!(page.dx && page.nvidia);
    assert_eq!(page.stream, "stable");
    assert_eq!(
        page.subtitle,
        "ghcr.io/ublue-os/bluefin-dx-nvidia-open:stable"
    );
    assert_eq!(page.label, "Currently Installed");
    assert!(!page.sensitive);
    assert_eq!(page.shown(), (true, true));

    page.select_stream("latest".to_string(), &families());
    assert_eq!(page.label, "Switch to :latest");
    assert!(page.sensitive);

    page.set_nvidia(false, &families());
    assert_eq!(page.label, "Switch to bluefin-dx:latest");
    assert_eq!(page.subtitle, "ghcr.io/ublue-os/bluefin-dx:latest");
}

#[test]
fn open_variant_is_only_preferred() {
    let booted = image("ghcr.io/projectbluefin/dakota:latest");
    let family = family_of(&families(), Some(&booted));
    let mut page = build_rebase_widget(family, Some(booted), &families());
    assert_eq!(page.shown(), (false, true));
    page.set_nvidia(true, &families());
    assert_eq!(page.subtitle, "ghcr.io/projectbluefin/dakota-nvidia:latest");
    assert!(page.sensitive);

    // A combination that is not published keeps the label.
    let label = page.label.clone();
    page.set_dx(true, &families());
    assert_eq!(
        page.subtitle,
        "(combination doesn't match a published image)"
    );
    assert_eq!(page.label, label);
    assert!(!page.sensitive);

    page.select_stream("".to_string(), &families());
    assert_eq!(page.subtitle, "(no stream selected)");
}

#[test]
fn page_without_a_family() {
    let mut page = build_rebase_widget(None, None, &families());
    assert_eq!(page.subtitle, "(family not recognised)");
    assert_eq!(page.label, "Switch");
    assert!(!page.sensitive);
    assert_eq!(page.shown(), (false, false));
    page.recompute(&families());
    assert_eq!(page.subtitle, "(family not recognised)");
}

#[test]
fn recent_builds_have_rows() {
    assert_eq!(
        recent_build_rows(&vec![])[0].0,
        "No recent builds returned by the registry"
    );
    let date = CalendarDate::from_ymd_opt(2026, 1, 5).unwrap();
    let builds: Vec<ImageVersion> = (0..6)
        .map(|i| ImageVersion {
            date,
            full_ref: format!("ghcr.io/example/image:{i}"),
            version: format!("{i}"),
            kernel: if i == 0 {
                "6.17".to_string()
            } else {
                String::new()
            },
            revision: String::new(),
            created: Moment::at(&date, 3, 4).unwrap(),
        })
        .collect();
    let rows = recent_build_rows(&builds);
    assert_eq!(rows.len(), 4);
    assert_eq!(
        rows[0],
        (
            "0".to_string(),
            "Jan 5, 2026".to_string(),
            Some("6.17".to_string())
        )
    );
    assert_eq!(rows[3].2, None);
}
