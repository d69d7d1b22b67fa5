use finupdate::calendar::{CalendarDate, Moment};
use finupdate::registry_client::{AvailableTag, Family, ImageVersion, Variant};
use finupdate::service::{
    booted_image, detect_image, feature_display_name, feature_subtitle, named_image,
    recent_versions, BootcUpdaterService, FamilyInfo, ImageRef, Registry, ServiceError,
};
use finupdate::settings::MockBootcIdentity;
use std::sync::{Arc, Mutex};


#[test]
fn feature_display_name_covers_all_known_keys() {
    let cases = [
        ("nvidia", "NVIDIA drivers (proprietary)"),
        ("open", "NVIDIA open kernel modules"),
        ("dx", "Developer extras (DX)"),
        ("hwe", "Hardware-enablement kernel (HWE)"),
        ("gdx", "GNOME Developer extras (GDX)"),
        ("deck", "Steam Deck profile"),
        ("asus", "ASUS ROG tuning"),
        ("surface", "Microsoft Surface kernel"),
        ("framework", "Framework laptop tuning"),
    ];
    for (key, expected) in cases {
        assert_eq!(feature_display_name(key), expected, "key={key}");
    }
}

#[test]
fn feature_display_name_unknown_key_returns_generic() {
    assert_eq!(feature_display_name("unknown-feature"), "Variant feature");
}

#[test]
fn feature_subtitle_covers_all_known_keys() {
    let cases = [
        ("nvidia", "Use the closed-source NVIDIA driver"),
        ("open", "Use Mesa's NVK / NVIDIA open-source kernel driver"),
        ("dx", "Includes container tools, IDEs, and language SDKs"),
        (
            "hwe",
            "Newer kernel + drivers backported for fresh hardware",
        ),
        ("gdx", "GNOME-focused developer toolchain"),
        (
            "deck",
            "Tuned for Steam Deck hardware (gamescope, Steam shell)",
        ),
        ("asus", "Kernel patches for ASUS ROG Ally / Strix laptops"),
        ("surface", "Linux-surface kernel + camera fix-ups"),
        ("framework", "Power profiles + fingerprint reader support"),
    ];
    for (key, expected) in cases {
        assert_eq!(feature_subtitle(key), expected, "key={key}");
    }
}

#[test]
fn feature_subtitle_unknown_key_returns_generic() {
    assert_eq!(
        feature_subtitle("unknown-feature"),
        "Additional ublue extras"
    );
}


#[test]
fn image_ref_parse_roundtrip() {
    let r = ImageRef::parse("ghcr.io/ublue-os/bluefin:stable-daily-43.20260527").unwrap();
    assert_eq!(r.registry, "ghcr.io");
    assert_eq!(r.org, "ublue-os");
    assert_eq!(r.image, "bluefin");
    assert_eq!(r.tag, "stable-daily-43.20260527");
    assert_eq!(
        r.as_string(),
        "ghcr.io/ublue-os/bluefin:stable-daily-43.20260527"
    );
}

#[test]
fn image_ref_parse_rejects_missing_tag() {
    assert!(ImageRef::parse("ghcr.io/ublue-os/bluefin").is_none());
}

#[test]
fn image_ref_parse_rejects_missing_registry() {
    assert!(ImageRef::parse("ublue-os/bluefin:stable").is_none());
}

#[test]
fn image_ref_handles_image_with_slashes() {
    // GHCR allows nested namespaces like ghcr.io/org/sub/image:tag.
    // ImageRef::parse should keep the whole "sub/image" segment as image.
    let r = ImageRef::parse("ghcr.io/projectbluefin/dakota:latest").unwrap();
    assert_eq!(r.image, "dakota");
}


/// In-memory Registry impl that returns whatever the test put in. The
/// records counter lets tests assert that a method was actually invoked
/// — useful for confirming caching paths or default-image fallthrough.
struct FixtureRegistry {
    booted: Option<ImageRef>,
    versions: std::collections::HashMap<String, Vec<ImageVersion>>,
    tags: std::collections::HashMap<String, Vec<AvailableTag>>,
    fetch_versions_calls: Mutex<u32>,
    detect_calls: Mutex<u32>,
    list_tags_calls: Mutex<u32>,
}

impl FixtureRegistry {
    fn new() -> Self {
        Self {
            booted: None,
            versions: std::collections::HashMap::new(),
            tags: std::collections::HashMap::new(),
            fetch_versions_calls: Mutex::new(0),
            detect_calls: Mutex::new(0),
            list_tags_calls: Mutex::new(0),
        }
    }

    fn with_booted(mut self, image: ImageRef) -> Self {
        self.booted = Some(image);
        self
    }

    fn with_versions(mut self, image: &ImageRef, versions: Vec<ImageVersion>) -> Self {
        self.versions.insert(image.as_string(), versions);
        self
    }

    fn with_tags(mut self, image: &ImageRef, tags: Vec<&str>) -> Self {
        // Display == raw for plain stream / dated tags; that matches the
        // production transform for non-sha tags. Tests that need to
        // exercise the sha→date display swap should construct
        // `AvailableTag` values directly.
        self.tags.insert(
            image.as_string(),
            tags.into_iter()
                .map(|t| AvailableTag {
                    display: t.to_string(),
                    raw: t.to_string(),
                })
                .collect(),
        );
        self
    }
}

struct Shared(Arc<FixtureRegistry>);

impl Registry for Shared {
    fn fetch_versions(
        &self,
        image: &ImageRef,
        _max: usize,
    ) -> Result<Vec<ImageVersion>, ServiceError> {
        *self.0.fetch_versions_calls.lock().unwrap() += 1;
        self.0.versions
            .get(&image.as_string())
            .cloned()
            .ok_or_else(|| ServiceError::NotFound(format!("no fixture for {}", image.as_string())))
    }

    fn detect_booted_image(&self) -> Option<ImageRef> {
        *self.0.detect_calls.lock().unwrap() += 1;
        self.0.booted.clone()
    }

    fn list_available_tags(
        &self,
        image: &ImageRef,
    ) -> Result<Vec<AvailableTag>, ServiceError> {
        *self.0.list_tags_calls.lock().unwrap() += 1;
        self.0.tags
            .get(&image.as_string())
            .cloned()
            .ok_or_else(|| ServiceError::NotFound(format!("no tag fixture for {}", image.as_string())))
    }
}

fn dummy_version(date: &str, version: &str, full_ref: &str) -> ImageVersion {
    let part = |a: usize, b: usize| date[a..b].parse::<u32>().expect("valid date");
    let d = CalendarDate::from_ymd_opt(part(0, 4) as i32, part(5, 7), part(8, 10))
        .expect("valid date");
    let created = Moment::at(&d, 0, 0).expect("midnight");
    ImageVersion {
        date: d,
        full_ref: full_ref.to_string(),
        version: version.to_string(),
        kernel: String::new(),
        revision: String::new(),
        created,
    }
}

fn variant(image: &str, features: &[&str]) -> Variant {
    Variant {
        image: image.to_string(),
        features: features.iter().map(|f| f.to_string()).collect(),
    }
}

fn strings(list: &[&str]) -> Vec<String> {
    list.iter().map(|s| s.to_string()).collect()
}

fn known_families() -> Vec<Family> {
    vec![
        Family {
            name: "Bluefin Stable".to_string(),
            org: "ublue-os".to_string(),
            base_image: "bluefin".to_string(),
            features: strings(&["dx", "nvidia", "open"]),
            variants: vec![
                variant("bluefin", &[]),
                variant("bluefin-dx", &["dx"]),
                variant("bluefin-nvidia", &["nvidia"]),
                variant("bluefin-nvidia-open", &["nvidia", "open"]),
                variant("bluefin-dx-nvidia", &["dx", "nvidia"]),
                variant("bluefin-dx-nvidia-open", &["dx", "nvidia", "open"]),
            ],
            streams: strings(&["stable", "latest"]),
        },
        Family {
            name: "Bluefin Dakota".to_string(),
            org: "projectbluefin".to_string(),
            base_image: "dakota".to_string(),
            features: strings(&["nvidia"]),
            variants: vec![variant("dakota", &[]), variant("dakota-nvidia", &["nvidia"])],
            streams: strings(&["latest"]),
        },
    ]
}

fn service(reg: Arc<FixtureRegistry>) -> BootcUpdaterService<Shared> {
    BootcUpdaterService::with_registry(Shared(reg), known_families())
}

fn dakota_ref() -> ImageRef {
    ImageRef {
        registry: "ghcr.io".to_string(),
        org: "projectbluefin".to_string(),
        image: "dakota".to_string(),
        tag: "latest".to_string(),
    }
}


#[test]
fn current_image_returns_booted_from_registry() {
    let reg = Arc::new(FixtureRegistry::new().with_booted(dakota_ref()));
    let svc = service(reg.clone());
    let got = svc.current_image().unwrap();
    assert_eq!(got, dakota_ref());
}

#[test]
fn current_image_not_found_when_registry_has_none() {
    let reg = Arc::new(FixtureRegistry::new());
    let svc = service(reg);
    let err = svc.current_image().unwrap_err();
    assert!(
        matches!(err, ServiceError::NotFound(_)),
        "expected NotFound, got {err:?}"
    );
}


#[test]
fn current_family_matches_dakota() {
    let reg = Arc::new(FixtureRegistry::new().with_booted(dakota_ref()));
    let svc = service(reg);
    let fam = svc
        .current_family()
        .expect("dakota in KNOWN");
    assert_eq!(fam.name, "Bluefin Dakota");
    assert_eq!(fam.base_image, "dakota");
    // Dakota has a single feature: nvidia.
    let ids: Vec<&str> = fam.features.iter().map(|f| f.id.as_str()).collect();
    assert_eq!(ids, vec!["nvidia"]);
    assert_eq!(fam.features[0].display_name, "NVIDIA drivers (proprietary)");
}

#[test]
fn current_family_matches_bluefin_stable_with_full_feature_slate() {
    let reg = Arc::new(FixtureRegistry::new().with_booted(ImageRef {
        registry: "ghcr.io".to_string(),
        org: "ublue-os".to_string(),
        image: "bluefin".to_string(),
        tag: "stable".to_string(),
    }));
    let svc = service(reg);
    let fam = svc
        .current_family()
        .expect("bluefin in KNOWN");
    assert_eq!(fam.name, "Bluefin Stable");
    // Should include at least nvidia, open, dx (alphabetical from
    // Family::available_features).
    let ids: Vec<&str> = fam.features.iter().map(|f| f.id.as_str()).collect();
    assert!(ids.contains(&"nvidia"), "features missing nvidia: {ids:?}");
    assert!(ids.contains(&"open"), "features missing open: {ids:?}");
    assert!(ids.contains(&"dx"), "features missing dx: {ids:?}");
}

#[test]
fn current_family_returns_none_for_unknown_image() {
    let reg = Arc::new(FixtureRegistry::new().with_booted(ImageRef {
        registry: "ghcr.io".to_string(),
        org: "some-other-org".to_string(),
        image: "random-image".to_string(),
        tag: "latest".to_string(),
    }));
    let svc = service(reg);
    assert!(svc.current_family().is_none());
}

#[test]
fn current_family_returns_none_when_nothing_booted() {
    let reg = Arc::new(FixtureRegistry::new());
    let svc = service(reg);
    assert!(svc.current_family().is_none());
}


#[test]
fn list_versions_returns_sorted_newest_first() {
    let img = dakota_ref();
    let reg = Arc::new(FixtureRegistry::new().with_versions(
        &img,
        vec![
            dummy_version(
                "2026-02-10",
                "0.1",
                "ghcr.io/projectbluefin/dakota:latest.20260210",
            ),
            dummy_version(
                "2026-02-12",
                "0.3",
                "ghcr.io/projectbluefin/dakota:latest.20260212",
            ),
            dummy_version(
                "2026-02-11",
                "0.2",
                "ghcr.io/projectbluefin/dakota:latest.20260211",
            ),
        ],
    ));
    let svc = service(reg);
    let got = svc.list_versions(&img, 8).unwrap();
    let dates: Vec<&str> = got.iter().map(|v| v.version.as_str()).collect();
    assert_eq!(dates, vec!["0.3", "0.2", "0.1"]);
}

#[test]
fn list_versions_truncates_to_max() {
    let img = dakota_ref();
    let mut versions = vec![];
    for day in 1..=15u32 {
        versions.push(dummy_version(
            &format!("2026-02-{:02}", day),
            &format!("0.{day}"),
            &format!("ghcr.io/projectbluefin/dakota:latest.202602{:02}", day),
        ));
    }
    let reg = Arc::new(FixtureRegistry::new().with_versions(&img, versions));
    let svc = service(reg);
    let got = svc.list_versions(&img, 8).unwrap();
    assert_eq!(got.len(), 8);
    // Confirm we got the 8 *newest* (days 8..=15), not the first 8.
    assert_eq!(got[0].version, "0.15");
    assert_eq!(got[7].version, "0.8");
}

#[test]
fn list_versions_propagates_registry_error() {
    let img = dakota_ref();
    // FixtureRegistry returns NotFound for unset images.
    let reg = Arc::new(FixtureRegistry::new());
    let svc = service(reg);
    let err = svc.list_versions(&img, 8).unwrap_err();
    assert!(matches!(err, ServiceError::NotFound(_)));
}

#[test]
fn list_versions_handles_empty_result() {
    let img = dakota_ref();
    let reg = Arc::new(FixtureRegistry::new().with_versions(&img, vec![]));
    let svc = service(reg);
    let got = svc.list_versions(&img, 8).unwrap();
    assert_eq!(got.len(), 0);
}


#[test]
fn resolve_target_routes_to_known_family() {
    let svc = service(Arc::new(FixtureRegistry::new()));
    let family = FamilyInfo {
        name: "Bluefin Stable".to_string(),
        base_image: "bluefin".to_string(),
        features: vec![],
        streams: vec![],
    };
    let r = svc
        .resolve_target(&family, &vec!["nvidia".to_string()])
        .unwrap();
    assert_eq!(r.image, "bluefin-nvidia");
}

#[test]
fn resolve_target_returns_none_for_unpublished_combo() {
    let svc = service(Arc::new(FixtureRegistry::new()));
    let family = FamilyInfo {
        name: "Bluefin Stable".to_string(),
        base_image: "bluefin".to_string(),
        features: vec![],
        streams: vec![],
    };
    // "open" alone (without nvidia) isn't a published Bluefin image.
    assert!(svc.resolve_target(&family, &vec!["open".to_string()]).is_none());
}

#[test]
fn resolve_target_handles_dakota_nvidia_combo() {
    // Verify the trimmed Dakota family resolves correctly — only
    // dakota and dakota-nvidia exist on GHCR.
    let svc = service(Arc::new(FixtureRegistry::new()));
    let family = FamilyInfo {
        name: "Bluefin Dakota".to_string(),
        base_image: "dakota".to_string(),
        features: vec![],
        streams: vec![],
    };
    let r = svc
        .resolve_target(&family, &vec!["nvidia".to_string()])
        .unwrap();
    assert_eq!(r.image, "dakota-nvidia");
    // dakota-dx is a ghost variant, must not resolve.
    assert!(svc.resolve_target(&family, &vec!["dx".to_string()]).is_none());
}

#[test]
fn resolve_target_returns_none_for_unknown_family_name() {
    let svc = service(Arc::new(FixtureRegistry::new()));
    let family = FamilyInfo {
        name: "Fictional Family".to_string(),
        base_image: "imaginary".to_string(),
        features: vec![],
        streams: vec![],
    };
    assert!(svc.resolve_target(&family, &vec![]).is_none());
}


#[test]
fn list_available_tags_returns_fixture_data() {
    let img = dakota_ref();
    let reg = Arc::new(FixtureRegistry::new().with_tags(
        &img,
        vec!["latest", "stable", "latest.20260212", "latest.20260211"],
    ));
    let svc = service(reg);
    let tags = svc.list_available_tags(&img).unwrap();
    assert_eq!(tags.len(), 4);
    assert_eq!(tags[0].display, "latest");
    assert_eq!(tags[0].raw, "latest");
}

#[test]
fn list_available_tags_propagates_not_found() {
    let img = dakota_ref();
    let reg = Arc::new(FixtureRegistry::new());
    let svc = service(reg);
    let err = svc.list_available_tags(&img).unwrap_err();
    assert!(matches!(err, ServiceError::NotFound(_)));
}

#[test]
fn list_available_tags_routes_through_registry_each_call() {
    let img = dakota_ref();
    let reg = Arc::new(FixtureRegistry::new().with_tags(&img, vec!["latest"]));
    let reg_clone = reg.clone();
    let svc = service(reg);
    let _ = svc.list_available_tags(&img).unwrap();
    let _ = svc.list_available_tags(&img).unwrap();
    let _ = svc.list_available_tags(&img).unwrap();
    assert_eq!(*reg_clone.list_tags_calls.lock().unwrap(), 3);
}


#[test]
fn switch_image_is_unsupported_until_phase2() {
    let svc = service(Arc::new(FixtureRegistry::new()));
    let err = svc.switch_image(&dakota_ref()).unwrap_err();
    assert!(matches!(err, ServiceError::Unsupported(_)));
}

#[test]
fn replies_are_judged_whatever_they_are() {
    assert_eq!(booted_image(Some(dakota_ref())), Ok(dakota_ref()));
    assert_eq!(
        booted_image(None).unwrap_err().message(),
        "not found: no booted image detected"
    );
    let kept = recent_versions(
        Ok(vec![
            dummy_version("2026-01-01", "a", ""),
            dummy_version("2026-01-02", "b", ""),
        ]),
        1,
    )
    .unwrap();
    assert_eq!(kept.len(), 1);
    assert_eq!(kept[0].version, "b");
    let e = recent_versions(Err(ServiceError::Io("disk".into())), 1).unwrap_err();
    assert_eq!(e.message(), "io: disk");
}

#[test]
fn error_texts_name_their_kind() {
    assert_eq!(ServiceError::Registry("a".into()).message(), "registry: a");
    assert_eq!(ServiceError::Unsupported("b".into()).message(), "unsupported: b");
}

#[test]
fn nested_images_keep_their_slashes() {
    let r = ImageRef::parse("ghcr.io/org/sub/image:tag").unwrap();
    assert_eq!(r.image, "sub/image");
    assert_eq!(r.as_string(), "ghcr.io/org/sub/image:tag");
}

#[test]
fn targets_use_the_chosen_or_the_first_stream() {
    let svc = service(Arc::new(FixtureRegistry::new()));
    let family = FamilyInfo {
        name: "Bluefin Stable".to_string(),
        base_image: "bluefin".to_string(),
        features: vec![],
        streams: vec![],
    };
    let want = vec!["open".to_string(), "nvidia".to_string()];
    assert_eq!(
        svc.resolve_target(&family, &want).unwrap().as_string(),
        "ghcr.io/ublue-os/bluefin-nvidia-open:latest"
    );
    let testing = FamilyInfo {
        streams: vec!["testing".to_string(), "stable".to_string()],
        ..family.clone()
    };
    assert_eq!(
        svc.resolve_target(&testing, &want).unwrap().as_string(),
        "ghcr.io/ublue-os/bluefin-nvidia-open:testing"
    );
    assert_eq!(
        svc.resolve_target_with_stream(&family, &want, "beta").unwrap().as_string(),
        "ghcr.io/ublue-os/bluefin-nvidia-open:beta"
    );
}

#[test]
fn image_is_detected_in_order() {
    let mock = MockBootcIdentity {
        registry: "ghcr.io".to_string(),
        org: "m".to_string(),
        image: "mock".to_string(),
        tag: "t".to_string(),
        digest: None,
        booted_at: None,
    };
    let env = Some("ghcr.io/e/env:t");
    let bootc = Some("ghcr.io/b/bootc:t");
    let os = || Some(dakota_ref());
    let image = |r: Option<ImageRef>| r.unwrap().image;
    assert_eq!(image(detect_image(Some(&mock), env, bootc, os())), "mock");
    assert_eq!(image(detect_image(None, env, bootc, os())), "env");
    assert_eq!(image(detect_image(None, Some("nonsense"), bootc, os())), "bootc");
    assert_eq!(image(detect_image(None, None, None, os())), "dakota");
    assert!(detect_image(None, None, None, None).is_none());
}

#[test]
fn name_of_the_system_stands_for_an_image() {
    let image = named_image(&known_families(), "dakota-nvidia").unwrap();
    assert_eq!(image.as_string(), "ghcr.io/projectbluefin/dakota-nvidia:latest");
    assert!(named_image(&known_families(), "fedora").is_none());
}
