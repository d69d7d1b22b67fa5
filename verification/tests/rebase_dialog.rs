use finupdate::registry_client::{Family, Variant};
use finupdate::service::{FamilyInfo, ImageRef};
use finupdate::ui::rebase_dialog::{
    derive_initial_toggle_state, parse_bootc_progress, resolve_dx_nvidia,
    resolve_dx_nvidia_with_stream, resolve_target_ref, BootcProgress,
};

fn variant(image: &str, features: &[&str]) -> Variant {
    Variant {
        image: image.to_string(),
        features: features.iter().map(|f| f.to_string()).collect(),
    }
}

fn strings(list: &[&str]) -> Vec<String> {
    list.iter().map(|s| s.to_string()).collect()
}

fn families() -> Vec<Family> {
    vec![
        Family {
            name: "Bluefin Stable".to_string(),
            org: "ublue-os".to_string(),
            base_image: "bluefin".to_string(),
            features: strings(&["dx", "nvidia", "open"]),
            variants: vec![
                variant("bluefin", &[]),
                variant("bluefin-dx", &["dx"]),
                variant("bluefin-nvidia", &["nvidia"]),
                variant("bluefin-nvidia-open", &["nvidia", "open"]),
                variant("bluefin-dx-nvidia", &["dx", "nvidia"]),
                variant("bluefin-dx-nvidia-open", &["dx", "nvidia", "open"]),
            ],
            streams: strings(&["stable", "latest"]),
        },
        Family {
            name: "Bluefin Dakota".to_string(),
            org: "projectbluefin".to_string(),
            base_image: "dakota".to_string(),
            features: strings(&["nvidia"]),
            variants: vec![variant("dakota", &[]), variant("dakota-nvidia", &["nvidia"])],
            streams: strings(&["latest"]),
        },
        Family {
            name: "Bazzite KDE".to_string(),
            org: "ublue-os".to_string(),
            base_image: "bazzite".to_string(),
            features: strings(&["nvidia", "open"]),
            variants: vec![
                variant("bazzite", &[]),
                variant("bazzite-nvidia", &["nvidia"]),
                variant("bazzite-nvidia-open", &["nvidia", "open"]),
            ],
            streams: strings(&["stable"]),
        },
    ]
}

fn bluefin_stable_info() -> FamilyInfo {
    FamilyInfo {
        name: "Bluefin Stable".to_string(),
        base_image: "bluefin".to_string(),
        features: vec![],
        streams: vec![],
    }
}

#[test]
fn resolve_passthrough_with_no_family() {
    let r = resolve_target_ref(&families(), "ghcr.io/ublue-os/bluefin:stable-daily-43.20260527", None, &vec![]);
    assert_eq!(r, "ghcr.io/ublue-os/bluefin:stable-daily-43.20260527");
}

#[test]
fn resolve_no_features_keeps_base_image() {
    let fam = bluefin_stable_info();
    let r = resolve_target_ref(&families(), "ghcr.io/ublue-os/bluefin:stable-daily-43.20260527", Some(&fam), &vec![]);
    assert_eq!(r, "ghcr.io/ublue-os/bluefin:stable-daily-43.20260527");
}

#[test]
fn resolve_swaps_image_to_nvidia_variant() {
    let fam = bluefin_stable_info();
    let r = resolve_target_ref(&families(), "ghcr.io/ublue-os/bluefin:stable-daily-43.20260527", Some(&fam), &vec!["nvidia".to_string()]);
    assert_eq!(
        r,
        "ghcr.io/ublue-os/bluefin-nvidia:stable-daily-43.20260527"
    );
}

#[test]
fn resolve_combines_dx_and_nvidia() {
    let fam = bluefin_stable_info();
    let r = resolve_target_ref(&families(), "ghcr.io/ublue-os/bluefin:stable", Some(&fam), &vec!["dx".to_string(), "nvidia".to_string()]);
    assert_eq!(r, "ghcr.io/ublue-os/bluefin-dx-nvidia:stable");
}

#[test]
fn resolve_unpublished_combination_falls_back() {
    // "open" alone (without nvidia) isn't a published image — keep the
    // original ref so we don't pkexec a bogus bootc switch.
    let fam = bluefin_stable_info();
    let original = "ghcr.io/ublue-os/bluefin:stable";
    let r = resolve_target_ref(&families(), original, Some(&fam), &vec!["open".to_string()]);
    assert_eq!(r, original);
}

#[test]
fn resolve_handles_missing_tag() {
    // Defensive: a malformed ref with no ':' should pass through.
    let fam = bluefin_stable_info();
    let r = resolve_target_ref(&families(), "ghcr.io/ublue-os/bluefin", Some(&fam), &vec!["nvidia".to_string()]);
    assert_eq!(r, "ghcr.io/ublue-os/bluefin");
}

// ── resolve_dx_nvidia ────────────────────────────────────────────────
// Pins the toggle-to-features fallback chain so the two-switch UI
// (Developer Mode + NVIDIA) lands on the right image per family.

fn dakota_info() -> FamilyInfo {
    FamilyInfo {
        name: "Bluefin Dakota".to_string(),
        base_image: "dakota".to_string(),
        features: vec![],
        streams: vec![],
    }
}

fn bazzite_kde_info() -> FamilyInfo {
    FamilyInfo {
        name: "Bazzite KDE".to_string(),
        base_image: "bazzite".to_string(),
        features: vec![],
        streams: vec![],
    }
}

#[test]
fn dx_nvidia_both_off_returns_base() {
    let (feats, img) = resolve_dx_nvidia(&families(), &bluefin_stable_info(), false, false);
    assert_eq!(feats, Vec::<String>::new());
    assert_eq!(img.unwrap().image, "bluefin");
}

#[test]
fn dx_nvidia_dx_only_resolves_dx() {
    let (feats, img) = resolve_dx_nvidia(&families(), &bluefin_stable_info(), true, false);
    assert_eq!(feats, vec!["dx".to_string()]);
    assert_eq!(img.unwrap().image, "bluefin-dx");
}

#[test]
fn dx_nvidia_nvidia_only_on_bluefin_prefers_open() {
    // Bluefin's plain -nvidia is deprecated; the toggle should land on
    // -nvidia-open (the current variant).
    let (feats, img) = resolve_dx_nvidia(&families(), &bluefin_stable_info(), false, true);
    assert_eq!(feats, vec!["nvidia".to_string(), "open".to_string()]);
    assert_eq!(img.unwrap().image, "bluefin-nvidia-open");
}

#[test]
fn dx_nvidia_both_on_bluefin_yields_dx_nvidia_open() {
    let (feats, img) = resolve_dx_nvidia(&families(), &bluefin_stable_info(), true, true);
    assert_eq!(
        feats,
        vec!["dx".to_string(), "nvidia".to_string(), "open".to_string()]
    );
    assert_eq!(img.unwrap().image, "bluefin-dx-nvidia-open");
}

#[test]
fn dx_nvidia_nvidia_on_dakota_falls_back_to_plain_nvidia() {
    // Dakota has no -nvidia-open variant published; the first probe
    // (`["nvidia", "open"]`) misses, the fallback (`["nvidia"]`)
    // lands on dakota-nvidia.
    let (feats, img) = resolve_dx_nvidia(&families(), &dakota_info(), false, true);
    assert_eq!(feats, vec!["nvidia".to_string()]);
    assert_eq!(img.unwrap().image, "dakota-nvidia");
}

#[test]
fn dx_nvidia_nvidia_on_bazzite_prefers_open() {
    // Bazzite KDE publishes both bazzite-nvidia AND bazzite-nvidia-open.
    // The resolver's -open-first preference picks the latter. Pin this
    // so a future KNOWN_FAMILIES trim (dropping plain -nvidia) doesn't
    // silently change which variant new users land on.
    let (feats, img) = resolve_dx_nvidia(&families(), &bazzite_kde_info(), false, true);
    assert_eq!(feats, vec!["nvidia".to_string(), "open".to_string()]);
    assert_eq!(img.unwrap().image, "bazzite-nvidia-open");
}

#[test]
fn dx_nvidia_dx_on_dakota_has_no_published_image() {
    // Dakota has no -dx variant — the resolver returns None, the UI
    // shows the "doesn't match any published image" subtitle.
    let (feats, img) = resolve_dx_nvidia(&families(), &dakota_info(), true, false);
    assert_eq!(feats, vec!["dx".to_string()]);
    assert!(img.is_none());
}

// ── derive_initial_toggle_state ──────────────────────────────────────
// The dialog must open with toggles reflecting the booted variant so a
// user already on -dx-nvidia-open doesn't think rebasing would downgrade.

fn image_ref(image: &str) -> ImageRef {
    ImageRef {
        registry: "ghcr.io".to_string(),
        org: "ublue-os".to_string(),
        image: image.to_string(),
        tag: "stable".to_string(),
    }
}

#[test]
fn initial_toggles_no_image_returns_off() {
    let (dx, nvidia) = derive_initial_toggle_state(&bluefin_stable_info(), None);
    assert!(!dx);
    assert!(!nvidia);
}

#[test]
fn initial_toggles_base_image_returns_off() {
    let img = image_ref("bluefin");
    let (dx, nvidia) = derive_initial_toggle_state(&bluefin_stable_info(), Some(&img));
    assert!(!dx);
    assert!(!nvidia);
}

#[test]
fn initial_toggles_dx_only() {
    let img = image_ref("bluefin-dx");
    let (dx, nvidia) = derive_initial_toggle_state(&bluefin_stable_info(), Some(&img));
    assert!(dx);
    assert!(!nvidia);
}

#[test]
fn initial_toggles_plain_nvidia() {
    let img = image_ref("bluefin-nvidia");
    let (dx, nvidia) = derive_initial_toggle_state(&bluefin_stable_info(), Some(&img));
    assert!(!dx);
    assert!(nvidia);
}

#[test]
fn initial_toggles_nvidia_open() {
    let img = image_ref("bluefin-nvidia-open");
    let (dx, nvidia) = derive_initial_toggle_state(&bluefin_stable_info(), Some(&img));
    assert!(!dx);
    assert!(nvidia);
}

#[test]
fn initial_toggles_dx_and_nvidia_open() {
    let img = image_ref("bluefin-dx-nvidia-open");
    let (dx, nvidia) = derive_initial_toggle_state(&bluefin_stable_info(), Some(&img));
    assert!(dx);
    assert!(nvidia);
}

#[test]
fn initial_toggles_unrelated_image_returns_off() {
    // Booted image's name doesn't share the family's base prefix — could
    // happen if KNOWN_FAMILIES drifts vs reality. Show off rather than
    // lie about state.
    let img = image_ref("aurora-dx");
    let (dx, nvidia) = derive_initial_toggle_state(&bluefin_stable_info(), Some(&img));
    assert!(!dx);
    assert!(!nvidia);
}

// ── parse_bootc_progress ─────────────────────────────────────────────
// Pins the bootc-switch stdout/stderr parsing so the layer-by-layer
// progress bar keeps working when bootc's output format drifts (or so we
// notice when it does).

#[test]
fn progress_parses_layer_ratio() {
    let r = parse_bootc_progress("Layer 3/12 sha256:abc...");
    assert_eq!(
        r,
        Some(BootcProgress::Fraction {
            current: 3,
            total: 12
        })
    );
}

#[test]
fn progress_parses_pulled_ratio_phrasing() {
    let r = parse_bootc_progress("Pulled 8/8 layers");
    assert_eq!(
        r,
        Some(BootcProgress::Fraction {
            current: 8,
            total: 8
        })
    );
}

#[test]
fn progress_extracts_ratio_anywhere_in_line() {
    // Containers-image style: "Copying blob abc 5/12 (...) ETA 30s"
    let r = parse_bootc_progress("Copying blob abc 5/12 12.3 MiB / 30 MiB");
    assert_eq!(
        r,
        Some(BootcProgress::Fraction {
            current: 5,
            total: 12
        })
    );
}

#[test]
fn progress_rejects_zero_total() {
    // 0/0 isn't a valid fraction; ignore so we don't divide by zero later.
    assert_eq!(parse_bootc_progress("0/0 something"), None);
}

#[test]
fn progress_rejects_inverted_ratio() {
    // current > total is nonsense — likely matched something unrelated
    // like a file size; bail rather than show "150% complete".
    assert_eq!(parse_bootc_progress("Copying 100/5 something"), None);
}

#[test]
fn progress_rejects_huge_denominator() {
    // Byte counts ("12345/67890 bytes") would set the bar bouncing all
    // over. Cap total at 1000 — no bootc image has that many layers.
    assert_eq!(parse_bootc_progress("123/45678 bytes"), None);
}

#[test]
fn progress_returns_status_for_pulling_lines() {
    let r = parse_bootc_progress("Pulling manifest from ghcr.io/...");
    assert_eq!(
        r,
        Some(BootcProgress::Status(
            "Pulling new image layers…".to_string()
        ))
    );
}

#[test]
fn progress_returns_status_for_staging_lines() {
    let r = parse_bootc_progress("Staging deployment for switch");
    assert_eq!(
        r,
        Some(BootcProgress::Status("Staging deployment…".to_string()))
    );
}

#[test]
fn progress_prefers_fraction_over_status_when_both_match() {
    // "Pulling 4/8 layers" — first word matches a status, but the ratio
    // is the more useful signal; ensure we don't lose it.
    let r = parse_bootc_progress("Pulling 4/8 layers");
    assert_eq!(
        r,
        Some(BootcProgress::Fraction {
            current: 4,
            total: 8
        })
    );
}

#[test]
fn progress_ignores_unrelated_lines() {
    assert_eq!(parse_bootc_progress(""), None);
    assert_eq!(parse_bootc_progress("   "), None);
    assert_eq!(parse_bootc_progress("info: starting bootc switch"), None);
}

#[test]
fn initial_toggles_dakota_plain_nvidia() {
    // Dakota's -nvidia variant — no -open suffix, but still "NVIDIA on".
    let img = ImageRef {
        registry: "ghcr.io".to_string(),
        org: "projectbluefin".to_string(),
        image: "dakota-nvidia".to_string(),
        tag: "latest".to_string(),
    };
    let (dx, nvidia) = derive_initial_toggle_state(&dakota_info(), Some(&img));
    assert!(!dx);
    assert!(nvidia);
}

#[test]
fn progress_parses_spelled_out_layers() {
    assert_eq!(
        parse_bootc_progress("3 of 12 layers pulled"),
        Some(BootcProgress::Fraction {
            current: 3,
            total: 12
        })
    );
}

#[test]
fn unpublished_target_keeps_the_build() {
    let fam = dakota_info();
    let full = "ghcr.io/projectbluefin/dakota:latest-20260527";
    assert_eq!(
        resolve_target_ref(&families(), full, Some(&fam), &vec!["dx".to_string()]),
        full
    );
}

#[test]
fn stream_becomes_the_tag() {
    let (feats, img) =
        resolve_dx_nvidia_with_stream(&families(), &bluefin_stable_info(), false, true, "latest");
    assert_eq!(feats, vec!["nvidia", "open"]);
    let img = img.unwrap();
    assert_eq!(img.image, "bluefin-nvidia-open");
    assert_eq!(img.tag, "latest");
}
