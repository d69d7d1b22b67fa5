use finupdate::ui::deployments::{
    get_real_deployments_from_json, parse_booted_image_summary, read_bootc_status,
    timestamps_have_days, BootcStatus, MockDeployment,
};
use finupdate::ui::image_info::{
    parse_image_ref_fields, parse_org_repo, parse_os_release_field, strip_date_suffix,
};

fn status(doc: &str) -> BootcStatus {
    read_bootc_status(doc.as_bytes()).expect("is JSON")
}

fn deployments(doc: &str) -> Option<Vec<MockDeployment>> {
    let status = status(doc);
    assert!(timestamps_have_days(&status));
    get_real_deployments_from_json(&status, "6.17.7")
}

// ── parse_booted_image_summary ───────────────────────────────────────
// Pure JSON-shape tests for the hero-row subtitle helper. The bootc
// status JSON shape is `{ "status": { "booted": { "image": { ... } } } }`.

#[test]
fn booted_summary_with_version_and_digest() {
    let j = status(r#"{
        "status": {
            "booted": {
                "image": {
                    "version": "43.20260527.0",
                    "imageDigest": "sha256:abcdef1234567890"
                }
            }
        }
    }"#);
    assert_eq!(
        parse_booted_image_summary(&j),
        Some("43.20260527.0  ·  shaabcdef12".to_string())
    );
}

#[test]
fn booted_summary_with_version_only() {
    let j = status(r#"{
        "status": { "booted": { "image": { "version": "43.20260527.0" } } }
    }"#);
    assert_eq!(
        parse_booted_image_summary(&j),
        Some("43.20260527.0".to_string())
    );
}

#[test]
fn booted_summary_with_digest_only() {
    let j = status(r#"{
        "status": {
            "booted": { "image": { "imageDigest": "sha256:cafe1234ffff5678" } }
        }
    }"#);
    assert_eq!(
        parse_booted_image_summary(&j),
        Some("shacafe1234".to_string())
    );
}

#[test]
fn booted_summary_handles_unprefixed_digest() {
    // Some bootc versions emit the digest without the `sha256:` prefix.
    let j = status(r#"{
        "status": {
            "booted": { "image": { "imageDigest": "00ff11ee22dd33cc" } }
        }
    }"#);
    assert_eq!(
        parse_booted_image_summary(&j),
        Some("sha00ff11ee".to_string())
    );
}

#[test]
fn booted_summary_missing_booted_returns_none() {
    let j = status(r#"{ "status": {} }"#);
    assert_eq!(parse_booted_image_summary(&j), None);
}

#[test]
fn booted_summary_empty_image_returns_none() {
    let j = status(r#"{ "status": { "booted": { "image": {} } } }"#);
    assert_eq!(parse_booted_image_summary(&j), None);
}

// ── parse_os_release_field ───────────────────────────────────────────

const SAMPLE_OS_RELEASE: &str = r#"NAME="Bluefin Dakota"
PRETTY_NAME="Bluefin Dakota"
ID=dakota
VERSION_ID="43"
IMAGE_ID=dakota
VARIANT_ID=dakota
LOGO=bluefin
"#;

#[test]
fn os_release_pretty_name_unquoted() {
    assert_eq!(
        parse_os_release_field(SAMPLE_OS_RELEASE, "PRETTY_NAME"),
        Some("Bluefin Dakota".to_string())
    );
}

#[test]
fn os_release_unquoted_value() {
    assert_eq!(
        parse_os_release_field(SAMPLE_OS_RELEASE, "ID"),
        Some("dakota".to_string())
    );
}

#[test]
fn os_release_missing_key_returns_none() {
    assert_eq!(
        parse_os_release_field(SAMPLE_OS_RELEASE, "BUILD_ID"),
        None
    );
}

#[test]
fn os_release_empty_value_skipped() {
    // VARIANT="" should NOT be returned — empty strings aren't useful.
    let content = "ID=fedora\nVARIANT=\"\"\nLOGO=fedora\n";
    assert_eq!(parse_os_release_field(content, "VARIANT"), None);
    // But ID still wins.
    assert_eq!(parse_os_release_field(content, "ID"), Some("fedora".to_string()));
}

#[test]
fn os_release_first_match_wins() {
    // os-release CAN have duplicate keys in pathological cases — first
    // occurrence wins (matches the read order).
    let content = "ID=first\nID=second\n";
    assert_eq!(parse_os_release_field(content, "ID"), Some("first".to_string()));
}

// ── strip_date_suffix ────────────────────────────────────────────────

#[test]
fn strip_date_suffix_dot_form() {
    assert_eq!(
        strip_date_suffix("stable-daily-43.20260527"),
        Some("stable-daily-43".to_string())
    );
}

#[test]
fn strip_date_suffix_dash_form() {
    assert_eq!(
        strip_date_suffix("lts-hwe-20260224"),
        Some("lts-hwe".to_string())
    );
}

#[test]
fn strip_date_suffix_rejects_too_short() {
    assert_eq!(strip_date_suffix("stable-2026"), None);
}

#[test]
fn strip_date_suffix_rejects_non_digits() {
    assert_eq!(strip_date_suffix("stable-20260abc"), None);
}

#[test]
fn strip_date_suffix_rejects_no_separator() {
    assert_eq!(strip_date_suffix("stable20260527"), None);
}

#[test]
fn strip_date_suffix_bare_date_returns_none() {
    // 20260527 alone is 8 digits but has no separator — so strip can't
    // detect where to split. The bare-date case is owned by
    // parse_dated_tag with stream==""; strip_date_suffix only handles
    // prefixed forms.
    assert_eq!(strip_date_suffix("20260527"), None);
}

// ── parse_image_ref_fields ───────────────────────────────────────────

#[test]
fn parse_image_ref_fields_empty_returns_placeholders() {
    let (name, tag, org) = parse_image_ref_fields("");
    assert_eq!(name, "Unknown");
    assert_eq!(tag, "latest");
    assert_eq!(org, "unknown");
}

#[test]
fn parse_image_ref_fields_full_ref() {
    let (name, tag, org) = parse_image_ref_fields("ghcr.io/ublue-os/bluefin:stable");
    assert_eq!(name, "bluefin");
    assert_eq!(tag, "stable");
    assert_eq!(org, "ublue-os");
}

#[test]
fn parse_image_ref_fields_no_colon_defaults_to_latest() {
    let (name, tag, org) = parse_image_ref_fields("ghcr.io/projectbluefin/dakota");
    assert_eq!(name, "dakota");
    assert_eq!(tag, "latest");
    assert_eq!(org, "projectbluefin");
}

#[test]
fn parse_image_ref_fields_single_segment() {
    let (name, tag, org) = parse_image_ref_fields("standalone");
    assert_eq!(name, "standalone");
    assert_eq!(tag, "latest");
    assert_eq!(org, "unknown");
}

// ── parse_org_repo ───────────────────────────────────────────────────

#[test]
fn parse_org_repo_ghcr_three_parts() {
    let r = parse_org_repo("ghcr.io/ublue-os/bluefin");
    assert_eq!(r, Some(("ublue-os".to_string(), "bluefin".to_string())));
}

#[test]
fn parse_org_repo_two_parts() {
    // No registry prefix — treat as org/repo directly.
    let r = parse_org_repo("ublue-os/bluefin");
    assert_eq!(r, Some(("ublue-os".to_string(), "bluefin".to_string())));
}

#[test]
fn parse_org_repo_strips_docker_prefix() {
    let r = parse_org_repo("docker://ghcr.io/ublue-os/bluefin");
    assert_eq!(r, Some(("ublue-os".to_string(), "bluefin".to_string())));
}

#[test]
fn parse_org_repo_handles_nested_path() {
    // GHCR allows nested paths like /org/sub/image. We keep everything
    // past the first split as the repo so downstream code can construct
    // a valid GitHub URL.
    let r = parse_org_repo("ghcr.io/ublue-os/sub/bluefin");
    assert_eq!(r, Some(("ublue-os".to_string(), "sub/bluefin".to_string())));
}

#[test]
fn parse_org_repo_rejects_single_segment() {
    assert!(parse_org_repo("bluefin").is_none());
}

// ── get_real_deployments_from_json ───────────────────────────────────
// Validates the parsing that turns a bootc-status JSON blob into a
// list of MockDeployment rows for the history page.

#[test]
fn deployments_parses_booted_only() {
    // get_real_deployments_from_json uses the "current"/"previous"/
    // "staged" labels — matching the home-page UI's history row badges
    // — instead of the raw bootc terms. The mapping:
    //    status.booted   → state="current"  (the row badged "Active")
    //    status.rollback → state="previous"
    //    status.staged   → state="staged"
    let json = r#"{
        "status": {
            "booted": {
                "image": {
                    "image": {"image": "ghcr.io/projectbluefin/dakota:latest"},
                    "timestamp": "2026-05-28T16:14:49Z",
                    "imageDigest": "sha256:baea47c64413bc61a6901e99ceb052bee843d05d406fe33513497863074d84ef"
                }
            }
        }
    }"#;
    let deps = deployments(json).expect("parses");
    assert_eq!(deps.len(), 1);
    assert_eq!(deps[0].state, "current");
    assert_eq!(deps[0].title, "dakota");
    assert_eq!(deps[0].tag, "latest");
}

#[test]
fn deployments_parses_booted_and_rollback() {
    let json = r#"{
        "status": {
            "booted": {
                "image": {
                    "image": {"image": "ghcr.io/projectbluefin/dakota:latest"},
                    "timestamp": "2026-05-28T16:14:49Z",
                    "imageDigest": "sha256:aaaa"
                }
            },
            "rollback": {
                "image": {
                    "image": {"image": "ghcr.io/projectbluefin/dakota:latest"},
                    "timestamp": "2026-05-27T14:21:59Z",
                    "imageDigest": "sha256:bbbb"
                }
            }
        }
    }"#;
    let deps = deployments(json).expect("parses");
    let states: Vec<&str> = deps.iter().map(|d| d.state.as_str()).collect();
    assert!(states.contains(&"current"), "states: {states:?}");
    assert!(states.contains(&"previous"), "states: {states:?}");
    assert_eq!(deps.len(), 2);
}

#[test]
fn deployments_parses_staged_first() {
    // The function emits in fixed order: staged, current, previous. So
    // even though staged represents "the next boot", it appears first
    // in the result vector. Verify that ordering.
    let json = r#"{
        "status": {
            "staged": {
                "image": {
                    "image": {"image": "ghcr.io/projectbluefin/dakota-nvidia:latest"},
                    "timestamp": "2026-05-30T02:20:28Z",
                    "imageDigest": "sha256:cccc"
                }
            },
            "booted": {
                "image": {
                    "image": {"image": "ghcr.io/projectbluefin/dakota:latest"},
                    "timestamp": "2026-05-28T16:14:49Z",
                    "imageDigest": "sha256:aaaa"
                }
            }
        }
    }"#;
    let deps = deployments(json).expect("parses");
    assert_eq!(deps.len(), 2);
    assert_eq!(deps[0].state, "staged");
    assert_eq!(deps[0].title, "dakota-nvidia");
    assert_eq!(deps[1].state, "current");
}

#[test]
fn deployments_returns_none_for_empty_status() {
    let json = r#"{"status": {}}"#;
    // No booted entry → can't surface anything useful.
    assert!(deployments(json).is_none());
}

#[test]
fn deployments_returns_none_when_status_missing() {
    let json = r#"{"apiVersion": "v1"}"#;
    assert!(deployments(json).is_none());
}
