use finupdate::ui::deployments::{
    get_cached_bootc_status, get_host_kernel, get_real_deployments, get_sample_deployments,
    read_bootc_status, StatusSource,
};

const STATUS: &str = r#"{
    "status": {
        "staged": {
            "image": {
                "image": {"image": "ghcr.io/projectbluefin/dakota-nvidia:latest"},
                "timestamp": "2026-05-30T02:20:28Z",
                "imageDigest": "sha256:cccc"
            }
        },
        "booted": {
            "image": {
                "image": {"image": "ghcr.io/projectbluefin/dakota:latest"},
                "version": "43.1",
                "timestamp": "2026-05-28T16:14:49Z",
                "imageDigest": "sha256:aaaa"
            },
            "pinned": true
        },
        "rollback": {
            "image": {
                "image": {"image": "ghcr.io/projectbluefin/dakota:stable"},
                "timestamp": null
            }
        }
    }
}"#;

#[test]
fn status_is_read_from_json() {
    let status = read_bootc_status(STATUS.as_bytes()).unwrap();
    let booted = status.booted.unwrap();
    assert_eq!(booted.version.as_deref(), Some("43.1"));
    assert_eq!(booted.digest.as_deref(), Some("sha256:aaaa"));
    assert_eq!(booted.pinned, Some(true));
    let rollback = status.rollback.unwrap();
    assert_eq!(rollback.timestamp, None);
    assert_eq!(rollback.pinned, None);
    assert!(read_bootc_status(b"{").is_none());
    assert!(read_bootc_status(b"{}").unwrap().booted.is_none());
}

#[test]
fn deployments_stand_in_order() {
    let rows = get_real_deployments(STATUS.as_bytes(), "6.17.7")
        .unwrap()
        .unwrap();
    let ids: Vec<&str> = rows.iter().map(|r| r.id.as_str()).collect();
    assert_eq!(ids, vec!["d-staged", "d-current", "d-rollback"]);
    assert_eq!(rows[1].kernel, "6.17.7");
    assert_eq!(rows[0].kernel, "—");
    assert!(rows[1].pinned && !rows[2].pinned);
    assert_eq!(rows[1].deployed_full, "Built: 2026-05-28");
    assert_eq!(rows[2].deployed_full, "Built: recently");
    assert_eq!(rows[1].signer, "projectbluefin (sigstore)");
    assert_eq!(rows[2].tag, "stable");
}

#[test]
fn documents_without_deployments() {
    assert_eq!(get_real_deployments(b"not json", "x"), Ok(None));
    assert_eq!(get_real_deployments(b"{\"status\":{}}", "x"), Ok(None));
    let bad = r#"{"status":{"booted":{"image":{"timestamp":"2026-05-3é"}}}}"#;
    assert!(get_real_deployments(bad.as_bytes(), "x").is_err());
    assert!(get_sample_deployments(None).is_empty());
}

#[test]
fn status_comes_from_somewhere() {
    assert!(matches!(
        get_cached_bootc_status(true, true, false),
        StatusSource::Nowhere
    ));
    assert!(matches!(
        get_cached_bootc_status(false, true, false),
        StatusSource::Cache
    ));
    assert!(matches!(
        get_cached_bootc_status(false, false, true),
        StatusSource::Command(argv) if argv.join(" ") == "flatpak-spawn --host bootc status --json"
    ));
}

#[test]
fn kernel_of_the_host() {
    assert_eq!(get_host_kernel(Some("6.17.7\n")), "6.17.7");
    assert_eq!(get_host_kernel(Some("\n")), "—");
    assert_eq!(get_host_kernel(None), "—");
}
