use finupdate::sbom_diff::{
    cache_dir, cache_path, collect_packages, diff_packages, diff_sboms, fallback_tag,
    find_spdx_referrer, references, referrers_url, token_url, PackageDiff, PackageMap,
    ReferrerEntry, SpdxPackage, SPDX_ARTIFACT_TYPE,
};

fn map(entries: &[(&str, &str)]) -> PackageMap {
    let mut m = PackageMap::new();
    for (name, version) in entries {
        m.insert(name.to_string(), version.to_string());
    }
    m
}

#[test]
fn diff_identical_maps_yields_no_changes() {
    let m = map(&[("kernel", "7.0.7"), ("bash", "5.2.32")]);
    let result = diff_packages(&m, &m);
    assert!(result.upgraded.is_empty());
    assert!(result.added.is_empty());
    assert!(result.removed.is_empty());
}

#[test]
fn diff_detects_version_upgrade() {
    let booted = map(&[("kernel", "7.0.6")]);
    let target = map(&[("kernel", "7.0.7")]);
    let r = diff_packages(&booted, &target);
    assert_eq!(
        r.upgraded,
        vec![PackageDiff {
            name: "kernel".into(),
            old_version: "7.0.6".into(),
            new_version: "7.0.7".into(),
        }]
    );
    assert!(r.added.is_empty());
    assert!(r.removed.is_empty());
}

#[test]
fn diff_detects_added_and_removed_packages() {
    let booted = map(&[("kernel", "7.0.6"), ("old-tool", "1.0")]);
    let target = map(&[("kernel", "7.0.6"), ("new-tool", "2.0")]);
    let r = diff_packages(&booted, &target);
    assert!(r.upgraded.is_empty());
    assert_eq!(r.removed, vec!["old-tool".to_string()]);
    assert_eq!(
        r.added,
        vec![PackageDiff {
            name: "new-tool".into(),
            old_version: String::new(),
            new_version: "2.0".into(),
        }]
    );
}

#[test]
fn diff_outputs_are_sorted_alphabetically() {
    let booted = map(&[("zlib", "1.3"), ("apr", "1.7"), ("middle", "1.0")]);
    let target = map(&[("zlib", "1.4"), ("apr", "1.8"), ("middle", "1.0")]);
    let r = diff_packages(&booted, &target);
    let names: Vec<_> = r.upgraded.iter().map(|p| p.name.as_str()).collect();
    assert_eq!(names, vec!["apr", "zlib"]);
}

#[test]
fn diff_unchanged_package_excluded_from_upgraded() {
    let booted = map(&[("stable", "1.0"), ("changed", "1.0")]);
    let target = map(&[("stable", "1.0"), ("changed", "2.0")]);
    let r = diff_packages(&booted, &target);
    assert_eq!(r.upgraded.len(), 1);
    assert_eq!(r.upgraded[0].name, "changed");
}

#[test]
fn cache_path_replaces_colons() {
    let p = cache_path("/home/u/.cache/finupdate/sbom-cache", "sha256:abc123");
    assert!(p.ends_with("sha256_abc123"));
}

#[test]
fn diffs_mirror() {
    let a = map(&[("x", "1"), ("gone", "1")]);
    let b = map(&[("x", "2"), ("new", "3")]);
    let there = diff_packages(&a, &b);
    let back = diff_packages(&b, &a);
    assert_eq!(there.removed, vec!["gone".to_string()]);
    assert_eq!(back.added[0].name, "gone");
    assert_eq!(back.removed, vec!["new".to_string()]);
    assert_eq!(there.added[0].name, "new");
    assert_eq!(there.upgraded.len(), back.upgraded.len());
    assert_eq!(there.upgraded[0].name, back.upgraded[0].name);
    assert_eq!(there.upgraded[0].old_version, back.upgraded[0].new_version);
    assert_eq!(there.upgraded[0].new_version, back.upgraded[0].old_version);
    assert_eq!(
        a.len() - there.removed.len() + there.added.len(),
        b.len()
    );
}

#[test]
fn later_entries_replace_earlier_ones() {
    let list = vec![
        SpdxPackage { name: "kernel".into(), version_info: Some("1".into()) },
        SpdxPackage { name: "mystery".into(), version_info: None },
        SpdxPackage { name: "kernel".into(), version_info: Some("2".into()) },
    ];
    let m = collect_packages(&list);
    assert_eq!(m.len(), 2);
    assert_eq!(m.get("kernel"), Some(&"2".to_string()));
    assert_eq!(m.get("mystery"), Some(&"unknown".to_string()));
    assert_eq!(m.get("absent"), None);
}

#[test]
fn a_missing_sbom_gives_no_diff() {
    assert!(diff_sboms(None, Some(map(&[]))).is_none());
    assert!(diff_sboms(Some(map(&[])), None).is_none());
    assert!(diff_sboms(Some(map(&[])), Some(map(&[("a", "1")]))).is_some());
}

#[test]
fn references_are_parsed_as_images() {
    let (b, t) = references("ghcr.io/ublue-os/bluefin:stable", "ghcr.io/ublue-os/bluefin:latest")
        .unwrap();
    assert_eq!(b.registry, "ghcr.io");
    assert_eq!(b.repository, "ublue-os/bluefin");
    assert_eq!(b.tag.as_deref(), Some("stable"));
    assert_eq!(t.tag.as_deref(), Some("latest"));
    assert!(references("not a ref", "ghcr.io/a/b:c").is_none());
    assert!(references("ghcr.io/a/b:c", "UPPER CASE").is_none());
}

#[test]
fn urls_of_the_referrers_api() {
    let (b, _) = references("ghcr.io/a/b:c", "ghcr.io/a/b:c").unwrap();
    assert_eq!(
        referrers_url(&b, "sha256:00"),
        "https://ghcr.io/v2/a/b/manifests/sha256-00"
    );
    assert_eq!(fallback_tag("sha256:00"), "sha256-00");
    assert_eq!(
        token_url(&b).as_deref(),
        Some("https://ghcr.io/token?service=ghcr.io&scope=repository:a/b:pull")
    );
    let (q, _) = references("quay.io/a/b:c", "quay.io/a/b:c").unwrap();
    assert!(token_url(&q).is_none());
}

#[test]
fn the_first_spdx_referrer_is_taken() {
    let e = |t: &str, d: &str| ReferrerEntry {
        artifact_type: Some(t.to_string()),
        digest: d.to_string(),
    };
    let list = vec![
        e("application/other", "sha256:1"),
        e(SPDX_ARTIFACT_TYPE, "sha256:2"),
        e(SPDX_ARTIFACT_TYPE, "sha256:3"),
    ];
    assert_eq!(find_spdx_referrer(&list).as_deref(), Some("sha256:2"));
    assert!(find_spdx_referrer(&vec![]).is_none());
}

#[test]
fn cache_directory_follows_the_environment() {
    assert_eq!(
        cache_dir(Some("/x".into()), Some("/home/u".into())),
        "/x/finupdate/sbom-cache"
    );
    assert_eq!(cache_dir(None, None), "/tmp/.cache/finupdate/sbom-cache");
    assert_eq!(
        cache_dir(None, Some("/home/u".into())),
        "/home/u/.cache/finupdate/sbom-cache"
    );
}
