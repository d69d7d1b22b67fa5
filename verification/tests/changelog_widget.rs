use finupdate::calendar::{CalendarDate, Moment};
use finupdate::changelog_widget::{
    build_stack_items, hero_row, host_kernel_string, no_stack_row, package_groups,
    render_stack_items, sbom_diff_for_panel, stack_result, SbomResult, StackResult,
};
use finupdate::registry_client::ImageVersion;
use finupdate::sbom_diff::{PackageDiff, SbomDiffResult};
use finupdate::service::{ImageRef, ServiceError};
use finupdate::ui::status_pages::short_sha;

fn fake_iv(version: &str, kernel: &str, revision: &str) -> ImageVersion {
    let date = CalendarDate::from_ymd_opt(2026, 5, 30).unwrap();
    ImageVersion {
        date,
        full_ref: format!("ghcr.io/example/image:{version}"),
        version: version.to_string(),
        kernel: kernel.to_string(),
        revision: revision.to_string(),
        created: Moment::at(&date, 0, 0).unwrap(),
    }
}

#[test]
fn short_sha_truncates_at_seven() {
    assert_eq!(short_sha("abcdef0123456789"), "abcdef0");
}

#[test]
fn short_sha_short_input_returns_as_is() {
    assert_eq!(short_sha("abc"), "abc");
}

#[test]
fn stack_items_omits_kernel_when_both_empty() {
    let booted = fake_iv("a", "", "abc1234");
    let target = fake_iv("b", "", "def5678");
    let items = build_stack_items(Some(&booted), &target, None);
    assert!(!items.iter().any(|i| i.label == "Kernel"));
}

#[test]
fn stack_items_includes_kernel_when_host_falls_back() {
    let booted = fake_iv("a", "", "abc1234");
    let target = fake_iv("b", "", "def5678");
    let items = build_stack_items(Some(&booted), &target, Some("7.0.7"));
    let k = items.iter().find(|i| i.label == "Kernel").unwrap();
    assert_eq!(k.current.as_deref(), Some("7.0.7"));
    assert_eq!(k.target, "");
}

#[test]
fn stack_items_bumps_image_when_versions_differ() {
    let booted = fake_iv("20260527", "", "");
    let target = fake_iv("20260530", "", "");
    let items = build_stack_items(Some(&booted), &target, None);
    let img = items.iter().find(|i| i.label == "Image").unwrap();
    assert!(img.bumped);
}

#[test]
fn same_build_moves_nothing() {
    let v = fake_iv("20260530", "6.17", "abcdef0123");
    let items = build_stack_items(Some(&v), &v, None);
    assert_eq!(items.len(), 4);
    assert!(items.iter().all(|i| !i.bumped));
    assert_eq!(items[2].target, "abcdef0");
    assert_eq!(items[3].target, "May 30, 2026");
}

#[test]
fn without_a_booted_build_everything_moves() {
    let v = fake_iv("20260530", "6.17", "abcdef0123");
    let items = build_stack_items(None, &v, None);
    assert!(items.iter().all(|i| i.bumped && i.current.is_none()));
}

#[test]
fn revision_that_cannot_be_cut_is_not_shown() {
    let v = fake_iv("a", "", "abcdefé0");
    assert!(render_stack_items(None, &v, None).is_none());
    let v = fake_iv("a", "", "abcdeé0");
    assert_eq!(
        render_stack_items(None, &v, None).unwrap()[1].target,
        "abcdeé"
    );
}

#[test]
fn hero_names_the_booted_image() {
    let image = ImageRef::parse("ghcr.io/projectbluefin/dakota:latest").unwrap();
    assert_eq!(
        hero_row(Some(&image)),
        (
            "projectbluefin/dakota".to_string(),
            "ghcr.io/projectbluefin/dakota:latest".to_string()
        )
    );
    assert_eq!(hero_row(None).0, "System Image");
}

#[test]
fn stack_takes_the_newest_build_and_the_booted_one() {
    let reply = Ok(vec![
        fake_iv("latest-20260530", "", ""),
        fake_iv("latest-20260529", "", ""),
        fake_iv("latest-20260529-again", "", ""),
    ]);
    match stack_result(reply, "20260529") {
        StackResult::Found { booted, target } => {
            assert_eq!(booted.unwrap().version, "latest-20260529");
            assert_eq!(target.version, "latest-20260530");
        }
        other => panic!("{other:?}"),
    }
}

#[test]
fn stack_tells_what_went_wrong() {
    let empty = stack_result(Ok(vec![]), "x");
    assert_eq!(
        no_stack_row(&empty),
        Some(("No recent builds returned by the registry".to_string(), None))
    );
    assert!(sbom_diff_for_panel("a", &empty).is_none());
    let failed = stack_result(Err(ServiceError::Registry("offline".to_string())), "x");
    assert_eq!(
        no_stack_row(&failed),
        Some((
            "Couldn't reach the registry".to_string(),
            Some("registry: offline".to_string())
        ))
    );
}

#[test]
fn packages_of_one_image_are_not_compared() {
    let stack = stack_result(Ok(vec![fake_iv("b", "", "")]), "b");
    assert!(no_stack_row(&stack).is_none());
    assert!(sbom_diff_for_panel("ghcr.io/example/image:b", &stack).is_none());
    assert_eq!(
        sbom_diff_for_panel("ghcr.io/example/image:a", &stack),
        Some((
            "ghcr.io/example/image:a".to_string(),
            "ghcr.io/example/image:b".to_string()
        ))
    );
}

#[test]
fn groups_of_packages() {
    let found = SbomResult::Found(SbomDiffResult {
        upgraded: vec![
            PackageDiff {
                name: "bash".to_string(),
                old_version: "5.1".to_string(),
                new_version: "5.2".to_string(),
            },
            PackageDiff {
                name: "curl".to_string(),
                old_version: "8.0".to_string(),
                new_version: "8.1".to_string(),
            },
        ],
        removed: vec!["nano".to_string()],
        added: vec![],
    });
    let (updated, added, removed) = package_groups(&found);
    assert_eq!(updated.title.as_deref(), Some("Updated  ·  2"));
    assert_eq!(
        updated.rows[0],
        (
            "bash".to_string(),
            Some("5.1".to_string()),
            Some("5.2".to_string())
        )
    );
    assert_eq!(added.title, None);
    assert_eq!(removed.title.as_deref(), Some("Removed  ·  1"));
    assert_eq!(removed.rows, vec![("nano".to_string(), None, None)]);

    let (updated, added, removed) = package_groups(&SbomResult::Unavailable);
    assert_eq!(updated.title.as_deref(), Some("Package diff unavailable"));
    assert_eq!(updated.rows.len(), 1);
    assert!(added.title.is_none() && removed.title.is_none());

    let (updated, _, _) = package_groups(&SbomResult::Skipped);
    assert!(updated.title.is_none() && updated.rows.is_empty());
}

#[test]
fn host_kernel_is_trimmed() {
    assert_eq!(
        host_kernel_string(Some("6.17.7\n")),
        Some("6.17.7".to_string())
    );
    assert_eq!(host_kernel_string(Some(" \n")), None);
    assert_eq!(host_kernel_string(None), None);
}

#[test]
fn pinned_reference() {
    let image = ImageRef::parse("ghcr.io/projectbluefin/dakota:latest").unwrap();
    assert_eq!(
        image.as_digest_pinned_string(Some("sha256:aa")),
        "ghcr.io/projectbluefin/dakota@sha256:aa"
    );
    assert_eq!(
        image.as_digest_pinned_string(None),
        "ghcr.io/projectbluefin/dakota:latest"
    );
}
