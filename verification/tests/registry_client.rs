use finupdate::registry_client::{dated_builds, order_tags, sort_by_date, tag_day};
use finupdate::service::ImageRef;

fn strings(list: &[&str]) -> Vec<String> {
    list.iter().map(|s| s.to_string()).collect()
}

fn dakota() -> ImageRef {
    ImageRef::parse("ghcr.io/projectbluefin/dakota:latest").unwrap()
}

#[test]
fn dated_tags_name_days() {
    let d = tag_day("stable-daily-43.20260527").unwrap();
    assert_eq!((d.year(), d.month(), d.day()), (2026, 5, 27));
    assert!(tag_day("latest").is_none());
    assert!(tag_day("latest-20261301").is_none());
    assert!(tag_day("20260527").is_none());
}

#[test]
fn stream_tags_come_first() {
    let tags = strings(&[
        "latest.20260211",
        "latest",
        "sha256-abcdef",
        "stable.20260301",
        "latest.20260212",
        "stable",
    ]);
    let shown: Vec<String> = order_tags(&dakota(), &tags)
        .into_iter()
        .map(|t| t.raw)
        .collect();
    assert_eq!(
        shown,
        vec!["latest", "stable", "latest.20260212", "latest.20260211"]
    );
}

#[test]
fn builds_are_known_by_their_tags() {
    let tags = strings(&["latest-20260211", "latest-20260212", "other-20260213"]);
    let builds = dated_builds(&dakota(), &tags);
    assert_eq!(builds.len(), 2);
    assert_eq!(
        builds[0].full_ref,
        "ghcr.io/projectbluefin/dakota:latest-20260212"
    );
    assert_eq!(builds[0].version, "latest-20260212");
    assert_eq!(builds[0].created.clock(), "00:00 UTC");
    let oldest_first = sort_by_date(builds, false);
    assert_eq!(oldest_first[0].version, "latest-20260211");
}
