use finupdate::calendar::{CalendarDate, Moment};
use finupdate::ffi::{
    finupdate_check_for_updates, finupdate_current_image_ref, finupdate_current_image_title,
    string_to_c,
};
use finupdate::registry_client::ImageVersion;
use finupdate::service::{ImageRef, ServiceError};

fn build(version: &str) -> ImageVersion {
    build_of_day(version, 30)
}

fn build_of_day(version: &str, day: u32) -> ImageVersion {
    let date = CalendarDate::from_ymd_opt(2026, 5, day).unwrap();
    ImageVersion {
        date,
        full_ref: String::new(),
        version: version.to_string(),
        kernel: String::new(),
        revision: String::new(),
        created: Moment::at(&date, 0, 0).unwrap(),
    }
}

fn dakota() -> ImageRef {
    ImageRef::parse("ghcr.io/projectbluefin/dakota:latest").unwrap()
}

#[test]
fn string_to_c_roundtrip() {
    assert_eq!(string_to_c("Bluefin Dakota"), "Bluefin Dakota");
}

#[test]
fn string_to_c_strips_interior_nul() {
    assert_eq!(string_to_c("foo\0bar"), "foobar");
}

#[test]
fn titles_and_references() {
    assert_eq!(
        finupdate_current_image_title(Some(&dakota())),
        "projectbluefin/dakota"
    );
    assert_eq!(finupdate_current_image_title(None), "System Image");
    assert_eq!(
        finupdate_current_image_ref(Some(&dakota())),
        Some("ghcr.io/projectbluefin/dakota:latest".to_string())
    );
    assert_eq!(finupdate_current_image_ref(None), None);
}

#[test]
fn check_tells_one_of_three_numbers() {
    let image = Ok(dakota());
    assert_eq!(
        finupdate_check_for_updates(&image, &Ok(vec![build("20260530"), build_of_day("latest", 29)])),
        1
    );
    assert_eq!(
        finupdate_check_for_updates(&image, &Ok(vec![build("latest")])),
        0
    );
    assert_eq!(finupdate_check_for_updates(&image, &Ok(vec![])), 0);
    let offline = || ServiceError::Io("offline".to_string());
    assert_eq!(finupdate_check_for_updates(&image, &Err(offline())), -1);
    assert_eq!(
        finupdate_check_for_updates(&Err(offline()), &Ok(vec![build("x")])),
        -1
    );
}

#[test]
fn older_builds_are_no_update() {
    let image = ImageRef::parse("ghcr.io/projectbluefin/dakota:latest.20260212");
    let booted = Ok(image.unwrap());
    assert_eq!(
        finupdate_check_for_updates(
            &booted,
            &Ok(vec![
                build_of_day("latest.20260212", 12),
                build_of_day("latest.20260211", 11)
            ])
        ),
        0
    );
    assert_eq!(
        finupdate_check_for_updates(
            &booted,
            &Ok(vec![
                build_of_day("latest.20260213", 13),
                build_of_day("latest.20260212", 12)
            ])
        ),
        1
    );
    assert_eq!(
        finupdate_check_for_updates(&booted, &Ok(vec![build_of_day("latest.20260211", 11)])),
        1
    );
}
