use finupdate::calendar::{CalendarDate, Moment};
use finupdate::cli::{
    cmd_family, cmd_help, cmd_status, cmd_tags, cmd_unknown, cmd_versions, parse_command, Command,
    USAGE,
};
use finupdate::registry_client::{AvailableTag, ImageVersion};
use finupdate::service::{FamilyInfo, Feature, ImageRef, ServiceError};

fn dakota() -> ImageRef {
    ImageRef::parse("ghcr.io/projectbluefin/dakota:latest").unwrap()
}

fn missing() -> ServiceError {
    ServiceError::NotFound("nothing".to_string())
}

fn build(version: &str, kernel: &str) -> ImageVersion {
    let date = CalendarDate::from_ymd_opt(2026, 1, 5).unwrap();
    ImageVersion {
        date,
        full_ref: String::new(),
        version: version.to_string(),
        kernel: kernel.to_string(),
        revision: String::new(),
        created: Moment::at(&date, 0, 0).unwrap(),
    }
}

#[test]
fn commands_are_known() {
    assert_eq!(parse_command(None), Command::Help);
    assert_eq!(parse_command(Some("-h")), Command::Help);
    assert_eq!(parse_command(Some("status")), Command::Status);
    assert_eq!(parse_command(Some("family")), Command::Family);
    assert_eq!(parse_command(Some("versions")), Command::Versions);
    assert_eq!(parse_command(Some("tags")), Command::Tags);
    assert_eq!(
        parse_command(Some("nope")),
        Command::Unknown("nope".to_string())
    );
}

#[test]
fn help_and_unknown_commands() {
    assert_eq!(cmd_help().out, USAGE);
    let unknown = cmd_unknown("nope");
    assert_eq!(
        unknown.err,
        format!("finupdate-cli: unknown command 'nope'\n\n{USAGE}")
    );
    assert_eq!(unknown.code, 2);
}

#[test]
fn status_prints_the_image() {
    let p = cmd_status(&Ok(dakota()));
    assert_eq!(p.out, "ghcr.io/projectbluefin/dakota:latest\n");
    assert_eq!(p.code, 0);
    let p = cmd_status(&Err(missing()));
    assert_eq!(
        p.err,
        "finupdate-cli: no booted image detected: not found: nothing\n"
    );
    assert_eq!(p.code, 1);
}

#[test]
fn family_prints_its_features() {
    let mut info = FamilyInfo {
        name: "Bluefin Dakota".to_string(),
        base_image: "dakota".to_string(),
        features: vec![],
        streams: vec![],
    };
    assert_eq!(
        cmd_family(&Ok(Some(info.clone()))).out,
        "family: Bluefin Dakota\nbase:   dakota\nfeatures: (none)\n"
    );
    info.features = vec![Feature {
        id: "nvidia".to_string(),
        display_name: "NVIDIA".to_string(),
        subtitle: String::new(),
    }];
    assert_eq!(
        cmd_family(&Ok(Some(info))).out,
        "family: Bluefin Dakota\nbase:   dakota\nfeatures:\n  - nvidia (NVIDIA)\n"
    );
    assert_eq!(
        cmd_family(&Ok(None)).err,
        "finupdate-cli: booted image is not in KNOWN_FAMILIES\n"
    );
    assert_eq!(cmd_family(&Err(missing())).err, "finupdate-cli: not found: nothing\n");
}

#[test]
fn versions_are_listed() {
    let image = Ok(dakota());
    let p = cmd_versions(&image, &Ok(vec![build("b", "6.17"), build("a", "")]));
    assert_eq!(
        p.out,
        "2026-01-05  b  kernel=6.17\n2026-01-05  a  kernel=?\n"
    );
    let p = cmd_versions(&image, &Ok(vec![]));
    assert_eq!(
        p.err,
        "finupdate-cli: no versions found for ghcr.io/projectbluefin/dakota:latest\n"
    );
    assert_eq!(cmd_versions(&image, &Err(missing())).code, 1);
    assert_eq!(cmd_versions(&Err(missing()), &Ok(vec![])).code, 1);
}

#[test]
fn tags_are_listed() {
    let tag = |s: &str| AvailableTag {
        display: s.to_string(),
        raw: s.to_string(),
    };
    let p = cmd_tags(&Ok(dakota()), &Ok(vec![tag("latest"), tag("stable")]));
    assert_eq!(p.out, "latest\nstable\n");
    assert_eq!(cmd_tags(&Ok(dakota()), &Err(missing())).code, 1);
    assert_eq!(
        cmd_tags(&Err(missing()), &Ok(vec![])).err,
        "finupdate-cli: not found: nothing\n"
    );
}
