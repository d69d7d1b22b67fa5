use finupdate::families::known_families;
use finupdate::service::{family_of, ImageRef};
use finupdate::ui::rebase_dialog::{derive_initial_toggle_state, resolve_dx_nvidia};

#[test]
fn images_are_named_by_their_features() {
    let all = known_families();
    let names: Vec<&str> = all.iter().map(|f| f.name.as_str()).collect();
    assert_eq!(names, vec!["Bluefin Stable", "Bluefin Dakota", "Bazzite KDE"]);
    let images: Vec<&str> = all[0].variants.iter().map(|v| v.image.as_str()).collect();
    assert_eq!(
        images,
        vec![
            "bluefin",
            "bluefin-dx",
            "bluefin-nvidia",
            "bluefin-nvidia-open",
            "bluefin-dx-nvidia",
            "bluefin-dx-nvidia-open",
        ]
    );
    assert_eq!(all[0].variants[5].features, vec!["dx", "nvidia", "open"]);
    assert_eq!(all[0].org, "ublue-os");
    assert_eq!(all[0].streams, vec!["stable", "stable-daily", "latest"]);
    assert_eq!(all[1].org, "projectbluefin");
    assert_eq!(all[1].features, vec!["nvidia"]);
    assert_eq!(all[1].variants[1].image, "dakota-nvidia");
    assert_eq!(all[2].variants[2].image, "bazzite-nvidia-open");
}

#[test]
fn known_switches_are_read_back() {
    let all = known_families();
    for (name, both) in [("ublue-os/bluefin", true), ("projectbluefin/dakota", false)] {
        let image = ImageRef::parse(&format!("ghcr.io/{name}:latest")).unwrap();
        let family = family_of(&all, Some(&image)).unwrap();
        for (dx, nvidia) in [(false, false), (true, false), (false, true), (true, true)] {
            let (_, found) = resolve_dx_nvidia(&all, &family, dx, nvidia);
            assert_eq!(found.is_some(), both || !dx);
            if let Some(found) = found {
                assert_eq!(
                    derive_initial_toggle_state(&family, Some(&found)),
                    (dx, nvidia)
                );
            }
        }
    }
}
