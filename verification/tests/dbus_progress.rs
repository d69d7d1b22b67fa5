use finupdate::dbus_progress::{ProgressDBus, Property};

#[test]
fn starts_and_resets_to_idle() {
    let mut p = ProgressDBus::new();
    assert_eq!(p.property("State"), Property::Words("idle".to_string()));
    p.update("updating", 40, "Updating…");
    assert_eq!(p.property("State"), Property::Words("updating".to_string()));
    assert_eq!(p.property("Progress"), Property::Percent(40));
    assert_eq!(
        p.property("Message"),
        Property::Words("Updating…".to_string())
    );
    p.reset();
    assert_eq!(p.property("State"), Property::Words("idle".to_string()));
    assert_eq!(p.property("Progress"), Property::Percent(0));
    assert_eq!(p.property("Message"), Property::Words(String::new()));
}

#[test]
fn progress_stays_between_its_bounds() {
    let mut p = ProgressDBus::new();
    p.set_progress(-1);
    assert_eq!(p.percent, 0);
    p.set_progress(101);
    assert_eq!(p.percent, 100);
    p.set_progress(95);
    assert_eq!(p.percent, 95);
}

#[test]
fn announced_properties_can_be_read() {
    let mut p = ProgressDBus::new();
    p.set_state("error");
    p.set_message("disk full");
    for (name, value) in p.emit_properties_changed() {
        assert_eq!(p.property(name), value);
    }
    assert_eq!(p.emit_properties_changed().len(), 3);
    assert_eq!(p.property("Other"), Property::Words(String::new()));
}
