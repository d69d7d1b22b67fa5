use finupdate::ui::dialogs::{reset_enabled, Answer, Dialog};
use finupdate::ui::host_actions::{Flags, Toast};

fn flags(dev_mode: bool, dry_run: bool) -> Flags {
    Flags { dev_mode, dry_run }
}

#[test]
fn nothing_is_erased_without_consent() {
    for d in [Dialog::Powerwash, Dialog::FactoryReset, Dialog::Rollback] {
        assert_eq!(d.answer("cancel", flags(false, false)), Answer::Nothing);
    }
    assert_eq!(
        Dialog::Powerwash.answer("reset", flags(false, false)),
        Answer::Nothing
    );
    assert_eq!(
        Dialog::Powerwash.answer("powerwash", flags(false, true)),
        Answer::Say(Toast {
            text: "Powerwash staged (dry-run, no commands run)".to_string(),
            timeout: 5
        })
    );
    assert_eq!(
        Dialog::FactoryReset.answer("reset", flags(true, false)),
        Answer::Say(Toast {
            text: "Factory reset queued (dry-run, no commands run)".to_string(),
            timeout: 5
        })
    );
}

#[test]
fn consent_begins_the_action() {
    assert_eq!(
        Dialog::Powerwash.answer("powerwash", flags(false, false)),
        Answer::Powerwash
    );
    assert_eq!(
        Dialog::FactoryReset.answer("reset", flags(false, false)),
        Answer::FactoryReset
    );
    assert_eq!(
        Dialog::Rollback.answer(Dialog::Rollback.response(), flags(true, true)),
        Answer::ConfirmRollback
    );
}

#[test]
fn reset_is_typed_out() {
    assert!(reset_enabled("reset"));
    assert!(!reset_enabled("Reset"));
    assert!(!reset_enabled("rese"));
    assert!(!reset_enabled(""));
}
