//! The dialogs of the main view: what their answers lead to.
use crate::text;
use crate::ui::host_actions::{toast, Flags, Toast, ToastView};
use crate::ui::status_view::TOAST_TIMEOUT;
use vstd::prelude::*;

verus! {

/// A dialog of the main view. Each has the response `cancel`, which is the
/// default and what closing it means, and one more.
#[derive(Debug, Clone, Copy, PartialEq, Eq, Structural)]
pub enum Dialog {
    Powerwash,
    FactoryReset,
    Rollback,
}

/// What an answer leads to.
#[derive(Debug, PartialEq)]
pub enum Answer {
    Nothing,
    /// Commands are withheld: only say this.
    Say(Toast),
    /// Begin a powerwash.
    Powerwash,
    /// Begin a factory reset, under the name "Factory reset".
    FactoryReset,
    /// The roll back is confirmed.
    ConfirmRollback,
}

/// What that is.
#[verifier::ext_equal]
pub enum AnswerView {
    Nothing,
    Say(ToastView),
    Powerwash,
    FactoryReset,
    ConfirmRollback,
}

impl DeepView for Answer {
    type V = AnswerView;

    open spec fn deep_view(&self) -> AnswerView {
        match self {
            Answer::Nothing => AnswerView::Nothing,
            Answer::Say(t) => AnswerView::Say(t.deep_view()),
            Answer::Powerwash => AnswerView::Powerwash,
            Answer::FactoryReset => AnswerView::FactoryReset,
            Answer::ConfirmRollback => AnswerView::ConfirmRollback,
        }
    }
}

/// The response of a dialog that is not `cancel`.
pub open spec fn consent(d: Dialog) -> Seq<char> {
    match d {
        Dialog::Powerwash => "powerwash"@,
        Dialog::FactoryReset => "reset"@,
        Dialog::Rollback => "rollback"@,
    }
}

/// What an answer leads to. `opened` are the settings as the dialog opened.
pub open spec fn answer_to(d: Dialog, response: Seq<char>, opened: Flags) -> AnswerView {
    if response != consent(d) {
        AnswerView::Nothing
    } else {
        match d {
            Dialog::Powerwash => if opened.dry_run || opened.dev_mode {
                AnswerView::Say(
                    toast("Powerwash staged (dry-run, no commands run)"@, TOAST_TIMEOUT),
                )
            } else {
                AnswerView::Powerwash
            },
            Dialog::FactoryReset => if opened.dry_run || opened.dev_mode {
                AnswerView::Say(
                    toast("Factory reset queued (dry-run, no commands run)"@, TOAST_TIMEOUT),
                )
            } else {
                AnswerView::FactoryReset
            },
            Dialog::Rollback => AnswerView::ConfirmRollback,
        }
    }
}

fn says(words: &str) -> (r: Answer)
    ensures
        r.deep_view() == AnswerView::Say(toast(words@, TOAST_TIMEOUT)),
{
    Answer::Say(Toast { text: words.to_string(), timeout: TOAST_TIMEOUT })
}

impl Dialog {
    /// The response that is not `cancel`.
    pub fn response(&self) -> (r: &'static str)
        ensures
            r@ == consent(*self),
    {
        match self {
            Dialog::Powerwash => "powerwash",
            Dialog::FactoryReset => "reset",
            Dialog::Rollback => "rollback",
        }
    }

    /// What an answer leads to. `opened` are the settings as the dialog opened.
    pub fn answer(&self, response: &str, opened: Flags) -> (r: Answer)
        ensures
            r.deep_view() == answer_to(*self, response@, opened),
    {
        if !text::same(response, self.response()) {
            return Answer::Nothing;
        }
        let withheld: bool = opened.dry_run || opened.dev_mode;
        match self {
            Dialog::Powerwash => if withheld {
                says("Powerwash staged (dry-run, no commands run)")
            } else {
                Answer::Powerwash
            },
            Dialog::FactoryReset => if withheld {
                says("Factory reset queued (dry-run, no commands run)")
            } else {
                Answer::FactoryReset
            },
            Dialog::Rollback => Answer::ConfirmRollback,
        }
    }
}

/// Whether a factory reset can be chosen: the user typed the word.
pub fn reset_enabled(typed: &str) -> (r: bool)
    ensures
        r == (typed@ == "reset"@),
{
    text::same(typed, "reset")
}

/// Nothing is erased without consent, nor where the settings withheld commands
/// as the dialog opened.
pub proof fn law_nothing_is_erased_without_consent(d: Dialog, response: Seq<char>, opened: Flags)
    ensures
        answer_to(d, "cancel"@, opened) == AnswerView::Nothing,
        opened.dry_run || opened.dev_mode || response != consent(d) ==> !(answer_to(
            d,
            response,
            opened,
        ) is Powerwash) && !(answer_to(d, response, opened) is FactoryReset),
{
    reveal_strlit("cancel");
    reveal_strlit("powerwash");
    reveal_strlit("reset");
    reveal_strlit("rollback");
    assert("cancel"@.len() != "powerwash"@.len());
    assert("cancel"@.len() != "reset"@.len());
    assert("cancel"@.len() != "rollback"@.len());
}

/// What the user consents to is done where nothing is withheld: what the dialog is for,
/// and nothing else.
pub proof fn law_consent_is_followed(response: Seq<char>)
    ensures
        ({
            let open = Flags { dev_mode: false, dry_run: false };
            &&& answer_to(Dialog::Powerwash, response, open) is Powerwash <==> response
                == "powerwash"@
            &&& answer_to(Dialog::FactoryReset, response, open) is FactoryReset <==> response
                == "reset"@
            &&& answer_to(Dialog::Rollback, response, open) is ConfirmRollback <==> response
                == "rollback"@
            &&& !(answer_to(Dialog::Powerwash, response, open) is FactoryReset)
            &&& !(answer_to(Dialog::FactoryReset, response, open) is Powerwash)
        }),
{
}

} // verus!
