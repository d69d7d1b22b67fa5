//! What the panel of the desktop is told of an update: three properties of an
//! object on the session bus.
use crate::text;
use vstd::prelude::*;

verus! {

/// Name on the session bus.
pub const BUS_NAME: &'static str = "org.tunaos.finupdate";

/// Path of the object.
pub const OBJECT_PATH: &'static str = "/org/tunaos/finupdate";

/// Name of its interface.
pub const INTERFACE_NAME: &'static str = "org.tunaos.finupdate.Progress";

/// A value of a property.
#[derive(Debug, PartialEq)]
pub enum Property {
    Words(String),
    /// A fraction, in percent.
    Percent(u32),
}

/// What that is.
#[verifier::ext_equal]
pub enum PropertyView {
    Words(Seq<char>),
    Percent(u32),
}

impl DeepView for Property {
    type V = PropertyView;

    open spec fn deep_view(&self) -> PropertyView {
        match self {
            Property::Words(s) => PropertyView::Words(s@),
            Property::Percent(p) => PropertyView::Percent(*p),
        }
    }
}

/// The properties: "idle", "checking", "updating", "complete" or "error"; how far
/// the update is, in percent; and what to tell people.
#[derive(Debug)]
pub struct ProgressDBus {
    pub state: String,
    pub percent: u32,
    pub message: String,
}

/// What the properties are.
#[verifier::ext_equal]
pub struct ProgressView {
    pub state: Seq<char>,
    pub percent: u32,
    pub message: Seq<char>,
}

impl DeepView for ProgressDBus {
    type V = ProgressView;

    open spec fn deep_view(&self) -> ProgressView {
        ProgressView { state: self.state@, percent: self.percent, message: self.message@ }
    }
}

/// A percentage between 0 and 100.
pub open spec fn within(percent: i32) -> u32 {
    if percent < 0 {
        0
    } else if percent > 100 {
        100
    } else {
        percent as u32
    }
}

fn clamped(percent: i32) -> (r: u32)
    ensures
        r == within(percent),
{
    if percent < 0 {
        0
    } else if percent > 100 {
        100
    } else {
        percent as u32
    }
}

/// The properties while nothing happens.
pub open spec fn idle_progress() -> ProgressView {
    ProgressView { state: "idle"@, percent: 0, message: ""@ }
}

/// The properties after all three are set.
pub open spec fn progress(state: Seq<char>, percent: i32, message: Seq<char>) -> ProgressView {
    ProgressView { state, percent: within(percent), message }
}

/// What is answered to a question for a property.
pub open spec fn property_of(p: ProgressView, name: Seq<char>) -> PropertyView {
    if name == "State"@ {
        PropertyView::Words(p.state)
    } else if name == "Progress"@ {
        PropertyView::Percent(p.percent)
    } else if name == "Message"@ {
        PropertyView::Words(p.message)
    } else {
        PropertyView::Words(""@)
    }
}

/// The properties that a change announces, with their values.
pub open spec fn changed_properties(p: ProgressView) -> Seq<(Seq<char>, PropertyView)> {
    seq![
        ("State"@, PropertyView::Words(p.state)),
        ("Progress"@, PropertyView::Percent(p.percent)),
        ("Message"@, PropertyView::Words(p.message)),
    ]
}

impl ProgressDBus {
    /// Nothing happens.
    pub fn new() -> (r: ProgressDBus)
        ensures
            r.deep_view() == idle_progress(),
    {
        ProgressDBus { state: "idle".to_string(), percent: 0, message: "".to_string() }
    }

    /// Sets the state.
    pub fn set_state(&mut self, state: &str)
        ensures
            final(self).deep_view() == (ProgressView { state: state@, ..old(self).deep_view() }),
    {
        self.state = state.to_string();
    }

    /// Sets how far the update is.
    pub fn set_progress(&mut self, percent: i32)
        ensures
            final(self).deep_view() == (ProgressView {
                percent: within(percent),
                ..old(self).deep_view()
            }),
    {
        self.percent = clamped(percent);
    }

    /// Sets what to tell people.
    pub fn set_message(&mut self, message: &str)
        ensures
            final(self).deep_view() == (ProgressView {
                message: message@,
                ..old(self).deep_view()
            }),
    {
        self.message = message.to_string();
    }

    /// Sets all three.
    pub fn update(&mut self, state: &str, percent: i32, message: &str)
        ensures
            final(self).deep_view() == progress(state@, percent, message@),
    {
        self.state = state.to_string();
        self.percent = clamped(percent);
        self.message = message.to_string();
    }

    /// Nothing happens any more.
    pub fn reset(&mut self)
        ensures
            final(self).deep_view() == idle_progress(),
    {
        self.update("idle", 0, "");
    }

    /// What is answered to a question for a property.
    pub fn property(&self, name: &str) -> (r: Property)
        ensures
            r.deep_view() == property_of(self.deep_view(), name@),
    {
        if text::same(name, "State") {
            Property::Words(self.state.clone())
        } else if text::same(name, "Progress") {
            Property::Percent(self.percent)
        } else if text::same(name, "Message") {
            Property::Words(self.message.clone())
        } else {
            Property::Words("".to_string())
        }
    }

    /// The properties that a change announces, with their values.
    pub fn emit_properties_changed(&self) -> (r: Vec<(&'static str, Property)>)
        ensures
            r.deep_view() == changed_properties(self.deep_view()),
    {
        let mut r: Vec<(&'static str, Property)> = Vec::new();
        r.push(("State", Property::Words(self.state.clone())));
        r.push(("Progress", Property::Percent(self.percent)));
        r.push(("Message", Property::Words(self.message.clone())));
        assert(r.deep_view() =~= changed_properties(self.deep_view()));
        r
    }
}

/// Each announced property is also what a question for it is answered.
pub proof fn law_announced_properties_can_be_read(p: ProgressView, i: int)
    requires
        0 <= i < changed_properties(p).len(),
    ensures
        property_of(p, changed_properties(p)[i].0) == changed_properties(p)[i].1,
{
    reveal_strlit("State");
    reveal_strlit("Progress");
    reveal_strlit("Message");
    assert("State"@[0] != "Progress"@[0]);
    assert("State"@[0] != "Message"@[0]);
    assert("Progress"@[0] != "Message"@[0]);
}

/// A share is told as it is, and never as less than nothing or more than the whole.
pub proof fn law_share_is_within_the_whole(percent: i32, state: Seq<char>, message: Seq<char>)
    ensures
        0 <= progress(state, percent, message).percent <= 100,
        0 <= percent <= 100 ==> progress(state, percent, message).percent == percent,
        percent < 0 ==> progress(state, percent, message).percent == 0,
        percent > 100 ==> progress(state, percent, message).percent == 100,
        progress(state, percent, message).state == state,
        progress(state, percent, message).message == message,
        property_of(progress(state, percent, message), "State"@) == PropertyView::Words(state),
{
}

} // verus!
