//! The dialog that updates every source and tells what each came to.
use crate::orchestrator::{module_key, Module, ModuleStatus};
use crate::text;
use crate::ui::host_actions::{code_name, code_text};
use crate::update_worker::{EventView, UpdateEvent};
use vstd::prelude::*;

verus! {

/// What is known of a source.
#[derive(Debug, PartialEq)]
pub enum SourceState {
    Waiting,
    Checking,
    Found(String),
    UpToDate,
}

/// What that is.
#[verifier::ext_equal]
pub enum SourceStateView {
    Waiting,
    Checking,
    Found(Seq<char>),
    UpToDate,
}

impl DeepView for SourceState {
    type V = SourceStateView;

    open spec fn deep_view(&self) -> SourceStateView {
        match self {
            SourceState::Waiting => SourceStateView::Waiting,
            SourceState::Checking => SourceStateView::Checking,
            SourceState::Found(m) => SourceStateView::Found(m@),
            SourceState::UpToDate => SourceStateView::UpToDate,
        }
    }
}

/// What a run came to.
#[derive(Debug, Clone, Copy, PartialEq, Eq, Structural)]
pub struct CheckResult {
    /// Whether the system image was updated.
    pub system_update: bool,
    /// Number of sources with updates.
    pub sources_with_updates: u32,
    /// Number of updates.
    pub total_updates: u32,
}

/// A source: its name, what is known of it, and its log.
#[derive(Debug, PartialEq)]
pub struct SourceEntry {
    pub name: String,
    pub state: SourceState,
    pub log: String,
}

/// What a source is.
#[verifier::ext_equal]
pub struct SourceView {
    pub name: Seq<char>,
    pub state: SourceStateView,
    pub log: Seq<char>,
}

impl DeepView for SourceEntry {
    type V = SourceView;

    open spec fn deep_view(&self) -> SourceView {
        SourceView { name: self.name@, state: self.state.deep_view(), log: self.log@ }
    }
}

/// What the run tells the dialog.
#[derive(Debug, PartialEq)]
pub enum CheckEvent {
    ModuleStart(String),
    ModuleComplete(String),
    ModuleFound(String, String),
    /// A line of the log of a module.
    LogLine { module: String, line: String },
    Done,
    Error(String),
}

/// What that is.
#[verifier::ext_equal]
pub enum CheckEventView {
    ModuleStart(Seq<char>),
    ModuleComplete(Seq<char>),
    ModuleFound(Seq<char>, Seq<char>),
    LogLine { module: Seq<char>, line: Seq<char> },
    Done,
    Error(Seq<char>),
}

impl DeepView for CheckEvent {
    type V = CheckEventView;

    open spec fn deep_view(&self) -> CheckEventView {
        match self {
            CheckEvent::ModuleStart(k) => CheckEventView::ModuleStart(k@),
            CheckEvent::ModuleComplete(k) => CheckEventView::ModuleComplete(k@),
            CheckEvent::ModuleFound(k, m) => CheckEventView::ModuleFound(k@, m@),
            CheckEvent::LogLine { module, line } => CheckEventView::LogLine {
                module: module@,
                line: line@,
            },
            CheckEvent::Done => CheckEventView::Done,
            CheckEvent::Error(m) => CheckEventView::Error(m@),
        }
    }
}

/// Key, name, description and icon of each source, in the order in which they
/// run.
pub open spec fn source_rows() -> Seq<(Seq<char>, Seq<char>, Seq<char>, Seq<char>)> {
    seq![
        (
            "system"@,
            "System image"@,
            "bootc · OS image updates"@,
            "drive-harddisk-symbolic"@,
        ),
        (
            "flatpak"@,
            "Flatpak"@,
            "Applications from Flathub"@,
            "system-software-install-symbolic"@,
        ),
        (
            "brew"@,
            "Homebrew"@,
            "User formulae and casks"@,
            "package-x-generic-symbolic"@,
        ),
        (
            "distrobox"@,
            "Distrobox"@,
            "Container environments"@,
            "utilities-terminal-symbolic"@,
        ),
    ]
}

/// Key, name, description and icon of each source.
pub fn source_defs() -> (r: Vec<(&'static str, &'static str, &'static str, &'static str)>)
    ensures
        r.deep_view() == source_rows(),
{
    let mut r: Vec<(&'static str, &'static str, &'static str, &'static str)> = Vec::new();
    r.push(("system", "System image", "bootc · OS image updates", "drive-harddisk-symbolic"));
    r.push(
        (
            "flatpak",
            "Flatpak",
            "Applications from Flathub",
            "system-software-install-symbolic",
        ),
    );
    r.push(("brew", "Homebrew", "User formulae and casks", "package-x-generic-symbolic"));
    r.push(
        ("distrobox", "Distrobox", "Container environments", "utilities-terminal-symbolic"),
    );
    assert(r.deep_view() =~= source_rows());
    r
}

/// Whether the source with a name is the module with a key.
pub open spec fn is_source(name: Seq<char>, key: Seq<char>) -> bool {
    if key == "system"@ {
        name == "System image"@
    } else if key == "flatpak"@ {
        name == "Flatpak"@
    } else if key == "brew"@ {
        name == "Homebrew"@
    } else if key == "distrobox"@ {
        name == "Distrobox"@
    } else {
        false
    }
}

/// Whether the source with a name is the module with a key.
pub fn source_matches_key(source_name: &str, key: &str) -> (r: bool)
    ensures
        r == is_source(source_name@, key@),
{
    if text::same(key, "system") {
        text::same(source_name, "System image")
    } else if text::same(key, "flatpak") {
        text::same(source_name, "Flatpak")
    } else if text::same(key, "brew") {
        text::same(source_name, "Homebrew")
    } else if text::same(key, "distrobox") {
        text::same(source_name, "Distrobox")
    } else {
        false
    }
}

/// The key of the module that a line of the log announces.
pub open spec fn announced_key(line: Seq<char>) -> Option<Seq<char>> {
    if text::holds(line, "module_name=System"@) {
        Some("system"@)
    } else if text::holds(line, "module_name=Flatpak"@) {
        Some("flatpak"@)
    } else if text::holds(line, "module_name=Brew"@) {
        Some("brew"@)
    } else if text::holds(line, "module_name=Distrobox"@) {
        Some("distrobox"@)
    } else {
        None
    }
}

/// The key of the module that a line of the log announces.
pub fn extract_module_key_from_line(line: &str) -> (r: Option<&'static str>)
    ensures
        match r {
            Some(k) => announced_key(line@) == Some(k@),
            None => announced_key(line@) is None,
        },
{
    if text::contains(line, "module_name=System") {
        Some("system")
    } else if text::contains(line, "module_name=Flatpak") {
        Some("flatpak")
    } else if text::contains(line, "module_name=Brew") {
        Some("brew")
    } else if text::contains(line, "module_name=Distrobox") {
        Some("distrobox")
    } else {
        None
    }
}

// ── Escape sequences ─────────────────────────────────────────────────────────

/// What follows an escape sequence: behind its first letter.
pub open spec fn behind_letter(s: Seq<char>) -> Seq<char>
    decreases s.len(),
{
    if s.len() == 0 {
        s
    } else if text::is_ascii_letter(s[0]) {
        s.drop_first()
    } else {
        behind_letter(s.drop_first())
    }
}

/// What follows an escape sequence is no longer than the whole.
pub proof fn lemma_behind_letter(s: Seq<char>)
    ensures
        behind_letter(s).len() <= s.len(),
    decreases s.len(),
{
    if s.len() > 0 && !text::is_ascii_letter(s[0]) {
        lemma_behind_letter(s.drop_first());
    }
}

/// A text without escape sequences: an escape, an opening bracket, and what
/// follows up to a letter.
pub open spec fn without_escapes(s: Seq<char>) -> Seq<char>
    decreases s.len(),
{
    if s.len() == 0 {
        s
    } else if s[0] == '\x1b' && s.len() > 1 && s[1] == '[' {
        proof {
            lemma_behind_letter(s.skip(2));
        }
        without_escapes(behind_letter(s.skip(2)))
    } else {
        seq![s[0]] + without_escapes(s.drop_first())
    }
}

/// A text without escape sequences.
pub fn strip_ansi_escapes(s: &str) -> (r: String)
    ensures
        r@ == without_escapes(s@),
{
    let v: Vec<char> = text::chars_of(s);
    let n: usize = v.len();
    let mut out: Vec<char> = Vec::new();
    let mut i: usize = 0;
    assert(v@.skip(0) =~= v@);
    assert(out@ + without_escapes(v@) =~= without_escapes(v@));
    while i < n
        invariant
            0 <= i <= n,
            n == v@.len(),
            v@ == s@,
            out@ + without_escapes(v@.skip(i as int)) == without_escapes(v@),
        decreases n - i,
    {
        let ghost rest = v@.skip(i as int);
        assert(rest[0] == v@[i as int]);
        if v[i] == '\x1b' && i + 1 < n && v[i + 1] == '[' {
            assert(rest[1] == v@[i + 1]);
            let mut j: usize = i + 2;
            let ghost tail = rest.skip(2);
            assert(tail =~= v@.skip(j as int));
            while j < n && !text::ascii_letter(v[j])
                invariant
                    i + 2 <= j <= n,
                    n == v@.len(),
                    behind_letter(tail) == behind_letter(v@.skip(j as int)),
                decreases n - j,
            {
                assert(v@.skip(j as int)[0] == v@[j as int]);
                assert(v@.skip(j as int).drop_first() =~= v@.skip(j + 1));
                j += 1;
            }
            if j < n {
                assert(v@.skip(j as int)[0] == v@[j as int]);
                assert(v@.skip(j as int).drop_first() =~= v@.skip(j + 1));
                i = j + 1;
            } else {
                assert(v@.skip(j as int) =~= Seq::<char>::empty());
                i = j;
            }
        } else {
            let ghost before = out@;
            out.push(v[i]);
            assert(rest.drop_first() =~= v@.skip(i + 1));
            assert(before + (seq![rest[0]] + without_escapes(rest.drop_first())) =~= out@
                + without_escapes(rest.drop_first()));
            i += 1;
        }
    }
    assert(v@.skip(i as int) =~= Seq::<char>::empty());
    assert(out@ + Seq::<char>::empty() =~= out@);
    let len: usize = out.len();
    assert(out@.subrange(0, len as int) =~= out@);
    text::string_of(&out, 0, len)
}

/// A text without an escape is left as it is.
pub proof fn law_plain_text_is_kept(s: Seq<char>)
    requires
        !s.contains('\x1b'),
    ensures
        without_escapes(s) == s,
    decreases s.len(),
{
    if s.len() > 0 {
        assert(s.contains(s[0]));
        assert forall|c: char| s.drop_first().contains(c) implies s.contains(c) by {
            let w = choose|w: int| 0 <= w < s.drop_first().len() && s.drop_first()[w] == c;
            assert(s[w + 1] == c);
        }
        law_plain_text_is_kept(s.drop_first());
        assert(seq![s[0]] + s.drop_first() =~= s);
    }
}

// ── From the run ─────────────────────────────────────────────────────────────

/// What the run tells, and whether nothing follows.
pub type Told = (Seq<CheckEventView>, bool);

/// A module begins: the one that ran before it is complete.
pub open spec fn begun(current: Option<Seq<char>>, key: Seq<char>) -> Seq<CheckEventView> {
    (match current {
        Some(prev) => if prev != key {
            seq![CheckEventView::ModuleComplete(prev)]
        } else {
            Seq::empty()
        },
        None => Seq::empty(),
    }).push(CheckEventView::ModuleStart(key))
}

/// The module that runs is complete.
pub open spec fn ended(current: Option<Seq<char>>) -> Seq<CheckEventView> {
    match current {
        Some(last) => seq![CheckEventView::ModuleComplete(last)],
        None => Seq::empty(),
    }
}

/// The module that runs after an event.
pub open spec fn module_after(current: Option<Seq<char>>, e: EventView) -> Option<Seq<char>> {
    match e {
        EventView::Output(line) => match announced_key(line) {
            Some(key) => Some(key),
            None => current,
        },
        EventView::ModuleStarted(m) => Some(module_key(m)),
        _ => current,
    }
}

/// What the run tells with an event, while a module runs.
pub open spec fn told(current: Option<Seq<char>>, e: EventView) -> Told {
    match e {
        EventView::Output(line) => {
            let start = match announced_key(line) {
                Some(key) => begun(current, key),
                None => Seq::empty(),
            };
            (
                match module_after(current, e) {
                    Some(m) => start.push(CheckEventView::LogLine { module: m, line }),
                    None => start,
                },
                false,
            )
        },
        EventView::Complete => (
            ended(current).push(
                CheckEventView::ModuleFound("system"@, "Update installed"@),
            ).push(CheckEventView::Done),
            true,
        ),
        EventView::UpToDate => (ended(current).push(CheckEventView::Done), true),
        EventView::Error(err) => (seq![CheckEventView::Error(err)], true),
        EventView::ModuleStarted(m) => (begun(current, module_key(m)), false),
        EventView::ModuleFinished(m, status) => (
            match status {
                ModuleStatus::Failed(code) => seq![
                    CheckEventView::Error(
                        module_key(m) + " module failed (exit "@ + code_text(Some(code)) + ")"@,
                    ),
                ],
                _ => seq![CheckEventView::ModuleComplete(module_key(m))],
            },
            false,
        ),
    }
}

fn add_event(list: &mut Vec<CheckEvent>, e: CheckEvent)
    ensures
        final(list).deep_view() == old(list).deep_view().push(e.deep_view()),
{
    let ghost before = list.deep_view();
    list.push(e);
    assert(list.deep_view() =~= before.push(e.deep_view()));
}

fn no_events() -> (r: Vec<CheckEvent>)
    ensures
        r.deep_view() == Seq::<CheckEventView>::empty(),
{
    let r: Vec<CheckEvent> = Vec::new();
    assert(r.deep_view() =~= Seq::<CheckEventView>::empty());
    r
}

/// The run as the dialog follows it: the module that runs.
#[derive(Debug)]
pub struct CheckRun {
    pub current_module: Option<String>,
}

impl CheckRun {
    /// No module runs yet.
    pub fn new() -> (r: CheckRun)
        ensures
            r.current_module is None,
    {
        CheckRun { current_module: None }
    }

    fn begin(&mut self, key: &str) -> (r: Vec<CheckEvent>)
        ensures
            r.deep_view() == begun(old(self).current_module.deep_view(), key@),
            final(self).current_module.deep_view() == Some(key@),
    {
        let mut out: Vec<CheckEvent> = no_events();
        if let Some(prev) = &self.current_module {
            if !text::same(prev.as_str(), key) {
                let prev: String = prev.clone();
                add_event(&mut out, CheckEvent::ModuleComplete(prev));
                assert(out.deep_view() =~= seq![CheckEventView::ModuleComplete(prev@)]);
            }
        }
        self.current_module = Some(key.to_string());
        add_event(&mut out, CheckEvent::ModuleStart(key.to_string()));
        out
    }

    fn end(&self) -> (r: Vec<CheckEvent>)
        ensures
            r.deep_view() == ended(self.current_module.deep_view()),
    {
        let mut out: Vec<CheckEvent> = no_events();
        if let Some(last) = &self.current_module {
            let last: String = last.clone();
            add_event(&mut out, CheckEvent::ModuleComplete(last));
            assert(out.deep_view() =~= seq![CheckEventView::ModuleComplete(last@)]);
        }
        out
    }

    fn output(&mut self, line: String) -> (r: Vec<CheckEvent>)
        ensures
            r.deep_view() == told(
                old(self).current_module.deep_view(),
                EventView::Output(line@),
            ).0,
            final(self).current_module.deep_view() == module_after(
                old(self).current_module.deep_view(),
                EventView::Output(line@),
            ),
    {
        let mut out: Vec<CheckEvent> = match extract_module_key_from_line(line.as_str()) {
            Some(key) => self.begin(key),
            None => no_events(),
        };
        if let Some(m) = &self.current_module {
            let module: String = m.clone();
            add_event(&mut out, CheckEvent::LogLine { module, line });
        }
        out
    }

    /// What the run tells with an event, and whether nothing follows.
    pub fn follow(&mut self, event: UpdateEvent) -> (r: (Vec<CheckEvent>, bool))
        ensures
            (r.0.deep_view(), r.1) == told(
                old(self).current_module.deep_view(),
                event.deep_view(),
            ),
            final(self).current_module.deep_view() == module_after(
                old(self).current_module.deep_view(),
                event.deep_view(),
            ),
    {
        match event {
            UpdateEvent::Output(line) => (self.output(line), false),
            UpdateEvent::Complete => {
                let mut out: Vec<CheckEvent> = self.end();
                add_event(
                    &mut out,
                    CheckEvent::ModuleFound("system".to_string(), "Update installed".to_string()),
                );
                add_event(&mut out, CheckEvent::Done);
                (out, true)
            },
            UpdateEvent::UpToDate => {
                let mut out: Vec<CheckEvent> = self.end();
                add_event(&mut out, CheckEvent::Done);
                (out, true)
            },
            UpdateEvent::Error(err) => {
                let mut out: Vec<CheckEvent> = no_events();
                add_event(&mut out, CheckEvent::Error(err));
                assert(out.deep_view() =~= seq![CheckEventView::Error(err@)]);
                (out, true)
            },
            UpdateEvent::ModuleStarted(m) => (self.begin(m.key()), false),
            UpdateEvent::ModuleFinished(m, status) => {
                let mut out: Vec<CheckEvent> = no_events();
                match status {
                    ModuleStatus::Failed(code) => {
                        let code: String = code_name(Some(code));
                        let words: String = text::cat4(
                            m.key(),
                            " module failed (exit ",
                            code.as_str(),
                            ")",
                        );
                        add_event(&mut out, CheckEvent::Error(words));
                    },
                    _ => {
                        add_event(&mut out, CheckEvent::ModuleComplete(m.key().to_string()));
                    },
                }
                assert(out.deep_view() =~= told(
                    self.current_module.deep_view(),
                    EventView::ModuleFinished(m, status),
                ).0);
                (out, false)
            },
        }
    }
}

/// A button of the dialog.
#[derive(Debug, Clone, Copy, PartialEq, Eq, Structural)]
pub enum CheckClick {
    Close,
    InstallAll,
}

/// What the dialog tells the window that opened it.
#[derive(Debug, Clone, Copy, PartialEq, Eq, Structural)]
pub enum CheckOutcome {
    /// It is closed.
    Closed,
    /// The run is done, and came to this.
    Finished(CheckResult),
    /// Everything is to be installed.
    Install,
}

impl CheckClick {
    /// The label of this button, where it does not change.
    pub fn label(&self) -> (r: Option<&'static str>)
        ensures
            match r {
                Some(l) => *self == CheckClick::InstallAll && l@ == "Install all"@,
                None => *self == CheckClick::Close,
            },
    {
        match self {
            CheckClick::Close => None,
            CheckClick::InstallAll => Some("Install all"),
        }
    }

    /// What the dialog tells when this button is clicked.
    pub fn outcome(&self) -> (r: CheckOutcome)
        ensures
            r == match *self {
                CheckClick::Close => CheckOutcome::Closed,
                CheckClick::InstallAll => CheckOutcome::Install,
            },
    {
        match self {
            CheckClick::Close => CheckOutcome::Closed,
            CheckClick::InstallAll => CheckOutcome::Install,
        }
    }
}

// ── The dialog ───────────────────────────────────────────────────────────────

/// The dialog.
#[derive(Debug)]
pub struct CheckDialog {
    pub sources: Vec<SourceEntry>,
    pub title: String,
    pub summary: String,
    pub close_label: String,
    /// Whether the bar is full.
    pub full: bool,
    pub done: bool,
}

/// What the dialog is.
#[verifier::ext_equal]
pub struct DialogView {
    pub sources: Seq<SourceView>,
    pub title: Seq<char>,
    pub summary: Seq<char>,
    pub close_label: Seq<char>,
    pub full: bool,
    pub done: bool,
}

impl DeepView for CheckDialog {
    type V = DialogView;

    open spec fn deep_view(&self) -> DialogView {
        DialogView {
            sources: self.sources.deep_view(),
            title: self.title@,
            summary: self.summary@,
            close_label: self.close_label@,
            full: self.full,
            done: self.done,
        }
    }
}

/// A source in the state that an event puts it in.
pub open spec fn source_set(s: SourceView, key: Seq<char>, state: SourceStateView) -> SourceView {
    if is_source(s.name, key) {
        SourceView { state, ..s }
    } else {
        s
    }
}

/// A source with a line in its log.
pub open spec fn source_logged(s: SourceView, key: Seq<char>, line: Seq<char>) -> SourceView {
    if is_source(s.name, key) {
        SourceView {
            log: if s.log.len() > 0 {
                s.log + "\n"@ + line
            } else {
                line
            },
            ..s
        }
    } else {
        s
    }
}

/// A source when the run is done.
pub open spec fn source_done(s: SourceView) -> SourceView {
    if s.state is Waiting || s.state is Checking {
        SourceView { state: SourceStateView::UpToDate, ..s }
    } else {
        s
    }
}

/// A source when the run failed.
pub open spec fn source_stopped(s: SourceView) -> SourceView {
    if s.state is Checking {
        SourceView { state: SourceStateView::UpToDate, ..s }
    } else {
        s
    }
}

/// Number of sources with updates.
pub open spec fn found_count(sources: Seq<SourceView>) -> int
    decreases sources.len(),
{
    if sources.len() == 0 {
        0
    } else {
        found_count(sources.drop_last()) + if sources.last().state is Found {
            1int
        } else {
            0
        }
    }
}

/// Whether the first source has updates.
pub open spec fn first_found(sources: Seq<SourceView>) -> bool {
    sources.len() > 0 && sources[0].state is Found
}

/// The dialog when the run is done.
pub open spec fn dialog_done(d: DialogView) -> DialogView {
    let n = found_count(d.sources);
    DialogView {
        sources: d.sources.map_values(|s: SourceView| source_done(s)),
        title: if n > 0 {
            "Updates installed · "@ + text::decimal(n as nat) + " source"@ + if n == 1 {
                ""@
            } else {
                "s"@
            }
        } else {
            "Everything is up to date"@
        },
        summary: if n > 0 {
            "Reboot to apply system changes."@
        } else {
            "You're running the latest images and apps."@
        },
        close_label: "Close"@,
        full: true,
        done: true,
    }
}

/// The dialog after an event.
pub open spec fn dialog_step(d: DialogView, e: CheckEventView) -> DialogView {
    match e {
        CheckEventView::ModuleStart(key) => DialogView {
            sources: d.sources.map_values(
                |s: SourceView| source_set(s, key, SourceStateView::Checking),
            ),
            ..d
        },
        CheckEventView::ModuleComplete(key) => DialogView {
            sources: d.sources.map_values(
                |s: SourceView| source_set(s, key, SourceStateView::UpToDate),
            ),
            ..d
        },
        CheckEventView::ModuleFound(key, message) => DialogView {
            sources: d.sources.map_values(
                |s: SourceView| source_set(s, key, SourceStateView::Found(message)),
            ),
            ..d
        },
        CheckEventView::LogLine { module, line } => DialogView {
            sources: d.sources.map_values(
                |s: SourceView| source_logged(s, module, without_escapes(line)),
            ),
            ..d
        },
        CheckEventView::Done => dialog_done(d),
        CheckEventView::Error(message) => DialogView {
            sources: d.sources.map_values(|s: SourceView| source_stopped(s)),
            title: "Check failed"@,
            summary: message,
            done: true,
            ..d
        },
    }
}

/// What a run came to, when it is done.
pub open spec fn result_of(d: DialogView, e: CheckEventView) -> Option<(bool, int)> {
    if e is Done {
        Some((first_found(d.sources), found_count(d.sources)))
    } else {
        None
    }
}

/// How far the run is, in halves of a source: each one that is finished counts
/// two, and each one that runs counts one.
pub open spec fn halves(sources: Seq<SourceView>) -> int
    decreases sources.len(),
{
    if sources.len() == 0 {
        0
    } else {
        halves(sources.drop_last()) + match sources.last().state {
            SourceStateView::Found(_) => 2int,
            SourceStateView::UpToDate => 2,
            SourceStateView::Checking => 1,
            SourceStateView::Waiting => 0,
        }
    }
}

/// Whether the dialog has a row for each source.
pub open spec fn has_rows(d: DialogView) -> bool {
    d.sources.len() == 4
}

fn copy_state(s: &SourceState) -> (r: SourceState)
    ensures
        r.deep_view() == s.deep_view(),
{
    match s {
        SourceState::Waiting => SourceState::Waiting,
        SourceState::Checking => SourceState::Checking,
        SourceState::Found(m) => SourceState::Found(m.clone()),
        SourceState::UpToDate => SourceState::UpToDate,
    }
}

fn first_row(name: &str) -> (r: SourceEntry)
    ensures
        r.deep_view() == (SourceView { name: name@, state: SourceStateView::Waiting, log: ""@ }),
{
    SourceEntry { name: name.to_string(), state: SourceState::Waiting, log: "".to_string() }
}

/// The dialog as it opens.
pub open spec fn opened_dialog() -> DialogView {
    DialogView {
        sources: source_rows().map_values(
            |r: (Seq<char>, Seq<char>, Seq<char>, Seq<char>)|
                SourceView { name: r.1, state: SourceStateView::Waiting, log: ""@ },
        ),
        title: "Updating…"@,
        summary: "Running update across 4 sources…"@,
        close_label: "Cancel"@,
        full: false,
        done: false,
    }
}

/// The dialog as it opens.
pub fn show_update_check_dialog() -> (r: CheckDialog)
    ensures
        r.deep_view() == opened_dialog(),
        has_rows(r.deep_view()),
{
    let mut sources: Vec<SourceEntry> = Vec::new();
    sources.push(first_row("System image"));
    sources.push(first_row("Flatpak"));
    sources.push(first_row("Homebrew"));
    sources.push(first_row("Distrobox"));
    assert(sources.deep_view() =~= opened_dialog().sources);
    CheckDialog {
        sources,
        title: "Updating…".to_string(),
        summary: "Running update across 4 sources…".to_string(),
        close_label: "Cancel".to_string(),
        full: false,
        done: false,
    }
}

impl CheckDialog {
    fn set_state(&mut self, key: &str, state: SourceState)
        ensures
            final(self).deep_view() == (DialogView {
                sources: old(self).deep_view().sources.map_values(
                    |s: SourceView| source_set(s, key@, state.deep_view()),
                ),
                ..old(self).deep_view()
            }),
    {
        let ghost before = self.sources.deep_view();
        let ghost want = before.map_values(|s: SourceView| source_set(s, key@, state.deep_view()));
        let ghost d = self.deep_view();
        let n: usize = self.sources.len();
        let mut i: usize = 0;
        assert(want.take(0) + before.skip(0) =~= before);
        while i < n
            invariant
                0 <= i <= n,
                n == self.sources@.len(),
                before.len() == n,
                want == before.map_values(
                    |s: SourceView| source_set(s, key@, state.deep_view()),
                ),
                self.deep_view() == (DialogView {
                    sources: want.take(i as int) + before.skip(i as int),
                    ..d
                }),
            decreases n - i,
        {
            let ghost now = self.sources.deep_view();
            assert(now[i as int] == self.sources@[i as int].deep_view());
            assert(now[i as int] == before[i as int]);
            if source_matches_key(self.sources[i].name.as_str(), key) {
                let next: SourceEntry = SourceEntry {
                    name: self.sources[i].name.clone(),
                    state: copy_state(&state),
                    log: self.sources[i].log.clone(),
                };
                let ghost nv = next.deep_view();
                self.sources.set(i, next);
                assert(nv =~= want[i as int]);
                assert(self.sources.deep_view() =~= now.update(i as int, nv));
            } else {
                assert(now[i as int] == want[i as int]);
            }
            i += 1;
            assert(self.sources.deep_view() =~= want.take(i as int) + before.skip(i as int));
        }
        assert(want.take(n as int) + before.skip(n as int) =~= want);
    }

    fn append_log(&mut self, key: &str, line: &str)
        ensures
            final(self).deep_view() == (DialogView {
                sources: old(self).deep_view().sources.map_values(
                    |s: SourceView| source_logged(s, key@, line@),
                ),
                ..old(self).deep_view()
            }),
    {
        let ghost before = self.sources.deep_view();
        let ghost want = before.map_values(|s: SourceView| source_logged(s, key@, line@));
        let ghost d = self.deep_view();
        let n: usize = self.sources.len();
        let mut i: usize = 0;
        assert(want.take(0) + before.skip(0) =~= before);
        while i < n
            invariant
                0 <= i <= n,
                n == self.sources@.len(),
                before.len() == n,
                want == before.map_values(|s: SourceView| source_logged(s, key@, line@)),
                self.deep_view() == (DialogView {
                    sources: want.take(i as int) + before.skip(i as int),
                    ..d
                }),
            decreases n - i,
        {
            let ghost now = self.sources.deep_view();
            assert(now[i as int] == self.sources@[i as int].deep_view());
            assert(now[i as int] == before[i as int]);
            if source_matches_key(self.sources[i].name.as_str(), key) {
                let log: String = if self.sources[i].log.as_str().is_empty() {
                    line.to_string()
                } else {
                    text::cat3(self.sources[i].log.as_str(), "\n", line)
                };
                let next: SourceEntry = SourceEntry {
                    name: self.sources[i].name.clone(),
                    state: copy_state(&self.sources[i].state),
                    log,
                };
                let ghost nv = next.deep_view();
                self.sources.set(i, next);
                assert(nv =~= want[i as int]);
                assert(self.sources.deep_view() =~= now.update(i as int, nv));
            } else {
                assert(now[i as int] == want[i as int]);
            }
            i += 1;
            assert(self.sources.deep_view() =~= want.take(i as int) + before.skip(i as int));
        }
        assert(want.take(n as int) + before.skip(n as int) =~= want);
    }

    /// Every source that runs, and with `waiting` every one that waits, is up to
    /// date.
    fn settle(&mut self, waiting: bool)
        ensures
            final(self).deep_view() == (DialogView {
                sources: old(self).deep_view().sources.map_values(
                    |s: SourceView|
                        if waiting {
                            source_done(s)
                        } else {
                            source_stopped(s)
                        },
                ),
                ..old(self).deep_view()
            }),
    {
        let ghost before = self.sources.deep_view();
        let ghost settled = |s: SourceView|
            if waiting {
                source_done(s)
            } else {
                source_stopped(s)
            };
        let ghost want = before.map_values(settled);
        let ghost d = self.deep_view();
        let n: usize = self.sources.len();
        let mut i: usize = 0;
        assert(want.take(0) + before.skip(0) =~= before);
        while i < n
            invariant
                0 <= i <= n,
                n == self.sources@.len(),
                before.len() == n,
                settled == (|s: SourceView|
                    if waiting {
                        source_done(s)
                    } else {
                        source_stopped(s)
                    }),
                want == before.map_values(settled),
                self.deep_view() == (DialogView {
                    sources: want.take(i as int) + before.skip(i as int),
                    ..d
                }),
            decreases n - i,
        {
            let ghost now = self.sources.deep_view();
            assert(now[i as int] == self.sources@[i as int].deep_view());
            assert(now[i as int] == before[i as int]);
            let changes: bool = match &self.sources[i].state {
                SourceState::Checking => true,
                SourceState::Waiting => waiting,
                _ => false,
            };
            if changes {
                let next: SourceEntry = SourceEntry {
                    name: self.sources[i].name.clone(),
                    state: SourceState::UpToDate,
                    log: self.sources[i].log.clone(),
                };
                let ghost nv = next.deep_view();
                self.sources.set(i, next);
                assert(nv =~= want[i as int]);
                assert(self.sources.deep_view() =~= now.update(i as int, nv));
            } else {
                assert(now[i as int] == want[i as int]);
            }
            i += 1;
            assert(self.sources.deep_view() =~= want.take(i as int) + before.skip(i as int));
        }
        assert(want.take(n as int) + before.skip(n as int) =~= want);
    }

    fn count_found(&self) -> (r: u32)
        requires
            has_rows(self.deep_view()),
        ensures
            r == found_count(self.deep_view().sources),
    {
        let ghost all = self.sources.deep_view();
        let mut n: u32 = 0;
        let mut i: usize = 0;
        assert(all.take(0) =~= Seq::<SourceView>::empty());
        assert(all.len() == self.sources@.len());
        while i < self.sources.len()
            invariant
                0 <= i <= self.sources@.len(),
                self.sources@.len() == 4,
                all == self.sources.deep_view(),
                n == found_count(all.take(i as int)),
                n <= i,
            decreases self.sources@.len() - i,
        {
            assert(all.take(i + 1).drop_last() =~= all.take(i as int));
            assert(all.take(i + 1).last() == self.sources@[i as int].deep_view());
            if let SourceState::Found(_) = &self.sources[i].state {
                n += 1;
            }
            i += 1;
        }
        assert(all.take(i as int) =~= all);
        n
    }

    fn finish(&mut self) -> (r: CheckResult)
        requires
            has_rows(old(self).deep_view()),
        ensures
            final(self).deep_view() == dialog_done(old(self).deep_view()),
            (r.system_update, r.sources_with_updates as int) == (
                first_found(old(self).deep_view().sources),
                found_count(old(self).deep_view().sources),
            ),
            r.total_updates == r.sources_with_updates,
    {
        let ghost d = self.deep_view();
        let n: u32 = self.count_found();
        assert(self.sources.deep_view().len() == self.sources@.len());
        assert(self.sources.deep_view()[0] == self.sources@[0].deep_view());
        let system_update: bool = match &self.sources[0].state {
            SourceState::Found(_) => true,
            _ => false,
        };
        self.settle(true);
        assert(self.sources.deep_view() =~= d.sources.map_values(|s: SourceView| source_done(s)));
        if n > 0 {
            let count: String = text::number(n as u64);
            let end: &str = if n == 1 {
                ""
            } else {
                "s"
            };
            self.title = text::cat4("Updates installed · ", count.as_str(), " source", end);
            self.summary = "Reboot to apply system changes.".to_string();
        } else {
            self.title = "Everything is up to date".to_string();
            self.summary = "You're running the latest images and apps.".to_string();
        }
        self.close_label = "Close".to_string();
        self.full = true;
        self.done = true;
        CheckResult { system_update, sources_with_updates: n, total_updates: n }
    }

    /// Answers an event; the result is there when the run is done.
    pub fn update(&mut self, event: CheckEvent) -> (r: Option<CheckResult>)
        requires
            has_rows(old(self).deep_view()),
        ensures
            final(self).deep_view() == dialog_step(old(self).deep_view(), event.deep_view()),
            has_rows(final(self).deep_view()),
            match r {
                Some(c) => result_of(old(self).deep_view(), event.deep_view()) == Some(
                    (c.system_update, c.sources_with_updates as int),
                ) && c.total_updates == c.sources_with_updates,
                None => result_of(old(self).deep_view(), event.deep_view()) is None,
            },
    {
        let ghost d = self.deep_view();
        match event {
            CheckEvent::ModuleStart(key) => {
                self.set_state(key.as_str(), SourceState::Checking);
                None
            },
            CheckEvent::ModuleComplete(key) => {
                self.set_state(key.as_str(), SourceState::UpToDate);
                None
            },
            CheckEvent::ModuleFound(key, message) => {
                self.set_state(key.as_str(), SourceState::Found(message));
                None
            },
            CheckEvent::LogLine { module, line } => {
                let plain: String = strip_ansi_escapes(line.as_str());
                self.append_log(module.as_str(), plain.as_str());
                None
            },
            CheckEvent::Done => Some(self.finish()),
            CheckEvent::Error(message) => {
                self.settle(false);
                assert(self.sources.deep_view() =~= d.sources.map_values(
                    |s: SourceView| source_stopped(s),
                ));
                self.title = "Check failed".to_string();
                self.summary = message;
                self.done = true;
                None
            },
        }
    }

    /// How far the run is, in halves of a source, and how many halves there are.
    pub fn update_progress(&self) -> (r: (u32, u32))
        requires
            has_rows(self.deep_view()),
        ensures
            r.0 == halves(self.deep_view().sources),
            r.1 == 8,
            r.0 <= r.1,
    {
        let ghost all = self.sources.deep_view();
        let mut n: u32 = 0;
        let mut i: usize = 0;
        assert(all.take(0) =~= Seq::<SourceView>::empty());
        assert(all.len() == self.sources@.len());
        while i < self.sources.len()
            invariant
                0 <= i <= self.sources@.len(),
                self.sources@.len() == 4,
                all == self.sources.deep_view(),
                n == halves(all.take(i as int)),
                n <= 2 * i,
            decreases self.sources@.len() - i,
        {
            assert(all.take(i + 1).drop_last() =~= all.take(i as int));
            assert(all.take(i + 1).last() == self.sources@[i as int].deep_view());
            match &self.sources[i].state {
                SourceState::Found(_) => {
                    n += 2;
                },
                SourceState::UpToDate => {
                    n += 2;
                },
                SourceState::Checking => {
                    n += 1;
                },
                SourceState::Waiting => {},
            }
            i += 1;
        }
        assert(all.take(i as int) =~= all);
        (n, 8)
    }
}

/// When the run is done, no source waits or runs any more, and those with
/// updates keep them.
pub proof fn law_every_source_is_settled(d: DialogView, i: int)
    requires
        0 <= i < d.sources.len(),
    ensures
        ({
            let after = dialog_step(d, CheckEventView::Done);
            &&& after.sources[i].state is Found || after.sources[i].state is UpToDate
            &&& d.sources[i].state is Found ==> after.sources[i] == d.sources[i]
            &&& after.sources[i].name == d.sources[i].name
            &&& after.sources[i].log == d.sources[i].log
        }),
{
}

/// The button reads "Cancel" when the dialog opens. Only a run that is done makes it
/// read "Close"; no other event changes it, a failure neither.
pub proof fn law_button_closes_what_is_done(d: DialogView, e: CheckEventView)
    ensures
        opened_dialog().close_label == "Cancel"@,
        dialog_step(d, e).close_label == if e is Done {
            "Close"@
        } else {
            d.close_label
        },
        dialog_step(d, e).done == (d.done || e is Done || e is Error),
{
}

/// A run that completed updated the system image: the dialog says so.
pub proof fn law_completed_run_updated_the_system(d: DialogView, key: Option<Seq<char>>)
    requires
        has_rows(d),
        d.sources[0].name == "System image"@,
    ensures
        ({
            let events = told(key, EventView::Complete).0;
            let n = events.len();
            let found = dialog_step(d, events[n - 2]);
            &&& n >= 2
            &&& events[n - 1] == CheckEventView::Done
            &&& first_found(found.sources)
            &&& found_count(found.sources) > 0
        }),
{
    let events = told(key, EventView::Complete).0;
    let found = dialog_step(d, events[events.len() - 2]);
    assert(events[events.len() - 2] == CheckEventView::ModuleFound(
        "system"@,
        "Update installed"@,
    ));
    assert(found.sources[0].state is Found);
    lemma_found_count(found.sources);
}

proof fn lemma_found_count(sources: Seq<SourceView>)
    requires
        first_found(sources),
    ensures
        found_count(sources) > 0,
    decreases sources.len(),
{
    if sources.len() > 1 {
        assert(sources.drop_last()[0] == sources[0]);
        lemma_found_count(sources.drop_last());
    } else {
        assert(sources.last() == sources[0]);
        lemma_found_count_nonnegative(sources.drop_last());
    }
}

proof fn lemma_found_count_nonnegative(sources: Seq<SourceView>)
    ensures
        found_count(sources) >= 0,
    decreases sources.len(),
{
    if sources.len() > 0 {
        lemma_found_count_nonnegative(sources.drop_last());
    }
}

// ── What the dialog is for ───────────────────────────────────────────────────

/// Whether the rows are those of the sources, in their order.
pub open spec fn rows_are_named(d: DialogView) -> bool {
    d.sources.len() == 4 && forall|i: int|
        0 <= i < 4 ==> (#[trigger] d.sources[i]).name == source_rows()[i].1
}

proof fn lemma_sources_differ()
    ensures
        forall|i: int, j: int|
            0 <= i < 4 && 0 <= j < 4 ==> (#[trigger] is_source(
                source_rows()[i].1,
                source_rows()[j].0,
            ) <==> i == j),
{
    reveal_strlit("system");
    reveal_strlit("flatpak");
    reveal_strlit("brew");
    reveal_strlit("distrobox");
    reveal_strlit("System image");
    reveal_strlit("Flatpak");
    reveal_strlit("Homebrew");
    reveal_strlit("Distrobox");
    let keys = seq!["system"@, "flatpak"@, "brew"@, "distrobox"@];
    let names = seq!["System image"@, "Flatpak"@, "Homebrew"@, "Distrobox"@];
    assert("system"@[0] == 's' && "flatpak"@[0] == 'f' && "brew"@[0] == 'b' && "distrobox"@[0]
        == 'd');
    assert("System image"@[0] == 'S' && "Flatpak"@[0] == 'F' && "Homebrew"@[0] == 'H'
        && "Distrobox"@[0] == 'D');
    assert forall|i: int, j: int| 0 <= i < 4 && 0 <= j < 4 implies (#[trigger] is_source(
        source_rows()[i].1,
        source_rows()[j].0,
    ) <==> i == j) by {
        assert(source_rows()[i].1 == names[i]);
        assert(source_rows()[j].0 == keys[j]);
    }
}

/// Every event keeps the rows. What happens to a module is shown in its own row: that it
/// runs, that it is up to date, or what was found. Every other row stays as it is.
pub proof fn law_event_is_shown_in_its_row(d: DialogView, i: int, j: int, found: Seq<char>)
    requires
        rows_are_named(d),
        0 <= i < 4,
        0 <= j < 4,
    ensures
        ({
            let key = source_rows()[j].0;
            let a = dialog_step(d, CheckEventView::ModuleStart(key));
            let b = dialog_step(d, CheckEventView::ModuleComplete(key));
            let c = dialog_step(d, CheckEventView::ModuleFound(key, found));
            &&& rows_are_named(a) && rows_are_named(b) && rows_are_named(c)
            &&& a.sources[j].state is Checking
            &&& b.sources[j].state is UpToDate
            &&& c.sources[j].state == SourceStateView::Found(found)
            &&& i != j ==> a.sources[i] == d.sources[i] && b.sources[i] == d.sources[i]
                && c.sources[i] == d.sources[i]
            &&& a.sources[j].log == d.sources[j].log
            &&& !d.done ==> !a.done && !b.done && !c.done
        }),
{
    lemma_sources_differ();
    let key = source_rows()[j].0;
    assert forall|k: int| 0 <= k < 4 implies (is_source(
        #[trigger] d.sources[k].name,
        key,
    ) <==> k == j) by {
        assert(d.sources[k].name == source_rows()[k].1);
        assert(is_source(source_rows()[k].1, source_rows()[j].0) <==> k == j);
    }
    let a = dialog_step(d, CheckEventView::ModuleStart(key));
    let b = dialog_step(d, CheckEventView::ModuleComplete(key));
    let c = dialog_step(d, CheckEventView::ModuleFound(key, found));
    assert forall|k: int| 0 <= k < 4 implies (#[trigger] a.sources[k]).name == source_rows()[k].1 by {
        assert(d.sources[k].name == source_rows()[k].1);
    }
    assert forall|k: int| 0 <= k < 4 implies (#[trigger] b.sources[k]).name == source_rows()[k].1 by {
        assert(d.sources[k].name == source_rows()[k].1);
    }
    assert forall|k: int| 0 <= k < 4 implies (#[trigger] c.sources[k]).name == source_rows()[k].1 by {
        assert(d.sources[k].name == source_rows()[k].1);
    }
}

/// A line is written to the log of its own source, behind what stood there and on a line
/// of its own; no other log and no state changes.
pub proof fn law_line_is_shown_in_its_row(d: DialogView, i: int, j: int, line: Seq<char>)
    requires
        rows_are_named(d),
        0 <= i < 4,
        0 <= j < 4,
        !line.contains('\x1b'),
    ensures
        ({
            let after = dialog_step(
                d,
                CheckEventView::LogLine { module: source_rows()[j].0, line },
            );
            &&& i != j ==> after.sources[i] == d.sources[i]
            &&& after.sources[j].state == d.sources[j].state
            &&& d.sources[j].log.len() == 0 ==> after.sources[j].log == line
            &&& d.sources[j].log.len() > 0 ==> after.sources[j].log == d.sources[j].log.push('\n')
                + line
        }),
{
    lemma_sources_differ();
    law_plain_text_is_kept(line);
    reveal_strlit("\n");
    assert(is_source(source_rows()[i].1, source_rows()[j].0) <==> i == j);
    assert(is_source(source_rows()[j].1, source_rows()[j].0));
    assert(d.sources[i].name == source_rows()[i].1 && d.sources[j].name == source_rows()[j].1);
    assert(d.sources[j].log + "\n"@ + line =~= d.sources[j].log.push('\n') + line);
}

/// An escape sequence is taken out of a text whole: from the escape to the letter that
/// ends it. What stands in front of it and behind it stays.
pub proof fn law_escapes_are_taken_out(
    before: Seq<char>,
    numbers: Seq<char>,
    letter: char,
    behind: Seq<char>,
)
    requires
        !before.contains('\x1b'),
        forall|i: int| 0 <= i < numbers.len() ==> !text::is_ascii_letter(#[trigger] numbers[i]),
        text::is_ascii_letter(letter),
    ensures
        without_escapes(before + seq!['\x1b', '['] + numbers.push(letter) + behind) == before
            + without_escapes(behind),
    decreases before.len(),
{
    let all = before + seq!['\x1b', '['] + numbers.push(letter) + behind;
    if before.len() == 0 {
        lemma_letter_ends(numbers, letter, behind);
        assert(all.skip(2) =~= numbers.push(letter) + behind);
        assert(all[0] == '\x1b' && all[1] == '[');
        assert(before + without_escapes(behind) =~= without_escapes(behind));
    } else {
        let rest = before.drop_first();
        assert(all[0] == before[0]);
        assert(before.contains(before[0]));
        assert forall|i: int| 0 <= i < rest.len() implies rest[i] != '\x1b' by {
            assert(before.contains(before[i + 1]));
        }
        law_escapes_are_taken_out(rest, numbers, letter, behind);
        assert(all.drop_first() =~= rest + seq!['\x1b', '['] + numbers.push(letter) + behind);
        assert(seq![before[0]] + (rest + without_escapes(behind)) =~= before + without_escapes(
            behind,
        ));
    }
}

proof fn lemma_letter_ends(numbers: Seq<char>, letter: char, behind: Seq<char>)
    requires
        forall|i: int| 0 <= i < numbers.len() ==> !text::is_ascii_letter(#[trigger] numbers[i]),
        text::is_ascii_letter(letter),
    ensures
        behind_letter(numbers.push(letter) + behind) == behind,
    decreases numbers.len(),
{
    let all = numbers.push(letter) + behind;
    if numbers.len() == 0 {
        assert(all[0] == letter);
        assert(all.drop_first() =~= behind);
    } else {
        let rest = numbers.drop_first();
        assert(all[0] == numbers[0]);
        assert(!text::is_ascii_letter(numbers[0]));
        assert forall|i: int| 0 <= i < rest.len() implies !text::is_ascii_letter(
            #[trigger] rest[i],
        ) by {
            assert(!text::is_ascii_letter(numbers[i + 1]));
        }
        lemma_letter_ends(rest, letter, behind);
        assert(all.drop_first() =~= rest.push(letter) + behind);
    }
}

proof fn lemma_counts(sources: Seq<SourceView>)
    ensures
        found_count(sources) == sources.filter(|s: SourceView| s.state is Found).len(),
        halves(sources) == 2 * sources.filter(
            |s: SourceView| s.state is Found || s.state is UpToDate,
        ).len() + sources.filter(|s: SourceView| s.state is Checking).len(),
    decreases sources.len(),
{
    reveal(Seq::filter);
    if sources.len() > 0 {
        let front = sources.drop_last();
        lemma_counts(front);
        assert(front.push(sources.last()) =~= sources);
        crate::registry_client::lemma_filter_push(
            front,
            sources.last(),
            |s: SourceView| s.state is Found,
        );
        crate::registry_client::lemma_filter_push(
            front,
            sources.last(),
            |s: SourceView| s.state is Found || s.state is UpToDate,
        );
        crate::registry_client::lemma_filter_push(
            front,
            sources.last(),
            |s: SourceView| s.state is Checking,
        );
    }
}

/// A run that is done tells how many sources had updates, and whether the first of them,
/// the system image, had. The title tells that number, or that there is nothing.
pub proof fn law_result_counts_the_sources(d: DialogView)
    requires
        rows_are_named(d),
    ensures
        ({
            let n = d.sources.filter(|s: SourceView| s.state is Found).len();
            let after = dialog_step(d, CheckEventView::Done);
            &&& result_of(d, CheckEventView::Done) == Some(
                (d.sources[0].state is Found, n as int),
            )
            &&& n == 0 ==> after.title == "Everything is up to date"@
            &&& n > 0 ==> text::begins(after.title, "Updates installed · "@ + text::decimal(n))
            &&& after.done && after.full
        }),
        forall|e: CheckEventView| !(e is Done) ==> #[trigger] result_of(d, e) is None,
{
    lemma_counts(d.sources);
    let n = d.sources.filter(|s: SourceView| s.state is Found).len();
    if n > 0 {
        let title = dialog_step(d, CheckEventView::Done).title;
        let head = "Updates installed · "@ + text::decimal(n);
        assert(title.subrange(0, head.len() as int) =~= head);
    }
}

/// How far a run is counts each source that is finished in full, and each that runs by
/// half.
pub proof fn law_progress_counts_the_sources(d: DialogView)
    ensures
        halves(d.sources) == 2 * d.sources.filter(
            |s: SourceView| s.state is Found || s.state is UpToDate,
        ).len() + d.sources.filter(|s: SourceView| s.state is Checking).len(),
{
    lemma_counts(d.sources);
}

/// A failure is told in the words it came with. No source runs any more; what was found
/// stays, and what waits still waits.
pub proof fn law_failed_run_is_told(d: DialogView, message: Seq<char>, i: int)
    requires
        0 <= i < d.sources.len(),
    ensures
        ({
            let after = dialog_step(d, CheckEventView::Error(message));
            &&& after.summary == message
            &&& after.title == "Check failed"@
            &&& after.done
            &&& !(after.sources[i].state is Checking)
            &&& !(d.sources[i].state is Checking) ==> after.sources[i] == d.sources[i]
            &&& after.sources[i].log == d.sources[i].log
        }),
{
}

/// A module that starts closes the one before it, unless it is the same, and is then
/// shown as running. The end of a run is its last event: a completed one has found the
/// system image's update, one that is up to date has found nothing, and a failed one
/// tells its error and nothing else.
pub proof fn law_run_is_followed(current: Option<Seq<char>>, module: Module, err: Seq<char>)
    ensures
        told(current, EventView::ModuleStarted(module)).0.last() == CheckEventView::ModuleStart(
            module_key(module),
        ),
        current matches Some(prev) ==> prev != module_key(module) ==> told(
            current,
            EventView::ModuleStarted(module),
        ).0[0] == CheckEventView::ModuleComplete(prev),
        module_after(current, EventView::ModuleStarted(module)) == Some(module_key(module)),
        told(current, EventView::Complete).0.last() == CheckEventView::Done,
        told(current, EventView::UpToDate).0.last() == CheckEventView::Done,
        forall|i: int|
            0 <= i < told(current, EventView::UpToDate).0.len() ==> !(#[trigger] told(
                current,
                EventView::UpToDate,
            ).0[i] is ModuleFound),
        told(current, EventView::Error(err)).0 == seq![CheckEventView::Error(err)],
        told(current, EventView::Complete).1,
        told(current, EventView::UpToDate).1,
        told(current, EventView::Error(err)).1,
        !told(current, EventView::ModuleStarted(module)).1,
{
}

/// A module that failed is told as an error that names it and its code; one that ended in
/// any other way is complete.
pub proof fn law_failed_module_is_told(current: Option<Seq<char>>, module: Module, status: ModuleStatus)
    ensures
        ({
            let events = told(current, EventView::ModuleFinished(module, status)).0;
            &&& events.len() == 1
            &&& status matches ModuleStatus::Failed(code) ==> (events[0] matches CheckEventView::Error(m)
                && text::begins(m, module_key(module)) && text::ends(
                m,
                text::signed_decimal(code as int) + ")"@,
            ))
            &&& !(status is Failed) ==> events[0] == CheckEventView::ModuleComplete(
                module_key(module),
            )
            &&& !told(current, EventView::ModuleFinished(module, status)).1
        }),
{
    if let ModuleStatus::Failed(code) = status {
        let key = module_key(module);
        let tail = text::signed_decimal(code as int) + ")"@;
        let m = key + " module failed (exit "@ + code_text(Some(code)) + ")"@;
        assert(m.subrange(0, key.len() as int) =~= key);
        assert(m =~= key + " module failed (exit "@ + tail);
        assert(m.subrange(m.len() - tail.len(), m.len() as int) =~= tail);
    }
}

/// A line of output is logged whole, under the module that is current once it was read.
/// A line that announces no module changes none and tells nothing else.
pub proof fn law_output_is_logged(current: Option<Seq<char>>, line: Seq<char>)
    ensures
        ({
            let events = told(current, EventView::Output(line)).0;
            let now = module_after(current, EventView::Output(line));
            &&& now matches Some(m) ==> events.len() > 0 && events.last()
                == CheckEventView::LogLine { module: m, line }
            &&& now is None ==> events.len() == 0
            &&& !text::holds(line, "module_name="@) ==> now == current && events.len() <= 1
        }),
{
    if !text::holds(line, "module_name="@) {
        lemma_no_announcement(line, "module_name=System"@);
        lemma_no_announcement(line, "module_name=Flatpak"@);
        lemma_no_announcement(line, "module_name=Brew"@);
        lemma_no_announcement(line, "module_name=Distrobox"@);
        reveal_strlit("module_name=");
        reveal_strlit("module_name=System");
        reveal_strlit("module_name=Flatpak");
        reveal_strlit("module_name=Brew");
        reveal_strlit("module_name=Distrobox");
        assert("module_name=System"@.take(12) =~= "module_name="@);
        assert("module_name=Flatpak"@.take(12) =~= "module_name="@);
        assert("module_name=Brew"@.take(12) =~= "module_name="@);
        assert("module_name=Distrobox"@.take(12) =~= "module_name="@);
    }
}

proof fn lemma_no_announcement(line: Seq<char>, words: Seq<char>)
    ensures
        !text::holds(line, "module_name="@) && words.len() >= 12 && words.take(12)
            == "module_name="@ ==> !text::holds(line, words),
{
    reveal_strlit("module_name=");
    if words.len() >= 12 && words.take(12) == "module_name="@ && text::holds(line, words) {
        let i = choose|i: int| text::stands_at(line, words, i);
        assert(line.subrange(i, i + 12) =~= line.subrange(i, i + words.len() as int).take(12));
        assert(text::stands_at(line, "module_name="@, i));
    }
}

} // verus!
