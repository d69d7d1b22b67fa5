//! The list of modules during an update run, each with its status and log.
use crate::text;
use vstd::prelude::*;

verus! {

/// Status of a module in the list.
#[derive(Debug, Clone, Copy, PartialEq, Eq, Structural)]
pub enum ModuleStatus {
    Pending,
    Running,
    Complete,
    Failed,
}

/// One row: status, the log of the module, and the text of its log label.
#[derive(Debug, PartialEq)]
pub struct ModuleEntry {
    pub status: ModuleStatus,
    pub log_text: String,
    pub log_label: String,
}

/// What a row is.
#[verifier::ext_equal]
pub struct EntryView {
    pub status: ModuleStatus,
    pub log_text: Seq<char>,
    pub log_label: Seq<char>,
}

impl DeepView for ModuleEntry {
    type V = EntryView;

    open spec fn deep_view(&self) -> EntryView {
        EntryView {
            status: self.status,
            log_text: self.log_text@,
            log_label: self.log_label@,
        }
    }
}

/// Messages to the list.
#[derive(Debug, PartialEq)]
pub enum UpdateListInput {
    /// A new run starts.
    Reset,
    /// A line of the log.
    ProcessLine(String),
    /// Show the logs, or hide them.
    SetNerdMode(bool),
    /// The run finished successfully.
    MarkAllComplete,
    /// The run failed in the module that is running.
    MarkCurrentFailed,
}

/// What a message is.
#[verifier::ext_equal]
pub enum ListInputView {
    Reset,
    ProcessLine(Seq<char>),
    SetNerdMode(bool),
    MarkAllComplete,
    MarkCurrentFailed,
}

impl DeepView for UpdateListInput {
    type V = ListInputView;

    open spec fn deep_view(&self) -> ListInputView {
        match self {
            UpdateListInput::Reset => ListInputView::Reset,
            UpdateListInput::ProcessLine(line) => ListInputView::ProcessLine(line@),
            UpdateListInput::SetNerdMode(on) => ListInputView::SetNerdMode(*on),
            UpdateListInput::MarkAllComplete => ListInputView::MarkAllComplete,
            UpdateListInput::MarkCurrentFailed => ListInputView::MarkCurrentFailed,
        }
    }
}

/// The list: a row for each module, which of them runs, and whether the logs are
/// shown.
#[derive(Debug)]
pub struct UpdateList {
    pub modules: Vec<ModuleEntry>,
    pub current_module: Option<usize>,
    pub nerd_mode: bool,
}

/// What the list is.
#[verifier::ext_equal]
pub struct ListView {
    pub modules: Seq<EntryView>,
    pub current: Option<usize>,
    pub nerd_mode: bool,
}

impl DeepView for UpdateList {
    type V = ListView;

    open spec fn deep_view(&self) -> ListView {
        ListView {
            modules: self.modules.deep_view(),
            current: self.current_module,
            nerd_mode: self.nerd_mode,
        }
    }
}

/// Key, title and description of each module, in the order of the rows.
pub open spec fn module_rows() -> Seq<(Seq<char>, Seq<char>, Seq<char>)> {
    seq![
        ("system"@, "System"@, "OS image · bootc"@),
        ("flatpak"@, "Flatpak"@, "Applications"@),
        ("brew"@, "Brew"@, "Homebrew packages"@),
        ("distrobox"@, "Distrobox"@, "Container environments"@),
    ]
}

/// Key, title and description of each module, in the order of the rows.
pub fn modules() -> (r: Vec<(&'static str, &'static str, &'static str)>)
    ensures
        r.deep_view() == module_rows(),
{
    let mut r: Vec<(&'static str, &'static str, &'static str)> = Vec::new();
    r.push(("system", "System", "OS image · bootc"));
    r.push(("flatpak", "Flatpak", "Applications"));
    r.push(("brew", "Brew", "Homebrew packages"));
    r.push(("distrobox", "Distrobox", "Container environments"));
    assert(r.deep_view() =~= module_rows());
    r
}

/// The row of the module that a line of the log announces: the first one whose
/// title stands behind `module_name=`.
pub open spec fn announced(line: Seq<char>) -> Option<usize> {
    if text::holds(line, "module_name=System"@) {
        Some(0)
    } else if text::holds(line, "module_name=Flatpak"@) {
        Some(1)
    } else if text::holds(line, "module_name=Brew"@) {
        Some(2)
    } else if text::holds(line, "module_name=Distrobox"@) {
        Some(3)
    } else {
        None
    }
}

/// The row of the module that a line of the log announces.
pub fn detect_module_start(line: &str) -> (r: Option<usize>)
    ensures
        r == announced(line@),
{
    if text::contains(line, "module_name=System") {
        Some(0)
    } else if text::contains(line, "module_name=Flatpak") {
        Some(1)
    } else if text::contains(line, "module_name=Brew") {
        Some(2)
    } else if text::contains(line, "module_name=Distrobox") {
        Some(3)
    } else {
        None
    }
}

/// A row of which nothing is known yet.
pub open spec fn fresh_row() -> EntryView {
    EntryView { status: ModuleStatus::Pending, log_text: ""@, log_label: "No output yet."@ }
}

/// A list with one status changed.
pub open spec fn with_status(v: ListView, i: int, status: ModuleStatus) -> ListView {
    ListView { modules: v.modules.update(i, EntryView { status, ..v.modules[i] }), ..v }
}

/// A list after a module was announced: the one that ran is complete, and the
/// announced one runs.
pub open spec fn switched_to(v: ListView, i: usize) -> ListView {
    let closed = match v.current {
        Some(prev) => if v.modules[prev as int].status == ModuleStatus::Running {
            with_status(v, prev as int, ModuleStatus::Complete)
        } else {
            v
        },
        None => v,
    };
    with_status(ListView { current: Some(i), ..closed }, i as int, ModuleStatus::Running)
}

/// A log with one more line.
pub open spec fn log_with(log: Seq<char>, line: Seq<char>) -> Seq<char> {
    if log.len() == 0 {
        line
    } else {
        log + "\n"@ + line
    }
}

/// A list after a line was written to the log of the module that runs.
pub open spec fn logged(v: ListView, line: Seq<char>) -> ListView {
    match v.current {
        Some(i) => {
            let row = v.modules[i as int];
            let log = log_with(row.log_text, line);
            ListView {
                modules: v.modules.update(
                    i as int,
                    EntryView { log_text: log, log_label: log, ..row },
                ),
                ..v
            }
        },
        None => v,
    }
}

/// Whether a line of the log tells of a failure.
pub open spec fn tells_failure(line: Seq<char>) -> bool {
    text::holds(line, "level=ERROR"@) || text::holds(line, "module_fail"@)
}

/// A list after a line of the log.
pub open spec fn after_line(v: ListView, line: Seq<char>) -> ListView {
    let started = match announced(line) {
        Some(i) => switched_to(v, i),
        None => v,
    };
    let written = logged(started, line);
    if tells_failure(line) && written.current is Some {
        with_status(written, written.current->0 as int, ModuleStatus::Failed)
    } else {
        written
    }
}

/// A status after the run succeeded.
pub open spec fn status_at_success(s: ModuleStatus) -> ModuleStatus {
    if s == ModuleStatus::Running || s == ModuleStatus::Pending {
        ModuleStatus::Complete
    } else {
        s
    }
}

/// A list after a message.
pub open spec fn list_step(v: ListView, msg: ListInputView) -> ListView {
    match msg {
        ListInputView::Reset => ListView {
            modules: Seq::new(v.modules.len(), |i: int| fresh_row()),
            current: None,
            nerd_mode: false,
        },
        ListInputView::ProcessLine(line) => after_line(v, line),
        ListInputView::SetNerdMode(on) => ListView { nerd_mode: on, ..v },
        ListInputView::MarkAllComplete => ListView {
            modules: Seq::new(
                v.modules.len(),
                |i: int|
                    EntryView { status: status_at_success(v.modules[i].status), ..v.modules[i] },
            ),
            current: None,
            ..v
        },
        ListInputView::MarkCurrentFailed => match v.current {
            Some(i) => if v.modules[i as int].status == ModuleStatus::Running {
                with_status(v, i as int, ModuleStatus::Failed)
            } else {
                v
            },
            None => v,
        },
    }
}

/// Whether a list has a row for each module, and the current one is among them.
pub open spec fn list_ok(v: ListView) -> bool {
    &&& v.modules.len() == 4
    &&& v.current matches Some(i) ==> i < 4
}

/// Whether no module but the current one runs.
pub open spec fn only_current_runs(v: ListView) -> bool {
    forall|i: int|
        0 <= i < v.modules.len() && (#[trigger] v.modules[i]).status == ModuleStatus::Running
            ==> v.current == Some(i as usize)
}

/// Every message keeps a list in shape, and at most the current module running.
pub proof fn law_one_module_runs(v: ListView, msg: ListInputView)
    requires
        list_ok(v),
        only_current_runs(v),
    ensures
        list_ok(list_step(v, msg)),
        only_current_runs(list_step(v, msg)),
{
    let after = list_step(v, msg);
    assert forall|i: int|
        0 <= i < after.modules.len() && (#[trigger] after.modules[i]).status
            == ModuleStatus::Running implies after.current == Some(i as usize) by {
        if msg is ProcessLine {
            let line = msg->ProcessLine_0;
            if announced(line) is Some {
                let s = switched_to(v, announced(line)->0);
                if i != announced(line)->0 {
                    assert(v.modules[i].status == ModuleStatus::Running ==> v.current == Some(
                        i as usize,
                    ));
                    assert(s.modules[i].status != ModuleStatus::Running);
                }
            } else {
                assert(v.modules[i].status == ModuleStatus::Running);
            }
        } else if msg is SetNerdMode || msg is MarkCurrentFailed {
            assert(v.modules[i].status == ModuleStatus::Running);
        }
    }
}

/// The name of the indicator of a status.
pub fn status_page(status: ModuleStatus) -> (r: &'static str)
    ensures
        r@ == match status {
            ModuleStatus::Pending => "pending"@,
            ModuleStatus::Running => "running"@,
            ModuleStatus::Complete => "complete"@,
            ModuleStatus::Failed => "failed"@,
        },
{
    match status {
        ModuleStatus::Pending => "pending",
        ModuleStatus::Running => "running",
        ModuleStatus::Complete => "complete",
        ModuleStatus::Failed => "failed",
    }
}

/// The second line of a row: what the module is, until something happens to it.
pub fn status_subtitle(description: &'static str, status: ModuleStatus) -> (r: &'static str)
    ensures
        r@ == match status {
            ModuleStatus::Pending => description@,
            ModuleStatus::Running => "Updating…"@,
            ModuleStatus::Complete => "Complete"@,
            ModuleStatus::Failed => "Failed"@,
        },
{
    match status {
        ModuleStatus::Pending => description,
        ModuleStatus::Running => "Updating…",
        ModuleStatus::Complete => "Complete",
        ModuleStatus::Failed => "Failed",
    }
}

fn fresh_entry() -> (r: ModuleEntry)
    ensures
        r.deep_view() == fresh_row(),
{
    ModuleEntry {
        status: ModuleStatus::Pending,
        log_text: "".to_string(),
        log_label: "No output yet.".to_string(),
    }
}

impl UpdateList {
    /// A list on which nothing has happened.
    pub fn init() -> (r: UpdateList)
        ensures
            list_ok(r.deep_view()),
            only_current_runs(r.deep_view()),
            r.deep_view() == (ListView {
                modules: Seq::new(4, |i: int| fresh_row()),
                current: None,
                nerd_mode: false,
            }),
    {
        let mut rows: Vec<ModuleEntry> = Vec::new();
        rows.push(fresh_entry());
        rows.push(fresh_entry());
        rows.push(fresh_entry());
        rows.push(fresh_entry());
        assert(rows.deep_view() =~= Seq::new(4, |i: int| fresh_row()));
        UpdateList { modules: rows, current_module: None, nerd_mode: false }
    }

    fn apply_status(&mut self, idx: usize, status: ModuleStatus)
        requires
            idx < old(self).modules@.len(),
        ensures
            final(self).deep_view() == with_status(old(self).deep_view(), idx as int, status),
    {
        let ghost before = self.modules.deep_view();
        let entry: ModuleEntry = ModuleEntry {
            status,
            log_text: self.modules[idx].log_text.clone(),
            log_label: self.modules[idx].log_label.clone(),
        };
        let ghost row = entry.deep_view();
        self.modules.set(idx, entry);
        assert(row =~= EntryView { status, ..before[idx as int] });
        assert(self.modules.deep_view() =~= before.update(idx as int, row));
    }

    fn append_log(&mut self, idx: usize, line: &str)
        requires
            idx < old(self).modules@.len(),
            old(self).current_module == Some(idx),
        ensures
            final(self).deep_view() == logged(old(self).deep_view(), line@),
    {
        let ghost v = self.deep_view();
        let ghost before = self.modules.deep_view();
        let entry: &ModuleEntry = &self.modules[idx];
        let log: String = if entry.log_text.as_str().is_empty() {
            line.to_string()
        } else {
            text::cat3(entry.log_text.as_str(), "\n", line)
        };
        let label: String = log.clone();
        let next: ModuleEntry = ModuleEntry {
            status: entry.status,
            log_text: log,
            log_label: label,
        };
        let ghost row = next.deep_view();
        self.modules.set(idx, next);
        assert(self.modules.deep_view() =~= before.update(idx as int, row));
        assert(self.deep_view() =~= logged(v, line@));
    }

    fn process_line(&mut self, line: &str)
        requires
            list_ok(old(self).deep_view()),
        ensures
            final(self).deep_view() == after_line(old(self).deep_view(), line@),
    {
        assert(self.modules.deep_view().len() == self.modules@.len());
        if let Some(idx) = detect_module_start(line) {
            if let Some(prev) = self.current_module {
                assert(self.modules.deep_view()[prev as int] == self.modules@[prev as int].deep_view());
                if self.modules[prev].status == ModuleStatus::Running {
                    self.apply_status(prev, ModuleStatus::Complete);
                }
            }
            assert(self.modules.deep_view().len() == self.modules@.len());
            self.current_module = Some(idx);
            self.apply_status(idx, ModuleStatus::Running);
        }
        assert(self.modules.deep_view().len() == self.modules@.len());
        if let Some(idx) = self.current_module {
            self.append_log(idx, line);
        }
        assert(self.modules.deep_view().len() == self.modules@.len());
        if text::contains(line, "level=ERROR") || text::contains(line, "module_fail") {
            if let Some(idx) = self.current_module {
                self.apply_status(idx, ModuleStatus::Failed);
            }
        }
    }

    fn reset(&mut self)
        ensures
            final(self).deep_view() == list_step(old(self).deep_view(), ListInputView::Reset),
    {
        let n: usize = self.modules.len();
        let mut rows: Vec<ModuleEntry> = Vec::new();
        let mut i: usize = 0;
        while i < n
            invariant
                i <= n,
                rows.deep_view() == Seq::new(i as nat, |j: int| fresh_row()),
            decreases n - i,
        {
            let ghost before = rows.deep_view();
            rows.push(fresh_entry());
            assert(rows.deep_view() =~= before.push(fresh_row()));
            i += 1;
            assert(rows.deep_view() =~= Seq::new(i as nat, |j: int| fresh_row()));
        }
        self.modules = rows;
        self.current_module = None;
        self.nerd_mode = false;
        assert(self.modules.deep_view() =~= Seq::new(n as nat, |j: int| fresh_row()));
    }

    fn mark_all_complete(&mut self)
        ensures
            final(self).deep_view() == list_step(
                old(self).deep_view(),
                ListInputView::MarkAllComplete,
            ),
    {
        let ghost v = self.deep_view();
        let n: usize = self.modules.len();
        let ghost done = Seq::new(
            v.modules.len(),
            |i: int| EntryView { status: status_at_success(v.modules[i].status), ..v.modules[i] },
        );
        let mut i: usize = 0;
        while i < n
            invariant
                i <= n,
                n == self.modules@.len(),
                v.modules.len() == n,
                done.len() == n,
                forall|j: int|
                    0 <= j < n ==> #[trigger] done[j] == (EntryView {
                        status: status_at_success(v.modules[j].status),
                        ..v.modules[j]
                    }),
                self.deep_view() == (ListView {
                    modules: done.take(i as int) + v.modules.skip(i as int),
                    ..v
                }),
            decreases n - i,
        {
            assert(self.modules.deep_view()[i as int] == self.modules@[i as int].deep_view());
            assert(self.modules.deep_view()[i as int] == v.modules[i as int]);
            let status: ModuleStatus = self.modules[i].status;
            let ghost before = self.deep_view();
            if status == ModuleStatus::Running || status == ModuleStatus::Pending {
                self.apply_status(i, ModuleStatus::Complete);
                assert(self.modules.deep_view().len() == self.modules@.len());
            }
            assert(self.deep_view().modules =~= done.take(i + 1) + v.modules.skip(i + 1));
            i += 1;
        }
        self.current_module = None;
        assert(self.deep_view().modules =~= done);
    }

    /// Answers a message.
    pub fn update(&mut self, msg: UpdateListInput)
        requires
            list_ok(old(self).deep_view()),
        ensures
            final(self).deep_view() == list_step(old(self).deep_view(), msg.deep_view()),
            list_ok(final(self).deep_view()),
            only_current_runs(old(self).deep_view()) ==> only_current_runs(
                final(self).deep_view(),
            ),
    {
        let ghost v = self.deep_view();
        proof {
            if only_current_runs(v) {
                law_one_module_runs(v, msg.deep_view());
            }
        }
        assert(self.modules.deep_view().len() == self.modules@.len());
        match msg {
            UpdateListInput::Reset => self.reset(),
            UpdateListInput::ProcessLine(line) => self.process_line(line.as_str()),
            UpdateListInput::SetNerdMode(on) => {
                self.nerd_mode = on;
            },
            UpdateListInput::MarkAllComplete => self.mark_all_complete(),
            UpdateListInput::MarkCurrentFailed => {
                if let Some(idx) = self.current_module {
                    assert(v.modules[idx as int] == self.modules@[idx as int].deep_view());
                    if self.modules[idx].status == ModuleStatus::Running {
                        self.apply_status(idx, ModuleStatus::Failed);
                    }
                }
            },
        }
    }
}

/// The words by which a line of the log announces the module of a row.
pub open spec fn announcement(i: int) -> Seq<char> {
    "module_name="@ + module_rows()[i].1
}

proof fn lemma_announcements()
    ensures
        announcement(0) == "module_name=System"@,
        announcement(1) == "module_name=Flatpak"@,
        announcement(2) == "module_name=Brew"@,
        announcement(3) == "module_name=Distrobox"@,
{
    reveal_strlit("module_name=");
    reveal_strlit("System");
    reveal_strlit("Flatpak");
    reveal_strlit("Brew");
    reveal_strlit("Distrobox");
    reveal_strlit("module_name=System");
    reveal_strlit("module_name=Flatpak");
    reveal_strlit("module_name=Brew");
    reveal_strlit("module_name=Distrobox");
    assert(announcement(0) =~= "module_name=System"@);
    assert(announcement(1) =~= "module_name=Flatpak"@);
    assert(announcement(2) =~= "module_name=Brew"@);
    assert(announcement(3) =~= "module_name=Distrobox"@);
}

/// A module that failed stays failed: through every line that does not announce that
/// same module, through the end of a run that succeeded, and through every other
/// message but the start of a new run.
pub proof fn law_failed_module_stays_failed(v: ListView, msg: ListInputView, i: int)
    requires
        list_ok(v),
        0 <= i < 4,
        v.modules[i].status == ModuleStatus::Failed,
        !(msg is Reset),
        msg matches ListInputView::ProcessLine(line) ==> !text::holds(line, announcement(i)),
    ensures
        list_step(v, msg).modules[i].status == ModuleStatus::Failed,
{
    lemma_announcements();
}

/// A line turns a module complete only where that module was running and another one
/// is announced; the end of a run that succeeded turns those complete that run or
/// wait. No other message completes any.
pub proof fn law_only_a_running_module_completes(v: ListView, msg: ListInputView, i: int)
    requires
        list_ok(v),
        0 <= i < 4,
        v.modules[i].status != ModuleStatus::Complete,
        list_step(v, msg).modules[i].status == ModuleStatus::Complete,
    ensures
        match msg {
            ListInputView::ProcessLine(line) => v.modules[i].status == ModuleStatus::Running
                && v.current == Some(i as usize) && exists|k: int|
                0 <= k < 4 && k != i && #[trigger] text::holds(line, announcement(k)),
            ListInputView::MarkAllComplete => v.modules[i].status != ModuleStatus::Failed,
            _ => false,
        },
{
    lemma_announcements();
    if let ListInputView::ProcessLine(line) = msg {
        if announced(line) is Some {
            let k = announced(line)->0 as int;
            assert(text::holds(line, announcement(k)));
            assert(k != i);
        }
    }
}

/// A module that a line announces is the current one afterwards. It runs, unless the
/// line tells of a failure, and the module that ran before it is complete.
pub proof fn law_announced_module_runs(v: ListView, line: Seq<char>, i: int)
    requires
        list_ok(v),
        0 <= i < 4,
        text::holds(line, announcement(i)),
        forall|k: int| 0 <= k < i ==> !#[trigger] text::holds(line, announcement(k)),
    ensures
        ({
            let after = list_step(v, ListInputView::ProcessLine(line));
            let fails = text::holds(line, "level=ERROR"@) || text::holds(line, "module_fail"@);
            &&& after.current == Some(i as usize)
            &&& fails ==> after.modules[i].status == ModuleStatus::Failed
            &&& !fails ==> after.modules[i].status == ModuleStatus::Running
            &&& v.current matches Some(p) ==> p != i ==> v.modules[p as int].status
                == ModuleStatus::Running ==> after.modules[p as int].status
                == ModuleStatus::Complete
        }),
{
    lemma_announcements();
    assert(i > 0 ==> !text::holds(line, announcement(0)));
    assert(i > 1 ==> !text::holds(line, announcement(1)));
    assert(i > 2 ==> !text::holds(line, announcement(2)));
}

/// A line that announces no module leaves the current one as it is, and fails it
/// exactly where the line tells of a failure. No other status changes.
pub proof fn law_failure_is_the_current_module_s(v: ListView, line: Seq<char>, i: int)
    requires
        list_ok(v),
        0 <= i < 4,
        forall|k: int| 0 <= k < 4 ==> !#[trigger] text::holds(line, announcement(k)),
    ensures
        ({
            let after = list_step(v, ListInputView::ProcessLine(line));
            let fails = text::holds(line, "level=ERROR"@) || text::holds(line, "module_fail"@);
            &&& after.current == v.current
            &&& v.current == Some(i as usize) && fails ==> after.modules[i].status
                == ModuleStatus::Failed
            &&& v.current != Some(i as usize) || !fails ==> after.modules[i].status
                == v.modules[i].status
        }),
{
    lemma_announcements();
    assert(!text::holds(line, announcement(0)));
    assert(!text::holds(line, announcement(1)));
    assert(!text::holds(line, announcement(2)));
    assert(!text::holds(line, announcement(3)));
}

/// A module that neither is announced nor was the current one is untouched by a line,
/// its log too.
pub proof fn law_line_touches_two_modules(v: ListView, line: Seq<char>, i: int)
    requires
        list_ok(v),
        0 <= i < 4,
        v.current != Some(i as usize),
        !text::holds(line, announcement(i)),
    ensures
        list_step(v, ListInputView::ProcessLine(line)).modules[i] == v.modules[i],
{
    lemma_announcements();
}

/// A line is written whole to the log of the module that is current afterwards, behind
/// what stood there and on a line of its own; the label shows that log. No other log
/// changes, and where no module is current none does.
pub proof fn law_line_is_logged(v: ListView, line: Seq<char>, i: int)
    requires
        list_ok(v),
        0 <= i < 4,
    ensures
        ({
            let after = list_step(v, ListInputView::ProcessLine(line));
            let was = v.modules[i].log_text;
            let log = after.modules[i].log_text;
            if after.current == Some(i as usize) {
                &&& after.modules[i].log_label == log
                &&& was.len() == 0 ==> log == line
                &&& was.len() > 0 ==> log == was.push('\n') + line
            } else {
                log == was && after.modules[i].log_label == v.modules[i].log_label
            }
        }),
{
    reveal_strlit("\n");
    let was = v.modules[i].log_text;
    assert(was + "\n"@ + line =~= was.push('\n') + line);
}

/// A run that failed fails the module that runs, and that one alone; one that succeeded
/// leaves none running or waiting. Neither touches a log.
pub proof fn law_end_of_the_run(v: ListView, i: int)
    requires
        list_ok(v),
        0 <= i < 4,
    ensures
        ({
            let failed = list_step(v, ListInputView::MarkCurrentFailed).modules[i];
            let done = list_step(v, ListInputView::MarkAllComplete).modules[i];
            &&& v.current == Some(i as usize) && v.modules[i].status == ModuleStatus::Running
                ==> failed.status == ModuleStatus::Failed
            &&& v.current != Some(i as usize) || v.modules[i].status != ModuleStatus::Running
                ==> failed.status == v.modules[i].status
            &&& done.status == ModuleStatus::Complete || done.status == ModuleStatus::Failed
            &&& done.status == ModuleStatus::Failed <==> v.modules[i].status
                == ModuleStatus::Failed
            &&& failed.log_text == v.modules[i].log_text
            &&& done.log_text == v.modules[i].log_text
        }),
{
}

/// A new run starts with every module waiting, none current, and no log.
pub proof fn law_new_run_starts_afresh(v: ListView, i: int)
    requires
        list_ok(v),
        0 <= i < 4,
    ensures
        ({
            let after = list_step(v, ListInputView::Reset);
            &&& list_ok(after)
            &&& after.current is None
            &&& after.modules[i].status == ModuleStatus::Pending
            &&& after.modules[i].log_text.len() == 0
        }),
{
    reveal_strlit("");
}

} // verus!
