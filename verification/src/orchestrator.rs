//! The update run: its modules, the marker lines of the runner script, the
//! command that starts it, and the event that its end amounts to.
use crate::text;
use crate::update_worker::{cancelled, cancelled_event, is_final, EventView, UpdateEvent};
use vstd::prelude::*;

verus! {

/// The four update modules, in the order in which they run.
#[derive(Debug, Clone, Copy, PartialEq, Eq, Structural)]
pub enum Module {
    System,
    Flatpak,
    Brew,
    Distrobox,
}

impl DeepView for Module {
    type V = Module;

    open spec fn deep_view(&self) -> Module {
        *self
    }
}

/// The key of a module.
pub open spec fn module_key(m: Module) -> Seq<char> {
    match m {
        Module::System => "system"@,
        Module::Flatpak => "flatpak"@,
        Module::Brew => "brew"@,
        Module::Distrobox => "distrobox"@,
    }
}

/// The module that a key names.
pub open spec fn module_of(key: Seq<char>) -> Option<Module> {
    if key == "system"@ {
        Some(Module::System)
    } else if key == "flatpak"@ {
        Some(Module::Flatpak)
    } else if key == "brew"@ {
        Some(Module::Brew)
    } else if key == "distrobox"@ {
        Some(Module::Distrobox)
    } else {
        None
    }
}

impl Module {
    /// The key of this module.
    pub fn key(&self) -> (r: &'static str)
        ensures
            r@ == module_key(*self),
    {
        match self {
            Module::System => "system",
            Module::Flatpak => "flatpak",
            Module::Brew => "brew",
            Module::Distrobox => "distrobox",
        }
    }

    /// The module that a key names.
    pub fn from_key(s: &str) -> (r: Option<Module>)
        ensures
            r == module_of(s@),
    {
        if text::same(s, "system") {
            Some(Module::System)
        } else if text::same(s, "flatpak") {
            Some(Module::Flatpak)
        } else if text::same(s, "brew") {
            Some(Module::Brew)
        } else if text::same(s, "distrobox") {
            Some(Module::Distrobox)
        } else {
            None
        }
    }
}

proof fn lemma_keys_differ()
    ensures
        "system"@ != "flatpak"@,
        "system"@ != "brew"@,
        "system"@ != "distrobox"@,
        "flatpak"@ != "brew"@,
        "flatpak"@ != "distrobox"@,
        "brew"@ != "distrobox"@,
{
    reveal_strlit("system");
    reveal_strlit("flatpak");
    reveal_strlit("brew");
    reveal_strlit("distrobox");
    assert("system"@[0] != "flatpak"@[0]);
    assert("system"@[0] != "brew"@[0]);
    assert("system"@[0] != "distrobox"@[0]);
    assert("flatpak"@[0] != "brew"@[0]);
    assert("flatpak"@[0] != "distrobox"@[0]);
    assert("brew"@[0] != "distrobox"@[0]);
}

/// The key of a module names that module.
pub proof fn law_module_keys_round_trip(m: Module)
    ensures
        module_of(module_key(m)) == Some(m),
{
    lemma_keys_differ();
}

/// How a module ended.
#[derive(Debug, Clone, Copy, PartialEq, Eq, Structural)]
pub enum ModuleStatus {
    /// It completed successfully.
    Success,
    /// It found nothing to update.
    UpToDate,
    /// It exited with this code.
    Failed(i32),
    /// It was skipped, for want of its tool.
    Skipped,
}

impl DeepView for ModuleStatus {
    type V = ModuleStatus;

    open spec fn deep_view(&self) -> ModuleStatus {
        *self
    }
}

/// What a line from the runner script means.
#[derive(Debug, PartialEq)]
pub enum ParsedLine {
    /// An event.
    Event(UpdateEvent),
    /// A marker that is no event.
    Consumed,
    /// A line of ordinary output.
    Plain,
}

/// What a parsed line is.
#[verifier::ext_equal]
pub enum LineView {
    Event(EventView),
    Consumed,
    Plain,
}

impl DeepView for ParsedLine {
    type V = LineView;

    open spec fn deep_view(&self) -> LineView {
        match self {
            ParsedLine::Event(e) => LineView::Event(e.deep_view()),
            ParsedLine::Consumed => LineView::Consumed,
            ParsedLine::Plain => LineView::Plain,
        }
    }
}

/// What an exit code of a module means.
pub open spec fn status_of(code: int) -> ModuleStatus {
    if code == 0 {
        ModuleStatus::Success
    } else if code == 77 {
        ModuleStatus::UpToDate
    } else {
        ModuleStatus::Failed(code as i32)
    }
}

/// What the fields of a marker mean: `MODULE:key`, `MODULE:key:done:code` or
/// `MODULE:key:skipped`, with the key of a module. A code that is no number
/// counts as -1.
pub open spec fn marker_meaning(parts: Seq<Seq<char>>) -> LineView {
    if parts.len() < 2 || parts[0] != "MODULE"@ {
        LineView::Plain
    } else {
        match module_of(parts[1]) {
            None => LineView::Plain,
            Some(m) => if parts.len() == 2 {
                LineView::Event(EventView::ModuleStarted(m))
            } else if parts.len() == 4 && parts[2] == "done"@ {
                let code = match text::i32_value(parts[3]) {
                    Some(n) => n,
                    None => -1,
                };
                LineView::Event(EventView::ModuleFinished(m, status_of(code)))
            } else if parts.len() == 3 && parts[2] == "skipped"@ {
                LineView::Event(EventView::ModuleFinished(m, ModuleStatus::Skipped))
            } else {
                LineView::Plain
            },
        }
    }
}

/// The text between the `===` at both ends of a marker line.
pub open spec fn marker_body(line: Seq<char>) -> Option<Seq<char>> {
    match text::without_prefix(line, "==="@) {
        Some(rest) => text::without_suffix(rest, "==="@),
        None => None,
    }
}

/// What a line from the runner script means.
pub open spec fn line_meaning(line: Seq<char>) -> LineView {
    match marker_body(line) {
        None => LineView::Plain,
        Some(body) => if body == "DONE"@ {
            LineView::Consumed
        } else {
            marker_meaning(text::pieces(body, ':'))
        },
    }
}

/// What the fields of a marker mean.
fn parse_marker(parts: &Vec<String>) -> (r: ParsedLine)
    ensures
        r.deep_view() == marker_meaning(parts.deep_view()),
{
    let ghost v = parts.deep_view();
    if parts.len() < 2 || !text::same(parts[0].as_str(), "MODULE") {
        assert(v.len() < 2 || v[0] != "MODULE"@);
        return ParsedLine::Plain;
    }
    assert(v[0] == "MODULE"@ && v[1] == parts@[1]@);
    match Module::from_key(parts[1].as_str()) {
        None => ParsedLine::Plain,
        Some(m) => {
            if parts.len() == 2 {
                return ParsedLine::Event(UpdateEvent::ModuleStarted(m));
            }
            assert(v[2] == parts@[2]@);
            if parts.len() == 4 && text::same(parts[2].as_str(), "done") {
                assert(v[3] == parts@[3]@);
                let code: i32 = match text::parse_i32(parts[3].as_str()) {
                    Some(n) => n,
                    None => -1,
                };
                let status: ModuleStatus = if code == 0 {
                    ModuleStatus::Success
                } else if code == 77 {
                    ModuleStatus::UpToDate
                } else {
                    ModuleStatus::Failed(code)
                };
                return ParsedLine::Event(UpdateEvent::ModuleFinished(m, status));
            }
            if parts.len() == 3 && text::same(parts[2].as_str(), "skipped") {
                return ParsedLine::Event(UpdateEvent::ModuleFinished(m, ModuleStatus::Skipped));
            }
            ParsedLine::Plain
        },
    }
}

/// What a line from the runner script means.
pub fn parse_line(line: &str) -> (r: ParsedLine)
    ensures
        r.deep_view() == line_meaning(line@),
{
    let body: String = match text::strip_prefix(line, "===") {
        None => {
            return ParsedLine::Plain;
        },
        Some(rest) => match text::strip_suffix(rest.as_str(), "===") {
            None => {
                return ParsedLine::Plain;
            },
            Some(body) => body,
        },
    };
    if text::same(body.as_str(), "DONE") {
        return ParsedLine::Consumed;
    }
    parse_marker(&text::split(body.as_str(), ':'))
}

/// The event that a line from the runner script becomes, if any: markers become
/// what they mean, other lines become output.
pub open spec fn line_event(line: Seq<char>) -> Option<EventView> {
    match line_meaning(line) {
        LineView::Event(e) => Some(e),
        LineView::Consumed => None,
        LineView::Plain => Some(EventView::Output(line)),
    }
}

/// The event that a line from the runner script becomes, if any.
pub fn event_of_line(line: &str) -> (r: Option<UpdateEvent>)
    ensures
        r.deep_view() == line_event(line@),
{
    match parse_line(line) {
        ParsedLine::Event(e) => Some(e),
        ParsedLine::Consumed => None,
        ParsedLine::Plain => Some(UpdateEvent::Output(line.to_string())),
    }
}

/// The marker line of a row of fields.
pub open spec fn marker_line(fields: Seq<Seq<char>>) -> Seq<char> {
    "==="@ + text::joined(fields, seq![':']) + "==="@
}

proof fn lemma_marker(fields: Seq<Seq<char>>)
    requires
        fields.len() > 0,
        forall|i: int| 0 <= i < fields.len() ==> !(#[trigger] fields[i]).contains(':'),
    ensures
        marker_body(marker_line(fields)) == Some(text::joined(fields, seq![':'])),
        text::pieces(text::joined(fields, seq![':']), ':') == fields,
{
    let body = text::joined(fields, seq![':']);
    let line = marker_line(fields);
    reveal_strlit("===");
    assert(line.subrange(0, 3) =~= "==="@);
    let rest = line.skip(3);
    assert(rest =~= body + "==="@);
    assert(rest.subrange(rest.len() - 3, rest.len() as int) =~= "==="@);
    assert(rest.take(rest.len() - 3) =~= body);
    text::law_joined_pieces_come_apart(fields, ':');
}

proof fn lemma_module_marker(fields: Seq<Seq<char>>)
    requires
        fields.len() >= 2,
        fields[0] == "MODULE"@,
        forall|i: int| 0 <= i < fields.len() ==> !(#[trigger] fields[i]).contains(':'),
    ensures
        line_meaning(marker_line(fields)) == marker_meaning(fields),
{
    lemma_marker(fields);
    reveal_strlit("DONE");
    let done = seq!["DONE"@];
    assert(!done[0].contains(':'));
    text::law_joined_pieces_come_apart(done, ':');
    assert(text::joined(done, seq![':']) == "DONE"@);
}

/// Every marker that the runner script writes for a module means that module's
/// event: that it began, how it ended, or that it was skipped. The marker of the
/// whole run means none.
pub proof fn law_markers_are_understood(m: Module, code: i32)
    ensures
        line_meaning(marker_line(seq!["MODULE"@, module_key(m)])) == LineView::Event(
            EventView::ModuleStarted(m),
        ),
        line_meaning(
            marker_line(
                seq!["MODULE"@, module_key(m), "done"@, text::signed_decimal(code as int)],
            ),
        ) == LineView::Event(EventView::ModuleFinished(m, status_of(code as int))),
        line_meaning(marker_line(seq!["MODULE"@, module_key(m), "skipped"@])) == LineView::Event(
            EventView::ModuleFinished(m, ModuleStatus::Skipped),
        ),
        line_meaning(marker_line(seq!["DONE"@])) == LineView::Consumed,
{
    reveal_strlit("MODULE");
    reveal_strlit("DONE");
    reveal_strlit("done");
    reveal_strlit("skipped");
    reveal_strlit("system");
    reveal_strlit("flatpak");
    reveal_strlit("brew");
    reveal_strlit("distrobox");
    law_module_keys_round_trip(m);
    let digits = text::signed_decimal(code as int);
    text::law_decimals_are_read_back(code as int);
    assert(!digits.contains(':'));
    assert(!module_key(m).contains(':'));
    lemma_module_marker(seq!["MODULE"@, module_key(m)]);
    lemma_module_marker(seq!["MODULE"@, module_key(m), "done"@, digits]);
    lemma_module_marker(seq!["MODULE"@, module_key(m), "skipped"@]);
    lemma_marker(seq!["DONE"@]);
}

/// The events that lines from the runner script become, in the order of the
/// lines.
pub open spec fn line_events(lines: Seq<Seq<char>>) -> Seq<EventView>
    decreases lines.len(),
{
    if lines.len() == 0 {
        Seq::empty()
    } else {
        let earlier = line_events(lines.drop_last());
        match line_event(lines.last()) {
            Some(e) => earlier.push(e),
            None => earlier,
        }
    }
}

/// The events that lines from the runner script become, in the order of the
/// lines.
pub fn events_of_lines(lines: &Vec<String>) -> (r: Vec<UpdateEvent>)
    ensures
        r.deep_view() == line_events(lines.deep_view()),
{
    let ghost all = lines.deep_view();
    let mut out: Vec<UpdateEvent> = Vec::new();
    let mut i: usize = 0;
    assert(out.deep_view() =~= line_events(all.take(0)));
    while i < lines.len()
        invariant
            0 <= i <= lines@.len(),
            all == lines.deep_view(),
            out.deep_view() == line_events(all.take(i as int)),
        decreases lines@.len() - i,
    {
        let ghost before = out.deep_view();
        proof {
            assert(all.take(i + 1).drop_last() =~= all.take(i as int));
            assert(all.take(i + 1).last() == lines@[i as int]@);
        }
        if let Some(e) = event_of_line(lines[i].as_str()) {
            let ghost v = e.deep_view();
            out.push(e);
            assert(out.deep_view() =~= before.push(v));
        }
        i += 1;
    }
    assert(all.take(i as int) =~= all);
    out
}

/// A run of lines becomes, in order, what each of its lines becomes: a line in
/// front of others puts its own event, if it has one, in front of theirs.
pub proof fn law_events_follow_the_lines(first: Seq<Seq<char>>, rest: Seq<Seq<char>>)
    ensures
        line_events(first + rest) == line_events(first) + line_events(rest),
        forall|line: Seq<char>|
            line_events(seq![line]) == (match #[trigger] line_event(line) {
                Some(e) => seq![e],
                None => Seq::<EventView>::empty(),
            }),
    decreases rest.len(),
{
    assert forall|line: Seq<char>|
        line_events(seq![line]) == (match #[trigger] line_event(line) {
            Some(e) => seq![e],
            None => Seq::<EventView>::empty(),
        }) by {
        assert(seq![line].drop_last() =~= Seq::<Seq<char>>::empty());
        assert(line_events(seq![line].drop_last()) =~= Seq::<EventView>::empty());
        assert(line_events(seq![line]) =~= (match line_event(line) {
            Some(e) => seq![e],
            None => Seq::<EventView>::empty(),
        }));
    }
    if rest.len() == 0 {
        assert(first + rest =~= first);
        assert(line_events(first) + line_events(rest) =~= line_events(first));
    } else {
        law_events_follow_the_lines(first, rest.drop_last());
        assert((first + rest).drop_last() =~= first + rest.drop_last());
        assert((first + rest).last() == rest.last());
        assert(line_events(first + rest) =~= line_events(first) + line_events(rest));
    }
}

// ── The end of a run ─────────────────────────────────────────────────────────

/// How the runner process came to an end.
#[derive(Debug)]
pub enum RunEnd {
    /// It could not be started, for this reason.
    NotStarted(String),
    /// The user cancelled the run.
    Cancelled,
    /// It exited with this code, or was ended by a signal.
    Exited(Option<i32>),
    /// Waiting for it failed, for this reason.
    WaitFailed(String),
}

/// What an end is.
#[verifier::ext_equal]
pub enum EndView {
    NotStarted(Seq<char>),
    Cancelled,
    Exited(Option<i32>),
    WaitFailed(Seq<char>),
}

impl DeepView for RunEnd {
    type V = EndView;

    open spec fn deep_view(&self) -> EndView {
        match self {
            RunEnd::NotStarted(e) => EndView::NotStarted(e@),
            RunEnd::Cancelled => EndView::Cancelled,
            RunEnd::Exited(code) => EndView::Exited(*code),
            RunEnd::WaitFailed(e) => EndView::WaitFailed(e@),
        }
    }
}

/// The event that ends a run.
pub open spec fn end_event(end: EndView) -> EventView {
    match end {
        EndView::NotStarted(e) => EventView::Error("Failed to start finupdate-runner: "@ + e),
        EndView::Cancelled => cancelled_event(),
        EndView::Exited(code) => if code == Some(0i32) {
            EventView::Complete
        } else if code == Some(77i32) {
            EventView::UpToDate
        } else {
            EventView::Error(
                "Update process exited with code "@ + text::signed_decimal(
                    match code {
                        Some(c) => c as int,
                        None => -1,
                    },
                ),
            )
        },
        EndView::WaitFailed(e) => EventView::Error("Error waiting for update process: "@ + e),
    }
}

/// The event that ends a run.
pub fn final_event(end: RunEnd) -> (r: UpdateEvent)
    ensures
        r.deep_view() == end_event(end.deep_view()),
{
    match end {
        RunEnd::NotStarted(e) => UpdateEvent::Error(
            text::cat2("Failed to start finupdate-runner: ", e.as_str()),
        ),
        RunEnd::Cancelled => cancelled(),
        RunEnd::Exited(code) => {
            let code: i32 = match code {
                Some(c) => c,
                None => -1,
            };
            if code == 0 {
                UpdateEvent::Complete
            } else if code == 77 {
                UpdateEvent::UpToDate
            } else {
                let digits: String = text::signed_number(code);
                UpdateEvent::Error(
                    text::cat2("Update process exited with code ", digits.as_str()),
                )
            }
        },
        RunEnd::WaitFailed(e) => UpdateEvent::Error(
            text::cat2("Error waiting for update process: ", e.as_str()),
        ),
    }
}

/// A run ends in `Complete` exactly where the process exited with 0, and in `UpToDate`
/// exactly where it exited with 77. Every other end is an error; what the machine said
/// of it stands at the end of the message.
pub proof fn law_end_tells_what_happened(end: EndView)
    ensures
        end_event(end) is Complete <==> end == EndView::Exited(Some(0)),
        end_event(end) is UpToDate <==> end == EndView::Exited(Some(77)),
        end_event(end) is Complete || end_event(end) is UpToDate || end_event(end) is Error,
        end matches EndView::Exited(Some(c)) ==> c != 0 ==> c != 77 ==> (end_event(end)
            matches EventView::Error(m) && text::ends(m, text::signed_decimal(c as int))),
        end matches EndView::NotStarted(e) ==> (end_event(end) matches EventView::Error(m)
            && text::ends(m, e)),
        end matches EndView::WaitFailed(e) ==> (end_event(end) matches EventView::Error(m)
            && text::ends(m, e)),
{
    match end {
        EndView::NotStarted(e) => {
            let m = "Failed to start finupdate-runner: "@ + e;
            assert(m.subrange(m.len() - e.len(), m.len() as int) =~= e);
        },
        EndView::WaitFailed(e) => {
            let m = "Error waiting for update process: "@ + e;
            assert(m.subrange(m.len() - e.len(), m.len() as int) =~= e);
        },
        EndView::Exited(Some(c)) => {
            let e = text::signed_decimal(c as int);
            let m = "Update process exited with code "@ + e;
            assert(m.subrange(m.len() - e.len(), m.len() as int) =~= e);
        },
        _ => {},
    }
}

/// A module succeeded exactly where it exited with 0, and found nothing exactly where
/// it exited with 77. With every other code it failed, and the code is kept.
pub proof fn law_status_tells_the_code(code: i32)
    ensures
        status_of(code as int) == ModuleStatus::Success <==> code == 0,
        status_of(code as int) == ModuleStatus::UpToDate <==> code == 77,
        code != 0 && code != 77 ==> status_of(code as int) == ModuleStatus::Failed(code),
        status_of(code as int) != ModuleStatus::Skipped,
{
}

/// A marker of a module that does not exist is ordinary output, and so is one with a word
/// that does not exist. A module that ended with something that is no number has failed.
pub proof fn law_odd_markers(key: Seq<char>, word: Seq<char>, m: Module, code: Seq<char>)
    requires
        !key.contains(':'),
        !word.contains(':'),
        !code.contains(':'),
        key != "system"@ && key != "flatpak"@ && key != "brew"@ && key != "distrobox"@,
        word != "skipped"@,
        text::i32_value(code) is None,
    ensures
        line_meaning(marker_line(seq!["MODULE"@, key])) is Plain,
        line_meaning(marker_line(seq!["MODULE"@, module_key(m), word])) is Plain,
        line_meaning(marker_line(seq!["MODULE"@, module_key(m), "done"@, code])) == LineView::Event(
            EventView::ModuleFinished(m, ModuleStatus::Failed((-1int) as i32)),
        ),
{
    reveal_strlit("MODULE");
    reveal_strlit("done");
    reveal_strlit("system");
    reveal_strlit("flatpak");
    reveal_strlit("brew");
    reveal_strlit("distrobox");
    law_module_keys_round_trip(m);
    assert(!module_key(m).contains(':'));
    lemma_module_marker(seq!["MODULE"@, key]);
    lemma_module_marker(seq!["MODULE"@, module_key(m), word]);
    lemma_module_marker(seq!["MODULE"@, module_key(m), "done"@, code]);
}

/// A line that does not both begin and end with `===` is output, with the text
/// unchanged.
pub proof fn law_other_lines_are_output(line: Seq<char>)
    requires
        !(text::begins(line, "==="@) && text::ends(line, "==="@)),
    ensures
        line_events(seq![line]) == seq![EventView::Output(line)],
{
    reveal_strlit("===");
    law_events_follow_the_lines(Seq::empty(), Seq::empty());
    if text::begins(line, "==="@) {
        let rest = line.skip(3);
        if text::ends(rest, "==="@) {
            assert(line.subrange(line.len() - 3, line.len() as int) =~= rest.subrange(
                rest.len() - 3,
                rest.len() as int,
            ));
        }
    }
    assert(line_event(line) == Some(EventView::Output(line)));
}

/// What a run tells: the events of the lines that the script writes, and the event
/// that ends it.
pub open spec fn run_events(lines: Seq<Seq<char>>, end: EndView) -> Seq<EventView> {
    line_events(lines).push(end_event(end))
}

/// A run ends once: its last event is a final one, and no event of a line is.
pub proof fn law_run_ends_once(lines: Seq<Seq<char>>, end: EndView)
    ensures
        is_final(run_events(lines, end).last()),
        forall|i: int|
            0 <= i < run_events(lines, end).len() - 1 ==> !is_final(
                #[trigger] run_events(lines, end)[i],
            ),
    decreases lines.len(),
{
    if lines.len() > 0 {
        let front = lines.drop_last();
        law_run_ends_once(front, end);
        assert forall|i: int| 0 <= i < line_events(lines).len() implies !is_final(
            #[trigger] line_events(lines)[i],
        ) by {
            if i < line_events(front).len() {
                assert(run_events(front, end)[i] == line_events(lines)[i]);
            }
        }
    }
}

// ── The command of a run ─────────────────────────────────────────────────────

/// Where the runner script lies inside the sandbox.
pub const BUNDLED_RUNNER: &'static str = "/app/bin/finupdate-runner";

/// The script that stands in for a runner that is not bundled.
pub const MISSING_RUNNER: &'static str = "#!/bin/sh\necho 'finupdate-runner script not bundled in this flatpak' >&2\necho '===DONE==='\nexit 127\n";

/// The shell program that puts the runner script where the host sees it and
/// runs it with elevated rights.
pub open spec fn driver_script(system_only: bool) -> Seq<char> {
    "\nset -e\nTMPFILE=$(mktemp /tmp/finupdate-runner-XXXXXX.sh)\ntrap 'rm -f \"$TMPFILE\"' EXIT\nprintf '%s' \"$FINUPDATE_RUNNER_BODY\" > \"$TMPFILE\"\nchmod +x \"$TMPFILE\"\npkexec "@
        + (if system_only {
        "env FINUPDATE_SYSTEM_ONLY=1 "@
    } else {
        ""@
    }) + "\"$TMPFILE\"\n"@
}

/// The command of an update run, program first. In the sandbox the script, of
/// which `script_body` is what could be read, goes to the host with it.
pub open spec fn runner_argv(
    system_only: bool,
    flatpak: bool,
    script_body: Option<Seq<char>>,
) -> Seq<Seq<char>> {
    if flatpak {
        let body = match script_body {
            Some(b) => b,
            None => MISSING_RUNNER@,
        };
        seq![
            "flatpak-spawn"@,
            "--host"@,
            "--env=FINUPDATE_RUNNER_BODY="@ + body,
            "sh"@,
            "-c"@,
            driver_script(system_only),
        ]
    } else if system_only {
        seq!["pkexec"@, "env"@, "FINUPDATE_SYSTEM_ONLY=1"@, "finupdate-runner"@]
    } else {
        seq!["pkexec"@, "finupdate-runner"@]
    }
}

/// Adds a piece of text to a list.
pub fn add_text(list: &mut Vec<String>, s: &str)
    ensures
        final(list).deep_view() == old(list).deep_view().push(s@),
{
    list.push(s.to_string());
    assert(list.deep_view() =~= old(list).deep_view().push(s@));
}

/// The command of an update run, program first.
pub fn build_runner_command(
    system_only: bool,
    flatpak: bool,
    script_body: Option<String>,
) -> (r: Vec<String>)
    ensures
        r.deep_view() == runner_argv(system_only, flatpak, script_body.deep_view()),
        r@.len() > 0,
{
    let mut argv: Vec<String> = Vec::new();
    if flatpak {
        let body: String = match script_body {
            Some(b) => b,
            None => MISSING_RUNNER.to_string(),
        };
        let env: String = text::cat2("--env=FINUPDATE_RUNNER_BODY=", body.as_str());
        let driver: String = text::cat3(
            "\nset -e\nTMPFILE=$(mktemp /tmp/finupdate-runner-XXXXXX.sh)\ntrap 'rm -f \"$TMPFILE\"' EXIT\nprintf '%s' \"$FINUPDATE_RUNNER_BODY\" > \"$TMPFILE\"\nchmod +x \"$TMPFILE\"\npkexec ",
            if system_only {
                "env FINUPDATE_SYSTEM_ONLY=1 "
            } else {
                ""
            },
            "\"$TMPFILE\"\n",
        );
        add_text(&mut argv, "flatpak-spawn");
        add_text(&mut argv, "--host");
        add_text(&mut argv, env.as_str());
        add_text(&mut argv, "sh");
        add_text(&mut argv, "-c");
        add_text(&mut argv, driver.as_str());
    } else {
        add_text(&mut argv, "pkexec");
        if system_only {
            add_text(&mut argv, "env");
            add_text(&mut argv, "FINUPDATE_SYSTEM_ONLY=1");
        }
        add_text(&mut argv, "finupdate-runner");
    }
    assert(argv.deep_view() =~= runner_argv(system_only, flatpak, script_body.deep_view()));
    assert(argv.deep_view().len() == argv@.len());
    argv
}

/// The runner is elevated, in the sandbox by the shell program that takes the script to
/// the host. The script that goes there is the one that was read, and the restriction to
/// the system goes with the run exactly where it is wanted.
pub proof fn law_runner_is_elevated(system_only: bool, body: Seq<char>)
    ensures
        runner_argv(system_only, false, Some(body))[0] == "pkexec"@,
        runner_argv(system_only, false, Some(body)).last() == "finupdate-runner"@,
        runner_argv(system_only, false, Some(body)).contains("FINUPDATE_SYSTEM_ONLY=1"@)
            <==> system_only,
        runner_argv(system_only, true, Some(body)).take(2) == seq!["flatpak-spawn"@, "--host"@],
        runner_argv(system_only, true, Some(body))[2] == "--env=FINUPDATE_RUNNER_BODY="@ + body,
        runner_argv(system_only, true, Some(body)).last() == driver_script(system_only),
        system_only ==> text::holds(driver_script(system_only), "FINUPDATE_SYSTEM_ONLY=1"@),
{
    let argv = runner_argv(system_only, false, Some(body));
    reveal_strlit("pkexec");
    reveal_strlit("finupdate-runner");
    reveal_strlit("FINUPDATE_SYSTEM_ONLY=1");
    assert("pkexec"@.len() == 6 && "finupdate-runner"@.len() == 16
        && "FINUPDATE_SYSTEM_ONLY=1"@.len() == 23);
    if system_only {
        assert(argv[2] == "FINUPDATE_SYSTEM_ONLY=1"@);
        reveal_strlit("env FINUPDATE_SYSTEM_ONLY=1 ");
        let head =
            "\nset -e\nTMPFILE=$(mktemp /tmp/finupdate-runner-XXXXXX.sh)\ntrap 'rm -f \"$TMPFILE\"' EXIT\nprintf '%s' \"$FINUPDATE_RUNNER_BODY\" > \"$TMPFILE\"\nchmod +x \"$TMPFILE\"\npkexec "@;
        let all = driver_script(true);
        let at = head.len() as int + 4;
        assert(all.subrange(at, at + 23) =~= "FINUPDATE_SYSTEM_ONLY=1"@);
        assert(text::stands_at(all, "FINUPDATE_SYSTEM_ONLY=1"@, at));
    }
    assert(runner_argv(system_only, true, Some(body)).take(2) =~= seq![
        "flatpak-spawn"@,
        "--host"@,
    ]);
}

} // verus!
