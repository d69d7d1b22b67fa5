//! Events of an update run, and the script of a simulated one.
use crate::orchestrator::{Module, ModuleStatus};
use vstd::prelude::*;

verus! {

/// Events of an update run, in the order in which they happen.
#[derive(Debug, PartialEq)]
pub enum UpdateEvent {
    /// A line of output from the update process.
    Output(String),
    /// The process exited successfully.
    Complete,
    /// The process found nothing to update.
    UpToDate,
    /// The process failed, with a description for people.
    Error(String),
    /// A module has started running.
    ModuleStarted(Module),
    /// A module has finished with a status.
    ModuleFinished(Module, ModuleStatus),
}

/// What an event is.
#[verifier::ext_equal]
pub enum EventView {
    Output(Seq<char>),
    Complete,
    UpToDate,
    Error(Seq<char>),
    ModuleStarted(Module),
    ModuleFinished(Module, ModuleStatus),
}

impl DeepView for UpdateEvent {
    type V = EventView;

    open spec fn deep_view(&self) -> EventView {
        match self {
            UpdateEvent::Output(line) => EventView::Output(line@),
            UpdateEvent::Complete => EventView::Complete,
            UpdateEvent::UpToDate => EventView::UpToDate,
            UpdateEvent::Error(message) => EventView::Error(message@),
            UpdateEvent::ModuleStarted(m) => EventView::ModuleStarted(*m),
            UpdateEvent::ModuleFinished(m, s) => EventView::ModuleFinished(*m, *s),
        }
    }
}

impl Clone for UpdateEvent {
    fn clone(&self) -> (r: Self)
        ensures
            r.deep_view() == self.deep_view(),
    {
        match self {
            UpdateEvent::Output(line) => UpdateEvent::Output(line.clone()),
            UpdateEvent::Complete => UpdateEvent::Complete,
            UpdateEvent::UpToDate => UpdateEvent::UpToDate,
            UpdateEvent::Error(message) => UpdateEvent::Error(message.clone()),
            UpdateEvent::ModuleStarted(m) => UpdateEvent::ModuleStarted(*m),
            UpdateEvent::ModuleFinished(m, s) => UpdateEvent::ModuleFinished(*m, *s),
        }
    }
}

/// What a simulated run should end with.
#[derive(Debug, Clone, Copy, PartialEq, Eq, Structural)]
pub enum SimulationScenario {
    /// All four modules succeed.
    Success,
    /// The system is already current.
    AlreadyUpToDate,
    /// The system module fails.
    Failure,
}

impl DeepView for SimulationScenario {
    type V = SimulationScenario;

    open spec fn deep_view(&self) -> SimulationScenario {
        *self
    }
}

/// The path whose existence says that the program runs in a Flatpak sandbox.
pub const FLATPAK_INFO: &'static str = "/.flatpak-info";

/// Whether the program runs in a Flatpak sandbox: exactly where the file
/// `/.flatpak-info` exists.
pub fn is_flatpak(flatpak_info_exists: bool) -> (r: bool)
    ensures
        r == flatpak_info_exists,
{
    flatpak_info_exists
}

/// Manages an update run.
#[derive(Debug)]
pub struct UpdateWorker;

impl UpdateWorker {
    /// A worker.
    pub fn new() -> (r: UpdateWorker)
        ensures
            r == UpdateWorker,
    {
        UpdateWorker
    }

    /// A worker; the command and its arguments are ignored.
    pub fn with_command(_command: String, _args: Vec<String>) -> (r: UpdateWorker)
        ensures
            r == UpdateWorker,
    {
        UpdateWorker
    }
}

/// What a run is ended with when the user cancels it.
pub open spec fn cancelled_event() -> EventView {
    EventView::Error("Update cancelled by user"@)
}

/// What a run is ended with when the user cancels it.
pub fn cancelled() -> (r: UpdateEvent)
    ensures
        r.deep_view() == cancelled_event(),
{
    UpdateEvent::Error("Update cancelled by user".to_string())
}

/// One step of a simulated run: an event, and the pause that follows it.
#[derive(Debug)]
pub struct SimStep {
    pub event: UpdateEvent,
    pub pause_ms: u64,
}

/// What a step is.
#[verifier::ext_equal]
pub struct StepView {
    pub event: EventView,
    pub pause_ms: u64,
}

impl DeepView for SimStep {
    type V = StepView;

    open spec fn deep_view(&self) -> StepView {
        StepView { event: self.event.deep_view(), pause_ms: self.pause_ms }
    }
}

/// A line of a simulated run.
pub open spec fn line_step(text: Seq<char>, pause_ms: u64) -> StepView {
    StepView { event: EventView::Output(text), pause_ms }
}

/// An event of a simulated run that no pause follows.
pub open spec fn event_step(event: EventView) -> StepView {
    StepView { event, pause_ms: 0 }
}

/// The steps that every simulated run begins with.
pub open spec fn sim_opening() -> Seq<StepView> {
    seq![
        line_step("[DEV MODE] Starting finupdate simulation (DRY RUN)"@, 300),
        line_step("[DEV MODE] No actual commands will be executed - this is a preview"@, 700),
        event_step(EventView::ModuleStarted(Module::System)),
        line_step("$ pkexec bootc upgrade --check"@, 300),
        line_step("Checking for OS image updates..."@, 600),
    ]
}

/// How a simulated run of a current system goes on.
pub open spec fn sim_current() -> Seq<StepView> {
    seq![
        line_step("Image is already up to date"@, 400),
        event_step(EventView::ModuleFinished(Module::System, ModuleStatus::UpToDate)),
        event_step(EventView::UpToDate),
    ]
}

/// How a simulated run with a failing system module goes on.
pub open spec fn sim_failure() -> Seq<StepView> {
    seq![
        line_step("[DRY RUN] Would execute: $ pkexec bootc upgrade"@, 300),
        line_step("bootc upgrade failed (simulated)"@, 400),
        event_step(EventView::ModuleFinished(Module::System, ModuleStatus::Failed(1))),
        event_step(EventView::Error("[DEV MODE] Simulated system module failure"@)),
    ]
}

/// How the system module of a successful simulated run goes on.
pub open spec fn sim_system() -> Seq<StepView> {
    seq![
        line_step("[DRY RUN] Would execute: $ pkexec bootc upgrade"@, 300),
        line_step("bootc: Fetching image manifest..."@, 500),
        line_step("bootc: Pulling 3 new layers (42.1 MB)"@, 800),
        line_step("bootc: Staging complete — reboot to apply"@, 400),
        event_step(EventView::ModuleFinished(Module::System, ModuleStatus::Success)),
    ]
}

/// The Flatpak module of a successful simulated run.
pub open spec fn sim_flatpak() -> Seq<StepView> {
    seq![
        event_step(EventView::ModuleStarted(Module::Flatpak)),
        line_step("$ flatpak remote-info --updates flathub"@, 300),
        line_step("Checking for Flatpak updates..."@, 500),
        line_step("[DRY RUN] Would execute: $ flatpak update -y"@, 300),
        line_step("Updated: org.mozilla.firefox (130.0.1 → 131.0)"@, 400),
        line_step("Updated: com.spotify.Client (1.2.45 → 1.2.46)"@, 400),
        line_step("Flatpak: 2 apps updated"@, 300),
        event_step(EventView::ModuleFinished(Module::Flatpak, ModuleStatus::Success)),
    ]
}

/// The Homebrew module of a successful simulated run.
pub open spec fn sim_brew() -> Seq<StepView> {
    seq![
        event_step(EventView::ModuleStarted(Module::Brew)),
        line_step("$ brew upgrade --dry-run"@, 300),
        line_step("Upgrading Homebrew packages..."@, 500),
        line_step("[DRY RUN] Would execute: $ brew upgrade"@, 300),
        line_step("Already up-to-date: neovim, fzf, ripgrep"@, 300),
        event_step(EventView::ModuleFinished(Module::Brew, ModuleStatus::Success)),
    ]
}

/// The Distrobox module of a successful simulated run, and its end.
pub open spec fn sim_distrobox() -> Seq<StepView> {
    seq![
        event_step(EventView::ModuleStarted(Module::Distrobox)),
        line_step("$ distrobox list --json"@, 300),
        line_step("Upgrading Distrobox containers..."@, 500),
        line_step("[DRY RUN] Would execute: $ distrobox upgrade all"@, 300),
        line_step("ubuntu-22: updated 5 packages"@, 400),
        StepView {
            event: EventView::ModuleFinished(Module::Distrobox, ModuleStatus::Success),
            pause_ms: 300,
        },
        event_step(EventView::Complete),
    ]
}

/// The steps of a simulated run.
pub open spec fn sim_script(scenario: SimulationScenario) -> Seq<StepView> {
    match scenario {
        SimulationScenario::AlreadyUpToDate => sim_opening() + sim_current(),
        SimulationScenario::Failure => sim_opening() + sim_failure(),
        SimulationScenario::Success => sim_opening() + sim_system() + sim_flatpak() + sim_brew()
            + sim_distrobox(),
    }
}

fn say(script: &mut Vec<SimStep>, text: &str, pause_ms: u64)
    ensures
        final(script).deep_view() == old(script).deep_view().push(line_step(text@, pause_ms)),
{
    script.push(SimStep { event: UpdateEvent::Output(text.to_string()), pause_ms });
    assert(script.deep_view() =~= old(script).deep_view().push(line_step(text@, pause_ms)));
}

fn tell(script: &mut Vec<SimStep>, event: UpdateEvent, pause_ms: u64)
    ensures
        final(script).deep_view() == old(script).deep_view().push(
            StepView { event: event.deep_view(), pause_ms },
        ),
{
    let ghost step = StepView { event: event.deep_view(), pause_ms };
    script.push(SimStep { event, pause_ms });
    assert(script.deep_view() =~= old(script).deep_view().push(step));
}

fn script_opening() -> (r: Vec<SimStep>)
    ensures
        r.deep_view() == sim_opening(),
{
    let mut s: Vec<SimStep> = Vec::new();
    say(&mut s, "[DEV MODE] Starting finupdate simulation (DRY RUN)", 300);
    say(&mut s, "[DEV MODE] No actual commands will be executed - this is a preview", 700);
    tell(&mut s, UpdateEvent::ModuleStarted(Module::System), 0);
    say(&mut s, "$ pkexec bootc upgrade --check", 300);
    say(&mut s, "Checking for OS image updates...", 600);
    s
}

fn script_system(s: &mut Vec<SimStep>)
    ensures
        final(s).deep_view() == old(s).deep_view() + sim_system(),
{
    say(s, "[DRY RUN] Would execute: $ pkexec bootc upgrade", 300);
    say(s, "bootc: Fetching image manifest...", 500);
    say(s, "bootc: Pulling 3 new layers (42.1 MB)", 800);
    say(s, "bootc: Staging complete — reboot to apply", 400);
    tell(s, UpdateEvent::ModuleFinished(Module::System, ModuleStatus::Success), 0);
}

fn script_flatpak(s: &mut Vec<SimStep>)
    ensures
        final(s).deep_view() == old(s).deep_view() + sim_flatpak(),
{
    tell(s, UpdateEvent::ModuleStarted(Module::Flatpak), 0);
    say(s, "$ flatpak remote-info --updates flathub", 300);
    say(s, "Checking for Flatpak updates...", 500);
    say(s, "[DRY RUN] Would execute: $ flatpak update -y", 300);
    say(s, "Updated: org.mozilla.firefox (130.0.1 → 131.0)", 400);
    say(s, "Updated: com.spotify.Client (1.2.45 → 1.2.46)", 400);
    say(s, "Flatpak: 2 apps updated", 300);
    tell(s, UpdateEvent::ModuleFinished(Module::Flatpak, ModuleStatus::Success), 0);
}

fn script_brew(s: &mut Vec<SimStep>)
    ensures
        final(s).deep_view() == old(s).deep_view() + sim_brew(),
{
    tell(s, UpdateEvent::ModuleStarted(Module::Brew), 0);
    say(s, "$ brew upgrade --dry-run", 300);
    say(s, "Upgrading Homebrew packages...", 500);
    say(s, "[DRY RUN] Would execute: $ brew upgrade", 300);
    say(s, "Already up-to-date: neovim, fzf, ripgrep", 300);
    tell(s, UpdateEvent::ModuleFinished(Module::Brew, ModuleStatus::Success), 0);
}

fn script_distrobox(s: &mut Vec<SimStep>)
    ensures
        final(s).deep_view() == old(s).deep_view() + sim_distrobox(),
{
    tell(s, UpdateEvent::ModuleStarted(Module::Distrobox), 0);
    say(s, "$ distrobox list --json", 300);
    say(s, "Upgrading Distrobox containers...", 500);
    say(s, "[DRY RUN] Would execute: $ distrobox upgrade all", 300);
    say(s, "ubuntu-22: updated 5 packages", 400);
    tell(s, UpdateEvent::ModuleFinished(Module::Distrobox, ModuleStatus::Success), 300);
    tell(s, UpdateEvent::Complete, 0);
}

/// The steps of a simulated run: what it tells, and how long it pauses after
/// each event.
pub fn simulate_update(scenario: SimulationScenario) -> (r: Vec<SimStep>)
    ensures
        r.deep_view() == sim_script(scenario),
{
    let mut s: Vec<SimStep> = script_opening();
    match scenario {
        SimulationScenario::AlreadyUpToDate => {
            say(&mut s, "Image is already up to date", 400);
            tell(&mut s, UpdateEvent::ModuleFinished(Module::System, ModuleStatus::UpToDate), 0);
            tell(&mut s, UpdateEvent::UpToDate, 0);
            assert(s.deep_view() =~= sim_opening() + sim_current());
        },
        SimulationScenario::Failure => {
            say(&mut s, "[DRY RUN] Would execute: $ pkexec bootc upgrade", 300);
            say(&mut s, "bootc upgrade failed (simulated)", 400);
            tell(&mut s, UpdateEvent::ModuleFinished(Module::System, ModuleStatus::Failed(1)), 0);
            tell(
                &mut s,
                UpdateEvent::Error("[DEV MODE] Simulated system module failure".to_string()),
                0,
            );
            assert(s.deep_view() =~= sim_opening() + sim_failure());
        },
        SimulationScenario::Success => {
            script_system(&mut s);
            script_flatpak(&mut s);
            script_brew(&mut s);
            script_distrobox(&mut s);
        },
    }
    s
}

/// Whether an event ends a run.
pub open spec fn is_final(event: EventView) -> bool {
    event is Complete || event is UpToDate || event is Error
}

/// What a simulated run tells until it ends, or until it is cancelled after
/// `steps` of its steps.
pub open spec fn sim_events(scenario: SimulationScenario, cancel_after: Option<int>) -> Seq<
    EventView,
> {
    let script = sim_script(scenario);
    let told = Seq::new(script.len(), |i: int| script[i].event);
    match cancel_after {
        Some(n) => if 0 <= n < told.len() {
            told.take(n).push(cancelled_event())
        } else {
            told
        },
        None => told,
    }
}

/// What a simulated run tells: its script to the end, or its first steps and a
/// cancellation.
pub fn run_simulated(scenario: SimulationScenario, cancel_after: Option<usize>) -> (r: Vec<
    UpdateEvent,
>)
    ensures
        r.deep_view() == sim_events(
            scenario,
            match cancel_after {
                Some(n) => Some(n as int),
                None => None,
            },
        ),
{
    let script: Vec<SimStep> = simulate_update(scenario);
    let mut out: Vec<UpdateEvent> = Vec::new();
    let mut i: usize = 0;
    let ghost told = Seq::new(script.deep_view().len(), |k: int| script.deep_view()[k].event);
    while i < script.len()
        invariant
            0 <= i <= script@.len(),
            script.deep_view() == sim_script(scenario),
            told == Seq::new(script.deep_view().len(), |k: int| script.deep_view()[k].event),
            out.deep_view() == told.take(i as int),
            cancel_after matches Some(n) ==> i <= n,
        decreases script@.len() - i,
    {
        if let Some(n) = cancel_after {
            if i == n {
                let ghost before = out.deep_view();
                out.push(cancelled());
                assert(out.deep_view() =~= before.push(cancelled_event()));
                return out;
            }
        }
        let event: UpdateEvent = script[i].event.clone();
        assert(event.deep_view() == told[i as int]);
        let ghost before = out.deep_view();
        out.push(event);
        assert(out.deep_view() =~= before.push(event.deep_view()));
        i += 1;
        assert(told.take(i as int) =~= before.push(event.deep_view()));
    }
    assert(told.take(i as int) =~= told);
    out
}

/// A simulated run ends with the event that its scenario names, and with no
/// such event before; where it is cancelled before its end, it ends with the
/// cancellation instead.
pub proof fn law_simulation_ends_once(scenario: SimulationScenario, cancel_after: Option<int>)
    requires
        cancel_after matches Some(n) ==> n >= 0,
    ensures
        ({
            let events = sim_events(scenario, cancel_after);
            &&& events.len() > 0
            &&& is_final(events.last())
            &&& forall|i: int| 0 <= i < events.len() - 1 ==> !is_final(#[trigger] events[i])
            &&& (cancel_after matches Some(n) && n < sim_script(scenario).len()) ==> events.last()
                == cancelled_event()
            &&& cancel_after is None ==> match scenario {
                SimulationScenario::Success => events.last() is Complete,
                SimulationScenario::AlreadyUpToDate => events.last() is UpToDate,
                SimulationScenario::Failure => events.last() is Error,
            }
        }),
{
}

/// A simulated success finishes every module well, a simulated failure fails the system and
/// runs no other module, and where there is nothing to update the system says so.
pub proof fn law_simulation_tells_its_outcome(m: Module)
    ensures
        ({
            let good = sim_events(SimulationScenario::Success, None);
            let bad = sim_events(SimulationScenario::Failure, None);
            let none = sim_events(SimulationScenario::AlreadyUpToDate, None);
            &&& good.contains(EventView::ModuleStarted(m))
            &&& good.contains(EventView::ModuleFinished(m, ModuleStatus::Success))
            &&& bad.contains(EventView::ModuleFinished(Module::System, ModuleStatus::Failed(1)))
            &&& bad.contains(EventView::ModuleStarted(m)) <==> m == Module::System
            &&& none.contains(EventView::ModuleFinished(Module::System, ModuleStatus::UpToDate))
            &&& none.contains(EventView::ModuleStarted(m)) <==> m == Module::System
        }),
{
    let good = sim_events(SimulationScenario::Success, None);
    let bad = sim_events(SimulationScenario::Failure, None);
    let none = sim_events(SimulationScenario::AlreadyUpToDate, None);
    assert(good[2] == EventView::ModuleStarted(Module::System));
    assert(good[9] == EventView::ModuleFinished(Module::System, ModuleStatus::Success));
    assert(good[10] == EventView::ModuleStarted(Module::Flatpak));
    assert(good[17] == EventView::ModuleFinished(Module::Flatpak, ModuleStatus::Success));
    assert(good[18] == EventView::ModuleStarted(Module::Brew));
    assert(good[23] == EventView::ModuleFinished(Module::Brew, ModuleStatus::Success));
    assert(good[24] == EventView::ModuleStarted(Module::Distrobox));
    assert(good[29] == EventView::ModuleFinished(Module::Distrobox, ModuleStatus::Success));
    assert(bad[2] == EventView::ModuleStarted(Module::System));
    assert(bad[7] == EventView::ModuleFinished(Module::System, ModuleStatus::Failed(1)));
    assert(none[2] == EventView::ModuleStarted(Module::System));
    assert(none[6] == EventView::ModuleFinished(Module::System, ModuleStatus::UpToDate));
}

} // verus!
