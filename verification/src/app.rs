//! The application: its state machine, and what its window shows.
use crate::action_journal::Journal;
use crate::dbus_progress::{idle_progress, progress, ProgressDBus, ProgressView};
use crate::orchestrator::{module_key, Module, ModuleStatus};
use crate::privileged::{resolve_argv, resolved, Privilege};
use crate::settings::{
    overridden, without_overrides, OverridesView, RuntimeOverrides, Settings, SettingsView,
};
use crate::text;
use crate::ui::host_actions::{restart_plan, toast, Flags, Toast, ToastView};
use crate::ui::rebase_dialog::switch_plan;
use crate::ui::status_view::{
    status_step, EffectView, InputView, OutputView, Readings, StatusModel, StatusViewInput,
    StatusViewOutput,
};
use crate::ui::update_check_dialog::{CheckOutcome, CheckResult};
use crate::update_worker::{
    is_final, law_simulation_ends_once, sim_events, sim_script, EventView, SimulationScenario,
    UpdateEvent,
};
use vstd::prelude::*;

verus! {

/// State of the application.
#[derive(Debug, PartialEq)]
pub enum AppState {
    /// No update runs.
    Idle,
    /// An update runs.
    Updating,
    /// The update completed.
    Complete,
    /// There was nothing to update.
    UpToDate,
    /// The update failed, with this message.
    Error(String),
}

/// What a state is.
#[verifier::ext_equal]
pub enum StateView {
    Idle,
    Updating,
    Complete,
    UpToDate,
    Error(Seq<char>),
}

impl DeepView for AppState {
    type V = StateView;

    open spec fn deep_view(&self) -> StateView {
        match self {
            AppState::Idle => StateView::Idle,
            AppState::Updating => StateView::Updating,
            AppState::Complete => StateView::Complete,
            AppState::UpToDate => StateView::UpToDate,
            AppState::Error(e) => StateView::Error(e@),
        }
    }
}

impl Clone for AppState {
    fn clone(&self) -> (r: Self)
        ensures
            r.deep_view() == self.deep_view(),
    {
        match self {
            AppState::Idle => AppState::Idle,
            AppState::Updating => AppState::Updating,
            AppState::Complete => AppState::Complete,
            AppState::UpToDate => AppState::UpToDate,
            AppState::Error(e) => AppState::Error(e.clone()),
        }
    }
}

impl Default for AppState {
    fn default() -> (r: Self)
        ensures
            r == AppState::Idle,
    {
        AppState::Idle
    }
}

/// What is known of updates before one is started.
#[derive(Debug, Clone, Copy, PartialEq, Eq, Structural)]
pub enum PreflightStatus {
    Checking,
    UpdateAvailable,
    UpToDate,
    Unknown,
}

impl DeepView for PreflightStatus {
    type V = PreflightStatus;

    open spec fn deep_view(&self) -> PreflightStatus {
        *self
    }
}

/// Messages to the application.
#[derive(Debug)]
pub enum AppMsg {
    /// Start an update, perhaps without a question on a metered connection.
    StartUpdate { skip_metered_check: bool },
    /// Open the dialog that updates every source.
    OpenCheckDialog,
    /// That dialog is done.
    CheckComplete(CheckResult),
    /// Install what that dialog found.
    InstallFromCheck,
    /// A line of output.
    OutputLine(String),
    /// A module started.
    ModuleStarted(Module),
    /// A module finished.
    ModuleFinished(Module, ModuleStatus),
    /// The update completed.
    UpdateComplete,
    /// There was nothing to update.
    UpdateUpToDate,
    /// The update failed.
    UpdateFailed(String),
    /// Cancel the update.
    CancelUpdate,
    /// Ask whether to restart.
    RequestReboot,
    /// Restart.
    ConfirmReboot,
    /// Open the dialog that switches to another build.
    ShowRebaseDialog,
    /// Show what the program is.
    ShowAbout,
    /// Show the preferences.
    ShowPreferences,
    /// Preferences changed.
    SettingsChanged(Settings),
    /// What the check at startup found.
    PreflightResult(PreflightStatus),
    /// Developer mode is switched.
    ToggleDevMode(bool),
    /// The simulated scenario is chosen.
    SetSimScenario(SimulationScenario),
    /// Quit.
    Quit,
    /// The window is to be closed.
    CloseRequest,
    /// Another page is shown.
    PageChanged(String),
    /// Go back to the first page.
    GoBack,
    /// Show the changelog.
    ShowWhatsNew,
    /// Dismiss the banner of a staged image.
    DismissBanner,
    /// Ask whether to powerwash.
    TriggerPowerwash,
    /// Ask whether to reset to factory state.
    TriggerFactoryReset,
    /// Show a page.
    ShowStatusPage(String),
}

/// What a message is.
#[verifier::ext_equal]
pub enum MsgView {
    StartUpdate { skip_metered_check: bool },
    OpenCheckDialog,
    CheckComplete(CheckResult),
    InstallFromCheck,
    OutputLine(Seq<char>),
    ModuleStarted(Module),
    ModuleFinished(Module, ModuleStatus),
    UpdateComplete,
    UpdateUpToDate,
    UpdateFailed(Seq<char>),
    CancelUpdate,
    RequestReboot,
    ConfirmReboot,
    ShowRebaseDialog,
    ShowAbout,
    ShowPreferences,
    SettingsChanged(SettingsView),
    PreflightResult(PreflightStatus),
    ToggleDevMode(bool),
    SetSimScenario(SimulationScenario),
    Quit,
    CloseRequest,
    PageChanged(Seq<char>),
    GoBack,
    ShowWhatsNew,
    DismissBanner,
    TriggerPowerwash,
    TriggerFactoryReset,
    ShowStatusPage(Seq<char>),
}

impl DeepView for AppMsg {
    type V = MsgView;

    open spec fn deep_view(&self) -> MsgView {
        match self {
            AppMsg::StartUpdate { skip_metered_check } => MsgView::StartUpdate {
                skip_metered_check: *skip_metered_check,
            },
            AppMsg::OpenCheckDialog => MsgView::OpenCheckDialog,
            AppMsg::CheckComplete(r) => MsgView::CheckComplete(*r),
            AppMsg::InstallFromCheck => MsgView::InstallFromCheck,
            AppMsg::OutputLine(s) => MsgView::OutputLine(s@),
            AppMsg::ModuleStarted(m) => MsgView::ModuleStarted(*m),
            AppMsg::ModuleFinished(m, s) => MsgView::ModuleFinished(*m, *s),
            AppMsg::UpdateComplete => MsgView::UpdateComplete,
            AppMsg::UpdateUpToDate => MsgView::UpdateUpToDate,
            AppMsg::UpdateFailed(e) => MsgView::UpdateFailed(e@),
            AppMsg::CancelUpdate => MsgView::CancelUpdate,
            AppMsg::RequestReboot => MsgView::RequestReboot,
            AppMsg::ConfirmReboot => MsgView::ConfirmReboot,
            AppMsg::ShowRebaseDialog => MsgView::ShowRebaseDialog,
            AppMsg::ShowAbout => MsgView::ShowAbout,
            AppMsg::ShowPreferences => MsgView::ShowPreferences,
            AppMsg::SettingsChanged(s) => MsgView::SettingsChanged(s.deep_view()),
            AppMsg::PreflightResult(p) => MsgView::PreflightResult(*p),
            AppMsg::ToggleDevMode(b) => MsgView::ToggleDevMode(*b),
            AppMsg::SetSimScenario(s) => MsgView::SetSimScenario(*s),
            AppMsg::Quit => MsgView::Quit,
            AppMsg::CloseRequest => MsgView::CloseRequest,
            AppMsg::PageChanged(p) => MsgView::PageChanged(p@),
            AppMsg::GoBack => MsgView::GoBack,
            AppMsg::ShowWhatsNew => MsgView::ShowWhatsNew,
            AppMsg::DismissBanner => MsgView::DismissBanner,
            AppMsg::TriggerPowerwash => MsgView::TriggerPowerwash,
            AppMsg::TriggerFactoryReset => MsgView::TriggerFactoryReset,
            AppMsg::ShowStatusPage(p) => MsgView::ShowStatusPage(p@),
        }
    }
}

/// Questions that the application asks.
#[derive(Debug, Clone, Copy, PartialEq, Eq, Structural)]
pub enum Question {
    /// Update on a metered connection?
    Metered,
    /// Restart?
    Restart,
    /// Close the window while an update runs?
    Close,
}

/// What the window and the rest of the program have to do after a message, in
/// order.
#[derive(Debug)]
pub enum AppEffect {
    /// Ask this.
    Ask(Question),
    /// Run an update: a simulated one, or the real one.
    StartWorker(Option<SimulationScenario>),
    /// Tell the update to stop.
    CancelWorker,
    /// Announce the properties on the session bus.
    PublishProgress,
    /// Pass this on to the main view.
    ToStatus(StatusViewInput),
    /// Set the title of the window.
    SetWindowTitle(String),
    /// Set title and subtitle of the header, and show the back button or not.
    SetHeader { title: String, subtitle: String, back: bool },
    /// Show or hide the banner of developer mode.
    RevealDevBanner(bool),
    /// Say this; with a button that dismisses it, or not.
    Say(Toast, bool),
    /// Notify the desktop.
    Notify { id: String, title: String, body: String },
    /// Restart the host, as far as these settings let it.
    Restart(Flags),
    /// Run this command for at most 15 seconds, and send what it found.
    Preflight(Vec<String>),
    /// Open the dialog that updates every source: simulated or not.
    OpenCheckDialog(Option<SimulationScenario>),
    /// Open the dialog that switches to another build, as far as these settings
    /// let it.
    OpenRebase(Flags),
    ShowAbout,
    /// Open the preferences.
    ShowPreferences(Settings),
    /// Store these preferences.
    SaveSettings(Settings),
    /// Send this message to the application.
    Send(AppMsg),
    Quit,
}

/// What that is.
#[verifier::ext_equal]
pub enum AppEffectView {
    Ask(Question),
    StartWorker(Option<SimulationScenario>),
    CancelWorker,
    PublishProgress,
    ToStatus(InputView),
    SetWindowTitle(Seq<char>),
    SetHeader { title: Seq<char>, subtitle: Seq<char>, back: bool },
    RevealDevBanner(bool),
    Say(ToastView, bool),
    Notify { id: Seq<char>, title: Seq<char>, body: Seq<char> },
    Restart(Flags),
    Preflight(Seq<Seq<char>>),
    OpenCheckDialog(Option<SimulationScenario>),
    OpenRebase(Flags),
    ShowAbout,
    ShowPreferences(SettingsView),
    SaveSettings(SettingsView),
    Send(MsgView),
    Quit,
}

impl DeepView for AppEffect {
    type V = AppEffectView;

    open spec fn deep_view(&self) -> AppEffectView {
        match self {
            AppEffect::Ask(q) => AppEffectView::Ask(*q),
            AppEffect::StartWorker(s) => AppEffectView::StartWorker(*s),
            AppEffect::CancelWorker => AppEffectView::CancelWorker,
            AppEffect::PublishProgress => AppEffectView::PublishProgress,
            AppEffect::ToStatus(m) => AppEffectView::ToStatus(m.deep_view()),
            AppEffect::SetWindowTitle(t) => AppEffectView::SetWindowTitle(t@),
            AppEffect::SetHeader { title, subtitle, back } => AppEffectView::SetHeader {
                title: title@,
                subtitle: subtitle@,
                back: *back,
            },
            AppEffect::RevealDevBanner(b) => AppEffectView::RevealDevBanner(*b),
            AppEffect::Say(t, b) => AppEffectView::Say(t.deep_view(), *b),
            AppEffect::Notify { id, title, body } => AppEffectView::Notify {
                id: id@,
                title: title@,
                body: body@,
            },
            AppEffect::Restart(f) => AppEffectView::Restart(*f),
            AppEffect::Preflight(argv) => AppEffectView::Preflight(argv.deep_view()),
            AppEffect::OpenCheckDialog(s) => AppEffectView::OpenCheckDialog(*s),
            AppEffect::OpenRebase(f) => AppEffectView::OpenRebase(*f),
            AppEffect::ShowAbout => AppEffectView::ShowAbout,
            AppEffect::ShowPreferences(s) => AppEffectView::ShowPreferences(s.deep_view()),
            AppEffect::SaveSettings(s) => AppEffectView::SaveSettings(s.deep_view()),
            AppEffect::Send(m) => AppEffectView::Send(m.deep_view()),
            AppEffect::Quit => AppEffectView::Quit,
        }
    }
}

/// What the outside tells when a message is answered: whether the connection is
/// metered, the preferences as stored, and the overrides of the run.
#[derive(Debug)]
pub struct AppReadings {
    pub metered: bool,
    pub kept: Settings,
    pub overrides: Option<RuntimeOverrides>,
}

/// The application.
#[derive(Debug)]
pub struct App {
    pub state: AppState,
    pub preflight_status: PreflightStatus,
    pub sim_scenario: SimulationScenario,
    /// Lines of output so far.
    pub log_lines: Vec<String>,
    /// Whether an update runs that can be told to stop.
    pub cancellable: bool,
    pub current_page: String,
    pub settings: Settings,
    pub progress: ProgressDBus,
}

/// What the application is.
#[verifier::ext_equal]
pub struct AppModel {
    pub state: StateView,
    pub preflight: PreflightStatus,
    pub scenario: SimulationScenario,
    pub log: Seq<Seq<char>>,
    pub cancellable: bool,
    pub page: Seq<char>,
    pub settings: SettingsView,
    pub progress: ProgressView,
}

impl DeepView for App {
    type V = AppModel;

    open spec fn deep_view(&self) -> AppModel {
        AppModel {
            state: self.state.deep_view(),
            preflight: self.preflight_status,
            scenario: self.sim_scenario,
            log: self.log_lines.deep_view(),
            cancellable: self.cancellable,
            page: self.current_page@,
            settings: self.settings.deep_view(),
            progress: self.progress.deep_view(),
        }
    }
}

/// A model and what is to be done.
pub type AppStep = (AppModel, Seq<AppEffectView>);

/// The title of the window in a state.
pub open spec fn state_title(s: StateView) -> Seq<char> {
    match s {
        StateView::Idle => "System Update"@,
        StateView::Updating => "System Update — Updating…"@,
        StateView::Complete => "System Update — Update complete"@,
        StateView::UpToDate => "System Update — Already up to date"@,
        StateView::Error(_) => "System Update — Update failed"@,
    }
}

/// Whether commands are withheld: updates are simulated, and nothing restarts.
pub open spec fn is_withheld(s: SettingsView) -> bool {
    s.dev_mode || s.dry_run
}

/// The scenario of an update, where it is simulated.
pub open spec fn scenario_of(m: AppModel) -> Option<SimulationScenario> {
    if is_withheld(m.settings) {
        Some(m.scenario)
    } else {
        None
    }
}

/// An update is asked for.
pub open spec fn started(m: AppModel, skip_metered_check: bool, metered: bool) -> AppStep {
    if m.state is Updating {
        (m, Seq::empty())
    } else if !skip_metered_check && m.settings.pause_on_metered && metered {
        (m, seq![AppEffectView::Ask(Question::Metered)])
    } else {
        (
            AppModel {
                state: StateView::Updating,
                log: Seq::empty(),
                cancellable: true,
                progress: progress("updating"@, 0, "Starting update…"@),
                ..m
            },
            seq![
                AppEffectView::PublishProgress,
                AppEffectView::SetWindowTitle(state_title(StateView::Updating)),
                AppEffectView::ToStatus(InputView::StateChanged(StateView::Updating)),
                AppEffectView::ToStatus(InputView::ClearLog),
                AppEffectView::StartWorker(scenario_of(m)),
            ],
        )
    }
}

/// The dialog that updates every source is done.
pub open spec fn checked(m: AppModel, result: CheckResult) -> AppStep {
    let found = result.sources_with_updates > 0;
    let preflight = if found {
        PreflightStatus::UpdateAvailable
    } else {
        PreflightStatus::UpToDate
    };
    (
        AppModel {
            preflight,
            progress: if found {
                progress("idle"@, 0, "Updates available"@)
            } else {
                idle_progress()
            },
            ..m
        },
        seq![
            AppEffectView::PublishProgress,
            AppEffectView::ToStatus(InputView::PreflightResult(preflight)),
        ],
    )
}

/// Where a module begins, in percent of the whole.
pub open spec fn module_percent(m: Module) -> int {
    match m {
        Module::System => 0,
        Module::Flatpak => 25,
        Module::Brew => 50,
        Module::Distrobox => 75,
    }
}

/// A module started.
pub open spec fn module_begun(m: AppModel, module: Module) -> AppStep {
    (
        AppModel {
            progress: ProgressView {
                percent: module_percent(module) as u32,
                message: "Updating "@ + module_key(module) + "…"@,
                ..m.progress
            },
            ..m
        },
        seq![
            AppEffectView::PublishProgress,
            AppEffectView::PublishProgress,
            AppEffectView::ToStatus(InputView::ModuleStarted(module)),
        ],
    )
}

/// The update ended in a state.
pub open spec fn ended_in(m: AppModel, s: StateView, p: ProgressView) -> AppModel {
    AppModel { state: s, cancellable: false, progress: p, ..m }
}

/// The update completed.
pub open spec fn completed_step(m: AppModel) -> AppStep {
    (
        ended_in(m, StateView::Complete, progress("complete"@, 100, "Update complete"@)),
        seq![
            AppEffectView::PublishProgress,
            AppEffectView::SetWindowTitle(state_title(StateView::Complete)),
            AppEffectView::ToStatus(InputView::StateChanged(StateView::Complete)),
            AppEffectView::Say(toast("System update complete — restart to apply"@, 0), true),
            AppEffectView::Notify {
                id: "update-complete"@,
                title: "System Update Complete"@,
                body: "Your system has been updated. Restart to apply changes."@,
            },
        ],
    )
}

/// There was nothing to update.
pub open spec fn current_step(m: AppModel) -> AppStep {
    (
        ended_in(m, StateView::UpToDate, progress("complete"@, 100, "Up to date"@)),
        seq![
            AppEffectView::PublishProgress,
            AppEffectView::SetWindowTitle(state_title(StateView::UpToDate)),
            AppEffectView::ToStatus(InputView::StateChanged(StateView::UpToDate)),
        ],
    )
}

/// The update failed.
pub open spec fn failed_step(m: AppModel, err: Seq<char>) -> AppStep {
    (
        ended_in(m, StateView::Error(err), progress("error"@, 0, err)),
        seq![
            AppEffectView::PublishProgress,
            AppEffectView::SetWindowTitle(state_title(StateView::Error(err))),
            AppEffectView::Notify {
                id: "update-failed"@,
                title: "System Update Failed"@,
                body: err,
            },
            AppEffectView::ToStatus(InputView::StateChanged(StateView::Error(err))),
        ],
    )
}

/// The update is to stop.
pub open spec fn cancel_step(m: AppModel) -> AppStep {
    if m.cancellable {
        (AppModel { cancellable: false, ..m }, seq![AppEffectView::CancelWorker])
    } else {
        (m, Seq::empty())
    }
}

/// The settings that withhold commands.
pub open spec fn flags_of(s: SettingsView) -> Flags {
    Flags { dev_mode: s.dev_mode, dry_run: s.dry_run }
}

/// The name of a page.
pub open spec fn page_label(page: Seq<char>) -> Seq<char> {
    if page == "history"@ {
        "Version History"@
    } else if page == "source"@ {
        "Image Source"@
    } else if page == "changelog"@ {
        "What’s New"@
    } else {
        "Finupdate"@
    }
}

/// Another page is shown.
pub open spec fn page_step(m: AppModel, page: Seq<char>) -> AppStep {
    let first = page == "main"@;
    (
        AppModel { page, ..m },
        seq![
            AppEffectView::SetHeader {
                title: page_label(page),
                subtitle: if first {
                    ""@
                } else {
                    "Finupdate"@
                },
                back: !first,
            },
            AppEffectView::SetWindowTitle(
                if first {
                    "Finupdate"@
                } else {
                    "Finupdate — "@ + page_label(page)
                },
            ),
        ],
    )
}

/// Developer mode is switched: what is stored has the overrides of the run taken
/// out.
pub open spec fn dev_mode_step(
    m: AppModel,
    enabled: bool,
    kept: SettingsView,
    o: Option<OverridesView>,
) -> AppStep {
    let settings = SettingsView { dev_mode: enabled, ..m.settings };
    (
        AppModel { settings, ..m },
        seq![
            AppEffectView::SaveSettings(
                SettingsView { dev_mode: enabled, ..without_overrides(settings, kept, o) },
            ),
            AppEffectView::RevealDevBanner(enabled),
        ],
    )
}

/// The window is to be closed, or the program is to quit.
pub open spec fn leaving(m: AppModel, instead: AppEffectView) -> AppStep {
    (
        m,
        seq![
            if m.state is Updating {
                instead
            } else {
                AppEffectView::Quit
            },
        ],
    )
}

/// The application does not change.
pub open spec fn unchanged(m: AppModel, e: AppEffectView) -> AppStep {
    (m, seq![e])
}

/// How the application answers a message.
pub open spec fn app_step(m: AppModel, msg: MsgView, r: AppReadings) -> AppStep {
    match msg {
        MsgView::StartUpdate { skip_metered_check } => started(
            m,
            skip_metered_check,
            r.metered,
        ),
        MsgView::OpenCheckDialog => (
            AppModel { progress: progress("checking"@, 0, "Checking for updates…"@), ..m },
            seq![
                AppEffectView::PublishProgress,
                AppEffectView::OpenCheckDialog(scenario_of(m)),
            ],
        ),
        MsgView::CheckComplete(result) => checked(m, result),
        MsgView::InstallFromCheck => unchanged(
            m,
            AppEffectView::Send(MsgView::StartUpdate { skip_metered_check: true }),
        ),
        MsgView::OutputLine(line) => (
            AppModel { log: m.log.push(line), ..m },
            seq![AppEffectView::ToStatus(InputView::AppendLog(line))],
        ),
        MsgView::ModuleStarted(module) => module_begun(m, module),
        MsgView::ModuleFinished(module, status) => unchanged(
            m,
            AppEffectView::ToStatus(InputView::ModuleFinished(module, status)),
        ),
        MsgView::UpdateComplete => completed_step(m),
        MsgView::UpdateUpToDate => current_step(m),
        MsgView::UpdateFailed(err) => failed_step(m, err),
        MsgView::CancelUpdate => cancel_step(m),
        MsgView::RequestReboot => unchanged(m, AppEffectView::Ask(Question::Restart)),
        MsgView::ConfirmReboot => unchanged(m, AppEffectView::Restart(flags_of(m.settings))),
        MsgView::ShowRebaseDialog => unchanged(
            m,
            AppEffectView::OpenRebase(flags_of(m.settings)),
        ),
        MsgView::ShowAbout => unchanged(m, AppEffectView::ShowAbout),
        MsgView::ShowPreferences => unchanged(m, AppEffectView::ShowPreferences(m.settings)),
        MsgView::SettingsChanged(s) => (
            AppModel { settings: s, ..m },
            seq![
                AppEffectView::RevealDevBanner(s.dev_mode),
                AppEffectView::ToStatus(InputView::SettingsChanged(s)),
            ],
        ),
        MsgView::PreflightResult(p) => (
            AppModel { preflight: p, ..m },
            seq![AppEffectView::ToStatus(InputView::PreflightResult(p))],
        ),
        MsgView::ToggleDevMode(enabled) => dev_mode_step(
            m,
            enabled,
            r.kept.deep_view(),
            r.overrides.deep_view(),
        ),
        MsgView::SetSimScenario(s) => (AppModel { scenario: s, ..m }, Seq::empty()),
        MsgView::Quit => leaving(m, AppEffectView::Send(MsgView::CloseRequest)),
        MsgView::CloseRequest => leaving(m, AppEffectView::Ask(Question::Close)),
        MsgView::PageChanged(page) => page_step(m, page),
        MsgView::GoBack => unchanged(m, AppEffectView::ToStatus(InputView::ShowPage("main"@))),
        MsgView::ShowWhatsNew => unchanged(
            m,
            AppEffectView::ToStatus(InputView::SelectChangelogVersion(""@)),
        ),
        MsgView::DismissBanner => unchanged(m, AppEffectView::ToStatus(InputView::DismissBanner)),
        MsgView::TriggerPowerwash => unchanged(
            m,
            AppEffectView::ToStatus(InputView::TogglePin("powerwash"@)),
        ),
        MsgView::TriggerFactoryReset => unchanged(
            m,
            AppEffectView::ToStatus(InputView::TogglePin("factory"@)),
        ),
        MsgView::ShowStatusPage(page) => unchanged(
            m,
            AppEffectView::ToStatus(InputView::ShowPage(page)),
        ),
    }
}

fn no_effects() -> (r: Vec<AppEffect>)
    ensures
        r.deep_view() == Seq::<AppEffectView>::empty(),
{
    let r: Vec<AppEffect> = Vec::new();
    assert(r.deep_view() =~= Seq::<AppEffectView>::empty());
    r
}

fn add_effect(list: &mut Vec<AppEffect>, e: AppEffect)
    ensures
        final(list).deep_view() == old(list).deep_view().push(e.deep_view()),
{
    let ghost before = list.deep_view();
    list.push(e);
    assert(list.deep_view() =~= before.push(e.deep_view()));
}

fn one(e: AppEffect) -> (r: Vec<AppEffect>)
    ensures
        r.deep_view() == seq![e.deep_view()],
{
    let mut r: Vec<AppEffect> = no_effects();
    add_effect(&mut r, e);
    assert(r.deep_view() =~= seq![e.deep_view()]);
    r
}

fn two(a: AppEffect, b: AppEffect) -> (r: Vec<AppEffect>)
    ensures
        r.deep_view() == seq![a.deep_view(), b.deep_view()],
{
    let mut r: Vec<AppEffect> = one(a);
    add_effect(&mut r, b);
    assert(r.deep_view() =~= seq![a.deep_view(), b.deep_view()]);
    r
}

fn to_status(m: StatusViewInput) -> (r: Vec<AppEffect>)
    ensures
        r.deep_view() == seq![AppEffectView::ToStatus(m.deep_view())],
{
    one(AppEffect::ToStatus(m))
}

/// The scenario that the preferences name; it is read in developer mode alone.
pub open spec fn first_scenario(s: SettingsView) -> SimulationScenario {
    if !s.dev_mode {
        SimulationScenario::Success
    } else {
        match s.sim_scenario {
            Some(name) => if name == "Failure"@ || name == "failure"@ {
                SimulationScenario::Failure
            } else if name == "AlreadyUpToDate"@ || name == "up-to-date"@ || name == "uptodate"@ {
                SimulationScenario::AlreadyUpToDate
            } else {
                SimulationScenario::Success
            },
            None => SimulationScenario::Success,
        }
    }
}

fn read_scenario(s: &Settings) -> (r: SimulationScenario)
    ensures
        r == first_scenario(s.deep_view()),
{
    if !s.dev_mode {
        return SimulationScenario::Success;
    }
    if let Some(name) = &s.sim_scenario {
        let name: &str = name.as_str();
        if text::same(name, "Failure") || text::same(name, "failure") {
            SimulationScenario::Failure
        } else if text::same(name, "AlreadyUpToDate") || text::same(name, "up-to-date")
            || text::same(name, "uptodate") {
            SimulationScenario::AlreadyUpToDate
        } else {
            SimulationScenario::Success
        }
    } else {
        SimulationScenario::Success
    }
}

/// The command that asks whether there is an update.
pub open spec fn preflight_argv(flatpak: bool) -> Seq<Seq<char>> {
    resolved(seq!["bootc"@, "upgrade"@, "--check"@], Privilege::Pkexec, flatpak)
}

/// The application as it starts.
pub open spec fn first_step(s: SettingsView, flatpak: bool) -> AppStep {
    (
        AppModel {
            state: StateView::Idle,
            preflight: PreflightStatus::Checking,
            scenario: first_scenario(s),
            log: Seq::empty(),
            cancellable: false,
            page: "main"@,
            settings: s,
            progress: idle_progress(),
        },
        seq![
            AppEffectView::SetHeader { title: "Finupdate"@, subtitle: ""@, back: false },
            AppEffectView::RevealDevBanner(s.dev_mode),
            if s.mock_identity is Some {
                AppEffectView::Send(MsgView::PreflightResult(PreflightStatus::UpdateAvailable))
            } else {
                AppEffectView::Preflight(preflight_argv(flatpak))
            },
        ],
    )
}

/// What the command that asks for an update says by its exit code; none where it
/// did not start or took too long.
pub open spec fn preflight_of(code: Option<i32>) -> PreflightStatus {
    if code == Some(0i32) {
        PreflightStatus::UpdateAvailable
    } else if code == Some(77i32) {
        PreflightStatus::UpToDate
    } else {
        PreflightStatus::Unknown
    }
}

/// What the command that asks for an update says by its exit code.
pub fn preflight_result(code: Option<i32>) -> (r: PreflightStatus)
    ensures
        r == preflight_of(code),
{
    match code {
        Some(c) => if c == 0 {
            PreflightStatus::UpdateAvailable
        } else if c == 77 {
            PreflightStatus::UpToDate
        } else {
            PreflightStatus::Unknown
        },
        None => PreflightStatus::Unknown,
    }
}

/// The message that an event of the update becomes.
pub open spec fn event_msg(e: EventView) -> MsgView {
    match e {
        EventView::Output(line) => MsgView::OutputLine(line),
        EventView::ModuleStarted(m) => MsgView::ModuleStarted(m),
        EventView::ModuleFinished(m, s) => MsgView::ModuleFinished(m, s),
        EventView::Complete => MsgView::UpdateComplete,
        EventView::UpToDate => MsgView::UpdateUpToDate,
        EventView::Error(err) => MsgView::UpdateFailed(err),
    }
}

/// The message that an event of the update becomes, and whether it is the last.
pub fn message_of_event(e: UpdateEvent) -> (r: (AppMsg, bool))
    ensures
        r.0.deep_view() == event_msg(e.deep_view()),
        r.1 == is_final(e.deep_view()),
{
    match e {
        UpdateEvent::Output(line) => (AppMsg::OutputLine(line), false),
        UpdateEvent::ModuleStarted(m) => (AppMsg::ModuleStarted(m), false),
        UpdateEvent::ModuleFinished(m, s) => (AppMsg::ModuleFinished(m, s), false),
        UpdateEvent::Complete => (AppMsg::UpdateComplete, true),
        UpdateEvent::UpToDate => (AppMsg::UpdateUpToDate, true),
        UpdateEvent::Error(err) => (AppMsg::UpdateFailed(err), true),
    }
}

/// The message that an output of the main view becomes.
pub open spec fn output_msg(o: OutputView) -> MsgView {
    match o {
        OutputView::StartUpdate => MsgView::StartUpdate { skip_metered_check: false },
        OutputView::CancelUpdate => MsgView::CancelUpdate,
        OutputView::Reboot => MsgView::RequestReboot,
        OutputView::ShowRebase => MsgView::ShowRebaseDialog,
        OutputView::OpenCheckDialog => MsgView::OpenCheckDialog,
        OutputView::PageChanged(page) => MsgView::PageChanged(page),
        OutputView::OpenAdvanced => MsgView::ShowPreferences,
    }
}

/// The message that an output of the main view becomes.
pub fn message_of_output(o: StatusViewOutput) -> (r: AppMsg)
    ensures
        r.deep_view() == output_msg(o.deep_view()),
{
    match o {
        StatusViewOutput::StartUpdate => AppMsg::StartUpdate { skip_metered_check: false },
        StatusViewOutput::CancelUpdate => AppMsg::CancelUpdate,
        StatusViewOutput::Reboot => AppMsg::RequestReboot,
        StatusViewOutput::ShowRebase => AppMsg::ShowRebaseDialog,
        StatusViewOutput::OpenCheckDialog => AppMsg::OpenCheckDialog,
        StatusViewOutput::PageChanged(page) => AppMsg::PageChanged(page),
        StatusViewOutput::OpenAdvanced => AppMsg::ShowPreferences,
    }
}

/// What an answer to a question leads to.
pub open spec fn answered(q: Question, response: Seq<char>) -> Option<AppEffectView> {
    match q {
        Question::Metered => if response == "proceed"@ {
            Some(AppEffectView::Send(MsgView::StartUpdate { skip_metered_check: true }))
        } else {
            None
        },
        Question::Restart => if response == "restart"@ {
            Some(AppEffectView::Send(MsgView::ConfirmReboot))
        } else {
            None
        },
        Question::Close => if response == "close"@ {
            Some(AppEffectView::Quit)
        } else {
            None
        },
    }
}

/// A question as it is shown. Its responses are `cancel`, which is the default
/// and what closing the dialog means, and one more.
#[derive(Debug)]
pub struct Alert {
    pub heading: &'static str,
    pub body: &'static str,
    pub cancel_label: &'static str,
    pub response: &'static str,
    pub label: &'static str,
    pub destructive: bool,
}

/// The response of a question that is not `cancel`.
pub open spec fn response_of(q: Question) -> Seq<char> {
    match q {
        Question::Metered => "proceed"@,
        Question::Restart => "restart"@,
        Question::Close => "close"@,
    }
}

impl Question {
    /// The question as it is shown.
    pub fn alert(&self) -> (r: Alert)
        ensures
            r.response@ == response_of(*self),
            r.destructive == (*self != Question::Metered),
            match *self {
                Question::Metered => {
                    &&& r.heading@ == "Metered Connection Detected"@
                    &&& r.body@
                        == "You're on a limited or cellular connection. Automatic updates are paused, but you can continue manually."@
                    &&& r.cancel_label@ == "_Cancel"@
                    &&& r.label@ == "_Update Anyway"@
                },
                Question::Restart => {
                    &&& r.heading@ == "Restart System?"@
                    &&& r.body@
                        == "The system will restart to apply updates. Save any open work before continuing."@
                    &&& r.cancel_label@ == "_Cancel"@
                    &&& r.label@ == "_Restart"@
                },
                Question::Close => {
                    &&& r.heading@ == "Update in Progress"@
                    &&& r.body@
                        == "An update is currently running. Closing now may leave your system in an inconsistent state."@
                    &&& r.cancel_label@ == "_Keep Waiting"@
                    &&& r.label@ == "_Close Anyway"@
                },
            },
    {
        match self {
            Question::Metered => Alert {
                heading: "Metered Connection Detected",
                body: "You're on a limited or cellular connection. Automatic updates are paused, but you can continue manually.",
                cancel_label: "_Cancel",
                response: "proceed",
                label: "_Update Anyway",
                destructive: false,
            },
            Question::Restart => Alert {
                heading: "Restart System?",
                body: "The system will restart to apply updates. Save any open work before continuing.",
                cancel_label: "_Cancel",
                response: "restart",
                label: "_Restart",
                destructive: true,
            },
            Question::Close => Alert {
                heading: "Update in Progress",
                body: "An update is currently running. Closing now may leave your system in an inconsistent state.",
                cancel_label: "_Keep Waiting",
                response: "close",
                label: "_Close Anyway",
                destructive: true,
            },
        }
    }

    /// What an answer leads to.
    pub fn answer(&self, response: &str) -> (r: Option<AppEffect>)
        ensures
            r.deep_view() == answered(*self, response@),
    {
        match self {
            Question::Metered => if text::same(response, "proceed") {
                Some(AppEffect::Send(AppMsg::StartUpdate { skip_metered_check: true }))
            } else {
                None
            },
            Question::Restart => if text::same(response, "restart") {
                Some(AppEffect::Send(AppMsg::ConfirmReboot))
            } else {
                None
            },
            Question::Close => if text::same(response, "close") {
                Some(AppEffect::Quit)
            } else {
                None
            },
        }
    }
}

/// Whether a message is on an update.
pub open spec fn is_of_run(msg: MsgView) -> bool {
    match msg {
        MsgView::StartUpdate { .. }
        | MsgView::OpenCheckDialog
        | MsgView::CheckComplete(..)
        | MsgView::InstallFromCheck
        | MsgView::OutputLine(..)
        | MsgView::ModuleStarted(..)
        | MsgView::ModuleFinished(..)
        | MsgView::UpdateComplete
        | MsgView::UpdateUpToDate
        | MsgView::UpdateFailed(..)
        | MsgView::CancelUpdate => true,
        _ => false,
    }
}

/// Whether a message is passed on to the view as it is.
pub open spec fn is_for_status(msg: MsgView) -> bool {
    match msg {
        MsgView::GoBack
        | MsgView::ShowWhatsNew
        | MsgView::DismissBanner
        | MsgView::TriggerPowerwash
        | MsgView::TriggerFactoryReset
        | MsgView::ShowStatusPage(..) => true,
        _ => false,
    }
}

fn of_run(msg: &AppMsg) -> (r: bool)
    ensures
        r == is_of_run(msg.deep_view()),
{
    match msg {
        AppMsg::StartUpdate { .. }
        | AppMsg::OpenCheckDialog
        | AppMsg::CheckComplete(..)
        | AppMsg::InstallFromCheck
        | AppMsg::OutputLine(..)
        | AppMsg::ModuleStarted(..)
        | AppMsg::ModuleFinished(..)
        | AppMsg::UpdateComplete
        | AppMsg::UpdateUpToDate
        | AppMsg::UpdateFailed(..)
        | AppMsg::CancelUpdate => true,
        _ => false,
    }
}

fn for_status(msg: &AppMsg) -> (r: bool)
    ensures
        r == is_for_status(msg.deep_view()),
{
    match msg {
        AppMsg::GoBack
        | AppMsg::ShowWhatsNew
        | AppMsg::DismissBanner
        | AppMsg::TriggerPowerwash
        | AppMsg::TriggerFactoryReset
        | AppMsg::ShowStatusPage(..) => true,
        _ => false,
    }
}

impl App {
    /// The application as it starts.
    pub fn init(settings: Settings, flatpak: bool) -> (r: (App, Vec<AppEffect>))
        ensures
            (r.0.deep_view(), r.1.deep_view()) == first_step(settings.deep_view(), flatpak),
    {
        let header: AppEffect = AppEffect::SetHeader {
            title: "Finupdate".to_string(),
            subtitle: "".to_string(),
            back: false,
        };
        let mut effects: Vec<AppEffect> = two(
            header,
            AppEffect::RevealDevBanner(settings.dev_mode),
        );
        if settings.mock_identity.is_some() {
            add_effect(
                &mut effects,
                AppEffect::Send(AppMsg::PreflightResult(PreflightStatus::UpdateAvailable)),
            );
        } else {
            let argv: [&str; 3] = ["bootc", "upgrade", "--check"];
            assert(argv.deep_view() =~= seq!["bootc"@, "upgrade"@, "--check"@]);
            add_effect(
                &mut effects,
                AppEffect::Preflight(resolve_argv(&argv, Privilege::Pkexec, flatpak)),
            );
        }
        let ghost want = first_step(settings.deep_view(), flatpak);
        assert(effects.deep_view() =~= want.1);
        let app: App = App {
            state: AppState::Idle,
            preflight_status: PreflightStatus::Checking,
            sim_scenario: read_scenario(&settings),
            log_lines: Vec::new(),
            cancellable: false,
            current_page: "main".to_string(),
            settings,
            progress: ProgressDBus::new(),
        };
        assert(app.log_lines.deep_view() =~= Seq::<Seq<char>>::empty());
        (app, effects)
    }

    fn withheld(&self) -> (r: bool)
        ensures
            r == is_withheld(self.deep_view().settings),
    {
        self.settings.dev_mode || self.settings.dry_run
    }

    fn flags(&self) -> (r: Flags)
        ensures
            r == flags_of(self.deep_view().settings),
    {
        Flags { dev_mode: self.settings.dev_mode, dry_run: self.settings.dry_run }
    }

    fn scenario(&self) -> (r: Option<SimulationScenario>)
        ensures
            r == scenario_of(self.deep_view()),
    {
        if self.withheld() {
            Some(self.sim_scenario)
        } else {
            None
        }
    }

    /// The title of the window in the present state.
    pub fn update_subtitle(&self) -> (r: AppEffect)
        ensures
            r.deep_view() == AppEffectView::SetWindowTitle(state_title(self.deep_view().state)),
    {
        let title: &str = match &self.state {
            AppState::Idle => "System Update",
            AppState::Updating => "System Update — Updating…",
            AppState::Complete => "System Update — Update complete",
            AppState::UpToDate => "System Update — Already up to date",
            AppState::Error(_) => "System Update — Update failed",
        };
        AppEffect::SetWindowTitle(title.to_string())
    }

    fn start(&mut self, skip_metered_check: bool, metered: bool) -> (e: Vec<AppEffect>)
        ensures
            (final(self).deep_view(), e.deep_view()) == started(
                old(self).deep_view(),
                skip_metered_check,
                metered,
            ),
    {
        if let AppState::Updating = &self.state {
            return no_effects();
        }
        if !skip_metered_check && self.settings.pause_on_metered && metered {
            return one(AppEffect::Ask(Question::Metered));
        }
        let ghost m = self.deep_view();
        self.state = AppState::Updating;
        self.log_lines = Vec::new();
        assert(self.log_lines.deep_view() =~= Seq::<Seq<char>>::empty());
        self.progress.update("updating", 0, "Starting update…");
        let mut e: Vec<AppEffect> = two(AppEffect::PublishProgress, self.update_subtitle());
        add_effect(&mut e, AppEffect::ToStatus(StatusViewInput::StateChanged(AppState::Updating)));
        add_effect(&mut e, AppEffect::ToStatus(StatusViewInput::ClearLog));
        self.cancellable = true;
        add_effect(&mut e, AppEffect::StartWorker(self.scenario()));
        assert(e.deep_view() =~= started(m, skip_metered_check, metered).1);
        e
    }

    fn check_done(&mut self, result: CheckResult) -> (e: Vec<AppEffect>)
        ensures
            (final(self).deep_view(), e.deep_view()) == checked(old(self).deep_view(), result),
    {
        if result.sources_with_updates > 0 {
            self.preflight_status = PreflightStatus::UpdateAvailable;
            self.progress.update("idle", 0, "Updates available");
        } else {
            self.preflight_status = PreflightStatus::UpToDate;
            self.progress.reset();
        }
        two(
            AppEffect::PublishProgress,
            AppEffect::ToStatus(StatusViewInput::PreflightResult(self.preflight_status)),
        )
    }

    fn output_line(&mut self, line: String) -> (e: Vec<AppEffect>)
        ensures
            final(self).deep_view() == (AppModel {
                log: old(self).deep_view().log.push(line@),
                ..old(self).deep_view()
            }),
            e.deep_view() == seq![AppEffectView::ToStatus(InputView::AppendLog(line@))],
    {
        let ghost before = self.log_lines.deep_view();
        self.log_lines.push(line.clone());
        assert(self.log_lines.deep_view() =~= before.push(line@));
        to_status(StatusViewInput::AppendLog(line))
    }

    fn module_started(&mut self, module: Module) -> (e: Vec<AppEffect>)
        ensures
            (final(self).deep_view(), e.deep_view()) == module_begun(old(self).deep_view(), module),
    {
        let ghost m = self.deep_view();
        let percent: i32 = match module {
            Module::System => 0,
            Module::Flatpak => 25,
            Module::Brew => 50,
            Module::Distrobox => 75,
        };
        self.progress.set_progress(percent);
        let message: String = text::cat3("Updating ", module.key(), "…");
        self.progress.set_message(message.as_str());
        let mut e: Vec<AppEffect> = two(AppEffect::PublishProgress, AppEffect::PublishProgress);
        add_effect(&mut e, AppEffect::ToStatus(StatusViewInput::ModuleStarted(module)));
        assert(e.deep_view() =~= module_begun(m, module).1);
        e
    }

    fn update_complete(&mut self) -> (e: Vec<AppEffect>)
        ensures
            (final(self).deep_view(), e.deep_view()) == completed_step(old(self).deep_view()),
    {
        let ghost m = self.deep_view();
        self.state = AppState::Complete;
        self.cancellable = false;
        self.progress.update("complete", 100, "Update complete");
        let mut e: Vec<AppEffect> = two(AppEffect::PublishProgress, self.update_subtitle());
        add_effect(&mut e, AppEffect::ToStatus(StatusViewInput::StateChanged(AppState::Complete)));
        let words: String = "System update complete — restart to apply".to_string();
        add_effect(&mut e, AppEffect::Say(Toast { text: words, timeout: 0 }, true));
        add_effect(
            &mut e,
            AppEffect::Notify {
                id: "update-complete".to_string(),
                title: "System Update Complete".to_string(),
                body: "Your system has been updated. Restart to apply changes.".to_string(),
            },
        );
        assert(e.deep_view() =~= completed_step(m).1);
        e
    }

    fn update_up_to_date(&mut self) -> (e: Vec<AppEffect>)
        ensures
            (final(self).deep_view(), e.deep_view()) == current_step(old(self).deep_view()),
    {
        let ghost m = self.deep_view();
        self.state = AppState::UpToDate;
        self.cancellable = false;
        self.progress.update("complete", 100, "Up to date");
        let mut e: Vec<AppEffect> = two(AppEffect::PublishProgress, self.update_subtitle());
        add_effect(&mut e, AppEffect::ToStatus(StatusViewInput::StateChanged(AppState::UpToDate)));
        assert(e.deep_view() =~= current_step(m).1);
        e
    }

    fn update_failed(&mut self, err: String) -> (e: Vec<AppEffect>)
        ensures
            (final(self).deep_view(), e.deep_view()) == failed_step(old(self).deep_view(), err@),
    {
        let ghost m = self.deep_view();
        self.state = AppState::Error(err.clone());
        self.cancellable = false;
        self.progress.update("error", 0, err.as_str());
        let mut e: Vec<AppEffect> = two(AppEffect::PublishProgress, self.update_subtitle());
        add_effect(
            &mut e,
            AppEffect::Notify {
                id: "update-failed".to_string(),
                title: "System Update Failed".to_string(),
                body: err.clone(),
            },
        );
        let ghost words = err@;
        add_effect(&mut e, AppEffect::ToStatus(StatusViewInput::StateChanged(AppState::Error(err))));
        assert(e.deep_view() =~= failed_step(m, words).1);
        e
    }

    fn cancel(&mut self) -> (e: Vec<AppEffect>)
        ensures
            (final(self).deep_view(), e.deep_view()) == cancel_step(old(self).deep_view()),
    {
        if self.cancellable {
            self.cancellable = false;
            one(AppEffect::CancelWorker)
        } else {
            no_effects()
        }
    }

    fn page_changed(&mut self, page: String) -> (e: Vec<AppEffect>)
        ensures
            (final(self).deep_view(), e.deep_view()) == page_step(old(self).deep_view(), page@),
    {
        let first: bool = text::same(page.as_str(), "main");
        let label: &str = if text::same(page.as_str(), "history") {
            "Version History"
        } else if text::same(page.as_str(), "source") {
            "Image Source"
        } else if text::same(page.as_str(), "changelog") {
            "What’s New"
        } else {
            "Finupdate"
        };
        self.current_page = page;
        let subtitle: &str = if first {
            ""
        } else {
            "Finupdate"
        };
        let title: String = if first {
            "Finupdate".to_string()
        } else {
            text::cat2("Finupdate — ", label)
        };
        two(
            AppEffect::SetHeader {
                title: label.to_string(),
                subtitle: subtitle.to_string(),
                back: !first,
            },
            AppEffect::SetWindowTitle(title),
        )
    }

    fn toggle_dev_mode(
        &mut self,
        enabled: bool,
        kept: &Settings,
        o: &Option<RuntimeOverrides>,
    ) -> (e: Vec<AppEffect>)
        ensures
            (final(self).deep_view(), e.deep_view()) == dev_mode_step(
                old(self).deep_view(),
                enabled,
                kept.deep_view(),
                o.deep_view(),
            ),
    {
        self.settings.dev_mode = enabled;
        let mut saved: Settings = self.settings.clone();
        saved.remove_overrides(kept, o.as_ref());
        saved.dev_mode = enabled;
        two(AppEffect::SaveSettings(saved), AppEffect::RevealDevBanner(enabled))
    }

    fn leave(&self, instead: AppEffect) -> (e: Vec<AppEffect>)
        ensures
            (self.deep_view(), e.deep_view()) == leaving(self.deep_view(), instead.deep_view()),
    {
        if let AppState::Updating = &self.state {
            one(instead)
        } else {
            one(AppEffect::Quit)
        }
    }

    /// Answers a message on an update.
    fn answer_run(&mut self, msg: AppMsg, r: &AppReadings) -> (e: Vec<AppEffect>)
        requires
            is_of_run(msg.deep_view()),
        ensures
            (final(self).deep_view(), e.deep_view()) == app_step(
                old(self).deep_view(),
                msg.deep_view(),
                *r,
            ),
    {
        match msg {
            AppMsg::StartUpdate { skip_metered_check } => self.start(skip_metered_check, r.metered),
            AppMsg::OpenCheckDialog => {
                self.progress.update("checking", 0, "Checking for updates…");
                two(AppEffect::PublishProgress, AppEffect::OpenCheckDialog(self.scenario()))
            },
            AppMsg::CheckComplete(result) => self.check_done(result),
            AppMsg::InstallFromCheck => one(
                AppEffect::Send(AppMsg::StartUpdate { skip_metered_check: true }),
            ),
            AppMsg::OutputLine(line) => self.output_line(line),
            AppMsg::ModuleStarted(module) => self.module_started(module),
            AppMsg::ModuleFinished(module, status) => to_status(
                StatusViewInput::ModuleFinished(module, status),
            ),
            AppMsg::UpdateComplete => self.update_complete(),
            AppMsg::UpdateUpToDate => self.update_up_to_date(),
            AppMsg::UpdateFailed(err) => self.update_failed(err),
            AppMsg::CancelUpdate => self.cancel(),
            _ => no_effects(),
        }
    }

    /// Answers a message of the window.
    fn answer_window(&mut self, msg: AppMsg, r: &AppReadings) -> (e: Vec<AppEffect>)
        requires
            !is_of_run(msg.deep_view()),
            !is_for_status(msg.deep_view()),
        ensures
            (final(self).deep_view(), e.deep_view()) == app_step(
                old(self).deep_view(),
                msg.deep_view(),
                *r,
            ),
    {
        match msg {
            AppMsg::RequestReboot => one(AppEffect::Ask(Question::Restart)),
            AppMsg::ConfirmReboot => one(AppEffect::Restart(self.flags())),
            AppMsg::ShowRebaseDialog => one(AppEffect::OpenRebase(self.flags())),
            AppMsg::ShowAbout => one(AppEffect::ShowAbout),
            AppMsg::ShowPreferences => one(AppEffect::ShowPreferences(self.settings.clone())),
            AppMsg::SettingsChanged(s) => {
                self.settings = s.clone();
                two(
                    AppEffect::RevealDevBanner(s.dev_mode),
                    AppEffect::ToStatus(StatusViewInput::SettingsChanged(s)),
                )
            },
            AppMsg::PreflightResult(p) => {
                self.preflight_status = p;
                to_status(StatusViewInput::PreflightResult(p))
            },
            AppMsg::ToggleDevMode(enabled) => self.toggle_dev_mode(enabled, &r.kept, &r.overrides),
            AppMsg::SetSimScenario(s) => {
                self.sim_scenario = s;
                no_effects()
            },
            AppMsg::Quit => self.leave(AppEffect::Send(AppMsg::CloseRequest)),
            AppMsg::CloseRequest => self.leave(AppEffect::Ask(Question::Close)),
            AppMsg::PageChanged(page) => self.page_changed(page),
            _ => no_effects(),
        }
    }

    /// Passes a message on to the view.
    fn pass_on(&mut self, msg: AppMsg, r: &AppReadings) -> (e: Vec<AppEffect>)
        requires
            is_for_status(msg.deep_view()),
        ensures
            (final(self).deep_view(), e.deep_view()) == app_step(
                old(self).deep_view(),
                msg.deep_view(),
                *r,
            ),
    {
        match msg {
            AppMsg::GoBack => to_status(StatusViewInput::ShowPage("main".to_string())),
            AppMsg::ShowWhatsNew => to_status(
                StatusViewInput::SelectChangelogVersion("".to_string()),
            ),
            AppMsg::DismissBanner => to_status(StatusViewInput::DismissBanner),
            AppMsg::TriggerPowerwash => to_status(
                StatusViewInput::TogglePin("powerwash".to_string()),
            ),
            AppMsg::TriggerFactoryReset => to_status(
                StatusViewInput::TogglePin("factory".to_string()),
            ),
            AppMsg::ShowStatusPage(page) => to_status(StatusViewInput::ShowPage(page)),
            _ => no_effects(),
        }
    }

    /// Answers a message.
    pub fn update(&mut self, msg: AppMsg, r: &AppReadings) -> (e: Vec<AppEffect>)
        ensures
            (final(self).deep_view(), e.deep_view()) == app_step(
                old(self).deep_view(),
                msg.deep_view(),
                *r,
            ),
    {
        if of_run(&msg) {
            self.answer_run(msg, r)
        } else if for_status(&msg) {
            self.pass_on(msg, r)
        } else {
            self.answer_window(msg, r)
        }
    }
}

/// The message that the check dialog's word to the window amounts to.
pub open spec fn check_msg(o: CheckOutcome) -> Option<MsgView> {
    match o {
        CheckOutcome::Closed => None,
        CheckOutcome::Finished(result) => Some(MsgView::CheckComplete(result)),
        CheckOutcome::Install => Some(MsgView::InstallFromCheck),
    }
}

/// The message that the check dialog's word to the window amounts to.
pub fn message_of_check(o: CheckOutcome) -> (r: Option<AppMsg>)
    ensures
        r.deep_view() == check_msg(o),
{
    match o {
        CheckOutcome::Closed => None,
        CheckOutcome::Finished(result) => Some(AppMsg::CheckComplete(result)),
        CheckOutcome::Install => Some(AppMsg::InstallFromCheck),
    }
}

// ── Actions and shortcuts ────────────────────────────────────────────────────

/// The message of an action of the window; none for one that only shows the
/// shortcuts, or that is unknown.
pub open spec fn action_msg(name: Seq<char>) -> Option<MsgView> {
    if name == "about"@ {
        Some(MsgView::ShowAbout)
    } else if name == "preferences"@ {
        Some(MsgView::ShowPreferences)
    } else if name == "quit"@ {
        Some(MsgView::Quit)
    } else if name == "rebase-history"@ {
        Some(MsgView::ShowRebaseDialog)
    } else if name == "install"@ {
        Some(MsgView::InstallFromCheck)
    } else if name == "whats-new"@ {
        Some(MsgView::ShowWhatsNew)
    } else if name == "restart"@ {
        Some(MsgView::RequestReboot)
    } else if name == "dismiss-banner"@ {
        Some(MsgView::DismissBanner)
    } else if name == "powerwash"@ {
        Some(MsgView::TriggerPowerwash)
    } else if name == "factory-reset"@ {
        Some(MsgView::TriggerFactoryReset)
    } else {
        None
    }
}

/// The message of an action of the window.
pub fn message_of_action(name: &str) -> (r: Option<AppMsg>)
    ensures
        r.deep_view() == action_msg(name@),
{
    if text::same(name, "about") {
        Some(AppMsg::ShowAbout)
    } else if text::same(name, "preferences") {
        Some(AppMsg::ShowPreferences)
    } else if text::same(name, "quit") {
        Some(AppMsg::Quit)
    } else if text::same(name, "rebase-history") {
        Some(AppMsg::ShowRebaseDialog)
    } else if text::same(name, "install") {
        Some(AppMsg::InstallFromCheck)
    } else if text::same(name, "whats-new") {
        Some(AppMsg::ShowWhatsNew)
    } else if text::same(name, "restart") {
        Some(AppMsg::RequestReboot)
    } else if text::same(name, "dismiss-banner") {
        Some(AppMsg::DismissBanner)
    } else if text::same(name, "powerwash") {
        Some(AppMsg::TriggerPowerwash)
    } else if text::same(name, "factory-reset") {
        Some(AppMsg::TriggerFactoryReset)
    } else {
        None
    }
}

/// Every shortcut: its group, its title, its action and its keys.
pub open spec fn shortcut_rows() -> Seq<(Seq<char>, Seq<char>, Seq<char>, Seq<char>)> {
    seq![
        ("Application"@, "Preferences"@, "preferences"@, "<Primary>comma"@),
        ("Application"@, "Keyboard Shortcuts"@, "show-shortcuts"@, "<Primary>question"@),
        ("Application"@, "Quit"@, "quit"@, "<Primary>q"@),
        ("Updates"@, "Install staged update"@, "install"@, "<Primary>i"@),
        ("Updates"@, "What's new in this update"@, "whats-new"@, "<Primary>w"@),
        ("Updates"@, "Restart to apply"@, "restart"@, "<Primary><Shift>b"@),
        ("Updates"@, "Dismiss update banner"@, "dismiss-banner"@, "<Primary>BackSpace"@),
        (
            "System"@,
            "Open Rebase / Version History"@,
            "rebase-history"@,
            "<Primary><Shift>r"@,
        ),
    ]
}

/// Every shortcut: its group, its title, its action and its keys.
pub fn shortcuts() -> (r: Vec<(&'static str, &'static str, &'static str, &'static str)>)
    ensures
        r.deep_view() == shortcut_rows(),
{
    let mut r: Vec<(&'static str, &'static str, &'static str, &'static str)> = Vec::new();
    r.push(("Application", "Preferences", "preferences", "<Primary>comma"));
    r.push(("Application", "Keyboard Shortcuts", "show-shortcuts", "<Primary>question"));
    r.push(("Application", "Quit", "quit", "<Primary>q"));
    r.push(("Updates", "Install staged update", "install", "<Primary>i"));
    r.push(("Updates", "What's new in this update", "whats-new", "<Primary>w"));
    r.push(("Updates", "Restart to apply", "restart", "<Primary><Shift>b"));
    r.push(("Updates", "Dismiss update banner", "dismiss-banner", "<Primary>BackSpace"));
    r.push(
        ("System", "Open Rebase / Version History", "rebase-history", "<Primary><Shift>r"),
    );
    assert(r.deep_view() =~= shortcut_rows());
    r
}

// ── What holds of the application ────────────────────────────────────────────

/// What every message keeps: an update can be told to stop only while it runs.
pub open spec fn app_ok(m: AppModel) -> bool {
    m.cancellable ==> m.state is Updating
}

/// Every message keeps that an update can be told to stop only while it runs,
/// and it holds at the start.
pub proof fn law_only_a_running_update_can_be_cancelled(
    m: AppModel,
    msg: MsgView,
    r: AppReadings,
    s: SettingsView,
    flatpak: bool,
)
    ensures
        app_ok(first_step(s, flatpak).0),
        app_ok(m) ==> app_ok(app_step(m, msg, r).0),
{
}

/// While an update runs, no message starts another one, and none closes the
/// program without a question.
pub proof fn law_one_update_at_a_time(m: AppModel, msg: MsgView, r: AppReadings, i: int)
    requires
        m.state is Updating,
        0 <= i < app_step(m, msg, r).1.len(),
    ensures
        !(app_step(m, msg, r).1[i] is StartWorker),
        !(app_step(m, msg, r).1[i] is Quit),
{
}

/// Whether no restart and no switch comes to a command under these settings.
#[verifier::opaque]
pub open spec fn comes_to_nothing(f: Flags) -> bool {
    &&& forall|journal: Journal, flatpak: bool|
        (#[trigger] restart_plan(journal, f, flatpak)).command is None
    &&& forall|journal: Journal, target: Seq<char>, flatpak: bool|
        (#[trigger] switch_plan(journal, target, f, flatpak)).command is None
}

proof fn lemma_comes_to_nothing(f: Flags)
    requires
        f.dev_mode || f.dry_run,
    ensures
        comes_to_nothing(f),
{
    reveal(comes_to_nothing);
}

/// While commands are withheld, no message runs a command of the host: updates
/// are simulated, and a restart or a switch goes on under settings with which it
/// comes to no command.
pub proof fn law_withheld_runs_nothing(m: AppModel, msg: MsgView, r: AppReadings, i: int)
    requires
        is_withheld(m.settings),
        0 <= i < app_step(m, msg, r).1.len(),
    ensures
        app_step(m, msg, r).1[i] matches AppEffectView::Restart(f) ==> comes_to_nothing(f),
        app_step(m, msg, r).1[i] matches AppEffectView::OpenRebase(f) ==> comes_to_nothing(f),
        app_step(m, msg, r).1[i] matches AppEffectView::StartWorker(s) ==> s == Some(m.scenario),
        app_step(m, msg, r).1[i] matches AppEffectView::OpenCheckDialog(s) ==> s == Some(
            m.scenario,
        ),
{
    lemma_comes_to_nothing(flags_of(m.settings));
}

/// The last event of an update ends it: the application no longer updates, and
/// the panel does not say so either.
pub proof fn law_last_event_ends_the_update(m: AppModel, e: EventView, r: AppReadings)
    requires
        is_final(e),
    ensures
        ({
            let after = app_step(m, event_msg(e), r).0;
            &&& !(after.state is Updating)
            &&& !after.cancellable
            &&& after.progress.state == "complete"@ || after.progress.state == "error"@
        }),
{
}

/// The state moves in one way only: an update starts where none runs, and a
/// message on its end gives the state it names.
pub proof fn law_state_moves_by_updates_alone(m: AppModel, msg: MsgView, r: AppReadings)
    ensures
        ({
            let after = app_step(m, msg, r).0.state;
            after != m.state ==> match after {
                StateView::Updating => msg is StartUpdate,
                StateView::Complete => msg is UpdateComplete,
                StateView::UpToDate => msg is UpdateUpToDate,
                StateView::Error(e) => msg == MsgView::UpdateFailed(e),
                StateView::Idle => false,
            }
        }),
{
}

/// The application after the events of an update, one after the other.
pub open spec fn after_events(m: AppModel, events: Seq<EventView>, r: AppReadings) -> AppModel
    decreases events.len(),
{
    if events.len() == 0 {
        m
    } else {
        app_step(after_events(m, events.drop_last(), r), event_msg(events.last()), r).0
    }
}

/// A simulated update always comes to its end: in the state of its scenario, or
/// in an error where it was cancelled before.
pub proof fn law_simulated_update_ends(
    m: AppModel,
    scenario: SimulationScenario,
    cancel_after: Option<int>,
    r: AppReadings,
)
    requires
        cancel_after matches Some(n) ==> n >= 0,
    ensures
        ({
            let end = after_events(m, sim_events(scenario, cancel_after), r);
            &&& !(end.state is Updating)
            &&& !end.cancellable
            &&& (cancel_after matches Some(n) && n < sim_script(scenario).len())
                ==> end.state is Error
            &&& cancel_after is None ==> match scenario {
                SimulationScenario::Success => end.state is Complete,
                SimulationScenario::AlreadyUpToDate => end.state is UpToDate,
                SimulationScenario::Failure => end.state is Error,
            }
        }),
{
    law_simulation_ends_once(scenario, cancel_after);
}

/// A cancelled update is cancelled once.
pub proof fn law_cancelled_once(m: AppModel, r: AppReadings)
    ensures
        ({
            let after = app_step(m, MsgView::CancelUpdate, r).0;
            app_step(after, MsgView::CancelUpdate, r) == (after, Seq::<AppEffectView>::empty())
        }),
{
}

/// Going back shows the first page: the view answers with the message that makes
/// it the present page.
pub proof fn law_back_leads_to_the_first_page(
    m: AppModel,
    view: StatusModel,
    r: AppReadings,
    readings: Readings,
)
    ensures
        ({
            let back = app_step(m, MsgView::GoBack, r);
            let shown = status_step(view, back.1[0]->ToStatus_0, readings);
            &&& back.1.len() == 1
            &&& back.1[0] is ToStatus
            &&& shown.1.contains(EffectView::Output(OutputView::PageChanged("main"@)))
            &&& app_step(back.0, output_msg(OutputView::PageChanged("main"@)), r).0.page == "main"@
        }),
{
    let back = app_step(m, MsgView::GoBack, r);
    let shown = status_step(view, back.1[0]->ToStatus_0, readings);
    let last = shown.1.len() - 1;
    assert(shown.1[last] == EffectView::Output(OutputView::PageChanged("main"@)));
}

/// Preferences stored by a switch of developer mode hold no other override of the
/// run.
pub proof fn law_switch_stores_no_overrides(
    kept: SettingsView,
    o: Option<OverridesView>,
    m: AppModel,
    enabled: bool,
)
    requires
        m.settings == overridden(kept, o),
    ensures
        dev_mode_step(m, enabled, kept, o).1[0] == AppEffectView::SaveSettings(
            SettingsView { dev_mode: enabled, ..kept },
        ),
{
}

/// The only response besides `cancel` is the one that leads somewhere.
pub proof fn law_cancel_does_nothing(q: Question)
    ensures
        answered(q, "cancel"@) is None,
        answered(q, response_of(q)) is Some,
{
    reveal_strlit("cancel");
    reveal_strlit("proceed");
    reveal_strlit("restart");
    reveal_strlit("close");
    assert("cancel"@.len() != "close"@.len());
    assert("cancel"@.len() != "proceed"@.len());
    assert("cancel"@.len() != "restart"@.len());
}

/// No shortcut leads to a destructive action.
pub proof fn law_no_destructive_shortcuts(i: int)
    requires
        0 <= i < shortcut_rows().len(),
    ensures
        shortcut_rows()[i].2 != "powerwash"@,
        shortcut_rows()[i].2 != "factory-reset"@,
{
    reveal_strlit("powerwash");
    reveal_strlit("factory-reset");
    reveal_strlit("preferences");
    reveal_strlit("show-shortcuts");
    reveal_strlit("quit");
    reveal_strlit("install");
    reveal_strlit("whats-new");
    reveal_strlit("restart");
    reveal_strlit("dismiss-banner");
    reveal_strlit("rebase-history");
    let keys = seq![
        "preferences"@,
        "show-shortcuts"@,
        "quit"@,
        "install"@,
        "whats-new"@,
        "restart"@,
        "dismiss-banner"@,
        "rebase-history"@,
    ];
    assert(shortcut_rows()[i].2 == keys[i]);
    assert(keys[i][1] != 'o' && keys[i][1] != 'a');
    assert("powerwash"@[1] == 'o' && "factory-reset"@[1] == 'a');
}

// ── What the messages are for ────────────────────────────────────────────────

/// An update that is asked for starts where none runs, unless the connection is metered,
/// the user wants to wait then, and was not asked yet: then, and only then, the user is
/// asked. It is a real one exactly where nothing is withheld, starts with an empty log,
/// and can be told to stop.
pub proof fn law_update_starts_when_asked(m: AppModel, skip: bool, r: AppReadings)
    requires
        !(m.state is Updating),
    ensures
        ({
            let (after, effects) = app_step(m, MsgView::StartUpdate { skip_metered_check: skip }, r);
            if r.metered && m.settings.pause_on_metered && !skip {
                after == m && effects == seq![AppEffectView::Ask(Question::Metered)]
            } else {
                &&& after.state is Updating
                &&& after.cancellable
                &&& after.log.len() == 0
                &&& after.settings == m.settings
                &&& effects.contains(
                    AppEffectView::ToStatus(InputView::StateChanged(StateView::Updating)),
                )
                &&& !m.settings.dev_mode && !m.settings.dry_run ==> effects.contains(
                    AppEffectView::StartWorker(None),
                )
                &&& m.settings.dev_mode || m.settings.dry_run ==> effects.contains(
                    AppEffectView::StartWorker(Some(m.scenario)),
                )
            }
        }),
{
    let effects = app_step(m, MsgView::StartUpdate { skip_metered_check: skip }, r).1;
    if effects.len() == 5 {
        assert(effects[2] == AppEffectView::ToStatus(InputView::StateChanged(StateView::Updating)));
        assert(effects[4] == AppEffectView::StartWorker(scenario_of(m)));
    }
}

/// How an update ended is told as it was: complete, up to date, or failed for the reason
/// that came with it. The view learns the same state, the panel the same end, and a
/// failure is notified with its reason.
pub proof fn law_end_is_told_as_it_was(m: AppModel, e: EventView, r: AppReadings)
    requires
        is_final(e),
    ensures
        ({
            let (after, effects) = app_step(m, event_msg(e), r);
            &&& e is Complete <==> after.state is Complete
            &&& e is UpToDate <==> after.state is UpToDate
            &&& e matches EventView::Error(err) ==> after.state == StateView::Error(err)
                && after.progress.state == "error"@ && after.progress.message == err
            &&& !(e is Error) ==> after.progress.state == "complete"@ && after.progress.percent
                == 100
            &&& effects.contains(AppEffectView::ToStatus(InputView::StateChanged(after.state)))
            &&& e matches EventView::Error(err) ==> exists|i: int|
                0 <= i < effects.len() && (#[trigger] effects[i] matches AppEffectView::Notify {
                    body,
                    ..
                } && body == err)
            &&& after.settings == m.settings
            &&& after.log == m.log
        }),
{
    let (after, effects) = app_step(m, event_msg(e), r);
    match e {
        EventView::Error(err) => {
            assert(effects[2] matches AppEffectView::Notify { body, .. } && body == err);
            assert(effects[3] == AppEffectView::ToStatus(InputView::StateChanged(after.state)));
        },
        _ => {
            assert(effects[2] == AppEffectView::ToStatus(InputView::StateChanged(after.state)));
        },
    }
}

/// A line of output is added to the log as it is, and the view gets it; what starts or
/// ends of a module the view gets as well. None of it ends the update.
pub proof fn law_events_reach_the_view(
    m: AppModel,
    line: Seq<char>,
    module: Module,
    status: ModuleStatus,
    r: AppReadings,
)
    ensures
        app_step(m, event_msg(EventView::Output(line)), r).0 == (AppModel {
            log: m.log.push(line),
            ..m
        }),
        app_step(m, event_msg(EventView::Output(line)), r).1.contains(
            AppEffectView::ToStatus(InputView::AppendLog(line)),
        ),
        app_step(m, event_msg(EventView::ModuleStarted(module)), r).1.contains(
            AppEffectView::ToStatus(InputView::ModuleStarted(module)),
        ),
        app_step(m, event_msg(EventView::ModuleStarted(module)), r).0.state == m.state,
        app_step(m, event_msg(EventView::ModuleFinished(module, status)), r).1.contains(
            AppEffectView::ToStatus(InputView::ModuleFinished(module, status)),
        ),
        app_step(m, event_msg(EventView::ModuleFinished(module, status)), r).0 == m,
{
    let a = app_step(m, event_msg(EventView::Output(line)), r).1;
    let b = app_step(m, event_msg(EventView::ModuleStarted(module)), r).1;
    let c = app_step(m, event_msg(EventView::ModuleFinished(module, status)), r).1;
    assert(a[0] == AppEffectView::ToStatus(InputView::AppendLog(line)));
    assert(b[2] == AppEffectView::ToStatus(InputView::ModuleStarted(module)));
    assert(c[0] == AppEffectView::ToStatus(InputView::ModuleFinished(module, status)));
}

/// The panel's share grows by a quarter with each module, in the order in which they run,
/// and names the module.
pub proof fn law_share_grows_by_module(m: AppModel, r: AppReadings)
    ensures
        app_step(m, MsgView::ModuleStarted(Module::System), r).0.progress.percent == 0,
        app_step(m, MsgView::ModuleStarted(Module::Flatpak), r).0.progress.percent == 25,
        app_step(m, MsgView::ModuleStarted(Module::Brew), r).0.progress.percent == 50,
        app_step(m, MsgView::ModuleStarted(Module::Distrobox), r).0.progress.percent == 75,
        forall|module: Module| #[trigger]
            app_step(m, MsgView::ModuleStarted(module), r).0.progress.message == "Updating "@
                + module_key(module) + "…"@,
{
}

/// A check that found something in any source says that there is an update, and one that
/// found nothing that there is none; so does the check before the first click, by the
/// code that it exits with, and it says nothing for any other code.
pub proof fn law_check_is_told(m: AppModel, result: CheckResult, code: Option<i32>, r: AppReadings)
    ensures
        ({
            let (after, effects) = app_step(m, MsgView::CheckComplete(result), r);
            &&& after.preflight == PreflightStatus::UpdateAvailable <==> result.sources_with_updates
                > 0
            &&& after.preflight == PreflightStatus::UpToDate <==> result.sources_with_updates == 0
            &&& effects.contains(
                AppEffectView::ToStatus(InputView::PreflightResult(after.preflight)),
            )
            &&& after.state == m.state
        }),
        preflight_of(code) == PreflightStatus::UpdateAvailable <==> code == Some(0i32),
        preflight_of(code) == PreflightStatus::UpToDate <==> code == Some(77i32),
        preflight_of(code) != PreflightStatus::Checking,
        app_step(m, MsgView::PreflightResult(preflight_of(code)), r).0.preflight == preflight_of(
            code,
        ),
{
    let (after, effects) = app_step(m, MsgView::CheckComplete(result), r);
    assert(effects[1] == AppEffectView::ToStatus(InputView::PreflightResult(after.preflight)));
}

/// The program quits at once exactly where no update runs; while one runs, the user is
/// asked, and the program quits only with the consent to it.
pub proof fn law_quitting(m: AppModel, r: AppReadings, response: Seq<char>)
    ensures
        app_step(m, MsgView::Quit, r).1.contains(AppEffectView::Quit) <==> !(m.state is Updating),
        app_step(m, MsgView::CloseRequest, r).1.contains(AppEffectView::Quit) <==> !(
        m.state is Updating),
        m.state is Updating ==> app_step(m, MsgView::CloseRequest, r).1 == seq![
            AppEffectView::Ask(Question::Close),
        ],
        answered(Question::Close, response) == Some(AppEffectView::Quit) <==> response == "close"@,
        answered(Question::Restart, response) == Some(
            AppEffectView::Send(MsgView::ConfirmReboot),
        ) <==> response == "restart"@,
        answered(Question::Metered, response) == Some(
            AppEffectView::Send(MsgView::StartUpdate { skip_metered_check: true }),
        ) <==> response == "proceed"@,
        app_step(m, MsgView::RequestReboot, r).1 == seq![AppEffectView::Ask(Question::Restart)],
{
    let a = app_step(m, MsgView::Quit, r).1;
    let b = app_step(m, MsgView::CloseRequest, r).1;
    if !(m.state is Updating) {
        assert(a[0] == AppEffectView::Quit);
        assert(b[0] == AppEffectView::Quit);
    }
}

/// Each part of the application is changed by the messages that are for it, and by no
/// other.
pub proof fn law_messages_change_their_own_part(m: AppModel, msg: MsgView, r: AppReadings)
    ensures
        ({
            let after = app_step(m, msg, r).0;
            &&& after.settings != m.settings ==> msg is SettingsChanged || msg is ToggleDevMode
            &&& after.page != m.page ==> msg is PageChanged
            &&& after.scenario != m.scenario ==> msg is SetSimScenario
            &&& after.preflight != m.preflight ==> msg is CheckComplete || msg is PreflightResult
            &&& after.log != m.log ==> msg is OutputLine || msg is StartUpdate
            &&& msg matches MsgView::SettingsChanged(s) ==> after.settings == s
            &&& msg matches MsgView::PageChanged(p) ==> after.page == p
            &&& msg matches MsgView::SetSimScenario(s) ==> after.scenario == s
            &&& msg matches MsgView::ToggleDevMode(on) ==> after.settings == (SettingsView {
                dev_mode: on,
                ..m.settings
            })
        }),
{
}

/// A change of the preferences reaches the view, and the banner of developer mode is
/// shown exactly where that mode is on.
pub proof fn law_banner_follows_developer_mode(m: AppModel, s: SettingsView, on: bool, r: AppReadings)
    ensures
        app_step(m, MsgView::SettingsChanged(s), r).1.contains(
            AppEffectView::RevealDevBanner(s.dev_mode),
        ),
        app_step(m, MsgView::SettingsChanged(s), r).1.contains(
            AppEffectView::ToStatus(InputView::SettingsChanged(s)),
        ),
        app_step(m, MsgView::ToggleDevMode(on), r).1.contains(AppEffectView::RevealDevBanner(on)),
{
    let a = app_step(m, MsgView::SettingsChanged(s), r).1;
    let b = app_step(m, MsgView::ToggleDevMode(on), r).1;
    assert(a[0] == AppEffectView::RevealDevBanner(s.dev_mode));
    assert(a[1] == AppEffectView::ToStatus(InputView::SettingsChanged(s)));
    assert(b[1] == AppEffectView::RevealDevBanner(on));
}

/// A stored scenario counts in developer mode alone; every name that is not one of a
/// failure or of an image that is current means a success.
pub proof fn law_scenario_is_for_developers(s: SettingsView)
    ensures
        !s.dev_mode || s.sim_scenario is None ==> first_scenario(s) == SimulationScenario::Success,
        s.dev_mode && s.sim_scenario == Some("failure"@) ==> first_scenario(s)
            == SimulationScenario::Failure,
        s.dev_mode && s.sim_scenario == Some("up-to-date"@) ==> first_scenario(s)
            == SimulationScenario::AlreadyUpToDate,
        s.dev_mode && s.sim_scenario == Some("success"@) ==> first_scenario(s)
            == SimulationScenario::Success,
{
    reveal_strlit("failure");
    reveal_strlit("Failure");
    reveal_strlit("up-to-date");
    reveal_strlit("uptodate");
    reveal_strlit("AlreadyUpToDate");
    reveal_strlit("success");
    assert("up-to-date"@.len() == 10 && "failure"@.len() == 7 && "Failure"@.len() == 7);
    assert("success"@[0] != "failure"@[0] && "success"@[0] != "Failure"@[0]);
    assert("success"@.len() == 7 && "uptodate"@.len() == 8 && "AlreadyUpToDate"@.len() == 15);
}

/// The program starts idle, on its first page and with the settings it was given. It
/// looks for an update itself, except where another image is pretended: that has one.
pub proof fn law_program_starts_idle(s: SettingsView, flatpak: bool)
    ensures
        ({
            let (m, effects) = first_step(s, flatpak);
            &&& m.state is Idle
            &&& m.preflight == PreflightStatus::Checking
            &&& m.page == "main"@
            &&& m.settings == s
            &&& m.log.len() == 0
            &&& effects.last() is Preflight <==> s.mock_identity is None
            &&& s.mock_identity is Some ==> effects.last() == AppEffectView::Send(
                MsgView::PreflightResult(PreflightStatus::UpdateAvailable),
            )
            &&& forall|i: int|
                0 <= i < effects.len() ==> !(#[trigger] effects[i] is StartWorker)
        }),
{
}

/// A run of the runner leaves the application where its end says: complete exactly where
/// the process exited with 0, up to date exactly where it exited with 77, and failed in
/// every other case.
pub proof fn law_run_ends_in_its_state(
    m: AppModel,
    lines: Seq<Seq<char>>,
    end: crate::orchestrator::EndView,
    r: AppReadings,
)
    ensures
        ({
            let after = after_events(m, crate::orchestrator::run_events(lines, end), r);
            &&& after.state is Complete <==> end == crate::orchestrator::EndView::Exited(
                Some(0i32),
            )
            &&& after.state is UpToDate <==> end == crate::orchestrator::EndView::Exited(
                Some(77i32),
            )
            &&& after.state is Complete || after.state is UpToDate || after.state is Error
            &&& !after.cancellable
        }),
{
    let events = crate::orchestrator::run_events(lines, end);
    crate::orchestrator::law_end_tells_what_happened(end);
    assert(events.last() == crate::orchestrator::end_event(end));
    let before = after_events(m, events.drop_last(), r);
    law_end_is_told_as_it_was(before, events.last(), r);
    law_last_event_ends_the_update(before, events.last(), r);
}

/// Every shortcut leads to an action of the window that has a message, except the one that
/// shows the shortcuts. An action that restarts or erases something leads to a question
/// first, and what the check dialog says leads where it says.
pub proof fn law_shortcuts_lead_somewhere(i: int, result: CheckResult)
    requires
        0 <= i < shortcut_rows().len(),
    ensures
        action_msg(shortcut_rows()[i].2) is Some <==> shortcut_rows()[i].2 != "show-shortcuts"@,
        action_msg("restart"@) == Some(MsgView::RequestReboot),
        action_msg("powerwash"@) == Some(MsgView::TriggerPowerwash),
        action_msg("factory-reset"@) == Some(MsgView::TriggerFactoryReset),
        action_msg("quit"@) == Some(MsgView::Quit),
        check_msg(CheckOutcome::Install) == Some(MsgView::InstallFromCheck),
        check_msg(CheckOutcome::Finished(result)) == Some(MsgView::CheckComplete(result)),
        check_msg(CheckOutcome::Closed) is None,
{
    reveal_strlit("about");
    reveal_strlit("preferences");
    reveal_strlit("show-shortcuts");
    reveal_strlit("quit");
    reveal_strlit("rebase-history");
    reveal_strlit("install");
    reveal_strlit("whats-new");
    reveal_strlit("restart");
    reveal_strlit("dismiss-banner");
    reveal_strlit("powerwash");
    reveal_strlit("factory-reset");
    let keys = seq![
        "preferences"@,
        "show-shortcuts"@,
        "quit"@,
        "install"@,
        "whats-new"@,
        "restart"@,
        "dismiss-banner"@,
        "rebase-history"@,
    ];
    assert(shortcut_rows()[i].2 == keys[i]);
    assert("about"@[0] == 'a' && "preferences"@[0] == 'p' && "preferences"@[1] == 'r');
    assert("show-shortcuts"@[0] == 's' && "quit"@[0] == 'q' && "rebase-history"@[2] == 'b');
    assert("rebase-history"@[0] == 'r' && "restart"@[0] == 'r' && "restart"@[2] == 's');
    assert("install"@[0] == 'i' && "whats-new"@[0] == 'w' && "dismiss-banner"@[0] == 'd');
    assert("powerwash"@[0] == 'p' && "powerwash"@[1] == 'o' && "factory-reset"@[0] == 'f');
}

/// What the user confirms or asks for is handed on with the settings as they are: a restart,
/// a switch, and an update out of the check dialog, which asks about the connection no
/// more. An update that runs is told to stop, once.
pub proof fn law_wishes_are_handed_on(m: AppModel, r: AppReadings)
    ensures
        ({
            let flags = Flags { dev_mode: m.settings.dev_mode, dry_run: m.settings.dry_run };
            &&& app_step(m, MsgView::ConfirmReboot, r) == (
                m,
                seq![AppEffectView::Restart(flags)],
            )
            &&& app_step(m, MsgView::ShowRebaseDialog, r) == (
                m,
                seq![AppEffectView::OpenRebase(flags)],
            )
            &&& app_step(m, MsgView::InstallFromCheck, r) == (
                m,
                seq![
                    AppEffectView::Send(MsgView::StartUpdate { skip_metered_check: true }),
                ],
            )
            &&& app_step(m, MsgView::CancelUpdate, r).1.contains(AppEffectView::CancelWorker)
                <==> m.cancellable
            &&& app_step(m, MsgView::CancelUpdate, r).0 == (AppModel { cancellable: false, ..m })
        }),
        output_msg(OutputView::StartUpdate) == (MsgView::StartUpdate {
            skip_metered_check: false,
        }),
        output_msg(OutputView::Reboot) is RequestReboot,
        output_msg(OutputView::CancelUpdate) is CancelUpdate,
{
    let cancel = app_step(m, MsgView::CancelUpdate, r);
    if m.cancellable {
        assert(cancel.1[0] == AppEffectView::CancelWorker);
    } else {
        assert(cancel.0 =~= (AppModel { cancellable: false, ..m }));
    }
}

} // verus!
