//! The main view: what it holds, and how it answers its messages.
use crate::app::{AppState, PreflightStatus, StateView};
use crate::calendar::{clock_text, short_text};
use crate::orchestrator::{module_key, Module, ModuleStatus};
use crate::registry_client::{
    by_date, in_front, placed, sort_by_date, AvailableTag, ImageVersion, TagView, VersionView,
};
use crate::sbom_diff::{SbomDiffResult, SbomView};
use crate::settings::{Settings, SettingsView};
use crate::text;
use crate::ui::deployments::{DeploymentView, MockDeployment};
use crate::ui::host_actions::{toast, Toast, ToastView};
use crate::ui::segmented_progress::{
    bar_active, bar_all_complete, bar_complete, bar_failed, empty_bar, same_segment, segment_of,
    SegmentedProgress,
};
use crate::ui::update_list::{ListInputView, UpdateListInput};
use vstd::prelude::*;

verus! {

/// Seconds that a message stays where nothing else is said.
pub const TOAST_TIMEOUT: u32 = 5;

/// Most rows of the history that builds of the registry may fill.
pub const HISTORY_MAX: usize = 8;

/// Messages to the view.
#[derive(Debug)]
pub enum StatusViewInput {
    /// The state of the application changed.
    StateChanged(AppState),
    /// A line for the log.
    AppendLog(String),
    /// The log starts anew.
    ClearLog,
    /// Time passed.
    TimerTick,
    /// What the check at startup found.
    PreflightResult(PreflightStatus),
    /// The banner of a staged image is dismissed.
    DismissBanner,
    /// The button beside the image's name.
    HeroActionClicked,
    /// Preferences changed.
    SettingsChanged(Settings),
    /// Restart at night.
    ScheduleRebootTonight,
    /// Copy the log.
    CopyLog,
    /// Show a page.
    ShowPage(String),
    /// A new address of the image.
    SaveRegistryUri(String),
    /// A tag was selected.
    SelectTag(String),
    /// A row of the history is expanded (`expand:` and its id), a reset is asked
    /// for (`powerwash`, `factory`), or the row with this id is pinned.
    TogglePin(String),
    /// Roll back to a deployment.
    RollbackTo(MockDeployment),
    /// The roll back is confirmed.
    ConfirmRollback,
    /// A deployment becomes the default.
    SetDefaultBoot(MockDeployment),
    /// Show the changelog of a version; of the current one where it is empty.
    SelectChangelogVersion(String),
    /// Builds of the registry arrived.
    RegistryVersionsLoaded(Vec<ImageVersion>),
    /// Tags of the registry arrived.
    AvailableTagsLoaded(Vec<AvailableTag>),
    /// Commits arrived: hash, message and author of each.
    GithubCommitsLoaded(Vec<(String, String, String)>),
    /// The package difference arrived.
    SbomDiffLoaded(SbomDiffResult),
    /// A module started.
    ModuleStarted(Module),
    /// A module finished.
    ModuleFinished(Module, ModuleStatus),
}

/// What a message to the view is.
#[verifier::ext_equal]
pub enum InputView {
    StateChanged(StateView),
    AppendLog(Seq<char>),
    ClearLog,
    TimerTick,
    PreflightResult(PreflightStatus),
    DismissBanner,
    HeroActionClicked,
    SettingsChanged(SettingsView),
    ScheduleRebootTonight,
    CopyLog,
    ShowPage(Seq<char>),
    SaveRegistryUri(Seq<char>),
    SelectTag(Seq<char>),
    TogglePin(Seq<char>),
    RollbackTo(DeploymentView),
    ConfirmRollback,
    SetDefaultBoot(DeploymentView),
    SelectChangelogVersion(Seq<char>),
    RegistryVersionsLoaded(Seq<VersionView>),
    AvailableTagsLoaded(Seq<TagView>),
    GithubCommitsLoaded(Seq<(Seq<char>, Seq<char>, Seq<char>)>),
    SbomDiffLoaded(SbomView),
    ModuleStarted(Module),
    ModuleFinished(Module, ModuleStatus),
}

impl DeepView for StatusViewInput {
    type V = InputView;

    open spec fn deep_view(&self) -> InputView {
        match self {
            StatusViewInput::StateChanged(s) => InputView::StateChanged(s.deep_view()),
            StatusViewInput::AppendLog(s) => InputView::AppendLog(s@),
            StatusViewInput::ClearLog => InputView::ClearLog,
            StatusViewInput::TimerTick => InputView::TimerTick,
            StatusViewInput::PreflightResult(s) => InputView::PreflightResult(*s),
            StatusViewInput::DismissBanner => InputView::DismissBanner,
            StatusViewInput::HeroActionClicked => InputView::HeroActionClicked,
            StatusViewInput::SettingsChanged(s) => InputView::SettingsChanged(s.deep_view()),
            StatusViewInput::ScheduleRebootTonight => InputView::ScheduleRebootTonight,
            StatusViewInput::CopyLog => InputView::CopyLog,
            StatusViewInput::ShowPage(s) => InputView::ShowPage(s@),
            StatusViewInput::SaveRegistryUri(s) => InputView::SaveRegistryUri(s@),
            StatusViewInput::SelectTag(s) => InputView::SelectTag(s@),
            StatusViewInput::TogglePin(s) => InputView::TogglePin(s@),
            StatusViewInput::RollbackTo(d) => InputView::RollbackTo(d.deep_view()),
            StatusViewInput::ConfirmRollback => InputView::ConfirmRollback,
            StatusViewInput::SetDefaultBoot(d) => InputView::SetDefaultBoot(d.deep_view()),
            StatusViewInput::SelectChangelogVersion(s) => InputView::SelectChangelogVersion(s@),
            StatusViewInput::RegistryVersionsLoaded(v) => InputView::RegistryVersionsLoaded(
                v.deep_view(),
            ),
            StatusViewInput::AvailableTagsLoaded(v) => InputView::AvailableTagsLoaded(
                v.deep_view(),
            ),
            StatusViewInput::GithubCommitsLoaded(v) => InputView::GithubCommitsLoaded(
                v.deep_view(),
            ),
            StatusViewInput::SbomDiffLoaded(d) => InputView::SbomDiffLoaded(d.deep_view()),
            StatusViewInput::ModuleStarted(m) => InputView::ModuleStarted(*m),
            StatusViewInput::ModuleFinished(m, s) => InputView::ModuleFinished(*m, *s),
        }
    }
}

/// Messages from the view.
#[derive(Debug, PartialEq)]
pub enum StatusViewOutput {
    StartUpdate,
    CancelUpdate,
    Reboot,
    ShowRebase,
    OpenCheckDialog,
    PageChanged(String),
    OpenAdvanced,
}

/// What a message from the view is.
#[verifier::ext_equal]
pub enum OutputView {
    StartUpdate,
    CancelUpdate,
    Reboot,
    ShowRebase,
    OpenCheckDialog,
    PageChanged(Seq<char>),
    OpenAdvanced,
}

impl DeepView for StatusViewOutput {
    type V = OutputView;

    open spec fn deep_view(&self) -> OutputView {
        match self {
            StatusViewOutput::StartUpdate => OutputView::StartUpdate,
            StatusViewOutput::CancelUpdate => OutputView::CancelUpdate,
            StatusViewOutput::Reboot => OutputView::Reboot,
            StatusViewOutput::ShowRebase => OutputView::ShowRebase,
            StatusViewOutput::OpenCheckDialog => OutputView::OpenCheckDialog,
            StatusViewOutput::PageChanged(p) => OutputView::PageChanged(p@),
            StatusViewOutput::OpenAdvanced => OutputView::OpenAdvanced,
        }
    }
}

/// What the widgets have to do after a message, in order.
#[derive(Debug, PartialEq)]
pub enum StatusEffect {
    /// Show this page of the stack.
    ShowStack(String),
    /// Show this elapsed time.
    SetElapsed(String),
    /// Pass this on to the list of modules.
    UpdateList(UpdateListInput),
    /// Append this line to the log.
    LogAppend(String),
    /// Clear the log.
    LogClear,
    /// Show the first page anew.
    RefreshIdle,
    /// Show the history anew.
    RebuildHistory,
    /// Show the changelog anew.
    RebuildChangelog,
    /// Show this message on the error page.
    SetErrorDescription(String),
    /// Say this.
    Say(Toast),
    /// Pass this on to the application.
    Output(StatusViewOutput),
    /// Set the switch of automatic updates.
    SetAutoSwitch(bool),
    /// Schedule a restart at night.
    ScheduleReboot,
    /// Put this on the clipboard.
    CopyText(String),
    /// Show this address of the image.
    SetRegistryText(String),
    /// Show this image and tag.
    SetRegistrySub(String),
    /// Show this on the selected tag.
    SetTagSubtitle(String),
    /// Fetch what belongs to an address and a tag.
    FetchChangelog(String, String),
    /// Ask whether to powerwash.
    AskPowerwash,
    /// Ask whether to reset to factory state.
    AskFactoryReset,
    /// Ask whether to roll back: heading and body.
    AskRollback(String, String),
    /// Show these tags, select one, and let the user choose or not.
    SetTags(Vec<String>, usize, bool),
}

/// What that is.
#[verifier::ext_equal]
pub enum EffectView {
    ShowStack(Seq<char>),
    SetElapsed(Seq<char>),
    UpdateList(ListInputView),
    LogAppend(Seq<char>),
    LogClear,
    RefreshIdle,
    RebuildHistory,
    RebuildChangelog,
    SetErrorDescription(Seq<char>),
    Say(ToastView),
    Output(OutputView),
    SetAutoSwitch(bool),
    ScheduleReboot,
    CopyText(Seq<char>),
    SetRegistryText(Seq<char>),
    SetRegistrySub(Seq<char>),
    SetTagSubtitle(Seq<char>),
    FetchChangelog(Seq<char>, Seq<char>),
    AskPowerwash,
    AskFactoryReset,
    AskRollback(Seq<char>, Seq<char>),
    SetTags(Seq<Seq<char>>, int, bool),
}

impl DeepView for StatusEffect {
    type V = EffectView;

    open spec fn deep_view(&self) -> EffectView {
        match self {
            StatusEffect::ShowStack(s) => EffectView::ShowStack(s@),
            StatusEffect::SetElapsed(s) => EffectView::SetElapsed(s@),
            StatusEffect::UpdateList(m) => EffectView::UpdateList(m.deep_view()),
            StatusEffect::LogAppend(s) => EffectView::LogAppend(s@),
            StatusEffect::LogClear => EffectView::LogClear,
            StatusEffect::RefreshIdle => EffectView::RefreshIdle,
            StatusEffect::RebuildHistory => EffectView::RebuildHistory,
            StatusEffect::RebuildChangelog => EffectView::RebuildChangelog,
            StatusEffect::SetErrorDescription(s) => EffectView::SetErrorDescription(s@),
            StatusEffect::Say(t) => EffectView::Say(t.deep_view()),
            StatusEffect::Output(o) => EffectView::Output(o.deep_view()),
            StatusEffect::SetAutoSwitch(b) => EffectView::SetAutoSwitch(*b),
            StatusEffect::ScheduleReboot => EffectView::ScheduleReboot,
            StatusEffect::CopyText(s) => EffectView::CopyText(s@),
            StatusEffect::SetRegistryText(s) => EffectView::SetRegistryText(s@),
            StatusEffect::SetRegistrySub(s) => EffectView::SetRegistrySub(s@),
            StatusEffect::SetTagSubtitle(s) => EffectView::SetTagSubtitle(s@),
            StatusEffect::FetchChangelog(u, t) => EffectView::FetchChangelog(u@, t@),
            StatusEffect::AskPowerwash => EffectView::AskPowerwash,
            StatusEffect::AskFactoryReset => EffectView::AskFactoryReset,
            StatusEffect::AskRollback(h, b) => EffectView::AskRollback(h@, b@),
            StatusEffect::SetTags(t, i, s) => EffectView::SetTags(t.deep_view(), *i as int, *s),
        }
    }
}

/// What the outside tells when a message is answered: whether there is a display,
/// how long the update runs, the images on disk, the text on the last update, and
/// the name of the system.
#[derive(Debug)]
pub struct Readings {
    pub display: bool,
    pub elapsed_seconds: u64,
    pub deployments: Vec<MockDeployment>,
    pub last_update: Option<String>,
    pub image_info: Option<String>,
}

/// The view.
#[derive(Debug)]
pub struct StatusView {
    pub state: AppState,
    /// Whether the time of an update is running.
    pub updating: bool,
    pub log_text: String,
    pub preflight_status: PreflightStatus,
    pub last_update_text: Option<String>,
    pub image_info: Option<String>,
    pub seg_progress: SegmentedProgress,
    pub active_module: Option<Module>,
    /// Whether an image is staged that the next boot will use.
    pub reboot_pending: bool,
    pub registry_uri: String,
    pub selected_tag: String,
    pub deployments: Vec<MockDeployment>,
    pub expanded_deployment_id: Option<String>,
    pub changelog_version: String,
    pub registry_versions: Vec<ImageVersion>,
    pub github_commits: Vec<(String, String, String)>,
    pub sbom_diff: Option<SbomDiffResult>,
    /// The real names of the tags that are shown.
    pub tag_raws: Vec<String>,
    pub rollback_target: Option<MockDeployment>,
    pub auto_updates: bool,
}

/// What the view is.
#[verifier::ext_equal]
pub struct StatusModel {
    pub state: StateView,
    pub updating: bool,
    pub log_text: Seq<char>,
    pub preflight: PreflightStatus,
    pub last_update: Option<Seq<char>>,
    pub image_info: Option<Seq<char>>,
    pub bar: SegmentedProgress,
    pub active_module: Option<Module>,
    pub reboot_pending: bool,
    pub registry_uri: Seq<char>,
    pub selected_tag: Seq<char>,
    pub deployments: Seq<DeploymentView>,
    pub expanded: Option<Seq<char>>,
    pub changelog_version: Seq<char>,
    pub versions: Seq<VersionView>,
    pub commits: Seq<(Seq<char>, Seq<char>, Seq<char>)>,
    pub sbom: Option<SbomView>,
    pub tag_raws: Seq<Seq<char>>,
    pub rollback_target: Option<DeploymentView>,
    pub auto_updates: bool,
}

impl DeepView for StatusView {
    type V = StatusModel;

    open spec fn deep_view(&self) -> StatusModel {
        StatusModel {
            state: self.state.deep_view(),
            updating: self.updating,
            log_text: self.log_text@,
            preflight: self.preflight_status,
            last_update: self.last_update_text.deep_view(),
            image_info: self.image_info.deep_view(),
            bar: self.seg_progress,
            active_module: self.active_module,
            reboot_pending: self.reboot_pending,
            registry_uri: self.registry_uri@,
            selected_tag: self.selected_tag@,
            deployments: self.deployments.deep_view(),
            expanded: self.expanded_deployment_id.deep_view(),
            changelog_version: self.changelog_version@,
            versions: self.registry_versions.deep_view(),
            commits: self.github_commits.deep_view(),
            sbom: self.sbom_diff.deep_view(),
            tag_raws: self.tag_raws.deep_view(),
            rollback_target: self.rollback_target.deep_view(),
            auto_updates: self.auto_updates,
        }
    }
}

/// A model and what the widgets have to do.
pub type Step = (StatusModel, Seq<EffectView>);

// ── States ───────────────────────────────────────────────────────────────────

/// An update starts: the list and the bar start anew, and no image is staged.
pub open spec fn started(m: StatusModel) -> Step {
    (
        StatusModel {
            updating: true,
            bar: empty_bar(),
            active_module: None,
            reboot_pending: false,
            state: StateView::Updating,
            ..m
        },
        seq![
            EffectView::ShowStack("updating"@),
            EffectView::SetElapsed("0:00"@),
            EffectView::UpdateList(ListInputView::Reset),
        ],
    )
}

/// An update completed: an image is staged.
pub open spec fn completed(m: StatusModel, deployments: Seq<DeploymentView>) -> Step {
    (
        StatusModel {
            updating: false,
            bar: bar_all_complete(m.bar),
            active_module: None,
            preflight: PreflightStatus::UpToDate,
            reboot_pending: true,
            deployments,
            state: StateView::Complete,
            ..m
        },
        seq![
            EffectView::ShowStack("complete"@),
            EffectView::UpdateList(ListInputView::MarkAllComplete),
            EffectView::RefreshIdle,
            EffectView::RebuildHistory,
        ],
    )
}

/// An update failed: the module that ran failed.
pub open spec fn failed(m: StatusModel, error: Seq<char>) -> Step {
    (
        StatusModel {
            updating: false,
            bar: match m.active_module {
                Some(module) => bar_failed(m.bar, module_key(module)),
                None => m.bar,
            },
            active_module: None,
            state: StateView::Error(error),
            ..m
        },
        seq![
            EffectView::ShowStack("error"@),
            EffectView::UpdateList(ListInputView::MarkCurrentFailed),
            EffectView::SetErrorDescription(error),
        ],
    )
}

/// There was nothing to update.
pub open spec fn current(m: StatusModel) -> Step {
    (
        StatusModel {
            updating: false,
            preflight: PreflightStatus::UpToDate,
            reboot_pending: false,
            state: StateView::UpToDate,
            ..m
        },
        seq![EffectView::ShowStack("up_to_date"@), EffectView::RefreshIdle],
    )
}

/// Back to the first page.
pub open spec fn idle(
    m: StatusModel,
    last_update: Option<Seq<char>>,
    image_info: Option<Seq<char>>,
) -> Step {
    (
        StatusModel { updating: false, last_update, image_info, state: StateView::Idle, ..m },
        seq![EffectView::ShowStack("idle"@), EffectView::RefreshIdle],
    )
}

/// The state of the application changed.
pub open spec fn state_changed(m: StatusModel, s: StateView, r: Readings) -> Step {
    match s {
        StateView::Updating => started(m),
        StateView::Complete => completed(m, r.deployments.deep_view()),
        StateView::Error(e) => failed(m, e),
        StateView::UpToDate => current(m),
        StateView::Idle => idle(m, r.last_update.deep_view(), r.image_info.deep_view()),
    }
}

// ── Log and time ─────────────────────────────────────────────────────────────

/// A line for the log.
pub open spec fn log_appended(m: StatusModel, line: Seq<char>) -> Step {
    (
        StatusModel {
            log_text: if m.log_text.len() == 0 {
                line
            } else {
                m.log_text + "\n"@ + line
            },
            ..m
        },
        seq![
            EffectView::UpdateList(ListInputView::ProcessLine(line)),
            EffectView::LogAppend(line),
        ],
    )
}

/// The text of a time: minutes and seconds.
pub open spec fn elapsed_text(seconds: u64) -> Seq<char> {
    text::decimal((seconds / 60) as nat) + ":"@ + text::two_digits((seconds % 60) as nat)
}

/// Time passed.
pub open spec fn ticked(m: StatusModel, seconds: u64) -> Step {
    (
        m,
        if m.updating {
            seq![EffectView::SetElapsed(elapsed_text(seconds))]
        } else {
            Seq::empty()
        },
    )
}

/// The log is copied.
pub open spec fn log_copied(m: StatusModel, display: bool) -> Step {
    (
        m,
        if display {
            seq![
                EffectView::CopyText(m.log_text),
                EffectView::Say(toast("Log copied to clipboard"@, 3)),
            ]
        } else {
            Seq::empty()
        },
    )
}

// ── First page ───────────────────────────────────────────────────────────────

/// What the check at startup found.
pub open spec fn preflight_set(m: StatusModel, s: PreflightStatus) -> Step {
    (StatusModel { preflight: s, ..m }, seq![EffectView::RefreshIdle])
}

/// The banner is dismissed.
pub open spec fn dismissed(m: StatusModel) -> Step {
    (
        StatusModel { reboot_pending: false, preflight: PreflightStatus::UpToDate, ..m },
        seq![EffectView::RefreshIdle],
    )
}

/// Preferences changed: the switch follows.
pub open spec fn switch_set(m: StatusModel, on: bool) -> Step {
    (
        StatusModel { auto_updates: on, ..m },
        if m.auto_updates != on {
            seq![EffectView::SetAutoSwitch(on)]
        } else {
            Seq::empty()
        },
    )
}

/// The button beside the image's name: restart where an image is staged, else
/// update.
pub open spec fn hero_clicked(m: StatusModel) -> Step {
    (
        m,
        seq![
            EffectView::Output(
                if m.reboot_pending {
                    OutputView::Reboot
                } else {
                    OutputView::StartUpdate
                },
            ),
        ],
    )
}

/// Restart at night; whether the command is withheld is decided where it is made.
pub open spec fn night_restart(m: StatusModel) -> Step {
    (m, seq![EffectView::ScheduleReboot])
}

/// A page is shown; the first one has two names.
pub open spec fn page_shown(m: StatusModel, page: Seq<char>) -> Step {
    (
        m,
        seq![
            EffectView::ShowStack(
                if page == "main"@ || page == "idle"@ {
                    "idle"@
                } else {
                    page
                },
            ),
            EffectView::Output(OutputView::PageChanged(page)),
        ],
    )
}

// ── Image source ─────────────────────────────────────────────────────────────

/// The image and tag that a row shows.
pub open spec fn source_text(uri: Seq<char>, tag: Seq<char>) -> Seq<char> {
    text::pieces(uri, '/').last() + ":"@ + tag
}

/// A new address of the image; one of blanks changes nothing.
pub open spec fn uri_saved(m: StatusModel, uri: Seq<char>) -> Step {
    if text::trimmed(uri).len() == 0 {
        (m, Seq::empty())
    } else {
        (
            StatusModel { registry_uri: uri, ..m },
            seq![
                EffectView::SetRegistryText(uri),
                EffectView::SetRegistrySub(source_text(uri, m.selected_tag)),
                EffectView::Say(toast("Image source updated"@, TOAST_TIMEOUT)),
                EffectView::FetchChangelog(uri, m.selected_tag),
            ],
        )
    }
}

/// What is shown on a tag.
pub open spec fn tag_description(tag: Seq<char>) -> Seq<char> {
    if tag == "latest"@ {
        "Always the newest stable build"@
    } else if forall|i: int| 0 <= i < tag.len() ==> text::is_digit(#[trigger] tag[i]) {
        "Pinned to this version"@
    } else {
        "Custom tag"@
    }
}

/// A tag was selected; the one that is selected already changes nothing.
pub open spec fn tag_selected(m: StatusModel, tag: Seq<char>) -> Step {
    if tag == m.selected_tag {
        (m, Seq::empty())
    } else {
        (
            StatusModel { selected_tag: tag, ..m },
            seq![
                EffectView::SetTagSubtitle(tag_description(tag)),
                EffectView::SetRegistrySub(source_text(m.registry_uri, tag)),
                EffectView::Say(toast("Tag set to :"@ + tag, TOAST_TIMEOUT)),
                EffectView::FetchChangelog(m.registry_uri, tag),
            ],
        )
    }
}

/// Position of the first text in a list, or 0.
pub open spec fn position_or_first(list: Seq<Seq<char>>, s: Seq<char>) -> int {
    if list.contains(s) {
        first_position(list, s)
    } else {
        0
    }
}

/// Position of the first `s` in a list; its length where there is none.
pub open spec fn first_position(list: Seq<Seq<char>>, s: Seq<char>) -> int
    decreases list.len(),
{
    if list.len() == 0 {
        0
    } else if list[0] == s {
        0
    } else {
        1 + first_position(list.drop_first(), s)
    }
}

/// Tags of the registry arrived.
pub open spec fn tags_loaded(m: StatusModel, tags: Seq<TagView>) -> Step {
    let raws = tags.map_values(|t: TagView| t.raw);
    (
        StatusModel { tag_raws: raws, ..m },
        seq![
            EffectView::SetTags(
                tags.map_values(|t: TagView| t.display),
                position_or_first(raws, m.selected_tag),
                tags.len() > 1,
            ),
        ],
    )
}

// ── History ──────────────────────────────────────────────────────────────────

/// Position of the first deployment with an id; -1 where there is none.
pub open spec fn with_id(ds: Seq<DeploymentView>, id: Seq<char>) -> int
    decreases ds.len(),
{
    if ds.len() == 0 {
        -1
    } else {
        let rest = with_id(ds.drop_last(), id);
        if rest >= 0 {
            rest
        } else if ds.last().id == id {
            ds.len() - 1
        } else {
            -1
        }
    }
}

/// A row is expanded, or folded where it was expanded.
pub open spec fn row_toggled(m: StatusModel, id: Seq<char>) -> Step {
    (
        StatusModel {
            expanded: if m.expanded == Some(id) {
                None
            } else {
                Some(id)
            },
            ..m
        },
        seq![EffectView::RebuildHistory],
    )
}

/// A deployment is pinned, or not any more.
pub open spec fn pin_toggled(m: StatusModel, id: Seq<char>) -> Step {
    let i = with_id(m.deployments, id);
    if i < 0 {
        (m, seq![EffectView::RebuildHistory])
    } else {
        let d = m.deployments[i];
        let now = DeploymentView { pinned: !d.pinned, ..d };
        (
            StatusModel { deployments: m.deployments.update(i, now), ..m },
            seq![
                EffectView::Say(
                    toast(
                        if now.pinned {
                            "Pinned "@ + d.tag + " (preventing pruning)"@
                        } else {
                            "Unpinned "@ + d.tag + " (allowing pruning)"@
                        },
                        TOAST_TIMEOUT,
                    ),
                ),
                EffectView::RebuildHistory,
            ],
        )
    }
}

/// An action on the history, or a reset.
pub open spec fn toggled(m: StatusModel, action: Seq<char>) -> Step {
    match text::without_prefix(action, "expand:"@) {
        Some(id) => row_toggled(m, id),
        None => if action == "powerwash"@ {
            (m, seq![EffectView::AskPowerwash])
        } else if action == "factory"@ {
            (m, seq![EffectView::AskFactoryReset])
        } else {
            pin_toggled(m, action)
        },
    }
}

/// A roll back is asked for.
pub open spec fn rollback_asked(m: StatusModel, d: DeploymentView) -> Step {
    (
        StatusModel { rollback_target: Some(d), ..m },
        seq![
            EffectView::AskRollback(
                "Roll back to "@ + d.tag + "?"@,
                "The next boot will use "@ + d.image + ":"@ + d.tag
                    + ".\nYour current image stays on disk and remains available to roll forward."@,
            ),
        ],
    )
}

/// A roll back is confirmed.
pub open spec fn rollback_confirmed(m: StatusModel) -> Step {
    match m.rollback_target {
        Some(d) => (
            StatusModel { rollback_target: None, ..m },
            seq![EffectView::Say(toast("Rolling back to "@ + d.tag + "…"@, TOAST_TIMEOUT))],
        ),
        None => (m, Seq::empty()),
    }
}

/// A deployment becomes the default.
pub open spec fn default_set(m: StatusModel, d: DeploymentView) -> Step {
    (
        m,
        seq![
            EffectView::Say(toast("Set "@ + d.tag + " as default boot"@, TOAST_TIMEOUT)),
        ],
    )
}

// ── Changelog ────────────────────────────────────────────────────────────────

/// The changelog of a version is shown; an empty name keeps the version.
pub open spec fn changelog_shown(m: StatusModel, version: Seq<char>) -> Step {
    let target = if version.len() == 0 {
        m.changelog_version
    } else {
        version
    };
    (
        StatusModel { changelog_version: target, ..m },
        (if target != m.changelog_version {
            seq![EffectView::RebuildChangelog]
        } else {
            Seq::empty()
        }) + seq![
            EffectView::ShowStack("changelog"@),
            EffectView::Output(OutputView::PageChanged("changelog"@)),
        ],
    )
}

/// Whether a build with a version is in a list.
pub open spec fn has_version(vs: Seq<VersionView>, version: Seq<char>) -> bool {
    exists|i: int| 0 <= i < vs.len() && (#[trigger] vs[i]).version == version
}

/// The builds whose version a list does not have yet, each version once.
pub open spec fn new_versions(known: Seq<VersionView>, incoming: Seq<VersionView>) -> Seq<
    VersionView,
>
    decreases incoming.len(),
{
    if incoming.len() == 0 {
        Seq::empty()
    } else {
        let rest = new_versions(known, incoming.drop_last());
        if has_version(known + rest, incoming.last().version) {
            rest
        } else {
            rest.push(incoming.last())
        }
    }
}

/// Whether no version occurs twice in a list.
pub open spec fn distinct_versions(vs: Seq<VersionView>) -> bool {
    forall|i: int, j: int|
        0 <= i < j < vs.len() ==> (#[trigger] vs[i]).version != (#[trigger] vs[j]).version
}

/// Whether a deployment with a tag is in a list.
pub open spec fn has_tag(ds: Seq<DeploymentView>, tag: Seq<char>) -> bool {
    exists|i: int| 0 <= i < ds.len() && (#[trigger] ds[i]).tag == tag
}

/// The row of a build that is not on disk.
pub open spec fn remote_row(v: VersionView, title: Option<Seq<char>>, uri: Seq<char>) -> DeploymentView {
    DeploymentView {
        id: "remote-"@ + v.version,
        state: "remote"@,
        title: match title {
            Some(t) => t,
            None => "System Image"@,
        },
        image: uri,
        tag: v.version,
        digest: v.revision,
        deployed: "Available · "@ + short_text(v.date),
        deployed_full: "Built: "@ + short_text(v.date) + " · "@ + clock_text(v.created),
        size: "—"@,
        kernel: v.kernel,
        package_count: 0,
        signer: "Remote registry"@,
        pinned: false,
    }
}

/// The history with builds of the registry behind what is on disk, newest first,
/// up to the cap. `versions` is in order of date, oldest first.
pub open spec fn with_remote(
    rows: Seq<DeploymentView>,
    local: Seq<DeploymentView>,
    versions: Seq<VersionView>,
    title: Option<Seq<char>>,
    uri: Seq<char>,
) -> Seq<DeploymentView>
    decreases versions.len(),
{
    if versions.len() == 0 || rows.len() >= HISTORY_MAX {
        rows
    } else {
        let v = versions.last();
        with_remote(
            if has_tag(local, v.version) {
                rows
            } else {
                rows.push(remote_row(v, title, uri))
            },
            local,
            versions.drop_last(),
            title,
            uri,
        )
    }
}

/// Builds of the registry arrived.
pub open spec fn versions_loaded(m: StatusModel, incoming: Seq<VersionView>) -> Step {
    let versions = by_date(m.versions + new_versions(m.versions, incoming), false);
    (
        StatusModel {
            versions,
            changelog_version: if versions.len() > 0 {
                versions.last().version
            } else {
                m.changelog_version
            },
            deployments: with_remote(
                m.deployments,
                m.deployments,
                versions,
                m.image_info,
                m.registry_uri,
            ),
            ..m
        },
        seq![EffectView::RebuildChangelog, EffectView::RebuildHistory],
    )
}

// ── Modules ──────────────────────────────────────────────────────────────────

/// A module started: the segment of the one before it is complete, unless one
/// segment shows both.
pub open spec fn module_started(m: StatusModel, module: Module) -> Step {
    let key = module_key(module);
    let bar = match m.active_module {
        Some(prev) => if segment_of(module_key(prev)) == segment_of(key) {
            m.bar
        } else {
            bar_active(bar_complete(m.bar, module_key(prev)), key)
        },
        None => bar_active(m.bar, key),
    };
    (
        StatusModel { bar, active_module: Some(module), ..m },
        seq![EffectView::UpdateList(ListInputView::ProcessLine("Starting module: "@ + key))],
    )
}

/// A module finished.
pub open spec fn module_finished(m: StatusModel, module: Module, status: ModuleStatus) -> Step {
    (
        StatusModel {
            bar: match status {
                ModuleStatus::Failed(_) => bar_failed(m.bar, module_key(module)),
                _ => bar_complete(m.bar, module_key(module)),
            },
            ..m
        },
        Seq::empty(),
    )
}

// ── Messages ─────────────────────────────────────────────────────────────────

/// The view after a message.
pub open spec fn status_step(m: StatusModel, msg: InputView, r: Readings) -> Step {
    match msg {
        InputView::StateChanged(s) => state_changed(m, s, r),
        InputView::AppendLog(line) => log_appended(m, line),
        InputView::ClearLog => (
            StatusModel { log_text: ""@, ..m },
            seq![EffectView::LogClear],
        ),
        InputView::TimerTick => ticked(m, r.elapsed_seconds),
        InputView::PreflightResult(s) => preflight_set(m, s),
        InputView::DismissBanner => dismissed(m),
        InputView::HeroActionClicked => hero_clicked(m),
        InputView::SettingsChanged(s) => switch_set(m, s.auto_updates),
        InputView::ScheduleRebootTonight => night_restart(m),
        InputView::CopyLog => log_copied(m, r.display),
        InputView::ShowPage(page) => page_shown(m, page),
        InputView::SaveRegistryUri(uri) => uri_saved(m, uri),
        InputView::SelectTag(tag) => tag_selected(m, tag),
        InputView::TogglePin(action) => toggled(m, action),
        InputView::RollbackTo(d) => rollback_asked(m, d),
        InputView::ConfirmRollback => rollback_confirmed(m),
        InputView::SetDefaultBoot(d) => default_set(m, d),
        InputView::SelectChangelogVersion(v) => changelog_shown(m, v),
        InputView::RegistryVersionsLoaded(vs) => versions_loaded(m, vs),
        InputView::AvailableTagsLoaded(tags) => tags_loaded(m, tags),
        InputView::GithubCommitsLoaded(c) => (
            StatusModel { commits: c, ..m },
            seq![EffectView::RebuildChangelog],
        ),
        InputView::SbomDiffLoaded(d) => (
            StatusModel { sbom: Some(d), ..m },
            seq![EffectView::RebuildChangelog],
        ),
        InputView::ModuleStarted(module) => module_started(m, module),
        InputView::ModuleFinished(module, s) => module_finished(m, module, s),
    }
}

fn nothing() -> (r: Vec<StatusEffect>)
    ensures
        r.deep_view() == Seq::<EffectView>::empty(),
{
    let r: Vec<StatusEffect> = Vec::new();
    assert(r.deep_view() =~= Seq::<EffectView>::empty());
    r
}

fn add(list: &mut Vec<StatusEffect>, e: StatusEffect)
    ensures
        final(list).deep_view() == old(list).deep_view().push(e.deep_view()),
{
    let ghost before = list.deep_view();
    list.push(e);
    assert(list.deep_view() =~= before.push(e.deep_view()));
}

fn one(e: StatusEffect) -> (r: Vec<StatusEffect>)
    ensures
        r.deep_view() == seq![e.deep_view()],
{
    let mut r: Vec<StatusEffect> = nothing();
    self::add(&mut r, e);
    assert(r.deep_view() =~= seq![e.deep_view()]);
    r
}

fn two(a: StatusEffect, b: StatusEffect) -> (r: Vec<StatusEffect>)
    ensures
        r.deep_view() == seq![a.deep_view(), b.deep_view()],
{
    let mut r: Vec<StatusEffect> = one(a);
    self::add(&mut r, b);
    assert(r.deep_view() =~= seq![a.deep_view(), b.deep_view()]);
    r
}

fn three(a: StatusEffect, b: StatusEffect, c: StatusEffect) -> (r: Vec<StatusEffect>)
    ensures
        r.deep_view() == seq![a.deep_view(), b.deep_view(), c.deep_view()],
{
    let mut r: Vec<StatusEffect> = two(a, b);
    self::add(&mut r, c);
    assert(r.deep_view() =~= seq![a.deep_view(), b.deep_view(), c.deep_view()]);
    r
}

fn four(a: StatusEffect, b: StatusEffect, c: StatusEffect, d: StatusEffect) -> (r: Vec<StatusEffect>)
    ensures
        r.deep_view() == seq![a.deep_view(), b.deep_view(), c.deep_view(), d.deep_view()],
{
    let mut r: Vec<StatusEffect> = three(a, b, c);
    self::add(&mut r, d);
    assert(r.deep_view() =~= seq![a.deep_view(), b.deep_view(), c.deep_view(), d.deep_view()]);
    r
}

fn show(page: &str) -> (r: StatusEffect)
    ensures
        r.deep_view() == EffectView::ShowStack(page@),
{
    StatusEffect::ShowStack(page.to_string())
}

fn say(words: String, timeout: u32) -> (r: StatusEffect)
    ensures
        r.deep_view() == EffectView::Say(toast(words@, timeout)),
{
    StatusEffect::Say(Toast { text: words, timeout })
}

/// Position of the first `s` in a list, or 0.
pub fn position_of(list: &Vec<String>, s: &str) -> (r: usize)
    ensures
        r as int == position_or_first(list.deep_view(), s@),
{
    let ghost all = list.deep_view();
    assert(all.skip(0) =~= all);
    let mut i: usize = 0;
    while i < list.len()
        invariant
            0 <= i <= list@.len(),
            all == list.deep_view(),
            first_position(all, s@) == i + first_position(all.skip(i as int), s@),
            forall|j: int| 0 <= j < i ==> #[trigger] all[j] != s@,
        decreases list@.len() - i,
    {
        assert(all.skip(i as int)[0] == list@[i as int]@);
        assert(all.skip(i as int).drop_first() =~= all.skip(i + 1));
        if text::same(list[i].as_str(), s) {
            assert(all[i as int] == s@);
            assert(all.contains(s@));
            return i;
        }
        i += 1;
    }
    assert(!all.contains(s@));
    0
}

fn knows(list: &Vec<ImageVersion>, version: &str) -> (r: bool)
    ensures
        r == has_version(list.deep_view(), version@),
{
    let ghost all = list.deep_view();
    let mut i: usize = 0;
    while i < list.len()
        invariant
            0 <= i <= list@.len(),
            all == list.deep_view(),
            forall|j: int| 0 <= j < i ==> (#[trigger] all[j]).version != version@,
        decreases list@.len() - i,
    {
        if text::same(list[i].version.as_str(), version) {
            assert(all[i as int].version == version@);
            return true;
        }
        i += 1;
    }
    false
}

fn is_local(list: &Vec<MockDeployment>, n: usize, tag: &str) -> (r: bool)
    requires
        n <= list@.len(),
    ensures
        r == has_tag(list.deep_view().take(n as int), tag@),
{
    let ghost all = list.deep_view().take(n as int);
    let mut i: usize = 0;
    while i < n
        invariant
            0 <= i <= n <= list@.len(),
            all == list.deep_view().take(n as int),
            forall|j: int| 0 <= j < i ==> (#[trigger] all[j]).tag != tag@,
        decreases n - i,
    {
        assert(all[i as int] == list@[i as int].deep_view());
        if text::same(list[i].tag.as_str(), tag) {
            assert(all[i as int].tag == tag@);
            return true;
        }
        i += 1;
    }
    false
}

fn last_piece(uri: &str) -> (r: String)
    ensures
        r@ == text::pieces(uri@, '/').last(),
{
    let parts: Vec<String> = text::split(uri, '/');
    let i: usize = parts.len() - 1;
    assert(parts.deep_view().last() == parts@[i as int]@);
    parts[i].clone()
}

fn source_words(uri: &str, tag: &str) -> (r: String)
    ensures
        r@ == source_text(uri@, tag@),
{
    let name: String = last_piece(uri);
    text::cat3(name.as_str(), ":", tag)
}

fn row_of_build(v: &ImageVersion, title: &Option<String>, uri: &str) -> (r: MockDeployment)
    ensures
        r.deep_view() == remote_row(v.deep_view(), title.deep_view(), uri@),
{
    let day: String = v.date.short();
    let clock: String = v.created.clock();
    MockDeployment {
        id: text::cat2("remote-", v.version.as_str()),
        state: "remote".to_string(),
        title: match title {
            Some(t) => t.clone(),
            None => "System Image".to_string(),
        },
        image: uri.to_string(),
        tag: v.version.clone(),
        digest: v.revision.clone(),
        deployed: text::cat2("Available · ", day.as_str()),
        deployed_full: text::cat4("Built: ", day.as_str(), " · ", clock.as_str()),
        size: "—".to_string(),
        kernel: v.kernel.clone(),
        package_count: 0,
        signer: "Remote registry".to_string(),
        pinned: false,
    }
}

/// The history with builds of the registry behind what is on disk.
fn merge_history(
    rows: Vec<MockDeployment>,
    versions: &Vec<ImageVersion>,
    title: &Option<String>,
    uri: &str,
) -> (r: Vec<MockDeployment>)
    ensures
        r.deep_view() == with_remote(
            rows.deep_view(),
            rows.deep_view(),
            versions.deep_view(),
            title.deep_view(),
            uri@,
        ),
{
    let ghost local = rows.deep_view();
    let ghost all = versions.deep_view();
    let n: usize = rows.len();
    let mut out: Vec<MockDeployment> = rows;
    let mut i: usize = versions.len();
    assert(all.take(i as int) =~= all);
    assert(out.deep_view().take(n as int) =~= local);
    while i > 0 && out.len() < HISTORY_MAX
        invariant
            i <= versions@.len(),
            all == versions.deep_view(),
            n <= out@.len(),
            out.deep_view().take(n as int) == local,
            with_remote(local, local, all, title.deep_view(), uri@) == with_remote(
                out.deep_view(),
                local,
                all.take(i as int),
                title.deep_view(),
                uri@,
            ),
        decreases i,
    {
        let v: &ImageVersion = &versions[i - 1];
        assert(all.take(i as int).last() == v.deep_view());
        assert(all.take(i as int).drop_last() =~= all.take(i - 1));
        assert(out.deep_view().len() == out@.len());
        if !is_local(&out, n, v.version.as_str()) {
            let ghost before = out.deep_view();
            let row: MockDeployment = row_of_build(v, title, uri);
            out.push(row);
            assert(out.deep_view() =~= before.push(row.deep_view()));
            assert(out.deep_view().take(n as int) =~= local);
        }
        i -= 1;
    }
    assert(out.deep_view().len() == out@.len());
    out
}

impl StatusView {
    fn enter(&mut self, new_state: AppState, r: Readings) -> (e: Vec<StatusEffect>)
        ensures
            (final(self).deep_view(), e.deep_view()) == state_changed(
                old(self).deep_view(),
                new_state.deep_view(),
                r,
            ),
    {
        match new_state {
            AppState::Updating => {
                self.updating = true;
                self.seg_progress.reset();
                self.active_module = None;
                self.reboot_pending = false;
                self.state = AppState::Updating;
                three(
                    show("updating"),
                    StatusEffect::SetElapsed("0:00".to_string()),
                    StatusEffect::UpdateList(UpdateListInput::Reset),
                )
            },
            AppState::Complete => {
                self.updating = false;
                self.seg_progress.mark_all_complete();
                self.active_module = None;
                self.preflight_status = PreflightStatus::UpToDate;
                self.reboot_pending = true;
                self.deployments = r.deployments;
                self.state = AppState::Complete;
                four(
                    show("complete"),
                    StatusEffect::UpdateList(UpdateListInput::MarkAllComplete),
                    StatusEffect::RefreshIdle,
                    StatusEffect::RebuildHistory,
                )
            },
            AppState::Error(error) => {
                self.updating = false;
                if let Some(module) = self.active_module {
                    self.seg_progress.set_module_failed(module.key());
                }
                self.active_module = None;
                let shown: String = error.clone();
                self.state = AppState::Error(error);
                three(
                    show("error"),
                    StatusEffect::UpdateList(UpdateListInput::MarkCurrentFailed),
                    StatusEffect::SetErrorDescription(shown),
                )
            },
            AppState::UpToDate => {
                self.updating = false;
                self.preflight_status = PreflightStatus::UpToDate;
                self.reboot_pending = false;
                self.state = AppState::UpToDate;
                two(show("up_to_date"), StatusEffect::RefreshIdle)
            },
            AppState::Idle => {
                self.updating = false;
                self.last_update_text = r.last_update;
                self.image_info = r.image_info;
                self.state = AppState::Idle;
                two(show("idle"), StatusEffect::RefreshIdle)
            },
        }
    }

    fn append_log(&mut self, line: String) -> (e: Vec<StatusEffect>)
        ensures
            (final(self).deep_view(), e.deep_view()) == log_appended(old(self).deep_view(), line@),
    {
        self.log_text = if self.log_text.as_str().is_empty() {
            line.clone()
        } else {
            text::cat3(self.log_text.as_str(), "\n", line.as_str())
        };
        let copy: String = line.clone();
        two(
            StatusEffect::UpdateList(UpdateListInput::ProcessLine(copy)),
            StatusEffect::LogAppend(line),
        )
    }

    fn tick(&self, seconds: u64) -> (e: Vec<StatusEffect>)
        ensures
            (self.deep_view(), e.deep_view()) == ticked(self.deep_view(), seconds),
    {
        if !self.updating {
            return nothing();
        }
        let minutes: String = text::number(seconds / 60);
        let rest: String = text::two_digit_number(seconds % 60);
        one(StatusEffect::SetElapsed(text::cat3(minutes.as_str(), ":", rest.as_str())))
    }

    fn copy_log(&self, display: bool) -> (e: Vec<StatusEffect>)
        ensures
            (self.deep_view(), e.deep_view()) == log_copied(self.deep_view(), display),
    {
        if !display {
            return nothing();
        }
        two(
            StatusEffect::CopyText(self.log_text.clone()),
            say("Log copied to clipboard".to_string(), 3),
        )
    }

    fn set_switch(&mut self, on: bool) -> (e: Vec<StatusEffect>)
        ensures
            (final(self).deep_view(), e.deep_view()) == switch_set(old(self).deep_view(), on),
    {
        if self.auto_updates != on {
            self.auto_updates = on;
            one(StatusEffect::SetAutoSwitch(on))
        } else {
            nothing()
        }
    }

    fn click_hero(&self) -> (e: Vec<StatusEffect>)
        ensures
            (self.deep_view(), e.deep_view()) == hero_clicked(self.deep_view()),
    {
        if self.reboot_pending {
            one(StatusEffect::Output(StatusViewOutput::Reboot))
        } else {
            one(StatusEffect::Output(StatusViewOutput::StartUpdate))
        }
    }

    fn restart_at_night(&self) -> (e: Vec<StatusEffect>)
        ensures
            (self.deep_view(), e.deep_view()) == night_restart(self.deep_view()),
    {
        one(StatusEffect::ScheduleReboot)
    }

    fn show_page(&self, page: String) -> (e: Vec<StatusEffect>)
        ensures
            (self.deep_view(), e.deep_view()) == page_shown(self.deep_view(), page@),
    {
        let target: StatusEffect = if text::same(page.as_str(), "main") || text::same(
            page.as_str(),
            "idle",
        ) {
            show("idle")
        } else {
            show(page.as_str())
        };
        two(target, StatusEffect::Output(StatusViewOutput::PageChanged(page)))
    }

    fn save_uri(&mut self, uri: String) -> (e: Vec<StatusEffect>)
        ensures
            (final(self).deep_view(), e.deep_view()) == uri_saved(old(self).deep_view(), uri@),
    {
        let bare: String = text::trim(uri.as_str());
        if bare.as_str().is_empty() {
            return nothing();
        }
        let shown: String = source_words(uri.as_str(), self.selected_tag.as_str());
        let written: String = uri.clone();
        let fetched: String = uri.clone();
        let tag: String = self.selected_tag.clone();
        self.registry_uri = uri;
        four(
            StatusEffect::SetRegistryText(written),
            StatusEffect::SetRegistrySub(shown),
            say("Image source updated".to_string(), TOAST_TIMEOUT),
            StatusEffect::FetchChangelog(fetched, tag),
        )
    }

    fn select_tag(&mut self, tag: String) -> (e: Vec<StatusEffect>)
        ensures
            (final(self).deep_view(), e.deep_view()) == tag_selected(old(self).deep_view(), tag@),
    {
        if text::same(tag.as_str(), self.selected_tag.as_str()) {
            return nothing();
        }
        let words: &str = if text::same(tag.as_str(), "latest") {
            "Always the newest stable build"
        } else if text::all_digits(tag.as_str()) {
            "Pinned to this version"
        } else {
            "Custom tag"
        };
        let shown: String = source_words(self.registry_uri.as_str(), tag.as_str());
        let said: String = text::cat2("Tag set to :", tag.as_str());
        let uri: String = self.registry_uri.clone();
        let fetched: String = tag.clone();
        self.selected_tag = tag;
        four(
            StatusEffect::SetTagSubtitle(words.to_string()),
            StatusEffect::SetRegistrySub(shown),
            say(said, TOAST_TIMEOUT),
            StatusEffect::FetchChangelog(uri, fetched),
        )
    }

    fn toggle_row(&mut self, id: String) -> (e: Vec<StatusEffect>)
        ensures
            (final(self).deep_view(), e.deep_view()) == row_toggled(old(self).deep_view(), id@),
    {
        let open: bool = match &self.expanded_deployment_id {
            Some(current) => text::same(current.as_str(), id.as_str()),
            None => false,
        };
        self.expanded_deployment_id = if open {
            None
        } else {
            Some(id)
        };
        one(StatusEffect::RebuildHistory)
    }

    fn toggle_pin(&mut self, id: &str) -> (e: Vec<StatusEffect>)
        ensures
            (final(self).deep_view(), e.deep_view()) == pin_toggled(old(self).deep_view(), id@),
    {
        let ghost ds = self.deployments.deep_view();
        let mut i: usize = 0;
        assert(ds.take(0) =~= Seq::<DeploymentView>::empty());
        while i < self.deployments.len()
            invariant
                0 <= i <= self.deployments@.len(),
                self.deep_view() == old(self).deep_view(),
                ds == self.deployments.deep_view(),
                with_id(ds.take(i as int), id@) == -1,
            decreases self.deployments@.len() - i,
        {
            assert(ds.take(i + 1).drop_last() =~= ds.take(i as int));
            assert(ds.take(i + 1).last() == self.deployments@[i as int].deep_view());
            if text::same(self.deployments[i].id.as_str(), id) {
                proof {
                    lemma_with_id_stays(ds, id@, i + 1);
                }
                let d: &MockDeployment = &self.deployments[i];
                let mut next: MockDeployment = d.clone();
                next.pinned = !d.pinned;
                let words: String = if next.pinned {
                    text::cat3("Pinned ", d.tag.as_str(), " (preventing pruning)")
                } else {
                    text::cat3("Unpinned ", d.tag.as_str(), " (allowing pruning)")
                };
                let ghost now = next.deep_view();
                assert(now =~= DeploymentView { pinned: !ds[i as int].pinned, ..ds[i as int] });
                self.deployments.set(i, next);
                assert(self.deployments.deep_view() =~= ds.update(i as int, now));
                return two(say(words, TOAST_TIMEOUT), StatusEffect::RebuildHistory);
            }
            i += 1;
        }
        assert(ds.take(i as int) =~= ds);
        one(StatusEffect::RebuildHistory)
    }

    fn toggle(&mut self, action: String) -> (e: Vec<StatusEffect>)
        ensures
            (final(self).deep_view(), e.deep_view()) == toggled(old(self).deep_view(), action@),
    {
        if let Some(id) = text::strip_prefix(action.as_str(), "expand:") {
            self.toggle_row(id)
        } else if text::same(action.as_str(), "powerwash") {
            one(StatusEffect::AskPowerwash)
        } else if text::same(action.as_str(), "factory") {
            one(StatusEffect::AskFactoryReset)
        } else {
            self.toggle_pin(action.as_str())
        }
    }

    fn ask_rollback(&mut self, d: MockDeployment) -> (e: Vec<StatusEffect>)
        ensures
            (final(self).deep_view(), e.deep_view()) == rollback_asked(
                old(self).deep_view(),
                d.deep_view(),
            ),
    {
        let heading: String = text::cat3("Roll back to ", d.tag.as_str(), "?");
        let body: String = text::cat5(
            "The next boot will use ",
            d.image.as_str(),
            ":",
            d.tag.as_str(),
            ".\nYour current image stays on disk and remains available to roll forward.",
        );
        self.rollback_target = Some(d);
        one(StatusEffect::AskRollback(heading, body))
    }

    fn confirm_rollback(&mut self) -> (e: Vec<StatusEffect>)
        ensures
            (final(self).deep_view(), e.deep_view()) == rollback_confirmed(old(self).deep_view()),
    {
        match self.rollback_target.take() {
            Some(d) => {
                let words: String = text::cat3("Rolling back to ", d.tag.as_str(), "…");
                one(say(words, TOAST_TIMEOUT))
            },
            None => nothing(),
        }
    }

    fn show_changelog(&mut self, version: String) -> (e: Vec<StatusEffect>)
        ensures
            (final(self).deep_view(), e.deep_view()) == changelog_shown(
                old(self).deep_view(),
                version@,
            ),
    {
        let mut out: Vec<StatusEffect> = nothing();
        if !version.as_str().is_empty() && !text::same(
            version.as_str(),
            self.changelog_version.as_str(),
        ) {
            self.changelog_version = version;
            self::add(&mut out, StatusEffect::RebuildChangelog);
        }
        self::add(&mut out, show("changelog"));
        self::add(
            &mut out,
            StatusEffect::Output(StatusViewOutput::PageChanged("changelog".to_string())),
        );
        assert(out.deep_view() =~= changelog_shown(old(self).deep_view(), version@).1);
        out
    }

    fn load_versions(&mut self, incoming: Vec<ImageVersion>) -> (e: Vec<StatusEffect>)
        ensures
            (final(self).deep_view(), e.deep_view()) == versions_loaded(
                old(self).deep_view(),
                incoming.deep_view(),
            ),
    {
        let ghost known = self.registry_versions.deep_view();
        let ghost all = incoming.deep_view();
        let mut merged: Vec<ImageVersion> = self.registry_versions.clone();
        assert(merged.deep_view() =~= known);
        assert(all.take(0) =~= Seq::<VersionView>::empty());
        assert(known + Seq::<VersionView>::empty() =~= known);
        let mut i: usize = 0;
        while i < incoming.len()
            invariant
                0 <= i <= incoming@.len(),
                all == incoming.deep_view(),
                known == self.registry_versions.deep_view(),
                merged.deep_view() == known + new_versions(known, all.take(i as int)),
                self.deep_view() == old(self).deep_view(),
            decreases incoming@.len() - i,
        {
            assert(all.take(i + 1).drop_last() =~= all.take(i as int));
            assert(all.take(i + 1).last() == incoming@[i as int].deep_view());
            if !knows(&merged, incoming[i].version.as_str()) {
                let v: ImageVersion = incoming[i].clone();
                let ghost before = merged.deep_view();
                merged.push(v);
                assert(merged.deep_view() =~= before.push(v.deep_view()));
                assert(merged.deep_view() =~= known + new_versions(known, all.take(i + 1)));
            }
            i += 1;
        }
        assert(all.take(i as int) =~= all);
        let sorted: Vec<ImageVersion> = sort_by_date(merged, false);
        let ghost versions = sorted.deep_view();
        if sorted.len() > 0 {
            let last: usize = sorted.len() - 1;
            assert(versions.last() == sorted@[last as int].deep_view());
            self.changelog_version = sorted[last].version.clone();
        }
        let rows: Vec<MockDeployment> = self.deployments.clone();
        assert(rows.deep_view() =~= self.deployments.deep_view());
        self.deployments = merge_history(
            rows,
            &sorted,
            &self.image_info,
            self.registry_uri.as_str(),
        );
        self.registry_versions = sorted;
        two(StatusEffect::RebuildChangelog, StatusEffect::RebuildHistory)
    }

    fn load_tags(&mut self, tags: Vec<AvailableTag>) -> (e: Vec<StatusEffect>)
        ensures
            (final(self).deep_view(), e.deep_view()) == tags_loaded(
                old(self).deep_view(),
                tags.deep_view(),
            ),
    {
        let ghost all = tags.deep_view();
        let ghost all_raws = all.map_values(|t: TagView| t.raw);
        let ghost all_shown = all.map_values(|t: TagView| t.display);
        let mut raws: Vec<String> = Vec::new();
        let mut shown: Vec<String> = Vec::new();
        let mut i: usize = 0;
        while i < tags.len()
            invariant
                0 <= i <= tags@.len(),
                all == tags.deep_view(),
                all_raws == all.map_values(|t: TagView| t.raw),
                all_shown == all.map_values(|t: TagView| t.display),
                raws.deep_view() == all_raws.take(i as int),
                shown.deep_view() == all_shown.take(i as int),
            decreases tags@.len() - i,
        {
            let t: &AvailableTag = &tags[i];
            let ghost before = raws.deep_view();
            let ghost before_shown = shown.deep_view();
            let raw: String = t.raw.clone();
            let display: String = t.display.clone();
            assert(raw@ == all_raws[i as int]);
            assert(display@ == all_shown[i as int]);
            raws.push(raw);
            shown.push(display);
            assert(raws.deep_view() =~= before.push(raw@));
            assert(shown.deep_view() =~= before_shown.push(display@));
            i += 1;
            assert(all_raws.take(i as int) =~= before.push(raw@));
            assert(all_shown.take(i as int) =~= before_shown.push(display@));
        }
        assert(all_raws.take(i as int) =~= all_raws);
        assert(all_shown.take(i as int) =~= all_shown);
        let active: usize = position_of(&raws, self.selected_tag.as_str());
        self.tag_raws = raws;
        one(StatusEffect::SetTags(shown, active, tags.len() > 1))
    }

    fn start_module(&mut self, module: Module) -> (e: Vec<StatusEffect>)
        ensures
            (final(self).deep_view(), e.deep_view()) == module_started(
                old(self).deep_view(),
                module,
            ),
    {
        let key: &'static str = module.key();
        match self.active_module {
            Some(prev) => {
                if !same_segment(prev.key(), key) {
                    self.seg_progress.set_module_complete(prev.key());
                    self.seg_progress.set_module_active(key);
                }
            },
            None => {
                self.seg_progress.set_module_active(key);
            },
        }
        self.active_module = Some(module);
        one(
            StatusEffect::UpdateList(
                UpdateListInput::ProcessLine(text::cat2("Starting module: ", key)),
            ),
        )
    }

    fn finish_module(&mut self, module: Module, status: ModuleStatus) -> (e: Vec<StatusEffect>)
        ensures
            (final(self).deep_view(), e.deep_view()) == module_finished(
                old(self).deep_view(),
                module,
                status,
            ),
    {
        match status {
            ModuleStatus::Failed(_) => self.seg_progress.set_module_failed(module.key()),
            _ => self.seg_progress.set_module_complete(module.key()),
        }
        nothing()
    }

    /// Answers a message.
    pub fn update(&mut self, msg: StatusViewInput, r: Readings) -> (e: Vec<StatusEffect>)
        ensures
            (final(self).deep_view(), e.deep_view()) == status_step(
                old(self).deep_view(),
                msg.deep_view(),
                r,
            ),
    {
        match msg {
            StatusViewInput::StateChanged(s) => self.enter(s, r),
            StatusViewInput::AppendLog(line) => self.append_log(line),
            StatusViewInput::ClearLog => {
                self.log_text = "".to_string();
                one(StatusEffect::LogClear)
            },
            StatusViewInput::TimerTick => self.tick(r.elapsed_seconds),
            StatusViewInput::PreflightResult(s) => {
                self.preflight_status = s;
                one(StatusEffect::RefreshIdle)
            },
            StatusViewInput::DismissBanner => {
                self.reboot_pending = false;
                self.preflight_status = PreflightStatus::UpToDate;
                one(StatusEffect::RefreshIdle)
            },
            StatusViewInput::HeroActionClicked => self.click_hero(),
            StatusViewInput::SettingsChanged(s) => self.set_switch(s.auto_updates),
            StatusViewInput::ScheduleRebootTonight => self.restart_at_night(),
            StatusViewInput::CopyLog => self.copy_log(r.display),
            StatusViewInput::ShowPage(page) => self.show_page(page),
            StatusViewInput::SaveRegistryUri(uri) => self.save_uri(uri),
            StatusViewInput::SelectTag(tag) => self.select_tag(tag),
            StatusViewInput::TogglePin(action) => self.toggle(action),
            StatusViewInput::RollbackTo(d) => self.ask_rollback(d),
            StatusViewInput::ConfirmRollback => self.confirm_rollback(),
            StatusViewInput::SetDefaultBoot(d) => one(
                say(text::cat3("Set ", d.tag.as_str(), " as default boot"), TOAST_TIMEOUT),
            ),
            StatusViewInput::SelectChangelogVersion(v) => self.show_changelog(v),
            StatusViewInput::RegistryVersionsLoaded(vs) => self.load_versions(vs),
            StatusViewInput::AvailableTagsLoaded(tags) => self.load_tags(tags),
            StatusViewInput::GithubCommitsLoaded(c) => {
                self.github_commits = c;
                one(StatusEffect::RebuildChangelog)
            },
            StatusViewInput::SbomDiffLoaded(d) => {
                self.sbom_diff = Some(d);
                one(StatusEffect::RebuildChangelog)
            },
            StatusViewInput::ModuleStarted(module) => self.start_module(module),
            StatusViewInput::ModuleFinished(module, s) => self.finish_module(module, s),
        }
    }
}

proof fn lemma_with_id_stays(ds: Seq<DeploymentView>, id: Seq<char>, n: int)
    requires
        0 <= n <= ds.len(),
        with_id(ds.take(n), id) >= 0,
    ensures
        with_id(ds, id) == with_id(ds.take(n), id),
    decreases ds.len() - n,
{
    if n < ds.len() {
        assert(ds.take(n + 1).drop_last() =~= ds.take(n));
        lemma_with_id_stays(ds, id, n + 1);
    } else {
        assert(ds.take(n) =~= ds);
    }
}

// ── Laws ─────────────────────────────────────────────────────────────────────

/// Selecting the tag that is selected already changes nothing and fetches
/// nothing, so that showing a fetched list of tags never starts another fetch.
pub proof fn law_showing_tags_fetches_nothing(m: StatusModel, tags: Seq<TagView>)
    ensures
        tag_selected(m, m.selected_tag) == (m, Seq::<EffectView>::empty()),
        tags_loaded(m, tags).0.selected_tag == m.selected_tag,
        tags_loaded(m, tags).1.len() == 1,
        tags.map_values(|t: TagView| t.raw).contains(m.selected_tag) ==> {
            let i = position_or_first(tags.map_values(|t: TagView| t.raw), m.selected_tag);
            0 <= i < tags.len() && tags[i].raw == m.selected_tag
        },
{
    let raws = tags.map_values(|t: TagView| t.raw);
    if raws.contains(m.selected_tag) {
        lemma_first_position(raws, m.selected_tag);
    }
}

proof fn lemma_first_position(list: Seq<Seq<char>>, s: Seq<char>)
    requires
        list.contains(s),
    ensures
        0 <= first_position(list, s) < list.len(),
        list[first_position(list, s)] == s,
    decreases list.len(),
{
    if list[0] != s {
        let rest = list.drop_first();
        let w = choose|w: int| 0 <= w < list.len() && list[w] == s;
        assert(rest[w - 1] == s);
        lemma_first_position(rest, s);
        assert(rest[first_position(rest, s)] == list[1 + first_position(rest, s)]);
    }
}

/// The history keeps what is on disk in front, adds only builds that are not on
/// disk, and adds none beyond the cap.
pub proof fn law_history_keeps_what_is_on_disk(
    rows: Seq<DeploymentView>,
    local: Seq<DeploymentView>,
    versions: Seq<VersionView>,
    title: Option<Seq<char>>,
    uri: Seq<char>,
)
    ensures
        ({
            let all = with_remote(rows, local, versions, title, uri);
            &&& rows.len() <= all.len()
            &&& all.take(rows.len() as int) == rows
            &&& all.len() <= rows.len() || all.len() <= HISTORY_MAX
            &&& forall|i: int|
                rows.len() <= i < all.len() ==> (#[trigger] all[i]).state == "remote"@ && !has_tag(
                    local,
                    all[i].tag,
                )
        }),
    decreases versions.len(),
{
    let all = with_remote(rows, local, versions, title, uri);
    if versions.len() == 0 || rows.len() >= HISTORY_MAX {
        assert(all.take(rows.len() as int) =~= rows);
    } else {
        let v = versions.last();
        let next = if has_tag(local, v.version) {
            rows
        } else {
            rows.push(remote_row(v, title, uri))
        };
        law_history_keeps_what_is_on_disk(next, local, versions.drop_last(), title, uri);
        assert(all.take(next.len() as int) == next);
        assert(all.take(rows.len() as int) =~= next.take(rows.len() as int));
        assert(next.take(rows.len() as int) =~= rows);
        assert forall|i: int| rows.len() <= i < all.len() implies (#[trigger] all[i]).state
            == "remote"@ && !has_tag(local, all[i].tag) by {
            if i < next.len() {
                assert(all[i] == all.take(next.len() as int)[i]);
            }
        }
    }
}

/// After builds arrived, all builds stand in order of date, and the changelog
/// shows one that none is newer than.
pub proof fn law_changelog_shows_the_newest_build(m: StatusModel, incoming: Seq<VersionView>)
    ensures
        ({
            let after = versions_loaded(m, incoming).0;
            &&& crate::registry_client::is_by_date(after.versions, false)
            &&& after.versions.len() > 0 ==> after.changelog_version == after.versions.last().version
                && forall|i: int|
                0 <= i < after.versions.len() ==> !crate::calendar::earlier(
                    after.versions.last().date,
                    (#[trigger] after.versions[i]).date,
                )
        }),
{
    let merged = m.versions + new_versions(m.versions, incoming);
    crate::registry_client::law_by_date_is_stable(merged, false);
    let vs = by_date(merged, false);
    assert forall|i: int| 0 <= i < vs.len() implies !crate::calendar::earlier(
        vs.last().date,
        (#[trigger] vs[i]).date,
    ) by {
        if i < vs.len() - 1 {
            assert(!crate::registry_client::in_front(
                vs[vs.len() - 1].date,
                vs[i].date,
                false,
            ));
        }
    }
}

/// Builds that are known already are not added again.
pub proof fn law_known_builds_are_not_added(known: Seq<VersionView>, incoming: Seq<VersionView>)
    requires
        forall|i: int|
            0 <= i < incoming.len() ==> has_version(known, (#[trigger] incoming[i]).version),
    ensures
        new_versions(known, incoming).len() == 0,
    decreases incoming.len(),
{
    if incoming.len() > 0 {
        let init = incoming.drop_last();
        assert forall|i: int| 0 <= i < init.len() implies has_version(
            known,
            (#[trigger] init[i]).version,
        ) by {
            assert(init[i] == incoming[i]);
        }
        law_known_builds_are_not_added(known, init);
        assert(has_version(known, incoming[incoming.len() - 1].version));
    }
}

proof fn lemma_versions_push(vs: Seq<VersionView>, v: VersionView)
    ensures
        forall|w: Seq<char>| #[trigger]
            has_version(vs.push(v), w) == (has_version(vs, w) || w == v.version),
        distinct_versions(vs.push(v)) == (distinct_versions(vs) && !has_version(vs, v.version)),
{
    let all = vs.push(v);
    assert forall|w: Seq<char>| #[trigger]
        has_version(all, w) == (has_version(vs, w) || w == v.version) by {
        assert(all[vs.len() as int] == v);
        if has_version(vs, w) {
            let i = choose|i: int| 0 <= i < vs.len() && (#[trigger] vs[i]).version == w;
            assert(all[i].version == w);
        }
        if has_version(all, w) {
            let i = choose|i: int| 0 <= i < all.len() && (#[trigger] all[i]).version == w;
            assert(i < vs.len() ==> vs[i].version == w);
        }
    }
    if distinct_versions(all) {
        assert forall|i: int, j: int| 0 <= i < j < vs.len() implies (#[trigger] vs[i]).version != (
        #[trigger] vs[j]).version by {
            assert(all[i].version != all[j].version);
        }
        assert forall|i: int| 0 <= i < vs.len() implies (#[trigger] vs[i]).version != v.version by {
            assert(all[i].version != all[vs.len() as int].version);
        }
    }
}

proof fn lemma_placed_versions(vs: Seq<VersionView>, v: VersionView, newest_first: bool)
    ensures
        forall|w: Seq<char>| #[trigger]
            has_version(placed(vs, v, newest_first), w) == (has_version(vs, w) || w == v.version),
        distinct_versions(vs.push(v)) ==> distinct_versions(placed(vs, v, newest_first)),
    decreases vs.len(),
{
    lemma_versions_push(vs, v);
    if vs.len() > 0 && in_front(v.date, vs.last().date, newest_first) {
        let front = vs.drop_last();
        assert(vs =~= front.push(vs.last()));
        lemma_versions_push(front, v);
        lemma_versions_push(front, vs.last());
        lemma_placed_versions(front, v, newest_first);
        lemma_versions_push(placed(front, v, newest_first), vs.last());
    }
}

proof fn lemma_by_date_versions(vs: Seq<VersionView>, newest_first: bool)
    ensures
        forall|w: Seq<char>| #[trigger]
            has_version(by_date(vs, newest_first), w) == has_version(vs, w),
        distinct_versions(vs) ==> distinct_versions(by_date(vs, newest_first)),
    decreases vs.len(),
{
    if vs.len() > 0 {
        let front = vs.drop_last();
        assert(vs =~= front.push(vs.last()));
        lemma_versions_push(front, vs.last());
        lemma_by_date_versions(front, newest_first);
        lemma_versions_push(by_date(front, newest_first), vs.last());
        lemma_placed_versions(by_date(front, newest_first), vs.last(), newest_first);
    }
}

proof fn lemma_new_versions(known: Seq<VersionView>, incoming: Seq<VersionView>)
    ensures
        forall|w: Seq<char>| #[trigger]
            has_version(known + new_versions(known, incoming), w) == (has_version(known, w)
                || has_version(incoming, w)),
        distinct_versions(known) ==> distinct_versions(known + new_versions(known, incoming)),
        forall|i: int|
            0 <= i < new_versions(known, incoming).len() ==> incoming.contains(
                #[trigger] new_versions(known, incoming)[i],
            ),
    decreases incoming.len(),
{
    if incoming.len() == 0 {
        assert(known + new_versions(known, incoming) =~= known);
    } else {
        let front = incoming.drop_last();
        let last = incoming.last();
        let rest = new_versions(known, front);
        lemma_new_versions(known, front);
        assert(incoming =~= front.push(last));
        lemma_versions_push(front, last);
        lemma_versions_push(known + rest, last);
        assert(known + rest.push(last) =~= (known + rest).push(last));
        assert forall|i: int| 0 <= i < new_versions(known, incoming).len() implies incoming.contains(
            #[trigger] new_versions(known, incoming)[i],
        ) by {
            if i < rest.len() {
                let k = choose|k: int| 0 <= k < front.len() && front[k] == rest[i];
                assert(incoming[k] == rest[i]);
            } else {
                assert(incoming[incoming.len() - 1] == last);
            }
        }
    }
}

/// Loading builds keeps those that are there, lists every version that came, and
/// lists no other; what it adds came in. Where no version occurs twice, none does
/// afterwards, however often it came.
pub proof fn law_versions_stay_distinct(m: StatusModel, incoming: Seq<VersionView>)
    ensures
        ({
            let after = versions_loaded(m, incoming).0.versions;
            &&& distinct_versions(m.versions) ==> distinct_versions(after)
            &&& forall|w: Seq<char>| #[trigger]
                has_version(after, w) == (has_version(m.versions, w) || has_version(incoming, w))
            &&& forall|i: int|
                0 <= i < m.versions.len() ==> after.contains(#[trigger] m.versions[i])
            &&& forall|i: int|
                0 <= i < after.len() ==> m.versions.contains(#[trigger] after[i])
                    || incoming.contains(after[i])
        }),
{
    let added = new_versions(m.versions, incoming);
    let merged = m.versions + added;
    let after = by_date(merged, false);
    lemma_new_versions(m.versions, incoming);
    lemma_by_date_versions(merged, false);
    crate::registry_client::law_by_date_is_stable(merged, false);
    merged.to_multiset_ensures();
    after.to_multiset_ensures();
    assert forall|i: int| 0 <= i < m.versions.len() implies after.contains(
        #[trigger] m.versions[i],
    ) by {
        assert(merged[i] == m.versions[i]);
        assert(merged.to_multiset().contains(merged[i]));
    }
    assert forall|i: int| 0 <= i < after.len() implies m.versions.contains(#[trigger] after[i])
        || incoming.contains(after[i]) by {
        assert(after.to_multiset().contains(after[i]));
        let k = choose|k: int| 0 <= k < merged.len() && merged[k] == after[i];
        if k < m.versions.len() {
            assert(m.versions[k] == after[i]);
        } else {
            assert(added[k - m.versions.len()] == after[i]);
        }
    }
}

/// Expanding a row twice folds it again.
pub proof fn law_row_folds_again(m: StatusModel, id: Seq<char>)
    requires
        m.expanded is None || m.expanded == Some(id),
    ensures
        row_toggled(row_toggled(m, id).0, id).0 == m,
{
    assert(row_toggled(row_toggled(m, id).0, id).0 =~= m);
}

/// Pinning twice changes nothing.
pub proof fn law_pin_twice_changes_nothing(m: StatusModel, id: Seq<char>)
    ensures
        pin_toggled(pin_toggled(m, id).0, id).0 == m,
{
    let once = pin_toggled(m, id).0;
    let i = with_id(m.deployments, id);
    lemma_with_id(m.deployments, id);
    if i >= 0 {
        lemma_with_id_same(m.deployments, once.deployments, id);
        assert(pin_toggled(once, id).0.deployments =~= m.deployments);
    }
}

proof fn lemma_with_id(ds: Seq<DeploymentView>, id: Seq<char>)
    ensures
        -1 <= with_id(ds, id) < ds.len(),
    decreases ds.len(),
{
    if ds.len() > 0 {
        lemma_with_id(ds.drop_last(), id);
    }
}

proof fn lemma_with_id_same(a: Seq<DeploymentView>, b: Seq<DeploymentView>, id: Seq<char>)
    requires
        a.len() == b.len(),
        forall|i: int| 0 <= i < a.len() ==> (#[trigger] a[i]).id == b[i].id,
    ensures
        with_id(a, id) == with_id(b, id),
    decreases a.len(),
{
    if a.len() > 0 {
        assert forall|i: int| 0 <= i < a.drop_last().len() implies (#[trigger] a.drop_last()[i]).id
            == b.drop_last()[i].id by {
            assert(a[i].id == b[i].id);
        }
        lemma_with_id_same(a.drop_last(), b.drop_last(), id);
        assert(a[a.len() - 1].id == b[b.len() - 1].id);
    }
}

/// After an update completed the button restarts; once the banner is dismissed,
/// or the next update starts, it updates.
pub proof fn law_button_follows_the_staged_image(m: StatusModel, ds: Seq<DeploymentView>)
    ensures
        hero_clicked(completed(m, ds).0).1 == seq![EffectView::Output(OutputView::Reboot)],
        hero_clicked(dismissed(m).0).1 == seq![EffectView::Output(OutputView::StartUpdate)],
        hero_clicked(started(m).0).1 == seq![EffectView::Output(OutputView::StartUpdate)],
{
}

/// A roll back that was asked for is confirmed once.
pub proof fn law_rollback_is_confirmed_once(m: StatusModel, d: DeploymentView)
    ensures
        rollback_confirmed(rollback_asked(m, d).0).1 == seq![
            EffectView::Say(toast("Rolling back to "@ + d.tag + "…"@, TOAST_TIMEOUT)),
        ],
        rollback_confirmed(rollback_confirmed(rollback_asked(m, d).0).0).1 == Seq::<
            EffectView,
        >::empty(),
{
}

/// A module that fails while an update runs leaves its segment failed, whatever
/// the run ends with, until the next update starts.
pub proof fn law_failure_stays_visible(
    m: StatusModel,
    module: Module,
    code: i32,
    next: Module,
    ds: Seq<DeploymentView>,
    error: Seq<char>,
)
    ensures
        ({
            let after = module_finished(m, module, ModuleStatus::Failed(code)).0;
            let i = segment_of(module_key(module));
            &&& i is Some
            &&& crate::ui::segmented_progress::segment(after.bar, i->0)
                == crate::ui::segmented_progress::SegStatus::Failed
            &&& crate::ui::segmented_progress::segment(module_started(after, next).0.bar, i->0)
                == crate::ui::segmented_progress::SegStatus::Failed
            &&& crate::ui::segmented_progress::segment(completed(after, ds).0.bar, i->0)
                == crate::ui::segmented_progress::SegStatus::Failed
            &&& crate::ui::segmented_progress::segment(failed(after, error).0.bar, i->0)
                == crate::ui::segmented_progress::SegStatus::Failed
        }),
{
    crate::orchestrator::law_module_keys_round_trip(module);
}

// ── What the messages are for ────────────────────────────────────────────────

/// The view shows the state that it is told. An update runs exactly while it is told so.
/// A restart is due once an update completed, and no longer once another starts or there
/// is nothing new; a failure leaves that as it is and is told in its own words.
pub proof fn law_view_shows_the_state(m: StatusModel, s: StateView, r: Readings)
    ensures
        ({
            let (after, effects) = status_step(m, InputView::StateChanged(s), r);
            &&& after.state == s
            &&& after.updating <==> s is Updating
            &&& s is Complete ==> after.reboot_pending && after.deployments
                == r.deployments.deep_view() && after.preflight == PreflightStatus::UpToDate
            &&& s is Updating || s is UpToDate ==> !after.reboot_pending
            &&& s is Error || s is Idle ==> after.reboot_pending == m.reboot_pending
                && after.preflight == m.preflight
            &&& s is UpToDate ==> after.preflight == PreflightStatus::UpToDate
            &&& s matches StateView::Error(e) ==> effects.contains(
                EffectView::SetErrorDescription(e),
            ) && effects.contains(EffectView::UpdateList(ListInputView::MarkCurrentFailed))
            &&& s is Updating ==> effects.contains(EffectView::UpdateList(ListInputView::Reset))
                && after.bar == empty_bar()
            &&& s is Complete ==> effects.contains(
                EffectView::UpdateList(ListInputView::MarkAllComplete),
            )
            &&& !(s is Complete) ==> after.deployments == m.deployments
            &&& after.log_text == m.log_text
            &&& after.registry_uri == m.registry_uri
            &&& after.selected_tag == m.selected_tag
        }),
{
    let effects = status_step(m, InputView::StateChanged(s), r).1;
    match s {
        StateView::Error(e) => {
            assert(effects[1] == EffectView::UpdateList(ListInputView::MarkCurrentFailed));
            assert(effects[2] == EffectView::SetErrorDescription(e));
        },
        StateView::Updating => {
            assert(effects[2] == EffectView::UpdateList(ListInputView::Reset));
        },
        StateView::Complete => {
            assert(effects[1] == EffectView::UpdateList(ListInputView::MarkAllComplete));
        },
        _ => {},
    }
}

/// A line is added to the log whole, on a line of its own, and the list of modules reads
/// it; the log is copied whole, and cleared whole.
pub proof fn law_log_keeps_every_line(m: StatusModel, line: Seq<char>, r: Readings)
    ensures
        ({
            let (after, effects) = status_step(m, InputView::AppendLog(line), r);
            &&& m.log_text.len() == 0 ==> after.log_text == line
            &&& m.log_text.len() > 0 ==> after.log_text == m.log_text.push('\n') + line
            &&& effects.contains(EffectView::UpdateList(ListInputView::ProcessLine(line)))
            &&& effects.contains(EffectView::LogAppend(line))
            &&& after.state == m.state && after.updating == m.updating
        }),
        r.display ==> status_step(m, InputView::CopyLog, r).1.contains(
            EffectView::CopyText(m.log_text),
        ),
        status_step(m, InputView::CopyLog, r).0 == m,
        status_step(m, InputView::ClearLog, r).0.log_text.len() == 0,
{
    reveal_strlit("\n");
    reveal_strlit("");
    let effects = status_step(m, InputView::AppendLog(line), r).1;
    assert(effects[0] == EffectView::UpdateList(ListInputView::ProcessLine(line)));
    assert(effects[1] == EffectView::LogAppend(line));
    assert(m.log_text + "\n"@ + line =~= m.log_text.push('\n') + line);
    if r.display {
        assert(status_step(m, InputView::CopyLog, r).1[0] == EffectView::CopyText(m.log_text));
    }
}

/// Each part of the view is changed by the messages that are for it, and by no other.
pub proof fn law_inputs_change_their_own_part(m: StatusModel, msg: InputView, r: Readings)
    ensures
        ({
            let after = status_step(m, msg, r).0;
            &&& after.registry_uri != m.registry_uri ==> msg is SaveRegistryUri
            &&& after.selected_tag != m.selected_tag ==> msg is SelectTag
            &&& after.log_text != m.log_text ==> msg is AppendLog || msg is ClearLog
            &&& after.state != m.state ==> msg is StateChanged
            &&& after.updating != m.updating ==> msg is StateChanged
            &&& after.reboot_pending != m.reboot_pending ==> msg is StateChanged
                || msg is DismissBanner
            &&& after.preflight != m.preflight ==> msg is StateChanged || msg is DismissBanner
                || msg is PreflightResult
            &&& after.versions != m.versions ==> msg is RegistryVersionsLoaded
            &&& after.changelog_version != m.changelog_version ==> msg is RegistryVersionsLoaded
                || msg is SelectChangelogVersion
            &&& after.deployments != m.deployments ==> msg is StateChanged || msg is TogglePin
                || msg is RegistryVersionsLoaded
            &&& after.rollback_target != m.rollback_target ==> msg is RollbackTo
                || msg is ConfirmRollback
            &&& after.auto_updates != m.auto_updates ==> msg is SettingsChanged
            &&& after.commits != m.commits ==> msg is GithubCommitsLoaded
            &&& after.sbom != m.sbom ==> msg is SbomDiffLoaded
            &&& after.tag_raws != m.tag_raws ==> msg is AvailableTagsLoaded
            &&& after.expanded != m.expanded ==> msg is TogglePin
            &&& msg matches InputView::PreflightResult(p) ==> after.preflight == p
            &&& msg matches InputView::SettingsChanged(s) ==> after.auto_updates == s.auto_updates
            &&& msg matches InputView::GithubCommitsLoaded(c) ==> after.commits == c
            &&& msg matches InputView::SbomDiffLoaded(d) ==> after.sbom == Some(d)
            &&& msg matches InputView::RollbackTo(d) ==> after.rollback_target == Some(d)
        }),
{
}

/// A registry address that is not blank is taken as it was written, and what it holds is
/// fetched for the tag that is selected; a blank one changes nothing. A tag that is
/// selected anew is taken, and fetched from the address that is set.
pub proof fn law_source_is_fetched_anew(m: StatusModel, uri: Seq<char>, tag: Seq<char>, r: Readings)
    ensures
        ({
            let (after, effects) = status_step(m, InputView::SaveRegistryUri(uri), r);
            if text::trimmed(uri).len() == 0 {
                after == m && effects.len() == 0
            } else {
                after == (StatusModel { registry_uri: uri, ..m }) && effects.contains(
                    EffectView::FetchChangelog(uri, m.selected_tag),
                )
            }
        }),
        ({
            let (after, effects) = status_step(m, InputView::SelectTag(tag), r);
            &&& after == (StatusModel { selected_tag: tag, ..m })
            &&& effects.contains(EffectView::FetchChangelog(m.registry_uri, tag)) <==> tag
                != m.selected_tag
        }),
{
    let a = status_step(m, InputView::SaveRegistryUri(uri), r).1;
    let b = status_step(m, InputView::SelectTag(tag), r);
    if text::trimmed(uri).len() > 0 {
        assert(a[3] == EffectView::FetchChangelog(uri, m.selected_tag));
    }
    if tag != m.selected_tag {
        assert(b.1[3] == EffectView::FetchChangelog(m.registry_uri, tag));
    } else {
        assert(b.0 =~= (StatusModel { selected_tag: tag, ..m }));
    }
}

/// Pinning a row flips its pin, and changes nothing else in it and no other row.
pub proof fn law_pin_is_of_one_row(m: StatusModel, i: int, j: int, r: Readings)
    requires
        0 <= i < m.deployments.len(),
        0 <= j < m.deployments.len(),
        forall|k: int|
            0 <= k < i ==> (#[trigger] m.deployments[k]).id != m.deployments[i].id,
        !text::begins(m.deployments[i].id, "expand:"@),
        m.deployments[i].id != "powerwash"@,
        m.deployments[i].id != "factory"@,
    ensures
        ({
            let after = status_step(m, InputView::TogglePin(m.deployments[i].id), r).0;
            &&& after.deployments.len() == m.deployments.len()
            &&& after.deployments[i] == (DeploymentView {
                pinned: !m.deployments[i].pinned,
                ..m.deployments[i]
            })
            &&& i != j ==> after.deployments[j] == m.deployments[j]
        }),
{
    lemma_first_with_id(m.deployments, i);
}

proof fn lemma_first_with_id(ds: Seq<DeploymentView>, i: int)
    requires
        0 <= i < ds.len(),
        forall|k: int| 0 <= k < i ==> (#[trigger] ds[k]).id != ds[i].id,
    ensures
        with_id(ds, ds[i].id) == i,
    decreases ds.len(),
{
    let front = ds.drop_last();
    if i < front.len() {
        assert forall|k: int| 0 <= k < i implies (#[trigger] front[k]).id != front[i].id by {
            assert(ds[k].id != ds[i].id);
        }
        lemma_first_with_id(front, i);
    } else {
        lemma_no_id(front, ds[i].id);
    }
}

proof fn lemma_no_id(ds: Seq<DeploymentView>, id: Seq<char>)
    requires
        forall|k: int| 0 <= k < ds.len() ==> (#[trigger] ds[k]).id != id,
    ensures
        with_id(ds, id) == -1,
    decreases ds.len(),
{
    if ds.len() > 0 {
        let front = ds.drop_last();
        assert forall|k: int| 0 <= k < front.len() implies (#[trigger] front[k]).id != id by {
            assert(ds[k].id != id);
        }
        lemma_no_id(front, id);
        assert(ds[ds.len() - 1].id != id);
    }
}

/// What erases something is asked about, and nothing else happens.
pub proof fn law_erasing_is_asked_about(m: StatusModel, r: Readings)
    ensures
        status_step(m, InputView::TogglePin("powerwash"@), r) == (
            m,
            seq![EffectView::AskPowerwash],
        ),
        status_step(m, InputView::TogglePin("factory"@), r) == (
            m,
            seq![EffectView::AskFactoryReset],
        ),
{
    reveal_strlit("powerwash");
    reveal_strlit("factory");
    reveal_strlit("expand:");
    assert("powerwash"@[0] == 'p' && "factory"@[0] == 'f' && "expand:"@[0] == 'e');
    assert("powerwash"@.subrange(0, 7)[0] == 'p');
    assert("factory"@.subrange(0, 7)[0] == 'f');
    assert("powerwash"@.len() != "factory"@.len());
}

/// The history tells of a build what the registry told of it, and starts with the newest
/// that is not on disk. As long as it is not full, no build that is not on disk is left
/// out.
pub proof fn law_history_tells_of_every_build(
    rows: Seq<DeploymentView>,
    local: Seq<DeploymentView>,
    versions: Seq<VersionView>,
    title: Option<Seq<char>>,
    uri: Seq<char>,
    k: int,
)
    requires
        0 <= k < versions.len(),
    ensures
        ({
            let all = with_remote(rows, local, versions, title, uri);
            &&& !has_tag(local, versions[k].version) && all.len() < HISTORY_MAX ==> exists|i: int|
                rows.len() <= i < all.len() && (#[trigger] all[i]).tag == versions[k].version
                    && all[i].digest == versions[k].revision && all[i].kernel == versions[k].kernel
                    && all[i].image == uri && !all[i].pinned
            &&& !has_tag(local, versions.last().version) && rows.len() < HISTORY_MAX ==> all.len()
                > rows.len() && all[rows.len() as int].tag == versions.last().version
        }),
    decreases versions.len(),
{
    let all = with_remote(rows, local, versions, title, uri);
    law_history_keeps_what_is_on_disk(rows, local, versions, title, uri);
    if rows.len() < HISTORY_MAX {
        let v = versions.last();
        let front = versions.drop_last();
        let next = if has_tag(local, v.version) {
            rows
        } else {
            rows.push(remote_row(v, title, uri))
        };
        law_history_keeps_what_is_on_disk(next, local, front, title, uri);
        assert(all.take(next.len() as int) == next);
        if !has_tag(local, v.version) {
            assert(all[rows.len() as int] == all.take(next.len() as int)[rows.len() as int]);
            assert(all[rows.len() as int] == remote_row(v, title, uri));
        }
        if k < front.len() {
            assert(front[k] == versions[k]);
            law_history_tells_of_every_build(next, local, front, title, uri, k);
        }
    }
}

/// The tags are shown in the order in which they came, and the one that is selected is
/// marked where it is among them; otherwise the first is.
pub proof fn law_selected_tag_is_marked(m: StatusModel, tags: Seq<TagView>, r: Readings)
    ensures
        ({
            let (after, effects) = status_step(m, InputView::AvailableTagsLoaded(tags), r);
            &&& after.tag_raws == tags.map_values(|t: TagView| t.raw)
            &&& effects.len() == 1
            &&& effects[0] matches EffectView::SetTags(shown, at, several) && shown
                == tags.map_values(|t: TagView| t.display) && (several <==> tags.len() > 1) && (
            after.tag_raws.contains(m.selected_tag) ==> 0 <= at < tags.len() && tags[at].raw
                == m.selected_tag) && (!after.tag_raws.contains(m.selected_tag) ==> at == 0)
        }),
{
    let raws = tags.map_values(|t: TagView| t.raw);
    if raws.contains(m.selected_tag) {
        lemma_first_position(raws, m.selected_tag);
    }
}

/// A version that is picked is the one whose changelog is shown; where none is picked,
/// the one that was shown stays.
pub proof fn law_picked_version_is_shown(m: StatusModel, version: Seq<char>, r: Readings)
    ensures
        ({
            let (after, effects) = status_step(m, InputView::SelectChangelogVersion(version), r);
            &&& version.len() > 0 ==> after.changelog_version == version
            &&& version.len() == 0 ==> after == m
            &&& effects.contains(EffectView::RebuildChangelog) <==> after.changelog_version
                != m.changelog_version
            &&& effects.contains(EffectView::ShowStack("changelog"@))
        }),
{
    let (after, effects) = status_step(m, InputView::SelectChangelogVersion(version), r);
    let n = effects.len() as int;
    assert(effects[n - 2] == EffectView::ShowStack("changelog"@));
    if after.changelog_version != m.changelog_version {
        assert(effects[0] == EffectView::RebuildChangelog);
    }
    if version.len() == 0 {
        assert(after =~= m);
    }
}

/// A module that starts is the active one, and the segment of the one before it is closed
/// unless it is the same; one that ended shows whether it failed.
pub proof fn law_bar_follows_the_modules(
    m: StatusModel,
    module: Module,
    status: ModuleStatus,
    r: Readings,
)
    ensures
        ({
            let after = status_step(m, InputView::ModuleStarted(module), r).0;
            let ended = status_step(m, InputView::ModuleFinished(module, status), r).0;
            &&& after.active_module == Some(module)
            &&& m.active_module is None ==> after.bar == bar_active(m.bar, module_key(module))
            &&& m.active_module matches Some(prev) ==> segment_of(module_key(prev)) == segment_of(
                module_key(module),
            ) ==> after.bar == m.bar
            &&& m.active_module matches Some(prev) ==> segment_of(module_key(prev)) != segment_of(
                module_key(module),
            ) ==> after.bar == bar_active(
                bar_complete(m.bar, module_key(prev)),
                module_key(module),
            )
            &&& status is Failed ==> ended.bar == bar_failed(m.bar, module_key(module))
            &&& !(status is Failed) ==> ended.bar == bar_complete(m.bar, module_key(module))
            &&& after.log_text == m.log_text && after.state == m.state
        }),
{
}

/// The time that an update takes is told in minutes and seconds, and only while one runs.
pub proof fn law_time_is_told_in_minutes(m: StatusModel, minutes: u64, seconds: u64, r: Readings)
    requires
        seconds < 60,
        minutes < 1_000_000,
        r.elapsed_seconds == minutes * 60 + seconds,
    ensures
        m.updating ==> status_step(m, InputView::TimerTick, r).1 == seq![
            EffectView::SetElapsed(
                text::decimal(minutes as nat) + ":"@ + (if seconds < 10 {
                    "0"@ + text::decimal(seconds as nat)
                } else {
                    text::decimal(seconds as nat)
                }),
            ),
        ],
        !m.updating ==> status_step(m, InputView::TimerTick, r).1.len() == 0,
        status_step(m, InputView::TimerTick, r).0 == m,
{
    reveal_strlit("0");
    assert("0"@ =~= seq!['0']);
    assert(r.elapsed_seconds / 60 == minutes && r.elapsed_seconds % 60 == seconds) by (nonlinear_arith)
        requires
            r.elapsed_seconds == minutes * 60 + seconds,
            seconds < 60,
    ;
}

/// A rollback names the image that it goes to, when it is asked about and when it is
/// confirmed, and is confirmed for the image that was asked about last.
pub proof fn law_rollback_names_its_target(m: StatusModel, d: DeploymentView, r: Readings)
    ensures
        ({
            let (after, effects) = status_step(m, InputView::RollbackTo(d), r);
            &&& effects.len() == 1
            &&& effects[0] matches EffectView::AskRollback(title, body) && text::holds(title, d.tag)
                && text::holds(body, d.image + ":"@ + d.tag)
            &&& status_step(after, InputView::ConfirmRollback, r).1.len() == 1
            &&& status_step(after, InputView::ConfirmRollback, r).1[0] matches EffectView::Say(t)
                && text::holds(t.text, d.tag)
        }),
        m.rollback_target is None ==> status_step(m, InputView::ConfirmRollback, r) == (
            m,
            Seq::<EffectView>::empty(),
        ),
{
    let title = "Roll back to "@ + d.tag + "?"@;
    let head = "Roll back to "@.len() as int;
    assert(title.subrange(head, head + d.tag.len() as int) =~= d.tag);
    assert(text::stands_at(title, d.tag, head));
    let named = d.image + ":"@ + d.tag;
    let body = "The next boot will use "@ + d.image + ":"@ + d.tag
        + ".\nYour current image stays on disk and remains available to roll forward."@;
    let at = "The next boot will use "@.len() as int;
    assert(body.subrange(at, at + named.len() as int) =~= named);
    assert(text::stands_at(body, named, at));
    let said = "Rolling back to "@ + d.tag + "…"@;
    let from = "Rolling back to "@.len() as int;
    assert(said.subrange(from, from + d.tag.len() as int) =~= d.tag);
    assert(text::stands_at(said, d.tag, from));
}

/// Where the history is full, it is the older builds that are left out: every build that it
/// shows is newer, by its place in the list, than one that is neither on disk nor shown.
pub proof fn law_older_builds_are_left_out(
    rows: Seq<DeploymentView>,
    local: Seq<DeploymentView>,
    versions: Seq<VersionView>,
    title: Option<Seq<char>>,
    uri: Seq<char>,
    l: int,
)
    requires
        0 <= l < versions.len(),
        !has_tag(local, versions[l].version),
    ensures
        ({
            let all = with_remote(rows, local, versions, title, uri);
            (exists|i: int|
                rows.len() <= i < all.len() && (#[trigger] all[i]).tag == versions[l].version)
                || forall|i: int|
                rows.len() <= i < all.len() ==> exists|k: int|
                    l < k < versions.len() && (#[trigger] versions[k]).version == (
                    #[trigger] all[i]).tag
        }),
    decreases versions.len(),
{
    let all = with_remote(rows, local, versions, title, uri);
    if rows.len() < HISTORY_MAX {
        let v = versions.last();
        let front = versions.drop_last();
        let next = if has_tag(local, v.version) {
            rows
        } else {
            rows.push(remote_row(v, title, uri))
        };
        law_history_keeps_what_is_on_disk(next, local, front, title, uri);
        assert(all.take(next.len() as int) == next);
        if l < front.len() {
            assert(front[l] == versions[l]);
            law_older_builds_are_left_out(next, local, front, title, uri, l);
            if exists|i: int|
                next.len() <= i < all.len() && (#[trigger] all[i]).tag == versions[l].version {
            } else {
                assert forall|i: int| rows.len() <= i < all.len() implies exists|k: int|
                    l < k < versions.len() && (#[trigger] versions[k]).version == (
                    #[trigger] all[i]).tag by {
                    if i < next.len() {
                        assert(all[i] == all.take(next.len() as int)[i]);
                        assert(versions[versions.len() - 1].version == all[i].tag);
                    } else {
                        let k = choose|k: int|
                            l < k < front.len() && (#[trigger] front[k]).version == all[i].tag;
                        assert(versions[k].version == all[i].tag);
                    }
                }
            }
        } else {
            assert(all[rows.len() as int] == all.take(next.len() as int)[rows.len() as int]);
            assert(all[rows.len() as int].tag == versions[l].version);
        }
    }
}

} // verus!
