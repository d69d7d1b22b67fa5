//! The pages of the main view: what each shows of the model.
use crate::app::PreflightStatus;
use crate::calendar::{digits_text, moment_long_text};
use crate::registry_client::{ImageVersion, VersionView};
use crate::sbom_diff::SbomView;
use crate::service::{ImageRef, ImageRefView};
use crate::text;
use crate::ui::deployments::{DeploymentView, MockDeployment};
use crate::ui::image_info::{
    detect_bootc_image_info, image_title, image_view, org_repo, parse_org_repo, read_image_info,
    system_name, OsRelease, OsReleaseView,
};
use crate::ui::status_view::{StatusModel, StatusView};
use vstd::prelude::*;

verus! {

// ── First page ───────────────────────────────────────────────────────────────

/// The banner below the image's name.
#[derive(Debug, PartialEq)]
pub struct Banner {
    pub title: String,
    pub subtitle: String,
    pub install: bool,
    pub whats_new: bool,
    pub restart: bool,
    pub discard: bool,
}

/// What the banner is.
#[verifier::ext_equal]
pub struct BannerView {
    pub title: Seq<char>,
    pub subtitle: Seq<char>,
    pub install: bool,
    pub whats_new: bool,
    pub restart: bool,
    pub discard: bool,
}

impl DeepView for Banner {
    type V = BannerView;

    open spec fn deep_view(&self) -> BannerView {
        BannerView {
            title: self.title@,
            subtitle: self.subtitle@,
            install: self.install,
            whats_new: self.whats_new,
            restart: self.restart,
            discard: self.discard,
        }
    }
}

/// What the first page shows: the image's name, the line below it, the pill with
/// its style, the two restart buttons, and the banner.
#[derive(Debug, PartialEq)]
pub struct IdlePanel {
    pub title: String,
    pub subtitle: String,
    pub pill_text: String,
    pub pill_class: String,
    pub pill_visible: bool,
    pub restart_buttons: bool,
    pub banner: Option<Banner>,
}

/// What that is.
#[verifier::ext_equal]
pub struct IdleView {
    pub title: Seq<char>,
    pub subtitle: Seq<char>,
    pub pill_text: Seq<char>,
    pub pill_class: Seq<char>,
    pub pill_visible: bool,
    pub restart_buttons: bool,
    pub banner: Option<BannerView>,
}

impl DeepView for IdlePanel {
    type V = IdleView;

    open spec fn deep_view(&self) -> IdleView {
        IdleView {
            title: self.title@,
            subtitle: self.subtitle@,
            pill_text: self.pill_text@,
            pill_class: self.pill_class@,
            pill_visible: self.pill_visible,
            restart_buttons: self.restart_buttons,
            banner: self.banner.deep_view(),
        }
    }
}

/// The name of the system on the first page.
pub open spec fn title_text(
    m: StatusModel,
    image: Option<ImageRefView>,
    os: OsReleaseView,
) -> Seq<char> {
    match m.image_info {
        Some(name) => name,
        None => match image {
            Some(i) => image_title(i).0,
            None => match system_name(os, image) {
                Some(name) => name,
                None => "System Image"@,
            },
        },
    }
}

/// The line below the name: a staged image first, then the booted one, then the
/// last update.
pub open spec fn subtitle_text(m: StatusModel, summary: Option<Seq<char>>) -> Seq<char> {
    if m.reboot_pending {
        "Reboot to update"@
    } else {
        match summary {
            Some(s) => s,
            None => match m.last_update {
                Some(s) => s,
                None => "Current image"@,
            },
        }
    }
}

/// The pill and its style.
pub open spec fn pill(m: StatusModel) -> (Seq<char>, Seq<char>) {
    if m.reboot_pending {
        ("Staged"@, "warning"@)
    } else {
        match m.preflight {
            PreflightStatus::UpdateAvailable => ("Update ready"@, "accent"@),
            PreflightStatus::UpToDate => ("Up to date"@, "success"@),
            PreflightStatus::Checking => ("Checking"@, "dim-label"@),
            PreflightStatus::Unknown => ("Ready"@, "dim-label"@),
        }
    }
}

/// The banner: a staged image first, then an available update.
pub open spec fn banner_of(m: StatusModel) -> Option<BannerView> {
    if m.reboot_pending {
        Some(
            BannerView {
                title: "Reboot to finish updating"@,
                subtitle: "A new image is staged and will be used on next boot."@,
                install: false,
                whats_new: false,
                restart: false,
                discard: true,
            },
        )
    } else if m.preflight == PreflightStatus::UpdateAvailable {
        Some(
            BannerView {
                title: "Update available"@,
                subtitle: "A new system image is ready to install."@,
                install: true,
                whats_new: true,
                restart: false,
                discard: false,
            },
        )
    } else {
        None
    }
}

/// What the first page shows.
pub open spec fn idle_view(
    m: StatusModel,
    image: Option<ImageRefView>,
    os: OsReleaseView,
    summary: Option<Seq<char>>,
) -> IdleView {
    IdleView {
        title: title_text(m, image, os),
        subtitle: subtitle_text(m, summary),
        pill_text: pill(m).0,
        pill_class: pill(m).1,
        pill_visible: !m.reboot_pending && m.preflight != PreflightStatus::UpdateAvailable,
        restart_buttons: m.reboot_pending,
        banner: banner_of(m),
    }
}

/// The pill, the restart buttons and an offer to install exclude each other, and
/// one of them is always there.
pub proof fn law_first_page_offers_one_thing(
    m: StatusModel,
    image: Option<ImageRefView>,
    os: OsReleaseView,
    summary: Option<Seq<char>>,
)
    ensures
        ({
            let shown = idle_view(m, image, os, summary);
            let offers = shown.banner matches Some(b) && b.install;
            &&& shown.pill_visible || shown.restart_buttons || offers
            &&& !(shown.pill_visible && shown.restart_buttons)
            &&& !(shown.pill_visible && offers)
            &&& !(shown.restart_buttons && offers)
        }),
{
}

// ── Changelog ────────────────────────────────────────────────────────────────

/// A button for a build.
#[derive(Debug, PartialEq)]
pub struct VersionPill {
    pub label: String,
    pub version: String,
    pub selected: bool,
}

/// What such a button is.
#[verifier::ext_equal]
pub struct VersionPillView {
    pub label: Seq<char>,
    pub version: Seq<char>,
    pub selected: bool,
}

impl DeepView for VersionPill {
    type V = VersionPillView;

    open spec fn deep_view(&self) -> VersionPillView {
        VersionPillView { label: self.label@, version: self.version@, selected: self.selected }
    }
}

/// A commit: short hash, message, author, and its page.
#[derive(Debug, PartialEq)]
pub struct CommitRow {
    pub sha: String,
    pub message: String,
    pub author: String,
    pub url: Option<String>,
}

/// What a commit is.
#[verifier::ext_equal]
pub struct CommitView {
    pub sha: Seq<char>,
    pub message: Seq<char>,
    pub author: Seq<char>,
    pub url: Option<Seq<char>>,
}

impl DeepView for CommitRow {
    type V = CommitView;

    open spec fn deep_view(&self) -> CommitView {
        CommitView {
            sha: self.sha@,
            message: self.message@,
            author: self.author@,
            url: self.url.deep_view(),
        }
    }
}

/// The mark behind a version.
#[derive(Debug, Clone, Copy, PartialEq, Eq, Structural)]
pub enum VersionMark {
    /// It is offered as an update.
    Update,
    /// The system is booted on it.
    Booted,
    Nothing,
}

/// What the changelog shows.
#[derive(Debug, PartialEq)]
pub struct ChangelogPage {
    /// Whether builds are still awaited.
    pub loading: bool,
    pub pills: Vec<VersionPill>,
    pub reference: String,
    pub mark: VersionMark,
    pub meta: String,
    pub summary: String,
    /// Name and version of each part of the stack.
    pub stack: Vec<(String, String)>,
    /// Name, old and new version of each package that changed.
    pub upgrades: Vec<(String, String, String)>,
    pub removals: Vec<String>,
    pub commits: Vec<CommitRow>,
}

/// What that is.
#[verifier::ext_equal]
pub struct ChangelogView {
    pub loading: bool,
    pub pills: Seq<VersionPillView>,
    pub reference: Seq<char>,
    pub mark: VersionMark,
    pub meta: Seq<char>,
    pub summary: Seq<char>,
    pub stack: Seq<(Seq<char>, Seq<char>)>,
    pub upgrades: Seq<(Seq<char>, Seq<char>, Seq<char>)>,
    pub removals: Seq<Seq<char>>,
    pub commits: Seq<CommitView>,
}

impl DeepView for ChangelogPage {
    type V = ChangelogView;

    open spec fn deep_view(&self) -> ChangelogView {
        ChangelogView {
            loading: self.loading,
            pills: self.pills.deep_view(),
            reference: self.reference@,
            mark: self.mark,
            meta: self.meta@,
            summary: self.summary@,
            stack: self.stack.deep_view(),
            upgrades: self.upgrades.deep_view(),
            removals: self.removals.deep_view(),
            commits: self.commits.deep_view(),
        }
    }
}

/// A hash, cut to its first seven bytes.
pub open spec fn short_hash(sha: Seq<char>) -> Seq<char> {
    if text::byte_len(sha) >= 7 {
        text::first_bytes(sha, 7)
    } else {
        sha
    }
}

/// A hash, cut to its first seven bytes.
pub fn short_sha(sha: &str) -> (r: String)
    requires
        text::cuts(sha@, 7),
    ensures
        r@ == short_hash(sha@),
{
    match text::cut(sha, 7) {
        Some(head) => head,
        None => sha.to_string(),
    }
}

/// The newest builds, newest first, at most `n`. `versions` is in order of date,
/// oldest first.
pub open spec fn newest_pills(versions: Seq<VersionView>, selected: Seq<char>, n: nat) -> Seq<
    VersionPillView,
>
    decreases n,
{
    if versions.len() == 0 || n == 0 {
        Seq::empty()
    } else {
        let v = versions.last();
        seq![
            VersionPillView {
                label: digits_text(v.date),
                version: v.version,
                selected: v.version == selected,
            },
        ] + newest_pills(versions.drop_last(), selected, (n - 1) as nat)
    }
}

/// The first build with a version.
pub open spec fn build_of(versions: Seq<VersionView>, version: Seq<char>) -> Option<VersionView>
    decreases versions.len(),
{
    if versions.len() == 0 {
        None
    } else if versions[0].version == version {
        Some(versions[0])
    } else {
        build_of(versions.drop_first(), version)
    }
}

/// The mark behind a version.
pub open spec fn mark_of(m: StatusModel, build: Option<VersionView>, booted: Seq<char>) -> VersionMark {
    match build {
        None => VersionMark::Nothing,
        Some(v) => if v.version == booted {
            VersionMark::Booted
        } else if !m.reboot_pending && m.preflight == PreflightStatus::UpdateAvailable {
            VersionMark::Update
        } else {
            VersionMark::Nothing
        },
    }
}

/// The words on a build.
pub open spec fn build_summary(build: Option<VersionView>, booted: Seq<char>) -> Seq<char> {
    match build {
        None => ""@,
        Some(v) => if v.version == booted {
            "Currently booted. Kernel "@ + v.kernel + " · stable point release."@
        } else {
            "Image build. Kernel "@ + v.kernel + " · git commit "@ + short_hash(v.revision) + "."@
        },
    }
}

/// Name, old and new version of each package that changed: upgraded ones, then
/// added ones.
pub open spec fn changed_packages(diff: SbomView) -> Seq<(Seq<char>, Seq<char>, Seq<char>)> {
    diff.upgraded.map_values(
        |p: crate::sbom_diff::PackageDiffView| (p.name, p.old_version, p.new_version),
    ) + diff.added.map_values(
        |p: crate::sbom_diff::PackageDiffView| (p.name, "(added)"@, p.new_version),
    )
}

/// The page of a repository on GitHub.
pub open spec fn github_page(uri: Seq<char>) -> Option<Seq<char>> {
    match org_repo(uri) {
        Some((org, repo)) => Some("https://github.com/"@ + org + "/"@ + repo),
        None => None,
    }
}

/// A commit as it is shown.
pub open spec fn commit_of(c: (Seq<char>, Seq<char>, Seq<char>), page: Option<Seq<char>>) -> CommitView {
    CommitView {
        sha: short_hash(c.0),
        message: c.1,
        author: c.2,
        url: match page {
            Some(base) => Some(base + "/commit/"@ + c.0),
            None => None,
        },
    }
}

/// Whether every hash that the changelog shows can be cut: that of each commit,
/// and that of the selected build where it is not the booted one.
pub open spec fn hashes_cut(m: StatusModel, booted: Seq<char>) -> bool {
    &&& forall|i: int| 0 <= i < m.commits.len() ==> text::cuts((#[trigger] m.commits[i]).0, 7)
    &&& build_of(m.versions, m.changelog_version) matches Some(v) ==> v.version != booted
        ==> text::cuts(v.revision, 7)
}

/// What the changelog shows, where the system is booted on a tag.
pub open spec fn changelog_view(m: StatusModel, booted: Seq<char>) -> ChangelogView {
    let build = build_of(m.versions, m.changelog_version);
    ChangelogView {
        loading: m.versions.len() == 0,
        pills: newest_pills(m.versions, m.changelog_version, 4),
        reference: m.registry_uri + ":"@ + m.changelog_version,
        mark: mark_of(m, build, booted),
        meta: m.changelog_version + "  ·  "@ + match build {
            Some(v) => moment_long_text(v.created),
            None => ""@,
        },
        summary: build_summary(build, booted),
        stack: match build {
            Some(v) => seq![("Kernel"@, v.kernel)],
            None => Seq::empty(),
        },
        upgrades: match m.sbom {
            Some(diff) => changed_packages(diff),
            None => Seq::empty(),
        },
        removals: match m.sbom {
            Some(diff) => diff.removed,
            None => Seq::empty(),
        },
        commits: m.commits.map_values(
            |c: (Seq<char>, Seq<char>, Seq<char>)| commit_of(c, github_page(m.registry_uri)),
        ),
    }
}

/// Title of the changed packages.
pub fn upgrades_title(n: usize) -> (r: String)
    ensures
        r@ == "Updated  ·  "@ + text::decimal(n as nat),
{
    let count: String = text::number(n as u64);
    text::cat2("Updated  ·  ", count.as_str())
}

/// Title of the removed packages.
pub fn removals_title(n: usize) -> (r: String)
    ensures
        r@ == "Removed  ·  "@ + text::decimal(n as nat),
{
    let count: String = text::number(n as u64);
    text::cat2("Removed  ·  ", count.as_str())
}

// ── History ──────────────────────────────────────────────────────────────────

/// What can be done with a row beside pinning it.
#[derive(Debug, Clone, Copy, PartialEq, Eq, Structural)]
pub enum RowAction {
    Pull,
    RollBack,
    Nothing,
}

/// A row of the history.
#[derive(Debug, PartialEq)]
pub struct HistoryRow {
    pub id: String,
    pub indicator: String,
    pub title: String,
    /// Name and style of the mark behind the title.
    pub badge: Option<(String, String)>,
    pub pinned: bool,
    pub submeta: String,
    pub pin_tooltip: String,
    pub can_pin: bool,
    pub action: RowAction,
    pub expanded: bool,
    pub chevron: String,
    pub fields: Vec<(String, String)>,
    pub can_set_default: bool,
}

/// What a row is.
#[verifier::ext_equal]
pub struct HistoryRowView {
    pub id: Seq<char>,
    pub indicator: Seq<char>,
    pub title: Seq<char>,
    pub badge: Option<(Seq<char>, Seq<char>)>,
    pub pinned: bool,
    pub submeta: Seq<char>,
    pub pin_tooltip: Seq<char>,
    pub can_pin: bool,
    pub action: RowAction,
    pub expanded: bool,
    pub chevron: Seq<char>,
    pub fields: Seq<(Seq<char>, Seq<char>)>,
    pub can_set_default: bool,
}

impl DeepView for HistoryRow {
    type V = HistoryRowView;

    open spec fn deep_view(&self) -> HistoryRowView {
        HistoryRowView {
            id: self.id@,
            indicator: self.indicator@,
            title: self.title@,
            badge: self.badge.deep_view(),
            pinned: self.pinned,
            submeta: self.submeta@,
            pin_tooltip: self.pin_tooltip@,
            can_pin: self.can_pin,
            action: self.action,
            expanded: self.expanded,
            chevron: self.chevron@,
            fields: self.fields.deep_view(),
            can_set_default: self.can_set_default,
        }
    }
}

/// Style of the dot of a row.
pub open spec fn indicator_of(state: Seq<char>) -> Seq<char> {
    if state == "current"@ {
        "deploy-indicator-current"@
    } else if state == "staged"@ || state == "remote"@ {
        "deploy-indicator-staged"@
    } else {
        "deploy-indicator-archive"@
    }
}

/// The mark of a row.
pub open spec fn badge_of(state: Seq<char>) -> Option<(Seq<char>, Seq<char>)> {
    if state == "current"@ {
        Some(("Booted"@, "success"@))
    } else if state == "staged"@ {
        Some(("Staged"@, "accent"@))
    } else if state == "remote"@ {
        Some(("Remote"@, "accent"@))
    } else {
        None
    }
}

/// What can be done with a row.
pub open spec fn action_of(state: Seq<char>) -> RowAction {
    if state == "remote"@ {
        RowAction::Pull
    } else if state != "current"@ && state != "staged"@ {
        RowAction::RollBack
    } else {
        RowAction::Nothing
    }
}

/// A digest, cut to its first twelve bytes.
pub open spec fn short_digest(digest: Seq<char>) -> Seq<char> {
    if text::byte_len(digest) >= 12 {
        text::first_bytes(digest, 12)
    } else {
        digest
    }
}

/// Whether every digest of the history can be cut.
pub open spec fn digests_cut(ds: Seq<DeploymentView>) -> bool {
    forall|i: int| 0 <= i < ds.len() ==> text::cuts((#[trigger] ds[i]).digest, 12)
}

/// A row of the history.
pub open spec fn row_view(d: DeploymentView, expanded: Option<Seq<char>>) -> HistoryRowView {
    HistoryRowView {
        id: d.id,
        indicator: indicator_of(d.state),
        title: d.title,
        badge: badge_of(d.state),
        pinned: d.pinned,
        submeta: d.image + ":"@ + d.tag + "  ·  "@ + short_digest(d.digest) + "…  ·  "@ + d.deployed,
        pin_tooltip: if d.pinned {
            "Unpin"@
        } else {
            "Pin"@
        },
        can_pin: d.state != "remote"@,
        action: action_of(d.state),
        expanded: expanded == Some(d.id),
        chevron: if expanded == Some(d.id) {
            "go-up-symbolic"@
        } else {
            "go-down-symbolic"@
        },
        fields: seq![
            ("Image"@, d.image),
            ("Tag"@, d.tag),
            ("Digest"@, d.digest),
            ("Deployed"@, d.deployed_full),
            ("Kernel"@, d.kernel),
            ("Packages"@, text::decimal(d.package_count as nat) + " installed"@),
            ("Signature"@, "✓ Verified  ·  "@ + d.signer),
        ],
        can_set_default: d.state != "current"@ && d.state != "remote"@,
    }
}

/// The history.
pub open spec fn history_view(ds: Seq<DeploymentView>, expanded: Option<Seq<char>>) -> Seq<
    HistoryRowView,
> {
    ds.map_values(|d: DeploymentView| row_view(d, expanded))
}

/// The number of images, in words.
pub fn images_count(n: usize) -> (r: String)
    ensures
        r@ == text::decimal(n as nat) + " images"@,
{
    let count: String = text::number(n as u64);
    text::cat2(count.as_str(), " images")
}

// ── Showing ──────────────────────────────────────────────────────────────────

fn pills_of(versions: &Vec<ImageVersion>, selected: &str) -> (r: Vec<VersionPill>)
    ensures
        r.deep_view() == newest_pills(versions.deep_view(), selected@, 4),
{
    let ghost all = versions.deep_view();
    let mut out: Vec<VersionPill> = Vec::new();
    let mut i: usize = versions.len();
    let mut left: usize = 4;
    assert(all.take(i as int) =~= all);
    assert(out.deep_view() + newest_pills(all, selected@, 4) =~= newest_pills(all, selected@, 4));
    while i > 0 && left > 0
        invariant
            i <= versions@.len(),
            left <= 4,
            all == versions.deep_view(),
            out.deep_view() + newest_pills(all.take(i as int), selected@, left as nat)
                == newest_pills(all, selected@, 4),
        decreases i,
    {
        let v: &ImageVersion = &versions[i - 1];
        let p: VersionPill = VersionPill {
            label: v.date.digits(),
            version: v.version.clone(),
            selected: text::same(v.version.as_str(), selected),
        };
        let ghost before = out.deep_view();
        let ghost pv = p.deep_view();
        out.push(p);
        assert(out.deep_view() =~= before.push(pv));
        proof {
            let now = all.take(i as int);
            assert(now.last() == v.deep_view());
            assert(now.drop_last() =~= all.take(i - 1));
            let rest = newest_pills(all.take(i - 1), selected@, (left - 1) as nat);
            assert(newest_pills(now, selected@, left as nat) == seq![pv] + rest);
            assert(before + (seq![pv] + rest) =~= before.push(pv) + rest);
        }
        i -= 1;
        left -= 1;
    }
    assert(newest_pills(all.take(i as int), selected@, left as nat) =~= Seq::<
        VersionPillView,
    >::empty());
    assert(out.deep_view() + Seq::<VersionPillView>::empty() =~= out.deep_view());
    out
}

/// The first build with a version.
pub fn find_build<'a>(versions: &'a Vec<ImageVersion>, version: &str) -> (r: Option<&'a ImageVersion>)
    ensures
        match r {
            Some(v) => build_of(versions.deep_view(), version@) == Some(v.deep_view()),
            None => build_of(versions.deep_view(), version@) is None,
        },
{
    let ghost all = versions.deep_view();
    assert(all.skip(0) =~= all);
    let mut i: usize = 0;
    while i < versions.len()
        invariant
            0 <= i <= versions@.len(),
            all == versions.deep_view(),
            build_of(all, version@) == build_of(all.skip(i as int), version@),
        decreases versions@.len() - i,
    {
        assert(all.skip(i as int)[0] == versions@[i as int].deep_view());
        assert(all.skip(i as int).drop_first() =~= all.skip(i + 1));
        if text::same(versions[i].version.as_str(), version) {
            assert(versions.deep_view()[i as int] == versions@[i as int].deep_view());
            return Some(&versions[i]);
        }
        i += 1;
    }
    None
}

fn packages_of(diff: &crate::sbom_diff::SbomDiffResult) -> (r: Vec<(String, String, String)>)
    ensures
        r.deep_view() == changed_packages(diff.deep_view()),
{
    let ghost up = diff.upgraded.deep_view();
    let ghost new = diff.added.deep_view();
    let ghost want = changed_packages(diff.deep_view());
    let mut out: Vec<(String, String, String)> = Vec::new();
    let mut i: usize = 0;
    while i < diff.upgraded.len()
        invariant
            0 <= i <= diff.upgraded@.len(),
            up == diff.upgraded.deep_view(),
            want == changed_packages(diff.deep_view()),
            out.deep_view() == want.take(i as int),
        decreases diff.upgraded@.len() - i,
    {
        let p: &crate::sbom_diff::PackageDiff = &diff.upgraded[i];
        let row: (String, String, String) = (
            p.name.clone(),
            p.old_version.clone(),
            p.new_version.clone(),
        );
        let ghost before = out.deep_view();
        let ghost rv = row.deep_view();
        assert(want[i as int] == (up[i as int].name, up[i as int].old_version, up[i as int].new_version));
        assert(rv == want[i as int]);
        out.push(row);
        assert(out.deep_view() =~= before.push(rv));
        i += 1;
        assert(want.take(i as int) =~= before.push(rv));
    }
    let n: usize = diff.upgraded.len();
    let mut j: usize = 0;
    while j < diff.added.len()
        invariant
            0 <= j <= diff.added@.len(),
            n == diff.upgraded@.len(),
            new == diff.added.deep_view(),
            want == changed_packages(diff.deep_view()),
            out.deep_view() == want.take(n + j),
        decreases diff.added@.len() - j,
    {
        let p: &crate::sbom_diff::PackageDiff = &diff.added[j];
        let row: (String, String, String) = (
            p.name.clone(),
            "(added)".to_string(),
            p.new_version.clone(),
        );
        let ghost before = out.deep_view();
        let ghost rv = row.deep_view();
        assert(want[n + j] == (new[j as int].name, "(added)"@, new[j as int].new_version));
        assert(rv == want[n + j]);
        out.push(row);
        assert(out.deep_view() =~= before.push(rv));
        j += 1;
        assert(want.take(n + j) =~= before.push(rv));
    }
    assert(want.take(n + j) =~= want);
    out
}

fn page_on_github(uri: &str) -> (r: Option<String>)
    ensures
        r.deep_view() == github_page(uri@),
{
    match parse_org_repo(uri) {
        Some((org, repo)) => Some(
            text::cat4("https://github.com/", org.as_str(), "/", repo.as_str()),
        ),
        None => None,
    }
}

fn commit_rows(commits: &Vec<(String, String, String)>, uri: &str) -> (r: Vec<CommitRow>)
    requires
        forall|i: int|
            0 <= i < commits@.len() ==> text::cuts((#[trigger] commits.deep_view()[i]).0, 7),
    ensures
        r.deep_view() == commits.deep_view().map_values(
            |c: (Seq<char>, Seq<char>, Seq<char>)| commit_of(c, github_page(uri@)),
        ),
{
    let page: Option<String> = page_on_github(uri);
    let ghost all = commits.deep_view();
    let ghost want = all.map_values(
        |c: (Seq<char>, Seq<char>, Seq<char>)| commit_of(c, github_page(uri@)),
    );
    let mut out: Vec<CommitRow> = Vec::new();
    let mut i: usize = 0;
    while i < commits.len()
        invariant
            0 <= i <= commits@.len(),
            all == commits.deep_view(),
            forall|k: int| 0 <= k < commits@.len() ==> text::cuts((#[trigger] all[k]).0, 7),
            page.deep_view() == github_page(uri@),
            want == all.map_values(
                |c: (Seq<char>, Seq<char>, Seq<char>)| commit_of(c, github_page(uri@)),
            ),
            out.deep_view() == want.take(i as int),
        decreases commits@.len() - i,
    {
        let c: &(String, String, String) = &commits[i];
        assert(all[i as int] == (c.0@, c.1@, c.2@));
        assert(text::cuts(all[i as int].0, 7));
        let row: CommitRow = CommitRow {
            sha: short_sha(c.0.as_str()),
            message: c.1.clone(),
            author: c.2.clone(),
            url: match &page {
                Some(base) => Some(text::cat3(base.as_str(), "/commit/", c.0.as_str())),
                None => None,
            },
        };
        let ghost before = out.deep_view();
        let ghost rv = row.deep_view();
        assert(rv =~= want[i as int]);
        out.push(row);
        assert(out.deep_view() =~= before.push(rv));
        i += 1;
        assert(want.take(i as int) =~= before.push(rv));
    }
    assert(want.take(i as int) =~= want);
    out
}

fn field(list: &mut Vec<(String, String)>, name: &str, value: String)
    ensures
        final(list).deep_view() == old(list).deep_view().push((name@, value@)),
{
    let ghost before = list.deep_view();
    list.push((name.to_string(), value));
    assert(list.deep_view() =~= before.push((name@, value@)));
}

fn fields_of(d: &MockDeployment) -> (r: Vec<(String, String)>)
    ensures
        r.deep_view() == row_view(d.deep_view(), None).fields,
{
    let mut fields: Vec<(String, String)> = Vec::new();
    assert(fields.deep_view() =~= Seq::<(Seq<char>, Seq<char>)>::empty());
    let count: String = text::number(d.package_count as u64);
    field(&mut fields, "Image", d.image.clone());
    field(&mut fields, "Tag", d.tag.clone());
    field(&mut fields, "Digest", d.digest.clone());
    field(&mut fields, "Deployed", d.deployed_full.clone());
    field(&mut fields, "Kernel", d.kernel.clone());
    field(&mut fields, "Packages", text::cat2(count.as_str(), " installed"));
    field(&mut fields, "Signature", text::cat2("✓ Verified  ·  ", d.signer.as_str()));
    assert(fields.deep_view() =~= row_view(d.deep_view(), None).fields);
    fields
}

fn mark_words(state: &str) -> (r: Option<(String, String)>)
    ensures
        r.deep_view() == badge_of(state@),
{
    if text::same(state, "current") {
        Some(("Booted".to_string(), "success".to_string()))
    } else if text::same(state, "staged") {
        Some(("Staged".to_string(), "accent".to_string()))
    } else if text::same(state, "remote") {
        Some(("Remote".to_string(), "accent".to_string()))
    } else {
        None
    }
}

fn history_row(d: &MockDeployment, expanded: &Option<String>) -> (r: HistoryRow)
    requires
        text::cuts(d.digest@, 12),
    ensures
        r.deep_view() == row_view(d.deep_view(), expanded.deep_view()),
{
    let state: &str = d.state.as_str();
    let current: bool = text::same(state, "current");
    let staged: bool = text::same(state, "staged");
    let remote: bool = text::same(state, "remote");
    let is_open: bool = match expanded {
        Some(id) => text::same(id.as_str(), d.id.as_str()),
        None => false,
    };
    let digest: String = match text::cut(d.digest.as_str(), 12) {
        Some(head) => head,
        None => d.digest.clone(),
    };
    let front: String = text::cat4(d.image.as_str(), ":", d.tag.as_str(), "  ·  ");
    HistoryRow {
        id: d.id.clone(),
        indicator: if current {
            "deploy-indicator-current".to_string()
        } else if staged || remote {
            "deploy-indicator-staged".to_string()
        } else {
            "deploy-indicator-archive".to_string()
        },
        title: d.title.clone(),
        badge: mark_words(state),
        pinned: d.pinned,
        submeta: text::cat4(front.as_str(), digest.as_str(), "…  ·  ", d.deployed.as_str()),
        pin_tooltip: if d.pinned {
            "Unpin".to_string()
        } else {
            "Pin".to_string()
        },
        can_pin: !remote,
        action: if remote {
            RowAction::Pull
        } else if !current && !staged {
            RowAction::RollBack
        } else {
            RowAction::Nothing
        },
        expanded: is_open,
        chevron: if is_open {
            "go-up-symbolic".to_string()
        } else {
            "go-down-symbolic".to_string()
        },
        fields: fields_of(d),
        can_set_default: !current && !remote,
    }
}

/// The rows of the history.
pub fn rebuild_history_list(deployments: &Vec<MockDeployment>, expanded: &Option<String>) -> (r:
    Vec<HistoryRow>)
    requires
        digests_cut(deployments.deep_view()),
    ensures
        r.deep_view() == history_view(deployments.deep_view(), expanded.deep_view()),
{
    let ghost all = deployments.deep_view();
    let ghost want = history_view(all, expanded.deep_view());
    let mut out: Vec<HistoryRow> = Vec::new();
    let mut i: usize = 0;
    while i < deployments.len()
        invariant
            0 <= i <= deployments@.len(),
            all == deployments.deep_view(),
            digests_cut(all),
            want == history_view(all, expanded.deep_view()),
            out.deep_view() == want.take(i as int),
        decreases deployments@.len() - i,
    {
        let d: &MockDeployment = &deployments[i];
        assert(all[i as int] == d.deep_view());
        assert(text::cuts(all[i as int].digest, 12));
        let row: HistoryRow = history_row(d, expanded);
        let ghost before = out.deep_view();
        let ghost rv = row.deep_view();
        assert(rv == want[i as int]);
        out.push(row);
        assert(out.deep_view() =~= before.push(rv));
        i += 1;
        assert(want.take(i as int) =~= before.push(rv));
    }
    assert(want.take(i as int) =~= want);
    out
}

/// Whether every digest of the history can be cut.
pub fn history_can_be_shown(deployments: &Vec<MockDeployment>) -> (r: bool)
    ensures
        r == digests_cut(deployments.deep_view()),
{
    let ghost all = deployments.deep_view();
    let mut i: usize = 0;
    while i < deployments.len()
        invariant
            0 <= i <= deployments@.len(),
            all == deployments.deep_view(),
            forall|j: int| 0 <= j < i ==> text::cuts((#[trigger] all[j]).digest, 12),
        decreases deployments@.len() - i,
    {
        assert(all[i as int] == deployments@[i as int].deep_view());
        if !text::can_cut(deployments[i].digest.as_str(), 12) {
            return false;
        }
        i += 1;
    }
    true
}

impl StatusView {
    /// The name of the system on the first page.
    pub fn hero_title(&self, image: Option<&ImageRef>, os: &OsRelease) -> (r: String)
        ensures
            r@ == title_text(self.deep_view(), image_view(image), os.deep_view()),
    {
        match &self.image_info {
            Some(name) => name.clone(),
            None => match detect_bootc_image_info(image) {
                Some((title, _, _)) => title,
                None => match read_image_info(os, image) {
                    Some(name) => name,
                    None => "System Image".to_string(),
                },
            },
        }
    }

    /// The line below the name.
    pub fn idle_subtitle(&self, summary: &Option<String>) -> (r: String)
        ensures
            r@ == subtitle_text(self.deep_view(), summary.deep_view()),
    {
        if self.reboot_pending {
            return "Reboot to update".to_string();
        }
        match summary {
            Some(s) => s.clone(),
            None => match &self.last_update_text {
                Some(s) => s.clone(),
                None => "Current image".to_string(),
            },
        }
    }

    fn banner(&self) -> (r: Option<Banner>)
        ensures
            r.deep_view() == banner_of(self.deep_view()),
    {
        if self.reboot_pending {
            Some(
                Banner {
                    title: "Reboot to finish updating".to_string(),
                    subtitle: "A new image is staged and will be used on next boot.".to_string(),
                    install: false,
                    whats_new: false,
                    restart: false,
                    discard: true,
                },
            )
        } else if self.preflight_status == PreflightStatus::UpdateAvailable {
            Some(
                Banner {
                    title: "Update available".to_string(),
                    subtitle: "A new system image is ready to install.".to_string(),
                    install: true,
                    whats_new: true,
                    restart: false,
                    discard: false,
                },
            )
        } else {
            None
        }
    }

    /// What the first page shows.
    pub fn refresh_idle_description(
        &self,
        image: Option<&ImageRef>,
        os: &OsRelease,
        summary: &Option<String>,
    ) -> (r: IdlePanel)
        ensures
            r.deep_view() == idle_view(
                self.deep_view(),
                image_view(image),
                os.deep_view(),
                summary.deep_view(),
            ),
    {
        let (pill_text, pill_class) = if self.reboot_pending {
            ("Staged", "warning")
        } else {
            match self.preflight_status {
                PreflightStatus::UpdateAvailable => ("Update ready", "accent"),
                PreflightStatus::UpToDate => ("Up to date", "success"),
                PreflightStatus::Checking => ("Checking", "dim-label"),
                PreflightStatus::Unknown => ("Ready", "dim-label"),
            }
        };
        IdlePanel {
            title: self.hero_title(image, os),
            subtitle: self.idle_subtitle(summary),
            pill_text: pill_text.to_string(),
            pill_class: pill_class.to_string(),
            pill_visible: !self.reboot_pending && self.preflight_status
                != PreflightStatus::UpdateAvailable,
            restart_buttons: self.reboot_pending,
            banner: self.banner(),
        }
    }

    /// What the changelog shows, where the system is booted on a tag.
    pub fn rebuild_changelog_page(&self, booted: &str) -> (r: ChangelogPage)
        requires
            hashes_cut(self.deep_view(), booted@),
        ensures
            r.deep_view() == changelog_view(self.deep_view(), booted@),
    {
        let ghost m = self.deep_view();
        let selected: &str = self.changelog_version.as_str();
        let build: Option<&ImageVersion> = find_build(&self.registry_versions, selected);
        let mut stack: Vec<(String, String)> = Vec::new();
        assert(stack.deep_view() =~= Seq::<(Seq<char>, Seq<char>)>::empty());
        let mark: VersionMark;
        let date: String;
        let summary: String;
        match build {
            None => {
                mark = VersionMark::Nothing;
                date = "".to_string();
                summary = "".to_string();
            },
            Some(v) => {
                date = v.created.long();
                field(&mut stack, "Kernel", v.kernel.clone());
                if text::same(v.version.as_str(), booted) {
                    mark = VersionMark::Booted;
                    summary = text::cat3(
                        "Currently booted. Kernel ",
                        v.kernel.as_str(),
                        " · stable point release.",
                    );
                } else {
                    mark = if !self.reboot_pending && self.preflight_status
                        == PreflightStatus::UpdateAvailable {
                        VersionMark::Update
                    } else {
                        VersionMark::Nothing
                    };
                    let commit: String = short_sha(v.revision.as_str());
                    summary = text::cat5(
                        "Image build. Kernel ",
                        v.kernel.as_str(),
                        " · git commit ",
                        commit.as_str(),
                        ".",
                    );
                }
            },
        }
        let mut upgrades: Vec<(String, String, String)> = Vec::new();
        let mut removals: Vec<String> = Vec::new();
        assert(upgrades.deep_view() =~= Seq::<(Seq<char>, Seq<char>, Seq<char>)>::empty());
        assert(removals.deep_view() =~= Seq::<Seq<char>>::empty());
        if let Some(diff) = &self.sbom_diff {
            upgrades = packages_of(diff);
            removals = diff.removed.clone();
            assert(removals.deep_view() =~= diff.removed.deep_view());
        }
        proof {
            assert(self.github_commits.deep_view().len() == self.github_commits@.len());
            assert(self.registry_versions.deep_view().len() == self.registry_versions@.len());
        }
        let page: ChangelogPage = ChangelogPage {
            loading: self.registry_versions.len() == 0,
            pills: pills_of(&self.registry_versions, selected),
            reference: text::cat3(self.registry_uri.as_str(), ":", selected),
            mark,
            meta: text::cat3(selected, "  ·  ", date.as_str()),
            summary,
            stack,
            upgrades,
            removals,
            commits: commit_rows(&self.github_commits, self.registry_uri.as_str()),
        };
        assert(page.deep_view() =~= changelog_view(m, booted@));
        page
    }

    /// Whether every hash that the changelog shows can be cut.
    pub fn changelog_can_be_shown(&self, booted: &str) -> (r: bool)
        ensures
            r == hashes_cut(self.deep_view(), booted@),
    {
        let ghost m = self.deep_view();
        let mut i: usize = 0;
        while i < self.github_commits.len()
            invariant
                0 <= i <= self.github_commits@.len(),
                m == self.deep_view(),
                forall|j: int| 0 <= j < i ==> text::cuts((#[trigger] m.commits[j]).0, 7),
            decreases self.github_commits@.len() - i,
        {
            assert(m.commits[i as int] == self.github_commits@[i as int].deep_view());
            if !text::can_cut(self.github_commits[i].0.as_str(), 7) {
                return false;
            }
            i += 1;
        }
        assert(m.commits.len() == self.github_commits@.len());
        match find_build(&self.registry_versions, self.changelog_version.as_str()) {
            Some(v) => text::same(v.version.as_str(), booted) || text::can_cut(
                v.revision.as_str(),
                7,
            ),
            None => true,
        }
    }
}

// ── What the pages are for ───────────────────────────────────────────────────

/// The first page says that a restart is due exactly while an image is staged; that an
/// update is ready only where none is staged and one was found; and that the system is up
/// to date only where neither holds and the check said so.
pub proof fn law_first_page_tells_what_is_due(
    m: StatusModel,
    image: Option<ImageRefView>,
    os: OsReleaseView,
    summary: Option<Seq<char>>,
)
    ensures
        ({
            let v = idle_view(m, image, os, summary);
            let found = m.preflight == PreflightStatus::UpdateAvailable;
            &&& v.restart_buttons <==> m.reboot_pending
            &&& v.banner is Some <==> m.reboot_pending || found
            &&& v.banner matches Some(b) ==> (b.install <==> !m.reboot_pending) && (b.discard
                <==> m.reboot_pending) && (b.whats_new <==> b.install)
            &&& m.reboot_pending ==> v.subtitle == "Reboot to update"@
            &&& v.pill_visible && v.pill_text == "Up to date"@ ==> m.preflight
                == PreflightStatus::UpToDate
            &&& !m.reboot_pending && m.preflight == PreflightStatus::UpToDate ==> v.pill_text
                == "Up to date"@ && v.pill_visible
        }),
{
    reveal_strlit("Up to date");
    reveal_strlit("Checking");
    reveal_strlit("Ready");
    assert("Up to date"@.len() == 10 && "Checking"@.len() == 8 && "Ready"@.len() == 5);
}

/// The title is the name of the system as far as it is known, before that of its image;
/// the second line is what is known of the booted image, before the last update.
pub proof fn law_title_names_the_system(
    m: StatusModel,
    image: Option<ImageRefView>,
    os: OsReleaseView,
    summary: Option<Seq<char>>,
)
    ensures
        m.image_info matches Some(name) ==> title_text(m, image, os) == name,
        m.image_info is None ==> (image matches Some(i) ==> title_text(m, image, os)
            == i.org.push('/') + i.image),
        !m.reboot_pending ==> (summary matches Some(s) ==> subtitle_text(m, summary) == s),
        !m.reboot_pending && summary is None ==> (m.last_update matches Some(s) ==> subtitle_text(
            m,
            summary,
        ) == s),
{
    reveal_strlit("/");
    if let Some(i) = image {
        assert(i.org + "/"@ + i.image =~= i.org.push('/') + i.image);
    }
}

/// A build is found by its version: the first in the list that has it.
pub proof fn law_build_is_found_by_its_version(versions: Seq<VersionView>, version: Seq<char>, k: int)
    requires
        0 <= k < versions.len(),
        versions[k].version == version,
        forall|j: int| 0 <= j < k ==> (#[trigger] versions[j]).version != version,
    ensures
        build_of(versions, version) == Some(versions[k]),
    decreases versions.len(),
{
    if k > 0 {
        assert(versions[0].version != version);
        let rest = versions.drop_first();
        assert forall|j: int| 0 <= j < k - 1 implies (#[trigger] rest[j]).version != version by {
            assert(versions[j + 1].version != version);
        }
        law_build_is_found_by_its_version(rest, version, k - 1);
    }
}

proof fn lemma_pills(versions: Seq<VersionView>, selected: Seq<char>, n: nat)
    ensures
        newest_pills(versions, selected, n).len() == if versions.len() < n {
            versions.len()
        } else {
            n
        },
        forall|i: int|
            0 <= i < newest_pills(versions, selected, n).len() ==> (#[trigger] newest_pills(
                versions,
                selected,
                n,
            )[i]).version == versions[versions.len() - 1 - i].version,
        forall|i: int|
            0 <= i < newest_pills(versions, selected, n).len() ==> ((#[trigger] newest_pills(
                versions,
                selected,
                n,
            )[i]).selected <==> versions[versions.len() - 1 - i].version == selected),
    decreases n,
{
    if versions.len() > 0 && n > 0 {
        let front = versions.drop_last();
        let m = (n - 1) as nat;
        lemma_pills(front, selected, m);
        let all = newest_pills(versions, selected, n);
        let rest = newest_pills(front, selected, m);
        assert forall|i: int| 0 <= i < all.len() implies (#[trigger] all[i]).version
            == versions[versions.len() - 1 - i].version && (all[i].selected
            <==> versions[versions.len() - 1 - i].version == selected) by {
            if i > 0 {
                assert(all[i] == rest[i - 1]);
            }
        }
    }
}

/// The changelog is that of the version that is picked: its reference, its kernel, the
/// last four builds to pick from with the newest first, and every package and commit that
/// came. It is marked as booted exactly where it is the booted one.
pub proof fn law_changelog_is_of_the_picked_version(m: StatusModel, booted: Seq<char>, k: int, i: int)
    requires
        0 <= k < m.versions.len(),
        m.versions[k].version == m.changelog_version,
        forall|j: int| 0 <= j < k ==> (#[trigger] m.versions[j]).version != m.changelog_version,
    ensures
        ({
            let v = changelog_view(m, booted);
            &&& v.reference == m.registry_uri.push(':') + m.changelog_version
            &&& v.mark == VersionMark::Booted <==> m.changelog_version == booted
            &&& v.mark == VersionMark::Update <==> m.changelog_version != booted
                && !m.reboot_pending && m.preflight == PreflightStatus::UpdateAvailable
            &&& v.stack == seq![("Kernel"@, m.versions[k].kernel)]
            &&& !v.loading
            &&& v.pills.len() == if m.versions.len() < 4 {
                m.versions.len()
            } else {
                4
            }
            &&& 0 <= i < v.pills.len() ==> v.pills[i].version == m.versions[m.versions.len() - 1
                - i].version && (v.pills[i].selected <==> v.pills[i].version == m.changelog_version)
            &&& v.commits.len() == m.commits.len()
            &&& 0 <= i < m.commits.len() ==> v.commits[i].message == m.commits[i].1
                && v.commits[i].author == m.commits[i].2
        }),
{
    reveal_strlit(":");
    law_build_is_found_by_its_version(m.versions, m.changelog_version, k);
    lemma_pills(m.versions, m.changelog_version, 4);
    assert(m.registry_uri + ":"@ + m.changelog_version =~= m.registry_uri.push(':')
        + m.changelog_version);
    let v = changelog_view(m, booted);
    if 0 <= i < v.pills.len() {
        assert(v.pills[i].version == m.versions[m.versions.len() - 1 - i].version);
    }
}

/// Every package of a difference is shown: an upgraded one with both versions, an added
/// one as added with its version, a removed one by its name; each once, in order.
pub proof fn law_every_package_is_shown(m: StatusModel, booted: Seq<char>, d: SbomView, i: int)
    requires
        m.sbom == Some(d),
    ensures
        ({
            let v = changelog_view(m, booted);
            &&& v.upgrades.len() == d.upgraded.len() + d.added.len()
            &&& 0 <= i < d.upgraded.len() ==> v.upgrades[i] == (
                d.upgraded[i].name,
                d.upgraded[i].old_version,
                d.upgraded[i].new_version,
            )
            &&& 0 <= i < d.added.len() ==> v.upgrades[d.upgraded.len() + i] == (
                d.added[i].name,
                "(added)"@,
                d.added[i].new_version,
            )
            &&& v.removals == d.removed
        }),
{
}

/// The history has a row for each image, in order. It tells what is known of the image, by
/// its own name; a remote build can be pulled but not pinned, the booted and the staged
/// one need no action, and every other can be rolled back to.
pub proof fn law_history_row_tells_its_image(ds: Seq<DeploymentView>, expanded: Option<Seq<char>>, i: int)
    requires
        0 <= i < ds.len(),
    ensures
        history_view(ds, expanded).len() == ds.len(),
        ({
            let row = history_view(ds, expanded)[i];
            let d = ds[i];
            &&& row.id == d.id
            &&& row.title == d.title
            &&& row.pinned == d.pinned
            &&& row.expanded <==> expanded == Some(d.id)
            &&& row.action == RowAction::Pull <==> d.state == "remote"@
            &&& row.action == RowAction::RollBack <==> d.state != "remote"@ && d.state != "current"@
                && d.state != "staged"@
            &&& row.can_pin <==> d.state != "remote"@
            &&& row.can_set_default <==> d.state != "remote"@ && d.state != "current"@
            &&& row.badge == Some(("Booted"@, "success"@)) <==> d.state == "current"@
            &&& row.fields[0] == ("Image"@, d.image)
            &&& row.fields[1] == ("Tag"@, d.tag)
            &&& row.fields[2] == ("Digest"@, d.digest)
            &&& row.fields[4] == ("Kernel"@, d.kernel)
            &&& text::begins(row.submeta, d.image + ":"@ + d.tag)
        }),
{
    let row = history_view(ds, expanded)[i];
    let d = ds[i];
    let head = d.image + ":"@ + d.tag;
    assert(row.submeta.subrange(0, head.len() as int) =~= head);
    reveal_strlit("Booted");
    reveal_strlit("Staged");
    reveal_strlit("Remote");
    assert("Booted"@[0] != "Staged"@[0] && "Booted"@[0] != "Remote"@[0]);
    reveal_strlit("remote");
    reveal_strlit("current");
    reveal_strlit("staged");
    assert("remote"@[0] == 'r' && "current"@[0] == 'c' && "staged"@[0] == 's');
}

/// A hash of one-byte characters is told by its first seven, and a digest by its first
/// twelve; a shorter one is told whole.
pub proof fn law_hashes_are_shortened(s: Seq<char>)
    requires
        forall|i: int| 0 <= i < s.len() ==> (#[trigger] s[i]) as u32 <= 0x7f,
    ensures
        s.len() >= 7 ==> short_hash(s) == s.take(7),
        s.len() < 7 ==> short_hash(s) == s,
        s.len() >= 12 ==> short_digest(s) == s.take(12),
        s.len() < 12 ==> short_digest(s) == s,
{
    text::law_ascii_text_is_cut_by_characters(s, 7);
    text::law_ascii_text_is_cut_by_characters(s, 12);
}

/// Hashes and digests of one-byte characters can always be shown.
pub proof fn law_plain_hashes_can_be_shown(m: StatusModel, booted: Seq<char>, ds: Seq<DeploymentView>)
    requires
        forall|i: int, k: int|
            0 <= i < m.commits.len() && 0 <= k < m.commits[i].0.len() ==> (
            #[trigger] m.commits[i].0[k]) as u32 <= 0x7f,
        forall|i: int, k: int|
            0 <= i < m.versions.len() && 0 <= k < m.versions[i].revision.len() ==> (
            #[trigger] m.versions[i].revision[k]) as u32 <= 0x7f,
        forall|i: int, k: int|
            0 <= i < ds.len() && 0 <= k < ds[i].digest.len() ==> (#[trigger] ds[i].digest[k]) as u32
                <= 0x7f,
    ensures
        hashes_cut(m, booted),
        digests_cut(ds),
{
    assert forall|i: int| 0 <= i < m.commits.len() implies text::cuts(
        (#[trigger] m.commits[i]).0,
        7,
    ) by {
        text::law_ascii_text_is_cut_by_characters(m.commits[i].0, 7);
    }
    assert forall|i: int| 0 <= i < ds.len() implies text::cuts((#[trigger] ds[i]).digest, 12) by {
        text::law_ascii_text_is_cut_by_characters(ds[i].digest, 12);
    }
    if let Some(v) = build_of(m.versions, m.changelog_version) {
        lemma_build_is_listed(m.versions, m.changelog_version);
        let i = choose|i: int| 0 <= i < m.versions.len() && m.versions[i] == v;
        assert forall|k: int| 0 <= k < v.revision.len() implies (#[trigger] v.revision[k]) as u32
            <= 0x7f by {
            assert(m.versions[i].revision[k] as u32 <= 0x7f);
        }
        text::law_ascii_text_is_cut_by_characters(v.revision, 7);
    }
}

proof fn lemma_build_is_listed(versions: Seq<VersionView>, version: Seq<char>)
    ensures
        build_of(versions, version) matches Some(v) ==> versions.contains(v) && v.version
            == version,
    decreases versions.len(),
{
    if versions.len() > 0 {
        let rest = versions.drop_first();
        lemma_build_is_listed(rest, version);
        if let Some(v) = build_of(versions, version) {
            if versions[0].version != version {
                let i = choose|i: int| 0 <= i < rest.len() && rest[i] == v;
                assert(versions[i + 1] == v);
            }
        }
    }
}

} // verus!
