//! What the "What's New" page shows: the booted image, the parts of the stack
//! that change, and the packages that change.
use crate::calendar::moment_short_text;
use crate::registry_client::{ImageVersion, VersionView};
use crate::sbom_diff::{PackageDiffView, SbomDiffResult, SbomView};
use crate::service::{error_text, ref_text, ImageRef, ImageRefView, ServiceError};
use crate::text;
use crate::ui::status_pages::{short_hash, short_sha};
use vstd::prelude::*;

verus! {

/// Most builds that are asked for.
pub const STACK_BUILDS: usize = 8;

// ── The booted image ─────────────────────────────────────────────────────────

/// Title and subtitle of the first row.
pub open spec fn hero_text(booted: Option<ImageRefView>) -> (Seq<char>, Seq<char>) {
    match booted {
        Some(image) => (image.org + "/"@ + image.image, ref_text(image)),
        None => ("System Image"@, "Detecting…"@),
    }
}

/// Title and subtitle of the first row.
pub fn hero_row(booted: Option<&ImageRef>) -> (r: (String, String))
    ensures
        (r.0@, r.1@) == hero_text(
            match booted {
                Some(image) => Some(image.deep_view()),
                None => None,
            },
        ),
{
    match booted {
        Some(image) => (
            text::cat3(image.org.as_str(), "/", image.image.as_str()),
            image.as_string(),
        ),
        None => ("System Image".to_string(), "Detecting…".to_string()),
    }
}

/// The kernel that the host names; none where it could not be asked, or where it
/// names none.
pub fn host_kernel_string(answer: Option<&str>) -> (r: Option<String>)
    ensures
        r.deep_view() == match answer {
            Some(out) => unless_empty(Some(text::trimmed(out@))),
            None => None,
        },
{
    match answer {
        Some(out) => {
            let name: String = text::trim(out);
            if name.as_str().is_empty() {
                None
            } else {
                Some(name)
            }
        },
        None => None,
    }
}

// ── The stack ────────────────────────────────────────────────────────────────

/// One row: a part of the stack, its present and its next value, and whether
/// the value moves.
#[derive(Debug)]
pub struct StackItem {
    pub label: &'static str,
    pub current: Option<String>,
    pub target: String,
    pub bumped: bool,
}

/// What a row is.
#[verifier::ext_equal]
pub struct StackView {
    pub label: Seq<char>,
    pub current: Option<Seq<char>>,
    pub target: Seq<char>,
    pub bumped: bool,
}

impl DeepView for StackItem {
    type V = StackView;

    open spec fn deep_view(&self) -> StackView {
        StackView {
            label: self.label@,
            current: self.current.deep_view(),
            target: self.target@,
            bumped: self.bumped,
        }
    }
}

/// A row whose value moves where it is not the present one.
pub open spec fn moved(label: Seq<char>, current: Option<Seq<char>>, target: Seq<char>) -> StackView {
    StackView { label, current, target, bumped: current != Some(target) }
}

/// A text, unless it is empty.
pub open spec fn unless_empty(s: Option<Seq<char>>) -> Option<Seq<char>> {
    match s {
        Some(s) => if s.len() > 0 {
            Some(s)
        } else {
            None
        },
        None => None,
    }
}

/// The present kernel: of the booted build where it tells, else of the host.
pub open spec fn current_kernel(booted: Option<VersionView>, host: Option<Seq<char>>) -> Option<
    Seq<char>,
> {
    let told = match booted {
        Some(b) => unless_empty(Some(b.kernel)),
        None => None,
    };
    if told is Some {
        told
    } else {
        unless_empty(host)
    }
}

/// The row of the kernel; none where neither side tells. A kernel that the next
/// build does not tell does not move.
pub open spec fn kernel_rows(current: Option<Seq<char>>, target: Seq<char>) -> Seq<StackView> {
    if target.len() > 0 {
        seq![moved("Kernel"@, current, target)]
    } else if current is Some {
        seq![StackView { label: "Kernel"@, current, target: ""@, bumped: false }]
    } else {
        Seq::empty()
    }
}

/// The row of the revision; none where the next build does not tell.
pub open spec fn revision_rows(booted: Option<VersionView>, target: Seq<char>) -> Seq<StackView> {
    if target.len() > 0 {
        seq![
            moved(
                "Revision"@,
                match booted {
                    Some(b) => unless_empty(Some(short_hash(b.revision))),
                    None => None,
                },
                short_hash(target),
            ),
        ]
    } else {
        Seq::empty()
    }
}

/// The rows of the stack.
pub open spec fn stack_rows(
    booted: Option<VersionView>,
    target: VersionView,
    host_kernel: Option<Seq<char>>,
) -> Seq<StackView> {
    seq![
        moved(
            "Image"@,
            match booted {
                Some(b) => Some(b.version),
                None => None,
            },
            target.version,
        ),
    ] + kernel_rows(current_kernel(booted, host_kernel), target.kernel) + revision_rows(
        booted,
        target.revision,
    ) + seq![
        moved(
            "Built"@,
            match booted {
                Some(b) => Some(moment_short_text(b.created)),
                None => None,
            },
            moment_short_text(target.created),
        ),
    ]
}

/// Whether the revisions can be cut to seven bytes, where they are shown.
pub open spec fn revisions_cut(booted: Option<VersionView>, target: VersionView) -> bool {
    target.revision.len() > 0 ==> text::cuts(target.revision, 7) && (booted matches Some(b)
        ==> text::cuts(b.revision, 7))
}

fn is_same(current: &Option<String>, target: &str) -> (r: bool)
    ensures
        r == (current.deep_view() == Some(target@)),
{
    match current {
        Some(c) => text::same(c.as_str(), target),
        None => false,
    }
}

fn moved_row(label: &'static str, current: Option<String>, target: String) -> (r: StackItem)
    ensures
        r.deep_view() == moved(label@, current.deep_view(), target@),
{
    let bumped: bool = !is_same(&current, target.as_str());
    StackItem { label, current, target, bumped }
}

fn add_item(list: &mut Vec<StackItem>, item: StackItem)
    ensures
        final(list).deep_view() == old(list).deep_view().push(item.deep_view()),
{
    let ghost before = list.deep_view();
    list.push(item);
    assert(list.deep_view() =~= before.push(item.deep_view()));
}

fn find_kernel(booted: Option<&ImageVersion>, host: Option<&str>) -> (r: Option<String>)
    ensures
        r.deep_view() == current_kernel(
            match booted {
                Some(b) => Some(b.deep_view()),
                None => None,
            },
            match host {
                Some(h) => Some(h@),
                None => None,
            },
        ),
{
    if let Some(b) = booted {
        if !b.kernel.as_str().is_empty() {
            return Some(b.kernel.clone());
        }
    }
    match host {
        Some(h) => if h.is_empty() {
            None
        } else {
            Some(h.to_string())
        },
        None => None,
    }
}

fn cut_revision(booted: Option<&ImageVersion>) -> (r: Option<String>)
    requires
        booted matches Some(b) ==> text::cuts(b.revision@, 7),
    ensures
        r.deep_view() == match booted {
            Some(b) => unless_empty(Some(short_hash(b.revision@))),
            None => None,
        },
{
    match booted {
        Some(b) => {
            let short: String = short_sha(b.revision.as_str());
            if short.as_str().is_empty() {
                None
            } else {
                Some(short)
            }
        },
        None => None,
    }
}

/// The rows of the stack.
pub fn build_stack_items(
    booted: Option<&ImageVersion>,
    target: &ImageVersion,
    host_kernel: Option<&str>,
) -> (r: Vec<StackItem>)
    requires
        revisions_cut(
            match booted {
                Some(b) => Some(b.deep_view()),
                None => None,
            },
            target.deep_view(),
        ),
    ensures
        r.deep_view() == stack_rows(
            match booted {
                Some(b) => Some(b.deep_view()),
                None => None,
            },
            target.deep_view(),
            match host_kernel {
                Some(h) => Some(h@),
                None => None,
            },
        ),
{
    let mut out: Vec<StackItem> = Vec::new();
    assert(out.deep_view() =~= Seq::<StackView>::empty());
    let version: Option<String> = match booted {
        Some(b) => Some(b.version.clone()),
        None => None,
    };
    add_item(&mut out, moved_row("Image", version, target.version.clone()));
    let kernel: Option<String> = find_kernel(booted, host_kernel);
    if !target.kernel.as_str().is_empty() {
        add_item(&mut out, moved_row("Kernel", kernel, target.kernel.clone()));
    } else if kernel.is_some() {
        add_item(
            &mut out,
            StackItem { label: "Kernel", current: kernel, target: "".to_string(), bumped: false },
        );
    }
    if !target.revision.as_str().is_empty() {
        let revision: String = short_sha(target.revision.as_str());
        add_item(&mut out, moved_row("Revision", cut_revision(booted), revision));
    }
    let built: Option<String> = match booted {
        Some(b) => Some(b.created.short()),
        None => None,
    };
    add_item(&mut out, moved_row("Built", built, target.created.short()));
    let ghost b = match booted {
        Some(b) => Some(b.deep_view()),
        None => None,
    };
    let ghost h = match host_kernel {
        Some(h) => Some(h@),
        None => None,
    };
    assert(out.deep_view() =~= stack_rows(b, target.deep_view(), h));
    out
}

/// The rows of the stack, or none where a revision cannot be cut.
pub fn render_stack_items(
    booted: Option<&ImageVersion>,
    target: &ImageVersion,
    host_kernel: Option<&str>,
) -> (r: Option<Vec<StackItem>>)
    ensures
        ({
            let b = match booted {
                Some(b) => Some(b.deep_view()),
                None => None,
            };
            match r {
                Some(rows) => revisions_cut(b, target.deep_view()) && rows.deep_view()
                    == stack_rows(
                    b,
                    target.deep_view(),
                    match host_kernel {
                        Some(h) => Some(h@),
                        None => None,
                    },
                ),
                None => !revisions_cut(b, target.deep_view()),
            }
        }),
{
    if !target.revision.as_str().is_empty() {
        if !text::can_cut(target.revision.as_str(), 7) {
            return None;
        }
        if let Some(b) = booted {
            if !text::can_cut(b.revision.as_str(), 7) {
                return None;
            }
        }
    }
    Some(build_stack_items(booted, target, host_kernel))
}

/// A part of the stack that both builds have alike does not move.
pub proof fn law_same_build_moves_nothing(v: VersionView, host: Option<Seq<char>>, i: int)
    requires
        0 <= i < stack_rows(Some(v), v, host).len(),
    ensures
        !stack_rows(Some(v), v, host)[i].bumped,
{
    lemma_short_hash(v.revision);
}

proof fn lemma_short_hash(s: Seq<char>)
    ensures
        s.len() > 0 ==> short_hash(s).len() > 0,
{
    if s.len() > 0 {
        lemma_first_bytes_exist(s);
    }
}

proof fn lemma_first_bytes_exist(s: Seq<char>)
    requires
        s.len() > 0,
    ensures
        text::first_bytes(s, 7).len() > 0,
    decreases s.len(),
{
    if s.len() == 1 {
        assert(text::byte_len(s.drop_last()) == 0);
    } else {
        lemma_first_bytes_exist(s.drop_last());
    }
}

// ── Which build ──────────────────────────────────────────────────────────────

/// What the registry had: the booted build where it is known, and the next one.
#[derive(Debug)]
pub enum StackResult {
    Found { booted: Option<ImageVersion>, target: ImageVersion },
    Empty,
    Failed(String),
}

/// What that is.
#[verifier::ext_equal]
pub enum StackResultView {
    Found { booted: Option<VersionView>, target: VersionView },
    Empty,
    Failed(Seq<char>),
}

impl DeepView for StackResult {
    type V = StackResultView;

    open spec fn deep_view(&self) -> StackResultView {
        match self {
            StackResult::Found { booted, target } => StackResultView::Found {
                booted: booted.deep_view(),
                target: target.deep_view(),
            },
            StackResult::Empty => StackResultView::Empty,
            StackResult::Failed(m) => StackResultView::Failed(m@),
        }
    }
}

/// The first build whose version holds a tag.
pub open spec fn build_with_tag(versions: Seq<VersionView>, tag: Seq<char>) -> Option<VersionView>
    decreases versions.len(),
{
    if versions.len() == 0 {
        None
    } else if text::holds(versions[0].version, tag) {
        Some(versions[0])
    } else {
        build_with_tag(versions.drop_first(), tag)
    }
}

/// What to show of builds, newest first.
pub open spec fn stack_of(versions: Seq<VersionView>, tag: Seq<char>) -> StackResultView {
    if versions.len() == 0 {
        StackResultView::Empty
    } else {
        StackResultView::Found { booted: build_with_tag(versions, tag), target: versions[0] }
    }
}

fn find_build(versions: &Vec<ImageVersion>, tag: &str) -> (r: Option<ImageVersion>)
    ensures
        r.deep_view() == build_with_tag(versions.deep_view(), tag@),
{
    let ghost all = versions.deep_view();
    let mut i: usize = 0;
    assert(all.skip(0) =~= all);
    while i < versions.len()
        invariant
            0 <= i <= versions@.len(),
            all == versions.deep_view(),
            build_with_tag(all, tag@) == build_with_tag(all.skip(i as int), tag@),
        decreases versions@.len() - i,
    {
        assert(all.skip(i as int)[0] == versions@[i as int].deep_view());
        assert(all.skip(i as int).drop_first() =~= all.skip(i + 1));
        if text::contains(versions[i].version.as_str(), tag) {
            return Some(versions[i].clone());
        }
        i += 1;
    }
    assert(all.skip(i as int) =~= Seq::<VersionView>::empty());
    None
}

/// What to show of the builds that the registry replied, newest first.
pub fn stack_result(reply: Result<Vec<ImageVersion>, ServiceError>, tag: &str) -> (r: StackResult)
    ensures
        r.deep_view() == match reply {
            Ok(versions) => stack_of(versions.deep_view(), tag@),
            Err(e) => StackResultView::Failed(error_text(e.deep_view())),
        },
{
    match reply {
        Ok(versions) => {
            assert(versions.deep_view().len() == versions@.len());
            if versions.len() == 0 {
                return StackResult::Empty;
            }
            assert(versions.deep_view()[0] == versions@[0].deep_view());
            let target: ImageVersion = versions[0].clone();
            StackResult::Found { booted: find_build(&versions, tag), target }
        },
        Err(e) => StackResult::Failed(e.message()),
    }
}

/// What follows where packages are compared: the two references, or none where
/// there is nothing to compare.
pub open spec fn compared(booted_ref: Seq<char>, stack: StackResultView) -> Option<
    (Seq<char>, Seq<char>),
> {
    match stack {
        StackResultView::Found { target, .. } => if booted_ref == target.full_ref {
            None
        } else {
            Some((booted_ref, target.full_ref))
        },
        _ => None,
    }
}

/// The two references whose packages are compared, or none where there is
/// nothing to compare.
pub fn sbom_diff_for_panel(booted_ref: &str, stack: &StackResult) -> (r: Option<(String, String)>)
    ensures
        r.deep_view() == compared(booted_ref@, stack.deep_view()),
{
    match stack {
        StackResult::Found { target, .. } => if text::same(booted_ref, target.full_ref.as_str()) {
            None
        } else {
            Some((booted_ref.to_string(), target.full_ref.clone()))
        },
        _ => None,
    }
}

/// Title and subtitle of the only row of the stack where there is no build to
/// show.
pub open spec fn no_stack_text(stack: StackResultView) -> Option<(Seq<char>, Option<Seq<char>>)> {
    match stack {
        StackResultView::Found { .. } => None,
        StackResultView::Empty => Some(("No recent builds returned by the registry"@, None)),
        StackResultView::Failed(m) => Some(("Couldn't reach the registry"@, Some(m))),
    }
}

/// Title and subtitle of the only row of the stack where there is no build to
/// show.
pub fn no_stack_row(stack: &StackResult) -> (r: Option<(String, Option<String>)>)
    ensures
        r.deep_view() == no_stack_text(stack.deep_view()),
{
    match stack {
        StackResult::Found { .. } => None,
        StackResult::Empty => Some(("No recent builds returned by the registry".to_string(), None)),
        StackResult::Failed(m) => Some(
            ("Couldn't reach the registry".to_string(), Some(m.clone())),
        ),
    }
}

// ── Packages ─────────────────────────────────────────────────────────────────

/// What the comparison of packages came to.
#[derive(Debug)]
pub enum SbomResult {
    Found(SbomDiffResult),
    Unavailable,
    Skipped,
}

/// What that is.
#[verifier::ext_equal]
pub enum SbomResultView {
    Found(SbomView),
    Unavailable,
    Skipped,
}

impl DeepView for SbomResult {
    type V = SbomResultView;

    open spec fn deep_view(&self) -> SbomResultView {
        match self {
            SbomResult::Found(d) => SbomResultView::Found(d.deep_view()),
            SbomResult::Unavailable => SbomResultView::Unavailable,
            SbomResult::Skipped => SbomResultView::Skipped,
        }
    }
}

/// A group of packages: its title where it is shown, and its rows: name, former
/// and new version.
#[derive(Debug, PartialEq)]
pub struct PackageGroup {
    pub title: Option<String>,
    pub rows: Vec<(String, Option<String>, Option<String>)>,
}

/// A row of packages.
pub type RowView = (Seq<char>, Option<Seq<char>>, Option<Seq<char>>);

/// What a group is.
#[verifier::ext_equal]
pub struct GroupView {
    pub title: Option<Seq<char>>,
    pub rows: Seq<RowView>,
}

impl DeepView for PackageGroup {
    type V = GroupView;

    open spec fn deep_view(&self) -> GroupView {
        GroupView { title: self.title.deep_view(), rows: self.rows.deep_view() }
    }
}

/// A group of rows, which is shown where it has any.
pub open spec fn group_of(word: Seq<char>, rows: Seq<RowView>) -> GroupView {
    GroupView {
        title: if rows.len() > 0 {
            Some(word + "  ·  "@ + text::decimal(rows.len()))
        } else {
            None
        },
        rows,
    }
}

/// A group that is not shown.
pub open spec fn no_group() -> GroupView {
    GroupView { title: None, rows: Seq::empty() }
}

/// The group of updated packages.
pub open spec fn updated_group(r: SbomResultView) -> GroupView {
    match r {
        SbomResultView::Found(d) => group_of(
            "Updated"@,
            d.upgraded.map_values(
                |p: PackageDiffView| (p.name, Some(p.old_version), Some(p.new_version)),
            ),
        ),
        SbomResultView::Unavailable => GroupView {
            title: Some("Package diff unavailable"@),
            rows: seq![
                ("Registry didn't publish SPDX referrers for one of the images"@, None, None),
            ],
        },
        SbomResultView::Skipped => no_group(),
    }
}

/// The group of added packages.
pub open spec fn added_group(r: SbomResultView) -> GroupView {
    match r {
        SbomResultView::Found(d) => group_of(
            "Added"@,
            d.added.map_values(|p: PackageDiffView| (p.name, None, Some(p.new_version))),
        ),
        _ => no_group(),
    }
}

/// The group of removed packages.
pub open spec fn removed_group(r: SbomResultView) -> GroupView {
    match r {
        SbomResultView::Found(d) => group_of(
            "Removed"@,
            d.removed.map_values(|name: Seq<char>| (name, None, None)),
        ),
        _ => no_group(),
    }
}

fn make_group(word: &str, rows: Vec<(String, Option<String>, Option<String>)>) -> (r: PackageGroup)
    ensures
        r.deep_view() == group_of(word@, rows.deep_view()),
{
    assert(rows.deep_view().len() == rows@.len());
    let title: Option<String> = if rows.len() > 0 {
        let count: String = text::number(rows.len() as u64);
        Some(text::cat3(word, "  ·  ", count.as_str()))
    } else {
        None
    };
    PackageGroup { title, rows }
}

fn hidden_group() -> (r: PackageGroup)
    ensures
        r.deep_view() == no_group(),
{
    let r: PackageGroup = PackageGroup { title: None, rows: Vec::new() };
    assert(r.rows.deep_view() =~= Seq::<RowView>::empty());
    r
}

fn updated_rows(d: &SbomDiffResult) -> (r: Vec<(String, Option<String>, Option<String>)>)
    ensures
        r.deep_view() == d.upgraded.deep_view().map_values(
            |p: PackageDiffView| (p.name, Some(p.old_version), Some(p.new_version)),
        ),
{
    let ghost want = d.upgraded.deep_view().map_values(
        |p: PackageDiffView| (p.name, Some(p.old_version), Some(p.new_version)),
    );
    let mut out: Vec<(String, Option<String>, Option<String>)> = Vec::new();
    let mut i: usize = 0;
    assert(out.deep_view() =~= want.take(0));
    while i < d.upgraded.len()
        invariant
            0 <= i <= d.upgraded@.len(),
            want == d.upgraded.deep_view().map_values(
                |p: PackageDiffView| (p.name, Some(p.old_version), Some(p.new_version)),
            ),
            out.deep_view() == want.take(i as int),
        decreases d.upgraded@.len() - i,
    {
        let p = &d.upgraded[i];
        let ghost before = out.deep_view();
        let row: (String, Option<String>, Option<String>) = (
            p.name.clone(),
            Some(p.old_version.clone()),
            Some(p.new_version.clone()),
        );
        let ghost rv = row.deep_view();
        out.push(row);
        assert(rv == want[i as int]);
        assert(out.deep_view() =~= before.push(rv));
        i += 1;
        assert(out.deep_view() =~= want.take(i as int));
    }
    assert(want.take(i as int) =~= want);
    out
}

fn added_rows(d: &SbomDiffResult) -> (r: Vec<(String, Option<String>, Option<String>)>)
    ensures
        r.deep_view() == d.added.deep_view().map_values(
            |p: PackageDiffView| (p.name, None::<Seq<char>>, Some(p.new_version)),
        ),
{
    let ghost want = d.added.deep_view().map_values(
        |p: PackageDiffView| (p.name, None::<Seq<char>>, Some(p.new_version)),
    );
    let mut out: Vec<(String, Option<String>, Option<String>)> = Vec::new();
    let mut i: usize = 0;
    assert(out.deep_view() =~= want.take(0));
    while i < d.added.len()
        invariant
            0 <= i <= d.added@.len(),
            want == d.added.deep_view().map_values(
                |p: PackageDiffView| (p.name, None::<Seq<char>>, Some(p.new_version)),
            ),
            out.deep_view() == want.take(i as int),
        decreases d.added@.len() - i,
    {
        let p = &d.added[i];
        let ghost before = out.deep_view();
        let row: (String, Option<String>, Option<String>) = (
            p.name.clone(),
            None,
            Some(p.new_version.clone()),
        );
        let ghost rv = row.deep_view();
        out.push(row);
        assert(rv == want[i as int]);
        assert(out.deep_view() =~= before.push(rv));
        i += 1;
        assert(out.deep_view() =~= want.take(i as int));
    }
    assert(want.take(i as int) =~= want);
    out
}

fn removed_rows(d: &SbomDiffResult) -> (r: Vec<(String, Option<String>, Option<String>)>)
    ensures
        r.deep_view() == d.removed.deep_view().map_values(
            |name: Seq<char>| (name, None::<Seq<char>>, None::<Seq<char>>),
        ),
{
    let ghost want = d.removed.deep_view().map_values(
        |name: Seq<char>| (name, None::<Seq<char>>, None::<Seq<char>>),
    );
    let mut out: Vec<(String, Option<String>, Option<String>)> = Vec::new();
    let mut i: usize = 0;
    assert(out.deep_view() =~= want.take(0));
    while i < d.removed.len()
        invariant
            0 <= i <= d.removed@.len(),
            want == d.removed.deep_view().map_values(
                |name: Seq<char>| (name, None::<Seq<char>>, None::<Seq<char>>),
            ),
            out.deep_view() == want.take(i as int),
        decreases d.removed@.len() - i,
    {
        let ghost before = out.deep_view();
        let row: (String, Option<String>, Option<String>) = (d.removed[i].clone(), None, None);
        let ghost rv = row.deep_view();
        out.push(row);
        assert(rv == want[i as int]);
        assert(out.deep_view() =~= before.push(rv));
        i += 1;
        assert(out.deep_view() =~= want.take(i as int));
    }
    assert(want.take(i as int) =~= want);
    out
}

/// The groups of packages: updated, added and removed.
pub fn package_groups(result: &SbomResult) -> (r: (PackageGroup, PackageGroup, PackageGroup))
    ensures
        r.0.deep_view() == updated_group(result.deep_view()),
        r.1.deep_view() == added_group(result.deep_view()),
        r.2.deep_view() == removed_group(result.deep_view()),
{
    match result {
        SbomResult::Found(d) => (
            make_group("Updated", updated_rows(d)),
            make_group("Added", added_rows(d)),
            make_group("Removed", removed_rows(d)),
        ),
        SbomResult::Unavailable => {
            let mut rows: Vec<(String, Option<String>, Option<String>)> = Vec::new();
            rows.push(
                (
                    "Registry didn't publish SPDX referrers for one of the images".to_string(),
                    None,
                    None,
                ),
            );
            let group: PackageGroup = PackageGroup {
                title: Some("Package diff unavailable".to_string()),
                rows,
            };
            assert(group.rows.deep_view() =~= updated_group(SbomResultView::Unavailable).rows);
            (group, hidden_group(), hidden_group())
        },
        SbomResult::Skipped => (hidden_group(), hidden_group(), hidden_group()),
    }
}

/// A group of packages is shown where it has rows, and only there.
pub proof fn law_empty_groups_are_hidden(r: SbomResultView)
    ensures
        updated_group(r).title is Some == (updated_group(r).rows.len() > 0),
        added_group(r).title is Some == (added_group(r).rows.len() > 0),
        removed_group(r).title is Some == (removed_group(r).rows.len() > 0),
{
}

/// The table sets the booted build against the newest one, each told as it is: a row is
/// marked exactly where the two differ. The kernel of the booted build counts before the
/// one that the host tells.
pub proof fn law_table_sets_two_builds_against_each_other(
    booted: VersionView,
    target: VersionView,
    host: Option<Seq<char>>,
)
    ensures
        ({
            let rows = stack_rows(Some(booted), target, host);
            &&& rows[0].label == "Image"@
            &&& rows[0].current == Some(booted.version) && rows[0].target == target.version
            &&& rows[0].bumped <==> booted.version != target.version
            &&& rows.last().label == "Built"@
            &&& rows.last().current == Some(moment_short_text(booted.created))
            &&& rows.last().target == moment_short_text(target.created)
            &&& target.kernel.len() > 0 && booted.kernel.len() > 0 ==> rows[1].label == "Kernel"@
                && rows[1].current == Some(booted.kernel) && rows[1].target == target.kernel && (
            rows[1].bumped <==> booted.kernel != target.kernel)
            &&& target.kernel.len() > 0 && booted.kernel.len() == 0 ==> (host matches Some(h)
                ==> h.len() > 0 ==> rows[1].current == Some(h) && rows[1].target == target.kernel)
        }),
        ({
            let rows = stack_rows(None, target, host);
            rows[0].current is None && rows[0].bumped && rows[0].target == target.version
        }),
{
}

/// What is newest is the first build told, and what is booted is the first whose version
/// holds the booted tag. Without builds there is nothing to set against anything.
pub proof fn law_newest_build_is_the_first(versions: Seq<VersionView>, tag: Seq<char>, k: int)
    ensures
        versions.len() == 0 <==> stack_of(versions, tag) is Empty,
        versions.len() > 0 ==> (stack_of(versions, tag) matches StackResultView::Found {
            target,
            ..
        } && target == versions[0]),
        0 <= k < versions.len() && text::holds(versions[k].version, tag) && (forall|j: int|
            0 <= j < k ==> !text::holds((#[trigger] versions[j]).version, tag)) ==> build_with_tag(
            versions,
            tag,
        ) == Some(versions[k]),
        (forall|j: int|
            0 <= j < versions.len() ==> !text::holds((#[trigger] versions[j]).version, tag))
            ==> build_with_tag(versions, tag) is None,
    decreases versions.len(),
{
    if versions.len() > 0 {
        let rest = versions.drop_first();
        law_newest_build_is_the_first(rest, tag, k - 1);
        assert(forall|j: int| 0 <= j < rest.len() ==> #[trigger] rest[j] == versions[j + 1]);
        if 0 < k < versions.len() && (forall|j: int|
            0 <= j < k ==> !text::holds((#[trigger] versions[j]).version, tag)) {
            assert(!text::holds(versions[0].version, tag));
            assert forall|j: int| 0 <= j < k - 1 implies !text::holds(
                (#[trigger] rest[j]).version,
                tag,
            ) by {
                assert(!text::holds(versions[j + 1].version, tag));
            }
        }
        if forall|j: int|
            0 <= j < versions.len() ==> !text::holds((#[trigger] versions[j]).version, tag) {
            assert(!text::holds(versions[0].version, tag));
            assert forall|j: int| 0 <= j < rest.len() implies !text::holds(
                (#[trigger] rest[j]).version,
                tag,
            ) by {
                assert(!text::holds(versions[j + 1].version, tag));
            }
        }
    }
}

/// The packages of the booted image and of the newest are compared, in this order, unless
/// they are one and the same image or there is no build.
pub proof fn law_booted_is_compared_with_the_newest(
    booted_ref: Seq<char>,
    booted: Option<VersionView>,
    target: VersionView,
)
    ensures
        compared(booted_ref, StackResultView::Found { booted, target }) == if booted_ref
            == target.full_ref {
            None
        } else {
            Some((booted_ref, target.full_ref))
        },
        compared(booted_ref, StackResultView::Empty) is None,
{
}

/// Every package of a difference has its row: an upgraded one with both versions, an added
/// one with the new one, a removed one with none. The title counts them.
pub proof fn law_every_package_has_its_row(d: SbomView, i: int)
    ensures
        ({
            let r = SbomResultView::Found(d);
            &&& updated_group(r).rows.len() == d.upgraded.len()
            &&& added_group(r).rows.len() == d.added.len()
            &&& removed_group(r).rows.len() == d.removed.len()
            &&& 0 <= i < d.upgraded.len() ==> updated_group(r).rows[i] == (
                d.upgraded[i].name,
                Some(d.upgraded[i].old_version),
                Some(d.upgraded[i].new_version),
            )
            &&& 0 <= i < d.added.len() ==> added_group(r).rows[i] == (
                d.added[i].name,
                None::<Seq<char>>,
                Some(d.added[i].new_version),
            )
            &&& 0 <= i < d.removed.len() ==> removed_group(r).rows[i] == (
                d.removed[i],
                None::<Seq<char>>,
                None::<Seq<char>>,
            )
            &&& d.upgraded.len() > 0 ==> (updated_group(r).title matches Some(t) && text::ends(
                t,
                text::decimal(d.upgraded.len()),
            ))
        }),
{
    if d.upgraded.len() > 0 {
        let n = text::decimal(d.upgraded.len());
        let t = "Updated"@ + "  ·  "@ + n;
        assert(updated_group(SbomResultView::Found(d)).title == Some(t));
        assert(t.subrange(t.len() - n.len(), t.len() as int) =~= n);
    }
}

/// The booted image is told by organisation and image, and by its whole reference; why
/// there is nothing to compare is told exactly where there is nothing, with the words of
/// a failure.
pub proof fn law_missing_builds_are_told(image: ImageRefView, stack: StackResultView)
    ensures
        hero_text(Some(image)).0 == image.org.push('/') + image.image,
        hero_text(Some(image)).1 == image.registry.push('/') + image.org.push('/')
            + image.image.push(':') + image.tag,
        no_stack_text(stack) is None <==> stack is Found,
        stack matches StackResultView::Failed(m) ==> (no_stack_text(stack) matches Some(t) && t.1
            == Some(m)),
{
    reveal_strlit("/");
    crate::service::law_reference_spells_its_parts(image, Seq::empty());
    assert(image.org + "/"@ + image.image =~= image.org.push('/') + image.image);
}

} // verus!
