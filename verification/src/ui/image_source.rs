//! The page of the image's source: its tags, its variants, what belongs to it in
//! the registry, and the view as it starts.
use crate::app::{AppState, PreflightStatus, StateView};
use crate::registry_client::{AvailableTag, Family, FamilyView, ImageVersion, VersionView};
use crate::service::{FamilyInfo, FamilyInfoView, ImageRef, ImageRefView, ServiceError};
use crate::text;
use crate::ui::deployments::{DeploymentView, MockDeployment};
use crate::ui::family_switches::{offers_dx, offers_nvidia, supports};
use crate::ui::image_info::{
    image_view, org_repo, parse_org_repo, read_image_info, read_registry_uri, read_selected_tag,
    registry_uri_of, selected_tag_of, stream_or_tag, stream_tag, system_name, OsRelease,
    OsReleaseView,
};
use crate::ui::rebase_dialog::{
    default_switch_target, derive_initial_toggle_state, resolve_dx_nvidia, switches_of,
};
use crate::ui::segmented_progress::{empty_bar, SegmentedProgress};
use crate::ui::status_view::{
    position_of, position_or_first, EffectView, InputView, StatusEffect, StatusModel, StatusView,
    StatusViewInput,
};
use vstd::prelude::*;

verus! {

// ── Tags ─────────────────────────────────────────────────────────────────────

/// The tags to choose from before the registry was asked: those that the image
/// configures, else the newest one and the selected one.
pub open spec fn first_tags(configured: Option<Seq<Seq<char>>>, selected: Seq<char>) -> Seq<
    Seq<char>,
> {
    match configured {
        Some(tags) => tags,
        None => if selected.len() > 0 && selected != "latest"@ {
            seq!["latest"@, selected]
        } else {
            seq!["latest"@]
        },
    }
}

fn initial_tags(configured: Option<Vec<String>>, selected: &str) -> (r: Vec<String>)
    ensures
        r.deep_view() == first_tags(configured.deep_view(), selected@),
{
    match configured {
        Some(tags) => tags,
        None => {
            let mut tags: Vec<String> = Vec::new();
            tags.push("latest".to_string());
            if !selected.is_empty() && !text::same(selected, "latest") {
                tags.push(selected.to_string());
            }
            assert(tags.deep_view() =~= first_tags(None, selected@));
            tags
        },
    }
}

// ── Variants ─────────────────────────────────────────────────────────────────

/// The switches of the image's variants: which are shown, and where they stand.
#[derive(Debug, Clone, Copy, PartialEq, Eq, Structural)]
pub struct VariantSwitches {
    pub dx_shown: bool,
    pub nvidia_shown: bool,
    pub dx: bool,
    pub nvidia: bool,
}

/// The switches of the image's variants; none are shown where its family is not
/// known.
pub open spec fn variant_switches(
    family: Option<FamilyInfoView>,
    image: Option<ImageRefView>,
) -> VariantSwitches {
    match family {
        None => VariantSwitches { dx_shown: false, nvidia_shown: false, dx: false, nvidia: false },
        Some(f) => VariantSwitches {
            dx_shown: offers_dx(f),
            nvidia_shown: offers_nvidia(f),
            dx: switches_of(f.base_image, image).0,
            nvidia: switches_of(f.base_image, image).1,
        },
    }
}

/// The switches of the image's variants.
pub fn variants(family: Option<&FamilyInfo>, image: Option<&ImageRef>) -> (r: VariantSwitches)
    ensures
        r == variant_switches(
            match family {
                Some(f) => Some(f.deep_view()),
                None => None,
            },
            image_view(image),
        ),
{
    match family {
        None => VariantSwitches { dx_shown: false, nvidia_shown: false, dx: false, nvidia: false },
        Some(f) => {
            let (dx, nvidia) = derive_initial_toggle_state(f, image);
            VariantSwitches {
                dx_shown: supports(f, "dx"),
                nvidia_shown: supports(f, "nvidia") || supports(f, "open"),
                dx,
                nvidia,
            }
        },
    }
}

/// The address of the image that the switches mean: in the same place of the
/// same registry. None where no such image is published, or the address has no
/// place.
pub open spec fn variant_address(
    families: Seq<FamilyView>,
    family: FamilyInfoView,
    uri: Seq<char>,
    dx: bool,
    nvidia: bool,
) -> Option<Seq<char>> {
    let parts = text::pieces(uri, '/');
    match default_switch_target(families, family, dx, nvidia).1 {
        Some(target) => if parts.len() >= 2 {
            Some(parts[0] + "/"@ + parts[1] + "/"@ + target.image)
        } else {
            None
        },
        None => None,
    }
}

/// The address of the image that the switches mean.
pub fn variant_uri(
    families: &Vec<Family>,
    family: &FamilyInfo,
    uri: &str,
    dx: bool,
    nvidia: bool,
) -> (r: Option<String>)
    ensures
        r.deep_view() == variant_address(families.deep_view(), family.deep_view(), uri@, dx, nvidia),
{
    match resolve_dx_nvidia(families, family, dx, nvidia).1 {
        None => None,
        Some(target) => {
            let parts: Vec<String> = text::split(uri, '/');
            assert(parts.deep_view().len() == parts@.len());
            if parts.len() >= 2 {
                assert(parts.deep_view()[0] == parts@[0]@);
                assert(parts.deep_view()[1] == parts@[1]@);
                Some(
                    text::cat5(
                        parts[0].as_str(),
                        "/",
                        parts[1].as_str(),
                        "/",
                        target.image.as_str(),
                    ),
                )
            } else {
                None
            }
        },
    }
}

// ── What to fetch ────────────────────────────────────────────────────────────

/// What is fetched for an address and a tag: the stream in the registry, the
/// commits, and the two images whose packages are compared.
#[derive(Debug, PartialEq)]
pub struct FetchPlan {
    pub image: Option<ImageRef>,
    /// Most builds to list.
    pub max_versions: usize,
    pub commits_url: Option<String>,
    /// The booted reference, and the selected one.
    pub sboms: Option<(String, String)>,
}

/// What that is.
#[verifier::ext_equal]
pub struct FetchPlanView {
    pub image: Option<ImageRefView>,
    pub max_versions: int,
    pub commits_url: Option<Seq<char>>,
    pub sboms: Option<(Seq<char>, Seq<char>)>,
}

impl DeepView for FetchPlan {
    type V = FetchPlanView;

    open spec fn deep_view(&self) -> FetchPlanView {
        FetchPlanView {
            image: self.image.deep_view(),
            max_versions: self.max_versions as int,
            commits_url: self.commits_url.deep_view(),
            sboms: self.sboms.deep_view(),
        }
    }
}

/// The image whose builds and tags are listed.
pub open spec fn listed_image(uri: Seq<char>, tag: Seq<char>) -> Option<ImageRefView> {
    let parts = text::pieces(uri, '/');
    if parts.len() >= 3 {
        Some(
            ImageRefView {
                registry: parts[0],
                org: parts[1],
                image: text::joined(parts.skip(2), "/"@),
                tag: stream_or_tag(tag),
            },
        )
    } else {
        None
    }
}

/// The address of the commits.
pub open spec fn commits_address(uri: Seq<char>) -> Option<Seq<char>> {
    match org_repo(uri) {
        Some((org, repo)) => Some(
            "https://api.github.com/repos/"@ + org + "/"@ + repo + "/commits"@,
        ),
        None => None,
    }
}

/// What is fetched for an address and a tag. Packages are not compared while an
/// image is only pretended.
pub open spec fn fetch_plan(
    uri: Seq<char>,
    tag: Seq<char>,
    booted_tag: Seq<char>,
    mocked: bool,
) -> FetchPlanView {
    FetchPlanView {
        image: listed_image(uri, tag),
        max_versions: 8,
        commits_url: commits_address(uri),
        sboms: if mocked {
            None
        } else {
            Some((uri + ":"@ + booted_tag, uri + ":"@ + tag))
        },
    }
}

/// What is fetched for an address and a tag.
pub fn spawn_changelog_fetch(uri: &str, tag: &str, booted_tag: &str, mocked: bool) -> (r: FetchPlan)
    ensures
        r.deep_view() == fetch_plan(uri@, tag@, booted_tag@, mocked),
{
    let parts: Vec<String> = text::split(uri, '/');
    let ghost all = parts.deep_view();
    assert(all.len() == parts@.len());
    let image: Option<ImageRef> = if parts.len() >= 3 {
        assert(all[0] == parts@[0]@);
        assert(all[1] == parts@[1]@);
        Some(
            ImageRef {
                registry: parts[0].clone(),
                org: parts[1].clone(),
                image: text::join(&parts, 2, "/"),
                tag: stream_tag(tag),
            },
        )
    } else {
        None
    };
    let commits_url: Option<String> = match parse_org_repo(uri) {
        Some((org, repo)) => Some(
            text::cat5(
                "https://api.github.com/repos/",
                org.as_str(),
                "/",
                repo.as_str(),
                "/commits",
            ),
        ),
        None => None,
    };
    let sboms: Option<(String, String)> = if mocked {
        None
    } else {
        Some((text::cat3(uri, ":", booted_tag), text::cat3(uri, ":", tag)))
    };
    FetchPlan { image, max_versions: 8, commits_url, sboms }
}

/// What the view is told of the tags that the registry replied: nothing where it
/// failed, or knows none.
pub fn tags_fetched(reply: Result<Vec<AvailableTag>, ServiceError>) -> (r: Option<StatusViewInput>)
    ensures
        r.deep_view() == match reply {
            Ok(tags) => if tags.deep_view().len() > 0 {
                Some(InputView::AvailableTagsLoaded(tags.deep_view()))
            } else {
                None
            },
            Err(_) => None,
        },
{
    match reply {
        Ok(tags) => {
            assert(tags.deep_view().len() == tags@.len());
            if tags.len() > 0 {
                Some(StatusViewInput::AvailableTagsLoaded(tags))
            } else {
                None
            }
        },
        Err(_) => None,
    }
}

/// What the view is told of the builds that the registry replied: nothing where
/// it failed.
pub fn versions_fetched(reply: Result<Vec<ImageVersion>, ServiceError>) -> (r: Option<
    StatusViewInput,
>)
    ensures
        r.deep_view() == match reply {
            Ok(versions) => Some(InputView::RegistryVersionsLoaded(versions.deep_view())),
            Err(_) => None,
        },
{
    match reply {
        Ok(versions) => Some(StatusViewInput::RegistryVersionsLoaded(versions)),
        Err(_) => None,
    }
}

// ── The view as it starts ────────────────────────────────────────────────────

/// What the outside tells when the view starts.
#[derive(Debug)]
pub struct Start {
    pub image: Option<ImageRef>,
    pub os: OsRelease,
    pub last_update: Option<String>,
    pub auto_updates: bool,
    pub configured_tags: Option<Vec<String>>,
    pub deployments: Vec<MockDeployment>,
}

/// What that is.
#[verifier::ext_equal]
pub struct StartView {
    pub image: Option<ImageRefView>,
    pub os: OsReleaseView,
    pub last_update: Option<Seq<char>>,
    pub auto_updates: bool,
    pub configured_tags: Option<Seq<Seq<char>>>,
    pub deployments: Seq<DeploymentView>,
}

impl DeepView for Start {
    type V = StartView;

    open spec fn deep_view(&self) -> StartView {
        StartView {
            image: self.image.deep_view(),
            os: self.os.deep_view(),
            last_update: self.last_update.deep_view(),
            auto_updates: self.auto_updates,
            configured_tags: self.configured_tags.deep_view(),
            deployments: self.deployments.deep_view(),
        }
    }
}

/// The address that the view starts with.
pub open spec fn first_uri(s: StartView) -> Seq<char> {
    match registry_uri_of(s.image) {
        Some(uri) => uri,
        None => ""@,
    }
}

/// The view as it starts.
pub open spec fn first_model(state: StateView, s: StartView) -> StatusModel {
    StatusModel {
        state,
        updating: false,
        log_text: ""@,
        preflight: PreflightStatus::Checking,
        last_update: s.last_update,
        image_info: system_name(s.os, s.image),
        bar: empty_bar(),
        active_module: None,
        reboot_pending: false,
        registry_uri: first_uri(s),
        selected_tag: selected_tag_of(s.image),
        deployments: s.deployments,
        expanded: None,
        changelog_version: selected_tag_of(s.image),
        versions: Seq::empty(),
        commits: Seq::empty(),
        sbom: None,
        tag_raws: first_tags(s.configured_tags, selected_tag_of(s.image)),
        rollback_target: None,
        auto_updates: s.auto_updates,
    }
}

/// What the widgets have to do when the view starts.
pub open spec fn first_effects(s: StartView) -> Seq<EffectView> {
    let uri = first_uri(s);
    let tag = selected_tag_of(s.image);
    let tags = first_tags(s.configured_tags, tag);
    seq![
        EffectView::SetRegistryText(uri),
        EffectView::SetRegistrySub(uri + ":"@ + tag),
        EffectView::SetTags(tags, position_or_first(tags, tag), tags.len() > 1),
        EffectView::FetchChangelog(uri, tag),
        EffectView::RefreshIdle,
        EffectView::ShowStack("idle"@),
        EffectView::RebuildHistory,
        EffectView::RebuildChangelog,
    ]
}

impl StatusView {
    /// The view as it starts, and what the widgets have to do.
    pub fn init(state: AppState, start: Start) -> (r: (StatusView, Vec<StatusEffect>))
        ensures
            r.0.deep_view() == first_model(state.deep_view(), start.deep_view()),
            r.1.deep_view() == first_effects(start.deep_view()),
    {
        let ghost s = start.deep_view();
        let image: Option<&ImageRef> = start.image.as_ref();
        let image_info: Option<String> = read_image_info(&start.os, image);
        let uri: String = match read_registry_uri(image) {
            Some(uri) => uri,
            None => "".to_string(),
        };
        let tag: String = read_selected_tag(image);
        let tags: Vec<String> = initial_tags(start.configured_tags, tag.as_str());
        let ghost tv = tags.deep_view();
        let active: usize = position_of(&tags, tag.as_str());
        let choice: bool = tags.len() > 1;
        assert(tv.len() == tags@.len());
        let raws: Vec<String> = tags.clone();
        assert(raws.deep_view() =~= tv);
        let no_versions: Vec<ImageVersion> = Vec::new();
        assert(no_versions.deep_view() =~= Seq::<VersionView>::empty());
        let no_commits: Vec<(String, String, String)> = Vec::new();
        assert(no_commits.deep_view() =~= Seq::<(Seq<char>, Seq<char>, Seq<char>)>::empty());
        let mut effects: Vec<StatusEffect> = Vec::new();
        effects.push(StatusEffect::SetRegistryText(uri.clone()));
        effects.push(StatusEffect::SetRegistrySub(text::cat3(uri.as_str(), ":", tag.as_str())));
        effects.push(StatusEffect::SetTags(tags, active, choice));
        effects.push(StatusEffect::FetchChangelog(uri.clone(), tag.clone()));
        effects.push(StatusEffect::RefreshIdle);
        effects.push(StatusEffect::ShowStack("idle".to_string()));
        effects.push(StatusEffect::RebuildHistory);
        effects.push(StatusEffect::RebuildChangelog);
        assert(effects.deep_view() =~= first_effects(s));
        let view: StatusView = StatusView {
            state,
            updating: false,
            log_text: "".to_string(),
            preflight_status: PreflightStatus::Checking,
            last_update_text: start.last_update,
            image_info,
            seg_progress: SegmentedProgress::new(),
            active_module: None,
            reboot_pending: false,
            registry_uri: uri,
            selected_tag: tag.clone(),
            deployments: start.deployments,
            expanded_deployment_id: None,
            changelog_version: tag,
            registry_versions: no_versions,
            github_commits: no_commits,
            sbom_diff: None,
            tag_raws: raws,
            rollback_target: None,
            auto_updates: start.auto_updates,
        };
        assert(view.deep_view() =~= first_model(state.deep_view(), s));
        (view, effects)
    }
}

/// The tag that is selected at the start is among the tags that are shown,
/// unless the image configures others.
pub proof fn law_first_tag_can_be_chosen(selected: Seq<char>)
    requires
        selected.len() > 0,
    ensures
        first_tags(None, selected).contains(selected),
        first_tags(None, selected).contains("latest"@),
{
    let tags = first_tags(None, selected);
    assert(tags[0] == "latest"@);
    if selected != "latest"@ {
        assert(tags[1] == selected);
    }
}

/// What is fetched for an address `registry/org/rest` and a tag: the builds of that image
/// in the stream of the tag, its commits, and the packages of the booted tag and of the
/// one that is selected; no packages where another image is pretended.
pub proof fn law_fetch_is_for_the_address(
    registry: Seq<char>,
    org: Seq<char>,
    rest: Seq<Seq<char>>,
    tag: Seq<char>,
    booted_tag: Seq<char>,
    mocked: bool,
)
    requires
        !registry.contains('/'),
        !org.contains('/'),
        rest.len() > 0,
        forall|i: int| 0 <= i < rest.len() ==> !(#[trigger] rest[i]).contains('/'),
    ensures
        ({
            let uri = text::joined(seq![registry, org] + rest, seq!['/']);
            let plan = fetch_plan(uri, tag, booted_tag, mocked);
            &&& plan.image == Some(
                ImageRefView {
                    registry,
                    org,
                    image: text::joined(rest, seq!['/']),
                    tag: stream_or_tag(tag),
                },
            )
            &&& mocked ==> plan.sboms is None
            &&& !mocked ==> plan.sboms == Some(
                (uri.push(':') + booted_tag, uri.push(':') + tag),
            )
            &&& plan.max_versions == 8
        }),
{
    reveal_strlit("/");
    reveal_strlit(":");
    let parts = seq![registry, org] + rest;
    let uri = text::joined(parts, seq!['/']);
    assert forall|i: int| 0 <= i < parts.len() implies !(#[trigger] parts[i]).contains('/') by {
        if i >= 2 {
            assert(parts[i] == rest[i - 2]);
        }
    }
    text::law_joined_pieces_come_apart(parts, '/');
    assert(parts.skip(2) =~= rest);
    assert("/"@ =~= seq!['/']);
    assert(uri + ":"@ + booted_tag =~= uri.push(':') + booted_tag);
    assert(uri + ":"@ + tag =~= uri.push(':') + tag);
}

/// The view starts with what the booted image is: its address, its stream, which is
/// selected and shown, and the images on disk as they are. What is fetched is for them.
pub proof fn law_view_starts_with_the_booted_image(state: StateView, s: StartView, i: ImageRefView)
    requires
        s.image == Some(i),
    ensures
        ({
            let m = first_model(state, s);
            &&& m.registry_uri == i.registry.push('/') + i.org.push('/') + i.image
            &&& m.selected_tag == stream_or_tag(i.tag)
            &&& m.changelog_version == m.selected_tag
            &&& m.deployments == s.deployments
            &&& m.state == state
            &&& m.auto_updates == s.auto_updates
            &&& m.last_update == s.last_update
            &&& !m.reboot_pending && !m.updating
            &&& m.versions.len() == 0
            &&& first_effects(s).contains(
                EffectView::FetchChangelog(m.registry_uri, m.selected_tag),
            )
        }),
{
    reveal_strlit("/");
    let m = first_model(state, s);
    assert(m.registry_uri =~= i.registry.push('/') + i.org.push('/') + i.image);
    assert(first_effects(s)[3] == EffectView::FetchChangelog(m.registry_uri, m.selected_tag));
}

/// The address of a variant is that of the image with only the image in it swapped: the
/// registry and the organisation stay.
pub proof fn law_variant_keeps_the_place(
    families: Seq<FamilyView>,
    family: FamilyInfoView,
    registry: Seq<char>,
    org: Seq<char>,
    image: Seq<char>,
    dx: bool,
    nvidia: bool,
)
    requires
        !registry.contains('/'),
        !org.contains('/'),
        !image.contains('/'),
    ensures
        ({
            let uri = text::joined(seq![registry, org, image], seq!['/']);
            let found = default_switch_target(families, family, dx, nvidia).1;
            &&& found is None ==> variant_address(families, family, uri, dx, nvidia) is None
            &&& found matches Some(t) ==> variant_address(families, family, uri, dx, nvidia)
                == Some(registry.push('/') + org.push('/') + t.image)
        }),
{
    reveal_strlit("/");
    let parts = seq![registry, org, image];
    text::law_joined_pieces_come_apart(parts, '/');
    if let Some(t) = default_switch_target(families, family, dx, nvidia).1 {
        assert(registry + "/"@ + org + "/"@ + t.image =~= registry.push('/') + org.push('/')
            + t.image);
    }
}

/// The switches of the source page are shown where the family has them, and stand as the
/// name of the booted image tells; without a family there are none.
pub proof fn law_source_switches_are_the_family_s(
    f: FamilyInfoView,
    image: Option<ImageRefView>,
    features: Seq<Seq<char>>,
)
    requires
        forall|j: int| 0 <= j < features.len() ==> !(#[trigger] features[j]).contains('-'),
        image matches Some(i) && i.image == crate::families::suffixed(f.base_image, features),
    ensures
        ({
            let v = variant_switches(Some(f), image);
            &&& v.dx <==> features.contains("dx"@)
            &&& v.nvidia <==> features.contains("nvidia"@) || features.contains("open"@)
            &&& v.dx_shown <==> offers_dx(f)
            &&& v.nvidia_shown <==> offers_nvidia(f)
        }),
        ({
            let none = variant_switches(None, image);
            !none.dx && !none.nvidia && !none.dx_shown && !none.nvidia_shown
        }),
{
    crate::ui::rebase_dialog::law_suffix_is_read_back(f.base_image, features);
}

} // verus!
