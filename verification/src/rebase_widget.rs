//! The page that switches to another variant or stream of the image.
use crate::calendar::moment_short_text;
use crate::registry_client::{Family, FamilyView, ImageVersion, VersionView};
use crate::service::{ref_text, FamilyInfo, FamilyInfoView, ImageRef, ImageRefView};
use crate::text;
use crate::ui::family_switches::{offers_dx, offers_nvidia, supports};
use crate::ui::rebase_dialog::{resolve_dx_nvidia_with_stream, switch_features, switch_target};
use vstd::prelude::*;

verus! {

/// Most builds that are listed.
pub const RECENT_BUILDS: usize = 4;

/// The page: the family and the booted image, the two switches and the stream,
/// and what the target row and the button show.
#[derive(Debug)]
pub struct RebaseWidget {
    pub family: Option<FamilyInfo>,
    pub booted: Option<ImageRef>,
    pub dx: bool,
    pub nvidia: bool,
    pub stream: String,
    pub subtitle: String,
    pub label: String,
    pub sensitive: bool,
}

/// What the page is.
#[verifier::ext_equal]
pub struct WidgetView {
    pub family: Option<FamilyInfoView>,
    pub booted: Option<ImageRefView>,
    pub dx: bool,
    pub nvidia: bool,
    pub stream: Seq<char>,
    pub subtitle: Seq<char>,
    pub label: Seq<char>,
    pub sensitive: bool,
}

impl DeepView for RebaseWidget {
    type V = WidgetView;

    open spec fn deep_view(&self) -> WidgetView {
        WidgetView {
            family: self.family.deep_view(),
            booted: self.booted.deep_view(),
            dx: self.dx,
            nvidia: self.nvidia,
            stream: self.stream@,
            subtitle: self.subtitle@,
            label: self.label@,
            sensitive: self.sensitive,
        }
    }
}

/// Whether the switch of developer tools is shown.
pub open spec fn dx_shown(family: Option<FamilyInfoView>) -> bool {
    family matches Some(f) && offers_dx(f)
}

/// Whether the switch of drivers is shown.
pub open spec fn nvidia_shown(family: Option<FamilyInfoView>) -> bool {
    family matches Some(f) && offers_nvidia(f)
}

/// What an image's name has behind the base of its family and a hyphen; nothing
/// where it does not begin so.
pub open spec fn suffix_of(base: Seq<char>, image: Seq<char>) -> Seq<char> {
    match text::without_prefix(image, base + "-"@) {
        Some(s) => s,
        None => ""@,
    }
}

/// The two switches as the page opens: as the booted image is.
pub open spec fn first_switches(
    family: Option<FamilyInfoView>,
    booted: Option<ImageRefView>,
) -> (bool, bool) {
    match (family, booted) {
        (Some(f), Some(image)) => {
            let suffix = suffix_of(f.base_image, image.image);
            (
                text::holds(suffix, "dx"@),
                text::holds(suffix, "nvidia"@) || text::holds(suffix, "open"@),
            )
        },
        _ => (false, false),
    }
}

/// The stream as the page opens: the first of the family.
pub open spec fn first_stream(family: Option<FamilyInfoView>) -> Seq<char> {
    match family {
        Some(f) => if f.streams.len() > 0 {
            f.streams[0]
        } else {
            ""@
        },
        None => ""@,
    }
}

/// The page when its target cannot be had: the button keeps its label.
pub open spec fn without_target(w: WidgetView, words: Seq<char>) -> WidgetView {
    WidgetView { subtitle: words, sensitive: false, ..w }
}

/// The page for its switches and its stream.
pub open spec fn recomputed(w: WidgetView, families: Seq<FamilyView>) -> WidgetView {
    match w.family {
        None => without_target(w, "(family not recognised)"@),
        Some(f) => if w.stream.len() == 0 {
            without_target(w, "(no stream selected)"@)
        } else {
            match switch_target(families, f.name, w.dx, w.nvidia, w.stream).1 {
                None => without_target(w, "(combination doesn't match a published image)"@),
                Some(target) => {
                    let same_image = w.booted matches Some(b) && b.image == target.image;
                    let current = w.booted matches Some(b) && b.image == target.image && b.tag
                        == w.stream;
                    WidgetView {
                        subtitle: ref_text(target),
                        label: if current {
                            "Currently Installed"@
                        } else if same_image {
                            "Switch to :"@ + w.stream
                        } else {
                            "Switch to "@ + target.image + ":"@ + w.stream
                        },
                        sensitive: !current,
                        ..w
                    }
                },
            }
        },
    }
}

/// The page as it opens.
pub open spec fn opened_page(
    family: Option<FamilyInfoView>,
    booted: Option<ImageRefView>,
    families: Seq<FamilyView>,
) -> WidgetView {
    recomputed(
        WidgetView {
            family,
            booted,
            dx: first_switches(family, booted).0,
            nvidia: first_switches(family, booted).1,
            stream: first_stream(family),
            subtitle: "Pick variant + stream above"@,
            label: "Switch"@,
            sensitive: false,
        },
        families,
    )
}

/// The features that the two switches ask for: the open variant of the drivers
/// is preferred where a family publishes one.
pub fn resolve_features(dx: bool, nvidia: bool) -> (r: Vec<String>)
    ensures
        r.deep_view() == switch_features(dx, nvidia, true),
{
    let mut out: Vec<String> = Vec::new();
    if dx {
        out.push("dx".to_string());
    }
    if nvidia {
        out.push("nvidia".to_string());
        out.push("open".to_string());
    }
    assert(out.deep_view() =~= switch_features(dx, nvidia, true));
    out
}

/// The page as it opens.
pub fn build_rebase_widget(
    family: Option<FamilyInfo>,
    booted: Option<ImageRef>,
    families: &Vec<Family>,
) -> (r: RebaseWidget)
    ensures
        r.deep_view() == opened_page(
            family.deep_view(),
            booted.deep_view(),
            families.deep_view(),
        ),
{
    let mut dx: bool = false;
    let mut nvidia: bool = false;
    let mut stream: String = "".to_string();
    if let Some(f) = &family {
        assert(f.streams.deep_view().len() == f.streams@.len());
        if f.streams.len() > 0 {
            stream = f.streams[0].clone();
            assert(f.streams.deep_view()[0] == f.streams@[0]@);
        }
        if let Some(image) = &booted {
            let prefix: String = text::cat2(f.base_image.as_str(), "-");
            let suffix: String = match text::strip_prefix(image.image.as_str(), prefix.as_str()) {
                Some(s) => s,
                None => "".to_string(),
            };
            dx = text::contains(suffix.as_str(), "dx");
            nvidia = text::contains(suffix.as_str(), "nvidia") || text::contains(
                suffix.as_str(),
                "open",
            );
        }
    }
    let mut page: RebaseWidget = RebaseWidget {
        family,
        booted,
        dx,
        nvidia,
        stream,
        subtitle: "Pick variant + stream above".to_string(),
        label: "Switch".to_string(),
        sensitive: false,
    };
    page.recompute(families);
    page
}

impl RebaseWidget {
    /// Whether the switch of developer tools is shown, and whether that of drivers
    /// is.
    pub fn shown(&self) -> (r: (bool, bool))
        ensures
            r == (dx_shown(self.deep_view().family), nvidia_shown(self.deep_view().family)),
    {
        match &self.family {
            Some(f) => (supports(f, "dx"), supports(f, "nvidia") || supports(f, "open")),
            None => (false, false),
        }
    }

    fn miss(&mut self, words: &str)
        ensures
            final(self).deep_view() == without_target(old(self).deep_view(), words@),
    {
        self.subtitle = words.to_string();
        self.sensitive = false;
    }

    /// Shows what the switches and the stream mean.
    pub fn recompute(&mut self, families: &Vec<Family>)
        ensures
            final(self).deep_view() == recomputed(old(self).deep_view(), families.deep_view()),
    {
        let target: Option<ImageRef> = match &self.family {
            None => {
                self.miss("(family not recognised)");
                return ;
            },
            Some(f) => if self.stream.as_str().is_empty() {
                self.miss("(no stream selected)");
                return ;
            } else {
                resolve_dx_nvidia_with_stream(
                    families,
                    f,
                    self.dx,
                    self.nvidia,
                    self.stream.as_str(),
                ).1
            },
        };
        let target: ImageRef = match target {
            None => {
                self.miss("(combination doesn't match a published image)");
                return ;
            },
            Some(t) => t,
        };
        self.subtitle = target.as_string();
        let same_image: bool = match &self.booted {
            Some(b) => text::same(b.image.as_str(), target.image.as_str()),
            None => false,
        };
        let current: bool = match &self.booted {
            Some(b) => same_image && text::same(b.tag.as_str(), self.stream.as_str()),
            None => false,
        };
        self.sensitive = !current;
        self.label =
        if current {
            "Currently Installed".to_string()
        } else if same_image {
            text::cat2("Switch to :", self.stream.as_str())
        } else {
            text::cat4("Switch to ", target.image.as_str(), ":", self.stream.as_str())
        };
    }

    /// The switch of developer tools is set.
    pub fn set_dx(&mut self, on: bool, families: &Vec<Family>)
        ensures
            final(self).deep_view() == recomputed(
                WidgetView { dx: on, ..old(self).deep_view() },
                families.deep_view(),
            ),
    {
        self.dx = on;
        self.recompute(families);
    }

    /// The switch of drivers is set.
    pub fn set_nvidia(&mut self, on: bool, families: &Vec<Family>)
        ensures
            final(self).deep_view() == recomputed(
                WidgetView { nvidia: on, ..old(self).deep_view() },
                families.deep_view(),
            ),
    {
        self.nvidia = on;
        self.recompute(families);
    }

    /// A stream is selected.
    pub fn select_stream(&mut self, stream: String, families: &Vec<Family>)
        ensures
            final(self).deep_view() == recomputed(
                WidgetView { stream: stream@, ..old(self).deep_view() },
                families.deep_view(),
            ),
    {
        self.stream = stream;
        self.recompute(families);
    }
}

/// The image that the switches and the stream mean.
pub open spec fn chosen_target(w: WidgetView, families: Seq<FamilyView>) -> Option<ImageRefView> {
    match w.family {
        Some(f) => if w.stream.len() > 0 {
            switch_target(families, f.name, w.dx, w.nvidia, w.stream).1
        } else {
            None
        },
        None => None,
    }
}

/// The button can be pressed exactly where the switches and the stream mean a
/// published image that is not the booted one; the row above it names that image.
pub proof fn law_button_switches_to_what_is_shown(w: WidgetView, families: Seq<FamilyView>)
    ensures
        ({
            let page = recomputed(w, families);
            match chosen_target(w, families) {
                Some(target) => {
                    &&& page.subtitle == ref_text(target)
                    &&& page.sensitive == !(w.booted matches Some(b) && b.image == target.image
                        && b.tag == target.tag)
                },
                None => !page.sensitive,
            }
        }),
{
}

/// To recompute twice changes nothing.
pub proof fn law_recompute_twice_changes_nothing(w: WidgetView, families: Seq<FamilyView>)
    ensures
        recomputed(recomputed(w, families), families) == recomputed(w, families),
{
}

// ── Recent builds ────────────────────────────────────────────────────────────

/// A row: version, date, and kernel where it is known.
pub type BuildRow = (Seq<char>, Seq<char>, Option<Seq<char>>);

/// The row of a build.
pub open spec fn build_row(v: VersionView) -> BuildRow {
    (
        v.version,
        moment_short_text(v.created),
        if v.kernel.len() > 0 {
            Some(v.kernel)
        } else {
            None
        },
    )
}

/// The rows of the newest builds; one row that says so where there are none.
pub open spec fn build_rows(versions: Seq<VersionView>) -> Seq<BuildRow> {
    if versions.len() == 0 {
        seq![("No recent builds returned by the registry"@, ""@, None)]
    } else {
        versions.take(
            if versions.len() < 4 {
                versions.len() as int
            } else {
                4
            },
        ).map_values(|v: VersionView| build_row(v))
    }
}

/// The rows of builds, newest first.
pub fn recent_build_rows(versions: &Vec<ImageVersion>) -> (r: Vec<
    (String, String, Option<String>),
>)
    ensures
        r.deep_view() == build_rows(versions.deep_view()),
{
    let mut out: Vec<(String, String, Option<String>)> = Vec::new();
    assert(versions.deep_view().len() == versions@.len());
    if versions.len() == 0 {
        out.push(("No recent builds returned by the registry".to_string(), "".to_string(), None));
        assert(out.deep_view() =~= build_rows(versions.deep_view()));
        return out;
    }
    let ghost want = build_rows(versions.deep_view());
    let n: usize = if versions.len() < RECENT_BUILDS {
        versions.len()
    } else {
        RECENT_BUILDS
    };
    let mut i: usize = 0;
    assert(out.deep_view() =~= want.take(0));
    while i < n
        invariant
            0 <= i <= n <= versions@.len(),
            n == want.len(),
            n == if versions@.len() < 4 {
                versions@.len()
            } else {
                4
            },
            want == build_rows(versions.deep_view()),
            versions@.len() > 0,
            out.deep_view() == want.take(i as int),
        decreases n - i,
    {
        let v: &ImageVersion = &versions[i];
        let kernel: Option<String> = if v.kernel.as_str().is_empty() {
            None
        } else {
            Some(v.kernel.clone())
        };
        let ghost before = out.deep_view();
        let row: (String, String, Option<String>) = (v.version.clone(), v.created.short(), kernel);
        let ghost rv = row.deep_view();
        out.push(row);
        assert(versions.deep_view()[i as int] == v.deep_view());
        assert(rv == want[i as int]);
        assert(out.deep_view() =~= before.push(rv));
        i += 1;
        assert(out.deep_view() =~= want.take(i as int));
    }
    assert(want.take(i as int) =~= want);
    out
}

/// The button switches to the image of the switches, in the stream that is picked: the row
/// spells that reference out. It cannot be pressed where that is the booted image and tag,
/// where no stream is picked, where the family is not known, or where no such image is
/// published. Switches and stream stay as they are.
pub proof fn law_button_leads_to_the_picked_stream(
    w: WidgetView,
    families: Seq<FamilyView>,
    target: ImageRefView,
)
    ensures
        chosen_target(w, families) == Some(target) ==> {
            let page = recomputed(w, families);
            &&& target.tag == w.stream
            &&& page.subtitle == target.registry.push('/') + target.org.push('/')
                + target.image.push(':') + w.stream
            &&& page.sensitive <==> !(w.booted matches Some(b) && b.image == target.image && b.tag
                == w.stream)
            &&& page.sensitive ==> text::ends(page.label, ":"@ + w.stream)
        },
        w.family is None || w.stream.len() == 0 ==> !recomputed(w, families).sensitive,
        recomputed(w, families).dx == w.dx,
        recomputed(w, families).nvidia == w.nvidia,
        recomputed(w, families).stream == w.stream,
        recomputed(w, families).family == w.family,
        recomputed(w, families).booted == w.booted,
{
    if chosen_target(w, families) == Some(target) {
        let page = recomputed(w, families);
        crate::service::law_reference_spells_its_parts(target, Seq::empty());
        let tail = ":"@ + w.stream;
        reveal_strlit("Switch to :");
        reveal_strlit("Switch to ");
        reveal_strlit(":");
        if page.sensitive {
            let same_image = w.booted matches Some(b) && b.image == target.image;
            if same_image {
                assert("Switch to :"@ =~= "Switch to "@ + ":"@);
                assert(page.label =~= "Switch to "@ + tail);
            } else {
                assert(page.label =~= "Switch to "@ + target.image + tail);
            }
            assert(page.label.subrange(page.label.len() - tail.len(), page.label.len() as int)
                =~= tail);
        }
    }
}

/// The page opens in the first stream of the family, with the switches that the name of
/// the booted image tells behind that of the base.
pub proof fn law_page_opens_as_booted(
    f: FamilyInfoView,
    booted: ImageRefView,
    families: Seq<FamilyView>,
    suffix: Seq<char>,
)
    requires
        booted.image == f.base_image + "-"@ + suffix,
    ensures
        ({
            let page = opened_page(Some(f), Some(booted), families);
            &&& page.dx <==> text::holds(suffix, "dx"@)
            &&& page.nvidia <==> text::holds(suffix, "nvidia"@) || text::holds(suffix, "open"@)
            &&& f.streams.len() > 0 ==> page.stream == f.streams[0]
        }),
{
    let prefix = f.base_image + "-"@;
    assert(booted.image.subrange(0, prefix.len() as int) =~= prefix);
    assert(booted.image.skip(prefix.len() as int) =~= suffix);
}

/// The recent builds are the first of the list, at most four, each with its own version
/// and kernel.
pub proof fn law_recent_builds_are_told(versions: Seq<VersionView>, i: int)
    requires
        versions.len() > 0,
    ensures
        build_rows(versions).len() == if versions.len() < 4 {
            versions.len()
        } else {
            4
        },
        0 <= i < build_rows(versions).len() ==> build_rows(versions)[i].0 == versions[i].version && (
        versions[i].kernel.len() > 0 ==> build_rows(versions)[i].2 == Some(versions[i].kernel)),
{
}

} // verus!
