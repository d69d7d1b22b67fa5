//! Rebasing to another build or variant: which image the switches mean, what the
//! tool's output tells, and what the dialog shows at each step.
use crate::action_journal::{after_action, Journal};
use crate::families::{catalogue, law_catalogue_is_sound, named_by_features, suffixed};
use crate::privileged::{resolved, Privilege};
use crate::registry_client::{
    image_for, same_features, Family, FamilyView, ImageVersion, VariantView, VersionView,
};
use crate::service::{
    default_stream, default_target, error_text, family_named, info_of, resolve_target, resolve_target_with_stream,
    target_in_stream, FamilyInfo, FamilyInfoView, ImageRef, ImageRefView, ServiceError,
};
use crate::text;
use crate::ui::host_actions::{
    code_name, code_text, plan_silently, silent_plan, Flags, HostPlan, PlanView,
};
use crate::ui::image_info::image_view;
use crate::ui::status_view::elapsed_text;
use vstd::prelude::*;

verus! {

/// Number of builds that are fetched when the dialog opens.
pub const INITIAL_FETCH_COUNT: usize = 12;

/// Number of builds that are fetched when older ones are asked for.
pub const EXPANDED_FETCH_COUNT: usize = 120;

/// Number of builds in the list of recent ones.
pub const RECENT_DROPDOWN_COUNT: usize = 4;

// ── Which image ──────────────────────────────────────────────────────────────

/// A reference with another image in it: only the last part of the path is
/// replaced, and the tag stays. A text that is no such reference stays as it is.
pub open spec fn with_image(full_ref: Seq<char>, image: Seq<char>) -> Seq<char> {
    match text::cut_last(full_ref, ':') {
        None => full_ref,
        Some((before_tag, tag)) => match text::cut_last(before_tag, '/') {
            None => full_ref,
            Some((place, _)) => place + "/"@ + image + ":"@ + tag,
        },
    }
}

/// The reference that a build and the wanted features mean; the build's own
/// where there is no family, or it publishes no such image.
pub open spec fn target_ref(
    families: Seq<FamilyView>,
    full_ref: Seq<char>,
    family: Option<FamilyInfoView>,
    features: Seq<Seq<char>>,
) -> Seq<char> {
    match family {
        None => full_ref,
        Some(f) => match default_target(families, f, features) {
            None => full_ref,
            Some(target) => with_image(full_ref, target.image),
        },
    }
}

/// What a reference to nothing, or to a family, is.
pub open spec fn family_view(family: Option<&FamilyInfo>) -> Option<FamilyInfoView> {
    match family {
        Some(f) => Some(f.deep_view()),
        None => None,
    }
}

/// The reference that a build and the wanted features mean.
pub fn resolve_target_ref(
    families: &Vec<Family>,
    full_ref: &str,
    family: Option<&FamilyInfo>,
    features: &Vec<String>,
) -> (r: String)
    ensures
        r@ == target_ref(
            families.deep_view(),
            full_ref@,
            family_view(family),
            features.deep_view(),
        ),
{
    let target: ImageRef = match family {
        None => return full_ref.to_string(),
        Some(f) => match resolve_target(families, f, features) {
            None => return full_ref.to_string(),
            Some(t) => t,
        },
    };
    match text::rsplit_once(full_ref, ':') {
        None => full_ref.to_string(),
        Some((before_tag, tag)) => match text::rsplit_once(before_tag.as_str(), '/') {
            None => full_ref.to_string(),
            Some((place, _)) => text::cat5(
                place.as_str(),
                "/",
                target.image.as_str(),
                ":",
                tag.as_str(),
            ),
        },
    }
}

/// Without a family, or for an image that is not published, a reference stays as
/// it is.
pub proof fn law_unpublished_target_keeps_the_build(
    families: Seq<FamilyView>,
    full_ref: Seq<char>,
    family: Option<FamilyInfoView>,
    features: Seq<Seq<char>>,
)
    requires
        family matches Some(f) ==> default_target(families, f, features) is None,
    ensures
        target_ref(families, full_ref, family, features) == full_ref,
{
}

/// Whether a variant of a family has exactly these features, and none before it has.
pub open spec fn is_variant_for(f: FamilyView, k: int, features: Seq<Seq<char>>) -> bool {
    &&& 0 <= k < f.variants.len()
    &&& f.variants[k].features.to_set() == features.to_set()
    &&& forall|j: int|
        0 <= j < k ==> (#[trigger] f.variants[j]).features.to_set() != features.to_set()
}

/// Whether a family of a catalogue is the first with its name.
pub open spec fn is_family_at(families: Seq<FamilyView>, i: int, name: Seq<char>) -> bool {
    &&& 0 <= i < families.len()
    &&& families[i].name == name
    &&& forall|j: int| 0 <= j < i ==> (#[trigger] families[j]).name != name
}

proof fn lemma_family_at(families: Seq<FamilyView>, i: int, name: Seq<char>)
    requires
        is_family_at(families, i, name),
    ensures
        family_named(families, name) == Some(families[i]),
    decreases families.len(),
{
    if i > 0 {
        assert(families[0].name != name);
        let rest = families.drop_first();
        assert forall|j: int| 0 <= j < i - 1 implies (#[trigger] rest[j]).name != name by {
            assert(families[j + 1].name != name);
        }
        lemma_family_at(rest, i - 1, name);
    }
}

proof fn lemma_same_sets(a: Seq<Seq<char>>, b: Seq<Seq<char>>)
    ensures
        same_features(a, b) <==> a.to_set() == b.to_set(),
{
    if same_features(a, b) {
        assert forall|x: Seq<char>| a.contains(x) <==> b.contains(x) by {
            if a.contains(x) {
                let i = choose|i: int| 0 <= i < a.len() && a[i] == x;
                assert(b.contains(a[i]));
            }
            if b.contains(x) {
                let i = choose|i: int| 0 <= i < b.len() && b[i] == x;
                assert(a.contains(b[i]));
            }
        }
        assert(a.to_set() =~= b.to_set());
    }
    if a.to_set() == b.to_set() {
        assert forall|i: int| 0 <= i < a.len() implies b.contains(#[trigger] a[i]) by {
            assert(a.to_set().contains(a[i]));
        }
        assert forall|i: int| 0 <= i < b.len() implies a.contains(#[trigger] b[i]) by {
            assert(b.to_set().contains(b[i]));
        }
    }
}

proof fn lemma_variant_for(variants: Seq<VariantView>, k: int, features: Seq<Seq<char>>)
    requires
        0 <= k < variants.len(),
        variants[k].features.to_set() == features.to_set(),
        forall|j: int|
            0 <= j < k ==> (#[trigger] variants[j]).features.to_set() != features.to_set(),
    ensures
        image_for(variants, features) == Some(variants[k].image),
    decreases variants.len(),
{
    lemma_same_sets(variants[0].features, features);
    if k > 0 {
        assert(variants[0].features.to_set() != features.to_set());
        let rest = variants.drop_first();
        assert forall|j: int| 0 <= j < k - 1 implies (#[trigger] rest[j]).features.to_set()
            != features.to_set() by {
            assert(variants[j + 1].features.to_set() != features.to_set());
        }
        lemma_variant_for(rest, k - 1, features);
    }
}

proof fn lemma_no_variant(variants: Seq<VariantView>, features: Seq<Seq<char>>)
    requires
        forall|j: int|
            0 <= j < variants.len() ==> (#[trigger] variants[j]).features.to_set()
                != features.to_set(),
    ensures
        image_for(variants, features) is None,
    decreases variants.len(),
{
    if variants.len() > 0 {
        lemma_same_sets(variants[0].features, features);
        assert(variants[0].features.to_set() != features.to_set());
        let rest = variants.drop_first();
        assert forall|j: int| 0 <= j < rest.len() implies (#[trigger] rest[j]).features.to_set()
            != features.to_set() by {
            assert(variants[j + 1].features.to_set() != features.to_set());
        }
        lemma_no_variant(rest, features);
    }
}

/// A target is the image of the variant that has exactly the wanted features, of the
/// family that is named, in GHCR and under the stream asked for; in the default stream
/// that is the first of the family's, else `latest`.
pub proof fn law_target_is_the_wanted_variant(
    families: Seq<FamilyView>,
    i: int,
    family: FamilyInfoView,
    k: int,
    features: Seq<Seq<char>>,
    stream: Seq<char>,
)
    requires
        is_family_at(families, i, family.name),
        is_variant_for(families[i], k, features),
    ensures
        target_in_stream(families, family.name, features, stream) == Some(
            ImageRefView {
                registry: "ghcr.io"@,
                org: families[i].org,
                image: families[i].variants[k].image,
                tag: stream,
            },
        ),
        default_target(families, family, features) matches Some(t) && t.image
            == families[i].variants[k].image && t.org == families[i].org && t.tag
            == if family.streams.len() > 0 {
            family.streams[0]
        } else {
            "latest"@
        },
{
    lemma_family_at(families, i, family.name);
    lemma_variant_for(families[i].variants, k, features);
}

/// Where no variant of the family has exactly the wanted features, there is no target.
pub proof fn law_unpublished_features_have_no_target(
    families: Seq<FamilyView>,
    i: int,
    family: FamilyInfoView,
    features: Seq<Seq<char>>,
    stream: Seq<char>,
)
    requires
        is_family_at(families, i, family.name),
        forall|j: int|
            0 <= j < families[i].variants.len() ==> (
            #[trigger] families[i].variants[j]).features.to_set() != features.to_set(),
    ensures
        target_in_stream(families, family.name, features, stream) is None,
        default_target(families, family, features) is None,
{
    lemma_family_at(families, i, family.name);
    lemma_no_variant(families[i].variants, features);
}

/// Of a picked build only the image is swapped, for that of the variant with the wanted
/// features: registry, organisation and tag stay as they were picked, whether the tag
/// is dated or not.
pub proof fn law_only_the_image_is_swapped(
    families: Seq<FamilyView>,
    i: int,
    family: FamilyInfoView,
    k: int,
    features: Seq<Seq<char>>,
    place: Seq<char>,
    old_image: Seq<char>,
    tag: Seq<char>,
)
    requires
        is_family_at(families, i, family.name),
        is_variant_for(families[i], k, features),
        !old_image.contains('/'),
        !tag.contains(':'),
    ensures
        target_ref(
            families,
            place + "/"@ + old_image + ":"@ + tag,
            Some(family),
            features,
        ) == place + "/"@ + families[i].variants[k].image + ":"@ + tag,
{
    law_target_is_the_wanted_variant(families, i, family, k, features, Seq::empty());
    reveal_strlit("/");
    reveal_strlit(":");
    let full = place + "/"@ + old_image + ":"@ + tag;
    let before_tag = place + "/"@ + old_image;
    assert forall|j: int| before_tag.len() < j < full.len() implies full[j] != ':' by {
        assert(full[j] == tag[j - before_tag.len() - 1]);
    }
    text::lemma_last_index_of(full, ':', before_tag.len() as int);
    assert(full.take(before_tag.len() as int) =~= before_tag);
    assert(full.skip(before_tag.len() as int + 1) =~= tag);
    assert forall|j: int| place.len() < j < before_tag.len() implies before_tag[j] != '/' by {
        assert(before_tag[j] == old_image[j - place.len() - 1]);
    }
    text::lemma_last_index_of(before_tag, '/', place.len() as int);
    assert(before_tag.take(place.len() as int) =~= place);
}

/// The features that the two switches mean: with the open modules, or with the
/// plain driver.
pub open spec fn switch_features(dx: bool, nvidia: bool, with_open: bool) -> Seq<Seq<char>> {
    (if dx {
        seq!["dx"@]
    } else {
        Seq::empty()
    }) + (if !nvidia {
        Seq::empty()
    } else if with_open {
        seq!["nvidia"@, "open"@]
    } else {
        seq!["nvidia"@]
    })
}

/// The features and the image that the two switches mean, in a stream: the open
/// modules where they are published, else the plain driver.
pub open spec fn switch_target(
    families: Seq<FamilyView>,
    family: Seq<char>,
    dx: bool,
    nvidia: bool,
    stream: Seq<char>,
) -> (Seq<Seq<char>>, Option<ImageRefView>) {
    let with_open = switch_features(dx, nvidia, true);
    let plain = switch_features(dx, nvidia, false);
    match target_in_stream(families, family, with_open, stream) {
        Some(image) => (with_open, Some(image)),
        None => (plain, target_in_stream(families, family, plain, stream)),
    }
}

/// The features and the image that the two switches mean, in the default stream.
pub open spec fn default_switch_target(
    families: Seq<FamilyView>,
    family: FamilyInfoView,
    dx: bool,
    nvidia: bool,
) -> (Seq<Seq<char>>, Option<ImageRefView>) {
    switch_target(families, family.name, dx, nvidia, default_stream(family.streams))
}

fn features_for(dx: bool, nvidia: bool, with_open: bool) -> (r: Vec<String>)
    ensures
        r.deep_view() == switch_features(dx, nvidia, with_open),
{
    let mut out: Vec<String> = Vec::new();
    if dx {
        out.push("dx".to_string());
    }
    if nvidia {
        out.push("nvidia".to_string());
        if with_open {
            out.push("open".to_string());
        }
    }
    assert(out.deep_view() =~= switch_features(dx, nvidia, with_open));
    out
}

/// The features and the image that the two switches mean, in a stream.
pub fn resolve_dx_nvidia_with_stream(
    families: &Vec<Family>,
    family: &FamilyInfo,
    dx_on: bool,
    nvidia_on: bool,
    stream: &str,
) -> (r: (Vec<String>, Option<ImageRef>))
    ensures
        (r.0.deep_view(), r.1.deep_view()) == switch_target(
            families.deep_view(),
            family.name@,
            dx_on,
            nvidia_on,
            stream@,
        ),
{
    let with_open: Vec<String> = features_for(dx_on, nvidia_on, true);
    if let Some(image) = resolve_target_with_stream(families, family, &with_open, stream) {
        return (with_open, Some(image));
    }
    let plain: Vec<String> = features_for(dx_on, nvidia_on, false);
    let image: Option<ImageRef> = resolve_target_with_stream(families, family, &plain, stream);
    (plain, image)
}

/// The features and the image that the two switches mean, in the default stream.
pub fn resolve_dx_nvidia(
    families: &Vec<Family>,
    family: &FamilyInfo,
    dx_on: bool,
    nvidia_on: bool,
) -> (r: (Vec<String>, Option<ImageRef>))
    ensures
        (r.0.deep_view(), r.1.deep_view()) == default_switch_target(
            families.deep_view(),
            family.deep_view(),
            dx_on,
            nvidia_on,
        ),
{
    let with_open: Vec<String> = features_for(dx_on, nvidia_on, true);
    if let Some(image) = resolve_target(families, family, &with_open) {
        return (with_open, Some(image));
    }
    let plain: Vec<String> = features_for(dx_on, nvidia_on, false);
    let image: Option<ImageRef> = resolve_target(families, family, &plain);
    (plain, image)
}

/// The open modules are chosen wherever the family publishes them; the plain
/// driver only where it does not.
pub proof fn law_open_modules_are_preferred(
    families: Seq<FamilyView>,
    family: Seq<char>,
    dx: bool,
    stream: Seq<char>,
)
    ensures
        ({
            let (feats, image) = switch_target(families, family, dx, true, stream);
            let published = target_in_stream(
                families,
                family,
                switch_features(dx, true, true),
                stream,
            );
            &&& feats.contains("nvidia"@)
            &&& published is Some ==> image == published && feats.contains("open"@)
            &&& published is None ==> feats == switch_features(dx, true, false)
        }),
{
    let with_open = switch_features(dx, true, true);
    let plain = switch_features(dx, true, false);
    let i = if dx {
        1int
    } else {
        0
    };
    assert(with_open[i] == "nvidia"@);
    assert(with_open[i + 1] == "open"@);
    assert(plain[i] == "nvidia"@);
}

/// What the name of an image has behind the name of its family's base.
pub open spec fn variant_suffix(base: Seq<char>, image: Seq<char>) -> Seq<Seq<char>> {
    match text::without_prefix(image, base + "-"@) {
        Some(suffix) => text::pieces(suffix, '-'),
        None => Seq::empty(),
    }
}

/// What the name of an image has behind the name of its family's base.
pub fn suffix_of(base: &str, image: &str) -> (r: Vec<String>)
    ensures
        r.deep_view() == variant_suffix(base@, image@),
{
    let prefix: String = text::cat2(base, "-");
    match text::strip_prefix(image, prefix.as_str()) {
        Some(suffix) => text::split(suffix.as_str(), '-'),
        None => {
            let none: Vec<String> = Vec::new();
            assert(none.deep_view() =~= Seq::<Seq<char>>::empty());
            none
        },
    }
}

/// The switches that an image stands for: developer tools, and a driver.
pub open spec fn switches_of(base: Seq<char>, image: Option<ImageRefView>) -> (bool, bool) {
    match image {
        None => (false, false),
        Some(i) => {
            let parts = variant_suffix(base, i.image);
            (parts.contains("dx"@), parts.contains("nvidia"@) || parts.contains("open"@))
        },
    }
}

/// The switches that the booted image stands for.
pub fn derive_initial_toggle_state(family: &FamilyInfo, image: Option<&ImageRef>) -> (r: (bool, bool))
    ensures
        r == switches_of(family.base_image@, image_view(image)),
{
    match image {
        None => (false, false),
        Some(i) => {
            let parts: Vec<String> = suffix_of(family.base_image.as_str(), i.image.as_str());
            let dx: bool = crate::registry_client::listed(&parts, "dx");
            let nvidia: bool = crate::registry_client::listed(&parts, "nvidia")
                || crate::registry_client::listed(&parts, "open");
            (dx, nvidia)
        },
    }
}

/// The features of an image that is named by them are read back from its name.
pub proof fn law_suffix_is_read_back(base: Seq<char>, features: Seq<Seq<char>>)
    requires
        forall|j: int| 0 <= j < features.len() ==> !(#[trigger] features[j]).contains('-'),
    ensures
        variant_suffix(base, suffixed(base, features)) == features,
{
    reveal_strlit("-");
    let image = suffixed(base, features);
    let prefix = base + "-"@;
    if features.len() == 0 {
        assert(variant_suffix(base, image) =~= features);
    } else {
        let suffix = text::joined(features, seq!['-']);
        assert(image.take(prefix.len() as int) =~= prefix);
        assert(image.subrange(0, prefix.len() as int) =~= prefix);
        assert(image.skip(prefix.len() as int) =~= suffix);
        text::law_joined_pieces_come_apart(features, '-');
    }
}

/// An image that is found has exactly the wanted features.
pub proof fn lemma_image_for(variants: Seq<VariantView>, want: Seq<Seq<char>>)
    ensures
        image_for(variants, want) matches Some(image) ==> exists|i: int|
            0 <= i < variants.len() && (#[trigger] variants[i]).image == image && same_features(
                variants[i].features,
                want,
            ),
        image_for(variants, want) is None ==> forall|i: int|
            0 <= i < variants.len() ==> !same_features((#[trigger] variants[i]).features, want),
    decreases variants.len(),
{
    if variants.len() > 0 {
        let rest = variants.drop_first();
        lemma_image_for(rest, want);
        if same_features(variants[0].features, want) {
        } else if image_for(rest, want) is Some {
            let image = image_for(rest, want)->0;
            let i = choose|i: int|
                0 <= i < rest.len() && (#[trigger] rest[i]).image == image && same_features(
                    rest[i].features,
                    want,
                );
            assert(variants[i + 1] == rest[i]);
        } else {
            assert forall|i: int| 0 <= i < variants.len() implies !same_features(
                (#[trigger] variants[i]).features,
                want,
            ) by {
                if i > 0 {
                    assert(rest[i - 1] == variants[i]);
                }
            }
        }
    }
}

/// The switches are read back from the image that they mean, in a family whose
/// images are named by their features.
pub proof fn law_switches_are_read_back(
    families: Seq<FamilyView>,
    family: FamilyView,
    dx: bool,
    nvidia: bool,
    stream: Seq<char>,
)
    requires
        family_named(families, family.name) == Some(family),
        named_by_features(family),
    ensures
        switch_target(families, family.name, dx, nvidia, stream).1 is Some ==> switches_of(
            family.base_image,
            switch_target(families, family.name, dx, nvidia, stream).1,
        ) == (dx, nvidia),
{
    let (want, image) = switch_target(families, family.name, dx, nvidia, stream);
    if image is Some {
        let name = image->0.image;
        lemma_image_for(family.variants, want);
        let i = choose|i: int|
            0 <= i < family.variants.len() && (#[trigger] family.variants[i]).image == name
                && same_features(family.variants[i].features, want);
        let features = family.variants[i].features;
        law_suffix_is_read_back(family.base_image, features);
        assert(variant_suffix(family.base_image, name) == features);
        reveal_strlit("dx");
        reveal_strlit("nvidia");
        reveal_strlit("open");
        assert("dx"@.len() == 2 && "nvidia"@.len() == 6 && "open"@.len() == 4);
        assert forall|id: Seq<char>| features.contains(id) <==> want.contains(id) by {
            if features.contains(id) {
                let k = choose|k: int| 0 <= k < features.len() && features[k] == id;
                assert(want.contains(features[k]));
            }
            if want.contains(id) {
                let k = choose|k: int| 0 <= k < want.len() && want[k] == id;
                assert(features.contains(want[k]));
            }
        }
        if dx {
            assert(want[0] == "dx"@);
        }
        if nvidia {
            assert(want[if dx {
                1int
            } else {
                0
            }] == "nvidia"@);
        }
    }
}

/// The switches are read back from the image that they mean, for each family of the
/// catalogue, in any stream and in the default one.
pub proof fn law_known_switches_are_read_back(i: int, dx: bool, nvidia: bool, stream: Seq<char>)
    requires
        0 <= i < catalogue().len(),
    ensures
        ({
            let f = catalogue()[i];
            let chosen = switch_target(catalogue(), f.name, dx, nvidia, stream).1;
            let default = default_switch_target(catalogue(), info_of(f), dx, nvidia).1;
            &&& chosen is Some ==> switches_of(f.base_image, chosen) == (dx, nvidia)
            &&& default is Some ==> switches_of(info_of(f).base_image, default) == (dx, nvidia)
        }),
{
    let f = catalogue()[i];
    law_catalogue_is_sound();
    law_switches_are_read_back(catalogue(), f, dx, nvidia, stream);
    law_switches_are_read_back(catalogue(), f, dx, nvidia, default_stream(f.streams));
}

// ── Progress ─────────────────────────────────────────────────────────────────

/// What a line of the tool tells.
#[derive(Debug, PartialEq)]
pub enum BootcProgress {
    /// How many layers are there, of how many.
    Fraction { current: u32, total: u32 },
    /// Words on what goes on.
    Status(String),
}

/// What that is.
#[verifier::ext_equal]
pub enum ProgressView {
    Fraction { current: int, total: int },
    Status(Seq<char>),
}

impl DeepView for BootcProgress {
    type V = ProgressView;

    open spec fn deep_view(&self) -> ProgressView {
        match self {
            BootcProgress::Fraction { current, total } => ProgressView::Fraction {
                current: *current as int,
                total: *total as int,
            },
            BootcProgress::Status(s) => ProgressView::Status(s@),
        }
    }
}

/// Two numbers as a fraction of layers: not more than all, and not more layers
/// than an image has.
pub open spec fn layer_fraction(a: Seq<char>, b: Seq<char>) -> Option<ProgressView> {
    match (
        text::unsigned_value(a, u32::MAX as int),
        text::unsigned_value(b, u32::MAX as int),
    ) {
        (Some(current), Some(total)) => if total > 0 && current <= total && total <= 1000 {
            Some(ProgressView::Fraction { current, total })
        } else {
            None
        },
        _ => None,
    }
}

/// The fraction that a word is, as in `3/12`.
pub open spec fn word_fraction(word: Seq<char>) -> Option<ProgressView> {
    match text::cut_first(word, '/') {
        Some((a, b)) => layer_fraction(a, b),
        None => None,
    }
}

/// The first fraction among words.
pub open spec fn first_fraction(words: Seq<Seq<char>>) -> Option<ProgressView>
    decreases words.len(),
{
    if words.len() == 0 {
        None
    } else {
        match word_fraction(words[0]) {
            Some(p) => Some(p),
            None => first_fraction(words.drop_first()),
        }
    }
}

/// The first fraction among words that is written out, as in `3 of 12 layers
/// pulled`.
pub open spec fn first_spelled(words: Seq<Seq<char>>) -> Option<ProgressView>
    decreases words.len(),
{
    if words.len() < 5 {
        None
    } else if words[1] == "of"@ && words[3] == "layers"@ && words[4] == "pulled"@
        && layer_fraction(words[0], words[2]) is Some {
        layer_fraction(words[0], words[2])
    } else {
        first_spelled(words.drop_first())
    }
}

/// The words on a phase, by the first word of a line.
pub open spec fn phase_words(first: Seq<char>) -> Option<Seq<char>> {
    let w = text::small_letters(text::trim_back(first, |c: char| !text::is_alphabetic(c)));
    if w == "pulling"@ {
        Some("Pulling new image layers…"@)
    } else if w == "fetching"@ {
        Some("Fetching image…"@)
    } else if w == "importing"@ {
        Some("Importing layers…"@)
    } else if w == "staging"@ {
        Some("Staging deployment…"@)
    } else if w == "writing"@ {
        Some("Writing deployment…"@)
    } else if w == "deploying"@ {
        Some("Deploying…"@)
    } else {
        None
    }
}

/// What a line of the tool tells: a fraction first, else a phase.
pub open spec fn progress_of(line: Seq<char>) -> Option<ProgressView> {
    let words = text::words(text::trimmed(line));
    match first_fraction(words) {
        Some(p) => Some(p),
        None => match first_spelled(words) {
            Some(p) => Some(p),
            None => if words.len() == 0 {
                None
            } else {
                match phase_words(words[0]) {
                    Some(s) => Some(ProgressView::Status(s)),
                    None => None,
                }
            },
        },
    }
}

fn fraction_of(a: &str, b: &str) -> (r: Option<BootcProgress>)
    ensures
        r.deep_view() == layer_fraction(a@, b@),
{
    match (text::parse_u32(a), text::parse_u32(b)) {
        (Some(current), Some(total)) => {
            if total > 0 && current <= total && total <= 1000 {
                Some(BootcProgress::Fraction { current, total })
            } else {
                None
            }
        },
        _ => None,
    }
}

fn find_fraction(words: &Vec<String>) -> (r: Option<BootcProgress>)
    ensures
        r.deep_view() == first_fraction(words.deep_view()),
{
    let ghost all = words.deep_view();
    assert(all.skip(0) =~= all);
    let mut i: usize = 0;
    while i < words.len()
        invariant
            0 <= i <= words@.len(),
            all == words.deep_view(),
            first_fraction(all) == first_fraction(all.skip(i as int)),
        decreases words@.len() - i,
    {
        assert(all.skip(i as int)[0] == words@[i as int]@);
        assert(all.skip(i as int).drop_first() =~= all.skip(i + 1));
        if let Some((a, b)) = text::split_once(words[i].as_str(), '/') {
            if let Some(p) = fraction_of(a.as_str(), b.as_str()) {
                return Some(p);
            }
        }
        i += 1;
    }
    None
}

fn find_spelled(words: &Vec<String>) -> (r: Option<BootcProgress>)
    ensures
        r.deep_view() == first_spelled(words.deep_view()),
{
    let ghost all = words.deep_view();
    assert(all.skip(0) =~= all);
    let mut i: usize = 0;
    let n: usize = words.len();
    while n - i >= 5
        invariant
            0 <= i <= n,
            n == words@.len(),
            all == words.deep_view(),
            first_spelled(all) == first_spelled(all.skip(i as int)),
        decreases n - i,
    {
        let ghost rest = all.skip(i as int);
        assert(rest[0] == words@[i as int]@);
        assert(rest[1] == words@[i + 1]@);
        assert(rest[2] == words@[i + 2]@);
        assert(rest[3] == words@[i + 3]@);
        assert(rest[4] == words@[i + 4]@);
        assert(rest.drop_first() =~= all.skip(i + 1));
        if text::same(words[i + 1].as_str(), "of") && text::same(words[i + 3].as_str(), "layers")
            && text::same(words[i + 4].as_str(), "pulled") {
            if let Some(p) = fraction_of(words[i].as_str(), words[i + 2].as_str()) {
                return Some(p);
            }
        }
        i += 1;
    }
    None
}

fn phase_of(first: &str) -> (r: Option<BootcProgress>)
    ensures
        r.deep_view() == match phase_words(first@) {
            Some(s) => Some(ProgressView::Status(s)),
            None => None,
        },
{
    let bare: String = text::trim_end_to_letter(first);
    let word: String = text::to_ascii_lowercase(bare.as_str());
    let w: &str = word.as_str();
    let words: &str = if text::same(w, "pulling") {
        "Pulling new image layers…"
    } else if text::same(w, "fetching") {
        "Fetching image…"
    } else if text::same(w, "importing") {
        "Importing layers…"
    } else if text::same(w, "staging") {
        "Staging deployment…"
    } else if text::same(w, "writing") {
        "Writing deployment…"
    } else if text::same(w, "deploying") {
        "Deploying…"
    } else {
        return None;
    };
    Some(BootcProgress::Status(words.to_string()))
}

/// What a line of `bootc switch` tells.
pub fn parse_bootc_progress(line: &str) -> (r: Option<BootcProgress>)
    ensures
        r.deep_view() == progress_of(line@),
{
    let bare: String = text::trim(line);
    let words: Vec<String> = text::split_ascii_whitespace(bare.as_str());
    let ghost all = words.deep_view();
    assert(all.len() == words@.len());
    if let Some(p) = find_fraction(&words) {
        return Some(p);
    }
    if let Some(p) = find_spelled(&words) {
        return Some(p);
    }
    if words.len() == 0 {
        return None;
    }
    assert(all[0] == words@[0]@);
    phase_of(words[0].as_str())
}

/// A fraction that a line tells is never more than the whole, nor one of
/// nothing.
pub proof fn law_fraction_is_at_most_the_whole(line: Seq<char>)
    ensures
        progress_of(line) matches Some(ProgressView::Fraction { current, total }) ==> 0 <= current
            <= total && 0 < total <= 1000,
{
    let words = text::words(text::trimmed(line));
    lemma_fractions(words);
}

proof fn lemma_fractions(words: Seq<Seq<char>>)
    ensures
        first_fraction(words) matches Some(p) ==> (p matches ProgressView::Fraction {
            current,
            total,
        } && 0 <= current <= total && 0 < total <= 1000),
        first_spelled(words) matches Some(p) ==> (p matches ProgressView::Fraction {
            current,
            total,
        } && 0 <= current <= total && 0 < total <= 1000),
    decreases words.len(),
{
    if words.len() > 0 {
        lemma_fractions(words.drop_first());
        if let Some((a, b)) = text::cut_first(words[0], '/') {
            text::lemma_unsigned_value(a, u32::MAX as int);
        }
        if words.len() >= 5 {
            text::lemma_unsigned_value(words[0], u32::MAX as int);
        }
    }
}

/// The progress of a rebase: whether the bar stands at a fraction, and the words
/// above it.
#[derive(Debug, PartialEq)]
pub struct RebaseProgress {
    /// Layers that are there, of how many; the bar pulses until they are known.
    pub fraction: Option<(u32, u32)>,
    pub description: String,
}

/// The layers and the words after a line told something.
pub open spec fn progress_after(
    was: (Option<(u32, u32)>, Seq<char>),
    p: BootcProgress,
) -> (Option<(u32, u32)>, Seq<char>) {
    match p {
        BootcProgress::Fraction { current, total } => (Some((current, total)), was.1),
        BootcProgress::Status(s) => (was.0, s@),
    }
}

/// A fraction moves the bar and keeps the words; words on a phase replace the words and
/// keep the bar where it is.
pub proof fn law_progress_keeps_the_rest(
    was: (Option<(u32, u32)>, Seq<char>),
    current: u32,
    total: u32,
    p: BootcProgress,
)
    ensures
        progress_after(was, BootcProgress::Fraction { current, total }) == (
            Some((current, total)),
            was.1,
        ),
        p is Status ==> progress_after(was, p).0 == was.0,
        p matches BootcProgress::Status(s) ==> progress_after(was, p).1 == s@,
{
}

impl RebaseProgress {
    /// Nothing is known yet.
    pub fn new() -> (r: RebaseProgress)
        ensures
            r.fraction is None,
            r.description@
                == "Pulling the new image layers. This typically takes 2–5 minutes."@,
    {
        RebaseProgress {
            fraction: None,
            description: "Pulling the new image layers. This typically takes 2–5 minutes.".to_string(),
        }
    }

    /// A line told something.
    pub fn apply(&mut self, p: BootcProgress)
        ensures
            (final(self).fraction, final(self).description@) == progress_after(
                (old(self).fraction, old(self).description@),
                p,
            ),
    {
        match p {
            BootcProgress::Fraction { current, total } => {
                self.fraction = Some((current, total));
            },
            BootcProgress::Status(s) => {
                self.description = s;
            },
        }
    }
}

/// The time that a rebase takes so far.
pub fn elapsed_label(seconds: u64) -> (r: String)
    ensures
        r@ == "Elapsed: "@ + elapsed_text(seconds),
{
    let minutes: String = text::number(seconds / 60);
    let rest: String = text::two_digit_number(seconds % 60);
    let time: String = text::cat3(minutes.as_str(), ":", rest.as_str());
    text::cat2("Elapsed: ", time.as_str())
}

/// The plan of switching to an image: the command, or none where it is withheld
/// and the switch is only simulated; and its line for the journal.
pub open spec fn switch_plan(
    journal: Journal,
    full_ref: Seq<char>,
    flags: Flags,
    flatpak: bool,
) -> PlanView {
    silent_plan(
        journal,
        "switch_image"@,
        seq![("target"@, full_ref)],
        seq!["bootc"@, "switch"@, full_ref],
        Privilege::Pkexec,
        flags,
        flatpak,
    )
}

/// Begins to switch to an image.
pub fn switch_command(journal: &mut Journal, full_ref: &str, flags: Flags, flatpak: bool) -> (r:
    HostPlan)
    ensures
        r.deep_view() == switch_plan(*old(journal), full_ref@, flags, flatpak),
        *final(journal) == after_action(*old(journal)),
{
    let mut args: Vec<(String, String)> = Vec::new();
    args.push(("target".to_string(), full_ref.to_string()));
    assert(args.deep_view() =~= seq![("target"@, full_ref@)]);
    let argv: [&str; 3] = ["bootc", "switch", full_ref];
    assert(argv.deep_view() =~= seq!["bootc"@, "switch"@, full_ref@]);
    plan_silently(journal, "switch_image", args, &argv, Privilege::Pkexec, flags, flatpak)
}

/// A switch is recorded with its target and the command that a real run executes,
/// and that command runs exactly where the settings withhold nothing.
pub proof fn law_switch_is_recorded(
    journal: Journal,
    full_ref: Seq<char>,
    flags: Flags,
    flatpak: bool,
)
    requires
        journal.enabled,
    ensures
        ({
            let plan = switch_plan(journal, full_ref, flags, flatpak);
            let full = resolved(
                seq!["bootc"@, "switch"@, full_ref],
                Privilege::Pkexec,
                flatpak,
            );
            &&& plan.entry matches Some(e) && e.action == "switch_image"@ && e.args == seq![
                ("target"@, full_ref),
            ] && e.would_run == full
            &&& plan.command == if flags.dev_mode || flags.dry_run {
                None
            } else {
                Some(full)
            }
        }),
{
}

/// The page while a switch goes on: title and words.
pub fn rebasing_page(simulated: bool) -> (r: (&'static str, &'static str))
    ensures
        (r.0@, r.1@) == if simulated {
            ("Rebasing… (simulated)"@, "Developer mode — no actual changes are being made."@)
        } else {
            ("Rebasing…"@, "Pulling the new image layers. This typically takes 2–5 minutes."@)
        },
{
    if simulated {
        ("Rebasing… (simulated)", "Developer mode — no actual changes are being made.")
    } else {
        ("Rebasing…", "Pulling the new image layers. This typically takes 2–5 minutes.")
    }
}

/// How the tool ended.
#[derive(Debug, PartialEq)]
pub enum SwitchEnd {
    /// It could not be started.
    NotStarted(String),
    /// It could not be waited for.
    NotAwaited(String),
    /// It exited, with this code unless a signal ended it.
    Exited { success: bool, code: Option<i32> },
}

/// What a switch comes to.
pub open spec fn switch_outcome(end: SwitchEnd) -> Result<(), Seq<char>> {
    match end {
        SwitchEnd::NotStarted(e) => Err("Failed to spawn bootc switch: "@ + e@),
        SwitchEnd::NotAwaited(e) => Err("Failed to wait for bootc switch: "@ + e@),
        SwitchEnd::Exited { success, code } => if success {
            Ok(())
        } else {
            Err("bootc switch exited with code "@ + code_text(code))
        },
    }
}

/// What a switch comes to.
pub fn run_bootc_switch(end: SwitchEnd) -> (r: Result<(), String>)
    ensures
        match r {
            Ok(_) => switch_outcome(end) is Ok,
            Err(e) => switch_outcome(end) == Err::<(), Seq<char>>(e@),
        },
{
    match end {
        SwitchEnd::NotStarted(e) => Err(text::cat2("Failed to spawn bootc switch: ", e.as_str())),
        SwitchEnd::NotAwaited(e) => Err(
            text::cat2("Failed to wait for bootc switch: ", e.as_str()),
        ),
        SwitchEnd::Exited { success, code } => {
            if success {
                Ok(())
            } else {
                let code: String = code_name(code);
                Err(text::cat2("bootc switch exited with code ", code.as_str()))
            }
        },
    }
}

/// The last page of a rebase: name, title, words and icon.
#[derive(Debug, PartialEq)]
pub struct EndPage {
    pub name: String,
    pub title: String,
    pub description: String,
    pub icon: String,
}

/// What that page is.
#[verifier::ext_equal]
pub struct EndPageView {
    pub name: Seq<char>,
    pub title: Seq<char>,
    pub description: Seq<char>,
    pub icon: Seq<char>,
}

impl DeepView for EndPage {
    type V = EndPageView;

    open spec fn deep_view(&self) -> EndPageView {
        EndPageView {
            name: self.name@,
            title: self.title@,
            description: self.description@,
            icon: self.icon@,
        }
    }
}

/// The last page of a rebase.
pub fn run_rebase(result: &Result<(), String>) -> (r: EndPage)
    ensures
        r.deep_view() == match result {
            Ok(_) => EndPageView {
                name: "done"@,
                title: "Rebase Complete"@,
                description: "Restart your system to boot into the selected version."@,
                icon: "object-select-symbolic"@,
            },
            Err(e) => EndPageView {
                name: "fail"@,
                title: "Rebase Failed"@,
                description: e@,
                icon: "dialog-error-symbolic"@,
            },
        },
{
    match result {
        Ok(_) => EndPage {
            name: "done".to_string(),
            title: "Rebase Complete".to_string(),
            description: "Restart your system to boot into the selected version.".to_string(),
            icon: "object-select-symbolic".to_string(),
        },
        Err(e) => EndPage {
            name: "fail".to_string(),
            title: "Rebase Failed".to_string(),
            description: e.clone(),
            icon: "dialog-error-symbolic".to_string(),
        },
    }
}

/// The last page of a rebase that was only simulated.
pub fn run_rebase_simulated() -> (r: EndPage)
    ensures
        r.deep_view() == (EndPageView {
            name: "done"@,
            title: "Rebase Complete (simulated)"@,
            description:
                "Developer mode — no changes were made.\nIn production, a restart would be needed."@,
            icon: "object-select-symbolic"@,
        }),
{
    EndPage {
        name: "done".to_string(),
        title: "Rebase Complete (simulated)".to_string(),
        description:
            "Developer mode — no changes were made.\nIn production, a restart would be needed.".to_string(),
        icon: "object-select-symbolic".to_string(),
    }
}

// ── Fetching builds ──────────────────────────────────────────────────────────

/// What fetching builds gave.
#[derive(Debug)]
pub enum FetchResult {
    Versions(Vec<ImageVersion>),
    Failed(String),
    /// The booted image is not known.
    DetectFailed,
}

/// What that is.
#[verifier::ext_equal]
pub enum FetchView {
    Versions(Seq<VersionView>),
    Failed(Seq<char>),
    DetectFailed,
}

impl DeepView for FetchResult {
    type V = FetchView;

    open spec fn deep_view(&self) -> FetchView {
        match self {
            FetchResult::Versions(vs) => FetchView::Versions(vs.deep_view()),
            FetchResult::Failed(e) => FetchView::Failed(e@),
            FetchResult::DetectFailed => FetchView::DetectFailed,
        }
    }
}

/// The builds whose version holds the name of a variant; all of them where no
/// variant is chosen.
pub open spec fn of_variant(versions: Seq<VersionView>, variant: Seq<char>) -> Seq<VersionView> {
    if variant.len() == 0 || variant == "default"@ {
        versions
    } else {
        versions.filter(|v: VersionView| text::holds(v.version, variant))
    }
}

/// What fetching builds gives, for the reply of the registry: builds, or the words on
/// why there are none; nothing where it was not asked.
pub open spec fn fetched(
    reply: Option<Result<Seq<VersionView>, Seq<char>>>,
    variant: Seq<char>,
) -> FetchView {
    match reply {
        None => FetchView::DetectFailed,
        Some(Ok(versions)) => FetchView::Versions(of_variant(versions, variant)),
        Some(Err(e)) => FetchView::Failed(e),
    }
}

/// Where no variant is chosen, every build that the registry told is there, in its order;
/// a failure keeps its words, and is told apart from an image that is not known.
pub proof fn law_fetched_builds_are_all_there(versions: Seq<VersionView>, e: Seq<char>, variant: Seq<char>)
    ensures
        fetched(Some(Ok(versions)), ""@) == FetchView::Versions(versions),
        fetched(Some(Ok(versions)), "default"@) == FetchView::Versions(versions),
        fetched(Some(Err(e)), variant) == FetchView::Failed(e),
        fetched(None, variant) is DetectFailed,
{
    reveal_strlit("");
}

/// What fetching builds gives, for the reply of the registry; `None` where the
/// booted image is not known, so that it was not asked.
pub fn fetch_result(reply: Option<Result<Vec<ImageVersion>, ServiceError>>, variant: &str) -> (r:
    FetchResult)
    ensures
        r.deep_view() == fetched(
            match reply {
                None => None,
                Some(Ok(versions)) => Some(Ok(versions.deep_view())),
                Some(Err(e)) => Some(Err(error_text(e.deep_view()))),
            },
            variant@,
        ),
{
    match reply {
        None => FetchResult::DetectFailed,
        Some(Err(e)) => FetchResult::Failed(e.message()),
        Some(Ok(versions)) => {
            if variant.is_empty() || text::same(variant, "default") {
                return FetchResult::Versions(versions);
            }
            let ghost all = versions.deep_view();
            let ghost keep = |v: VersionView| text::holds(v.version, variant@);
            let mut out: Vec<ImageVersion> = Vec::new();
            let mut i: usize = 0;
            proof {
                reveal(Seq::filter);
                assert(all.take(0) =~= Seq::<VersionView>::empty());
                assert(out.deep_view() =~= Seq::<VersionView>::empty());
                assert(all.take(0).filter(keep) =~= Seq::<VersionView>::empty());
            }
            while i < versions.len()
                invariant
                    0 <= i <= versions@.len(),
                    all == versions.deep_view(),
                    keep == (|v: VersionView| text::holds(v.version, variant@)),
                    out.deep_view() == all.take(i as int).filter(keep),
                decreases versions@.len() - i,
            {
                let ghost x = versions@[i as int].deep_view();
                proof {
                    assert(all.take(i + 1) =~= all.take(i as int).push(x));
                    crate::registry_client::lemma_filter_push(all.take(i as int), x, keep);
                }
                if text::contains(versions[i].version.as_str(), variant) {
                    let v: ImageVersion = versions[i].clone();
                    let ghost before = out.deep_view();
                    out.push(v);
                    assert(out.deep_view() =~= before.push(x));
                }
                i += 1;
            }
            assert(all.take(i as int) =~= all);
            FetchResult::Versions(out)
        },
    }
}

/// The page that the dialog shows.
#[derive(Debug, PartialEq)]
pub enum FetchPage {
    /// Still loading.
    Loading,
    /// The builds.
    Loaded,
    /// An error, with these words.
    Error(String),
}

/// What that is.
#[verifier::ext_equal]
pub enum FetchPageView {
    Loading,
    Loaded,
    Error(Seq<char>),
}

impl DeepView for FetchPage {
    type V = FetchPageView;

    open spec fn deep_view(&self) -> FetchPageView {
        match self {
            FetchPage::Loading => FetchPageView::Loading,
            FetchPage::Loaded => FetchPageView::Loaded,
            FetchPage::Error(e) => FetchPageView::Error(e@),
        }
    }
}

/// The page that the dialog shows for what came so far, after so many
/// milliseconds; it gives up after twenty seconds.
pub open spec fn fetch_page(result: Option<FetchView>, elapsed_ms: u64) -> FetchPageView {
    match result {
        Some(FetchView::Versions(_)) => FetchPageView::Loaded,
        Some(FetchView::DetectFailed) => FetchPageView::Error(
            "Could not detect the current image. Is bootc installed and managing this system?"@,
        ),
        Some(FetchView::Failed(_)) => FetchPageView::Error(
            "Check your internet connection and try again."@,
        ),
        None => if elapsed_ms > 20000 {
            FetchPageView::Error("Check your internet connection and try again."@)
        } else {
            FetchPageView::Loading
        },
    }
}

/// The page that the dialog shows for what came so far.
pub fn start_version_fetch(result: &Option<FetchResult>, elapsed_ms: u64) -> (r: FetchPage)
    ensures
        r.deep_view() == fetch_page(result.deep_view(), elapsed_ms),
{
    match result {
        Some(FetchResult::Versions(_)) => FetchPage::Loaded,
        Some(FetchResult::DetectFailed) => FetchPage::Error(
            "Could not detect the current image. Is bootc installed and managing this system?".to_string(),
        ),
        Some(FetchResult::Failed(_)) => FetchPage::Error(
            "Check your internet connection and try again.".to_string(),
        ),
        None => {
            if elapsed_ms > 20000 {
                FetchPage::Error("Check your internet connection and try again.".to_string())
            } else {
                FetchPage::Loading
            }
        },
    }
}

/// Whether older builds can still be asked for.
pub fn can_load_older(max_versions: usize) -> (r: bool)
    ensures
        r == (max_versions < EXPANDED_FETCH_COUNT),
{
    max_versions < EXPANDED_FETCH_COUNT
}

// ── What the tool's lines and ends are read for ──────────────────────────────

proof fn lemma_decimal_value(n: int)
    requires
        0 <= n <= 1000,
    ensures
        text::unsigned_value(text::decimal(n as nat), u32::MAX as int) == Some(n),
        !text::decimal(n as nat).contains('/'),
{
    text::law_decimals_are_read_back(n);
    let d = text::decimal(n as nat);
    assert(text::signed_decimal(n) == d);
    assert(d.len() > 0 && d[0] != '-') by {
        text::lemma_decimal(n as nat);
        assert(text::is_digit(d[0]));
    }
    text::lemma_decimal(n as nat);
    assert forall|i: int| 0 <= i < d.len() implies d[i] != '/' by {
        assert(text::is_digit(d[i]));
    }
}

/// A word `3/12` tells that three layers of twelve are there; the first word of that kind
/// counts, wherever it stands in the line.
pub proof fn law_layers_are_counted(words: Seq<Seq<char>>, k: int, current: int, total: int)
    requires
        0 <= k < words.len(),
        0 <= current <= total,
        0 < total <= 1000,
        words[k] == text::decimal(current as nat).push('/') + text::decimal(total as nat),
        forall|j: int| 0 <= j < k ==> !(#[trigger] words[j]).contains('/'),
    ensures
        first_fraction(words) == Some(ProgressView::Fraction { current, total }),
    decreases words.len(),
{
    text::lemma_index_of_bounds(words[0], '/');
    if k > 0 {
        assert(!words[0].contains('/'));
        let rest = words.drop_first();
        assert forall|j: int| 0 <= j < k - 1 implies !(#[trigger] rest[j]).contains('/') by {
            assert(!words[j + 1].contains('/'));
        }
        law_layers_are_counted(rest, k - 1, current, total);
    } else {
        let a = text::decimal(current as nat);
        let b = text::decimal(total as nat);
        lemma_decimal_value(current);
        lemma_decimal_value(total);
        assert forall|j: int| 0 <= j < a.len() implies words[0][j] != '/' by {
            assert(words[0][j] == a[j]);
            assert(a.contains(a[j]));
        }
        text::lemma_index_of(words[0], '/', a.len() as int);
        assert(words[0].take(a.len() as int) =~= a);
        assert(words[0].skip(a.len() as int + 1) =~= b);
    }
}

/// The words `3 of 12 layers pulled` tell the same.
pub proof fn law_spelled_layers_are_counted(words: Seq<Seq<char>>, current: int, total: int)
    requires
        words.len() >= 5,
        0 <= current <= total,
        0 < total <= 1000,
        words[0] == text::decimal(current as nat),
        words[1] == "of"@,
        words[2] == text::decimal(total as nat),
        words[3] == "layers"@,
        words[4] == "pulled"@,
    ensures
        first_spelled(words) == Some(ProgressView::Fraction { current, total }),
{
    lemma_decimal_value(current);
    lemma_decimal_value(total);
}

/// A fraction counts before the words on a phase, and one with a slash before one that is
/// spelled out; a line with neither tells its phase by its first word, if it has one.
pub proof fn law_fraction_counts_first(line: Seq<char>)
    ensures
        ({
            let words = text::words(text::trimmed(line));
            &&& first_fraction(words) is Some ==> progress_of(line) == first_fraction(words)
            &&& first_fraction(words) is None && first_spelled(words) is Some ==> progress_of(line)
                == first_spelled(words)
            &&& words.len() == 0 ==> progress_of(line) is None
            &&& progress_of(line) matches Some(ProgressView::Status(s)) ==> words.len() > 0
                && phase_words(words[0]) == Some(s)
        }),
{
    lemma_fractions(text::words(text::trimmed(line)));
}

/// A switch succeeded exactly where the tool exited well. Otherwise the reason is told,
/// and the last page says that it failed, for that reason.
pub proof fn law_switch_tells_its_end(end: SwitchEnd)
    ensures
        switch_outcome(end) is Ok <==> (end matches SwitchEnd::Exited { success, .. } && success),
        end matches SwitchEnd::NotStarted(e) ==> (switch_outcome(end) matches Err(m) && text::ends(
            m,
            e@,
        )),
        end matches SwitchEnd::NotAwaited(e) ==> (switch_outcome(end) matches Err(m) && text::ends(
            m,
            e@,
        )),
        end matches SwitchEnd::Exited { success, code } ==> !success ==> (switch_outcome(
            end,
        ) matches Err(m) && text::ends(m, code_text(code))),
{
    match end {
        SwitchEnd::NotStarted(e) => {
            let m = "Failed to spawn bootc switch: "@ + e@;
            assert(m.subrange(m.len() - e@.len(), m.len() as int) =~= e@);
        },
        SwitchEnd::NotAwaited(e) => {
            let m = "Failed to wait for bootc switch: "@ + e@;
            assert(m.subrange(m.len() - e@.len(), m.len() as int) =~= e@);
        },
        SwitchEnd::Exited { success, code } => {
            let e = code_text(code);
            let m = "bootc switch exited with code "@ + e;
            assert(m.subrange(m.len() - e.len(), m.len() as int) =~= e);
        },
    }
}

/// The builds of a variant are those whose version names it, in their order; without a
/// variant they are all.
pub proof fn law_variant_keeps_its_builds(versions: Seq<VersionView>, variant: Seq<char>, v: VersionView)
    ensures
        variant.len() == 0 ==> of_variant(versions, variant) == versions,
        variant.len() > 0 && variant != "default"@ ==> (of_variant(versions, variant).contains(v)
            <==> versions.contains(v) && text::holds(v.version, variant)),
        of_variant(versions, variant).len() <= versions.len(),
    decreases versions.len(),
{
    let keep = |x: VersionView| text::holds(x.version, variant);
    reveal(Seq::filter);
    if variant.len() > 0 && variant != "default"@ && versions.len() > 0 {
        let front = versions.drop_last();
        let last = versions.last();
        law_variant_keeps_its_builds(front, variant, v);
        assert(front.push(last) =~= versions);
        crate::registry_client::lemma_filter_push(front, last, keep);
        let a = front.filter(keep);
        if versions.contains(v) {
            let i = choose|i: int| 0 <= i < versions.len() && versions[i] == v;
            if i < front.len() {
                assert(front[i] == v);
            }
        }
        if front.contains(v) {
            let i = choose|i: int| 0 <= i < front.len() && front[i] == v;
            assert(versions[i] == v);
        }
        assert(versions[versions.len() - 1] == last);
        if keep(last) {
            let b = a.push(last);
            assert(b[a.len() as int] == last);
            if a.contains(v) {
                let i = choose|i: int| 0 <= i < a.len() && a[i] == v;
                assert(b[i] == v);
            }
            if b.contains(v) && v != last {
                let i = choose|i: int| 0 <= i < b.len() && b[i] == v;
                assert(a[i] == v);
            }
        }
    }
}

/// The dialog shows builds exactly where they came, and waits exactly while nothing came
/// and there is time; everything else is an error.
pub proof fn law_dialog_waits_for_builds(result: Option<FetchView>, elapsed_ms: u64)
    ensures
        fetch_page(result, elapsed_ms) is Loaded <==> (result matches Some(f) && f is Versions),
        fetch_page(result, elapsed_ms) is Loading <==> result is None && elapsed_ms <= 20000,
{
}

/// A line such as `Layer 3/12` tells that three layers of twelve are there, whatever word
/// stands in front.
pub proof fn law_line_tells_the_layers(word: Seq<char>, current: int, total: int)
    requires
        word.len() > 0,
        !word.contains('/'),
        forall|j: int| 0 <= j < word.len() ==> !text::is_ascii_blank(#[trigger] word[j]),
        !text::is_blank(word[0]),
        0 <= current <= total,
        0 < total <= 1000,
    ensures
        progress_of(
            word.push(' ') + (text::decimal(current as nat).push('/') + text::decimal(total as nat)),
        ) == Some(ProgressView::Fraction { current, total }),
{
    let a = text::decimal(current as nat);
    let b = text::decimal(total as nat);
    let layers = a.push('/') + b;
    let line = word.push(' ') + layers;
    text::lemma_decimal(current as nat);
    text::lemma_decimal(total as nat);
    assert forall|j: int| 0 <= j < layers.len() implies !text::is_ascii_blank(
        #[trigger] layers[j],
    ) by {
        if j < a.len() {
            assert(text::is_digit(a[j]));
        } else if j > a.len() {
            assert(text::is_digit(b[j - a.len() - 1]));
        }
    }
    let none = Seq::<char>::empty();
    assert(line.last() == b.last());
    assert(text::is_digit(b[b.len() - 1]));
    assert(!text::is_blank(line.last()));
    assert(line[0] == word[0]);
    text::law_trimming_takes_blanks_away(none, line, none);
    assert(none + line + none =~= line);
    text::law_words_end_at_blanks(layers, ' ', none);
    text::law_words_end_at_blanks(word, ' ', layers);
    let words = text::words(line);
    assert(words =~= seq![word, layers]);
    law_layers_are_counted(words, 1, current, total);
    law_fraction_counts_first(line);
}

} // verus!
