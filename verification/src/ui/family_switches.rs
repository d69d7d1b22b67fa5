//! The switches of a family in the rebase dialog: which are there, where they
//! stand, and which image they mean.
use crate::families::named_by_features;
use crate::registry_client::{same_features, Family, FamilyView};
use crate::service::{
    family_named, info_of, target_in_stream, FamilyInfo, FamilyInfoView, ImageRef, ImageRefView,
};
use crate::text;
use crate::ui::image_info::image_view;
use crate::ui::rebase_dialog::{
    derive_initial_toggle_state, law_suffix_is_read_back, lemma_image_for,
    resolve_dx_nvidia_with_stream, suffix_of, switch_target, switches_of, variant_suffix,
};
use vstd::prelude::*;

verus! {

/// The switches of a family.
#[derive(Debug)]
pub struct FamilySwitches {
    /// The family; none where the booted image belongs to none.
    pub family: Option<FamilyInfo>,
    pub stream: String,
    pub dx: bool,
    pub nvidia: bool,
    /// The features that are chosen; at first those of the booted image.
    pub features: Vec<String>,
    /// The words on the image that is meant.
    pub target: String,
}

/// What the switches are.
#[verifier::ext_equal]
pub struct SwitchesView {
    pub family: Option<FamilyInfoView>,
    pub stream: Seq<char>,
    pub dx: bool,
    pub nvidia: bool,
    pub features: Seq<Seq<char>>,
    pub target: Seq<char>,
}

impl DeepView for FamilySwitches {
    type V = SwitchesView;

    open spec fn deep_view(&self) -> SwitchesView {
        SwitchesView {
            family: self.family.deep_view(),
            stream: self.stream@,
            dx: self.dx,
            nvidia: self.nvidia,
            features: self.features.deep_view(),
            target: self.target@,
        }
    }
}

/// Whether a family has a feature.
pub open spec fn has_feature(f: FamilyInfoView, id: Seq<char>) -> bool {
    exists|i: int| 0 <= i < f.features.len() && (#[trigger] f.features[i]).id == id
}

/// Whether a family has a switch for developer tools.
pub open spec fn offers_dx(f: FamilyInfoView) -> bool {
    has_feature(f, "dx"@)
}

/// Whether a family has a switch for a driver.
pub open spec fn offers_nvidia(f: FamilyInfoView) -> bool {
    has_feature(f, "nvidia"@) || has_feature(f, "open"@)
}

/// Whether a family has a feature.
pub fn supports(f: &FamilyInfo, id: &str) -> (r: bool)
    ensures
        r == has_feature(f.deep_view(), id@),
{
    let ghost all = f.features.deep_view();
    let mut i: usize = 0;
    while i < f.features.len()
        invariant
            0 <= i <= f.features@.len(),
            all == f.features.deep_view(),
            forall|j: int| 0 <= j < i ==> (#[trigger] all[j]).id != id@,
        decreases f.features@.len() - i,
    {
        if text::same(f.features[i].id.as_str(), id) {
            assert(f.deep_view().features[i as int].id == id@);
            return true;
        }
        i += 1;
    }
    false
}

/// The words on the family.
pub open spec fn family_words(family: Option<FamilyInfoView>) -> Seq<char> {
    match family {
        Some(f) => "Family: "@ + f.name,
        None => "Family not recognized"@,
    }
}

/// The words on the image before anything is switched.
pub open spec fn first_target(family: Option<FamilyInfoView>, image: Option<ImageRefView>) -> Seq<
    char,
> {
    match family {
        None => "(this image isn't in the KNOWN_FAMILIES catalogue)"@,
        Some(f) => match image {
            Some(i) => i.image + " (currently booted)"@,
            None => f.base_image + " (no extras)"@,
        },
    }
}

/// The switches when the dialog opens: as the booted image stands for, with the
/// features that its name tells, in the first stream.
pub open spec fn opened(family: Option<FamilyInfoView>, image: Option<ImageRefView>) -> SwitchesView {
    SwitchesView {
        family,
        stream: match family {
            Some(f) => if f.streams.len() > 0 {
                f.streams[0]
            } else {
                ""@
            },
            None => ""@,
        },
        dx: match family {
            Some(f) => switches_of(f.base_image, image).0,
            None => false,
        },
        nvidia: match family {
            Some(f) => switches_of(f.base_image, image).1,
            None => false,
        },
        features: match (family, image) {
            (Some(f), Some(i)) => variant_suffix(f.base_image, i.image),
            _ => Seq::empty(),
        },
        target: first_target(family, image),
    }
}

/// The switches after the image that they mean was looked up.
pub open spec fn recomputed(s: SwitchesView, families: Seq<FamilyView>) -> SwitchesView {
    match s.family {
        None => s,
        Some(f) => {
            let (features, image) = switch_target(families, f.name, s.dx, s.nvidia, s.stream);
            SwitchesView {
                features,
                target: match image {
                    Some(i) => i.image + " (resolved)"@,
                    None => "(combination doesn't match any published image)"@,
                },
                ..s
            }
        },
    }
}

/// What becomes of a change of the driver's switch.
#[derive(Debug, Clone, Copy, PartialEq, Eq, Structural)]
pub enum NvidiaChange {
    /// It holds.
    Applied,
    /// The user is asked first: the machine has such a card.
    Ask,
}

/// The driver's switch is set: the switches after it, and whether the user is asked.
pub open spec fn nvidia_set(
    s: SwitchesView,
    on: bool,
    has_gpu: bool,
    families: Seq<FamilyView>,
) -> (SwitchesView, NvidiaChange) {
    if s.nvidia && !on && has_gpu {
        (s, NvidiaChange::Ask)
    } else {
        (recomputed(SwitchesView { nvidia: on, ..s }, families), NvidiaChange::Applied)
    }
}

/// The user answered whether the driver goes: the switches after it, and whether the
/// switch is put back.
pub open spec fn nvidia_answered(
    s: SwitchesView,
    disable: bool,
    families: Seq<FamilyView>,
) -> (SwitchesView, bool) {
    if disable {
        (recomputed(SwitchesView { nvidia: false, ..s }, families), false)
    } else {
        (s, true)
    }
}

/// The words on the driver's switch.
pub fn nvidia_subtitle(has_gpu: bool) -> (r: &'static str)
    ensures
        r@ == if has_gpu {
            "NVIDIA GPU detected — keep on for hardware-accelerated graphics (open kernel modules preferred)"@
        } else {
            "Picks the open kernel modules where available, falls back to the proprietary driver"@
        },
{
    if has_gpu {
        "NVIDIA GPU detected — keep on for hardware-accelerated graphics (open kernel modules preferred)"
    } else {
        "Picks the open kernel modules where available, falls back to the proprietary driver"
    }
}

/// The switches when the dialog opens.
pub fn populate_family_switches(family: Option<FamilyInfo>, image: Option<&ImageRef>) -> (r:
    FamilySwitches)
    ensures
        r.deep_view() == opened(family.deep_view(), image_view(image)),
{
    let none: Vec<String> = Vec::new();
    assert(none.deep_view() =~= Seq::<Seq<char>>::empty());
    match family {
        None => FamilySwitches {
            family: None,
            stream: "".to_string(),
            dx: false,
            nvidia: false,
            features: none,
            target: "(this image isn't in the KNOWN_FAMILIES catalogue)".to_string(),
        },
        Some(f) => {
            let (dx, nvidia) = derive_initial_toggle_state(&f, image);
            let stream: String = if f.streams.len() > 0 {
                assert(f.streams.deep_view()[0] == f.streams@[0]@);
                f.streams[0].clone()
            } else {
                "".to_string()
            };
            let target: String = match image {
                Some(i) => text::cat2(i.image.as_str(), " (currently booted)"),
                None => text::cat2(f.base_image.as_str(), " (no extras)"),
            };
            let features: Vec<String> = match image {
                Some(i) => suffix_of(f.base_image.as_str(), i.image.as_str()),
                None => none,
            };
            FamilySwitches { family: Some(f), stream, dx, nvidia, features, target }
        },
    }
}

impl FamilySwitches {
    /// The words on the family.
    pub fn label(&self) -> (r: String)
        ensures
            r@ == family_words(self.deep_view().family),
    {
        match &self.family {
            Some(f) => text::cat2("Family: ", f.name.as_str()),
            None => "Family not recognized".to_string(),
        }
    }

    /// Whether there is a switch for developer tools, and one for a driver.
    pub fn shown(&self) -> (r: (bool, bool))
        ensures
            r == match self.deep_view().family {
                Some(f) => (offers_dx(f), offers_nvidia(f)),
                None => (false, false),
            },
    {
        match &self.family {
            Some(f) => (supports(f, "dx"), supports(f, "nvidia") || supports(f, "open")),
            None => (false, false),
        }
    }

    fn recompute(&mut self, families: &Vec<Family>)
        ensures
            final(self).deep_view() == recomputed(old(self).deep_view(), families.deep_view()),
    {
        if let Some(f) = &self.family {
            let (features, image) = resolve_dx_nvidia_with_stream(
                families,
                f,
                self.dx,
                self.nvidia,
                self.stream.as_str(),
            );
            let target: String = match image {
                Some(i) => text::cat2(i.image.as_str(), " (resolved)"),
                None => "(combination doesn't match any published image)".to_string(),
            };
            self.features = features;
            self.target = target;
        }
    }

    /// The switch for developer tools is set.
    pub fn set_dx(&mut self, on: bool, families: &Vec<Family>)
        ensures
            final(self).deep_view() == recomputed(
                SwitchesView { dx: on, ..old(self).deep_view() },
                families.deep_view(),
            ),
    {
        self.dx = on;
        self.recompute(families);
    }

    /// The driver's switch is set. Where it goes off on a machine with such a
    /// card, nothing changes until the user answers.
    pub fn set_nvidia(&mut self, on: bool, has_gpu: bool, families: &Vec<Family>) -> (r: NvidiaChange)
        ensures
            (final(self).deep_view(), r) == nvidia_set(
                old(self).deep_view(),
                on,
                has_gpu,
                families.deep_view(),
            ),
    {
        if self.nvidia && !on && has_gpu {
            return NvidiaChange::Ask;
        }
        self.nvidia = on;
        self.recompute(families);
        NvidiaChange::Applied
    }

    /// The user answered whether the driver goes. The result says whether the
    /// switch is put back.
    pub fn answer_nvidia(&mut self, disable: bool, families: &Vec<Family>) -> (r: bool)
        ensures
            (final(self).deep_view(), r) == nvidia_answered(
                old(self).deep_view(),
                disable,
                families.deep_view(),
            ),
    {
        if disable {
            self.nvidia = false;
            self.recompute(families);
            false
        } else {
            true
        }
    }

    /// A stream is selected.
    pub fn select_stream(&mut self, stream: String, families: &Vec<Family>)
        ensures
            final(self).deep_view() == recomputed(
                SwitchesView { stream: stream@, ..old(self).deep_view() },
                families.deep_view(),
            ),
    {
        self.stream = stream;
        self.recompute(families);
    }
}

/// After any change of a switch or of the stream the preview and the chosen
/// features belong together: the features are those whose image is shown, or no
/// image is published for the switches at all.
pub proof fn law_preview_matches_the_features(s: SwitchesView, families: Seq<FamilyView>)
    requires
        s.family is Some,
    ensures
        ({
            let after = recomputed(s, families);
            let found = target_in_stream(
                families,
                s.family->0.name,
                after.features,
                s.stream,
            );
            after.target == match found {
                Some(i) => i.image + " (resolved)"@,
                None => "(combination doesn't match any published image)"@,
            }
        }),
{
}

/// They belong together when the dialog opens, too: the features are those whose
/// image is booted and shown, in a family that names its images by their features
/// and has no two with the same ones. Where no image is known, they are none, and
/// the base is shown.
pub proof fn law_opening_matches_the_features(
    families: Seq<FamilyView>,
    family: FamilyView,
    image: ImageRefView,
    k: int,
)
    requires
        family_named(families, family.name) == Some(family),
        named_by_features(family),
        forall|i: int, j: int|
            0 <= i < j < family.variants.len() ==> !same_features(
                (#[trigger] family.variants[i]).features,
                (#[trigger] family.variants[j]).features,
            ),
        0 <= k < family.variants.len(),
        family.variants[k].image == image.image,
    ensures
        ({
            let s = opened(Some(info_of(family)), Some(image));
            &&& s.features == family.variants[k].features
            &&& target_in_stream(families, family.name, s.features, s.stream) matches Some(found)
                && found.image == image.image && s.target == found.image + " (currently booted)"@
        }),
        opened(Some(info_of(family)), None).features == Seq::<Seq<char>>::empty(),
        opened(Some(info_of(family)), None).target == family.base_image + " (no extras)"@,
{
    let features = family.variants[k].features;
    law_suffix_is_read_back(family.base_image, features);
    let s = opened(Some(info_of(family)), Some(image));
    assert(s.features == features);
    lemma_image_for(family.variants, features);
    assert(same_features(features, features)) by {
        assert(forall|i: int| 0 <= i < features.len() ==> features.contains(#[trigger] features[i]));
    }
    assert(crate::registry_client::image_for(family.variants, features) is Some);
    let name = crate::registry_client::image_for(family.variants, features)->0;
    let i = choose|i: int|
        0 <= i < family.variants.len() && (#[trigger] family.variants[i]).image == name
            && same_features(family.variants[i].features, features);
    if i != k {
        assert(same_features(features, family.variants[i].features));
        assert(false);
    }
}

/// The driver of a card that is there goes only with consent: switching it off asks, and
/// changes nothing. Every other change holds at once, and so does the consent; without
/// it the switch is put back.
pub proof fn law_driver_goes_only_with_consent(
    s: SwitchesView,
    on: bool,
    has_gpu: bool,
    families: Seq<FamilyView>,
)
    ensures
        nvidia_set(s, on, has_gpu, families).1 == NvidiaChange::Ask <==> has_gpu && s.nvidia && !on,
        nvidia_set(s, on, has_gpu, families).1 == NvidiaChange::Ask ==> nvidia_set(
            s,
            on,
            has_gpu,
            families,
        ).0 == s,
        nvidia_set(s, on, has_gpu, families).1 == NvidiaChange::Applied ==> nvidia_set(
            s,
            on,
            has_gpu,
            families,
        ).0.nvidia == on,
        !nvidia_answered(s, true, families).0.nvidia,
        !nvidia_answered(s, true, families).1,
        nvidia_answered(s, false, families) == (s, true),
{
}

/// Looking up the image leaves the family, the stream and the switches as they are, and
/// chooses the features that the switches mean: developer tools exactly where they are
/// on, and a driver exactly where it is.
pub proof fn law_switches_choose_the_features(s: SwitchesView, families: Seq<FamilyView>)
    requires
        s.family is Some,
    ensures
        ({
            let after = recomputed(s, families);
            &&& after.family == s.family && after.stream == s.stream && after.dx == s.dx
                && after.nvidia == s.nvidia
            &&& after.features.contains("dx"@) <==> s.dx
            &&& after.features.contains("nvidia"@) <==> s.nvidia
            &&& after.features.contains("open"@) ==> s.nvidia
        }),
{
    reveal_strlit("dx");
    reveal_strlit("nvidia");
    reveal_strlit("open");
    assert("dx"@.len() == 2 && "nvidia"@.len() == 6 && "open"@.len() == 4);
    let after = recomputed(s, families);
    let f = after.features;
    if s.dx {
        assert(f[0] == "dx"@);
    }
    if s.nvidia {
        assert(f[if s.dx {
            1int
        } else {
            0
        }] == "nvidia"@);
    }
}

/// A family has a switch for developer tools exactly where that is one of its features, and
/// one for a driver exactly where the driver or its open modules are.
pub proof fn law_switches_are_the_family_s(f: FamilyInfoView)
    ensures
        ({
            let ids = f.features.map_values(|x: crate::service::FeatureView| x.id);
            &&& offers_dx(f) <==> ids.contains("dx"@)
            &&& offers_nvidia(f) <==> ids.contains("nvidia"@) || ids.contains("open"@)
        }),
        family_words(Some(f)) == "Family: "@ + f.name,
{
    lemma_has_feature(f, "dx"@);
    lemma_has_feature(f, "nvidia"@);
    lemma_has_feature(f, "open"@);
}

proof fn lemma_has_feature(f: FamilyInfoView, id: Seq<char>)
    ensures
        has_feature(f, id) <==> f.features.map_values(
            |x: crate::service::FeatureView| x.id,
        ).contains(id),
{
    let ids = f.features.map_values(|x: crate::service::FeatureView| x.id);
    if has_feature(f, id) {
        let i = choose|i: int| 0 <= i < f.features.len() && (#[trigger] f.features[i]).id == id;
        assert(ids[i] == id);
    }
    if ids.contains(id) {
        let i = choose|i: int| 0 <= i < ids.len() && ids[i] == id;
        assert(f.features[i].id == id);
    }
}

} // verus!
