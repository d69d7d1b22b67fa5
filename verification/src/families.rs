//! The catalogue of image families.
use crate::action_journal::owned;
use crate::registry_client::{Family, FamilyView, Variant, VariantView};
use crate::service::family_named;
use crate::text;
use vstd::prelude::*;

verus! {

/// The name of an image with features: that of the base, and each feature behind
/// a hyphen.
pub open spec fn suffixed(base: Seq<char>, features: Seq<Seq<char>>) -> Seq<char> {
    if features.len() == 0 {
        base
    } else {
        base + "-"@ + text::joined(features, seq!['-'])
    }
}

/// Whether the images of a family are named by their features.
pub open spec fn named_by_features(f: FamilyView) -> bool {
    forall|i: int|
        0 <= i < f.variants.len() ==> (#[trigger] f.variants[i]).image == suffixed(
            f.base_image,
            f.variants[i].features,
        ) && forall|j: int|
            0 <= j < f.variants[i].features.len() ==> !(
            #[trigger] f.variants[i].features[j]).contains('-')
}

/// The image of a family with these features, by name.
pub open spec fn variant_of(base: Seq<char>, features: Seq<Seq<char>>) -> VariantView {
    VariantView { features, image: suffixed(base, features) }
}

/// The family `Bluefin Stable`.
pub open spec fn bluefin_stable() -> FamilyView {
    FamilyView {
        name: "Bluefin Stable"@,
        org: "ublue-os"@,
        base_image: "bluefin"@,
        features: seq!["dx"@, "nvidia"@, "open"@],
        variants: seq![
            variant_of("bluefin"@, Seq::empty()),
            variant_of("bluefin"@, seq!["dx"@]),
            variant_of("bluefin"@, seq!["nvidia"@]),
            variant_of("bluefin"@, seq!["nvidia"@, "open"@]),
            variant_of("bluefin"@, seq!["dx"@, "nvidia"@]),
            variant_of("bluefin"@, seq!["dx"@, "nvidia"@, "open"@]),
        ],
        streams: seq!["stable"@, "stable-daily"@, "latest"@],
    }
}

/// The family `Bluefin Dakota`.
pub open spec fn bluefin_dakota() -> FamilyView {
    FamilyView {
        name: "Bluefin Dakota"@,
        org: "projectbluefin"@,
        base_image: "dakota"@,
        features: seq!["nvidia"@],
        variants: seq![
            variant_of("dakota"@, Seq::empty()),
            variant_of("dakota"@, seq!["nvidia"@]),
        ],
        streams: seq!["latest"@],
    }
}

/// The family `Bazzite KDE`.
pub open spec fn bazzite_kde() -> FamilyView {
    FamilyView {
        name: "Bazzite KDE"@,
        org: "ublue-os"@,
        base_image: "bazzite"@,
        features: seq!["nvidia"@, "open"@],
        variants: seq![
            variant_of("bazzite"@, Seq::empty()),
            variant_of("bazzite"@, seq!["nvidia"@]),
            variant_of("bazzite"@, seq!["nvidia"@, "open"@]),
        ],
        streams: seq!["stable"@, "testing"@],
    }
}

/// Every family that is known.
pub open spec fn catalogue() -> Seq<FamilyView> {
    seq![bluefin_stable(), bluefin_dakota(), bazzite_kde()]
}

proof fn lemma_plain_features()
    ensures
        !"dx"@.contains('-'),
        !"nvidia"@.contains('-'),
        !"open"@.contains('-'),
{
    reveal_strlit("dx");
    reveal_strlit("nvidia");
    reveal_strlit("open");
}

proof fn lemma_names_differ()
    ensures
        "Bluefin Stable"@ != "Bluefin Dakota"@,
        "Bluefin Stable"@ != "Bazzite KDE"@,
        "Bluefin Dakota"@ != "Bazzite KDE"@,
{
    reveal_strlit("Bluefin Stable");
    reveal_strlit("Bluefin Dakota");
    reveal_strlit("Bazzite KDE");
    assert("Bluefin Stable"@[8] != "Bluefin Dakota"@[8]);
    assert("Bluefin Stable"@.len() != "Bazzite KDE"@.len());
    assert("Bluefin Dakota"@.len() != "Bazzite KDE"@.len());
}

/// Every family of the catalogue names its images by their features, and is the one
/// that its name stands for.
pub proof fn law_catalogue_is_sound()
    ensures
        forall|i: int|
            0 <= i < catalogue().len() ==> named_by_features(#[trigger] catalogue()[i])
                && family_named(catalogue(), catalogue()[i].name) == Some(catalogue()[i]),
{
    lemma_plain_features();
    lemma_names_differ();
    let all = catalogue();
    assert(all.drop_first() =~= seq![bluefin_dakota(), bazzite_kde()]);
    assert(all.drop_first().drop_first() =~= seq![bazzite_kde()]);
    reveal_with_fuel(family_named, 4);
    assert(named_by_features(bluefin_stable()));
    assert(named_by_features(bluefin_dakota()));
    assert(named_by_features(bazzite_kde()));
}

/// The image of a family with these features.
fn variant(base: &str, features: &[&str]) -> (r: Variant)
    ensures
        r.deep_view() == variant_of(base@, features.deep_view()),
{
    let list: Vec<String> = owned(features);
    assert(list.deep_view().len() == list@.len());
    let image: String = if list.len() == 0 {
        base.to_string()
    } else {
        proof {
            reveal_strlit("-");
            assert("-"@ =~= seq!['-']);
            assert(list.deep_view().skip(0) =~= list.deep_view());
        }
        let suffix: String = text::join(&list, 0, "-");
        text::cat3(base, "-", suffix.as_str())
    };
    Variant { features: list, image }
}

fn make_bluefin_stable() -> (r: Family)
    ensures
        r.deep_view() == bluefin_stable(),
{
    let features: [&str; 3] = ["dx", "nvidia", "open"];
    assert(features.deep_view() =~= seq!["dx"@, "nvidia"@, "open"@]);
    let streams: [&str; 3] = ["stable", "stable-daily", "latest"];
    assert(streams.deep_view() =~= seq!["stable"@, "stable-daily"@, "latest"@]);
    let mut variants: Vec<Variant> = Vec::new();
    let plain: [&str; 0] = [];
    assert(plain.deep_view() =~= Seq::<Seq<char>>::empty());
    variants.push(variant("bluefin", &plain));
    let with_dx: [&str; 1] = ["dx"];
    assert(with_dx.deep_view() =~= seq!["dx"@]);
    variants.push(variant("bluefin", &with_dx));
    let with_nvidia: [&str; 1] = ["nvidia"];
    assert(with_nvidia.deep_view() =~= seq!["nvidia"@]);
    variants.push(variant("bluefin", &with_nvidia));
    let with_nvidia_open: [&str; 2] = ["nvidia", "open"];
    assert(with_nvidia_open.deep_view() =~= seq!["nvidia"@, "open"@]);
    variants.push(variant("bluefin", &with_nvidia_open));
    let with_dx_nvidia: [&str; 2] = ["dx", "nvidia"];
    assert(with_dx_nvidia.deep_view() =~= seq!["dx"@, "nvidia"@]);
    variants.push(variant("bluefin", &with_dx_nvidia));
    let with_dx_nvidia_open: [&str; 3] = ["dx", "nvidia", "open"];
    assert(with_dx_nvidia_open.deep_view() =~= seq!["dx"@, "nvidia"@, "open"@]);
    variants.push(variant("bluefin", &with_dx_nvidia_open));
    assert(variants.deep_view() =~= bluefin_stable().variants);
    Family {
        name: "Bluefin Stable".to_string(),
        org: "ublue-os".to_string(),
        base_image: "bluefin".to_string(),
        features: owned(&features),
        variants,
        streams: owned(&streams),
    }
}

fn make_bluefin_dakota() -> (r: Family)
    ensures
        r.deep_view() == bluefin_dakota(),
{
    let features: [&str; 1] = ["nvidia"];
    assert(features.deep_view() =~= seq!["nvidia"@]);
    let streams: [&str; 1] = ["latest"];
    assert(streams.deep_view() =~= seq!["latest"@]);
    let mut variants: Vec<Variant> = Vec::new();
    let plain: [&str; 0] = [];
    assert(plain.deep_view() =~= Seq::<Seq<char>>::empty());
    variants.push(variant("dakota", &plain));
    let with_nvidia: [&str; 1] = ["nvidia"];
    assert(with_nvidia.deep_view() =~= seq!["nvidia"@]);
    variants.push(variant("dakota", &with_nvidia));
    assert(variants.deep_view() =~= bluefin_dakota().variants);
    Family {
        name: "Bluefin Dakota".to_string(),
        org: "projectbluefin".to_string(),
        base_image: "dakota".to_string(),
        features: owned(&features),
        variants,
        streams: owned(&streams),
    }
}

fn make_bazzite_kde() -> (r: Family)
    ensures
        r.deep_view() == bazzite_kde(),
{
    let features: [&str; 2] = ["nvidia", "open"];
    assert(features.deep_view() =~= seq!["nvidia"@, "open"@]);
    let streams: [&str; 2] = ["stable", "testing"];
    assert(streams.deep_view() =~= seq!["stable"@, "testing"@]);
    let mut variants: Vec<Variant> = Vec::new();
    let plain: [&str; 0] = [];
    assert(plain.deep_view() =~= Seq::<Seq<char>>::empty());
    variants.push(variant("bazzite", &plain));
    let with_nvidia: [&str; 1] = ["nvidia"];
    assert(with_nvidia.deep_view() =~= seq!["nvidia"@]);
    variants.push(variant("bazzite", &with_nvidia));
    let with_nvidia_open: [&str; 2] = ["nvidia", "open"];
    assert(with_nvidia_open.deep_view() =~= seq!["nvidia"@, "open"@]);
    variants.push(variant("bazzite", &with_nvidia_open));
    assert(variants.deep_view() =~= bazzite_kde().variants);
    Family {
        name: "Bazzite KDE".to_string(),
        org: "ublue-os".to_string(),
        base_image: "bazzite".to_string(),
        features: owned(&features),
        variants,
        streams: owned(&streams),
    }
}

/// Every family that is known. Each names its images by their features, and is the
/// one that its name stands for.
pub fn known_families() -> (r: Vec<Family>)
    ensures
        r.deep_view() == catalogue(),
        forall|i: int|
            0 <= i < r@.len() ==> named_by_features(#[trigger] r.deep_view()[i]) && family_named(
                r.deep_view(),
                r.deep_view()[i].name,
            ) == Some(r.deep_view()[i]),
{
    let mut all: Vec<Family> = Vec::new();
    all.push(make_bluefin_stable());
    all.push(make_bluefin_dakota());
    all.push(make_bazzite_kde());
    assert(all.deep_view() =~= catalogue());
    assert(all.deep_view().len() == all@.len());
    proof {
        law_catalogue_is_sound();
    }
    all
}

} // verus!
