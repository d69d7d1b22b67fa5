//! The updater service: image references, families with their switchable
//! features, recent builds, and the image that a choice of features means.
use crate::registry_client::{
    by_date, image_for, listed, sort_by_date, AvailableTag, Family, FamilyView, ImageVersion,
    VersionView,
};
use crate::settings::{full_image_ref, MockBootcIdentity, MockView};
use crate::text;
use vstd::prelude::*;

verus! {

// ── Image references ─────────────────────────────────────────────────────────

/// An image as `registry/org/image:tag`.
#[derive(Debug, PartialEq, Eq)]
pub struct ImageRef {
    pub registry: String,
    pub org: String,
    pub image: String,
    pub tag: String,
}

/// What an image reference is.
#[verifier::ext_equal]
pub struct ImageRefView {
    pub registry: Seq<char>,
    pub org: Seq<char>,
    pub image: Seq<char>,
    pub tag: Seq<char>,
}

impl DeepView for ImageRef {
    type V = ImageRefView;

    open spec fn deep_view(&self) -> ImageRefView {
        ImageRefView {
            registry: self.registry@,
            org: self.org@,
            image: self.image@,
            tag: self.tag@,
        }
    }
}

impl Clone for ImageRef {
    fn clone(&self) -> (r: Self)
        ensures
            r.deep_view() == self.deep_view(),
    {
        ImageRef {
            registry: self.registry.clone(),
            org: self.org.clone(),
            image: self.image.clone(),
            tag: self.tag.clone(),
        }
    }
}

/// The reference that a text means: the tag stands behind the last colon; in
/// front of it stand the registry and the organisation, each up to a slash, and
/// the image.
pub open spec fn parsed_ref(s: Seq<char>) -> Option<ImageRefView> {
    match text::cut_last(s, ':') {
        None => None,
        Some((before_tag, tag)) => match text::cut_first(before_tag, '/') {
            None => None,
            Some((registry, rest)) => match text::cut_first(rest, '/') {
                None => None,
                Some((org, image)) => Some(ImageRefView { registry, org, image, tag }),
            },
        },
    }
}

/// The text of a reference that is pinned to a digest.
pub open spec fn pinned_text(r: ImageRefView, digest: Seq<char>) -> Seq<char> {
    r.registry + "/"@ + r.org + "/"@ + r.image + "@"@ + digest
}

/// The text of a reference.
pub open spec fn ref_text(r: ImageRefView) -> Seq<char> {
    full_image_ref(r.registry, r.org, r.image, r.tag)
}

impl ImageRef {
    /// The reference that a text means.
    pub fn parse(s: &str) -> (r: Option<ImageRef>)
        ensures
            r.deep_view() == parsed_ref(s@),
    {
        match text::rsplit_once(s, ':') {
            None => None,
            Some((before_tag, tag)) => match text::split_once(before_tag.as_str(), '/') {
                None => None,
                Some((registry, rest)) => match text::split_once(rest.as_str(), '/') {
                    None => None,
                    Some((org, image)) => Some(ImageRef { registry, org, image, tag }),
                },
            },
        }
    }

    /// The reference as `registry/org/image:tag`.
    pub fn as_string(&self) -> (r: String)
        ensures
            r@ == ref_text(self.deep_view()),
    {
        text::cat7(
            self.registry.as_str(),
            "/",
            self.org.as_str(),
            "/",
            self.image.as_str(),
            ":",
            self.tag.as_str(),
        )
    }

    /// The reference with a digest in place of the tag, where one is known.
    pub fn as_digest_pinned_string(&self, digest: Option<&str>) -> (r: String)
        ensures
            r@ == match digest {
                Some(d) => pinned_text(self.deep_view(), d@),
                None => ref_text(self.deep_view()),
            },
    {
        match digest {
            Some(d) => text::cat7(
                self.registry.as_str(),
                "/",
                self.org.as_str(),
                "/",
                self.image.as_str(),
                "@",
                d,
            ),
            None => self.as_string(),
        }
    }
}

proof fn lemma_path(registry: Seq<char>, org: Seq<char>, image: Seq<char>, slash: Seq<char>)
    ensures
        registry + slash + (org + slash + image) == registry + slash + org + slash + image,
{
    assert(registry + slash + (org + slash + image) =~= registry + slash + org + slash + image);
}

proof fn lemma_cut_last(s: Seq<char>, sep: char, with: Seq<char>)
    requires
        with == seq![sep],
    ensures
        text::cut_last(s, sep) matches Some((a, b)) ==> s == a + with + b,
{
    text::lemma_last_index_of_bounds(s, sep);
    if let Some((a, b)) = text::cut_last(s, sep) {
        assert(s =~= a + with + b);
    }
}

proof fn lemma_cut_first(s: Seq<char>, sep: char, with: Seq<char>)
    requires
        with == seq![sep],
    ensures
        text::cut_first(s, sep) matches Some((a, b)) ==> s == a + with + b,
{
    text::lemma_index_of_bounds(s, sep);
    if let Some((a, b)) = text::cut_first(s, sep) {
        assert(s =~= a + with + b);
    }
}

/// A text that means a reference is the text of that reference.
pub proof fn law_parsed_ref_has_its_text(s: Seq<char>)
    ensures
        parsed_ref(s) matches Some(r) ==> ref_text(r) == s,
{
    reveal_strlit("/");
    reveal_strlit(":");
    assert("/"@ =~= seq!['/']);
    assert(":"@ =~= seq![':']);
    lemma_cut_last(s, ':', ":"@);
    if let Some((before_tag, tag)) = text::cut_last(s, ':') {
        lemma_cut_first(before_tag, '/', "/"@);
        if let Some((registry, rest)) = text::cut_first(before_tag, '/') {
            lemma_cut_first(rest, '/', "/"@);
            if let Some((org, image)) = text::cut_first(rest, '/') {
                lemma_path(registry, org, image, "/"@);
            }
        }
    }
}

/// The text of a reference means that reference, where its registry and
/// organisation hold no slash and its tag no colon.
pub proof fn law_ref_text_parses(r: ImageRefView)
    requires
        !r.registry.contains('/'),
        !r.org.contains('/'),
        !r.tag.contains(':'),
    ensures
        parsed_ref(ref_text(r)) == Some(r),
{
    reveal_strlit("/");
    reveal_strlit(":");
    let s = ref_text(r);
    let before = r.registry + "/"@ + r.org + "/"@ + r.image;
    assert(s =~= before + seq![':'] + r.tag);
    assert forall|j: int| before.len() < j < s.len() implies s[j] != ':' by {
        assert(s[j] == r.tag[j - before.len() - 1]);
        assert(r.tag.contains(r.tag[j - before.len() - 1]));
    }
    text::lemma_last_index_of(s, ':', before.len() as int);
    assert(s.take(before.len() as int) =~= before);
    assert(s.skip(before.len() as int + 1) =~= r.tag);
    let rest = r.org + "/"@ + r.image;
    assert forall|j: int| 0 <= j < r.registry.len() implies before[j] != '/' by {
        assert(r.registry.contains(r.registry[j]));
    }
    text::lemma_index_of(before, '/', r.registry.len() as int);
    assert(before.take(r.registry.len() as int) =~= r.registry);
    assert(before.skip(r.registry.len() as int + 1) =~= rest);
    assert forall|j: int| 0 <= j < r.org.len() implies rest[j] != '/' by {
        assert(r.org.contains(r.org[j]));
    }
    text::lemma_index_of(rest, '/', r.org.len() as int);
    assert(rest.take(r.org.len() as int) =~= r.org);
    assert(rest.skip(r.org.len() as int + 1) =~= r.image);
}

// ── Features and families ────────────────────────────────────────────────────

/// A feature that can be switched.
#[derive(Debug, PartialEq, Eq)]
pub struct Feature {
    pub id: String,
    pub display_name: String,
    pub subtitle: String,
}

/// What a feature is.
#[verifier::ext_equal]
pub struct FeatureView {
    pub id: Seq<char>,
    pub display_name: Seq<char>,
    pub subtitle: Seq<char>,
}

impl DeepView for Feature {
    type V = FeatureView;

    open spec fn deep_view(&self) -> FeatureView {
        FeatureView {
            id: self.id@,
            display_name: self.display_name@,
            subtitle: self.subtitle@,
        }
    }
}

impl Clone for Feature {
    fn clone(&self) -> (r: Self)
        ensures
            r.deep_view() == self.deep_view(),
    {
        Feature {
            id: self.id.clone(),
            display_name: self.display_name.clone(),
            subtitle: self.subtitle.clone(),
        }
    }
}

/// What frontends see of a family.
#[derive(Debug, PartialEq, Eq)]
pub struct FamilyInfo {
    pub name: String,
    pub base_image: String,
    pub features: Vec<Feature>,
    /// The streams; the first is the default.
    pub streams: Vec<String>,
}

/// What that is.
#[verifier::ext_equal]
pub struct FamilyInfoView {
    pub name: Seq<char>,
    pub base_image: Seq<char>,
    pub features: Seq<FeatureView>,
    pub streams: Seq<Seq<char>>,
}

impl DeepView for FamilyInfo {
    type V = FamilyInfoView;

    open spec fn deep_view(&self) -> FamilyInfoView {
        FamilyInfoView {
            name: self.name@,
            base_image: self.base_image@,
            features: self.features.deep_view(),
            streams: self.streams.deep_view(),
        }
    }
}

impl Clone for FamilyInfo {
    fn clone(&self) -> (r: Self)
        ensures
            r.deep_view() == self.deep_view(),
    {
        let r: FamilyInfo = FamilyInfo {
            name: self.name.clone(),
            base_image: self.base_image.clone(),
            features: self.features.clone(),
            streams: self.streams.clone(),
        };
        assert(r.features.deep_view() =~= self.features.deep_view());
        assert(r.streams.deep_view() =~= self.streams.deep_view());
        r
    }
}

/// The name under which a feature is shown.
pub open spec fn feature_name(feat: Seq<char>) -> Seq<char> {
    if feat == "nvidia"@ {
        "NVIDIA drivers (proprietary)"@
    } else if feat == "open"@ {
        "NVIDIA open kernel modules"@
    } else if feat == "dx"@ {
        "Developer extras (DX)"@
    } else if feat == "hwe"@ {
        "Hardware-enablement kernel (HWE)"@
    } else if feat == "gdx"@ {
        "GNOME Developer extras (GDX)"@
    } else if feat == "deck"@ {
        "Steam Deck profile"@
    } else if feat == "asus"@ {
        "ASUS ROG tuning"@
    } else if feat == "surface"@ {
        "Microsoft Surface kernel"@
    } else if feat == "framework"@ {
        "Framework laptop tuning"@
    } else {
        "Variant feature"@
    }
}

/// The line that explains a feature.
pub open spec fn feature_line(feat: Seq<char>) -> Seq<char> {
    if feat == "nvidia"@ {
        "Use the closed-source NVIDIA driver"@
    } else if feat == "open"@ {
        "Use Mesa's NVK / NVIDIA open-source kernel driver"@
    } else if feat == "dx"@ {
        "Includes container tools, IDEs, and language SDKs"@
    } else if feat == "hwe"@ {
        "Newer kernel + drivers backported for fresh hardware"@
    } else if feat == "gdx"@ {
        "GNOME-focused developer toolchain"@
    } else if feat == "deck"@ {
        "Tuned for Steam Deck hardware (gamescope, Steam shell)"@
    } else if feat == "asus"@ {
        "Kernel patches for ASUS ROG Ally / Strix laptops"@
    } else if feat == "surface"@ {
        "Linux-surface kernel + camera fix-ups"@
    } else if feat == "framework"@ {
        "Power profiles + fingerprint reader support"@
    } else {
        "Additional ublue extras"@
    }
}

/// The name under which a feature is shown.
pub fn feature_display_name(feat: &str) -> (r: &'static str)
    ensures
        r@ == feature_name(feat@),
{
    if text::same(feat, "nvidia") {
        "NVIDIA drivers (proprietary)"
    } else if text::same(feat, "open") {
        "NVIDIA open kernel modules"
    } else if text::same(feat, "dx") {
        "Developer extras (DX)"
    } else if text::same(feat, "hwe") {
        "Hardware-enablement kernel (HWE)"
    } else if text::same(feat, "gdx") {
        "GNOME Developer extras (GDX)"
    } else if text::same(feat, "deck") {
        "Steam Deck profile"
    } else if text::same(feat, "asus") {
        "ASUS ROG tuning"
    } else if text::same(feat, "surface") {
        "Microsoft Surface kernel"
    } else if text::same(feat, "framework") {
        "Framework laptop tuning"
    } else {
        "Variant feature"
    }
}

/// The line that explains a feature.
pub fn feature_subtitle(feat: &str) -> (r: &'static str)
    ensures
        r@ == feature_line(feat@),
{
    if text::same(feat, "nvidia") {
        "Use the closed-source NVIDIA driver"
    } else if text::same(feat, "open") {
        "Use Mesa's NVK / NVIDIA open-source kernel driver"
    } else if text::same(feat, "dx") {
        "Includes container tools, IDEs, and language SDKs"
    } else if text::same(feat, "hwe") {
        "Newer kernel + drivers backported for fresh hardware"
    } else if text::same(feat, "gdx") {
        "GNOME-focused developer toolchain"
    } else if text::same(feat, "deck") {
        "Tuned for Steam Deck hardware (gamescope, Steam shell)"
    } else if text::same(feat, "asus") {
        "Kernel patches for ASUS ROG Ally / Strix laptops"
    } else if text::same(feat, "surface") {
        "Linux-surface kernel + camera fix-ups"
    } else if text::same(feat, "framework") {
        "Power profiles + fingerprint reader support"
    } else {
        "Additional ublue extras"
    }
}

/// A feature with its texts.
pub open spec fn feature_of(id: Seq<char>) -> FeatureView {
    FeatureView { id, display_name: feature_name(id), subtitle: feature_line(id) }
}

/// What frontends see of a family.
pub open spec fn info_of(f: FamilyView) -> FamilyInfoView {
    FamilyInfoView {
        name: f.name,
        base_image: f.base_image,
        features: f.features.map_values(|id: Seq<char>| feature_of(id)),
        streams: f.streams,
    }
}

/// What frontends see of a family.
pub fn family_info(fam: &Family) -> (r: FamilyInfo)
    ensures
        r.deep_view() == info_of(fam.deep_view()),
{
    let mut features: Vec<Feature> = Vec::new();
    let mut i: usize = 0;
    let ghost ids = fam.features.deep_view();
    let ghost want = ids.map_values(|id: Seq<char>| feature_of(id));
    while i < fam.features.len()
        invariant
            0 <= i <= fam.features@.len(),
            ids == fam.features.deep_view(),
            want == ids.map_values(|id: Seq<char>| feature_of(id)),
            features.deep_view() == want.take(i as int),
        decreases fam.features@.len() - i,
    {
        let id: &String = &fam.features[i];
        let f: Feature = Feature {
            id: id.clone(),
            display_name: feature_display_name(id.as_str()).to_string(),
            subtitle: feature_subtitle(id.as_str()).to_string(),
        };
        let ghost fv = f.deep_view();
        let ghost before = features.deep_view();
        assert(fv =~= want[i as int]);
        features.push(f);
        assert(features.deep_view() =~= before.push(fv));
        i += 1;
        assert(want.take(i as int) =~= before.push(fv));
    }
    assert(want.take(i as int) =~= want);
    let streams: Vec<String> = fam.streams.clone();
    assert(streams.deep_view() =~= fam.streams.deep_view());
    FamilyInfo {
        name: fam.name.clone(),
        base_image: fam.base_image.clone(),
        features,
        streams,
    }
}

/// Whether a family publishes an image.
pub open spec fn publishes(f: FamilyView, org: Seq<char>, image: Seq<char>) -> bool {
    f.org == org && exists|i: int|
        0 <= i < f.variants.len() && (#[trigger] f.variants[i]).image == image
}

/// Position of the first family that publishes an image, and has its tag as a
/// stream where `by_stream` is set; -1 where there is none.
pub open spec fn first_publisher(
    families: Seq<FamilyView>,
    image: ImageRefView,
    by_stream: bool,
) -> int
    decreases families.len(),
{
    if families.len() == 0 {
        -1
    } else {
        let rest = first_publisher(families.drop_last(), image, by_stream);
        let f = families.last();
        if rest >= 0 {
            rest
        } else if publishes(f, image.org, image.image) && (by_stream ==> f.streams.contains(
            image.tag,
        )) {
            families.len() - 1
        } else {
            -1
        }
    }
}

/// Position of the family that an image belongs to: the first that publishes it
/// in the stream of its tag, else the first that publishes it; -1 where none
/// does.
pub open spec fn best_match_index(families: Seq<FamilyView>, image: ImageRefView) -> int {
    let exact = first_publisher(families, image, true);
    if exact >= 0 {
        exact
    } else {
        first_publisher(families, image, false)
    }
}

proof fn lemma_first_publisher(families: Seq<FamilyView>, image: ImageRefView, by_stream: bool)
    ensures
        -1 <= first_publisher(families, image, by_stream) < families.len(),
    decreases families.len(),
{
    if families.len() > 0 {
        lemma_first_publisher(families.drop_last(), image, by_stream);
    }
}

fn publishes_image(f: &Family, org: &str, image: &str) -> (r: bool)
    ensures
        r == publishes(f.deep_view(), org@, image@),
{
    if !text::same(f.org.as_str(), org) {
        return false;
    }
    let ghost all = f.variants.deep_view();
    let mut i: usize = 0;
    while i < f.variants.len()
        invariant
            0 <= i <= f.variants@.len(),
            f.org@ == org@,
            all == f.variants.deep_view(),
            forall|j: int| 0 <= j < i ==> (#[trigger] all[j]).image != image@,
        decreases f.variants@.len() - i,
    {
        if text::same(f.variants[i].image.as_str(), image) {
            assert(f.deep_view().variants[i as int].image == image@);
            return true;
        }
        i += 1;
    }
    false
}

fn find_publisher(families: &Vec<Family>, image: &ImageRef, by_stream: bool) -> (r: Option<usize>)
    ensures
        match r {
            Some(i) => i < families@.len() && i == first_publisher(
                families.deep_view(),
                image.deep_view(),
                by_stream,
            ),
            None => first_publisher(families.deep_view(), image.deep_view(), by_stream) == -1,
        },
{
    let ghost all = families.deep_view();
    let ghost v = image.deep_view();
    let mut i: usize = 0;
    assert(all.take(0) =~= Seq::<FamilyView>::empty());
    while i < families.len()
        invariant
            0 <= i <= families@.len(),
            all == families.deep_view(),
            v == image.deep_view(),
            first_publisher(all.take(i as int), v, by_stream) == -1,
        decreases families@.len() - i,
    {
        let f: &Family = &families[i];
        assert(all.take(i + 1).drop_last() =~= all.take(i as int));
        assert(all.take(i + 1).last() == f.deep_view());
        if publishes_image(f, image.org.as_str(), image.image.as_str()) && (!by_stream || listed(
            &f.streams,
            image.tag.as_str(),
        )) {
            proof {
                lemma_publisher_stays(all, v, by_stream, i + 1);
            }
            return Some(i);
        }
        i += 1;
    }
    assert(all.take(i as int) =~= all);
    None
}

proof fn lemma_publisher_stays(
    families: Seq<FamilyView>,
    image: ImageRefView,
    by_stream: bool,
    n: int,
)
    requires
        0 <= n <= families.len(),
        first_publisher(families.take(n), image, by_stream) >= 0,
    ensures
        first_publisher(families, image, by_stream) == first_publisher(
            families.take(n),
            image,
            by_stream,
        ),
    decreases families.len() - n,
{
    if n < families.len() {
        assert(families.take(n + 1).drop_last() =~= families.take(n));
        lemma_publisher_stays(families, image, by_stream, n + 1);
    } else {
        assert(families.take(n) =~= families);
    }
}

/// Position of the family that an image belongs to.
pub fn best_match(families: &Vec<Family>, image: &ImageRef) -> (r: Option<usize>)
    ensures
        match r {
            Some(i) => i < families@.len() && i == best_match_index(
                families.deep_view(),
                image.deep_view(),
            ),
            None => best_match_index(families.deep_view(), image.deep_view()) == -1,
        },
{
    match find_publisher(families, image, true) {
        Some(i) => Some(i),
        None => find_publisher(families, image, false),
    }
}

/// What frontends see of the family that the booted image belongs to.
pub open spec fn booted_family(
    families: Seq<FamilyView>,
    booted: Option<ImageRefView>,
) -> Option<FamilyInfoView> {
    match booted {
        None => None,
        Some(image) => {
            let i = best_match_index(families, image);
            if i >= 0 {
                Some(info_of(families[i]))
            } else {
                None
            }
        },
    }
}

/// What frontends see of the family that the booted image belongs to.
pub fn family_of(families: &Vec<Family>, booted: Option<&ImageRef>) -> (r: Option<FamilyInfo>)
    ensures
        r.deep_view() == booted_family(
            families.deep_view(),
            match booted {
                Some(i) => Some(i.deep_view()),
                None => None,
            },
        ),
{
    match booted {
        None => None,
        Some(image) => match best_match(families, image) {
            None => None,
            Some(i) => {
                assert(families.deep_view()[i as int] == families@[i as int].deep_view());
                Some(family_info(&families[i]))
            },
        },
    }
}

// ── Targets ──────────────────────────────────────────────────────────────────

/// The first family with a name.
pub open spec fn family_named(families: Seq<FamilyView>, name: Seq<char>) -> Option<FamilyView>
    decreases families.len(),
{
    if families.len() == 0 {
        None
    } else if families[0].name == name {
        Some(families[0])
    } else {
        family_named(families.drop_first(), name)
    }
}

/// The image that a family publishes with exactly the wanted features, in a
/// stream.
pub open spec fn target_in_stream(
    families: Seq<FamilyView>,
    family: Seq<char>,
    features: Seq<Seq<char>>,
    stream: Seq<char>,
) -> Option<ImageRefView> {
    match family_named(families, family) {
        None => None,
        Some(f) => match image_for(f.variants, features) {
            None => None,
            Some(image) => Some(
                ImageRefView { registry: "ghcr.io"@, org: f.org, image, tag: stream },
            ),
        },
    }
}

/// The stream of a family that is used where none is chosen.
pub open spec fn default_stream(streams: Seq<Seq<char>>) -> Seq<char> {
    if streams.len() > 0 {
        streams[0]
    } else {
        "latest"@
    }
}

/// The image that a family publishes with exactly the wanted features, in its
/// default stream.
pub open spec fn default_target(
    families: Seq<FamilyView>,
    family: FamilyInfoView,
    features: Seq<Seq<char>>,
) -> Option<ImageRefView> {
    target_in_stream(families, family.name, features, default_stream(family.streams))
}

fn find_named<'a>(families: &'a Vec<Family>, name: &str) -> (r: Option<&'a Family>)
    ensures
        match r {
            Some(f) => family_named(families.deep_view(), name@) == Some(f.deep_view()),
            None => family_named(families.deep_view(), name@) is None,
        },
{
    let ghost all = families.deep_view();
    assert(all.skip(0) =~= all);
    let mut i: usize = 0;
    while i < families.len()
        invariant
            0 <= i <= families@.len(),
            all == families.deep_view(),
            family_named(all, name@) == family_named(all.skip(i as int), name@),
        decreases families@.len() - i,
    {
        assert(all.skip(i as int)[0] == families@[i as int].deep_view());
        assert(all.skip(i as int).drop_first() =~= all.skip(i + 1));
        if text::same(families[i].name.as_str(), name) {
            return Some(&families[i]);
        }
        i += 1;
    }
    None
}

/// The image that a family publishes with exactly the wanted features, in a
/// stream.
pub fn resolve_target_with_stream(
    families: &Vec<Family>,
    family: &FamilyInfo,
    features: &Vec<String>,
    stream: &str,
) -> (r: Option<ImageRef>)
    ensures
        r.deep_view() == target_in_stream(
            families.deep_view(),
            family.name@,
            features.deep_view(),
            stream@,
        ),
{
    match find_named(families, family.name.as_str()) {
        None => None,
        Some(f) => match f.select_image_for_features(features) {
            None => None,
            Some(image) => Some(
                ImageRef {
                    registry: "ghcr.io".to_string(),
                    org: f.org.clone(),
                    image,
                    tag: stream.to_string(),
                },
            ),
        },
    }
}

/// The image that a family publishes with exactly the wanted features, in its
/// default stream.
pub fn resolve_target(families: &Vec<Family>, family: &FamilyInfo, features: &Vec<String>) -> (r:
    Option<ImageRef>)
    ensures
        r.deep_view() == default_target(
            families.deep_view(),
            family.deep_view(),
            features.deep_view(),
        ),
{
    assert(family.streams.deep_view().len() == family.streams@.len());
    if family.streams.len() > 0 {
        assert(family.streams.deep_view()[0] == family.streams@[0]@);
        resolve_target_with_stream(families, family, features, family.streams[0].as_str())
    } else {
        resolve_target_with_stream(families, family, features, "latest")
    }
}

/// A resolved image is one that the family publishes, in GHCR.
pub proof fn law_targets_are_published(
    families: Seq<FamilyView>,
    family: Seq<char>,
    features: Seq<Seq<char>>,
    stream: Seq<char>,
)
    ensures
        target_in_stream(families, family, features, stream) matches Some(r) ==> {
            &&& r.registry == "ghcr.io"@
            &&& r.tag == stream
            &&& family_named(families, family) matches Some(f) && publishes(f, r.org, r.image)
        },
{
    if let Some(f) = family_named(families, family) {
        lemma_image_is_published(f.variants, features);
    }
}

proof fn lemma_image_is_published(
    variants: Seq<crate::registry_client::VariantView>,
    want: Seq<Seq<char>>,
)
    ensures
        image_for(variants, want) matches Some(image) ==> exists|i: int|
            0 <= i < variants.len() && (#[trigger] variants[i]).image == image,
    decreases variants.len(),
{
    if variants.len() > 0 && !crate::registry_client::same_features(variants[0].features, want) {
        let rest = variants.drop_first();
        lemma_image_is_published(rest, want);
        if let Some(image) = image_for(rest, want) {
            let w = choose|w: int| 0 <= w < rest.len() && (#[trigger] rest[w]).image == image;
            assert(variants[w + 1].image == image);
        }
    }
}

// ── Replies of the registry ──────────────────────────────────────────────────

/// Errors of the service.
#[derive(Debug, PartialEq)]
pub enum ServiceError {
    Registry(String),
    Io(String),
    Unsupported(String),
    NotFound(String),
}

/// What an error is.
#[verifier::ext_equal]
pub enum ErrorView {
    Registry(Seq<char>),
    Io(Seq<char>),
    Unsupported(Seq<char>),
    NotFound(Seq<char>),
}

impl DeepView for ServiceError {
    type V = ErrorView;

    open spec fn deep_view(&self) -> ErrorView {
        match self {
            ServiceError::Registry(m) => ErrorView::Registry(m@),
            ServiceError::Io(m) => ErrorView::Io(m@),
            ServiceError::Unsupported(m) => ErrorView::Unsupported(m@),
            ServiceError::NotFound(m) => ErrorView::NotFound(m@),
        }
    }
}

/// The text of an error.
pub open spec fn error_text(e: ErrorView) -> Seq<char> {
    match e {
        ErrorView::Registry(m) => "registry: "@ + m,
        ErrorView::Io(m) => "io: "@ + m,
        ErrorView::Unsupported(m) => "unsupported: "@ + m,
        ErrorView::NotFound(m) => "not found: "@ + m,
    }
}

impl ServiceError {
    /// The text of this error.
    pub fn message(&self) -> (r: String)
        ensures
            r@ == error_text(self.deep_view()),
    {
        match self {
            ServiceError::Registry(m) => text::cat2("registry: ", m.as_str()),
            ServiceError::Io(m) => text::cat2("io: ", m.as_str()),
            ServiceError::Unsupported(m) => text::cat2("unsupported: ", m.as_str()),
            ServiceError::NotFound(m) => text::cat2("not found: ", m.as_str()),
        }
    }
}

/// Progress of switching to another image.
#[derive(Debug, PartialEq)]
pub enum SwitchProgress {
    /// The switch was accepted.
    Started { target: String },
    /// Progress of the layers.
    Layer { index: u32, total: u32, bytes_done: u64, bytes_total: u64 },
    /// A line of the tool.
    Log { line: String },
    /// The new image is staged for the next boot.
    Done,
    /// The switch failed.
    Failed { message: String },
}

/// The booted image, where the registry detected one.
pub fn booted_image(reply: Option<ImageRef>) -> (r: Result<ImageRef, ServiceError>)
    ensures
        match reply {
            Some(image) => r == Ok::<ImageRef, ServiceError>(image),
            None => r matches Err(e) && e.deep_view() == ErrorView::NotFound(
                "no booted image detected"@,
            ),
        },
{
    match reply {
        Some(image) => Ok(image),
        None => Err(ServiceError::NotFound("no booted image detected".to_string())),
    }
}

/// The image that a system's own name stands for: that of the first family that
/// publishes an image of this name, in its default stream.
pub open spec fn image_of_name(families: Seq<FamilyView>, name: Seq<char>) -> Option<ImageRefView>
    decreases families.len(),
{
    if families.len() == 0 {
        None
    } else {
        let f = families[0];
        if publishes(f, f.org, name) {
            Some(
                ImageRefView {
                    registry: "ghcr.io"@,
                    org: f.org,
                    image: name,
                    tag: default_stream(f.streams),
                },
            )
        } else {
            image_of_name(families.drop_first(), name)
        }
    }
}

/// The image that a system's own name stands for.
pub fn named_image(families: &Vec<Family>, name: &str) -> (r: Option<ImageRef>)
    ensures
        r.deep_view() == image_of_name(families.deep_view(), name@),
{
    let ghost all = families.deep_view();
    let mut i: usize = 0;
    assert(all.skip(0) =~= all);
    while i < families.len()
        invariant
            0 <= i <= families@.len(),
            all == families.deep_view(),
            image_of_name(all, name@) == image_of_name(all.skip(i as int), name@),
        decreases families@.len() - i,
    {
        let f: &Family = &families[i];
        assert(all.skip(i as int)[0] == f.deep_view());
        assert(all.skip(i as int).drop_first() =~= all.skip(i + 1));
        if publishes_image(f, f.org.as_str(), name) {
            assert(f.streams.deep_view().len() == f.streams@.len());
            let tag: String = if f.streams.len() > 0 {
                assert(f.streams.deep_view()[0] == f.streams@[0]@);
                f.streams[0].clone()
            } else {
                "latest".to_string()
            };
            return Some(
                ImageRef {
                    registry: "ghcr.io".to_string(),
                    org: f.org.clone(),
                    image: name.to_string(),
                    tag,
                },
            );
        }
        i += 1;
    }
    assert(all.skip(i as int) =~= Seq::<FamilyView>::empty());
    None
}

/// The reference that a text means, where there is one.
pub open spec fn parsed_text(s: Option<Seq<char>>) -> Option<ImageRefView> {
    match s {
        Some(s) => parsed_ref(s),
        None => None,
    }
}

/// The image that the system is booted on: one to pretend, else what the
/// environment names, else what `bootc` tells, else what the system's own name
/// stands for.
pub open spec fn detected(
    mock: Option<MockView>,
    env: Option<Seq<char>>,
    bootc: Option<Seq<char>>,
    os: Option<ImageRefView>,
) -> Option<ImageRefView> {
    match mock {
        Some(m) => Some(
            ImageRefView { registry: m.registry, org: m.org, image: m.image, tag: m.tag },
        ),
        None => if parsed_text(env) is Some {
            parsed_text(env)
        } else if parsed_text(bootc) is Some {
            parsed_text(bootc)
        } else {
            os
        },
    }
}

fn parse_text(s: Option<&str>) -> (r: Option<ImageRef>)
    ensures
        r.deep_view() == parsed_text(
            match s {
                Some(s) => Some(s@),
                None => None,
            },
        ),
{
    match s {
        Some(s) => ImageRef::parse(s),
        None => None,
    }
}

/// The image that the system is booted on, as far as anything tells.
pub fn detect_image(
    mock: Option<&MockBootcIdentity>,
    env: Option<&str>,
    bootc: Option<&str>,
    os: Option<ImageRef>,
) -> (r: Option<ImageRef>)
    ensures
        r.deep_view() == detected(
            match mock {
                Some(m) => Some(m.deep_view()),
                None => None,
            },
            match env {
                Some(s) => Some(s@),
                None => None,
            },
            match bootc {
                Some(s) => Some(s@),
                None => None,
            },
            os.deep_view(),
        ),
{
    if let Some(m) = mock {
        return Some(
            ImageRef {
                registry: m.registry.clone(),
                org: m.org.clone(),
                image: m.image.clone(),
                tag: m.tag.clone(),
            },
        );
    }
    if let Some(image) = parse_text(env) {
        return Some(image);
    }
    if let Some(image) = parse_text(bootc) {
        return Some(image);
    }
    os
}

/// The first `max` builds, newest first.
pub open spec fn newest(versions: Seq<VersionView>, max: int) -> Seq<VersionView> {
    let sorted = by_date(versions, true);
    if max < sorted.len() {
        sorted.take(max)
    } else {
        sorted
    }
}

/// The newest builds of what the registry replied.
pub fn recent_versions(reply: Result<Vec<ImageVersion>, ServiceError>, max: usize) -> (r: Result<
    Vec<ImageVersion>,
    ServiceError,
>)
    ensures
        match reply {
            Ok(versions) => r matches Ok(v) && v.deep_view() == newest(
                versions.deep_view(),
                max as int,
            ),
            Err(e) => r == Err::<Vec<ImageVersion>, ServiceError>(e),
        },
{
    match reply {
        Err(e) => Err(e),
        Ok(versions) => {
            let mut sorted: Vec<ImageVersion> = sort_by_date(versions, true);
            let ghost all = sorted.deep_view();
            sorted.truncate(max);
            assert(sorted.deep_view() =~= newest(versions.deep_view(), max as int));
            Ok(sorted)
        },
    }
}

/// No build that is left out is newer than one that is kept.
pub proof fn law_newest_are_kept(versions: Seq<VersionView>, max: int)
    requires
        max >= 0,
    ensures
        newest(versions, max).len() <= max,
        crate::registry_client::is_by_date(newest(versions, max), true),
        newest(versions, max) == by_date(versions, true).take(newest(versions, max).len() as int),
        forall|i: int, j: int|
            0 <= i < newest(versions, max).len() <= j < versions.len()
                ==> !crate::calendar::earlier(
                (#[trigger] newest(versions, max)[i]).date,
                (#[trigger] by_date(versions, true)[j]).date,
            ),
{
    crate::registry_client::law_by_date_is_stable(versions, true);
    let sorted = by_date(versions, true);
    let kept = newest(versions, max);
    assert(kept =~= sorted.take(kept.len() as int));
    assert forall|i: int, j: int| 0 <= i < j < kept.len() implies !crate::registry_client::in_front(
        (#[trigger] kept[j]).date,
        (#[trigger] kept[i]).date,
        true,
    ) by {
        assert(!crate::registry_client::in_front(sorted[j].date, sorted[i].date, true));
    }
    assert forall|i: int, j: int|
        0 <= i < kept.len() <= j < versions.len() implies !crate::calendar::earlier(
        (#[trigger] kept[i]).date,
        (#[trigger] sorted[j]).date,
    ) by {
        assert(!crate::registry_client::in_front(sorted[j].date, sorted[i].date, true));
    }
}

/// What a registry can be asked. Replies depend on the registry alone.
pub trait Registry {
    /// Up to `max` recent builds of an image.
    fn fetch_versions(&self, image: &ImageRef, max: usize) -> Result<
        Vec<ImageVersion>,
        ServiceError,
    >;

    /// The image that the system is booted on.
    fn detect_booted_image(&self) -> Option<ImageRef>;

    /// The tags of an image's stream.
    fn list_available_tags(&self, image: &ImageRef) -> Result<Vec<AvailableTag>, ServiceError>;
}

/// The service over a registry and a catalogue of families.
#[derive(Debug)]
pub struct BootcUpdaterService<R> {
    pub registry: R,
    pub families: Vec<Family>,
}

impl<R: Registry> BootcUpdaterService<R> {
    /// A service over a registry and a catalogue of families.
    pub fn with_registry(registry: R, families: Vec<Family>) -> (r: BootcUpdaterService<R>)
        ensures
            r.registry == registry,
            r.families == families,
    {
        BootcUpdaterService { registry, families }
    }

    /// The booted image.
    pub fn current_image(&self) -> (r: Result<ImageRef, ServiceError>)
        ensures
            exists|reply: Option<ImageRef>|
                {
                    &&& #[trigger] call_ensures(R::detect_booted_image, (&self.registry,), reply)
                    &&& match reply {
                        Some(image) => r == Ok::<ImageRef, ServiceError>(image),
                        None => r matches Err(e) && e.deep_view() == ErrorView::NotFound(
                            "no booted image detected"@,
                        ),
                    }
                },
    {
        let reply: Option<ImageRef> = self.registry.detect_booted_image();
        booted_image(reply)
    }

    /// The family of the booted image.
    pub fn current_family(&self) -> (r: Option<FamilyInfo>)
        ensures
            exists|reply: Option<ImageRef>| #[trigger]
                call_ensures(R::detect_booted_image, (&self.registry,), reply) && r.deep_view()
                    == booted_family(self.families.deep_view(), reply.deep_view()),
    {
        let reply: Option<ImageRef> = self.registry.detect_booted_image();
        family_of(&self.families, reply.as_ref())
    }

    /// The newest builds of an image, newest first.
    pub fn list_versions(&self, image: &ImageRef, max: usize) -> (r: Result<
        Vec<ImageVersion>,
        ServiceError,
    >)
        ensures
            exists|reply: Result<Vec<ImageVersion>, ServiceError>|
                {
                    &&& #[trigger] call_ensures(
                        R::fetch_versions,
                        (&self.registry, image, max),
                        reply,
                    )
                    &&& match reply {
                        Ok(versions) => r matches Ok(v) && v.deep_view() == newest(
                            versions.deep_view(),
                            max as int,
                        ),
                        Err(e) => r == Err::<Vec<ImageVersion>, ServiceError>(e),
                    }
                },
    {
        let reply: Result<Vec<ImageVersion>, ServiceError> = self.registry.fetch_versions(
            image,
            max,
        );
        recent_versions(reply, max)
    }

    /// The tags of an image's stream, as the registry replies.
    pub fn list_available_tags(&self, image: &ImageRef) -> (r: Result<
        Vec<AvailableTag>,
        ServiceError,
    >)
        ensures
            call_ensures(R::list_available_tags, (&self.registry, image), r),
    {
        self.registry.list_available_tags(image)
    }

    /// The image that a family publishes with exactly the wanted features, in
    /// its default stream.
    pub fn resolve_target(&self, family: &FamilyInfo, features: &Vec<String>) -> (r: Option<
        ImageRef,
    >)
        ensures
            r.deep_view() == default_target(
                self.families.deep_view(),
                family.deep_view(),
                features.deep_view(),
            ),
    {
        self::resolve_target(&self.families, family, features)
    }

    /// The image that a family publishes with exactly the wanted features, in a
    /// stream.
    pub fn resolve_target_with_stream(
        &self,
        family: &FamilyInfo,
        features: &Vec<String>,
        stream: &str,
    ) -> (r: Option<ImageRef>)
        ensures
            r.deep_view() == target_in_stream(
                self.families.deep_view(),
                family.name@,
                features.deep_view(),
                stream@,
            ),
    {
        self::resolve_target_with_stream(&self.families, family, features, stream)
    }

    /// Switching with streamed progress, which is not supported.
    pub fn switch_image(&self, _target: &ImageRef) -> (r: Result<SwitchProgress, ServiceError>)
        ensures
            r matches Err(e) && e.deep_view() == ErrorView::Unsupported(
                "switch_image streaming not yet implemented; use run_bootc_switch directly"@,
            ),
    {
        Err(
            ServiceError::Unsupported(
                "switch_image streaming not yet implemented; use run_bootc_switch directly".to_string(),
            ),
        )
    }
}

// ── What the texts and the lookups are for ───────────────────────────────────

/// A reference is spelled with its parts as they are, in the order registry,
/// organisation, image, and the tag or digest last.
pub proof fn law_reference_spells_its_parts(r: ImageRefView, digest: Seq<char>)
    ensures
        ref_text(r) == r.registry.push('/') + r.org.push('/') + r.image.push(':') + r.tag,
        pinned_text(r, digest) == r.registry.push('/') + r.org.push('/') + r.image.push('@')
            + digest,
{
    reveal_strlit("/");
    reveal_strlit(":");
    reveal_strlit("@");
    assert(ref_text(r) =~= r.registry.push('/') + r.org.push('/') + r.image.push(':') + r.tag);
    assert(pinned_text(r, digest) =~= r.registry.push('/') + r.org.push('/') + r.image.push('@')
        + digest);
}

/// A text means a reference exactly where it is registry, organisation, image and tag
/// with their marks between them: the first two without a slash, the tag without a
/// colon.
pub proof fn law_reference_is_read_by_its_marks(s: Seq<char>, r: ImageRefView)
    ensures
        parsed_ref(s) == Some(r) <==> (s == r.registry.push('/') + r.org.push('/') + r.image.push(
            ':',
        ) + r.tag && !r.registry.contains('/') && !r.org.contains('/') && !r.tag.contains(':')),
{
    law_reference_spells_its_parts(r, Seq::empty());
    if parsed_ref(s) == Some(r) {
        law_parsed_ref_has_its_text(s);
        text::lemma_last_index_of_bounds(s, ':');
        let (before_tag, tag) = text::cut_last(s, ':')->0;
        text::lemma_index_of_bounds(before_tag, '/');
        let (registry, rest) = text::cut_first(before_tag, '/')->0;
        text::lemma_index_of_bounds(rest, '/');
        let c = text::last_index_of(s, ':');
        assert forall|j: int| 0 <= j < r.tag.len() implies r.tag[j] != ':' by {
            assert(r.tag[j] == s[c + 1 + j]);
        }
        assert forall|j: int| 0 <= j < r.registry.len() implies r.registry[j] != '/' by {
            assert(r.registry[j] == before_tag[j]);
        }
        assert forall|j: int| 0 <= j < r.org.len() implies r.org[j] != '/' by {
            assert(r.org[j] == rest[j]);
        }
    }
    if s == ref_text(r) && !r.registry.contains('/') && !r.org.contains('/') && !r.tag.contains(
        ':',
    ) {
        law_ref_text_parses(r);
    }
}

/// Whether a family publishes an image, under its organisation.
pub open spec fn carries(f: FamilyView, image: ImageRefView) -> bool {
    f.org == image.org && f.variants.map_values(
        |v: crate::registry_client::VariantView| v.image,
    ).contains(image.image)
}

proof fn lemma_carries(f: FamilyView, image: ImageRefView)
    ensures
        carries(f, image) <==> publishes(f, image.org, image.image),
{
    let names = f.variants.map_values(|v: crate::registry_client::VariantView| v.image);
    if carries(f, image) {
        let i = choose|i: int| 0 <= i < names.len() && names[i] == image.image;
        assert(f.variants[i].image == image.image);
    }
    if publishes(f, image.org, image.image) {
        let i = choose|i: int|
            0 <= i < f.variants.len() && (#[trigger] f.variants[i]).image == image.image;
        assert(names[i] == image.image);
    }
}

proof fn lemma_publisher_is_first(families: Seq<FamilyView>, image: ImageRefView, by_stream: bool)
    ensures
        ({
            let n = first_publisher(families, image, by_stream);
            &&& -1 <= n < families.len()
            &&& n >= 0 ==> carries(families[n], image) && (by_stream ==> families[n].streams.contains(
                image.tag,
            ))
            &&& forall|j: int|
                0 <= j < (if n >= 0 {
                    n
                } else {
                    families.len() as int
                }) ==> !(carries(#[trigger] families[j], image) && (by_stream
                    ==> families[j].streams.contains(image.tag)))
        }),
    decreases families.len(),
{
    if families.len() > 0 {
        let front = families.drop_last();
        lemma_publisher_is_first(front, image, by_stream);
        lemma_carries(families.last(), image);
        assert(families[families.len() - 1] == families.last());
        assert(forall|j: int| 0 <= j < front.len() ==> #[trigger] families[j] == front[j]);
    }
}

/// The booted image belongs to the first family that publishes it in the stream it was
/// booted from, else to the first that publishes it at all, and else to none. The
/// family is told with its own name, base, streams and features.
pub proof fn law_booted_image_has_its_family(families: Seq<FamilyView>, image: ImageRefView, i: int)
    requires
        0 <= i < families.len(),
        carries(families[i], image),
        families[i].streams.contains(image.tag) ==> forall|j: int|
            0 <= j < i ==> !(carries(#[trigger] families[j], image)
                && families[j].streams.contains(image.tag)),
        !families[i].streams.contains(image.tag) ==> (forall|j: int|
            0 <= j < i ==> !carries(#[trigger] families[j], image)) && forall|j: int|
            0 <= j < families.len() ==> !(carries(#[trigger] families[j], image)
                && families[j].streams.contains(image.tag)),
    ensures
        booted_family(families, Some(image)) matches Some(info) && info.name == families[i].name
            && info.base_image == families[i].base_image && info.streams == families[i].streams
            && info.features.map_values(|f: FeatureView| f.id) == families[i].features,
{
    lemma_publisher_is_first(families, image, true);
    lemma_publisher_is_first(families, image, false);
    let exact = first_publisher(families, image, true);
    let any = first_publisher(families, image, false);
    if families[i].streams.contains(image.tag) {
        if exact > i || exact < 0 {
            assert(!(carries(families[i], image) && families[i].streams.contains(image.tag)));
        }
        if exact < i {
            assert(!(carries(families[exact], image) && families[exact].streams.contains(
                image.tag,
            )));
        }
        assert(exact == i);
    } else {
        if exact >= 0 {
            assert(!(carries(families[exact], image) && families[exact].streams.contains(
                image.tag,
            )));
        }
        if any > i || any < 0 {
            assert(!carries(families[i], image));
        }
        if any < i {
            assert(!carries(families[any], image));
        }
        assert(any == i);
    }
    let ids = info_of(families[i]).features.map_values(|f: FeatureView| f.id);
    assert(ids =~= families[i].features);
}

/// An image that no family publishes belongs to none, and so does no image.
pub proof fn law_unknown_image_has_no_family(families: Seq<FamilyView>, image: ImageRefView)
    ensures
        booted_family(families, Some(image)) is None <==> forall|j: int|
            0 <= j < families.len() ==> !carries(#[trigger] families[j], image),
        booted_family(families, None) is None,
{
    lemma_publisher_is_first(families, image, true);
    lemma_publisher_is_first(families, image, false);
}

/// An image that is known by its name alone is that of the first family that has it,
/// in GHCR, under that family's organisation and in its first stream.
pub proof fn law_name_is_found_in_the_catalogue(families: Seq<FamilyView>, name: Seq<char>)
    ensures
        image_of_name(families, name) is None <==> forall|j: int, k: int|
            0 <= j < families.len() && 0 <= k < families[j].variants.len() ==> (
            #[trigger] families[j].variants[k]).image != name,
        forall|i: int, k: int|
            0 <= i < families.len() && 0 <= k < families[i].variants.len() && (
            #[trigger] families[i].variants[k]).image == name && (forall|j: int, l: int|
                0 <= j < i && 0 <= l < families[j].variants.len() ==> (
                #[trigger] families[j].variants[l]).image != name) ==> image_of_name(families, name)
                == Some(
                ImageRefView {
                    registry: "ghcr.io"@,
                    org: families[i].org,
                    image: name,
                    tag: if families[i].streams.len() > 0 {
                        families[i].streams[0]
                    } else {
                        "latest"@
                    },
                },
            ),
    decreases families.len(),
{
    if families.len() > 0 {
        let rest = families.drop_first();
        let f = families[0];
        law_name_is_found_in_the_catalogue(rest, name);
        assert(forall|j: int| 0 <= j < rest.len() ==> #[trigger] rest[j] == families[j + 1]);
        let here = publishes(f, f.org, name);
        if here {
            let k = choose|k: int| 0 <= k < f.variants.len() && (#[trigger] f.variants[k]).image
                == name;
            assert(families[0].variants[k].image == name);
        } else {
            assert forall|l: int| 0 <= l < families[0].variants.len() implies (
            #[trigger] families[0].variants[l]).image != name by {
                assert(f.variants[l].image != name);
            }
            if image_of_name(rest, name) is None {
                assert forall|j: int, k: int|
                    0 <= j < families.len() && 0 <= k < families[j].variants.len() implies (
                #[trigger] families[j].variants[k]).image != name by {
                    if j > 0 {
                        assert(rest[j - 1].variants[k].image != name);
                    }
                }
            } else {
                let (j, k) = choose|j: int, k: int|
                    0 <= j < rest.len() && 0 <= k < rest[j].variants.len() && (
                    #[trigger] rest[j].variants[k]).image == name;
                assert(families[j + 1].variants[k].image == name);
            }
        }
        assert forall|i: int, k: int|
            0 <= i < families.len() && 0 <= k < families[i].variants.len() && (
            #[trigger] families[i].variants[k]).image == name && (forall|j: int, l: int|
                0 <= j < i && 0 <= l < families[j].variants.len() ==> (
                #[trigger] families[j].variants[l]).image != name) implies image_of_name(
            families,
            name,
        ) == Some(
            ImageRefView {
                registry: "ghcr.io"@,
                org: families[i].org,
                image: name,
                tag: if families[i].streams.len() > 0 {
                    families[i].streams[0]
                } else {
                    "latest"@
                },
            },
        ) by {
            if i == 0 {
                assert(f.variants[k].image == name);
            } else {
                if here {
                    let l = choose|l: int|
                        0 <= l < f.variants.len() && (#[trigger] f.variants[l]).image == name;
                    assert(families[0].variants[l].image != name);
                }
                assert(rest[i - 1].variants[k].image == name);
                assert forall|j: int, l: int|
                    0 <= j < i - 1 && 0 <= l < rest[j].variants.len() implies (
                #[trigger] rest[j].variants[l]).image != name by {
                    assert(families[j + 1].variants[l].image != name);
                }
            }
        }
    }
}

/// The booted image is the one that is set for tests; else the one that the environment
/// names, where that is a reference; else the one of `bootc`, where that is one; else
/// what the system calls itself.
pub proof fn law_first_known_image_counts(
    mock: Option<MockView>,
    env: Option<Seq<char>>,
    bootc: Option<Seq<char>>,
    os: Option<ImageRefView>,
    r: ImageRefView,
)
    requires
        !r.registry.contains('/'),
        !r.org.contains('/'),
        !r.tag.contains(':'),
    ensures
        mock matches Some(m) ==> detected(mock, env, bootc, os) == Some(
            ImageRefView { registry: m.registry, org: m.org, image: m.image, tag: m.tag },
        ),
        mock is None && env == Some(ref_text(r)) ==> detected(mock, env, bootc, os) == Some(r),
        mock is None && (env matches Some(e) ==> !e.contains(':')) && bootc == Some(ref_text(r))
            ==> detected(mock, env, bootc, os) == Some(r),
        mock is None && (env matches Some(e) ==> !e.contains(':')) && (bootc matches Some(b)
            ==> !b.contains(':')) ==> detected(mock, env, bootc, os) == os,
{
    law_ref_text_parses(r);
    if let Some(e) = env {
        text::lemma_last_index_of_bounds(e, ':');
    }
    if let Some(b) = bootc {
        text::lemma_last_index_of_bounds(b, ':');
    }
}

/// Of the builds told, as many as asked for are kept, where there are so many. They are
/// among those told, stand with the newest first, and none that is left out is newer
/// than one that is kept.
pub proof fn law_newest_builds_are_kept(versions: Seq<VersionView>, max: int)
    requires
        max >= 0,
    ensures
        newest(versions, max).len() == if max < versions.len() {
            max
        } else {
            versions.len() as int
        },
        forall|i: int|
            0 <= i < newest(versions, max).len() ==> versions.contains(
                #[trigger] newest(versions, max)[i],
            ),
        forall|i: int, j: int|
            0 <= i < j < newest(versions, max).len() ==> !crate::calendar::earlier(
                (#[trigger] newest(versions, max)[i]).date,
                (#[trigger] newest(versions, max)[j]).date,
            ),
        forall|j: int|
            0 <= j < versions.len() ==> newest(versions, max).contains(#[trigger] versions[j])
                || forall|i: int|
                0 <= i < newest(versions, max).len() ==> !crate::calendar::earlier(
                    (#[trigger] newest(versions, max)[i]).date,
                    versions[j].date,
                ),
{
    let all = by_date(versions, true);
    let kept = newest(versions, max);
    crate::registry_client::law_by_date_is_stable(versions, true);
    all.to_multiset_ensures();
    versions.to_multiset_ensures();
    assert forall|i: int| 0 <= i < kept.len() implies versions.contains(#[trigger] kept[i]) by {
        assert(all[i] == kept[i]);
        assert(all.to_multiset().contains(all[i]));
    }
    assert forall|i: int, j: int| 0 <= i < j < kept.len() implies !crate::calendar::earlier(
        (#[trigger] kept[i]).date,
        (#[trigger] kept[j]).date,
    ) by {
        assert(!crate::registry_client::in_front(all[j].date, all[i].date, true));
    }
    assert forall|j: int| 0 <= j < versions.len() implies kept.contains(#[trigger] versions[j])
        || forall|i: int|
        0 <= i < kept.len() ==> !crate::calendar::earlier(
            (#[trigger] kept[i]).date,
            versions[j].date,
        ) by {
        assert(versions.to_multiset().contains(versions[j]));
        let w = choose|w: int| 0 <= w < all.len() && all[w] == versions[j];
        if w < kept.len() {
            assert(kept[w] == versions[j]);
        } else {
            assert forall|i: int| 0 <= i < kept.len() implies !crate::calendar::earlier(
                (#[trigger] kept[i]).date,
                versions[j].date,
            ) by {
                assert(!crate::registry_client::in_front(all[w].date, all[i].date, true));
            }
        }
    }
}

/// What is told of an error ends in its own message, behind what kind it is.
pub proof fn law_error_keeps_its_message(m: Seq<char>)
    ensures
        error_text(ErrorView::Registry(m)) == "registry: "@ + m,
        text::ends(error_text(ErrorView::Registry(m)), m),
        text::ends(error_text(ErrorView::Io(m)), m),
        text::ends(error_text(ErrorView::Unsupported(m)), m),
        text::ends(error_text(ErrorView::NotFound(m)), m),
{
    let a = error_text(ErrorView::Registry(m));
    let b = error_text(ErrorView::Io(m));
    let c = error_text(ErrorView::Unsupported(m));
    let d = error_text(ErrorView::NotFound(m));
    assert(a.subrange(a.len() - m.len(), a.len() as int) =~= m);
    assert(b.subrange(b.len() - m.len(), b.len() as int) =~= m);
    assert(c.subrange(c.len() - m.len(), c.len() as int) =~= m);
    assert(d.subrange(d.len() - m.len(), d.len() as int) =~= m);
}

} // verus!
