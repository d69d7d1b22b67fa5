//! What a registry says of an image: its dated builds, its tags, and the
//! families of images that belong together.
use crate::calendar::{earlier, is_date, CalendarDate, DateView, Moment, MomentView};
use crate::service::{ref_text, ImageRef, ImageRefView};
use crate::text;
use crate::ui::image_info::{stream_of, stream_or_tag, stream_tag, strip_date_suffix};
use vstd::prelude::*;

verus! {

/// One published build of an image.
#[derive(Debug)]
pub struct ImageVersion {
    pub date: CalendarDate,
    pub full_ref: String,
    pub version: String,
    pub kernel: String,
    pub revision: String,
    pub created: Moment,
}

/// What a build is.
#[verifier::ext_equal]
pub struct VersionView {
    pub date: DateView,
    pub full_ref: Seq<char>,
    pub version: Seq<char>,
    pub kernel: Seq<char>,
    pub revision: Seq<char>,
    pub created: MomentView,
}

impl DeepView for ImageVersion {
    type V = VersionView;

    open spec fn deep_view(&self) -> VersionView {
        VersionView {
            date: self.date.deep_view(),
            full_ref: self.full_ref@,
            version: self.version@,
            kernel: self.kernel@,
            revision: self.revision@,
            created: self.created.deep_view(),
        }
    }
}

impl Clone for ImageVersion {
    fn clone(&self) -> (r: Self)
        ensures
            r.deep_view() == self.deep_view(),
    {
        ImageVersion {
            date: self.date.copy(),
            full_ref: self.full_ref.clone(),
            version: self.version.clone(),
            kernel: self.kernel.clone(),
            revision: self.revision.clone(),
            created: self.created.copy(),
        }
    }
}

/// A tag that a registry publishes: how it is shown, and its real name.
#[derive(Debug)]
pub struct AvailableTag {
    pub display: String,
    pub raw: String,
}

/// What a tag is.
#[verifier::ext_equal]
pub struct TagView {
    pub display: Seq<char>,
    pub raw: Seq<char>,
}

impl DeepView for AvailableTag {
    type V = TagView;

    open spec fn deep_view(&self) -> TagView {
        TagView { display: self.display@, raw: self.raw@ }
    }
}

impl Clone for AvailableTag {
    fn clone(&self) -> (r: Self)
        ensures
            r.deep_view() == self.deep_view(),
    {
        AvailableTag { display: self.display.clone(), raw: self.raw.clone() }
    }
}

// ── Order by date ────────────────────────────────────────────────────────────

/// Whether a build of date `a` belongs in front of one of date `b`.
pub open spec fn in_front(a: DateView, b: DateView, newest_first: bool) -> bool {
    if newest_first {
        earlier(b, a)
    } else {
        earlier(a, b)
    }
}

/// `s` with `v` behind every build that it does not belong in front of.
pub open spec fn placed(s: Seq<VersionView>, v: VersionView, newest_first: bool) -> Seq<VersionView>
    decreases s.len(),
{
    if s.len() > 0 && in_front(v.date, s.last().date, newest_first) {
        placed(s.drop_last(), v, newest_first).push(s.last())
    } else {
        s.push(v)
    }
}

/// The builds of `s` by date; those of one date stay in their order.
pub open spec fn by_date(s: Seq<VersionView>, newest_first: bool) -> Seq<VersionView>
    decreases s.len(),
{
    if s.len() == 0 {
        s
    } else {
        placed(by_date(s.drop_last(), newest_first), s.last(), newest_first)
    }
}

/// Whether no build stands behind one that it belongs in front of.
pub open spec fn is_by_date(s: Seq<VersionView>, newest_first: bool) -> bool {
    forall|i: int, j: int|
        0 <= i < j < s.len() ==> !in_front(
            (#[trigger] s[j]).date,
            (#[trigger] s[i]).date,
            newest_first,
        )
}

/// The builds of `s` that have one date, in their order.
pub open spec fn of_date(s: Seq<VersionView>, date: DateView) -> Seq<VersionView> {
    s.filter(|v: VersionView| v.date == date)
}

proof fn lemma_placed_insert(s: Seq<VersionView>, v: VersionView, newest_first: bool, i: int)
    requires
        0 <= i <= s.len(),
        forall|j: int| i <= j < s.len() ==> in_front(v.date, (#[trigger] s[j]).date, newest_first),
        i > 0 ==> !in_front(v.date, s[i - 1].date, newest_first),
    ensures
        placed(s, v, newest_first) == s.insert(i, v),
    decreases s.len(),
{
    if i < s.len() {
        assert(in_front(v.date, s[s.len() - 1].date, newest_first));
        lemma_placed_insert(s.drop_last(), v, newest_first, i);
        assert(s.drop_last().insert(i, v).push(s.last()) =~= s.insert(i, v));
    } else {
        assert(s.insert(i, v) =~= s.push(v));
    }
}

proof fn lemma_placed(s: Seq<VersionView>, v: VersionView, newest_first: bool)
    requires
        is_by_date(s, newest_first),
    ensures
        is_by_date(placed(s, v, newest_first), newest_first),
        placed(s, v, newest_first).to_multiset() == s.to_multiset().insert(v),
        placed(s, v, newest_first).len() == s.len() + 1,
        forall|d: DateView| #[trigger]
            of_date(placed(s, v, newest_first), d) == of_date(s.push(v), d),
        forall|k: int|
            0 <= k < placed(s, v, newest_first).len() ==> (#[trigger] placed(
                s,
                v,
                newest_first,
            )[k] == v || s.contains(placed(s, v, newest_first)[k])),
    decreases s.len(),
{
    broadcast use vstd::seq_lib::group_to_multiset_ensures;

    let p = placed(s, v, newest_first);
    if s.len() > 0 && in_front(v.date, s.last().date, newest_first) {
        let front = s.drop_last();
        assert(is_by_date(front, newest_first)) by {
            assert forall|i: int, j: int| 0 <= i < j < front.len() implies !in_front(
                (#[trigger] front[j]).date,
                (#[trigger] front[i]).date,
                newest_first,
            ) by {
                assert(!in_front(s[j].date, s[i].date, newest_first));
            }
        }
        lemma_placed(front, v, newest_first);
        let q = placed(front, v, newest_first);
        assert(s =~= front.push(s.last()));
        assert forall|i: int, j: int| 0 <= i < j < p.len() implies !in_front(
            (#[trigger] p[j]).date,
            (#[trigger] p[i]).date,
            newest_first,
        ) by {
            if j == p.len() - 1 {
                assert(p[i] == q[i]);
                if q[i] != v {
                    assert(front.contains(q[i]));
                    let w = choose|w: int| 0 <= w < front.len() && front[w] == q[i];
                    assert(!in_front(s[s.len() - 1].date, s[w].date, newest_first));
                }
            } else {
                assert(p[i] == q[i] && p[j] == q[j]);
            }
        }
        assert forall|d: DateView| #[trigger] of_date(p, d) == of_date(s.push(v), d) by {
            let keep = |x: VersionView| x.date == d;
            lemma_filter_push(q, s.last(), keep);
            lemma_filter_push(front, v, keep);
            lemma_filter_push(front, s.last(), keep);
            lemma_filter_push(s, v, keep);
            assert(of_date(q, d) == of_date(front.push(v), d));
        }
        assert forall|k: int| 0 <= k < p.len() implies (#[trigger] p[k] == v || s.contains(p[k])) by {
            if k < p.len() - 1 {
                assert(p[k] == q[k]);
                if q[k] != v {
                    let w = choose|w: int| 0 <= w < front.len() && front[w] == q[k];
                    assert(s[w] == p[k]);
                }
            } else {
                assert(s[s.len() - 1] == p[k]);
            }
        }
        assert(p.to_multiset() =~= s.to_multiset().insert(v));
    } else {
        assert forall|i: int, j: int| 0 <= i < j < p.len() implies !in_front(
            (#[trigger] p[j]).date,
            (#[trigger] p[i]).date,
            newest_first,
        ) by {
            if j == p.len() - 1 {
                assert(!in_front(v.date, s.last().date, newest_first));
                if i < s.len() - 1 {
                    assert(!in_front(s[s.len() - 1].date, s[i].date, newest_first));
                }
            } else {
                assert(!in_front(s[j].date, s[i].date, newest_first));
            }
        }
        assert forall|k: int| 0 <= k < p.len() implies (#[trigger] p[k] == v || s.contains(p[k])) by {
            if k < s.len() {
                assert(s[k] == p[k]);
            }
        }
    }
}

/// What a filter does to one more item.
pub proof fn lemma_filter_push<A>(s: Seq<A>, x: A, keep: spec_fn(A) -> bool)
    ensures
        s.push(x).filter(keep) == if keep(x) {
            s.filter(keep).push(x)
        } else {
            s.filter(keep)
        },
{
    reveal(Seq::filter);
    assert(s.push(x).drop_last() =~= s);
}

/// Ordering by date keeps every build, orders the dates, and keeps builds of
/// one date in their order.
pub proof fn law_by_date_is_stable(s: Seq<VersionView>, newest_first: bool)
    ensures
        is_by_date(by_date(s, newest_first), newest_first),
        by_date(s, newest_first).to_multiset() == s.to_multiset(),
        by_date(s, newest_first).len() == s.len(),
        forall|d: DateView| #[trigger] of_date(by_date(s, newest_first), d) == of_date(s, d),
    decreases s.len(),
{
    broadcast use vstd::seq_lib::group_to_multiset_ensures;

    if s.len() > 0 {
        let front = s.drop_last();
        law_by_date_is_stable(front, newest_first);
        lemma_placed(by_date(front, newest_first), s.last(), newest_first);
        assert(s =~= front.push(s.last()));
        assert forall|d: DateView| #[trigger]
            of_date(by_date(s, newest_first), d) == of_date(s, d) by {
            let keep = |x: VersionView| x.date == d;
            lemma_filter_push(by_date(front, newest_first), s.last(), keep);
            lemma_filter_push(front, s.last(), keep);
            assert(of_date(by_date(front, newest_first), d) == of_date(front, d));
        }
    }
}

/// Whether build `a` belongs in front of build `b`.
fn belongs_in_front(a: &ImageVersion, b: &ImageVersion, newest_first: bool) -> (r: bool)
    ensures
        r == in_front(a.deep_view().date, b.deep_view().date, newest_first),
{
    if newest_first {
        b.date.earlier_than(&a.date)
    } else {
        a.date.earlier_than(&b.date)
    }
}

/// The builds by date; those of one date stay in their order.
pub fn sort_by_date(versions: Vec<ImageVersion>, newest_first: bool) -> (r: Vec<ImageVersion>)
    ensures
        r.deep_view() == by_date(versions.deep_view(), newest_first),
{
    let mut out: Vec<ImageVersion> = Vec::new();
    let n: usize = versions.len();
    let mut i: usize = 0;
    let ghost all = versions.deep_view();
    assert(out.deep_view() =~= all.take(0));
    while i < n
        invariant
            0 <= i <= n,
            n == versions@.len(),
            all == versions.deep_view(),
            out@.len() == i,
            out.deep_view() == by_date(all.take(i as int), newest_first),
        decreases n - i,
    {
        let v: ImageVersion = versions[i].clone();
        let mut at: usize = out.len();
        while at > 0 && belongs_in_front(&v, &out[at - 1], newest_first)
            invariant
                0 <= at <= out@.len(),
                forall|j: int|
                    at <= j < out@.len() ==> in_front(
                        v.deep_view().date,
                        (#[trigger] out.deep_view()[j]).date,
                        newest_first,
                    ),
            decreases at,
        {
            at -= 1;
        }
        proof {
            let before = out.deep_view();
            lemma_placed_insert(before, v.deep_view(), newest_first, at as int);
            assert(all.take(i + 1).drop_last() =~= all.take(i as int));
            assert(all.take(i + 1).last() == v.deep_view());
        }
        let ghost before = out.deep_view();
        out.insert(at, v);
        assert(out.deep_view() =~= before.insert(at as int, v.deep_view()));
        i += 1;
    }
    assert(all.take(i as int) =~= all);
    out
}

// ── Families ─────────────────────────────────────────────────────────────────

/// An image of a family, with the features that it has on top of the base.
#[derive(Debug)]
pub struct Variant {
    pub features: Vec<String>,
    pub image: String,
}

/// What a variant is.
#[verifier::ext_equal]
pub struct VariantView {
    pub features: Seq<Seq<char>>,
    pub image: Seq<char>,
}

impl DeepView for Variant {
    type V = VariantView;

    open spec fn deep_view(&self) -> VariantView {
        VariantView { features: self.features.deep_view(), image: self.image@ }
    }
}

/// Images that differ by features only, and the streams that they come in.
#[derive(Debug)]
pub struct Family {
    pub name: String,
    pub org: String,
    pub base_image: String,
    /// The features that can be switched, in the order in which they are shown.
    pub features: Vec<String>,
    /// The published images.
    pub variants: Vec<Variant>,
    /// The streams; the first is the default.
    pub streams: Vec<String>,
}

/// What a family is.
#[verifier::ext_equal]
pub struct FamilyView {
    pub name: Seq<char>,
    pub org: Seq<char>,
    pub base_image: Seq<char>,
    pub features: Seq<Seq<char>>,
    pub variants: Seq<VariantView>,
    pub streams: Seq<Seq<char>>,
}

impl DeepView for Family {
    type V = FamilyView;

    open spec fn deep_view(&self) -> FamilyView {
        FamilyView {
            name: self.name@,
            org: self.org@,
            base_image: self.base_image@,
            features: self.features.deep_view(),
            variants: self.variants.deep_view(),
            streams: self.streams.deep_view(),
        }
    }
}

/// Whether two lists of features name the same features.
pub open spec fn same_features(a: Seq<Seq<char>>, b: Seq<Seq<char>>) -> bool {
    &&& forall|i: int| 0 <= i < a.len() ==> b.contains(#[trigger] a[i])
    &&& forall|i: int| 0 <= i < b.len() ==> a.contains(#[trigger] b[i])
}

/// The image of the first variant that has exactly the wanted features.
pub open spec fn image_for(variants: Seq<VariantView>, want: Seq<Seq<char>>) -> Option<Seq<char>>
    decreases variants.len(),
{
    if variants.len() == 0 {
        None
    } else if same_features(variants[0].features, want) {
        Some(variants[0].image)
    } else {
        image_for(variants.drop_first(), want)
    }
}

/// Whether a text is in a list.
pub fn listed(all: &Vec<String>, s: &str) -> (r: bool)
    ensures
        r == all.deep_view().contains(s@),
{
    let mut i: usize = 0;
    while i < all.len()
        invariant
            0 <= i <= all@.len(),
            forall|j: int| 0 <= j < i ==> all.deep_view()[j] != s@,
        decreases all@.len() - i,
    {
        if text::same(all[i].as_str(), s) {
            assert(all.deep_view()[i as int] == s@);
            return true;
        }
        i += 1;
    }
    false
}

/// Whether every text of `a` is in `b`.
fn all_listed(a: &Vec<String>, b: &Vec<String>) -> (r: bool)
    ensures
        r == (forall|i: int|
            0 <= i < a.deep_view().len() ==> b.deep_view().contains(#[trigger] a.deep_view()[i])),
{
    let mut i: usize = 0;
    while i < a.len()
        invariant
            0 <= i <= a@.len(),
            forall|j: int| 0 <= j < i ==> b.deep_view().contains(#[trigger] a.deep_view()[j]),
        decreases a@.len() - i,
    {
        if !listed(b, a[i].as_str()) {
            assert(!b.deep_view().contains(a.deep_view()[i as int]));
            return false;
        }
        i += 1;
    }
    true
}

impl Family {
    /// The image that has exactly the wanted features, if one is published.
    pub fn select_image_for_features(&self, want: &Vec<String>) -> (r: Option<String>)
        ensures
            r.deep_view() == image_for(self.deep_view().variants, want.deep_view()),
    {
        let ghost all = self.variants.deep_view();
        assert(all.skip(0) =~= all);
        let mut i: usize = 0;
        while i < self.variants.len()
            invariant
                0 <= i <= self.variants@.len(),
                all == self.variants.deep_view(),
                image_for(all, want.deep_view()) == image_for(all.skip(i as int), want.deep_view()),
            decreases self.variants@.len() - i,
        {
            let v: &Variant = &self.variants[i];
            assert(all.skip(i as int)[0] == v.deep_view());
            assert(all.skip(i as int).drop_first() =~= all.skip(i + 1));
            if all_listed(&v.features, want) && all_listed(want, &v.features) {
                return Some(v.image.clone());
            }
            i += 1;
        }
        None
    }
}

// ── Tags of a stream ─────────────────────────────────────────────────────────

/// The day that a dated tag names, if there is such a day.
pub open spec fn day_of_tag(tag: Seq<char>) -> Option<DateView> {
    if stream_of(tag) is Some && tag.len() >= 8 {
        let d = tag.skip(tag.len() - 8);
        match (
            text::i32_value(d.take(4)),
            text::unsigned_value(d.subrange(4, 6), u32::MAX as int),
            text::unsigned_value(d.skip(6), u32::MAX as int),
        ) {
            (Some(year), Some(month), Some(day)) => {
                let date = DateView { year, month, day };
                if is_date(date) {
                    Some(date)
                } else {
                    None
                }
            },
            _ => None,
        }
    } else {
        None
    }
}

/// The day that a dated tag names.
pub fn tag_day(tag: &str) -> (r: Option<CalendarDate>)
    ensures
        r.deep_view() == day_of_tag(tag@),
{
    if strip_date_suffix(tag).is_none() {
        return None;
    }
    let v: Vec<char> = text::chars_of(tag);
    let n: usize = v.len();
    if n < 8 {
        return None;
    }
    let ghost d = tag@.skip(n - 8);
    assert(v@.subrange(n - 8, n - 4) =~= d.take(4));
    assert(v@.subrange(n - 4, n - 2) =~= d.subrange(4, 6));
    assert(v@.subrange(n - 2, n as int) =~= d.skip(6));
    let year: String = text::string_of(&v, n - 8, n - 4);
    let month: String = text::string_of(&v, n - 4, n - 2);
    let day: String = text::string_of(&v, n - 2, n);
    match (
        text::parse_i32(year.as_str()),
        text::parse_u32(month.as_str()),
        text::parse_u32(day.as_str()),
    ) {
        (Some(y), Some(m), Some(d)) => CalendarDate::from_ymd_opt(y, m, d),
        _ => None,
    }
}

/// The build of an image's stream that a tag names, as far as the tag tells.
pub open spec fn build_of_tag(image: ImageRefView, tag: Seq<char>) -> Option<VersionView> {
    match day_of_tag(tag) {
        Some(date) => if stream_of(tag) == Some(stream_or_tag(image.tag)) {
            Some(
                VersionView {
                    date,
                    full_ref: ref_text(ImageRefView { tag, ..image }),
                    version: tag,
                    kernel: ""@,
                    revision: ""@,
                    created: MomentView { date, hour: 0, minute: 0 },
                },
            )
        } else {
            None
        },
        None => None,
    }
}

/// The builds of an image's stream that tags name, in the order of the tags.
pub open spec fn builds_of_tags(image: ImageRefView, tags: Seq<Seq<char>>) -> Seq<VersionView>
    decreases tags.len(),
{
    if tags.len() == 0 {
        Seq::empty()
    } else {
        let rest = builds_of_tags(image, tags.drop_last());
        match build_of_tag(image, tags.last()) {
            Some(v) => rest.push(v),
            None => rest,
        }
    }
}

fn named_build(image: &ImageRef, tag: &str) -> (r: Option<ImageVersion>)
    ensures
        r.deep_view() == build_of_tag(image.deep_view(), tag@),
{
    let date: CalendarDate = match tag_day(tag) {
        Some(d) => d,
        None => return None,
    };
    let own: String = stream_tag(image.tag.as_str());
    let same: bool = match strip_date_suffix(tag) {
        Some(stream) => text::same(stream.as_str(), own.as_str()),
        None => false,
    };
    if !same {
        return None;
    }
    let at: ImageRef = ImageRef {
        registry: image.registry.clone(),
        org: image.org.clone(),
        image: image.image.clone(),
        tag: tag.to_string(),
    };
    match Moment::at(&date, 0, 0) {
        Some(created) => Some(
            ImageVersion {
                date,
                full_ref: at.as_string(),
                version: tag.to_string(),
                kernel: "".to_string(),
                revision: "".to_string(),
                created,
            },
        ),
        None => None,
    }
}

/// The builds of an image's stream that tags name, newest first, as far as the
/// tags tell.
pub fn dated_builds(image: &ImageRef, tags: &Vec<String>) -> (r: Vec<ImageVersion>)
    ensures
        r.deep_view() == by_date(builds_of_tags(image.deep_view(), tags.deep_view()), true),
{
    let ghost all = tags.deep_view();
    let mut out: Vec<ImageVersion> = Vec::new();
    let mut i: usize = 0;
    assert(all.take(0) =~= Seq::<Seq<char>>::empty());
    assert(out.deep_view() =~= Seq::<VersionView>::empty());
    while i < tags.len()
        invariant
            0 <= i <= tags@.len(),
            all == tags.deep_view(),
            out.deep_view() == builds_of_tags(image.deep_view(), all.take(i as int)),
        decreases tags@.len() - i,
    {
        assert(all.take(i + 1).drop_last() =~= all.take(i as int));
        assert(all.take(i + 1).last() == tags@[i as int]@);
        if let Some(v) = named_build(image, tags[i].as_str()) {
            let ghost before = out.deep_view();
            let ghost vv = v.deep_view();
            out.push(v);
            assert(out.deep_view() =~= before.push(vv));
        }
        i += 1;
    }
    assert(all.take(i as int) =~= all);
    sort_by_date(out, true)
}

/// The tags without a date, in their order; those under which a registry lists
/// what refers to a digest are left out.
pub open spec fn undated_tags(tags: Seq<Seq<char>>) -> Seq<TagView>
    decreases tags.len(),
{
    if tags.len() == 0 {
        Seq::empty()
    } else {
        let rest = undated_tags(tags.drop_last());
        let t = tags.last();
        if stream_of(t) is None && !text::begins(t, "sha256-"@) {
            rest.push(TagView { display: t, raw: t })
        } else {
            rest
        }
    }
}

/// The tags to choose from: those of streams first, then the dated ones of the
/// image's stream, newest first.
pub open spec fn tags_to_choose(image: ImageRefView, tags: Seq<Seq<char>>) -> Seq<TagView> {
    undated_tags(tags) + by_date(builds_of_tags(image, tags), true).map_values(
        |v: VersionView| TagView { display: v.version, raw: v.version },
    )
}

fn named_tag(t: &str) -> (r: AvailableTag)
    ensures
        r.deep_view() == (TagView { display: t@, raw: t@ }),
{
    AvailableTag { display: t.to_string(), raw: t.to_string() }
}

fn stream_tags(tags: &Vec<String>) -> (r: Vec<AvailableTag>)
    ensures
        r.deep_view() == undated_tags(tags.deep_view()),
{
    let ghost all = tags.deep_view();
    let mut out: Vec<AvailableTag> = Vec::new();
    let mut i: usize = 0;
    assert(all.take(0) =~= Seq::<Seq<char>>::empty());
    assert(out.deep_view() =~= Seq::<TagView>::empty());
    while i < tags.len()
        invariant
            0 <= i <= tags@.len(),
            all == tags.deep_view(),
            out.deep_view() == undated_tags(all.take(i as int)),
        decreases tags@.len() - i,
    {
        assert(all.take(i + 1).drop_last() =~= all.take(i as int));
        assert(all.take(i + 1).last() == tags@[i as int]@);
        let t: &str = tags[i].as_str();
        if strip_date_suffix(t).is_none() && text::strip_prefix(t, "sha256-").is_none() {
            let ghost before = out.deep_view();
            let tag: AvailableTag = named_tag(t);
            let ghost tv = tag.deep_view();
            out.push(tag);
            assert(out.deep_view() =~= before.push(tv));
        }
        i += 1;
    }
    assert(all.take(i as int) =~= all);
    out
}

/// The tags to choose from: those of streams first, then the dated ones of the
/// image's stream, newest first.
pub fn order_tags(image: &ImageRef, tags: &Vec<String>) -> (r: Vec<AvailableTag>)
    ensures
        r.deep_view() == tags_to_choose(image.deep_view(), tags.deep_view()),
{
    let mut out: Vec<AvailableTag> = stream_tags(tags);
    let builds: Vec<ImageVersion> = dated_builds(image, tags);
    let ghost first = out.deep_view();
    let ghost want = builds.deep_view().map_values(
        |v: VersionView| TagView { display: v.version, raw: v.version },
    );
    let mut i: usize = 0;
    assert(first + want.take(0) =~= first);
    while i < builds.len()
        invariant
            0 <= i <= builds@.len(),
            want == builds.deep_view().map_values(
                |v: VersionView| TagView { display: v.version, raw: v.version },
            ),
            out.deep_view() == first + want.take(i as int),
        decreases builds@.len() - i,
    {
        let ghost before = out.deep_view();
        let tag: AvailableTag = named_tag(builds[i].version.as_str());
        let ghost tv = tag.deep_view();
        assert(builds.deep_view()[i as int] == builds@[i as int].deep_view());
        assert(tv == want[i as int]);
        out.push(tag);
        assert(out.deep_view() =~= before.push(tv));
        i += 1;
        assert(out.deep_view() =~= first + want.take(i as int));
    }
    assert(want.take(i as int) =~= want);
    out
}

/// Tags of streams stand in front of dated tags, and of two dated tags that are
/// shown the later one does not stand for a newer build.
pub proof fn law_stream_tags_come_first(image: ImageRefView, tags: Seq<Seq<char>>, i: int, j: int)
    requires
        0 <= i < j < tags_to_choose(image, tags).len(),
    ensures
        ({
            let shown = tags_to_choose(image, tags);
            &&& stream_of(shown[j].raw) is None ==> stream_of(shown[i].raw) is None
            &&& day_of_tag(shown[i].raw) is Some && day_of_tag(shown[j].raw) is Some ==> !earlier(
                day_of_tag(shown[i].raw)->0,
                day_of_tag(shown[j].raw)->0,
            )
        }),
{
    let shown = tags_to_choose(image, tags);
    let first = undated_tags(tags);
    let builds = builds_of_tags(image, tags);
    let sorted = by_date(builds, true);
    law_by_date_is_stable(builds, true);
    lemma_undated(tags);
    lemma_named(image, tags);
    let n = first.len() as int;
    if j >= n {
        lemma_sorted_are_named(image, builds, j - n);
        assert(shown[j].raw == sorted[j - n].version);
    } else {
        assert(shown[j] == first[j]);
        assert(shown[i] == first[i]);
    }
    if i >= n {
        lemma_sorted_are_named(image, builds, i - n);
        assert(shown[i].raw == sorted[i - n].version);
        assert(!in_front(sorted[j - n].date, sorted[i - n].date, true));
    } else {
        assert(shown[i] == first[i]);
    }
}

/// Whether a build is one that its tag names.
pub open spec fn is_named(image: ImageRefView, v: VersionView) -> bool {
    build_of_tag(image, v.version) == Some(v)
}

proof fn lemma_undated(tags: Seq<Seq<char>>)
    ensures
        forall|i: int|
            0 <= i < undated_tags(tags).len() ==> stream_of(
                (#[trigger] undated_tags(tags)[i]).raw,
            ) is None,
    decreases tags.len(),
{
    if tags.len() > 0 {
        lemma_undated(tags.drop_last());
    }
}

proof fn lemma_named(image: ImageRefView, tags: Seq<Seq<char>>)
    ensures
        forall|i: int|
            0 <= i < builds_of_tags(image, tags).len() ==> is_named(
                image,
                #[trigger] builds_of_tags(image, tags)[i],
            ),
    decreases tags.len(),
{
    if tags.len() > 0 {
        lemma_named(image, tags.drop_last());
        let all = builds_of_tags(image, tags);
        let rest = builds_of_tags(image, tags.drop_last());
        assert forall|i: int| 0 <= i < all.len() implies is_named(image, #[trigger] all[i]) by {
            if i < rest.len() {
                assert(all[i] == rest[i]);
            } else {
                assert(build_of_tag(image, tags.last()) == Some(all[i]));
                assert(all[i].version == tags.last());
            }
        }
    }
}

proof fn lemma_sorted_are_named(image: ImageRefView, builds: Seq<VersionView>, i: int)
    requires
        forall|k: int| 0 <= k < builds.len() ==> is_named(image, #[trigger] builds[k]),
        0 <= i < by_date(builds, true).len(),
    ensures
        is_named(image, by_date(builds, true)[i]),
{
    law_by_date_is_stable(builds, true);
    let sorted = by_date(builds, true);
    broadcast use vstd::seq_lib::group_to_multiset_ensures;

    assert(sorted.contains(sorted[i]));
    assert(sorted.to_multiset().contains(sorted[i]));
    assert(builds.contains(sorted[i]));
    let k = choose|k: int| 0 <= k < builds.len() && builds[k] == sorted[i];
    assert(is_named(image, builds[k]));
}

/// A list by date is in order: with the newest first no build stands in front of a
/// newer one, and otherwise none behind one.
pub proof fn law_order_is_by_day(s: Seq<VersionView>, i: int, j: int)
    requires
        0 <= i < j < s.len(),
    ensures
        ({
            let a = by_date(s, true)[i].date;
            let b = by_date(s, true)[j].date;
            a.year > b.year || (a.year == b.year && (a.month > b.month || (a.month == b.month && a.day
                >= b.day)))
        }),
        ({
            let a = by_date(s, false)[i].date;
            let b = by_date(s, false)[j].date;
            a.year < b.year || (a.year == b.year && (a.month < b.month || (a.month == b.month && a.day
                <= b.day)))
        }),
{
    law_by_date_is_stable(s, true);
    law_by_date_is_stable(s, false);
    assert(!in_front(by_date(s, true)[j].date, by_date(s, true)[i].date, true));
    assert(!in_front(by_date(s, false)[j].date, by_date(s, false)[i].date, false));
}

/// The day of a tag is what its last eight digits spell: four for the year, two for the
/// month and two for the day, where there is such a day.
pub proof fn law_tag_names_its_day(
    stream: Seq<char>,
    sep: char,
    year: Seq<char>,
    month: Seq<char>,
    day: Seq<char>,
)
    requires
        sep == '.' || sep == '-',
        year.len() == 4 && text::is_number(year),
        month.len() == 2 && text::is_number(month),
        day.len() == 2 && text::is_number(day),
    ensures
        ({
            let date = DateView {
                year: text::digits_value(year),
                month: text::digits_value(month),
                day: text::digits_value(day),
            };
            day_of_tag(stream.push(sep) + (year + month + day)) == if is_date(date) {
                Some(date)
            } else {
                None
            }
        }),
{
    let digits = year + month + day;
    let tag = stream.push(sep) + digits;
    assert forall|i: int| 0 <= i < 8 implies '0' <= #[trigger] digits[i] <= '9' by {
        if i < 4 {
            assert(text::is_digit(year[i]));
        } else if i < 6 {
            assert(text::is_digit(month[i - 4]));
        } else {
            assert(text::is_digit(day[i - 6]));
        }
    }
    crate::ui::image_info::law_date_behind_a_stream(stream, sep, digits);
    let d = tag.skip(tag.len() - 8);
    assert(d =~= digits);
    assert(d.take(4) =~= year);
    assert(d.subrange(4, 6) =~= month);
    assert(d.skip(6) =~= day);
    assert(text::is_digit(year[0]) && text::is_digit(month[0]) && text::is_digit(day[0]));
    lemma_few_digits(year);
    lemma_few_digits(month);
    lemma_few_digits(day);
}

proof fn lemma_few_digits(s: Seq<char>)
    requires
        text::is_number(s),
        s.len() <= 4,
    ensures
        0 <= text::digits_value(s) <= 9999,
{
    reveal_with_fuel(text::digits_value, 5);
    assert forall|i: int| 0 <= i < s.len() implies 0 <= text::digit_value(#[trigger] s[i]) <= 9 by {
        assert(text::is_digit(s[i]));
    }
    let a = s.drop_last();
    assert(s.last() == s[s.len() - 1]);
    if s.len() > 1 {
        assert(a.last() == s[s.len() - 2]);
        let b = a.drop_last();
        if s.len() > 2 {
            assert(b.last() == s[s.len() - 3]);
            let c = b.drop_last();
            if s.len() > 3 {
                assert(c.last() == s[0]);
            }
        }
    }
}

/// A build of an image is one of the tags told: it is of the same stream, its version is
/// that tag, its day is the tag's, and its reference is that of the image with the tag
/// in place of its own. Every tag of that stream that names a day is one.
pub proof fn law_builds_are_the_dated_tags(image: ImageRefView, tags: Seq<Seq<char>>, t: Seq<char>)
    ensures
        forall|i: int|
            0 <= i < by_date(builds_of_tags(image, tags), true).len() ==> {
                let v = #[trigger] by_date(builds_of_tags(image, tags), true)[i];
                &&& tags.contains(v.version)
                &&& day_of_tag(v.version) == Some(v.date)
                &&& stream_or_tag(v.version) == stream_or_tag(image.tag)
                &&& v.full_ref == image.registry.push('/') + image.org.push('/') + image.image.push(
                    ':',
                ) + v.version
            },
        tags.contains(t) && day_of_tag(t) is Some && stream_of(t) == Some(stream_or_tag(image.tag))
            ==> exists|i: int|
            0 <= i < by_date(builds_of_tags(image, tags), true).len() && (#[trigger] by_date(
                builds_of_tags(image, tags),
                true,
            )[i]).version == t,
{
    let builds = builds_of_tags(image, tags);
    let sorted = by_date(builds, true);
    lemma_builds(image, tags);
    law_by_date_is_stable(builds, true);
    builds.to_multiset_ensures();
    sorted.to_multiset_ensures();
    assert forall|i: int| 0 <= i < sorted.len() implies {
        let v = #[trigger] sorted[i];
        &&& tags.contains(v.version)
        &&& day_of_tag(v.version) == Some(v.date)
        &&& stream_or_tag(v.version) == stream_or_tag(image.tag)
        &&& v.full_ref == image.registry.push('/') + image.org.push('/') + image.image.push(':')
            + v.version
    } by {
        assert(sorted.to_multiset().contains(sorted[i]));
        let k = choose|k: int| 0 <= k < builds.len() && builds[k] == sorted[i];
        assert(is_named(image, builds[k]));
        assert(tags.contains(builds[k].version));
        crate::service::law_reference_spells_its_parts(
            ImageRefView { tag: sorted[i].version, ..image },
            Seq::empty(),
        );
    }
    if tags.contains(t) && day_of_tag(t) is Some && stream_of(t) == Some(stream_or_tag(image.tag)) {
        let w = choose|w: int| 0 <= w < tags.len() && tags[w] == t;
        lemma_tag_is_built(image, tags, w);
        let k = choose|k: int| 0 <= k < builds.len() && (#[trigger] builds[k]).version == t;
        assert(builds.to_multiset().contains(builds[k]));
        let i = choose|i: int| 0 <= i < sorted.len() && sorted[i] == builds[k];
        assert(sorted[i].version == t);
    }
}

proof fn lemma_builds(image: ImageRefView, tags: Seq<Seq<char>>)
    ensures
        forall|i: int|
            0 <= i < builds_of_tags(image, tags).len() ==> is_named(
                image,
                #[trigger] builds_of_tags(image, tags)[i],
            ) && tags.contains(builds_of_tags(image, tags)[i].version),
    decreases tags.len(),
{
    lemma_named(image, tags);
    if tags.len() > 0 {
        let front = tags.drop_last();
        let all = builds_of_tags(image, tags);
        let rest = builds_of_tags(image, front);
        lemma_builds(image, front);
        assert forall|i: int| 0 <= i < all.len() implies is_named(image, #[trigger] all[i])
            && tags.contains(all[i].version) by {
            if i < rest.len() {
                assert(all[i] == rest[i]);
                let k = choose|k: int| 0 <= k < front.len() && front[k] == rest[i].version;
                assert(tags[k] == all[i].version);
            } else {
                assert(tags[tags.len() - 1] == all[i].version);
            }
        }
    }
}

proof fn lemma_tag_is_built(image: ImageRefView, tags: Seq<Seq<char>>, w: int)
    requires
        0 <= w < tags.len(),
        day_of_tag(tags[w]) is Some,
        stream_of(tags[w]) == Some(stream_or_tag(image.tag)),
    ensures
        exists|k: int|
            0 <= k < builds_of_tags(image, tags).len() && (#[trigger] builds_of_tags(
                image,
                tags,
            )[k]).version == tags[w],
    decreases tags.len(),
{
    let front = tags.drop_last();
    let all = builds_of_tags(image, tags);
    let rest = builds_of_tags(image, front);
    if w < front.len() {
        assert(front[w] == tags[w]);
        lemma_tag_is_built(image, front, w);
        let k = choose|k: int| 0 <= k < rest.len() && (#[trigger] rest[k]).version == tags[w];
        assert(all[k] == rest[k]);
    } else {
        assert(all[rest.len() as int].version == tags[w]);
    }
}

/// The tags to choose from are tags told, each shown under its own name. A tag without
/// a date is among them unless it is a signature's; of dated tags those are that name a
/// build of the stream.
pub proof fn law_tags_to_choose_are_told(image: ImageRefView, tags: Seq<Seq<char>>, t: Seq<char>)
    ensures
        forall|i: int|
            0 <= i < tags_to_choose(image, tags).len() ==> {
                let shown = #[trigger] tags_to_choose(image, tags)[i];
                shown.display == shown.raw && tags.contains(shown.raw)
            },
        tags.contains(t) && stream_of(t) is None && !text::begins(t, "sha256-"@) ==> exists|i: int|
            0 <= i < tags_to_choose(image, tags).len() && (#[trigger] tags_to_choose(
                image,
                tags,
            )[i]).raw == t,
        tags.contains(t) && day_of_tag(t) is Some && stream_of(t) == Some(stream_or_tag(image.tag))
            ==> exists|i: int|
            0 <= i < tags_to_choose(image, tags).len() && (#[trigger] tags_to_choose(
                image,
                tags,
            )[i]).raw == t,
{
    let shown = tags_to_choose(image, tags);
    let first = undated_tags(tags);
    let sorted = by_date(builds_of_tags(image, tags), true);
    lemma_undated_are_told(tags);
    law_builds_are_the_dated_tags(image, tags, t);
    assert forall|i: int| 0 <= i < shown.len() implies {
        let s = #[trigger] shown[i];
        s.display == s.raw && tags.contains(s.raw)
    } by {
        if i < first.len() {
            assert(shown[i] == first[i]);
        } else {
            assert(shown[i].raw == sorted[i - first.len()].version);
        }
    }
    if tags.contains(t) && stream_of(t) is None && !text::begins(t, "sha256-"@) {
        let w = choose|w: int| 0 <= w < tags.len() && tags[w] == t;
        lemma_undated_is_shown(tags, w);
        let k = choose|k: int| 0 <= k < first.len() && (#[trigger] first[k]).raw == t;
        assert(shown[k].raw == t);
    }
    if tags.contains(t) && day_of_tag(t) is Some && stream_of(t) == Some(stream_or_tag(image.tag)) {
        let k = choose|k: int| 0 <= k < sorted.len() && (#[trigger] sorted[k]).version == t;
        assert(shown[first.len() + k].raw == t);
    }
}

proof fn lemma_undated_are_told(tags: Seq<Seq<char>>)
    ensures
        forall|i: int|
            0 <= i < undated_tags(tags).len() ==> (#[trigger] undated_tags(tags)[i]).display
                == undated_tags(tags)[i].raw && tags.contains(undated_tags(tags)[i].raw),
    decreases tags.len(),
{
    if tags.len() > 0 {
        let front = tags.drop_last();
        let all = undated_tags(tags);
        let rest = undated_tags(front);
        lemma_undated_are_told(front);
        assert forall|i: int| 0 <= i < all.len() implies (#[trigger] all[i]).display == all[i].raw
            && tags.contains(all[i].raw) by {
            if i < rest.len() {
                assert(all[i] == rest[i]);
                let k = choose|k: int| 0 <= k < front.len() && front[k] == rest[i].raw;
                assert(tags[k] == all[i].raw);
            } else {
                assert(tags[tags.len() - 1] == all[i].raw);
            }
        }
    }
}

proof fn lemma_undated_is_shown(tags: Seq<Seq<char>>, w: int)
    requires
        0 <= w < tags.len(),
        stream_of(tags[w]) is None,
        !text::begins(tags[w], "sha256-"@),
    ensures
        exists|k: int|
            0 <= k < undated_tags(tags).len() && (#[trigger] undated_tags(tags)[k]).raw == tags[w],
    decreases tags.len(),
{
    let front = tags.drop_last();
    let all = undated_tags(tags);
    let rest = undated_tags(front);
    if w < front.len() {
        assert(front[w] == tags[w]);
        lemma_undated_is_shown(front, w);
        let k = choose|k: int| 0 <= k < rest.len() && (#[trigger] rest[k]).raw == tags[w];
        assert(all[k] == rest[k]);
    } else {
        assert(all[rest.len() as int].raw == tags[w]);
    }
}

} // verus!
