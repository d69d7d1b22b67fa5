//! What the panel of the control centre is told: plain texts and numbers.
use crate::calendar::{earlier, CalendarDate, DateView};
use crate::registry_client::{ImageVersion, VersionView};
use crate::service::{ref_text, ImageRef, ImageRefView, ServiceError};
use crate::text;
use crate::ui::status_pages::{build_of, find_build};
use vstd::prelude::*;

verus! {

/// A text as it can be handed to C: without zero characters.
pub fn string_to_c(s: &str) -> (r: String)
    ensures
        r@ == text::without_char(s@, '\0'),
        !r@.contains('\0'),
{
    proof {
        lemma_without_char(s@, '\0');
    }
    text::remove_char(s, '\0')
}

proof fn lemma_without_char(s: Seq<char>, c: char)
    ensures
        !text::without_char(s, c).contains(c),
        !s.contains(c) ==> text::without_char(s, c) == s,
    decreases s.len(),
{
    if s.len() > 0 {
        let front = s.drop_last();
        lemma_without_char(front, c);
        assert(front.push(s.last()) =~= s);
        if s.contains(c) {
        } else {
            assert(!front.contains(c)) by {
                if front.contains(c) {
                    let i = choose|i: int| 0 <= i < front.len() && front[i] == c;
                    assert(s[i] == c);
                }
            }
            assert(s.last() != c) by {
                assert(s[s.len() - 1] == s.last());
            }
        }
    }
}

/// A text without zero characters is handed over as it is.
pub proof fn law_clean_text_is_kept(s: Seq<char>)
    requires
        !s.contains('\0'),
    ensures
        text::without_char(s, '\0') == s,
{
    lemma_without_char(s, '\0');
}

/// The title of the booted image.
pub open spec fn image_title(booted: Option<ImageRefView>) -> Seq<char> {
    match booted {
        Some(image) => image.org + "/"@ + image.image,
        None => "System Image"@,
    }
}

/// The title of the booted image, without zero characters.
pub fn finupdate_current_image_title(booted: Option<&ImageRef>) -> (r: String)
    ensures
        r@ == text::without_char(
            image_title(
                match booted {
                    Some(image) => Some(image.deep_view()),
                    None => None,
                },
            ),
            '\0',
        ),
{
    let title: String = match booted {
        Some(image) => text::cat3(image.org.as_str(), "/", image.image.as_str()),
        None => "System Image".to_string(),
    };
    string_to_c(title.as_str())
}

/// The reference of the booted image, without zero characters; none where it is
/// not known.
pub fn finupdate_current_image_ref(booted: Option<&ImageRef>) -> (r: Option<String>)
    ensures
        r.deep_view() == match booted {
            Some(image) => Some(text::without_char(ref_text(image.deep_view()), '\0')),
            None => None,
        },
{
    match booted {
        Some(image) => {
            let full: String = image.as_string();
            Some(string_to_c(full.as_str()))
        },
        None => None,
    }
}

/// Whether a build is newer than a day.
pub open spec fn has_newer(versions: Seq<VersionView>, day: DateView) -> bool {
    exists|i: int| 0 <= i < versions.len() && earlier(day, (#[trigger] versions[i]).date)
}

/// Whether builds hold an update of the one that a tag names: a newer one, or,
/// where the named one is not among them, any.
pub open spec fn has_update(versions: Seq<VersionView>, tag: Seq<char>) -> bool {
    match build_of(versions, tag) {
        Some(booted) => has_newer(versions, booted.date),
        None => versions.len() > 0,
    }
}

/// The answer on updates, for the tag of the booted image and the builds told.
pub open spec fn check_answer(tag: Option<Seq<char>>, versions: Option<Seq<VersionView>>) -> int {
    match (tag, versions) {
        (Some(t), Some(v)) => if has_update(v, t) {
            1
        } else {
            0
        },
        _ => -1,
    }
}

fn find_newer(v: &Vec<ImageVersion>, day: &CalendarDate) -> (r: bool)
    ensures
        r == has_newer(v.deep_view(), day.deep_view()),
{
    let mut i: usize = 0;
    while i < v.len()
        invariant
            0 <= i <= v@.len(),
            forall|k: int|
                0 <= k < i ==> !earlier(day.deep_view(), (#[trigger] v.deep_view()[k]).date),
        decreases v@.len() - i,
    {
        assert(v.deep_view()[i as int] == v@[i as int].deep_view());
        if day.earlier_than(&v[i].date) {
            assert(earlier(day.deep_view(), v.deep_view()[i as int].date));
            return true;
        }
        i += 1;
    }
    false
}

/// Whether there is an update: 1 where a build is newer than the booted one, 0
/// where none is, -1 where the image or its builds cannot be had. Where the booted
/// build is not among those told, each of them counts as newer. The builds are
/// those that the registry told, where it was asked.
pub fn finupdate_check_for_updates(
    booted: &Result<ImageRef, ServiceError>,
    versions: &Result<Vec<ImageVersion>, ServiceError>,
) -> (r: i32)
    ensures
        r == check_answer(
            match booted {
                Ok(image) => Some(image.tag@),
                Err(_) => None,
            },
            match versions {
                Ok(v) => Some(v.deep_view()),
                Err(_) => None,
            },
        ),
{
    let image: &ImageRef = match booted {
        Ok(image) => image,
        Err(_) => return -1,
    };
    let v: &Vec<ImageVersion> = match versions {
        Ok(v) => v,
        Err(_) => return -1,
    };
    assert(v.deep_view().len() == v@.len());
    let found: bool = match find_build(v, image.tag.as_str()) {
        Some(b) => find_newer(v, &b.date),
        None => v.len() > 0,
    };
    if found {
        1
    } else {
        0
    }
}

/// Where the booted build is among those told and none is newer, the system is
/// up to date.
pub proof fn law_newest_build_is_up_to_date(versions: Seq<VersionView>, tag: Seq<char>)
    requires
        build_of(versions, tag) matches Some(booted) && forall|i: int|
            0 <= i < versions.len() ==> !earlier(booted.date, (#[trigger] versions[i]).date),
    ensures
        !has_update(versions, tag),
{
}

proof fn lemma_build_of(versions: Seq<VersionView>, version: Seq<char>)
    ensures
        build_of(versions, version) is None <==> forall|i: int|
            0 <= i < versions.len() ==> (#[trigger] versions[i]).version != version,
        forall|k: int|
            0 <= k < versions.len() && (#[trigger] versions[k]).version == version && (forall|j: int|
                0 <= j < k ==> (#[trigger] versions[j]).version != version) ==> build_of(
                versions,
                version,
            ) == Some(versions[k]),
    decreases versions.len(),
{
    if versions.len() > 0 {
        let rest = versions.drop_first();
        lemma_build_of(rest, version);
        assert forall|i: int| 0 <= i < rest.len() implies #[trigger] rest[i] == versions[i + 1] by {}
        if versions[0].version != version {
            assert forall|k: int|
                0 <= k < versions.len() && (#[trigger] versions[k]).version == version && (forall|
                    j: int,
                |
                    0 <= j < k ==> (#[trigger] versions[j]).version != version) implies build_of(
                versions,
                version,
            ) == Some(versions[k]) by {
                assert(rest[k - 1] == versions[k]);
                assert forall|j: int| 0 <= j < k - 1 implies (#[trigger] rest[j]).version != version by {
                    assert(versions[j + 1].version != version);
                }
            }
            if forall|i: int| 0 <= i < rest.len() ==> (#[trigger] rest[i]).version != version {
                assert forall|i: int| 0 <= i < versions.len() implies (#[trigger] versions[i]).version
                    != version by {
                    if i > 0 {
                        assert(rest[i - 1].version != version);
                    }
                }
            } else {
                let i = choose|i: int| 0 <= i < rest.len() && (#[trigger] rest[i]).version == version;
                assert(versions[i + 1].version == version);
            }
        }
    }
}

/// Where no build has the version that the booted tag names, the answer is 1 as soon as
/// one is told, whatever the tag looks like, and 0 where none is.
pub proof fn law_unlisted_tag_has_an_update(tag: Seq<char>, versions: Seq<VersionView>)
    requires
        forall|i: int| 0 <= i < versions.len() ==> (#[trigger] versions[i]).version != tag,
    ensures
        check_answer(Some(tag), Some(versions)) == if versions.len() > 0 {
            1int
        } else {
            0
        },
{
    lemma_build_of(versions, tag);
}

/// Where the booted build is told, the answer is 1 exactly where a build of a later day
/// is told with it, and 0 otherwise.
pub proof fn law_newer_build_is_an_update(tag: Seq<char>, versions: Seq<VersionView>, k: int)
    requires
        0 <= k < versions.len(),
        versions[k].version == tag,
        forall|j: int| 0 <= j < k ==> (#[trigger] versions[j]).version != tag,
    ensures
        check_answer(Some(tag), Some(versions)) == 1 <==> exists|j: int|
            0 <= j < versions.len() && later_day((#[trigger] versions[j]).date, versions[k].date),
        check_answer(Some(tag), Some(versions)) == 0 || check_answer(Some(tag), Some(versions)) == 1,
{
    lemma_build_of(versions, tag);
    assert(forall|a: DateView, b: DateView| later_day(a, b) == #[trigger] earlier(b, a));
    if check_answer(Some(tag), Some(versions)) == 1 {
        let j = choose|j: int|
            0 <= j < versions.len() && earlier(versions[k].date, (#[trigger] versions[j]).date);
        assert(later_day(versions[j].date, versions[k].date));
    }
}

/// Whether a day is later than another: by year, then by month, then by day.
pub open spec fn later_day(a: DateView, b: DateView) -> bool {
    a.year > b.year || (a.year == b.year && a.month > b.month) || (a.year == b.year && a.month
        == b.month && a.day > b.day)
}

/// The answer is -1 exactly where the image or its builds could not be had.
pub proof fn law_failure_is_told_apart(tag: Option<Seq<char>>, versions: Option<Seq<VersionView>>)
    ensures
        check_answer(tag, versions) == -1 <==> tag is None || versions is None,
{
}

} // verus!
