//! What two package lists differ in, and where the lists of an image are found.
use crate::text;
use std::str::FromStr;
use vstd::prelude::*;

verus! {

/// Media type of the artifacts that hold package lists.
pub const SPDX_ARTIFACT_TYPE: &'static str = "application/vnd.spdx+json";

// ── Package maps ─────────────────────────────────────────────────────────────

/// The map that a row of entries stands for; a later entry wins.
pub open spec fn map_of(entries: Seq<(Seq<char>, Seq<char>)>) -> Map<Seq<char>, Seq<char>>
    decreases entries.len(),
{
    if entries.len() == 0 {
        Map::empty()
    } else {
        map_of(entries.drop_last()).insert(entries.last().0, entries.last().1)
    }
}

/// Whether the names of a row of entries increase.
pub open spec fn names_increase(entries: Seq<(Seq<char>, Seq<char>)>) -> bool {
    forall|i: int, j: int|
        0 <= i < j < entries.len() ==> text::before(
            (#[trigger] entries[i]).0,
            (#[trigger] entries[j]).0,
        )
}

/// Package versions by name.
#[derive(Debug)]
pub struct PackageMap {
    entries: Vec<(String, String)>,
}

impl PackageMap {
    /// The entries, in the order of their names.
    spec fn rows(&self) -> Seq<(Seq<char>, Seq<char>)> {
        self.entries.deep_view()
    }

    #[verifier::type_invariant]
    spec fn ordered(&self) -> bool {
        names_increase(self.rows())
    }
}

impl DeepView for PackageMap {
    type V = Map<Seq<char>, Seq<char>>;

    closed spec fn deep_view(&self) -> Map<Seq<char>, Seq<char>> {
        map_of(self.rows())
    }
}

proof fn lemma_map_of(entries: Seq<(Seq<char>, Seq<char>)>)
    requires
        names_increase(entries),
    ensures
        forall|i: int|
            0 <= i < entries.len() ==> map_of(entries).contains_key((#[trigger] entries[i]).0)
                && map_of(entries)[entries[i].0] == entries[i].1,
        forall|k: Seq<char>| #[trigger]
            map_of(entries).contains_key(k) ==> exists|i: int|
                0 <= i < entries.len() && (#[trigger] entries[i]).0 == k,
        map_of(entries).dom().finite(),
        map_of(entries).dom().len() == entries.len(),
    decreases entries.len(),
{
    if entries.len() > 0 {
        let front = entries.drop_last();
        assert(names_increase(front)) by {
            assert forall|i: int, j: int| 0 <= i < j < front.len() implies text::before(
                (#[trigger] front[i]).0,
                (#[trigger] front[j]).0,
            ) by {
                assert(text::before(entries[i].0, entries[j].0));
            }
        }
        lemma_map_of(front);
        assert forall|i: int| 0 <= i < entries.len() implies map_of(entries).contains_key(
            (#[trigger] entries[i]).0,
        ) && map_of(entries)[entries[i].0] == entries[i].1 by {
            if i < front.len() {
                assert(front[i] == entries[i]);
                assert(text::before(entries[i].0, entries[entries.len() - 1].0));
                text::lemma_before_irreflexive(entries[i].0);
            }
        }
        assert forall|k: Seq<char>| #[trigger] map_of(entries).contains_key(k) implies exists|i: int|
            0 <= i < entries.len() && (#[trigger] entries[i]).0 == k by {
            if map_of(front).contains_key(k) {
                let w = choose|w: int| 0 <= w < front.len() && (#[trigger] front[w]).0 == k;
                assert(entries[w].0 == k);
            } else {
                assert(entries[entries.len() - 1].0 == k);
            }
        }
        let last = entries.last().0;
        if map_of(front).contains_key(last) {
            let w = choose|w: int| 0 <= w < front.len() && (#[trigger] front[w]).0 == last;
            assert(text::before(entries[w].0, entries[entries.len() - 1].0));
            text::lemma_before_irreflexive(last);
        }
        assert(map_of(entries).dom() =~= map_of(front).dom().insert(last));
    }
}

impl PackageMap {
    /// No packages.
    pub fn new() -> (r: PackageMap)
        ensures
            r.deep_view() == Map::<Seq<char>, Seq<char>>::empty(),
    {
        let entries: Vec<(String, String)> = Vec::new();
        assert(entries.deep_view() =~= Seq::<(Seq<char>, Seq<char>)>::empty());
        PackageMap { entries }
    }

    /// Where a name stands, or where it would have to stand.
    fn find(entries: &Vec<(String, String)>, name: &str) -> (r: (bool, usize))
        requires
            names_increase(entries.deep_view()),
        ensures
            r.1 <= entries@.len(),
            r.0 ==> r.1 < entries@.len() && entries.deep_view()[r.1 as int].0 == name@,
            forall|i: int|
                0 <= i < r.1 ==> text::before((#[trigger] entries.deep_view()[i]).0, name@),
            !r.0 ==> forall|i: int|
                r.1 <= i < entries@.len() ==> text::before(
                    name@,
                    (#[trigger] entries.deep_view()[i]).0,
                ),
    {
        let ghost e = entries.deep_view();
        let mut lo: usize = 0;
        let mut hi: usize = entries.len();
        while lo < hi
            invariant
                0 <= lo <= hi <= entries@.len(),
                e == entries.deep_view(),
                names_increase(e),
                forall|i: int| 0 <= i < lo ==> text::before((#[trigger] e[i]).0, name@),
                forall|i: int| hi <= i < e.len() ==> text::before(name@, (#[trigger] e[i]).0),
            decreases hi - lo,
        {
            let mid: usize = lo + (hi - lo) / 2;
            let key: &str = entries[mid].0.as_str();
            assert(e[mid as int].0 == key@);
            if text::comes_before(key, name) {
                proof {
                    assert forall|i: int| 0 <= i < mid + 1 implies text::before(
                        (#[trigger] e[i]).0,
                        name@,
                    ) by {
                        if i < mid {
                            assert(text::before(e[i].0, e[mid as int].0));
                            text::lemma_before_transitive(e[i].0, e[mid as int].0, name@);
                        }
                    }
                }
                lo = mid + 1;
            } else if text::comes_before(name, key) {
                proof {
                    assert forall|i: int| mid <= i < e.len() implies text::before(
                        name@,
                        (#[trigger] e[i]).0,
                    ) by {
                        if i > mid {
                            assert(text::before(e[mid as int].0, e[i].0));
                            text::lemma_before_transitive(name@, e[mid as int].0, e[i].0);
                        }
                    }
                }
                hi = mid;
            } else {
                proof {
                    text::lemma_before_total(key@, name@);
                    assert forall|i: int| 0 <= i < mid implies text::before(
                        (#[trigger] e[i]).0,
                        name@,
                    ) by {
                        assert(text::before(e[i].0, e[mid as int].0));
                    }
                }
                return (true, mid);
            }
        }
        (false, lo)
    }

    /// Sets the version of a package.
    pub fn insert(&mut self, name: String, version: String)
        ensures
            final(self).deep_view() == old(self).deep_view().insert(name@, version@),
    {
        proof {
            use_type_invariant(&*self);
        }
        let ghost before = self.entries.deep_view();
        let ghost row = (name@, version@);
        let mut entries: Vec<(String, String)> = Vec::new();
        std::mem::swap(&mut entries, &mut self.entries);
        let (found, at): (bool, usize) = PackageMap::find(&entries, name.as_str());
        if found {
            entries.set(at, (name, version));
            let ghost after = entries.deep_view();
            proof {
                assert(after =~= before.update(at as int, row));
                assert(names_increase(after)) by {
                    assert forall|i: int, j: int| 0 <= i < j < after.len() implies text::before(
                        (#[trigger] after[i]).0,
                        (#[trigger] after[j]).0,
                    ) by {
                        assert(text::before(before[i].0, before[j].0));
                    }
                }
                lemma_map_of(before);
                lemma_map_of(after);
                assert forall|k: Seq<char>| map_of(after).contains_key(k) == map_of(before).insert(
                    row.0,
                    row.1,
                ).contains_key(k) by {
                    if map_of(after).contains_key(k) {
                        let w = choose|w: int| 0 <= w < after.len() && (#[trigger] after[w]).0 == k;
                        assert(before[w].0 == k);
                    }
                    if map_of(before).contains_key(k) {
                        let w = choose|w: int|
                            0 <= w < before.len() && (#[trigger] before[w]).0 == k;
                        assert(after[w].0 == k);
                    }
                    assert(after[at as int] == row);
                }
                assert forall|k: Seq<char>| map_of(after).contains_key(k) implies map_of(after)[k]
                    == map_of(before).insert(row.0, row.1)[k] by {
                    let w = choose|w: int| 0 <= w < after.len() && (#[trigger] after[w]).0 == k;
                    if w != at {
                        assert(before[w] == after[w]);
                        if w < at {
                            assert(text::before(after[w].0, after[at as int].0));
                        } else {
                            assert(text::before(after[at as int].0, after[w].0));
                        }
                        text::lemma_before_irreflexive(k);
                    }
                }
                assert(map_of(after) =~= map_of(before).insert(row.0, row.1));
            }
        } else {
            entries.insert(at, (name, version));
            let ghost after = entries.deep_view();
            proof {
                assert(after =~= before.insert(at as int, row));
                assert(names_increase(after)) by {
                    assert forall|i: int, j: int| 0 <= i < j < after.len() implies text::before(
                        (#[trigger] after[i]).0,
                        (#[trigger] after[j]).0,
                    ) by {
                        let i0 = if i < at {
                            i
                        } else {
                            i - 1
                        };
                        let j0 = if j < at {
                            j
                        } else {
                            j - 1
                        };
                        if i == at {
                            assert(text::before(row.0, before[j0].0));
                        } else if j == at {
                            assert(text::before(before[i0].0, row.0));
                        } else {
                            assert(text::before(before[i0].0, before[j0].0));
                        }
                    }
                }
                lemma_map_of(before);
                lemma_map_of(after);
                assert forall|k: Seq<char>| map_of(after).contains_key(k) == map_of(before).insert(
                    row.0,
                    row.1,
                ).contains_key(k) by {
                    if map_of(after).contains_key(k) {
                        let w = choose|w: int| 0 <= w < after.len() && (#[trigger] after[w]).0 == k;
                        if w < at {
                            assert(before[w].0 == k);
                        } else if w > at {
                            assert(before[w - 1].0 == k);
                        }
                    }
                    if map_of(before).contains_key(k) {
                        let w = choose|w: int|
                            0 <= w < before.len() && (#[trigger] before[w]).0 == k;
                        assert(after[if w < at { w } else { w + 1 }].0 == k);
                    }
                    assert(after[at as int] == row);
                }
                assert forall|k: Seq<char>| map_of(after).contains_key(k) implies map_of(after)[k]
                    == map_of(before).insert(row.0, row.1)[k] by {
                    let w = choose|w: int| 0 <= w < after.len() && (#[trigger] after[w]).0 == k;
                    if w < at {
                        assert(before[w] == after[w]);
                        assert(text::before(after[w].0, after[at as int].0));
                    } else if w > at {
                        assert(before[w - 1] == after[w]);
                        assert(text::before(after[at as int].0, after[w].0));
                    }
                    text::lemma_before_irreflexive(k);
                }
                assert(map_of(after) =~= map_of(before).insert(row.0, row.1));
            }
        }
        self.entries = entries;
    }

    /// The version of a package.
    pub fn get(&self, name: &str) -> (r: Option<&String>)
        ensures
            match r {
                Some(v) => self.deep_view().contains_key(name@) && self.deep_view()[name@] == v@,
                None => !self.deep_view().contains_key(name@),
            },
    {
        proof {
            use_type_invariant(self);
            lemma_map_of(self.entries.deep_view());
        }
        let (found, at): (bool, usize) = PackageMap::find(&self.entries, name);
        if found {
            assert(self.entries.deep_view()[at as int].0 == name@);
            Some(&self.entries[at].1)
        } else {
            proof {
                let e = self.entries.deep_view();
                if map_of(e).contains_key(name@) {
                    let w = choose|w: int| 0 <= w < e.len() && (#[trigger] e[w]).0 == name@;
                    text::lemma_before_irreflexive(name@);
                    assert(false);
                }
            }
            None
        }
    }

    /// Number of packages.
    pub fn len(&self) -> (r: usize)
        ensures
            self.deep_view().dom().finite(),
            r == self.deep_view().dom().len(),
    {
        proof {
            use_type_invariant(self);
            lemma_map_of(self.rows());
        }
        assert(self.entries.deep_view().len() == self.entries@.len());
        self.entries.len()
    }
}

// ── Package lists ────────────────────────────────────────────────────────────

/// A package of a list.
#[derive(Debug)]
pub struct SpdxPackage {
    pub name: String,
    pub version_info: Option<String>,
}

/// What a package of a list is.
#[verifier::ext_equal]
pub struct SpdxView {
    pub name: Seq<char>,
    pub version_info: Option<Seq<char>>,
}

impl DeepView for SpdxPackage {
    type V = SpdxView;

    open spec fn deep_view(&self) -> SpdxView {
        SpdxView { name: self.name@, version_info: self.version_info.deep_view() }
    }
}

/// The versions by name of a list. A package without a version has the version
/// "unknown"; of packages with one name the last counts.
pub open spec fn listed_packages(list: Seq<SpdxView>) -> Map<Seq<char>, Seq<char>>
    decreases list.len(),
{
    if list.len() == 0 {
        Map::empty()
    } else {
        let p = list.last();
        listed_packages(list.drop_last()).insert(
            p.name,
            match p.version_info {
                Some(v) => v,
                None => "unknown"@,
            },
        )
    }
}

/// The versions by name of a list.
pub fn collect_packages(list: &Vec<SpdxPackage>) -> (r: PackageMap)
    ensures
        r.deep_view() == listed_packages(list.deep_view()),
{
    let mut map: PackageMap = PackageMap::new();
    let mut i: usize = 0;
    let ghost all = list.deep_view();
    assert(all.take(0) =~= Seq::<SpdxView>::empty());
    while i < list.len()
        invariant
            0 <= i <= list@.len(),
            all == list.deep_view(),
            map.deep_view() == listed_packages(all.take(i as int)),
        decreases list@.len() - i,
    {
        let p: &SpdxPackage = &list[i];
        let version: String = match &p.version_info {
            Some(v) => v.clone(),
            None => "unknown".to_string(),
        };
        proof {
            assert(all.take(i + 1).drop_last() =~= all.take(i as int));
            assert(all.take(i + 1).last() == p.deep_view());
        }
        map.insert(p.name.clone(), version);
        i += 1;
    }
    assert(all.take(i as int) =~= all);
    map
}

/// The map of a list holds the names of the list and no other. The version of a name is
/// that of the last package with it, exactly as it stands there, or "unknown" where
/// that one has none.
pub proof fn law_versions_are_kept_as_they_stand(list: Seq<SpdxView>)
    ensures
        forall|i: int|
            0 <= i < list.len() && (forall|j: int|
                i < j < list.len() ==> (#[trigger] list[j]).name != list[i].name) ==> {
                &&& listed_packages(list).contains_key((#[trigger] list[i]).name)
                &&& list[i].version_info matches Some(v) ==> listed_packages(list)[list[i].name] == v
                &&& list[i].version_info is None ==> listed_packages(list)[list[i].name]
                    == "unknown"@
            },
        forall|n: Seq<char>| #[trigger]
            listed_packages(list).contains_key(n) <==> exists|i: int|
                0 <= i < list.len() && (#[trigger] list[i]).name == n,
    decreases list.len(),
{
    if list.len() > 0 {
        let front = list.drop_last();
        let last = list.last();
        law_versions_are_kept_as_they_stand(front);
        assert(list[list.len() - 1] == last);
        assert forall|i: int|
            0 <= i < list.len() && (forall|j: int|
                i < j < list.len() ==> (#[trigger] list[j]).name != list[i].name) implies {
            &&& listed_packages(list).contains_key((#[trigger] list[i]).name)
            &&& list[i].version_info matches Some(v) ==> listed_packages(list)[list[i].name] == v
            &&& list[i].version_info is None ==> listed_packages(list)[list[i].name] == "unknown"@
        } by {
            if i < front.len() {
                assert(list[list.len() - 1].name != list[i].name);
                assert(front[i] == list[i]);
                assert forall|j: int| i < j < front.len() implies (#[trigger] front[j]).name
                    != front[i].name by {
                    assert(list[j].name != list[i].name);
                }
            }
        }
        assert forall|n: Seq<char>| #[trigger]
            listed_packages(list).contains_key(n) <==> exists|i: int|
                0 <= i < list.len() && (#[trigger] list[i]).name == n by {
            if listed_packages(front).contains_key(n) {
                let i = choose|i: int| 0 <= i < front.len() && (#[trigger] front[i]).name == n;
                assert(list[i].name == n);
            }
            if exists|i: int| 0 <= i < list.len() && (#[trigger] list[i]).name == n {
                let i = choose|i: int| 0 <= i < list.len() && (#[trigger] list[i]).name == n;
                if i < front.len() {
                    assert(front[i].name == n);
                }
            }
        }
    }
}

// ── Differences ──────────────────────────────────────────────────────────────

/// A package whose version changed, or that is new.
#[derive(Debug, PartialEq, Eq)]
pub struct PackageDiff {
    pub name: String,
    pub old_version: String,
    pub new_version: String,
}

/// What such a package is.
#[verifier::ext_equal]
pub struct PackageDiffView {
    pub name: Seq<char>,
    pub old_version: Seq<char>,
    pub new_version: Seq<char>,
}

impl DeepView for PackageDiff {
    type V = PackageDiffView;

    open spec fn deep_view(&self) -> PackageDiffView {
        PackageDiffView {
            name: self.name@,
            old_version: self.old_version@,
            new_version: self.new_version@,
        }
    }
}

impl Clone for PackageDiff {
    fn clone(&self) -> (r: Self)
        ensures
            r.deep_view() == self.deep_view(),
    {
        PackageDiff {
            name: self.name.clone(),
            old_version: self.old_version.clone(),
            new_version: self.new_version.clone(),
        }
    }
}

/// What two package lists differ in.
#[derive(Debug, PartialEq, Eq)]
pub struct SbomDiffResult {
    pub upgraded: Vec<PackageDiff>,
    pub removed: Vec<String>,
    pub added: Vec<PackageDiff>,
}

/// What a difference is.
#[verifier::ext_equal]
pub struct SbomView {
    pub upgraded: Seq<PackageDiffView>,
    pub removed: Seq<Seq<char>>,
    pub added: Seq<PackageDiffView>,
}

impl DeepView for SbomDiffResult {
    type V = SbomView;

    open spec fn deep_view(&self) -> SbomView {
        SbomView {
            upgraded: self.upgraded.deep_view(),
            removed: self.removed.deep_view(),
            added: self.added.deep_view(),
        }
    }
}

impl Clone for SbomDiffResult {
    fn clone(&self) -> (r: Self)
        ensures
            r.deep_view() == self.deep_view(),
    {
        let r: SbomDiffResult = SbomDiffResult {
            upgraded: self.upgraded.clone(),
            removed: self.removed.clone(),
            added: self.added.clone(),
        };
        assert(r.upgraded.deep_view() =~= self.upgraded.deep_view());
        assert(r.removed.deep_view() =~= self.removed.deep_view());
        assert(r.added.deep_view() =~= self.added.deep_view());
        r
    }
}

/// Whether packages stand in the order of their names, each name once.
pub open spec fn by_name(s: Seq<PackageDiffView>) -> bool {
    forall|i: int, j: int|
        0 <= i < j < s.len() ==> text::before((#[trigger] s[i]).name, (#[trigger] s[j]).name)
}

/// Whether names stand in order, each once.
pub open spec fn in_order(s: Seq<Seq<char>>) -> bool {
    forall|i: int, j: int| 0 <= i < j < s.len() ==> text::before(#[trigger] s[i], #[trigger] s[j])
}

/// Whether a package is in both lists, with the versions of `p`, which differ.
pub open spec fn is_upgrade(
    booted: Map<Seq<char>, Seq<char>>,
    target: Map<Seq<char>, Seq<char>>,
    p: PackageDiffView,
) -> bool {
    &&& booted.contains_key(p.name)
    &&& target.contains_key(p.name)
    &&& booted[p.name] == p.old_version
    &&& target[p.name] == p.new_version
    &&& p.old_version != p.new_version
}

/// Whether a package is in the target's list only, with the new version of `p`.
pub open spec fn is_addition(
    booted: Map<Seq<char>, Seq<char>>,
    target: Map<Seq<char>, Seq<char>>,
    p: PackageDiffView,
) -> bool {
    &&& !booted.contains_key(p.name)
    &&& target.contains_key(p.name)
    &&& p.old_version == Seq::<char>::empty()
    &&& target[p.name] == p.new_version
}

/// Whether `d` is what two package lists differ in: the packages of both whose
/// versions differ, the names that only the booted list has, and the packages
/// that only the target list has; each by name.
pub open spec fn is_diff(
    booted: Map<Seq<char>, Seq<char>>,
    target: Map<Seq<char>, Seq<char>>,
    d: SbomView,
) -> bool {
    &&& by_name(d.upgraded)
    &&& in_order(d.removed)
    &&& by_name(d.added)
    &&& forall|p: PackageDiffView| #[trigger]
        d.upgraded.contains(p) <==> is_upgrade(booted, target, p)
    &&& forall|n: Seq<char>| #[trigger]
        d.removed.contains(n) <==> booted.contains_key(n) && !target.contains_key(n)
    &&& forall|p: PackageDiffView| #[trigger]
        d.added.contains(p) <==> is_addition(booted, target, p)
}

/// What two package lists differ in.
pub fn diff_packages(booted_map: &PackageMap, target_map: &PackageMap) -> (r: SbomDiffResult)
    ensures
        is_diff(booted_map.deep_view(), target_map.deep_view(), r.deep_view()),
{
    let ghost b = booted_map.deep_view();
    let ghost t = target_map.deep_view();
    let ghost be = booted_map.rows();
    let ghost te = target_map.rows();
    proof {
        use_type_invariant(booted_map);
        use_type_invariant(target_map);
        lemma_map_of(be);
        lemma_map_of(te);
    }
    let mut upgraded: Vec<PackageDiff> = Vec::new();
    let mut removed: Vec<String> = Vec::new();
    let mut i: usize = 0;
    while i < booted_map.entries.len()
        invariant
            0 <= i <= booted_map.entries@.len(),
            be == booted_map.rows(),
            be == booted_map.entries.deep_view(),
            b == map_of(be),
            t == target_map.deep_view(),
            names_increase(be),
            forall|k: int|
                0 <= k < be.len() ==> b.contains_key((#[trigger] be[k]).0) && b[be[k].0] == be[k].1,
            by_name(upgraded.deep_view()),
            in_order(removed.deep_view()),
            forall|k: int|
                0 <= k < upgraded@.len() ==> is_upgrade(
                    b,
                    t,
                    #[trigger] upgraded.deep_view()[k],
                ) && (i < be.len() ==> text::before(upgraded.deep_view()[k].name, be[i as int].0)),
            forall|k: int|
                0 <= k < removed@.len() ==> b.contains_key(#[trigger] removed.deep_view()[k])
                    && !t.contains_key(removed.deep_view()[k]) && (i < be.len() ==> text::before(
                    removed.deep_view()[k],
                    be[i as int].0,
                )),
            forall|k: int|
                0 <= k < i && t.contains_key((#[trigger] be[k]).0) && t[be[k].0] != be[k].1
                    ==> upgraded.deep_view().contains(
                    PackageDiffView {
                        name: be[k].0,
                        old_version: be[k].1,
                        new_version: t[be[k].0],
                    },
                ),
            forall|k: int|
                0 <= k < i && !t.contains_key((#[trigger] be[k]).0) ==> removed.deep_view().contains(
                    be[k].0,
                ),
        decreases booted_map.entries@.len() - i,
    {
        let name: &String = &booted_map.entries[i].0;
        let version: &String = &booted_map.entries[i].1;
        assert(be[i as int] == (name@, version@));
        let ghost up = upgraded.deep_view();
        let ghost gone = removed.deep_view();
        proof {
            assert forall|k: int| 0 <= k < up.len() && i + 1 < be.len() implies text::before(
                (#[trigger] up[k]).name,
                be[i + 1].0,
            ) by {
                assert(text::before(be[i as int].0, be[i + 1].0));
                text::lemma_before_transitive(up[k].name, be[i as int].0, be[i + 1].0);
            }
            assert forall|k: int| 0 <= k < gone.len() && i + 1 < be.len() implies text::before(
                #[trigger] gone[k],
                be[i + 1].0,
            ) by {
                assert(text::before(be[i as int].0, be[i + 1].0));
                text::lemma_before_transitive(gone[k], be[i as int].0, be[i + 1].0);
            }
            if i + 1 < be.len() {
                assert(text::before(be[i as int].0, be[i + 1].0));
            }
        }
        match target_map.get(name.as_str()) {
            Some(target_version) => {
                if !text::same(version.as_str(), target_version.as_str()) {
                    let p: PackageDiff = PackageDiff {
                        name: name.clone(),
                        old_version: version.clone(),
                        new_version: target_version.clone(),
                    };
                    let ghost pv = p.deep_view();
                    upgraded.push(p);
                    proof {
                        let now = upgraded.deep_view();
                        assert(now =~= up.push(pv));
                        assert(now[up.len() as int] == pv);
                        assert forall|k: int| 0 <= k < up.len() implies #[trigger] now.contains(
                            up[k],
                        ) by {
                            assert(now[k] == up[k]);
                        }
                        assert forall|q: PackageDiffView| up.contains(q) implies now.contains(
                            q,
                        ) by {
                            let w = choose|w: int| 0 <= w < up.len() && up[w] == q;
                            assert(now[w] == q);
                        }
                    }
                }
            },
            None => {
                removed.push(name.clone());
                proof {
                    let now = removed.deep_view();
                    assert(now =~= gone.push(name@));
                    assert(now[gone.len() as int] == name@);
                    assert forall|q: Seq<char>| gone.contains(q) implies now.contains(q) by {
                        let w = choose|w: int| 0 <= w < gone.len() && gone[w] == q;
                        assert(now[w] == q);
                    }
                }
            },
        }
        i += 1;
    }
    let ghost up = upgraded.deep_view();
    let ghost gone = removed.deep_view();
    let mut added: Vec<PackageDiff> = Vec::new();
    let mut j: usize = 0;
    while j < target_map.entries.len()
        invariant
            0 <= j <= target_map.entries@.len(),
            te == target_map.rows(),
            te == target_map.entries.deep_view(),
            t == map_of(te),
            b == booted_map.deep_view(),
            names_increase(te),
            forall|k: int|
                0 <= k < te.len() ==> t.contains_key((#[trigger] te[k]).0) && t[te[k].0] == te[k].1,
            by_name(added.deep_view()),
            forall|k: int|
                0 <= k < added@.len() ==> is_addition(
                    b,
                    t,
                    #[trigger] added.deep_view()[k],
                ) && (j < te.len() ==> text::before(added.deep_view()[k].name, te[j as int].0)),
            forall|k: int|
                0 <= k < j && !b.contains_key((#[trigger] te[k]).0) ==> added.deep_view().contains(
                    PackageDiffView {
                        name: te[k].0,
                        old_version: Seq::<char>::empty(),
                        new_version: te[k].1,
                    },
                ),
        decreases target_map.entries@.len() - j,
    {
        let name: &String = &target_map.entries[j].0;
        let version: &String = &target_map.entries[j].1;
        assert(te[j as int] == (name@, version@));
        let ghost new = added.deep_view();
        proof {
            assert forall|k: int| 0 <= k < new.len() && j + 1 < te.len() implies text::before(
                (#[trigger] new[k]).name,
                te[j + 1].0,
            ) by {
                assert(text::before(te[j as int].0, te[j + 1].0));
                text::lemma_before_transitive(new[k].name, te[j as int].0, te[j + 1].0);
            }
            if j + 1 < te.len() {
                assert(text::before(te[j as int].0, te[j + 1].0));
            }
        }
        if booted_map.get(name.as_str()).is_none() {
            let p: PackageDiff = PackageDiff {
                name: name.clone(),
                old_version: String::new(),
                new_version: version.clone(),
            };
            let ghost pv = p.deep_view();
            added.push(p);
            proof {
                let now = added.deep_view();
                assert(now =~= new.push(pv));
                assert(now[new.len() as int] == pv);
                assert forall|q: PackageDiffView| new.contains(q) implies now.contains(q) by {
                    let w = choose|w: int| 0 <= w < new.len() && new[w] == q;
                    assert(now[w] == q);
                }
            }
        }
        j += 1;
    }
    let r: SbomDiffResult = SbomDiffResult { upgraded, removed, added };
    proof {
        let d = r.deep_view();
        assert forall|p: PackageDiffView| #[trigger]
            d.upgraded.contains(p) <==> is_upgrade(b, t, p) by {
            if d.upgraded.contains(p) {
                let w = choose|w: int| 0 <= w < d.upgraded.len() && d.upgraded[w] == p;
                assert(is_upgrade(b, t, d.upgraded[w]));
            }
            if is_upgrade(b, t, p) {
                let w = choose|w: int| 0 <= w < be.len() && (#[trigger] be[w]).0 == p.name;
                assert(be[w].1 == p.old_version);
                assert(p =~= PackageDiffView {
                    name: be[w].0,
                    old_version: be[w].1,
                    new_version: t[be[w].0],
                });
            }
        }
        assert forall|n: Seq<char>| #[trigger]
            d.removed.contains(n) <==> b.contains_key(n) && !t.contains_key(n) by {
            if d.removed.contains(n) {
                let w = choose|w: int| 0 <= w < d.removed.len() && d.removed[w] == n;
                assert(b.contains_key(d.removed[w]));
            }
            if b.contains_key(n) && !t.contains_key(n) {
                let w = choose|w: int| 0 <= w < be.len() && (#[trigger] be[w]).0 == n;
                assert(d.removed.contains(be[w].0));
            }
        }
        assert forall|p: PackageDiffView| #[trigger]
            d.added.contains(p) <==> is_addition(b, t, p) by {
            if d.added.contains(p) {
                let w = choose|w: int| 0 <= w < d.added.len() && d.added[w] == p;
                assert(is_addition(b, t, d.added[w]));
            }
            if is_addition(b, t, p) {
                let w = choose|w: int| 0 <= w < te.len() && (#[trigger] te[w]).0 == p.name;
                assert(p =~= PackageDiffView {
                    name: te[w].0,
                    old_version: Seq::<char>::empty(),
                    new_version: te[w].1,
                });
            }
        }
    }
    r
}

proof fn lemma_increasing_packages_equal(a: Seq<PackageDiffView>, b: Seq<PackageDiffView>)
    requires
        by_name(a),
        by_name(b),
        forall|p: PackageDiffView| #[trigger] a.contains(p) <==> b.contains(p),
    ensures
        a == b,
    decreases a.len(),
{
    if a.len() == 0 {
        if b.len() > 0 {
            assert(b.contains(b[0]));
            assert(a.contains(b[0]));
        }
        assert(a =~= b);
    } else {
        assert(a.contains(a[a.len() - 1]));
        let w = choose|w: int| 0 <= w < b.len() && b[w] == a.last();
        assert(b.contains(b[b.len() - 1]));
        assert(a.contains(b.last()));
        let v = choose|v: int| 0 <= v < a.len() && a[v] == b.last();
        if w < b.len() - 1 {
            assert(text::before(b[w].name, b[b.len() - 1].name));
            if v < a.len() - 1 {
                assert(text::before(a[v].name, a[a.len() - 1].name));
            }
            text::lemma_before_total(a.last().name, b.last().name);
            text::lemma_before_irreflexive(a.last().name);
            assert(false);
        }
        let x = a.drop_last();
        let y = b.drop_last();
        assert forall|p: PackageDiffView| #[trigger] x.contains(p) <==> y.contains(p) by {
            text::lemma_before_irreflexive(p.name);
            if x.contains(p) {
                let k = choose|k: int| 0 <= k < x.len() && x[k] == p;
                assert(a[k] == p);
                assert(text::before(a[k].name, a[a.len() - 1].name));
                assert(a.contains(p));
                let m = choose|m: int| 0 <= m < b.len() && b[m] == p;
                assert(y[m] == p);
            }
            if y.contains(p) {
                let k = choose|k: int| 0 <= k < y.len() && y[k] == p;
                assert(b[k] == p);
                assert(text::before(b[k].name, b[b.len() - 1].name));
                assert(b.contains(p));
                assert(a.contains(p));
                let m = choose|m: int| 0 <= m < a.len() && a[m] == p;
                assert(x[m] == p);
            }
        }
        assert(by_name(x)) by {
            assert forall|i: int, j: int| 0 <= i < j < x.len() implies text::before(
                (#[trigger] x[i]).name,
                (#[trigger] x[j]).name,
            ) by {
                assert(text::before(a[i].name, a[j].name));
            }
        }
        assert(by_name(y)) by {
            assert forall|i: int, j: int| 0 <= i < j < y.len() implies text::before(
                (#[trigger] y[i]).name,
                (#[trigger] y[j]).name,
            ) by {
                assert(text::before(b[i].name, b[j].name));
            }
        }
        lemma_increasing_packages_equal(x, y);
        assert(a =~= x.push(a.last()));
        assert(b =~= y.push(b.last()));
    }
}

/// The packages of a row of names.
spec fn as_packages(names: Seq<Seq<char>>) -> Seq<PackageDiffView> {
    Seq::new(
        names.len(),
        |i: int|
            PackageDiffView {
                name: names[i],
                old_version: Seq::<char>::empty(),
                new_version: Seq::<char>::empty(),
            },
    )
}

proof fn lemma_increasing_names_equal(a: Seq<Seq<char>>, b: Seq<Seq<char>>)
    requires
        in_order(a),
        in_order(b),
        forall|n: Seq<char>| #[trigger] a.contains(n) <==> b.contains(n),
    ensures
        a == b,
{
    let x = as_packages(a);
    let y = as_packages(b);
    assert forall|p: PackageDiffView| #[trigger] x.contains(p) <==> y.contains(p) by {
        if x.contains(p) {
            let k = choose|k: int| 0 <= k < x.len() && x[k] == p;
            assert(a.contains(a[k]));
            let m = choose|m: int| 0 <= m < b.len() && b[m] == a[k];
            assert(y[m] == p);
        }
        if y.contains(p) {
            let k = choose|k: int| 0 <= k < y.len() && y[k] == p;
            assert(b.contains(b[k]));
            assert(a.contains(b[k]));
            let m = choose|m: int| 0 <= m < a.len() && a[m] == b[k];
            assert(x[m] == p);
        }
    }
    lemma_increasing_packages_equal(x, y);
    assert forall|i: int| 0 <= i < a.len() implies a[i] == b[i] by {
        assert(x[i] == y[i]);
    }
    assert(a.len() == x.len() && b.len() == y.len());
    assert(a =~= b);
}

/// Two package lists differ in one way only.
pub proof fn law_diff_is_unique(
    booted: Map<Seq<char>, Seq<char>>,
    target: Map<Seq<char>, Seq<char>>,
    d: SbomView,
    e: SbomView,
)
    requires
        is_diff(booted, target, d),
        is_diff(booted, target, e),
    ensures
        d == e,
{
    assert forall|p: PackageDiffView| #[trigger]
        d.upgraded.contains(p) <==> e.upgraded.contains(p) by {
        assert(d.upgraded.contains(p) <==> is_upgrade(booted, target, p));
        assert(e.upgraded.contains(p) <==> is_upgrade(booted, target, p));
    }
    assert forall|p: PackageDiffView| #[trigger] d.added.contains(p) <==> e.added.contains(p) by {
        assert(d.added.contains(p) <==> is_addition(booted, target, p));
        assert(e.added.contains(p) <==> is_addition(booted, target, p));
    }
    assert forall|n: Seq<char>| #[trigger] d.removed.contains(n) <==> e.removed.contains(n) by {
        assert(d.removed.contains(n) <==> booted.contains_key(n) && !target.contains_key(n));
        assert(e.removed.contains(n) <==> booted.contains_key(n) && !target.contains_key(n));
    }
    lemma_increasing_packages_equal(d.upgraded, e.upgraded);
    lemma_increasing_packages_equal(d.added, e.added);
    lemma_increasing_names_equal(d.removed, e.removed);
}

/// The target list has the packages of the booted one, less those that were
/// removed and with those that were added.
pub proof fn law_counts_add_up(
    booted: Map<Seq<char>, Seq<char>>,
    target: Map<Seq<char>, Seq<char>>,
    d: SbomView,
)
    requires
        booted.dom().finite(),
        target.dom().finite(),
        is_diff(booted, target, d),
    ensures
        booted.dom().len() - d.removed.len() + d.added.len() == target.dom().len(),
{
    let b = booted.dom();
    let t = target.dom();
    assert forall|i: int, j: int|
        0 <= i < d.removed.len() && 0 <= j < d.removed.len() && i != j implies d.removed[i]
        != d.removed[j] by {
        text::lemma_before_irreflexive(d.removed[i]);
    }
    d.removed.unique_seq_to_set();
    assert(d.removed.to_set() =~= b.difference(t));
    let names = Seq::new(d.added.len(), |i: int| d.added[i].name);
    assert forall|i: int, j: int|
        0 <= i < names.len() && 0 <= j < names.len() && i != j implies names[i] != names[j] by {
        assert(names[i] == d.added[i].name && names[j] == d.added[j].name);
        text::lemma_before_irreflexive(names[i]);
    }
    names.unique_seq_to_set();
    assert forall|n: Seq<char>| names.to_set().contains(n) <==> t.difference(b).contains(n) by {
        if names.contains(n) {
            let i = choose|i: int| 0 <= i < names.len() && names[i] == n;
            assert(d.added.contains(d.added[i]));
        }
        if t.difference(b).contains(n) {
            let p = PackageDiffView {
                name: n,
                old_version: Seq::<char>::empty(),
                new_version: target[n],
            };
            assert(is_addition(booted, target, p));
            assert(d.added.contains(p));
            let i = choose|i: int| 0 <= i < d.added.len() && d.added[i] == p;
            assert(names[i] == n);
        }
    }
    assert(names.to_set() =~= t.difference(b));
    vstd::set_lib::lemma_set_difference_len(b, t);
    vstd::set_lib::lemma_set_difference_len(t, b);
    assert(b.intersect(t) =~= t.intersect(b));
}

/// The difference, applied to the booted list, gives the target list: what was removed
/// is gone, what was added or upgraded has its new version, and everything else is as
/// it was.
pub proof fn law_diff_rebuilds_the_target(
    booted: Map<Seq<char>, Seq<char>>,
    target: Map<Seq<char>, Seq<char>>,
    d: SbomView,
    n: Seq<char>,
)
    requires
        is_diff(booted, target, d),
    ensures
        target.contains_key(n) <==> (booted.contains_key(n) && !d.removed.contains(n)) || exists|
            i: int,
        |
            0 <= i < d.added.len() && (#[trigger] d.added[i]).name == n,
        forall|i: int|
            0 <= i < d.added.len() && (#[trigger] d.added[i]).name == n ==> target[n]
                == d.added[i].new_version && !booted.contains_key(n),
        forall|i: int|
            0 <= i < d.upgraded.len() && (#[trigger] d.upgraded[i]).name == n ==> target[n]
                == d.upgraded[i].new_version && booted[n] == d.upgraded[i].old_version && booted[n]
                != target[n],
        booted.contains_key(n) && !d.removed.contains(n) && (forall|i: int|
            0 <= i < d.upgraded.len() ==> (#[trigger] d.upgraded[i]).name != n) ==> target[n]
            == booted[n],
        d.removed.contains(n) ==> booted.contains_key(n) && !target.contains_key(n),
{
    assert(d.removed.contains(n) <==> booted.contains_key(n) && !target.contains_key(n));
    assert forall|i: int| 0 <= i < d.added.len() implies is_addition(
        booted,
        target,
        #[trigger] d.added[i],
    ) by {
        assert(d.added.contains(d.added[i]));
    }
    assert forall|i: int| 0 <= i < d.upgraded.len() implies is_upgrade(
        booted,
        target,
        #[trigger] d.upgraded[i],
    ) by {
        assert(d.upgraded.contains(d.upgraded[i]));
    }
    if target.contains_key(n) && !booted.contains_key(n) {
        let p = PackageDiffView {
            name: n,
            old_version: Seq::<char>::empty(),
            new_version: target[n],
        };
        assert(is_addition(booted, target, p));
        assert(d.added.contains(p));
        let i = choose|i: int| 0 <= i < d.added.len() && d.added[i] == p;
        assert(d.added[i].name == n);
    }
    if booted.contains_key(n) && target.contains_key(n) && booted[n] != target[n] {
        let p = PackageDiffView { name: n, old_version: booted[n], new_version: target[n] };
        assert(is_upgrade(booted, target, p));
        assert(d.upgraded.contains(p));
        let i = choose|i: int| 0 <= i < d.upgraded.len() && d.upgraded[i] == p;
        assert(d.upgraded[i].name == n);
    }
}

/// What is shown of two package lists: a package whose last version differs between
/// them, in however small a part, is among the upgraded ones with both versions; one
/// that only one list names is among the added or the removed ones.
pub proof fn law_every_change_is_shown(
    booted: Seq<SpdxView>,
    target: Seq<SpdxView>,
    d: SbomView,
    i: int,
    j: int,
)
    requires
        is_diff(listed_packages(booted), listed_packages(target), d),
        0 <= i < booted.len(),
        0 <= j < target.len(),
        forall|k: int| i < k < booted.len() ==> (#[trigger] booted[k]).name != booted[i].name,
        forall|k: int| j < k < target.len() ==> (#[trigger] target[k]).name != target[j].name,
    ensures
        booted[i].name == target[j].name ==> (booted[i].version_info matches Some(v) ==> (
        target[j].version_info matches Some(w) ==> (d.upgraded.contains(
            PackageDiffView { name: target[j].name, old_version: v, new_version: w },
        ) <==> v != w))),
        (forall|k: int| 0 <= k < booted.len() ==> (#[trigger] booted[k]).name != target[j].name)
            ==> (target[j].version_info matches Some(w) ==> d.added.contains(
            PackageDiffView {
                name: target[j].name,
                old_version: Seq::empty(),
                new_version: w,
            },
        )),
        (forall|k: int| 0 <= k < target.len() ==> (#[trigger] target[k]).name != booted[i].name)
            <==> d.removed.contains(booted[i].name),
{
    law_versions_are_kept_as_they_stand(booted);
    law_versions_are_kept_as_they_stand(target);
    let b = listed_packages(booted);
    let t = listed_packages(target);
    assert(b.contains_key(booted[i].name));
    assert(t.contains_key(target[j].name));
    assert(d.removed.contains(booted[i].name) <==> b.contains_key(booted[i].name)
        && !t.contains_key(booted[i].name));
    if let Some(w) = target[j].version_info {
        assert(t[target[j].name] == w);
        let p = PackageDiffView {
            name: target[j].name,
            old_version: Seq::empty(),
            new_version: w,
        };
        assert(d.added.contains(p) <==> is_addition(b, t, p));
        if let Some(v) = booted[i].version_info {
            assert(b[booted[i].name] == v);
            let q = PackageDiffView { name: target[j].name, old_version: v, new_version: w };
            assert(d.upgraded.contains(q) <==> is_upgrade(b, t, q));
        }
    }
}

/// A list does not differ from itself.
pub proof fn law_same_list_has_no_diff(list: Map<Seq<char>, Seq<char>>, d: SbomView)
    requires
        is_diff(list, list, d),
    ensures
        d.upgraded.len() == 0,
        d.removed.len() == 0,
        d.added.len() == 0,
{
    if d.upgraded.len() > 0 {
        assert(d.upgraded.contains(d.upgraded[0]));
    }
    if d.removed.len() > 0 {
        assert(d.removed.contains(d.removed[0]));
    }
    if d.added.len() > 0 {
        assert(d.added.contains(d.added[0]));
    }
}

/// The names of packages, in order.
pub open spec fn names_of(s: Seq<PackageDiffView>) -> Seq<Seq<char>> {
    s.map_values(|p: PackageDiffView| p.name)
}

/// Packages with their two versions swapped, in order.
pub open spec fn swapped(s: Seq<PackageDiffView>) -> Seq<PackageDiffView> {
    s.map_values(
        |p: PackageDiffView|
            PackageDiffView {
                name: p.name,
                old_version: p.new_version,
                new_version: p.old_version,
            },
    )
}

proof fn lemma_added_are_removed(
    booted: Map<Seq<char>, Seq<char>>,
    target: Map<Seq<char>, Seq<char>>,
    d: SbomView,
    e: SbomView,
)
    requires
        is_diff(booted, target, d),
        is_diff(target, booted, e),
    ensures
        e.removed == names_of(d.added),
{
    let names = names_of(d.added);
    assert forall|i: int, j: int| 0 <= i < j < names.len() implies text::before(
        #[trigger] names[i],
        #[trigger] names[j],
    ) by {
        assert(text::before(d.added[i].name, d.added[j].name));
    }
    assert forall|n: Seq<char>| #[trigger] e.removed.contains(n) <==> names.contains(n) by {
        assert(e.removed.contains(n) <==> target.contains_key(n) && !booted.contains_key(n));
        if e.removed.contains(n) {
            let p = PackageDiffView {
                name: n,
                old_version: Seq::<char>::empty(),
                new_version: target[n],
            };
            assert(is_addition(booted, target, p));
            assert(d.added.contains(p));
            let i = choose|i: int| 0 <= i < d.added.len() && d.added[i] == p;
            assert(names[i] == n);
        }
        if names.contains(n) {
            let i = choose|i: int| 0 <= i < names.len() && names[i] == n;
            assert(d.added.contains(d.added[i]));
            assert(is_addition(booted, target, d.added[i]));
        }
    }
    lemma_increasing_names_equal(e.removed, names);
}

/// Seen from the other side, the names that were added are those that were removed
/// and the reverse, and the upgrades are the same with their versions swapped; all
/// of them in the same order.
pub proof fn law_diff_mirrors(
    booted: Map<Seq<char>, Seq<char>>,
    target: Map<Seq<char>, Seq<char>>,
    d: SbomView,
    e: SbomView,
)
    requires
        is_diff(booted, target, d),
        is_diff(target, booted, e),
    ensures
        e.upgraded == swapped(d.upgraded),
        e.removed == names_of(d.added),
        names_of(e.added) == d.removed,
{
    lemma_added_are_removed(booted, target, d, e);
    lemma_added_are_removed(target, booted, e, d);
    let back = swapped(d.upgraded);
    assert forall|i: int, j: int| 0 <= i < j < back.len() implies text::before(
        (#[trigger] back[i]).name,
        (#[trigger] back[j]).name,
    ) by {
        assert(text::before(d.upgraded[i].name, d.upgraded[j].name));
    }
    assert forall|p: PackageDiffView| #[trigger] e.upgraded.contains(p) <==> back.contains(p) by {
        let q = PackageDiffView {
            name: p.name,
            old_version: p.new_version,
            new_version: p.old_version,
        };
        assert(e.upgraded.contains(p) <==> is_upgrade(target, booted, p));
        assert(d.upgraded.contains(q) <==> is_upgrade(booted, target, q));
        if d.upgraded.contains(q) {
            let i = choose|i: int| 0 <= i < d.upgraded.len() && d.upgraded[i] == q;
            assert(back[i] == p);
        }
        if back.contains(p) {
            let i = choose|i: int| 0 <= i < back.len() && back[i] == p;
            assert(d.upgraded[i] == q);
        }
    }
    lemma_increasing_packages_equal(e.upgraded, back);
}

/// The difference of two lists, where both could be had.
pub fn diff_sboms(booted: Option<PackageMap>, target: Option<PackageMap>) -> (r: Option<
    SbomDiffResult,
>)
    ensures
        match (booted, target) {
            (Some(b), Some(t)) => r matches Some(d) && is_diff(
                b.deep_view(),
                t.deep_view(),
                d.deep_view(),
            ),
            _ => r is None,
        },
{
    match (booted, target) {
        (Some(b), Some(t)) => Some(diff_packages(&b, &t)),
        _ => None,
    }
}

// ── Where the lists are ──────────────────────────────────────────────────────

/// A parsed image reference.
#[derive(Debug)]
pub struct OciReference {
    pub registry: String,
    pub repository: String,
    pub tag: Option<String>,
    pub digest: Option<String>,
}

/// What a parsed image reference is.
#[verifier::ext_equal]
pub struct OciView {
    pub registry: Seq<char>,
    pub repository: Seq<char>,
    pub tag: Option<Seq<char>>,
    pub digest: Option<Seq<char>>,
}

impl DeepView for OciReference {
    type V = OciView;

    open spec fn deep_view(&self) -> OciView {
        OciView {
            registry: self.registry@,
            repository: self.repository@,
            tag: self.tag.deep_view(),
            digest: self.digest.deep_view(),
        }
    }
}

/// What `oci_client` reads out of the text of an image reference.
pub uninterp spec fn oci_reference(s: Seq<char>) -> Option<OciView>;

/// `oci_client::Reference::from_str`: registry, repository, tag and digest of
/// an image reference, or nothing where the text is none. The empty text is
/// none; a reference without a tag and a digest gets the tag "latest".
#[verifier::external_body]
fn parse_oci_reference(s: &str) -> (r: Option<OciReference>)
    ensures
        r.deep_view() == oci_reference(s@),
        s@.len() == 0 ==> r is None,
        r matches Some(x) ==> x.tag is Some || x.digest is Some,
{
    let parsed = oci_client::Reference::from_str(s).ok()?;
    Some(
        OciReference {
            registry: parsed.registry().to_string(),
            repository: parsed.repository().to_string(),
            tag: parsed.tag().map(|t| t.to_string()),
            digest: parsed.digest().map(|d| d.to_string()),
        },
    )
}

/// The two references whose package lists are to be compared, where both texts
/// are references.
pub fn references(booted_ref: &str, target_ref: &str) -> (r: Option<(OciReference, OciReference)>)
    ensures
        r.deep_view() == match (oci_reference(booted_ref@), oci_reference(target_ref@)) {
            (Some(b), Some(t)) => Some((b, t)),
            _ => None,
        },
{
    match (parse_oci_reference(booted_ref), parse_oci_reference(target_ref)) {
        (Some(b), Some(t)) => Some((b, t)),
        _ => None,
    }
}

/// The tag under which a registry lists what refers to a digest.
pub fn fallback_tag(digest: &str) -> (r: String)
    ensures
        r@ == text::replaced(digest@, ':', '-'),
{
    text::replace(digest, ':', '-')
}

/// The address of the list of what refers to a digest.
pub fn referrers_url(image: &OciReference, digest: &str) -> (r: String)
    ensures
        r@ == "https://"@ + image.registry@ + "/v2/"@ + image.repository@ + "/manifests/"@
            + text::replaced(digest@, ':', '-'),
{
    let tag: String = fallback_tag(digest);
    text::cat6(
        "https://",
        image.registry.as_str(),
        "/v2/",
        image.repository.as_str(),
        "/manifests/",
        tag.as_str(),
    )
}

/// The address of a token for reading a repository of GHCR; other registries
/// have none.
pub fn token_url(image: &OciReference) -> (r: Option<String>)
    ensures
        r.deep_view() == if image.registry@ == "ghcr.io"@ {
            Some(
                "https://ghcr.io/token?service=ghcr.io&scope=repository:"@ + image.repository@
                    + ":pull"@,
            )
        } else {
            None
        },
{
    if text::same(image.registry.as_str(), "ghcr.io") {
        Some(
            text::cat3(
                "https://ghcr.io/token?service=ghcr.io&scope=repository:",
                image.repository.as_str(),
                ":pull",
            ),
        )
    } else {
        None
    }
}

/// An entry of the list of what refers to a digest.
#[derive(Debug)]
pub struct ReferrerEntry {
    pub digest: String,
    pub artifact_type: Option<String>,
}

/// What such an entry is.
#[verifier::ext_equal]
pub struct ReferrerView {
    pub digest: Seq<char>,
    pub artifact_type: Option<Seq<char>>,
}

impl DeepView for ReferrerEntry {
    type V = ReferrerView;

    open spec fn deep_view(&self) -> ReferrerView {
        ReferrerView { digest: self.digest@, artifact_type: self.artifact_type.deep_view() }
    }
}

/// The digest of the first entry that is a package list.
pub open spec fn first_spdx(entries: Seq<ReferrerView>) -> Option<Seq<char>>
    decreases entries.len(),
{
    if entries.len() == 0 {
        None
    } else if entries[0].artifact_type == Some(SPDX_ARTIFACT_TYPE@) {
        Some(entries[0].digest)
    } else {
        first_spdx(entries.drop_first())
    }
}

/// The digest of the first entry that is a package list.
pub fn find_spdx_referrer(entries: &Vec<ReferrerEntry>) -> (r: Option<String>)
    ensures
        r.deep_view() == first_spdx(entries.deep_view()),
{
    let ghost all = entries.deep_view();
    assert(all.skip(0) =~= all);
    let mut i: usize = 0;
    while i < entries.len()
        invariant
            0 <= i <= entries@.len(),
            all == entries.deep_view(),
            first_spdx(all) == first_spdx(all.skip(i as int)),
        decreases entries@.len() - i,
    {
        let e: &ReferrerEntry = &entries[i];
        assert(all.skip(i as int)[0] == e.deep_view());
        assert(all.skip(i as int).drop_first() =~= all.skip(i + 1));
        if let Some(kind) = &e.artifact_type {
            if text::same(kind.as_str(), SPDX_ARTIFACT_TYPE) {
                return Some(e.digest.clone());
            }
        }
        i += 1;
    }
    None
}

// ── Cache ────────────────────────────────────────────────────────────────────

/// A path with one more part: an absolute part replaces the path, and no second
/// separator is put behind one.
pub open spec fn path_join(base: Seq<char>, part: Seq<char>) -> Seq<char> {
    if part.len() > 0 && part[0] == '/' {
        part
    } else if base.len() == 0 || base.last() == '/' {
        base + part
    } else {
        base + "/"@ + part
    }
}

/// A path with one more part.
pub fn join_path(base: &str, part: &str) -> (r: String)
    ensures
        r@ == path_join(base@, part@),
{
    let p: Vec<char> = text::chars_of(part);
    if p.len() > 0 && p[0] == '/' {
        return part.to_string();
    }
    let b: Vec<char> = text::chars_of(base);
    if b.len() == 0 || b[b.len() - 1] == '/' {
        text::cat2(base, part)
    } else {
        text::cat3(base, "/", part)
    }
}

/// The directory of cached package lists: below the cache directory of the
/// user, which is `~/.cache` where it is not set.
pub open spec fn cache_dir_path(xdg_cache_home: Option<Seq<char>>, home: Option<Seq<char>>) -> Seq<
    char,
> {
    let base = match xdg_cache_home {
        Some(x) => x,
        None => path_join(
            match home {
                Some(h) => h,
                None => "/tmp"@,
            },
            ".cache"@,
        ),
    };
    path_join(path_join(base, "finupdate"@), "sbom-cache"@)
}

/// The directory of cached package lists.
pub fn cache_dir(xdg_cache_home: Option<String>, home: Option<String>) -> (r: String)
    ensures
        r@ == cache_dir_path(xdg_cache_home.deep_view(), home.deep_view()),
{
    let base: String = match xdg_cache_home {
        Some(x) => x,
        None => {
            let home: String = match home {
                Some(h) => h,
                None => "/tmp".to_string(),
            };
            join_path(home.as_str(), ".cache")
        },
    };
    let base: String = join_path(base.as_str(), "finupdate");
    join_path(base.as_str(), "sbom-cache")
}

/// The file of a cached package list: named by its digest, with underscores for
/// colons.
pub fn cache_path(dir: &str, digest: &str) -> (r: String)
    ensures
        r@ == path_join(dir@, text::replaced(digest@, ':', '_')),
{
    let name: String = text::replace(digest, ':', '_');
    join_path(dir, name.as_str())
}

/// The package list of an image is the first referrer that is one, and no other kind.
pub proof fn law_first_package_list_counts(entries: Seq<ReferrerView>, k: int)
    ensures
        0 <= k < entries.len() && entries[k].artifact_type == Some(SPDX_ARTIFACT_TYPE@) && (forall|
            j: int,
        |
            0 <= j < k ==> (#[trigger] entries[j]).artifact_type != Some(SPDX_ARTIFACT_TYPE@))
            ==> first_spdx(entries) == Some(entries[k].digest),
        (forall|j: int|
            0 <= j < entries.len() ==> (#[trigger] entries[j]).artifact_type != Some(
                SPDX_ARTIFACT_TYPE@,
            )) ==> first_spdx(entries) is None,
    decreases entries.len(),
{
    if entries.len() > 0 {
        let rest = entries.drop_first();
        law_first_package_list_counts(rest, k - 1);
        assert(forall|j: int| 0 <= j < rest.len() ==> #[trigger] rest[j] == entries[j + 1]);
        if 0 < k < entries.len() && (forall|j: int|
            0 <= j < k ==> (#[trigger] entries[j]).artifact_type != Some(SPDX_ARTIFACT_TYPE@)) {
            assert(entries[0].artifact_type != Some(SPDX_ARTIFACT_TYPE@));
            assert forall|j: int| 0 <= j < k - 1 implies (#[trigger] rest[j]).artifact_type != Some(
                SPDX_ARTIFACT_TYPE@,
            ) by {
                assert(entries[j + 1].artifact_type != Some(SPDX_ARTIFACT_TYPE@));
            }
        }
        if forall|j: int|
            0 <= j < entries.len() ==> (#[trigger] entries[j]).artifact_type != Some(
                SPDX_ARTIFACT_TYPE@,
            ) {
            assert(entries[0].artifact_type != Some(SPDX_ARTIFACT_TYPE@));
            assert forall|j: int| 0 <= j < rest.len() implies (#[trigger] rest[j]).artifact_type
                != Some(SPDX_ARTIFACT_TYPE@) by {
                assert(entries[j + 1].artifact_type != Some(SPDX_ARTIFACT_TYPE@));
            }
        }
    }
}

/// What is cached lies under the cache directory of the user where that is set, and under
/// the home directory otherwise.
pub proof fn law_cache_lies_with_the_user(dir: Seq<char>, home: Option<Seq<char>>)
    requires
        dir.len() > 0,
        dir.last() != '/',
    ensures
        cache_dir_path(Some(dir), home) == dir + "/finupdate/sbom-cache"@,
        cache_dir_path(None, Some(dir)) == dir + "/.cache/finupdate/sbom-cache"@,
        cache_dir_path(None, None) == "/tmp/.cache/finupdate/sbom-cache"@,
{
    reveal_strlit("/");
    reveal_strlit("/tmp");
    reveal_strlit(".cache");
    reveal_strlit("finupdate");
    reveal_strlit("sbom-cache");
    reveal_strlit("/finupdate/sbom-cache");
    reveal_strlit("/.cache/finupdate/sbom-cache");
    reveal_strlit("/tmp/.cache/finupdate/sbom-cache");
    reveal_strlit("/.cache");
    lemma_cached(dir);
    assert((dir + "/.cache"@).last() == 'e');
    lemma_cached(dir + "/.cache"@);
    assert(path_join(dir, ".cache"@) =~= dir + "/.cache"@);
    assert(cache_dir_path(None, Some(dir)) =~= dir + "/.cache/finupdate/sbom-cache"@);
    let tmp = "/tmp"@;
    assert(tmp.last() == 'p');
    assert(path_join(tmp, ".cache"@) =~= tmp + "/.cache"@);
    lemma_cached(tmp + "/.cache"@);
    assert(cache_dir_path(None, None) =~= "/tmp/.cache/finupdate/sbom-cache"@);
}

proof fn lemma_cached(base: Seq<char>)
    requires
        base.len() > 0,
        base.last() != '/',
    ensures
        path_join(path_join(base, "finupdate"@), "sbom-cache"@) == base + "/finupdate/sbom-cache"@,
{
    reveal_strlit("/");
    reveal_strlit("finupdate");
    reveal_strlit("sbom-cache");
    reveal_strlit("/finupdate/sbom-cache");
    let once = path_join(base, "finupdate"@);
    assert(once =~= base + "/"@ + "finupdate"@);
    assert(once.last() == 'e');
    assert(path_join(once, "sbom-cache"@) =~= base + "/finupdate/sbom-cache"@);
}

} // verus!
