//! The rebase dialog once builds are there: the recent ones, the calendar, the
//! details of the selected one, and the switches of the family.
use crate::calendar::{
    day_number, days_in_month, earlier, is_date, long_text, moment_full_text, month_back,
    month_day_text, month_len, month_on, month_year_text, next_month, previous_month,
    CalendarDate, DateView, MAX_YEAR,
};
use crate::registry_client::{Family, FamilyView, ImageVersion, VersionView};
use crate::service::{FamilyInfo, FamilyInfoView};
use crate::text;
use crate::ui::rebase_dialog::{family_view, resolve_target_ref, target_ref, RECENT_DROPDOWN_COUNT};
use vstd::prelude::*;

verus! {

/// The page: the builds, the selected day, and the month that is shown.
#[derive(Debug)]
pub struct RebasePage {
    pub versions: Vec<ImageVersion>,
    pub selected: Option<CalendarDate>,
    pub displayed: CalendarDate,
}

/// What the page is.
#[verifier::ext_equal]
pub struct RebaseModel {
    pub versions: Seq<VersionView>,
    pub selected: Option<DateView>,
    pub displayed: DateView,
}

impl DeepView for RebasePage {
    type V = RebaseModel;

    open spec fn deep_view(&self) -> RebaseModel {
        RebaseModel {
            versions: self.versions.deep_view(),
            selected: self.selected.deep_view(),
            displayed: self.displayed.deep_view(),
        }
    }
}

/// The build of a day: the last one in the list.
pub open spec fn build_at(versions: Seq<VersionView>, day: DateView) -> Option<VersionView>
    decreases versions.len(),
{
    if versions.len() == 0 {
        None
    } else if versions.last().date == day {
        Some(versions.last())
    } else {
        build_at(versions.drop_last(), day)
    }
}

/// The day that counts as installed: that of the last build in the list.
pub open spec fn installed_day(versions: Seq<VersionView>) -> Option<DateView> {
    if versions.len() > 0 {
        Some(versions.last().date)
    } else {
        None
    }
}

// ── Recent builds ────────────────────────────────────────────────────────────

/// A recent build: its day in words, and its version.
#[derive(Debug, PartialEq)]
pub struct RecentRow {
    pub title: String,
    pub subtitle: String,
}

/// What such a row is.
#[verifier::ext_equal]
pub struct RecentView {
    pub title: Seq<char>,
    pub subtitle: Seq<char>,
}

impl DeepView for RecentRow {
    type V = RecentView;

    open spec fn deep_view(&self) -> RecentView {
        RecentView { title: self.title@, subtitle: self.subtitle@ }
    }
}

/// The rows of the first builds of the list.
pub open spec fn recent_rows(versions: Seq<VersionView>) -> Seq<RecentView> {
    let n = if versions.len() < RECENT_DROPDOWN_COUNT {
        versions.len() as int
    } else {
        RECENT_DROPDOWN_COUNT as int
    };
    versions.take(n).map_values(
        |v: VersionView| RecentView { title: long_text(v.date), subtitle: v.version },
    )
}

// ── Calendar ─────────────────────────────────────────────────────────────────

/// A field of the calendar.
#[derive(Debug, PartialEq)]
pub struct DayCell {
    pub label: String,
    pub visible: bool,
    pub sensitive: bool,
    pub today: bool,
    pub available: bool,
    pub current: bool,
    pub selected: bool,
}

/// What a field is.
#[verifier::ext_equal]
pub struct CellView {
    pub label: Seq<char>,
    pub visible: bool,
    pub sensitive: bool,
    pub today: bool,
    pub available: bool,
    pub current: bool,
    pub selected: bool,
}

impl DeepView for DayCell {
    type V = CellView;

    open spec fn deep_view(&self) -> CellView {
        CellView {
            label: self.label@,
            visible: self.visible,
            sensitive: self.sensitive,
            today: self.today,
            available: self.available,
            current: self.current,
            selected: self.selected,
        }
    }
}

/// Number of days that the calendar shows of a month. The last month of the
/// calendar's range has none.
pub open spec fn shown_days(d: DateView) -> int {
    if d.year == MAX_YEAR && d.month == 12 {
        d.day - 1
    } else {
        month_len(d.year, d.month)
    }
}

/// The day of the month that stands in a field. Weeks start on Monday.
pub open spec fn day_in(displayed: DateView, slot: int) -> int {
    slot - (day_number(displayed) - 1) % 7 + 1
}

/// A field in front of the month, or behind it.
pub open spec fn blank_cell() -> CellView {
    CellView {
        label: ""@,
        visible: false,
        sensitive: false,
        today: false,
        available: false,
        current: false,
        selected: false,
    }
}

/// A field of the calendar.
pub open spec fn cell_view(m: RebaseModel, today: DateView, slot: int) -> CellView {
    let day = day_in(m.displayed, slot);
    if day < 1 || day > shown_days(m.displayed) {
        blank_cell()
    } else {
        let date = DateView { day, ..m.displayed };
        let label = text::decimal(day as nat);
        if is_date(date) {
            let available = build_at(m.versions, date) is Some;
            CellView {
                label,
                visible: true,
                sensitive: available && !earlier(today, date),
                today: date == today,
                available,
                current: installed_day(m.versions) == Some(date),
                selected: m.selected == Some(date),
            }
        } else {
            CellView { label, visible: true, ..blank_cell() }
        }
    }
}

/// The calendar: six weeks of seven fields, the month in words, and whether
/// there is a month to go on to.
#[derive(Debug, PartialEq)]
pub struct CalendarPage {
    pub month: String,
    pub can_go_on: bool,
    pub cells: Vec<DayCell>,
}

/// What the calendar is.
#[verifier::ext_equal]
pub struct CalendarView {
    pub month: Seq<char>,
    pub can_go_on: bool,
    pub cells: Seq<CellView>,
}

impl DeepView for CalendarPage {
    type V = CalendarView;

    open spec fn deep_view(&self) -> CalendarView {
        CalendarView {
            month: self.month@,
            can_go_on: self.can_go_on,
            cells: self.cells.deep_view(),
        }
    }
}

/// The calendar.
pub open spec fn calendar_view(m: RebaseModel, today: DateView) -> CalendarView {
    CalendarView {
        month: month_year_text(m.displayed),
        can_go_on: earlier(m.displayed, DateView { day: 1, ..today }),
        cells: Seq::new(42, |slot: int| cell_view(m, today, slot)),
    }
}

/// The page after a recent build was selected.
pub open spec fn recent_selected(m: RebaseModel, i: int) -> RebaseModel {
    RebaseModel {
        selected: if 0 <= i < m.versions.len() {
            Some(m.versions[i].date)
        } else {
            m.selected
        },
        ..m
    }
}

/// The page after a field of the calendar was clicked.
pub open spec fn day_clicked(m: RebaseModel, today: DateView, slot: int) -> RebaseModel {
    let day = DateView { day: day_in(m.displayed, slot), ..m.displayed };
    RebaseModel {
        selected: if !cell_view(m, today, slot).sensitive {
            m.selected
        } else if m.selected == Some(day) {
            None
        } else {
            Some(day)
        },
        ..m
    }
}

/// Only a day with a build, which is not in the future, can be selected.
pub proof fn law_only_builds_can_be_selected(m: RebaseModel, today: DateView, slot: int)
    ensures
        cell_view(m, today, slot).sensitive ==> {
            let date = DateView { day: day_in(m.displayed, slot), ..m.displayed };
            &&& build_at(m.versions, date) is Some
            &&& !earlier(today, date)
            &&& is_date(date)
        },
{
}

/// Six weeks hold every day of every month: each day of a month stands in one
/// field of the calendar.
pub proof fn law_calendar_shows_every_day(m: RebaseModel, today: DateView, day: int)
    requires
        is_date(m.displayed),
        m.displayed.day == 1,
        1 <= day <= shown_days(m.displayed),
    ensures
        ({
            let slot = day + (day_number(m.displayed) - 1) % 7 - 1;
            &&& 0 <= slot < 42
            &&& day_in(m.displayed, slot) == day
            &&& cell_view(m, today, slot).visible
            &&& cell_view(m, today, slot).label == text::decimal(day as nat)
        }),
{
}

// ── Details ──────────────────────────────────────────────────────────────────

/// What is told of the selected build, and the button below it.
#[derive(Debug, PartialEq)]
pub struct Details {
    pub version: String,
    pub kernel: String,
    pub built: String,
    pub commit: String,
    pub button: String,
    pub can_rebase: bool,
}

/// What that is.
#[verifier::ext_equal]
pub struct DetailsView {
    pub version: Seq<char>,
    pub kernel: Seq<char>,
    pub built: Seq<char>,
    pub commit: Seq<char>,
    pub button: Seq<char>,
    pub can_rebase: bool,
}

impl DeepView for Details {
    type V = DetailsView;

    open spec fn deep_view(&self) -> DetailsView {
        DetailsView {
            version: self.version@,
            kernel: self.kernel@,
            built: self.built@,
            commit: self.commit@,
            button: self.button@,
            can_rebase: self.can_rebase,
        }
    }
}

/// What is told of a build.
pub open spec fn details_of(v: VersionView, day: DateView, installed: Option<DateView>) -> DetailsView {
    DetailsView {
        version: v.version,
        kernel: v.kernel,
        built: moment_full_text(v.created),
        commit: if v.revision.len() == 0 {
            "—"@
        } else {
            v.revision
        },
        button: if installed == Some(day) {
            "Currently Installed"@
        } else {
            "Rebase to "@ + month_day_text(day) + "…"@
        },
        can_rebase: installed != Some(day),
    }
}

/// What is told of the selected build; nothing where none is selected.
pub open spec fn details_view(m: RebaseModel) -> Option<DetailsView> {
    match m.selected {
        None => None,
        Some(day) => match build_at(m.versions, day) {
            None => None,
            Some(v) => Some(details_of(v, day, installed_day(m.versions))),
        },
    }
}

/// What is told of a build.
pub fn update_details(v: &ImageVersion, day: &CalendarDate, installed: &Option<CalendarDate>) -> (r:
    Details)
    ensures
        r.deep_view() == details_of(v.deep_view(), day.deep_view(), installed.deep_view()),
{
    let is_current: bool = match installed {
        Some(d) => d.same(day),
        None => false,
    };
    let button: String = if is_current {
        "Currently Installed".to_string()
    } else {
        let words: String = day.month_day();
        text::cat3("Rebase to ", words.as_str(), "…")
    };
    Details {
        version: v.version.clone(),
        kernel: v.kernel.clone(),
        built: v.created.full(),
        commit: if v.revision.as_str().is_empty() {
            "—".to_string()
        } else {
            v.revision.clone()
        },
        button,
        can_rebase: !is_current,
    }
}

/// What the user is asked before a rebase, and the reference that it is to.
#[derive(Debug, PartialEq)]
pub struct RebaseQuestion {
    pub target: String,
    pub body: String,
}

/// What that is.
#[verifier::ext_equal]
pub struct QuestionView {
    pub target: Seq<char>,
    pub body: Seq<char>,
}

impl DeepView for RebaseQuestion {
    type V = QuestionView;

    open spec fn deep_view(&self) -> QuestionView {
        QuestionView { target: self.target@, body: self.body@ }
    }
}

/// What the user is asked before a rebase to a build.
pub open spec fn question_of(v: VersionView, day: DateView, target: Seq<char>) -> QuestionView {
    QuestionView {
        target,
        body: if target != v.full_ref {
            "Your system will be rebased to:\n\n"@ + target
                + "\n\nThis is a different image variant than what you're currently running. A restart is required and the full image will be re-downloaded."@
        } else {
            "Your system will be rebased to the "@ + long_text(day) + " build (version "@ + v.version
                + ").\n\nThis requires a restart to take effect and will re-download the full image."@
        },
    }
}

/// What the user is asked before a rebase; nothing where no build is selected.
pub open spec fn question_view(
    m: RebaseModel,
    families: Seq<FamilyView>,
    family: Option<FamilyInfoView>,
    features: Seq<Seq<char>>,
) -> Option<QuestionView> {
    match m.selected {
        None => None,
        Some(day) => match build_at(m.versions, day) {
            None => None,
            Some(v) => Some(
                question_of(v, day, target_ref(families, v.full_ref, family, features)),
            ),
        },
    }
}

// ── The page ─────────────────────────────────────────────────────────────────

fn find_build<'a>(versions: &'a Vec<ImageVersion>, day: &CalendarDate) -> (r: Option<
    &'a ImageVersion,
>)
    ensures
        match r {
            Some(v) => build_at(versions.deep_view(), day.deep_view()) == Some(v.deep_view()),
            None => build_at(versions.deep_view(), day.deep_view()) is None,
        },
{
    let ghost all = versions.deep_view();
    let mut i: usize = versions.len();
    assert(all.take(i as int) =~= all);
    while i > 0
        invariant
            i <= versions@.len(),
            all == versions.deep_view(),
            build_at(all, day.deep_view()) == build_at(all.take(i as int), day.deep_view()),
        decreases i,
    {
        assert(all.take(i as int).last() == versions@[i - 1].deep_view());
        assert(all.take(i as int).drop_last() =~= all.take(i - 1));
        if versions[i - 1].date.same(day) {
            return Some(&versions[i - 1]);
        }
        i -= 1;
    }
    None
}

fn installed(versions: &Vec<ImageVersion>) -> (r: Option<CalendarDate>)
    ensures
        r.deep_view() == installed_day(versions.deep_view()),
{
    if versions.len() > 0 {
        let i: usize = versions.len() - 1;
        assert(versions.deep_view().last() == versions@[i as int].deep_view());
        Some(versions[i].date.copy())
    } else {
        None
    }
}

fn is_day(a: &Option<CalendarDate>, day: &CalendarDate) -> (r: bool)
    ensures
        r == (a.deep_view() == Some(day.deep_view())),
{
    match a {
        Some(d) => d.same(day),
        None => false,
    }
}

/// The page for builds that arrived: nothing is selected, and this month is
/// shown.
pub fn build_loaded_page(versions: Vec<ImageVersion>, today: &CalendarDate) -> (r: RebasePage)
    ensures
        r.deep_view() == (RebaseModel {
            versions: versions.deep_view(),
            selected: None,
            displayed: DateView { day: 1, ..today.deep_view() },
        }),
{
    RebasePage { versions, selected: None, displayed: today.first_of_month() }
}

impl RebasePage {
    /// The rows of recent builds.
    pub fn recent(&self) -> (r: Vec<RecentRow>)
        ensures
            r.deep_view() == recent_rows(self.deep_view().versions),
    {
        let ghost all = self.versions.deep_view();
        let ghost want = recent_rows(all);
        let n: usize = if self.versions.len() < RECENT_DROPDOWN_COUNT {
            self.versions.len()
        } else {
            RECENT_DROPDOWN_COUNT
        };
        let mut out: Vec<RecentRow> = Vec::new();
        let mut i: usize = 0;
        assert(want.len() == n);
        while i < n
            invariant
                0 <= i <= n <= self.versions@.len(),
                all == self.versions.deep_view(),
                want == recent_rows(all),
                want.len() == n,
                out.deep_view() == want.take(i as int),
            decreases n - i,
        {
            let v: &ImageVersion = &self.versions[i];
            let row: RecentRow = RecentRow { title: v.date.long(), subtitle: v.version.clone() };
            let ghost before = out.deep_view();
            let ghost rv = row.deep_view();
            assert(all[i as int] == v.deep_view());
            assert(rv =~= want[i as int]);
            out.push(row);
            assert(out.deep_view() =~= before.push(rv));
            i += 1;
            assert(want.take(i as int) =~= before.push(rv));
        }
        assert(want.take(i as int) =~= want);
        out
    }

    /// A recent build is selected, by its position in the list.
    pub fn select_recent(&mut self, i: usize)
        ensures
            final(self).deep_view() == recent_selected(old(self).deep_view(), i as int),
    {
        assert(self.versions.deep_view().len() == self.versions@.len());
        if i < self.versions.len() {
            assert(self.versions.deep_view()[i as int] == self.versions@[i as int].deep_view());
            self.selected = Some(self.versions[i].date.copy());
        }
    }

    fn cell(&self, today: &CalendarDate, slot: u32) -> (r: DayCell)
        requires
            slot < 42,
        ensures
            r.deep_view() == cell_view(self.deep_view(), today.deep_view(), slot as int),
    {
        let days: u32 = days_in_month(&self.displayed);
        let first: u32 = self.displayed.weekday();
        if slot + 1 <= first || slot + 1 - first > days {
            return DayCell {
                label: "".to_string(),
                visible: false,
                sensitive: false,
                today: false,
                available: false,
                current: false,
                selected: false,
            };
        }
        let day: u32 = slot + 1 - first;
        let label: String = text::number(day as u64);
        match CalendarDate::from_ymd_opt(self.displayed.year(), self.displayed.month(), day) {
            None => DayCell {
                label,
                visible: true,
                sensitive: false,
                today: false,
                available: false,
                current: false,
                selected: false,
            },
            Some(date) => {
                let available: bool = find_build(&self.versions, &date).is_some();
                let future: bool = today.earlier_than(&date);
                let is_today: bool = date.same(today);
                DayCell {
                    label,
                    visible: true,
                    sensitive: available && !future,
                    today: is_today,
                    available,
                    current: is_day(&installed(&self.versions), &date),
                    selected: is_day(&self.selected, &date),
                }
            },
        }
    }

    /// The calendar.
    pub fn redraw_grid(&self, today: &CalendarDate) -> (r: CalendarPage)
        ensures
            r.deep_view() == calendar_view(self.deep_view(), today.deep_view()),
    {
        let ghost m = self.deep_view();
        let ghost t = today.deep_view();
        let ghost want = Seq::new(42, |slot: int| cell_view(m, t, slot));
        let mut cells: Vec<DayCell> = Vec::new();
        let mut slot: u32 = 0;
        while slot < 42
            invariant
                0 <= slot <= 42,
                m == self.deep_view(),
                t == today.deep_view(),
                want == Seq::new(42, |slot: int| cell_view(m, t, slot)),
                cells.deep_view() == want.take(slot as int),
            decreases 42 - slot,
        {
            let c: DayCell = self.cell(today, slot);
            let ghost before = cells.deep_view();
            let ghost cv = c.deep_view();
            assert(cv == want[slot as int]);
            cells.push(c);
            assert(cells.deep_view() =~= before.push(cv));
            slot += 1;
            assert(want.take(slot as int) =~= before.push(cv));
        }
        assert(want.take(42) =~= want);
        let this_month: CalendarDate = today.first_of_month();
        CalendarPage {
            month: self.displayed.month_year(),
            can_go_on: self.displayed.earlier_than(&this_month),
            cells,
        }
    }

    /// A field of the calendar is clicked: its day is selected, or not any more.
    /// Only a day that can be selected answers.
    pub fn click_day(&mut self, today: &CalendarDate, slot: u32)
        requires
            slot < 42,
        ensures
            final(self).deep_view() == day_clicked(
                old(self).deep_view(),
                today.deep_view(),
                slot as int,
            ),
    {
        let c: DayCell = self.cell(today, slot);
        if !c.sensitive {
            return;
        }
        let first: u32 = self.displayed.weekday();
        if slot + 1 <= first {
            return;
        }
        let day: u32 = slot + 1 - first;
        if let Some(date) = CalendarDate::from_ymd_opt(
            self.displayed.year(),
            self.displayed.month(),
            day,
        ) {
            if is_day(&self.selected, &date) {
                self.selected = None;
            } else {
                self.selected = Some(date);
            }
        }
    }

    /// The month before is shown.
    pub fn go_back(&mut self)
        ensures
            final(self).deep_view() == (RebaseModel {
                displayed: month_back(old(self).deep_view().displayed),
                ..old(self).deep_view()
            }),
    {
        self.displayed = previous_month(&self.displayed);
    }

    /// The next month is shown.
    pub fn go_on(&mut self)
        ensures
            final(self).deep_view() == (RebaseModel {
                displayed: month_on(old(self).deep_view().displayed),
                ..old(self).deep_view()
            }),
    {
        self.displayed = next_month(&self.displayed);
    }

    /// What is told of the selected build.
    pub fn details(&self) -> (r: Option<Details>)
        ensures
            r.deep_view() == details_view(self.deep_view()),
    {
        match &self.selected {
            None => None,
            Some(day) => match find_build(&self.versions, day) {
                None => None,
                Some(v) => Some(update_details(v, day, &installed(&self.versions))),
            },
        }
    }

    /// What the user is asked before a rebase.
    pub fn ask(
        &self,
        families: &Vec<Family>,
        family: Option<&FamilyInfo>,
        features: &Vec<String>,
    ) -> (r: Option<RebaseQuestion>)
        ensures
            r.deep_view() == question_view(
                self.deep_view(),
                families.deep_view(),
                family_view(family),
                features.deep_view(),
            ),
    {
        match &self.selected {
            None => None,
            Some(day) => match find_build(&self.versions, day) {
                None => None,
                Some(v) => {
                    let target: String = resolve_target_ref(
                        families,
                        v.full_ref.as_str(),
                        family,
                        features,
                    );
                    let body: String = if !text::same(target.as_str(), v.full_ref.as_str()) {
                        text::cat3(
                            "Your system will be rebased to:\n\n",
                            target.as_str(),
                            "\n\nThis is a different image variant than what you're currently running. A restart is required and the full image will be re-downloaded.",
                        )
                    } else {
                        let words: String = day.long();
                        text::cat5(
                            "Your system will be rebased to the ",
                            words.as_str(),
                            " build (version ",
                            v.version.as_str(),
                            ").\n\nThis requires a restart to take effect and will re-download the full image.",
                        )
                    };
                    Some(RebaseQuestion { target, body })
                },
            },
        }
    }
}

// ── What the page is for ─────────────────────────────────────────────────────

/// Whether a build is the last in a list of its day.
pub open spec fn is_build_at(versions: Seq<VersionView>, k: int, day: DateView) -> bool {
    &&& 0 <= k < versions.len()
    &&& versions[k].date == day
    &&& forall|j: int| k < j < versions.len() ==> (#[trigger] versions[j]).date != day
}

proof fn lemma_build_at(versions: Seq<VersionView>, day: DateView)
    ensures
        build_at(versions, day) is None <==> forall|j: int|
            0 <= j < versions.len() ==> (#[trigger] versions[j]).date != day,
        forall|k: int| #[trigger]
            is_build_at(versions, k, day) ==> build_at(versions, day) == Some(versions[k]),
    decreases versions.len(),
{
    if versions.len() > 0 {
        let front = versions.drop_last();
        lemma_build_at(front, day);
        assert(versions[versions.len() - 1] == versions.last());
        assert(forall|j: int| 0 <= j < front.len() ==> #[trigger] front[j] == versions[j]);
        if versions.last().date != day {
            if build_at(front, day) is None {
                assert forall|j: int| 0 <= j < versions.len() implies (#[trigger] versions[j]).date
                    != day by {
                    if j < front.len() {
                        assert(front[j].date != day);
                    }
                }
            } else {
                let j = choose|j: int| 0 <= j < front.len() && (#[trigger] front[j]).date == day;
                assert(versions[j].date == day);
            }
        }
        assert forall|k: int| #[trigger] is_build_at(versions, k, day) implies build_at(
            versions,
            day,
        ) == Some(versions[k]) by {
            if k < front.len() {
                assert(versions[versions.len() - 1].date != day);
                assert forall|j: int| k < j < front.len() implies (#[trigger] front[j]).date
                    != day by {
                    assert(versions[j].date != day);
                }
                assert(is_build_at(front, k, day));
            }
        }
    }
}

/// A day of the month that is shown can be picked exactly where there is a build of it
/// and it is not in the future; its field tells whether it is today, and whether it is
/// selected.
pub proof fn law_day_can_be_picked_where_there_is_a_build(
    m: RebaseModel,
    today: DateView,
    day: int,
)
    requires
        is_date(m.displayed),
        m.displayed.day == 1,
        1 <= day <= shown_days(m.displayed),
        is_date(DateView { day, ..m.displayed }),
    ensures
        ({
            let date = DateView { day, ..m.displayed };
            let slot = day + (day_number(m.displayed) - 1) % 7 - 1;
            let cell = calendar_view(m, today).cells[slot];
            let built = exists|k: int|
                0 <= k < m.versions.len() && (#[trigger] m.versions[k]).date == date;
            &&& cell.available <==> built
            &&& cell.sensitive <==> built && !earlier(today, date)
            &&& cell.today <==> date == today
            &&& cell.selected <==> m.selected == Some(date)
            &&& cell.label == text::decimal(day as nat)
        }),
{
    let date = DateView { day, ..m.displayed };
    law_calendar_shows_every_day(m, today, day);
    lemma_build_at(m.versions, date);
}

/// A click on a day that can be picked selects it, and a second click lets it go again; a
/// click on any other field changes nothing. Neither changes the builds or the month.
pub proof fn law_click_selects_the_day(m: RebaseModel, today: DateView, slot: int)
    ensures
        ({
            let date = DateView { day: day_in(m.displayed, slot), ..m.displayed };
            let once = day_clicked(m, today, slot);
            let cell = cell_view(m, today, slot);
            &&& cell.sensitive && m.selected != Some(date) ==> once.selected == Some(date)
                && day_clicked(once, today, slot).selected is None
            &&& cell.sensitive && m.selected == Some(date) ==> once.selected is None
            &&& !cell.sensitive ==> once == m
            &&& once.versions == m.versions && once.displayed == m.displayed
        }),
{
    let once = day_clicked(m, today, slot);
    if !cell_view(m, today, slot).sensitive {
        assert(once =~= m);
    }
}

/// A recent build that is picked selects its day.
pub proof fn law_recent_build_selects_its_day(m: RebaseModel, i: int)
    requires
        0 <= i < m.versions.len(),
    ensures
        recent_selected(m, i).selected == Some(m.versions[i].date),
        recent_selected(m, i).versions == m.versions,
        recent_selected(m, i).displayed == m.displayed,
{
}

/// The recent builds are the first of the list, at most four, in its order and with
/// their own versions.
pub proof fn law_recent_builds_come_first(versions: Seq<VersionView>, i: int)
    ensures
        recent_rows(versions).len() == if versions.len() < 4 {
            versions.len()
        } else {
            4
        },
        0 <= i < recent_rows(versions).len() ==> recent_rows(versions)[i].subtitle
            == versions[i].version && recent_rows(versions)[i].title == long_text(versions[i].date),
{
}

/// What is told of a selected day is told of the build of that day: its own version,
/// kernel and commit. It can be rebased to unless that day counts as installed.
pub proof fn law_details_are_of_the_selected_build(m: RebaseModel, k: int)
    requires
        m.selected is Some,
        is_build_at(m.versions, k, m.selected->0),
    ensures
        ({
            let v = m.versions[k];
            details_view(m) matches Some(d) && d.version == v.version && d.kernel == v.kernel && (
            v.revision.len() > 0 ==> d.commit == v.revision) && (d.can_rebase <==> v.date
                != m.versions.last().date) && d.built == moment_full_text(v.created)
        }),
{
    lemma_build_at(m.versions, m.selected->0);
}

/// Nothing is told where no day is selected, or none with a build, and nothing is asked.
pub proof fn law_nothing_is_told_of_nothing(
    m: RebaseModel,
    families: Seq<FamilyView>,
    family: Option<FamilyInfoView>,
    features: Seq<Seq<char>>,
)
    requires
        m.selected matches Some(day) ==> forall|j: int|
            0 <= j < m.versions.len() ==> (#[trigger] m.versions[j]).date != day,
    ensures
        details_view(m) is None,
        question_view(m, families, family, features) is None,
{
    if let Some(day) = m.selected {
        lemma_build_at(m.versions, day);
    }
}

/// The question is about the build of the selected day. Without a family, or where the
/// family publishes no image for the features, the system goes to that build itself,
/// which the question names by its version; otherwise to the image of the wanted
/// variant, with the build's own tag, which the question spells out.
pub proof fn law_question_is_about_the_selected_build(
    m: RebaseModel,
    k: int,
    families: Seq<FamilyView>,
    i: int,
    family: FamilyInfoView,
    v: int,
    features: Seq<Seq<char>>,
    place: Seq<char>,
    old_image: Seq<char>,
    tag: Seq<char>,
)
    requires
        m.selected is Some,
        is_build_at(m.versions, k, m.selected->0),
        m.versions[k].full_ref == place + "/"@ + old_image + ":"@ + tag,
        !old_image.contains('/'),
        !tag.contains(':'),
        crate::ui::rebase_dialog::is_family_at(families, i, family.name),
        crate::ui::rebase_dialog::is_variant_for(families[i], v, features),
    ensures
        question_view(m, families, None, features) matches Some(q) && q.target
            == m.versions[k].full_ref && text::holds(q.body, m.versions[k].version),
        question_view(m, families, Some(family), features) matches Some(q) && q.target == place
            + "/"@ + families[i].variants[v].image + ":"@ + tag && (q.target
            != m.versions[k].full_ref ==> text::holds(q.body, q.target)),
{
    lemma_build_at(m.versions, m.selected->0);
    crate::ui::rebase_dialog::law_only_the_image_is_swapped(
        families,
        i,
        family,
        v,
        features,
        place,
        old_image,
        tag,
    );
    let build = m.versions[k];
    let head = "Your system will be rebased to the "@ + long_text(m.selected->0)
        + " build (version "@;
    let tail =
        ").\n\nThis requires a restart to take effect and will re-download the full image."@;
    let body = head + build.version + tail;
    assert(body.subrange(head.len() as int, head.len() + build.version.len() as int)
        =~= build.version);
    assert(text::stands_at(body, build.version, head.len() as int));
    let target = place + "/"@ + families[i].variants[v].image + ":"@ + tag;
    if target != build.full_ref {
        let spelled = question_view(m, families, Some(family), features)->0.body;
        let at = "Your system will be rebased to:\n\n"@.len() as int;
        assert(spelled.subrange(at, at + target.len() as int) =~= target);
        assert(text::stands_at(spelled, target, at));
    }
}

} // verus!
