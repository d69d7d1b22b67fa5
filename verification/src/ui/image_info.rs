//! What the main window tells about the booted image, from the texts that
//! describe it: os-release, image references and tags.
use crate::action_journal::{after_action, Journal};
use crate::privileged::{resolve_argv, resolved, Privilege};
use crate::service::{ImageRef, ImageRefView};
use crate::settings::{overridden, RuntimeOverrides, Settings, SettingsView};
use crate::text;
use crate::ui::host_actions::{plan_silently, silent_plan, Flags, HostPlan, PlanView};
use vstd::prelude::*;

verus! {

// ── os-release ───────────────────────────────────────────────────────────────

/// The value behind a prefix in a line: without double quotes around it, and not
/// empty.
pub open spec fn line_value(line: Seq<char>, prefix: Seq<char>) -> Option<Seq<char>> {
    match text::without_prefix(line, prefix) {
        None => None,
        Some(raw) => {
            let value = text::trim_back(
                text::trim_front(raw, |x: char| x == '"'),
                |x: char| x == '"',
            );
            if value.len() > 0 {
                Some(value)
            } else {
                None
            }
        },
    }
}

fn value_of_line(line: &str, prefix: &str) -> (r: Option<String>)
    ensures
        r.deep_view() == line_value(line@, prefix@),
{
    match text::strip_prefix(line, prefix) {
        None => None,
        Some(raw) => {
            let value: String = text::trim_matches(raw.as_str(), '"');
            if value.as_str().is_empty() {
                None
            } else {
                Some(value)
            }
        },
    }
}

/// The first value behind a prefix among lines.
pub open spec fn first_value(lines: Seq<Seq<char>>, prefix: Seq<char>) -> Option<Seq<char>>
    decreases lines.len(),
{
    if lines.len() == 0 {
        None
    } else {
        match line_value(lines[0], prefix) {
            Some(v) => Some(v),
            None => first_value(lines.drop_first(), prefix),
        }
    }
}

/// The first value of a key in the text of an os-release file.
pub open spec fn os_release_field(content: Seq<char>, key: Seq<char>) -> Option<Seq<char>> {
    first_value(text::lines_of(content), key + "="@)
}

/// The first value of a key in the text of an os-release file.
pub fn parse_os_release_field(content: &str, key: &str) -> (r: Option<String>)
    ensures
        r.deep_view() == os_release_field(content@, key@),
{
    let prefix: String = text::cat2(key, "=");
    let all: Vec<String> = text::lines(content);
    let ghost lines = all.deep_view();
    assert(lines.skip(0) =~= lines);
    let mut i: usize = 0;
    while i < all.len()
        invariant
            0 <= i <= all@.len(),
            lines == all.deep_view(),
            lines == text::lines_of(content@),
            prefix@ == key@ + "="@,
            first_value(lines, prefix@) == first_value(lines.skip(i as int), prefix@),
        decreases all@.len() - i,
    {
        assert(lines.skip(i as int)[0] == all@[i as int]@);
        assert(lines.skip(i as int).drop_first() =~= lines.skip(i + 1));
        if let Some(v) = value_of_line(all[i].as_str(), prefix.as_str()) {
            return Some(v);
        }
        i += 1;
    }
    None
}

/// The two os-release files: that of the host as a sandbox sees it, and that of
/// the system. A file that cannot be read is `None`.
#[derive(Debug)]
pub struct OsRelease {
    pub host: Option<String>,
    pub own: Option<String>,
}

/// What these files are.
#[verifier::ext_equal]
pub struct OsReleaseView {
    pub host: Option<Seq<char>>,
    pub own: Option<Seq<char>>,
}

impl DeepView for OsRelease {
    type V = OsReleaseView;

    open spec fn deep_view(&self) -> OsReleaseView {
        OsReleaseView { host: self.host.deep_view(), own: self.own.deep_view() }
    }
}

/// The value of a key in a file, where it can be read.
pub open spec fn field_in(file: Option<Seq<char>>, key: Seq<char>) -> Option<Seq<char>> {
    match file {
        Some(content) => os_release_field(content, key),
        None => None,
    }
}

/// The value of a key in the first file that has one.
pub open spec fn os_value(files: OsReleaseView, key: Seq<char>) -> Option<Seq<char>> {
    match field_in(files.host, key) {
        Some(v) => Some(v),
        None => field_in(files.own, key),
    }
}

fn field_of(file: &Option<String>, key: &str) -> (r: Option<String>)
    ensures
        r.deep_view() == field_in(file.deep_view(), key@),
{
    match file {
        Some(content) => parse_os_release_field(content.as_str(), key),
        None => None,
    }
}

/// The value of a key in the first file that has one.
pub fn read_os_release_field(files: &OsRelease, key: &str) -> (r: Option<String>)
    ensures
        r.deep_view() == os_value(files.deep_view(), key@),
{
    match field_of(&files.host, key) {
        Some(v) => Some(v),
        None => field_of(&files.own, key),
    }
}

/// Every value behind a prefix among lines.
pub open spec fn all_values(lines: Seq<Seq<char>>, prefix: Seq<char>) -> Seq<Seq<char>>
    decreases lines.len(),
{
    if lines.len() == 0 {
        Seq::empty()
    } else {
        let rest = all_values(lines.drop_last(), prefix);
        match line_value(lines.last(), prefix) {
            Some(v) => rest.push(v),
            None => rest,
        }
    }
}

/// Every logo that a file names.
pub open spec fn logos_in(file: Option<Seq<char>>) -> Seq<Seq<char>> {
    match file {
        Some(content) => all_values(text::lines_of(content), "LOGO="@),
        None => Seq::empty(),
    }
}

/// The names of icons to try for the system's logo, best first.
pub open spec fn logo_candidates(files: OsReleaseView) -> Seq<Seq<char>> {
    logos_in(files.host) + logos_in(files.own) + seq![
        "distributor-logo-symbolic"@,
        "computer-symbolic"@,
    ]
}

fn add_logos(out: &mut Vec<String>, file: &Option<String>)
    ensures
        final(out).deep_view() == old(out).deep_view() + logos_in(file.deep_view()),
{
    let ghost start = out.deep_view();
    match file {
        None => {
            assert(start + Seq::<Seq<char>>::empty() =~= start);
        },
        Some(content) => {
            let all: Vec<String> = text::lines(content.as_str());
            let ghost lines = all.deep_view();
            assert(lines.take(0) =~= Seq::<Seq<char>>::empty());
            assert(start + Seq::<Seq<char>>::empty() =~= start);
            let mut i: usize = 0;
            while i < all.len()
                invariant
                    0 <= i <= all@.len(),
                    lines == all.deep_view(),
                    out.deep_view() == start + all_values(lines.take(i as int), "LOGO="@),
                decreases all@.len() - i,
            {
                assert(lines.take(i + 1).drop_last() =~= lines.take(i as int));
                assert(lines.take(i + 1).last() == all@[i as int]@);
                if let Some(v) = value_of_line(all[i].as_str(), "LOGO=") {
                    let ghost before = out.deep_view();
                    out.push(v);
                    assert(out.deep_view() =~= before.push(v@));
                    assert(out.deep_view() =~= start + all_values(lines.take(i + 1), "LOGO="@));
                }
                i += 1;
            }
            assert(lines.take(i as int) =~= lines);
        },
    }
}

/// The names of icons to try for the system's logo, best first.
pub fn logo_icon_names(files: &OsRelease) -> (r: Vec<String>)
    ensures
        r.deep_view() == logo_candidates(files.deep_view()),
{
    let mut out: Vec<String> = Vec::new();
    assert(out.deep_view() =~= Seq::<Seq<char>>::empty());
    add_logos(&mut out, &files.host);
    add_logos(&mut out, &files.own);
    let ghost named = out.deep_view();
    out.push("distributor-logo-symbolic".to_string());
    out.push("computer-symbolic".to_string());
    assert(out.deep_view() =~= logo_candidates(files.deep_view()));
    out
}

/// The first candidate that the icon theme has.
pub open spec fn first_available(candidates: Seq<Seq<char>>, has: Seq<bool>) -> Seq<char>
    decreases candidates.len(),
{
    if candidates.len() == 0 || has.len() == 0 {
        "computer-symbolic"@
    } else if has[0] {
        candidates[0]
    } else {
        first_available(candidates.drop_first(), has.drop_first())
    }
}

/// The icon of the system's logo: the first candidate that the icon theme has.
/// `has_icon` says so of each, and is empty without a display.
pub fn read_logo_icon_name(candidates: &Vec<String>, has_icon: &Vec<bool>) -> (r: String)
    ensures
        r@ == first_available(candidates.deep_view(), has_icon@),
{
    let ghost all = candidates.deep_view();
    let ghost has = has_icon@;
    assert(all.skip(0) =~= all);
    assert(has.skip(0) =~= has);
    let mut i: usize = 0;
    while i < candidates.len() && i < has_icon.len()
        invariant
            0 <= i <= candidates@.len(),
            i <= has_icon@.len(),
            all == candidates.deep_view(),
            has == has_icon@,
            first_available(all, has) == first_available(all.skip(i as int), has.skip(i as int)),
        decreases candidates@.len() - i,
    {
        assert(all.skip(i as int)[0] == candidates@[i as int]@);
        assert(has.skip(i as int)[0] == has_icon@[i as int]);
        assert(all.skip(i as int).drop_first() =~= all.skip(i + 1));
        assert(has.skip(i as int).drop_first() =~= has.skip(i + 1));
        if has_icon[i] {
            return candidates[i].clone();
        }
        i += 1;
    }
    "computer-symbolic".to_string()
}

// ── Tags and references ──────────────────────────────────────────────────────

/// Whether a text is a date of eight digits.
pub open spec fn is_date_suffix(s: Seq<char>) -> bool {
    s.len() == 8 && forall|i: int| 0 <= i < s.len() ==> text::is_digit(#[trigger] s[i])
}

/// What stands in front of a date behind the last `sep` of a tag.
pub open spec fn before_date(tag: Seq<char>, sep: char) -> Option<Seq<char>> {
    match text::cut_last(tag, sep) {
        Some((stream, suffix)) => if is_date_suffix(suffix) {
            Some(stream)
        } else {
            None
        },
        None => None,
    }
}

/// The stream of a dated tag: what stands in front of a dot or a dash and a date.
pub open spec fn stream_of(tag: Seq<char>) -> Option<Seq<char>> {
    match before_date(tag, '.') {
        Some(stream) => Some(stream),
        None => before_date(tag, '-'),
    }
}

/// The stream of a tag; a tag without a date is its own stream.
pub open spec fn stream_or_tag(tag: Seq<char>) -> Seq<char> {
    match stream_of(tag) {
        Some(stream) => stream,
        None => tag,
    }
}

fn strip_date_behind(tag: &str, sep: char) -> (r: Option<String>)
    ensures
        r.deep_view() == before_date(tag@, sep),
{
    match text::rsplit_once(tag, sep) {
        Some((stream, suffix)) => {
            if text::chars_of(suffix.as_str()).len() == 8 && text::all_digits(suffix.as_str()) {
                Some(stream)
            } else {
                None
            }
        },
        None => None,
    }
}

/// The stream of a dated tag.
pub fn strip_date_suffix(tag: &str) -> (r: Option<String>)
    ensures
        r.deep_view() == stream_of(tag@),
{
    match strip_date_behind(tag, '.') {
        Some(stream) => Some(stream),
        None => strip_date_behind(tag, '-'),
    }
}

/// The stream of a tag; a tag without a date is its own stream.
pub fn stream_tag(tag: &str) -> (r: String)
    ensures
        r@ == stream_or_tag(tag@),
{
    match strip_date_suffix(tag) {
        Some(stream) => stream,
        None => tag.to_string(),
    }
}

/// A stream with a date behind it, after a dot, is a tag of that stream.
pub proof fn law_dated_tag_has_its_stream(stream: Seq<char>, date: Seq<char>)
    requires
        is_date_suffix(date),
    ensures
        stream_of(stream + seq!['.'] + date) == Some(stream),
{
    let tag = stream + seq!['.'] + date;
    assert forall|j: int| stream.len() < j < tag.len() implies tag[j] != '.' by {
        assert(tag[j] == date[j - stream.len() - 1]);
        assert(text::is_digit(date[j - stream.len() - 1]));
    }
    text::lemma_last_index_of(tag, '.', stream.len() as int);
    assert(tag.take(stream.len() as int) =~= stream);
    assert(tag.skip(stream.len() as int + 1) =~= date);
}

/// Name, tag and organisation of an image reference.
#[verifier::ext_equal]
pub struct RefFields {
    pub name: Seq<char>,
    pub tag: Seq<char>,
    pub org: Seq<char>,
}

/// Name, tag and organisation of an image reference, with placeholders for what
/// it lacks.
pub open spec fn ref_fields(r: Seq<char>) -> RefFields {
    if r.len() == 0 {
        RefFields { name: "Unknown"@, tag: "latest"@, org: "unknown"@ }
    } else {
        let (path, tag) = match text::cut_last(r, ':') {
            Some((path, tag)) => (path, tag),
            None => (r, "latest"@),
        };
        let parts = text::pieces(path, '/');
        RefFields {
            name: parts.last(),
            tag,
            org: if parts.len() >= 2 {
                parts[parts.len() - 2]
            } else {
                "unknown"@
            },
        }
    }
}

/// Name, tag and organisation of an image reference.
pub fn parse_image_ref_fields(img_ref: &str) -> (r: (String, String, String))
    ensures
        (RefFields { name: r.0@, tag: r.1@, org: r.2@ }) == ref_fields(img_ref@),
{
    if img_ref.is_empty() {
        return ("Unknown".to_string(), "latest".to_string(), "unknown".to_string());
    }
    let (path, tag) = match text::rsplit_once(img_ref, ':') {
        Some((path, tag)) => (path, tag),
        None => (img_ref.to_string(), "latest".to_string()),
    };
    let parts: Vec<String> = text::split(path.as_str(), '/');
    let ghost all = parts.deep_view();
    let n: usize = parts.len();
    assert(all.last() == parts@[n - 1]@);
    let org: String = if n >= 2 {
        assert(all[n - 2] == parts@[n - 2]@);
        parts[n - 2].clone()
    } else {
        "unknown".to_string()
    };
    (parts[n - 1].clone(), tag, org)
}

/// A text behind its first `docker://`, or all of it where it has none.
pub open spec fn without_transport(uri: Seq<char>) -> Seq<char> {
    if text::holds(uri, "docker://"@) {
        let i = choose|i: int|
            text::stands_at(uri, "docker://"@, i) && forall|j: int|
                0 <= j < i ==> !text::stands_at(uri, "docker://"@, j);
        uri.skip(i + 9)
    } else {
        uri
    }
}

/// Organisation and repository of an image's address: the host in front of them
/// is left out.
pub open spec fn org_repo(uri: Seq<char>) -> Option<(Seq<char>, Seq<char>)> {
    let parts = text::pieces(without_transport(uri), '/');
    if parts.len() >= 3 {
        Some((parts[1], text::joined(parts.skip(2), "/"@)))
    } else if parts.len() == 2 {
        Some((parts[0], parts[1]))
    } else {
        None
    }
}

fn strip_transport(uri: &str) -> (r: String)
    ensures
        r@ == without_transport(uri@),
{
    let v: Vec<char> = text::chars_of(uri);
    let n: usize = v.len();
    match text::find(uri, "docker://") {
        Some(i) => {
            proof {
                reveal_strlit("docker://");
                let k = choose|k: int|
                    text::stands_at(uri@, "docker://"@, k) && forall|j: int|
                        0 <= j < k ==> !text::stands_at(uri@, "docker://"@, j);
                assert(text::stands_at(uri@, "docker://"@, i as int));
                assert(k == i);
                assert(i + 9 <= n);
                assert(v@.subrange(i + 9, n as int) =~= uri@.skip(i + 9));
            }
            text::string_of(&v, i + 9, n)
        },
        None => uri.to_string(),
    }
}

/// Organisation and repository of an image's address.
pub fn parse_org_repo(uri: &str) -> (r: Option<(String, String)>)
    ensures
        r.deep_view() == org_repo(uri@),
{
    let clean: String = strip_transport(uri);
    let parts: Vec<String> = text::split(clean.as_str(), '/');
    let ghost all = parts.deep_view();
    if parts.len() >= 3 {
        assert(all[1] == parts@[1]@);
        Some((parts[1].clone(), text::join(&parts, 2, "/")))
    } else if parts.len() == 2 {
        assert(all[0] == parts@[0]@);
        assert(all[1] == parts@[1]@);
        Some((parts[0].clone(), parts[1].clone()))
    } else {
        None
    }
}

// ── The booted image ─────────────────────────────────────────────────────────

/// Title, address and stream of an image.
pub open spec fn image_title(i: ImageRefView) -> (Seq<char>, Seq<char>, Seq<char>) {
    (
        i.org + "/"@ + i.image,
        i.registry + "/"@ + i.org + "/"@ + i.image,
        stream_or_tag(i.tag),
    )
}

/// What a reference to nothing, or to an image, is.
pub open spec fn image_view(image: Option<&ImageRef>) -> Option<ImageRefView> {
    match image {
        Some(i) => Some(i.deep_view()),
        None => None,
    }
}

/// Title, address and stream of the booted image, where there is one.
pub fn detect_bootc_image_info(image: Option<&ImageRef>) -> (r: Option<(String, String, String)>)
    ensures
        r.deep_view() == match image_view(image) {
            Some(i) => Some(image_title(i)),
            None => None,
        },
{
    match image {
        None => None,
        Some(i) => Some(
            (
                text::cat3(i.org.as_str(), "/", i.image.as_str()),
                text::cat5(i.registry.as_str(), "/", i.org.as_str(), "/", i.image.as_str()),
                stream_tag(i.tag.as_str()),
            ),
        ),
    }
}

/// The address of the booted image.
pub open spec fn registry_uri_of(image: Option<ImageRefView>) -> Option<Seq<char>> {
    match image {
        Some(i) => Some(image_title(i).1),
        None => None,
    }
}

/// The address of the booted image.
pub fn read_registry_uri(image: Option<&ImageRef>) -> (r: Option<String>)
    ensures
        r.deep_view() == registry_uri_of(image_view(image)),
{
    match detect_bootc_image_info(image) {
        Some((_, uri, _)) => Some(uri),
        None => None,
    }
}

/// The stream of the booted image; `latest` where none is known.
pub open spec fn selected_tag_of(image: Option<ImageRefView>) -> Seq<char> {
    match image {
        Some(i) => image_title(i).2,
        None => "latest"@,
    }
}

/// The stream of the booted image; `latest` where none is known.
pub fn read_selected_tag(image: Option<&ImageRef>) -> (r: String)
    ensures
        r@ == selected_tag_of(image_view(image)),
{
    match detect_bootc_image_info(image) {
        Some((_, _, tag)) => tag,
        None => "latest".to_string(),
    }
}

/// The name of the system: as it calls itself, else the title of its image, else
/// the names of its image and variant.
pub open spec fn system_name(files: OsReleaseView, image: Option<ImageRefView>) -> Option<
    Seq<char>,
> {
    match os_value(files, "PRETTY_NAME"@) {
        Some(name) => Some(name),
        None => match image {
            Some(i) => Some(image_title(i).0),
            None => match os_value(files, "IMAGE_ID"@) {
                Some(id) => match os_value(files, "VARIANT_ID"@) {
                    Some(variant) => Some(id + "  ·  "@ + variant),
                    None => Some(id),
                },
                None => None,
            },
        },
    }
}

/// The name of the system.
pub fn read_image_info(files: &OsRelease, image: Option<&ImageRef>) -> (r: Option<String>)
    ensures
        r.deep_view() == system_name(files.deep_view(), image_view(image)),
{
    if let Some(name) = read_os_release_field(files, "PRETTY_NAME") {
        return Some(name);
    }
    if let Some((title, _, _)) = detect_bootc_image_info(image) {
        return Some(title);
    }
    match read_os_release_field(files, "IMAGE_ID") {
        None => None,
        Some(id) => match read_os_release_field(files, "VARIANT_ID") {
            Some(variant) => Some(text::cat3(id.as_str(), "  ·  ", variant.as_str())),
            None => Some(id),
        },
    }
}

// ── The last update ──────────────────────────────────────────────────────────

/// How long ago a file was changed.
#[derive(Debug, Clone, Copy, PartialEq, Eq, Structural)]
pub enum Age {
    /// There is no such file.
    Absent,
    /// It was changed in the future.
    Future,
    /// It was changed this many seconds ago.
    Seconds(u64),
}

/// The text on a run that long ago.
pub open spec fn run_text(seconds: u64) -> Seq<char> {
    let hours = seconds as nat / 3600;
    if hours < 1 {
        "Last update: less than an hour ago"@
    } else if hours < 24 {
        "Last update: "@ + text::decimal(hours) + " hours ago"@
    } else {
        "Last update: "@ + text::decimal(hours / 24) + " days ago"@
    }
}

/// The text on a deployment that long ago.
pub open spec fn deploy_text(seconds: u64) -> Seq<char> {
    let hours = seconds as nat / 3600;
    if hours < 24 {
        "System deployed: "@ + text::decimal(hours) + " hours ago"@
    } else {
        "System deployed: "@ + text::decimal(hours / 24) + " days ago"@
    }
}

/// The text on the last update: from the first mark of a run that exists, which
/// must not lie in the future, else from the age of the deployments.
pub open spec fn last_update(last_run: Age, hidden_last_run: Age, deploy: Age) -> Option<Seq<char>> {
    match last_run {
        Age::Seconds(s) => Some(run_text(s)),
        Age::Future => None,
        Age::Absent => match hidden_last_run {
            Age::Seconds(s) => Some(run_text(s)),
            Age::Future => None,
            Age::Absent => match deploy {
                Age::Seconds(s) => Some(deploy_text(s)),
                _ => None,
            },
        },
    }
}

fn run_words(seconds: u64) -> (r: String)
    ensures
        r@ == run_text(seconds),
{
    let hours: u64 = seconds / 3600;
    if hours < 1 {
        "Last update: less than an hour ago".to_string()
    } else if hours < 24 {
        let n: String = text::number(hours);
        text::cat3("Last update: ", n.as_str(), " hours ago")
    } else {
        let n: String = text::number(hours / 24);
        text::cat3("Last update: ", n.as_str(), " days ago")
    }
}

/// The text on the last update.
pub fn get_last_update_time(last_run: Age, hidden_last_run: Age, deploy: Age) -> (r: Option<String>)
    ensures
        r.deep_view() == last_update(last_run, hidden_last_run, deploy),
{
    match last_run {
        Age::Seconds(s) => Some(run_words(s)),
        Age::Future => None,
        Age::Absent => match hidden_last_run {
            Age::Seconds(s) => Some(run_words(s)),
            Age::Future => None,
            Age::Absent => match deploy {
                Age::Seconds(s) => {
                    let hours: u64 = s / 3600;
                    if hours < 24 {
                        let n: String = text::number(hours);
                        Some(text::cat3("System deployed: ", n.as_str(), " hours ago"))
                    } else {
                        let n: String = text::number(hours / 24);
                        Some(text::cat3("System deployed: ", n.as_str(), " days ago"))
                    }
                },
                _ => None,
            },
        },
    }
}

// ── The update timer ─────────────────────────────────────────────────────────

/// Whether the timer is enabled: as the host says, else as the settings say.
pub open spec fn timer_enabled(answer: Option<Seq<char>>, setting: bool) -> bool {
    match answer {
        Some(out) => if text::trimmed(out) == "enabled"@ {
            true
        } else if text::trimmed(out) == "disabled"@ {
            false
        } else {
            setting
        },
        None => setting,
    }
}

/// Whether automatic updates are on, from what the host printed about its timer;
/// `None` where it could not be asked.
pub fn read_auto_updates_enabled(answer: Option<&str>, setting: bool) -> (r: bool)
    ensures
        r == timer_enabled(
            match answer {
                Some(out) => Some(out@),
                None => None,
            },
            setting,
        ),
{
    match answer {
        Some(out) => {
            let word: String = text::trim(out);
            if text::same(word.as_str(), "enabled") {
                assert("enabled"@ == text::trimmed(out@));
                true
            } else if text::same(word.as_str(), "disabled") {
                false
            } else {
                setting
            }
        },
        None => setting,
    }
}

/// The command that asks about the timer.
pub fn timer_query(flatpak: bool) -> (r: Vec<String>)
    ensures
        r.deep_view() == resolved(
            seq!["systemctl"@, "is-enabled"@, "uupd.timer"@],
            Privilege::Host,
            flatpak,
        ),
{
    let argv: [&str; 3] = ["systemctl", "is-enabled", "uupd.timer"];
    assert(argv.deep_view() =~= seq!["systemctl"@, "is-enabled"@, "uupd.timer"@]);
    resolve_argv(&argv, Privilege::Host, flatpak)
}

/// The command that switches the timer.
pub open spec fn timer_argv(active: bool) -> Seq<Seq<char>> {
    seq![
        "systemctl"@,
        if active {
            "enable"@
        } else {
            "disable"@
        },
        "--now"@,
        "uupd.timer"@,
    ]
}

/// The plan of switching the timer: the command, or none where it is withheld;
/// and its line for the journal.
pub open spec fn timer_plan(journal: Journal, active: bool, flags: Flags, flatpak: bool) -> PlanView {
    silent_plan(
        journal,
        "toggle_timer"@,
        seq![("timer"@, "uupd.timer"@), ("state"@, timer_argv(active)[1])],
        timer_argv(active),
        Privilege::Pkexec,
        flags,
        flatpak,
    )
}

/// Preferences with automatic updates switched, and the plan of switching the
/// timer. The preferences given and returned are those without the overrides of
/// the run.
pub fn apply_auto_updates_setting(
    journal: &mut Journal,
    active: bool,
    kept: &Settings,
    o: Option<&RuntimeOverrides>,
    flatpak: bool,
) -> (r: (Settings, HostPlan))
    ensures
        r.0.deep_view() == (SettingsView { auto_updates: active, ..kept.deep_view() }),
        r.1.deep_view() == ({
            let run = overridden(
                kept.deep_view(),
                match o {
                    Some(o) => Some(o.deep_view()),
                    None => None,
                },
            );
            timer_plan(
                *old(journal),
                active,
                (Flags { dev_mode: run.dev_mode, dry_run: run.dry_run }),
                flatpak,
            )
        }),
        *final(journal) == after_action(*old(journal)),
{
    let mut run: Settings = kept.clone();
    run.apply_overrides(o);
    let mut saved: Settings = kept.clone();
    saved.auto_updates = active;
    let verb: &str = if active {
        "enable"
    } else {
        "disable"
    };
    let mut args: Vec<(String, String)> = Vec::new();
    args.push(("timer".to_string(), "uupd.timer".to_string()));
    args.push(("state".to_string(), verb.to_string()));
    assert(args.deep_view() =~= seq![("timer"@, "uupd.timer"@), ("state"@, timer_argv(active)[1])]);
    let argv: [&str; 4] = ["systemctl", verb, "--now", "uupd.timer"];
    assert(argv.deep_view() =~= timer_argv(active));
    let flags: Flags = Flags { dev_mode: run.dev_mode, dry_run: run.dry_run };
    (saved, plan_silently(journal, "toggle_timer", args, &argv, Privilege::Pkexec, flags, flatpak))
}

/// Switching the timer is recorded with the command that a real run executes, and
/// that command runs exactly where the settings withhold nothing.
pub proof fn law_timer_switch_is_recorded(
    journal: Journal,
    active: bool,
    flags: Flags,
    flatpak: bool,
)
    requires
        journal.enabled,
    ensures
        ({
            let plan = timer_plan(journal, active, flags, flatpak);
            let full = resolved(timer_argv(active), Privilege::Pkexec, flatpak);
            &&& plan.entry matches Some(e) && e.action == "toggle_timer"@ && e.would_run == full
            &&& plan.command == if flags.dev_mode || flags.dry_run {
                None
            } else {
                Some(full)
            }
        }),
{
}

// ── What tags and files are read for ─────────────────────────────────────────

/// Whether a text is eight digits.
pub open spec fn eight_digits(s: Seq<char>) -> bool {
    s.len() == 8 && forall|i: int| 0 <= i < 8 ==> '0' <= #[trigger] s[i] <= '9'
}

proof fn lemma_eight_digits(s: Seq<char>)
    ensures
        eight_digits(s) <==> is_date_suffix(s),
{
    if eight_digits(s) {
        assert forall|i: int| 0 <= i < s.len() implies text::is_digit(#[trigger] s[i]) by {
            assert('0' <= s[i] <= '9');
        }
    }
    if is_date_suffix(s) {
        assert forall|i: int| 0 <= i < 8 implies '0' <= #[trigger] s[i] <= '9' by {
            assert(text::is_digit(s[i]));
        }
    }
}

proof fn lemma_before_date(stream: Seq<char>, sep: char, date: Seq<char>)
    requires
        sep == '.' || sep == '-',
        eight_digits(date),
    ensures
        before_date(stream.push(sep) + date, sep) == Some(stream),
{
    let tag = stream.push(sep) + date;
    lemma_eight_digits(date);
    assert forall|j: int| stream.len() < j < tag.len() implies tag[j] != sep by {
        assert(tag[j] == date[j - stream.len() - 1]);
        assert('0' <= date[j - stream.len() - 1] <= '9');
    }
    text::lemma_last_index_of(tag, sep, stream.len() as int);
    assert(tag.take(stream.len() as int) =~= stream);
    assert(tag.skip(stream.len() as int + 1) =~= date);
}

/// A tag that is a stream with a dot or a dash and eight digits behind it is of that
/// stream, and of no other; it may be any stream.
pub proof fn law_date_behind_a_stream(stream: Seq<char>, sep: char, date: Seq<char>)
    requires
        sep == '.' || sep == '-',
        eight_digits(date),
    ensures
        stream_of(stream.push(sep) + date) == Some(stream),
        stream_or_tag(stream.push(sep) + date) == stream,
{
    let tag = stream.push(sep) + date;
    lemma_before_date(stream, sep, date);
    if sep == '-' {
        text::lemma_last_index_of_bounds(tag, '.');
        let i = text::last_index_of(tag, '.');
        if i >= 0 {
            let suffix = tag.skip(i + 1);
            if i < stream.len() {
                assert(suffix[stream.len() - i - 1] == '-');
                lemma_eight_digits(suffix);
                if is_date_suffix(suffix) {
                    assert('0' <= suffix[stream.len() - i - 1] <= '9');
                }
            } else {
                assert(tag[i] == date[i - stream.len() - 1]);
                assert('0' <= date[i - stream.len() - 1] <= '9');
            }
        }
    }
}

/// A tag that has no such date behind it is its own stream.
pub proof fn law_other_tags_are_streams(tag: Seq<char>)
    requires
        tag.len() < 9 || !eight_digits(tag.skip(tag.len() - 8)) || (tag[tag.len() - 9] != '.'
            && tag[tag.len() - 9] != '-'),
    ensures
        stream_of(tag) is None,
        stream_or_tag(tag) == tag,
{
    text::lemma_last_index_of_bounds(tag, '.');
    text::lemma_last_index_of_bounds(tag, '-');
    let i = text::last_index_of(tag, '.');
    let j = text::last_index_of(tag, '-');
    if i >= 0 {
        lemma_eight_digits(tag.skip(i + 1));
    }
    if j >= 0 {
        lemma_eight_digits(tag.skip(j + 1));
    }
    if i >= 0 && is_date_suffix(tag.skip(i + 1)) {
        assert(i == tag.len() - 9);
    }
    if j >= 0 && is_date_suffix(tag.skip(j + 1)) {
        assert(j == tag.len() - 9);
    }
}

proof fn lemma_quotes(value: Seq<char>, n: nat)
    requires
        value.len() > 0,
        value[0] != '"',
        value.last() != '"',
        n <= 1,
    ensures
        ({
            let q = Seq::new(n, |i: int| '"');
            text::trim_back(
                text::trim_front(q + value + q, |x: char| x == '"'),
                |x: char| x == '"',
            ) == value
        }),
{
    let q = Seq::new(n, |i: int| '"');
    let all = q + value + q;
    let drop = |x: char| x == '"';
    text::lemma_trim_front(all, drop, n as int);
    let rest = all.skip(n as int);
    assert(rest =~= value + q);
    assert(rest[value.len() - 1] == value.last());
    text::lemma_trim_back(rest, drop, value.len() as int);
    assert(rest.take(value.len() as int) =~= value);
}

/// A line `KEY=value` gives the value, with or without quotes round it. A line that
/// does not begin with the key and the sign gives none.
pub proof fn law_field_is_what_stands_behind_its_key(key: Seq<char>, value: Seq<char>, line: Seq<char>)
    requires
        value.len() > 0,
        value[0] != '"',
        value.last() != '"',
    ensures
        line_value(key.push('=') + value, key + "="@) == Some(value),
        line_value(key.push('=').push('"') + value.push('"'), key + "="@) == Some(value),
        !text::begins(line, key + "="@) ==> line_value(line, key + "="@) is None,
{
    reveal_strlit("=");
    let prefix = key + "="@;
    assert(prefix =~= key.push('='));
    let bare = key.push('=') + value;
    assert(bare.subrange(0, prefix.len() as int) =~= prefix);
    assert(bare.skip(prefix.len() as int) =~= value);
    lemma_quotes(value, 0);
    let none = Seq::new(0, |i: int| '"');
    assert(none + value + none =~= value);
    let quoted = key.push('=').push('"') + value.push('"');
    let q = Seq::new(1, |i: int| '"');
    assert(quoted.subrange(0, prefix.len() as int) =~= prefix);
    assert(quoted.skip(prefix.len() as int) =~= q + value + q);
    lemma_quotes(value, 1);
}

/// Of several lines the first that has a value for the key counts, and the file of the
/// host counts before that of the sandbox.
pub proof fn law_first_value_counts(
    lines: Seq<Seq<char>>,
    prefix: Seq<char>,
    i: int,
    files: OsReleaseView,
    key: Seq<char>,
)
    ensures
        0 <= i < lines.len() && line_value(lines[i], prefix) is Some && (forall|j: int|
            0 <= j < i ==> line_value(#[trigger] lines[j], prefix) is None) ==> first_value(
            lines,
            prefix,
        ) == line_value(lines[i], prefix),
        (forall|j: int| 0 <= j < lines.len() ==> line_value(#[trigger] lines[j], prefix) is None)
            <==> first_value(lines, prefix) is None,
        (files.host matches Some(h) ==> os_release_field(h, key) is Some) && files.host is Some
            ==> os_value(files, key) == os_release_field(files.host->0, key),
        files.host is None && files.own is Some ==> os_value(files, key) == os_release_field(
            files.own->0,
            key,
        ),
        files.host is None && files.own is None ==> os_value(files, key) is None,
    decreases lines.len(),
{
    if lines.len() > 0 {
        let rest = lines.drop_first();
        law_first_value_counts(rest, prefix, i - 1, files, key);
        assert(forall|j: int| 0 <= j < rest.len() ==> #[trigger] rest[j] == lines[j + 1]);
        if 0 < i < lines.len() && (forall|j: int|
            0 <= j < i ==> line_value(#[trigger] lines[j], prefix) is None) {
            assert(line_value(lines[0], prefix) is None);
            assert forall|j: int| 0 <= j < i - 1 implies line_value(
                #[trigger] rest[j],
                prefix,
            ) is None by {
                assert(line_value(lines[j + 1], prefix) is None);
            }
        }
        if first_value(lines, prefix) is None {
            assert forall|j: int| 0 <= j < lines.len() implies line_value(
                #[trigger] lines[j],
                prefix,
            ) is None by {
                if j > 0 {
                    assert(line_value(rest[j - 1], prefix) is None);
                }
            }
        }
        if forall|j: int| 0 <= j < lines.len() ==> line_value(#[trigger] lines[j], prefix) is None {
            assert(line_value(lines[0], prefix) is None);
            assert forall|j: int| 0 <= j < rest.len() implies line_value(
                #[trigger] rest[j],
                prefix,
            ) is None by {
                assert(line_value(lines[j + 1], prefix) is None);
            }
        }
    }
}

/// Of a reference `place/org/name:tag` the name, the tag and the organisation are told
/// as they stand. Without a tag it is `latest`.
pub proof fn law_reference_fields(place: Seq<Seq<char>>, org: Seq<char>, name: Seq<char>, tag: Seq<char>)
    requires
        forall|i: int| 0 <= i < place.len() ==> !(#[trigger] place[i]).contains('/'),
        !org.contains('/'),
        !name.contains('/'),
        !tag.contains(':'),
        org.len() > 0,
    ensures
        ref_fields(text::joined(place.push(org).push(name), seq!['/']).push(':') + tag) == (
        RefFields { name, tag, org }),
        !text::joined(place.push(org).push(name), seq!['/']).contains(':') ==> ref_fields(
            text::joined(place.push(org).push(name), seq!['/']),
        ) == (RefFields { name, tag: "latest"@, org }),
{
    let parts = place.push(org).push(name);
    let path = text::joined(parts, seq!['/']);
    assert forall|i: int| 0 <= i < parts.len() implies !(#[trigger] parts[i]).contains('/') by {
        if i < place.len() {
            assert(parts[i] == place[i]);
        }
    }
    text::law_joined_pieces_come_apart(parts, '/');
    let full = path.push(':') + tag;
    assert forall|j: int| path.len() < j < full.len() implies full[j] != ':' by {
        assert(full[j] == tag[j - path.len() - 1]);
    }
    text::lemma_last_index_of(full, ':', path.len() as int);
    assert(full.take(path.len() as int) =~= path);
    assert(full.skip(path.len() as int + 1) =~= tag);
    assert(parts.drop_last() =~= place.push(org));
    assert(path.len() > 0);
    text::lemma_last_index_of_bounds(path, ':');
}

/// The address of an image without a transport is read as registry, organisation and
/// repository; the repository keeps what else stands behind it.
pub proof fn law_address_has_its_repository(registry: Seq<char>, org: Seq<char>, rest: Seq<Seq<char>>)
    requires
        !registry.contains('/'),
        !org.contains('/'),
        rest.len() > 0,
        forall|i: int| 0 <= i < rest.len() ==> !(#[trigger] rest[i]).contains('/'),
        !text::holds(text::joined(seq![registry, org] + rest, seq!['/']), "docker://"@),
        !text::holds(text::joined(seq![org, rest[0]], seq!['/']), "docker://"@),
    ensures
        org_repo(text::joined(seq![registry, org] + rest, seq!['/'])) == Some(
            (org, text::joined(rest, seq!['/'])),
        ),
        org_repo(text::joined(seq![org, rest[0]], seq!['/'])) == Some((org, rest[0])),
{
    reveal_strlit("/");
    let parts = seq![registry, org] + rest;
    assert forall|i: int| 0 <= i < parts.len() implies !(#[trigger] parts[i]).contains('/') by {
        if i >= 2 {
            assert(parts[i] == rest[i - 2]);
        }
    }
    text::law_joined_pieces_come_apart(parts, '/');
    assert(parts.skip(2) =~= rest);
    assert("/"@ =~= seq!['/']);
    let two = seq![org, rest[0]];
    assert(!rest[0].contains('/'));
    text::law_joined_pieces_come_apart(two, '/');
}

/// The booted image is told by organisation and image, is fetched from where its
/// registry has it, and follows the stream of its tag, without a date.
pub proof fn law_booted_image_is_told(image: ImageRefView, stream: Seq<char>, sep: char, date: Seq<char>)
    requires
        sep == '.' || sep == '-',
        eight_digits(date),
        image.tag == stream.push(sep) + date,
    ensures
        registry_uri_of(Some(image)) == Some(
            image.registry.push('/') + image.org.push('/') + image.image,
        ),
        selected_tag_of(Some(image)) == stream,
        image_title(image).0 == image.org.push('/') + image.image,
{
    reveal_strlit("/");
    law_date_behind_a_stream(stream, sep, date);
    assert(image_title(image).1 =~= image.registry.push('/') + image.org.push('/') + image.image);
    assert(image_title(image).0 =~= image.org.push('/') + image.image);
}

/// The age of the last update is told in whole hours up to a day, and in whole days from
/// then on. The record of a run counts before the deployment.
pub proof fn law_age_is_told(s: u64, hidden: Age, deploy: Age)
    ensures
        last_update(Age::Seconds(s), hidden, deploy) == Some(
            if s < 3600 {
                "Last update: less than an hour ago"@
            } else if s < 86400 {
                "Last update: "@ + text::decimal((s / 3600) as nat) + " hours ago"@
            } else {
                "Last update: "@ + text::decimal((s / 86400) as nat) + " days ago"@
            },
        ),
        last_update(Age::Absent, Age::Seconds(s), deploy) == last_update(
            Age::Seconds(s),
            hidden,
            deploy,
        ),
        last_update(Age::Absent, Age::Absent, Age::Seconds(s)) == Some(
            if s < 86400 {
                "System deployed: "@ + text::decimal((s / 3600) as nat) + " hours ago"@
            } else {
                "System deployed: "@ + text::decimal((s / 86400) as nat) + " days ago"@
            },
        ),
        last_update(Age::Absent, Age::Absent, Age::Absent) is None,
{
    assert((s as nat / 3600) / 24 == s as nat / 86400) by (nonlinear_arith);
}

/// The timer is on where the host says "enabled", off where it says "disabled", with any
/// blanks behind it; where it says nothing of the kind, the setting counts.
pub proof fn law_host_knows_the_timer(setting: bool)
    ensures
        timer_enabled(Some("enabled"@), setting),
        timer_enabled(Some("enabled"@.push('\n')), setting),
        !timer_enabled(Some("disabled"@), setting),
        !timer_enabled(Some("disabled"@.push('\n')), setting),
        timer_enabled(None, setting) == setting,
        timer_enabled(Some(""@), setting) == setting,
{
    reveal_strlit("enabled");
    reveal_strlit("disabled");
    reveal_strlit("");
    let drop = |c: char| text::is_blank(c);
    let on = "enabled"@;
    let off = "disabled"@;
    text::lemma_trim_front(on, drop, 0);
    text::lemma_trim_back(on, drop, 7);
    text::lemma_trim_front(off, drop, 0);
    text::lemma_trim_back(off, drop, 8);
    assert(on.skip(0) =~= on && on.take(7) =~= on);
    assert(off.skip(0) =~= off && off.take(8) =~= off);
    let on_line = on.push('\n');
    let off_line = off.push('\n');
    text::lemma_trim_front(on_line, drop, 0);
    text::lemma_trim_back(on_line, drop, 7);
    text::lemma_trim_front(off_line, drop, 0);
    text::lemma_trim_back(off_line, drop, 8);
    assert(on_line.skip(0) =~= on_line && on_line.take(7) =~= on);
    assert(off_line.skip(0) =~= off_line && off_line.take(8) =~= off);
    assert(on.len() != off.len());
    assert(text::trimmed(""@).len() == 0);
}

/// The icon is the first candidate that there is one for; where there is none for any, the
/// one of a computer.
pub proof fn law_first_available_icon_counts(candidates: Seq<Seq<char>>, there: Seq<bool>, k: int)
    ensures
        0 <= k < candidates.len() && k < there.len() && there[k] && (forall|j: int|
            0 <= j < k ==> !#[trigger] there[j]) ==> first_available(candidates, there) == candidates[k],
        (forall|j: int| 0 <= j < there.len() ==> !#[trigger] there[j]) ==> first_available(
            candidates,
            there,
        ) == "computer-symbolic"@,
    decreases candidates.len(),
{
    if candidates.len() > 0 && there.len() > 0 {
        let c = candidates.drop_first();
        let h = there.drop_first();
        law_first_available_icon_counts(c, h, k - 1);
        assert(forall|j: int| 0 <= j < h.len() ==> #[trigger] h[j] == there[j + 1]);
        if 0 < k < candidates.len() && k < there.len() && (forall|j: int|
            0 <= j < k ==> !#[trigger] there[j]) {
            assert(!there[0]);
            assert forall|j: int| 0 <= j < k - 1 implies !#[trigger] h[j] by {
                assert(!there[j + 1]);
            }
        }
        if forall|j: int| 0 <= j < there.len() ==> !#[trigger] there[j] {
            assert(!there[0]);
            assert forall|j: int| 0 <= j < h.len() implies !#[trigger] h[j] by {
                assert(!there[j + 1]);
            }
        }
    }
}

/// The candidates end in the two icons that every system has, and begin with the host's.
pub proof fn law_icons_of_the_host_come_first(host: Seq<char>, own: Option<Seq<char>>, value: Seq<char>)
    requires
        text::lines_of(host).len() == 1,
        line_value(text::lines_of(host)[0], "LOGO="@) == Some(value),
    ensures
        logo_candidates(OsReleaseView { host: Some(host), own })[0] == value,
        logo_candidates(OsReleaseView { host: Some(host), own }).last() == "computer-symbolic"@,
{
    let lines = text::lines_of(host);
    assert(lines.drop_last() =~= Seq::<Seq<char>>::empty());
    assert(all_values(lines.drop_last(), "LOGO="@) =~= Seq::<Seq<char>>::empty());
    assert(all_values(lines, "LOGO="@) =~= seq![value]);
}

/// The name of the system is what it calls itself, before the name of its image, and that
/// before the names that its files give image and variant.
pub proof fn law_system_has_the_name_it_gives_itself(
    files: OsReleaseView,
    image: Option<ImageRefView>,
)
    ensures
        os_value(files, "PRETTY_NAME"@) is Some ==> system_name(files, image) == os_value(
            files,
            "PRETTY_NAME"@,
        ),
        os_value(files, "PRETTY_NAME"@) is None ==> (image matches Some(i) ==> system_name(
            files,
            image,
        ) == Some(i.org.push('/') + i.image)),
        os_value(files, "PRETTY_NAME"@) is None && image is None && os_value(files, "IMAGE_ID"@)
            is None ==> system_name(files, image) is None,
        os_value(files, "PRETTY_NAME"@) is None && image is None && os_value(files, "VARIANT_ID"@)
            is None ==> system_name(files, image) == os_value(files, "IMAGE_ID"@),
{
    reveal_strlit("/");
    if let Some(i) = image {
        assert(i.org + "/"@ + i.image =~= i.org.push('/') + i.image);
    }
}

/// What is known of an image is the image itself.
pub proof fn law_image_is_seen_as_it_is(image: &ImageRef)
    ensures
        image_view(Some(image)) == Some(
            ImageRefView {
                registry: image.registry@,
                org: image.org@,
                image: image.image@,
                tag: image.tag@,
            },
        ),
        image_view(None) is None,
{
}

} // verus!
