//! The command line without a window: what each command prints.
use crate::calendar::iso_text;
use crate::registry_client::{AvailableTag, ImageVersion, TagView, VersionView};
use crate::service::{
    error_text, ref_text, FamilyInfo, FamilyInfoView, FeatureView, ImageRef, ServiceError,
};
use crate::text;
use vstd::prelude::*;

verus! {

/// What `help` prints.
pub const USAGE: &'static str = "finupdate-cli — headless image queries via the UpdaterService trait.

Usage: finupdate-cli <command>

Commands:
  status    Show the currently-booted image
  family    Show the detected family and available feature toggles
  versions  List recent dated versions for the booted image
  tags      List published tags for the booted image's stream
  help      Print this help

Environment:
  FINUPDATE_IMAGE   Override detected image (registry/org/image:tag)
";

/// Most builds that are listed.
pub const LISTED_BUILDS: usize = 8;

/// A command.
#[derive(Debug, PartialEq)]
pub enum Command {
    Help,
    Status,
    Family,
    Versions,
    Tags,
    Unknown(String),
}

/// What a command is.
#[verifier::ext_equal]
pub enum CommandView {
    Help,
    Status,
    Family,
    Versions,
    Tags,
    Unknown(Seq<char>),
}

impl DeepView for Command {
    type V = CommandView;

    open spec fn deep_view(&self) -> CommandView {
        match self {
            Command::Help => CommandView::Help,
            Command::Status => CommandView::Status,
            Command::Family => CommandView::Family,
            Command::Versions => CommandView::Versions,
            Command::Tags => CommandView::Tags,
            Command::Unknown(s) => CommandView::Unknown(s@),
        }
    }
}

/// The command that an argument names; without one it is help.
pub open spec fn command_of(arg: Option<Seq<char>>) -> CommandView {
    match arg {
        None => CommandView::Help,
        Some(a) => if a == "help"@ || a == "-h"@ || a == "--help"@ {
            CommandView::Help
        } else if a == "status"@ {
            CommandView::Status
        } else if a == "family"@ {
            CommandView::Family
        } else if a == "versions"@ {
            CommandView::Versions
        } else if a == "tags"@ {
            CommandView::Tags
        } else {
            CommandView::Unknown(a)
        },
    }
}

/// The command that the first argument names.
pub fn parse_command(arg: Option<&str>) -> (r: Command)
    ensures
        r.deep_view() == command_of(
            match arg {
                Some(a) => Some(a@),
                None => None,
            },
        ),
{
    match arg {
        None => Command::Help,
        Some(a) => if text::same(a, "help") || text::same(a, "-h") || text::same(a, "--help") {
            Command::Help
        } else if text::same(a, "status") {
            Command::Status
        } else if text::same(a, "family") {
            Command::Family
        } else if text::same(a, "versions") {
            Command::Versions
        } else if text::same(a, "tags") {
            Command::Tags
        } else {
            Command::Unknown(a.to_string())
        },
    }
}

/// What a command prints, to its output and as an error, and its exit code.
#[derive(Debug, PartialEq)]
pub struct Printed {
    pub out: String,
    pub err: String,
    pub code: u8,
}

/// What that is.
#[verifier::ext_equal]
pub struct PrintedView {
    pub out: Seq<char>,
    pub err: Seq<char>,
    pub code: u8,
}

impl DeepView for Printed {
    type V = PrintedView;

    open spec fn deep_view(&self) -> PrintedView {
        PrintedView { out: self.out@, err: self.err@, code: self.code }
    }
}

/// A command that succeeded.
pub open spec fn says(out: Seq<char>) -> PrintedView {
    PrintedView { out, err: ""@, code: 0 }
}

/// A command that failed.
pub open spec fn fails(words: Seq<char>) -> PrintedView {
    PrintedView { out: ""@, err: "finupdate-cli: "@ + words + "\n"@, code: 1 }
}

fn success(out: String) -> (r: Printed)
    ensures
        r.deep_view() == says(out@),
{
    Printed { out, err: "".to_string(), code: 0 }
}

fn failure(words: &str) -> (r: Printed)
    ensures
        r.deep_view() == fails(words@),
{
    Printed { out: "".to_string(), err: text::cat3("finupdate-cli: ", words, "\n"), code: 1 }
}

/// What help prints.
pub fn cmd_help() -> (r: Printed)
    ensures
        r.deep_view() == says(USAGE@),
{
    success(USAGE.to_string())
}

/// What an unknown command prints.
pub fn cmd_unknown(name: &str) -> (r: Printed)
    ensures
        r.deep_view() == (PrintedView {
            out: ""@,
            err: "finupdate-cli: unknown command '"@ + name@ + "'\n\n"@ + USAGE@,
            code: 2,
        }),
{
    Printed {
        out: "".to_string(),
        err: text::cat4("finupdate-cli: unknown command '", name, "'\n\n", USAGE),
        code: 2,
    }
}

/// What `status` prints.
pub fn cmd_status(image: &Result<ImageRef, ServiceError>) -> (r: Printed)
    ensures
        r.deep_view() == match image {
            Ok(image) => says(ref_text(image.deep_view()) + "\n"@),
            Err(e) => fails("no booted image detected: "@ + error_text(e.deep_view())),
        },
{
    match image {
        Ok(image) => {
            let full: String = image.as_string();
            success(text::cat2(full.as_str(), "\n"))
        },
        Err(e) => {
            let message: String = e.message();
            let words: String = text::cat2("no booted image detected: ", message.as_str());
            failure(words.as_str())
        },
    }
}

/// The lines of features.
pub open spec fn feature_lines(features: Seq<FeatureView>) -> Seq<char>
    decreases features.len(),
{
    if features.len() == 0 {
        ""@
    } else {
        feature_lines(features.drop_last()) + ("  - "@ + features.last().id + " ("@
            + features.last().display_name + ")\n"@)
    }
}

/// What is printed of a family.
pub open spec fn family_lines(f: FamilyInfoView) -> Seq<char> {
    "family: "@ + f.name + "\nbase:   "@ + f.base_image + "\n"@ + if f.features.len() == 0 {
        "features: (none)\n"@
    } else {
        "features:\n"@ + feature_lines(f.features)
    }
}

/// What `family` prints.
pub fn cmd_family(family: &Result<Option<FamilyInfo>, ServiceError>) -> (r: Printed)
    ensures
        r.deep_view() == match family {
            Ok(Some(f)) => says(family_lines(f.deep_view())),
            Ok(None) => fails("booted image is not in KNOWN_FAMILIES"@),
            Err(e) => fails(error_text(e.deep_view())),
        },
{
    match family {
        Ok(Some(f)) => {
            let head: String = text::cat5(
                "family: ",
                f.name.as_str(),
                "\nbase:   ",
                f.base_image.as_str(),
                "\n",
            );
            assert(f.features.deep_view().len() == f.features@.len());
            let tail: String = if f.features.len() == 0 {
                "features: (none)\n".to_string()
            } else {
                let lines: String = print_features(f);
                text::cat2("features:\n", lines.as_str())
            };
            success(text::cat2(head.as_str(), tail.as_str()))
        },
        Ok(None) => failure("booted image is not in KNOWN_FAMILIES"),
        Err(e) => {
            let message: String = e.message();
            failure(message.as_str())
        },
    }
}

fn print_features(f: &FamilyInfo) -> (r: String)
    ensures
        r@ == feature_lines(f.deep_view().features),
{
    let ghost all = f.features.deep_view();
    let mut out: String = "".to_string();
    let mut i: usize = 0;
    assert(all.take(0) =~= Seq::<FeatureView>::empty());
    while i < f.features.len()
        invariant
            0 <= i <= f.features@.len(),
            all == f.features.deep_view(),
            out@ == feature_lines(all.take(i as int)),
        decreases f.features@.len() - i,
    {
        assert(all.take(i + 1).drop_last() =~= all.take(i as int));
        assert(all.take(i + 1).last() == f.features@[i as int].deep_view());
        let line: String = text::cat5(
            "  - ",
            f.features[i].id.as_str(),
            " (",
            f.features[i].display_name.as_str(),
            ")\n",
        );
        out = text::cat2(out.as_str(), line.as_str());
        i += 1;
    }
    assert(all.take(i as int) =~= all);
    out
}

/// The line of a build.
pub open spec fn version_line(v: VersionView) -> Seq<char> {
    iso_text(v.date) + "  "@ + v.version + "  kernel="@ + (if v.kernel.len() == 0 {
        "?"@
    } else {
        v.kernel
    }) + "\n"@
}

/// The lines of builds.
pub open spec fn version_lines(versions: Seq<VersionView>) -> Seq<char>
    decreases versions.len(),
{
    if versions.len() == 0 {
        ""@
    } else {
        version_lines(versions.drop_last()) + version_line(versions.last())
    }
}

fn print_versions(versions: &Vec<ImageVersion>) -> (r: String)
    ensures
        r@ == version_lines(versions.deep_view()),
{
    let ghost all = versions.deep_view();
    let mut out: String = "".to_string();
    let mut i: usize = 0;
    assert(all.take(0) =~= Seq::<VersionView>::empty());
    while i < versions.len()
        invariant
            0 <= i <= versions@.len(),
            all == versions.deep_view(),
            out@ == version_lines(all.take(i as int)),
        decreases versions@.len() - i,
    {
        assert(all.take(i + 1).drop_last() =~= all.take(i as int));
        assert(all.take(i + 1).last() == versions@[i as int].deep_view());
        let date: String = versions[i].date.iso();
        let kernel: &str = if versions[i].kernel.as_str().is_empty() {
            "?"
        } else {
            versions[i].kernel.as_str()
        };
        let line: String = text::cat6(
            date.as_str(),
            "  ",
            versions[i].version.as_str(),
            "  kernel=",
            kernel,
            "\n",
        );
        assert(line@ == version_line(all[i as int]));
        out = text::cat2(out.as_str(), line.as_str());
        i += 1;
    }
    assert(all.take(i as int) =~= all);
    out
}

/// What `versions` prints. The builds are those that the registry told, where it
/// was asked.
pub fn cmd_versions(
    image: &Result<ImageRef, ServiceError>,
    versions: &Result<Vec<ImageVersion>, ServiceError>,
) -> (r: Printed)
    ensures
        r.deep_view() == match (image, versions) {
            (Err(e), _) => fails(error_text(e.deep_view())),
            (Ok(_), Err(e)) => fails(error_text(e.deep_view())),
            (Ok(image), Ok(v)) => if v.deep_view().len() == 0 {
                fails("no versions found for "@ + ref_text(image.deep_view()))
            } else {
                says(version_lines(v.deep_view()))
            },
        },
{
    match image {
        Err(e) => {
            let message: String = e.message();
            failure(message.as_str())
        },
        Ok(image) => match versions {
            Err(e) => {
                let message: String = e.message();
                failure(message.as_str())
            },
            Ok(v) => {
                assert(v.deep_view().len() == v@.len());
                if v.len() == 0 {
                    let full: String = image.as_string();
                    let words: String = text::cat2("no versions found for ", full.as_str());
                    failure(words.as_str())
                } else {
                    success(print_versions(v))
                }
            },
        },
    }
}

/// The lines of tags.
pub open spec fn tag_lines(tags: Seq<TagView>) -> Seq<char>
    decreases tags.len(),
{
    if tags.len() == 0 {
        ""@
    } else {
        tag_lines(tags.drop_last()) + (tags.last().display + "\n"@)
    }
}

fn print_tags(tags: &Vec<AvailableTag>) -> (r: String)
    ensures
        r@ == tag_lines(tags.deep_view()),
{
    let ghost all = tags.deep_view();
    let mut out: String = "".to_string();
    let mut i: usize = 0;
    assert(all.take(0) =~= Seq::<TagView>::empty());
    while i < tags.len()
        invariant
            0 <= i <= tags@.len(),
            all == tags.deep_view(),
            out@ == tag_lines(all.take(i as int)),
        decreases tags@.len() - i,
    {
        assert(all.take(i + 1).drop_last() =~= all.take(i as int));
        assert(all.take(i + 1).last() == tags@[i as int].deep_view());
        let line: String = text::cat2(tags[i].display.as_str(), "\n");
        out = text::cat2(out.as_str(), line.as_str());
        i += 1;
    }
    assert(all.take(i as int) =~= all);
    out
}

/// What `tags` prints. The tags are those that the registry told, where it was
/// asked.
pub fn cmd_tags(
    image: &Result<ImageRef, ServiceError>,
    tags: &Result<Vec<AvailableTag>, ServiceError>,
) -> (r: Printed)
    ensures
        r.deep_view() == match (image, tags) {
            (Err(e), _) => fails(error_text(e.deep_view())),
            (Ok(_), Err(e)) => fails(error_text(e.deep_view())),
            (Ok(_), Ok(t)) => says(tag_lines(t.deep_view())),
        },
{
    match image {
        Err(e) => {
            let message: String = e.message();
            failure(message.as_str())
        },
        Ok(_) => match tags {
            Err(e) => {
                let message: String = e.message();
                failure(message.as_str())
            },
            Ok(t) => success(print_tags(t)),
        },
    }
}

/// Builds and tags are printed one on a line, in their order: what is printed of two lists
/// is what is printed of the one and then of the other.
pub proof fn law_lines_follow_the_list(
    a: Seq<VersionView>,
    b: Seq<VersionView>,
    s: Seq<TagView>,
    t: Seq<TagView>,
)
    ensures
        version_lines(a + b) == version_lines(a) + version_lines(b),
        tag_lines(s + t) == tag_lines(s) + tag_lines(t),
    decreases b.len() + t.len(),
{
    reveal_strlit("");
    if b.len() > 0 {
        law_lines_follow_the_list(a, b.drop_last(), s, t);
        assert((a + b).drop_last() =~= a + b.drop_last());
        assert(version_lines(a + b) =~= version_lines(a) + version_lines(b));
        assert(tag_lines(s + t) == tag_lines(s) + tag_lines(t));
    } else {
        assert(a + b =~= a);
        assert(version_lines(a) + version_lines(b) =~= version_lines(a));
        if t.len() > 0 {
            law_lines_follow_the_list(a, b, s, t.drop_last());
            assert((s + t).drop_last() =~= s + t.drop_last());
            assert(tag_lines(s + t) =~= tag_lines(s) + tag_lines(t));
        } else {
            assert(s + t =~= s);
            assert(tag_lines(s) + tag_lines(t) =~= tag_lines(s));
        }
    }
}

/// A build is printed with its day, its version and its kernel, a tag under the name that
/// is shown.
pub proof fn law_line_tells_the_build(v: VersionView, t: TagView)
    ensures
        text::begins(version_line(v), iso_text(v.date) + "  "@ + v.version),
        v.kernel.len() > 0 ==> text::ends(version_line(v), "kernel="@ + v.kernel + "\n"@),
        version_lines(seq![v]) == version_line(v),
        tag_lines(seq![t]) == t.display.push('\n'),
{
    reveal_strlit("");
    reveal_strlit("\n");
    reveal_strlit("kernel=");
    reveal_strlit("  kernel=");
    let head = iso_text(v.date) + "  "@ + v.version;
    let line = version_line(v);
    assert(line.subrange(0, head.len() as int) =~= head);
    let tail = "kernel="@ + v.kernel + "\n"@;
    if v.kernel.len() > 0 {
        assert(line.subrange(line.len() - tail.len(), line.len() as int) =~= tail);
    }
    assert(seq![v].drop_last() =~= Seq::<VersionView>::empty());
    assert(version_lines(seq![v].drop_last()) =~= ""@);
    assert(version_lines(seq![v]) =~= line);
    assert(seq![t].drop_last() =~= Seq::<TagView>::empty());
    assert(tag_lines(seq![t].drop_last()) =~= ""@);
    assert(tag_lines(seq![t]) =~= t.display.push('\n'));
}

/// What succeeds is printed as output, with the code 0; what fails is told as an error, on a
/// line that ends in its words, with the code 1, and prints nothing else.
pub proof fn law_failure_has_its_code(words: Seq<char>)
    ensures
        says(words).out == words,
        says(words).err.len() == 0,
        says(words).code == 0,
        fails(words).out.len() == 0,
        text::ends(fails(words).err, words.push('\n')),
        fails(words).code == 1,
{
    reveal_strlit("");
    reveal_strlit("\n");
    let err = fails(words).err;
    let tail = words.push('\n');
    assert(err.subrange(err.len() - tail.len(), err.len() as int) =~= tail);
}

/// Each command has its own name, no name means help, and a name that is none is told as it
/// was written.
pub proof fn law_commands_have_names(name: Seq<char>)
    ensures
        command_of(None) is Help,
        command_of(Some(name)) is Status <==> name == "status"@,
        command_of(Some(name)) is Family <==> name == "family"@,
        command_of(Some(name)) is Versions <==> name == "versions"@,
        command_of(Some(name)) is Tags <==> name == "tags"@,
        command_of(Some(name)) is Help <==> name == "help"@ || name == "-h"@ || name == "--help"@,
        command_of(Some(name)) matches CommandView::Unknown(n) ==> n == name,
{
    reveal_strlit("help");
    reveal_strlit("-h");
    reveal_strlit("--help");
    reveal_strlit("status");
    reveal_strlit("family");
    reveal_strlit("versions");
    reveal_strlit("tags");
    assert("help"@[0] == 'h' && "-h"@[0] == '-' && "--help"@[0] == '-' && "status"@[0] == 's'
        && "family"@[0] == 'f' && "versions"@[0] == 'v' && "tags"@[0] == 't');
}

proof fn lemma_feature_line(features: Seq<FeatureView>, i: int)
    requires
        0 <= i < features.len(),
    ensures
        text::holds(feature_lines(features), "  - "@ + features[i].id + " ("@),
    decreases features.len(),
{
    let front = features.drop_last();
    let before = feature_lines(front);
    let last = features.last();
    let all = feature_lines(features);
    let words = "  - "@ + features[i].id + " ("@;
    if i < front.len() {
        assert(front[i] == features[i]);
        lemma_feature_line(front, i);
        let at = choose|at: int| text::stands_at(before, words, at);
        assert(all.subrange(at, at + words.len() as int) =~= before.subrange(
            at,
            at + words.len() as int,
        ));
        assert(text::stands_at(all, words, at));
    } else {
        let at = before.len() as int;
        assert(all.subrange(at, at + words.len() as int) =~= words);
        assert(text::stands_at(all, words, at));
    }
}

/// The family is printed with its name first, and every feature is among what is printed.
pub proof fn law_family_is_printed_whole(f: FamilyInfoView, i: int)
    ensures
        text::begins(family_lines(f), "family: "@ + f.name + "\nbase:   "@ + f.base_image),
        0 <= i < f.features.len() ==> text::holds(
            family_lines(f),
            "  - "@ + f.features[i].id + " ("@,
        ),
{
    let all = family_lines(f);
    let head = "family: "@ + f.name + "\nbase:   "@ + f.base_image;
    assert(all.subrange(0, head.len() as int) =~= head);
    if 0 <= i < f.features.len() {
        lemma_feature_line(f.features, i);
        let lines = feature_lines(f.features);
        let words = "  - "@ + f.features[i].id + " ("@;
        let at = choose|at: int| text::stands_at(lines, words, at);
        let from = all.len() - lines.len() + at;
        assert(all.subrange(from, from + words.len() as int) =~= lines.subrange(
            at,
            at + words.len() as int,
        ));
        assert(text::stands_at(all, words, from));
    }
}

} // verus!
