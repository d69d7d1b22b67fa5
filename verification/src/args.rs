//! Arguments of the program.
use crate::settings::{OverridesView, RuntimeOverrides};
use crate::text;
use vstd::prelude::*;

verus! {

/// What `--help` prints.
pub const USAGE: &'static str = "finupdate — system update frontend for bootc / uupd.

Usage: finupdate [OPTIONS]

Options:
  --dev-mode             Force developer mode for this run (simulated updates,
                         no destructive subprocesses). Overrides settings.json.
  --sim=<scenario>       Pre-select a developer-mode simulation outcome:
                         success | failure | up-to-date. Implies --dev-mode.
  --help, -h             Print this message and exit.

Without flags, finupdate reads developer-mode + simulator state from
settings.json. The hamburger menu no longer exposes these toggles per
HIG (no dev-only state visible to end users); use these flags instead.
";

/// What the arguments mean.
#[derive(Debug)]
pub enum Arguments {
    /// Run, with these overrides.
    Run(RuntimeOverrides),
    /// Print the help and end.
    Help,
    /// Print this as an error, and end with code 2.
    Invalid(String),
}

/// What that is.
#[verifier::ext_equal]
pub enum ArgumentsView {
    Run(OverridesView),
    Help,
    Invalid(Seq<char>),
}

impl DeepView for Arguments {
    type V = ArgumentsView;

    open spec fn deep_view(&self) -> ArgumentsView {
        match self {
            Arguments::Run(o) => ArgumentsView::Run(o.deep_view()),
            Arguments::Help => ArgumentsView::Help,
            Arguments::Invalid(m) => ArgumentsView::Invalid(m@),
        }
    }
}

/// One argument.
#[verifier::ext_equal]
pub enum Word {
    DevMode,
    Help,
    /// A simulated outcome that is known.
    Sim(Seq<char>),
    /// What is printed of an argument that is not known.
    Bad(Seq<char>),
}

/// Whether a simulated outcome is known.
pub open spec fn is_outcome(s: Seq<char>) -> bool {
    s == "success"@ || s == "failure"@ || s == "up-to-date"@
}

/// What is printed of an outcome that is not known.
pub open spec fn bad_outcome(s: Seq<char>) -> Seq<char> {
    "finupdate: invalid --sim scenario '"@ + s + "'\nValid: success | failure | up-to-date\n"@
}

/// What is printed of an argument that is not known.
pub open spec fn bad_argument(arg: Seq<char>) -> Seq<char> {
    "finupdate: unknown argument '"@ + arg + "'\n\n"@ + USAGE@
}

/// What one argument means.
pub open spec fn word_of(arg: Seq<char>) -> Word {
    if arg == "--dev-mode"@ {
        Word::DevMode
    } else if arg == "-h"@ || arg == "--help"@ {
        Word::Help
    } else {
        match text::without_prefix(arg, "--sim="@) {
            Some(s) => if is_outcome(s) {
                Word::Sim(s)
            } else {
                Word::Bad(bad_outcome(s))
            },
            None => Word::Bad(bad_argument(arg)),
        }
    }
}

/// The overrides with developer mode, and perhaps an outcome.
pub open spec fn forced(o: OverridesView, sim: Option<Seq<char>>) -> OverridesView {
    OverridesView {
        dev_mode: Some(true),
        sim_scenario: if sim is Some {
            sim
        } else {
            o.sim_scenario
        },
        ..o
    }
}

/// What arguments mean, after others that gave overrides: the first one that asks
/// for help, or that is not known, decides; of several outcomes the last counts.
pub open spec fn meaning(args: Seq<Seq<char>>, o: OverridesView) -> ArgumentsView
    decreases args.len(),
{
    if args.len() == 0 {
        ArgumentsView::Run(o)
    } else {
        match word_of(args[0]) {
            Word::DevMode => meaning(args.drop_first(), forced(o, None)),
            Word::Sim(s) => meaning(args.drop_first(), forced(o, Some(s))),
            Word::Help => ArgumentsView::Help,
            Word::Bad(m) => ArgumentsView::Invalid(m),
        }
    }
}

/// No override.
pub open spec fn no_overrides() -> OverridesView {
    OverridesView { dev_mode: None, dry_run: None, sim_scenario: None, mock_identity: None }
}

/// What the arguments mean; the name of the program is not among them.
pub fn parse_args(args: &Vec<String>) -> (r: Arguments)
    ensures
        r.deep_view() == meaning(args.deep_view(), no_overrides()),
{
    let mut o: RuntimeOverrides = RuntimeOverrides {
        dev_mode: None,
        dry_run: None,
        sim_scenario: None,
        mock_identity: None,
    };
    let ghost all = args.deep_view();
    let mut i: usize = 0;
    assert(all.skip(0) =~= all);
    assert(o.deep_view() =~= no_overrides());
    while i < args.len()
        invariant
            0 <= i <= args@.len(),
            all == args.deep_view(),
            meaning(all, no_overrides()) == meaning(all.skip(i as int), o.deep_view()),
        decreases args@.len() - i,
    {
        let arg: &str = args[i].as_str();
        assert(all.skip(i as int)[0] == arg@);
        assert(all.skip(i as int).drop_first() =~= all.skip(i + 1));
        if text::same(arg, "--dev-mode") {
            o.dev_mode = Some(true);
        } else if text::same(arg, "-h") || text::same(arg, "--help") {
            return Arguments::Help;
        } else if let Some(s) = text::strip_prefix(arg, "--sim=") {
            let known: bool = text::same(s.as_str(), "success") || text::same(s.as_str(), "failure")
                || text::same(s.as_str(), "up-to-date");
            if !known {
                return Arguments::Invalid(
                    text::cat3(
                        "finupdate: invalid --sim scenario '",
                        s.as_str(),
                        "'\nValid: success | failure | up-to-date\n",
                    ),
                );
            }
            o.sim_scenario = Some(s);
            o.dev_mode = Some(true);
        } else {
            return Arguments::Invalid(
                text::cat4("finupdate: unknown argument '", arg, "'\n\n", USAGE),
            );
        }
        i += 1;
    }
    assert(all.skip(i as int) =~= Seq::<Seq<char>>::empty());
    Arguments::Run(o)
}

/// A simulated outcome implies developer mode, and arguments never force dry
/// runs or another image.
pub proof fn law_outcome_implies_developer_mode(args: Seq<Seq<char>>)
    ensures
        meaning(args, no_overrides()) matches ArgumentsView::Run(o) ==> ({
            &&& o.sim_scenario is Some ==> o.dev_mode == Some(true)
            &&& o.dry_run is None
            &&& o.mock_identity is None
            &&& o.dev_mode != Some(false)
        }),
{
    lemma_outcome(args, no_overrides());
}

proof fn lemma_outcome(args: Seq<Seq<char>>, o: OverridesView)
    requires
        o.sim_scenario is Some ==> o.dev_mode == Some(true),
        o.dry_run is None,
        o.mock_identity is None,
        o.dev_mode != Some(false),
    ensures
        meaning(args, o) matches ArgumentsView::Run(r) ==> ({
            &&& r.sim_scenario is Some ==> r.dev_mode == Some(true)
            &&& r.dry_run is None
            &&& r.mock_identity is None
            &&& r.dev_mode != Some(false)
        }),
    decreases args.len(),
{
    if args.len() > 0 {
        match word_of(args[0]) {
            Word::DevMode => lemma_outcome(args.drop_first(), forced(o, None)),
            Word::Sim(s) => lemma_outcome(args.drop_first(), forced(o, Some(s))),
            _ => {},
        }
    }
}

/// Whether an argument forces something for the run.
pub open spec fn is_flag(arg: Seq<char>) -> bool {
    arg == "--dev-mode"@ || arg == "--sim=success"@ || arg == "--sim=failure"@ || arg
        == "--sim=up-to-date"@
}

proof fn lemma_words(arg: Seq<char>)
    ensures
        arg == "--dev-mode"@ <==> word_of(arg) is DevMode,
        arg == "--sim=success"@ ==> word_of(arg) == Word::Sim("success"@),
        arg == "--sim=failure"@ ==> word_of(arg) == Word::Sim("failure"@),
        arg == "--sim=up-to-date"@ ==> word_of(arg) == Word::Sim("up-to-date"@),
        word_of(arg) is Sim <==> (arg == "--sim=success"@ || arg == "--sim=failure"@ || arg
            == "--sim=up-to-date"@),
        word_of(arg) is Help <==> arg == "-h"@ || arg == "--help"@,
        is_flag(arg) <==> word_of(arg) is DevMode || word_of(arg) is Sim,
{
    reveal_strlit("--dev-mode");
    reveal_strlit("-h");
    reveal_strlit("--help");
    reveal_strlit("--sim=");
    reveal_strlit("--sim=success");
    reveal_strlit("--sim=failure");
    reveal_strlit("--sim=up-to-date");
    reveal_strlit("success");
    reveal_strlit("failure");
    reveal_strlit("up-to-date");
    assert("--dev-mode"@[2] == 'd');
    assert("--help"@[2] == 'h');
    assert("--sim=success"@[2] == 's' && "--sim=failure"@[2] == 's' && "--sim=up-to-date"@[2]
        == 's');
    let p = "--sim="@;
    assert("--sim=success"@.subrange(0, 6) =~= p && "--sim=success"@.skip(6) =~= "success"@);
    assert("--sim=failure"@.subrange(0, 6) =~= p && "--sim=failure"@.skip(6) =~= "failure"@);
    assert("--sim=up-to-date"@.subrange(0, 6) =~= p && "--sim=up-to-date"@.skip(6)
        =~= "up-to-date"@);
    if word_of(arg) is Sim {
        let s = arg.skip(6);
        assert(arg.subrange(0, 6) == p);
        assert(arg =~= p + s);
        assert(p + "success"@ =~= "--sim=success"@);
        assert(p + "failure"@ =~= "--sim=failure"@);
        assert(p + "up-to-date"@ =~= "--sim=up-to-date"@);
    }
}

/// Arguments that all force something start the program, in developer mode as soon as
/// there is one; the last outcome that is named counts.
pub proof fn law_flags_start_the_program(args: Seq<Seq<char>>, o: OverridesView)
    requires
        forall|i: int| 0 <= i < args.len() ==> is_flag(#[trigger] args[i]),
    ensures
        meaning(args, o) matches ArgumentsView::Run(r) && ({
            &&& args.len() > 0 ==> r.dev_mode == Some(true)
            &&& args.len() == 0 ==> r == o
            &&& args.len() > 0 && args.last() == "--sim=success"@ ==> r.sim_scenario == Some(
                "success"@,
            )
            &&& args.len() > 0 && args.last() == "--sim=failure"@ ==> r.sim_scenario == Some(
                "failure"@,
            )
            &&& args.len() > 0 && args.last() == "--sim=up-to-date"@ ==> r.sim_scenario == Some(
                "up-to-date"@,
            )
            &&& (forall|i: int| 0 <= i < args.len() ==> #[trigger] args[i] == "--dev-mode"@)
                ==> r.sim_scenario == o.sim_scenario
        }),
    decreases args.len(),
{
    if args.len() > 0 {
        assert(is_flag(args[0]));
        lemma_words(args[0]);
        lemma_words(args.last());
        let rest = args.drop_first();
        assert forall|i: int| 0 <= i < rest.len() implies is_flag(#[trigger] rest[i]) by {
            assert(is_flag(args[i + 1]));
        }
        let next = match word_of(args[0]) {
            Word::Sim(s) => forced(o, Some(s)),
            _ => forced(o, None),
        };
        law_flags_start_the_program(rest, next);
        if forall|i: int| 0 <= i < args.len() ==> #[trigger] args[i] == "--dev-mode"@ {
            assert(args[0] == "--dev-mode"@);
            assert forall|i: int| 0 <= i < rest.len() implies #[trigger] rest[i]
                == "--dev-mode"@ by {
                assert(args[i + 1] == "--dev-mode"@);
            }
        }
        if rest.len() > 0 {
            assert(rest.last() == args.last());
        }
    }
}

/// The first argument that forces nothing decides: it asks for help, or the program does
/// not start.
pub proof fn law_first_other_argument_decides(args: Seq<Seq<char>>, o: OverridesView, k: int)
    requires
        0 <= k < args.len(),
        !is_flag(args[k]),
        forall|i: int| 0 <= i < k ==> is_flag(#[trigger] args[i]),
    ensures
        args[k] == "-h"@ || args[k] == "--help"@ ==> meaning(args, o) is Help,
        args[k] != "-h"@ && args[k] != "--help"@ ==> meaning(args, o) is Invalid,
    decreases args.len(),
{
    lemma_words(args[0]);
    lemma_words(args[k]);
    if k > 0 {
        assert(is_flag(args[0]));
        let rest = args.drop_first();
        assert forall|i: int| 0 <= i < k - 1 implies is_flag(#[trigger] rest[i]) by {
            assert(is_flag(args[i + 1]));
        }
        let next = match word_of(args[0]) {
            Word::Sim(s) => forced(o, Some(s)),
            _ => forced(o, None),
        };
        law_first_other_argument_decides(rest, next, k - 1);
    }
}

} // verus!
