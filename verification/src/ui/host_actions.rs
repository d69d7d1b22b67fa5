//! Destructive host operations: which command each runs, when it is withheld,
//! and what the user is told.
use crate::action_journal::{
    after_action, entry_for, reason_of, EntryView, Journal, JournalEntry, Suppressed,
};
use crate::privileged::{privileged, resolved, Exec, HostCommand, Privilege};
use crate::text;
use vstd::prelude::*;

verus! {

/// A short message, and how many seconds it stays.
#[derive(Debug, PartialEq)]
pub struct Toast {
    pub text: String,
    pub timeout: u32,
}

/// What a message is.
#[verifier::ext_equal]
pub struct ToastView {
    pub text: Seq<char>,
    pub timeout: u32,
}

impl DeepView for Toast {
    type V = ToastView;

    open spec fn deep_view(&self) -> ToastView {
        ToastView { text: self.text@, timeout: self.timeout }
    }
}

/// A message of these words.
pub open spec fn toast(words: Seq<char>, timeout: u32) -> ToastView {
    ToastView { text: words, timeout }
}

/// The two settings that withhold commands, as they stand at one moment.
#[derive(Debug, Clone, Copy, PartialEq, Eq, Structural)]
pub struct Flags {
    pub dev_mode: bool,
    pub dry_run: bool,
}

/// Why commands are withheld.
pub open spec fn reason(f: Flags) -> Suppressed {
    reason_of(f.dev_mode, f.dry_run)
}

/// What a host operation does first: messages, a command, and a line for the
/// journal.
#[derive(Debug, PartialEq)]
pub struct HostPlan {
    pub toasts: Vec<Toast>,
    pub command: Option<HostCommand>,
    pub entry: Option<JournalEntry>,
}

/// What that is.
#[verifier::ext_equal]
pub struct PlanView {
    pub toasts: Seq<ToastView>,
    pub command: Option<Seq<Seq<char>>>,
    pub entry: Option<EntryView>,
}

impl DeepView for HostPlan {
    type V = PlanView;

    open spec fn deep_view(&self) -> PlanView {
        PlanView {
            toasts: self.toasts.deep_view(),
            command: match self.command {
                Some(c) => Some(c.argv()),
                None => None,
            },
            entry: self.entry.deep_view(),
        }
    }
}

/// A plan that does nothing but speak.
pub open spec fn only_says(t: ToastView) -> PlanView {
    PlanView { toasts: seq![t], command: None, entry: None }
}

/// The plan for a command that is recorded, and withheld where the settings say
/// so.
pub open spec fn planned(
    journal: Journal,
    action: Seq<char>,
    args: Seq<(Seq<char>, Seq<char>)>,
    argv: Seq<Seq<char>>,
    flags: Flags,
    flatpak: bool,
    before: Seq<ToastView>,
    withheld: ToastView,
) -> PlanView {
    let full = resolved(argv, Privilege::Pkexec, flatpak);
    PlanView {
        toasts: if reason(flags) == Suppressed::No {
            before
        } else {
            before.push(withheld)
        },
        command: if reason(flags) == Suppressed::No {
            Some(full)
        } else {
            None
        },
        entry: entry_for(journal, action, args, full, reason(flags)),
    }
}

/// The plan for a command that is recorded, and withheld where the settings say
/// so, without a word.
pub open spec fn silent_plan(
    journal: Journal,
    action: Seq<char>,
    args: Seq<(Seq<char>, Seq<char>)>,
    argv: Seq<Seq<char>>,
    privilege: Privilege,
    flags: Flags,
    flatpak: bool,
) -> PlanView {
    let full = resolved(argv, privilege, flatpak);
    PlanView {
        toasts: Seq::empty(),
        command: if reason(flags) == Suppressed::No {
            Some(full)
        } else {
            None
        },
        entry: entry_for(journal, action, args, full, reason(flags)),
    }
}

/// How a command of the host ended.
#[derive(Debug, PartialEq)]
pub enum CommandEnd {
    /// It succeeded.
    Success,
    /// It exited with a code, or by a signal, and wrote this to its error output.
    Failed { code: Option<i32>, stderr: String },
    /// It could not be started.
    NotStarted(String),
}

/// What that is.
#[verifier::ext_equal]
pub enum EndView {
    Success,
    Failed { code: Option<i32>, stderr: Seq<char> },
    NotStarted(Seq<char>),
}

impl DeepView for CommandEnd {
    type V = EndView;

    open spec fn deep_view(&self) -> EndView {
        match self {
            CommandEnd::Success => EndView::Success,
            CommandEnd::Failed { code, stderr } => EndView::Failed { code: *code, stderr: stderr@ },
            CommandEnd::NotStarted(e) => EndView::NotStarted(e@),
        }
    }
}

/// The last line of a text, or a default where it has none.
pub open spec fn last_line(s: Seq<char>, default: Seq<char>) -> Seq<char> {
    let all = text::lines_of(s);
    if all.len() > 0 {
        all.last()
    } else {
        default
    }
}

/// The last line of a text, or a default where it has none.
pub fn tail_line(s: &str, default: &str) -> (r: String)
    ensures
        r@ == last_line(s@, default@),
{
    let all: Vec<String> = text::lines(s);
    assert(all.deep_view().len() == all@.len());
    if all.len() > 0 {
        let i: usize = all.len() - 1;
        assert(all.deep_view()[i as int] == all@[i as int]@);
        all[i].clone()
    } else {
        default.to_string()
    }
}

/// The text of a code; that of -1 where there is none.
pub open spec fn code_text(code: Option<i32>) -> Seq<char> {
    text::signed_decimal(
        match code {
            Some(c) => c as int,
            None => -1,
        },
    )
}

/// The text of a code; that of -1 where there is none.
pub fn code_name(code: Option<i32>) -> (r: String)
    ensures
        r@ == code_text(code),
{
    match code {
        Some(c) => text::signed_number(c),
        None => text::signed_number(-1),
    }
}

fn say(list: &mut Vec<Toast>, words: String, timeout: u32)
    ensures
        final(list).deep_view() == old(list).deep_view().push(toast(words@, timeout)),
{
    let ghost before = list.deep_view();
    let t: Toast = Toast { text: words, timeout };
    let ghost tv = t.deep_view();
    list.push(t);
    assert(list.deep_view() =~= before.push(tv));
}

fn plan(
    journal: &mut Journal,
    action: &str,
    args: Vec<(String, String)>,
    argv: &[&str],
    flags: Flags,
    flatpak: bool,
    toasts: Vec<Toast>,
    withheld: String,
    timeout: u32,
) -> (r: HostPlan)
    ensures
        r.deep_view() == planned(
            *old(journal),
            action@,
            args.deep_view(),
            argv.deep_view(),
            flags,
            flatpak,
            toasts.deep_view(),
            toast(withheld@, timeout),
        ),
        *final(journal) == after_action(*old(journal)),
{
    let suppressed: Suppressed = Suppressed::from_flags(flags.dev_mode, flags.dry_run);
    let (exec, entry) = privileged(
        journal,
        action,
        args,
        argv,
        Privilege::Pkexec,
        suppressed,
        flatpak,
    );
    let mut said: Vec<Toast> = toasts;
    match exec {
        Exec::Suppressed => {
            say(&mut said, withheld, timeout);
            HostPlan { toasts: said, command: None, entry }
        },
        Exec::Run(command) => HostPlan { toasts: said, command: Some(command), entry },
    }
}

/// The plan for a command that is recorded, and withheld where the settings say
/// so, without a word.
pub fn plan_silently(
    journal: &mut Journal,
    action: &str,
    args: Vec<(String, String)>,
    argv: &[&str],
    privilege: Privilege,
    flags: Flags,
    flatpak: bool,
) -> (r: HostPlan)
    requires
        argv@.len() > 0,
    ensures
        r.deep_view() == silent_plan(
            *old(journal),
            action@,
            args.deep_view(),
            argv.deep_view(),
            privilege,
            flags,
            flatpak,
        ),
        *final(journal) == after_action(*old(journal)),
{
    assert(argv.deep_view().len() == argv@.len());
    let suppressed: Suppressed = Suppressed::from_flags(flags.dev_mode, flags.dry_run);
    let (exec, entry) = privileged(journal, action, args, argv, privilege, suppressed, flatpak);
    let toasts: Vec<Toast> = Vec::new();
    assert(toasts.deep_view() =~= Seq::<ToastView>::empty());
    match exec {
        Exec::Suppressed => HostPlan { toasts, command: None, entry },
        Exec::Run(command) => HostPlan { toasts, command: Some(command), entry },
    }
}

// ── Factory reset ────────────────────────────────────────────────────────────

/// The command of a factory reset.
pub open spec fn reset_argv() -> Seq<Seq<char>> {
    seq!["bootc"@, "install"@, "reset"@, "--experimental"@, "--apply"@]
}

/// The plan of a factory reset: nothing where the settings came to withhold
/// commands since the user confirmed.
pub open spec fn reset_plan(
    journal: Journal,
    label: Seq<char>,
    at_entry: Flags,
    at_dispatch: Flags,
    flatpak: bool,
) -> PlanView {
    if at_entry.dry_run || at_entry.dev_mode {
        only_says(toast(label + " aborted (settings now in dry-run)"@, 4))
    } else {
        planned(
            journal,
            "factory_reset"@,
            seq![("label"@, label)],
            reset_argv(),
            at_dispatch,
            flatpak,
            seq![toast(label + " starting… (running `bootc install reset`)"@, 4)],
            toast(label + " staged (dry-run, no commands run)"@, 4),
        )
    }
}

/// Begins a factory reset.
pub fn run_bootc_install_reset(
    journal: &mut Journal,
    label: &str,
    at_entry: Flags,
    at_dispatch: Flags,
    flatpak: bool,
) -> (r: HostPlan)
    ensures
        r.deep_view() == reset_plan(*old(journal), label@, at_entry, at_dispatch, flatpak),
        *final(journal) == if at_entry.dry_run || at_entry.dev_mode {
            *old(journal)
        } else {
            after_action(*old(journal))
        },
{
    let mut toasts: Vec<Toast> = Vec::new();
    assert(toasts.deep_view() =~= Seq::<ToastView>::empty());
    if at_entry.dry_run || at_entry.dev_mode {
        say(&mut toasts, text::cat2(label, " aborted (settings now in dry-run)"), 4);
        let r: HostPlan = HostPlan { toasts, command: None, entry: None };
        assert(r.deep_view() =~= only_says(
            toast(label@ + " aborted (settings now in dry-run)"@, 4),
        ));
        return r;
    }
    say(&mut toasts, text::cat2(label, " starting… (running `bootc install reset`)"), 4);
    let ghost said = toasts.deep_view();
    assert(said =~= seq![toast(label@ + " starting… (running `bootc install reset`)"@, 4)]);
    let mut args: Vec<(String, String)> = Vec::new();
    args.push(("label".to_string(), label.to_string()));
    assert(args.deep_view() =~= seq![("label"@, label@)]);
    let argv: [&str; 5] = ["bootc", "install", "reset", "--experimental", "--apply"];
    assert(argv.deep_view() =~= reset_argv());
    plan(
        journal,
        "factory_reset",
        args,
        &argv,
        at_dispatch,
        flatpak,
        toasts,
        text::cat2(label, " staged (dry-run, no commands run)"),
        4,
    )
}

/// What the user is told when a factory reset ended.
pub open spec fn reset_summary(label: Seq<char>, end: EndView) -> ToastView {
    toast(
        match end {
            EndView::Success => label + " complete — reboot to finish"@,
            EndView::Failed { code, stderr } => label + " failed (exit "@ + code_text(code) + "): "@
                + last_line(stderr, ""@),
            EndView::NotStarted(e) => label + " could not start: "@ + e,
        },
        6,
    )
}

/// What the user is told when a factory reset ended.
pub fn install_reset_summary(label: &str, end: &CommandEnd) -> (r: Toast)
    ensures
        r.deep_view() == reset_summary(label@, end.deep_view()),
{
    let words: String = match end {
        CommandEnd::Success => text::cat2(label, " complete — reboot to finish"),
        CommandEnd::Failed { code, stderr } => {
            let code: String = code_name(*code);
            let tail: String = tail_line(stderr.as_str(), "");
            text::cat5(label, " failed (exit ", code.as_str(), "): ", tail.as_str())
        },
        CommandEnd::NotStarted(e) => text::cat3(label, " could not start: ", e.as_str()),
    };
    Toast { text: words, timeout: 6 }
}

// ── Unpin ────────────────────────────────────────────────────────────────────

/// The plan of switching back to a stream.
pub open spec fn unpin_plan(
    journal: Journal,
    registry_uri: Seq<char>,
    stream: Seq<char>,
    flags: Flags,
    flatpak: bool,
) -> PlanView {
    let target = registry_uri + ":"@ + stream;
    planned(
        journal,
        "unpin"@,
        seq![("target"@, target), ("stream"@, stream)],
        seq!["bootc"@, "switch"@, target],
        flags,
        flatpak,
        seq![toast("Unpinning… (switching to :"@ + stream + ")"@, 4)],
        toast("Unpin staged (dry-run, no commands run)"@, 4),
    )
}

/// Begins switching back to a stream.
pub fn run_unpin_to_stream(
    journal: &mut Journal,
    registry_uri: &str,
    stream: &str,
    flags: Flags,
    flatpak: bool,
) -> (r: HostPlan)
    ensures
        r.deep_view() == unpin_plan(*old(journal), registry_uri@, stream@, flags, flatpak),
        *final(journal) == after_action(*old(journal)),
{
    let target: String = text::cat3(registry_uri, ":", stream);
    let ghost tv = target@;
    let mut toasts: Vec<Toast> = Vec::new();
    assert(toasts.deep_view() =~= Seq::<ToastView>::empty());
    say(&mut toasts, text::cat3("Unpinning… (switching to :", stream, ")"), 4);
    let ghost said = toasts.deep_view();
    assert(said =~= seq![toast("Unpinning… (switching to :"@ + stream@ + ")"@, 4)]);
    let mut args: Vec<(String, String)> = Vec::new();
    args.push(("target".to_string(), target.clone()));
    args.push(("stream".to_string(), stream.to_string()));
    assert(args.deep_view() =~= seq![("target"@, tv), ("stream"@, stream@)]);
    let argv: [&str; 3] = ["bootc", "switch", target.as_str()];
    assert(argv.deep_view() =~= seq!["bootc"@, "switch"@, tv]);
    plan(
        journal,
        "unpin",
        args,
        &argv,
        flags,
        flatpak,
        toasts,
        "Unpin staged (dry-run, no commands run)".to_string(),
        4,
    )
}

/// What the user is told when the switch back to a stream ended.
pub open spec fn unpin_summary(target: Seq<char>, end: EndView) -> ToastView {
    toast(
        match end {
            EndView::Success => "Unpinned to "@ + target + " — reboot to apply"@,
            EndView::Failed { code, stderr } => "Unpin failed (exit "@ + code_text(code) + "): "@
                + last_line(stderr, ""@),
            EndView::NotStarted(e) => "Unpin could not start: "@ + e,
        },
        8,
    )
}

/// What the user is told when the switch back to a stream ended.
pub fn unpin_end(target: &str, end: &CommandEnd) -> (r: Toast)
    ensures
        r.deep_view() == unpin_summary(target@, end.deep_view()),
{
    let words: String = match end {
        CommandEnd::Success => text::cat3("Unpinned to ", target, " — reboot to apply"),
        CommandEnd::Failed { code, stderr } => {
            let code: String = code_name(*code);
            let tail: String = tail_line(stderr.as_str(), "");
            text::cat4("Unpin failed (exit ", code.as_str(), "): ", tail.as_str())
        },
        CommandEnd::NotStarted(e) => text::cat2("Unpin could not start: ", e.as_str()),
    };
    Toast { text: words, timeout: 8 }
}

// ── Restart ──────────────────────────────────────────────────────────────────

/// The plan of a restart that was confirmed: asked of the host, or spoken of.
pub open spec fn restart_plan(journal: Journal, flags: Flags, flatpak: bool) -> PlanView {
    PlanView {
        toasts: match reason(flags) {
            Suppressed::No => Seq::empty(),
            Suppressed::DryRun => seq![toast("Reboot suppressed (dry-run)"@, 3)],
            Suppressed::DevMode => seq![toast("Reboot suppressed (developer mode)"@, 3)],
        },
        ..silent_plan(
            journal,
            "reboot"@,
            Seq::empty(),
            seq!["systemctl"@, "reboot"@],
            Privilege::Host,
            flags,
            flatpak,
        )
    }
}

/// Begins a restart that was confirmed.
pub fn restart_host(journal: &mut Journal, flags: Flags, flatpak: bool) -> (r: HostPlan)
    ensures
        r.deep_view() == restart_plan(*old(journal), flags, flatpak),
        *final(journal) == after_action(*old(journal)),
{
    let args: Vec<(String, String)> = Vec::new();
    assert(args.deep_view() =~= Seq::<(Seq<char>, Seq<char>)>::empty());
    let argv: [&str; 2] = ["systemctl", "reboot"];
    assert(argv.deep_view() =~= seq!["systemctl"@, "reboot"@]);
    let mut plan: HostPlan = plan_silently(
        journal,
        "reboot",
        args,
        &argv,
        Privilege::Host,
        flags,
        flatpak,
    );
    match Suppressed::from_flags(flags.dev_mode, flags.dry_run) {
        Suppressed::No => {},
        Suppressed::DryRun => {
            say(&mut plan.toasts, "Reboot suppressed (dry-run)".to_string(), 3);
        },
        Suppressed::DevMode => {
            say(&mut plan.toasts, "Reboot suppressed (developer mode)".to_string(), 3);
        },
    }
    assert(plan.deep_view() =~= restart_plan(*old(journal), flags, flatpak));
    plan
}

// ── Reboot tonight ───────────────────────────────────────────────────────────

/// The plan of a reboot at two in the night.
pub open spec fn reboot_plan(journal: Journal, flags: Flags, flatpak: bool) -> PlanView {
    planned(
        journal,
        "schedule_reboot"@,
        seq![("when"@, "02:00"@)],
        seq!["shutdown"@, "-r"@, "02:00"@],
        flags,
        flatpak,
        Seq::empty(),
        toast("Restart scheduled for 02:00 (dry-run)"@, 4),
    )
}

/// Begins to schedule a reboot at two in the night.
pub fn schedule_reboot_tonight(journal: &mut Journal, flags: Flags, flatpak: bool) -> (r: HostPlan)
    ensures
        r.deep_view() == reboot_plan(*old(journal), flags, flatpak),
        *final(journal) == after_action(*old(journal)),
{
    let toasts: Vec<Toast> = Vec::new();
    assert(toasts.deep_view() =~= Seq::<ToastView>::empty());
    let mut args: Vec<(String, String)> = Vec::new();
    args.push(("when".to_string(), "02:00".to_string()));
    assert(args.deep_view() =~= seq![("when"@, "02:00"@)]);
    let argv: [&str; 3] = ["shutdown", "-r", "02:00"];
    assert(argv.deep_view() =~= seq!["shutdown"@, "-r"@, "02:00"@]);
    plan(
        journal,
        "schedule_reboot",
        args,
        &argv,
        flags,
        flatpak,
        toasts,
        "Restart scheduled for 02:00 (dry-run)".to_string(),
        4,
    )
}

/// What the user is told when scheduling ended.
pub open spec fn reboot_summary(end: EndView) -> ToastView {
    toast(
        match end {
            EndView::Success => "Restart scheduled for 02:00 — `sudo shutdown -c` to cancel"@,
            EndView::Failed { code, stderr } => "Couldn't schedule restart (exit "@ + code_text(
                code,
            ) + "): "@ + last_line(stderr, ""@),
            EndView::NotStarted(e) => "Couldn't schedule restart: "@ + e,
        },
        6,
    )
}

/// What the user is told when scheduling ended.
pub fn reboot_scheduled(end: &CommandEnd) -> (r: Toast)
    ensures
        r.deep_view() == reboot_summary(end.deep_view()),
{
    let words: String = match end {
        CommandEnd::Success =>
            "Restart scheduled for 02:00 — `sudo shutdown -c` to cancel".to_string(),
        CommandEnd::Failed { code, stderr } => {
            let code: String = code_name(*code);
            let tail: String = tail_line(stderr.as_str(), "");
            text::cat4("Couldn't schedule restart (exit ", code.as_str(), "): ", tail.as_str())
        },
        CommandEnd::NotStarted(e) => text::cat2("Couldn't schedule restart: ", e.as_str()),
    };
    Toast { text: words, timeout: 6 }
}

// ── Powerwash ────────────────────────────────────────────────────────────────

/// Whether a powerwash begins, and what the user is told.
pub open spec fn powerwash_start(flags: Flags) -> (bool, ToastView) {
    if flags.dry_run || flags.dev_mode {
        (false, toast("Powerwash aborted (settings now in dry-run)"@, 4))
    } else {
        (true, toast("Powerwash starting… (uninstalling apps and containers)"@, 4))
    }
}

/// Begins a powerwash, unless the settings came to withhold commands since the
/// user confirmed.
pub fn run_powerwash(flags: Flags) -> (r: (bool, Toast))
    ensures
        (r.0, r.1.deep_view()) == powerwash_start(flags),
{
    if flags.dry_run || flags.dev_mode {
        (
            false,
            Toast {
                text: "Powerwash aborted (settings now in dry-run)".to_string(),
                timeout: 4,
            },
        )
    } else {
        (
            true,
            Toast {
                text: "Powerwash starting… (uninstalling apps and containers)".to_string(),
                timeout: 4,
            },
        )
    }
}

/// A step of a powerwash: its name and its command.
#[derive(Debug, PartialEq)]
pub struct WashStep {
    pub label: String,
    pub argv: Vec<String>,
}

impl DeepView for WashStep {
    type V = (Seq<char>, Seq<Seq<char>>);

    open spec fn deep_view(&self) -> (Seq<char>, Seq<Seq<char>>) {
        (self.label@, self.argv.deep_view())
    }
}

/// The steps of a powerwash. Each runs whether or not the one before it
/// succeeded; none touches the home directory or the system image.
pub open spec fn wash_steps() -> Seq<(Seq<char>, Seq<Seq<char>>)> {
    seq![
        (
            "flatpak uninstall (user)"@,
            seq!["flatpak"@, "uninstall"@, "--user"@, "--all"@, "-y"@],
        ),
        ("distrobox rm -fa"@, seq!["distrobox"@, "rm"@, "-f"@, "-a"@]),
    ]
}

/// The steps of a powerwash.
pub fn powerwash_steps() -> (r: Vec<WashStep>)
    ensures
        r.deep_view() == wash_steps(),
{
    let mut a: Vec<String> = Vec::new();
    a.push("flatpak".to_string());
    a.push("uninstall".to_string());
    a.push("--user".to_string());
    a.push("--all".to_string());
    a.push("-y".to_string());
    assert(a.deep_view() =~= wash_steps()[0].1);
    let mut b: Vec<String> = Vec::new();
    b.push("distrobox".to_string());
    b.push("rm".to_string());
    b.push("-f".to_string());
    b.push("-a".to_string());
    assert(b.deep_view() =~= wash_steps()[1].1);
    let mut r: Vec<WashStep> = Vec::new();
    r.push(WashStep { label: "flatpak uninstall (user)".to_string(), argv: a });
    r.push(WashStep { label: "distrobox rm -fa".to_string(), argv: b });
    assert(r.deep_view() =~= wash_steps());
    r
}

/// Begins a step: the command of the host, which is recorded, or nothing where
/// it is withheld.
pub fn run_host_command(
    journal: &mut Journal,
    label: &str,
    args: &[&str],
    flags: Flags,
    flatpak: bool,
) -> (r: (Exec, Option<JournalEntry>))
    requires
        args@.len() > 0,
    ensures
        match r.0 {
            Exec::Run(command) => reason(flags) == Suppressed::No && command.argv() == resolved(
                args.deep_view(),
                Privilege::Host,
                flatpak,
            ),
            Exec::Suppressed => reason(flags) != Suppressed::No,
        },
        r.1.deep_view() == entry_for(
            *old(journal),
            label@,
            seq![("step"@, label@)],
            resolved(args.deep_view(), Privilege::Host, flatpak),
            reason(flags),
        ),
        *final(journal) == after_action(*old(journal)),
{
    let suppressed: Suppressed = Suppressed::from_flags(flags.dev_mode, flags.dry_run);
    let mut named: Vec<(String, String)> = Vec::new();
    named.push(("step".to_string(), label.to_string()));
    assert(named.deep_view() =~= seq![("step"@, label@)]);
    assert(args.deep_view().len() == args@.len());
    privileged(journal, label, named, args, Privilege::Host, suppressed, flatpak)
}

/// How a step ended: whether it succeeded, and the tail of its error output.
/// A withheld step counts as a success.
pub open spec fn step_result(end: Option<EndView>) -> (bool, Seq<char>) {
    match end {
        None => (true, ""@),
        Some(EndView::Success) => (true, ""@),
        Some(EndView::Failed { code, stderr }) => (false, last_line(stderr, "(no stderr)"@)),
        Some(EndView::NotStarted(e)) => (false, e),
    }
}

/// How a step ended.
pub fn host_command_result(end: &Option<CommandEnd>) -> (r: (bool, String))
    ensures
        (r.0, r.1@) == step_result(end.deep_view()),
{
    match end {
        None => (true, "".to_string()),
        Some(CommandEnd::Success) => (true, "".to_string()),
        Some(CommandEnd::Failed { code: _, stderr }) => (
            false,
            tail_line(stderr.as_str(), "(no stderr)"),
        ),
        Some(CommandEnd::NotStarted(e)) => (false, e.clone()),
    }
}

/// What a step that ended is.
#[verifier::ext_equal]
pub struct StepEndView {
    pub label: Seq<char>,
    pub ok: bool,
    pub error: Seq<char>,
}

/// A step that ended.
#[derive(Debug, PartialEq)]
pub struct StepEnd {
    pub label: String,
    pub ok: bool,
    pub error: String,
}

impl DeepView for StepEnd {
    type V = StepEndView;

    open spec fn deep_view(&self) -> StepEndView {
        StepEndView { label: self.label@, ok: self.ok, error: self.error@ }
    }
}

/// Each failed step with its error, in order.
pub open spec fn failures(steps: Seq<StepEndView>) -> Seq<Seq<char>>
    decreases steps.len(),
{
    if steps.len() == 0 {
        Seq::empty()
    } else {
        let rest = failures(steps.drop_last());
        let s = steps.last();
        if s.ok {
            rest
        } else {
            rest.push(s.label + ": "@ + s.error)
        }
    }
}

/// What the user is told when a powerwash ended.
pub open spec fn wash_summary(steps: Seq<StepEndView>) -> ToastView {
    toast(
        if failures(steps).len() == 0 {
            "Powerwash complete — apps and containers cleared"@
        } else {
            "Powerwash finished with errors — "@ + text::joined(failures(steps), "; "@)
        },
        6,
    )
}

/// What the user is told when a powerwash ended.
pub fn powerwash_summary(steps: &Vec<StepEnd>) -> (r: Toast)
    ensures
        r.deep_view() == wash_summary(steps.deep_view()),
{
    let ghost all = steps.deep_view();
    let mut failed: Vec<String> = Vec::new();
    let mut i: usize = 0;
    assert(all.take(0) =~= Seq::<StepEndView>::empty());
    assert(failed.deep_view() =~= Seq::<Seq<char>>::empty());
    while i < steps.len()
        invariant
            0 <= i <= steps@.len(),
            all == steps.deep_view(),
            failed.deep_view() == failures(all.take(i as int)),
        decreases steps@.len() - i,
    {
        let s: &StepEnd = &steps[i];
        assert(all.take(i + 1).drop_last() =~= all.take(i as int));
        assert(all.take(i + 1).last() == s.deep_view());
        if !s.ok {
            let line: String = text::cat3(s.label.as_str(), ": ", s.error.as_str());
            let ghost before = failed.deep_view();
            failed.push(line);
            assert(failed.deep_view() =~= before.push(line@));
        }
        i += 1;
    }
    assert(all.take(i as int) =~= all);
    assert(failed.deep_view().len() == failed@.len());
    if failed.len() == 0 {
        Toast {
            text: "Powerwash complete — apps and containers cleared".to_string(),
            timeout: 6,
        }
    } else {
        assert(failed.deep_view().skip(0) =~= failed.deep_view());
        let list: String = text::join(&failed, 0, "; ");
        Toast { text: text::cat2("Powerwash finished with errors — ", list.as_str()), timeout: 6 }
    }
}

/// A powerwash is told to be complete exactly where every step succeeded.
pub proof fn law_powerwash_is_complete_iff_every_step_succeeded(steps: Seq<StepEndView>)
    ensures
        (failures(steps).len() == 0) <==> (forall|i: int|
            0 <= i < steps.len() ==> (#[trigger] steps[i]).ok),
    decreases steps.len(),
{
    if steps.len() > 0 {
        law_powerwash_is_complete_iff_every_step_succeeded(steps.drop_last());
        let init = steps.drop_last();
        assert forall|i: int| 0 <= i < init.len() implies init[i] == #[trigger] steps[i] by {}
        if steps.last().ok && failures(init).len() == 0 {
            assert forall|i: int| 0 <= i < steps.len() implies (#[trigger] steps[i]).ok by {
                if i < init.len() {
                    assert(init[i].ok);
                }
            }
        }
        if forall|i: int| 0 <= i < steps.len() ==> (#[trigger] steps[i]).ok {
            assert(steps[steps.len() - 1].ok);
            assert forall|i: int| 0 <= i < init.len() implies (#[trigger] init[i]).ok by {
                assert(steps[i].ok);
            }
        }
    }
}

/// No destructive command runs while the settings withhold commands.
pub proof fn law_withheld_means_no_command(
    journal: Journal,
    label: Seq<char>,
    registry_uri: Seq<char>,
    stream: Seq<char>,
    at_entry: Flags,
    flags: Flags,
    flatpak: bool,
)
    requires
        flags.dry_run || flags.dev_mode,
    ensures
        reset_plan(journal, label, at_entry, flags, flatpak).command is None,
        reset_plan(journal, label, flags, at_entry, flatpak).command is None,
        unpin_plan(journal, registry_uri, stream, flags, flatpak).command is None,
        reboot_plan(journal, flags, flatpak).command is None,
        restart_plan(journal, flags, flatpak).command is None,
        !powerwash_start(flags).0,
{
}

/// Each of these operations is recorded with the command that a real run
/// executes, whether it runs or is withheld.
pub proof fn law_operations_are_recorded(
    journal: Journal,
    label: Seq<char>,
    registry_uri: Seq<char>,
    stream: Seq<char>,
    flags: Flags,
    flatpak: bool,
)
    requires
        journal.enabled,
    ensures
        ({
            let plan = restart_plan(journal, flags, flatpak);
            plan.entry matches Some(e) && e.action == "reboot"@ && e.would_run == resolved(
                seq!["systemctl"@, "reboot"@],
                Privilege::Host,
                flatpak,
            ) && (plan.command matches Some(c) ==> c == e.would_run)
        }),
        ({
            let plan = reboot_plan(journal, flags, flatpak);
            plan.entry matches Some(e) && e.action == "schedule_reboot"@ && e.would_run == resolved(
                seq!["shutdown"@, "-r"@, "02:00"@],
                Privilege::Pkexec,
                flatpak,
            ) && (plan.command matches Some(c) ==> c == e.would_run)
        }),
        ({
            let plan = unpin_plan(journal, registry_uri, stream, flags, flatpak);
            plan.entry matches Some(e) && e.action == "unpin"@ && e.would_run == resolved(
                seq!["bootc"@, "switch"@, registry_uri + ":"@ + stream],
                Privilege::Pkexec,
                flatpak,
            ) && (plan.command matches Some(c) ==> c == e.would_run)
        }),
        ({
            let open = Flags { dev_mode: false, dry_run: false };
            let plan = reset_plan(journal, label, open, flags, flatpak);
            plan.entry matches Some(e) && e.action == "factory_reset"@ && e.would_run == resolved(
                reset_argv(),
                Privilege::Pkexec,
                flatpak,
            ) && (plan.command matches Some(c) ==> c == e.would_run)
        }),
{
}

/// Where the settings withhold nothing, each operation runs the command it is for, on the
/// host, with the target it was given.
pub proof fn law_operations_run_their_command(
    journal: Journal,
    label: Seq<char>,
    registry_uri: Seq<char>,
    stream: Seq<char>,
)
    ensures
        ({
            let open = Flags { dev_mode: false, dry_run: false };
            &&& restart_plan(journal, open, false).command == Some(
                seq!["systemctl"@, "reboot"@],
            )
            &&& reboot_plan(journal, open, false).command == Some(
                seq!["pkexec"@, "shutdown"@, "-r"@, "02:00"@],
            )
            &&& unpin_plan(journal, registry_uri, stream, open, false).command == Some(
                seq!["pkexec"@, "bootc"@, "switch"@, registry_uri.push(':') + stream],
            )
            &&& reset_plan(journal, label, open, open, false).command == Some(
                seq!["pkexec"@, "bootc"@, "install"@, "reset"@, "--experimental"@, "--apply"@],
            )
            &&& restart_plan(journal, open, true).command == Some(
                seq!["flatpak-spawn"@, "--host"@, "systemctl"@, "reboot"@],
            )
            &&& unpin_plan(journal, registry_uri, stream, open, true).command == Some(
                seq![
                    "flatpak-spawn"@,
                    "--host"@,
                    "pkexec"@,
                    "bootc"@,
                    "switch"@,
                    registry_uri.push(':') + stream,
                ],
            )
            &&& powerwash_start(open).0
        }),
{
    reveal_strlit(":");
    let open = Flags { dev_mode: false, dry_run: false };
    let target = registry_uri + ":"@ + stream;
    assert(target =~= registry_uri.push(':') + stream);
    crate::privileged::law_command_leaves_the_sandbox(seq!["systemctl"@, "reboot"@]);
    crate::privileged::law_command_leaves_the_sandbox(seq!["shutdown"@, "-r"@, "02:00"@]);
    crate::privileged::law_command_leaves_the_sandbox(seq!["bootc"@, "switch"@, target]);
    crate::privileged::law_command_leaves_the_sandbox(reset_argv());
    assert(seq!["flatpak-spawn"@, "--host"@] + seq!["systemctl"@, "reboot"@] =~= seq![
        "flatpak-spawn"@,
        "--host"@,
        "systemctl"@,
        "reboot"@,
    ]);
    assert(seq!["pkexec"@] + seq!["shutdown"@, "-r"@, "02:00"@] =~= seq![
        "pkexec"@,
        "shutdown"@,
        "-r"@,
        "02:00"@,
    ]);
    assert(seq!["pkexec"@] + seq!["bootc"@, "switch"@, target] =~= seq![
        "pkexec"@,
        "bootc"@,
        "switch"@,
        target,
    ]);
    assert(seq!["flatpak-spawn"@, "--host"@, "pkexec"@] + seq!["bootc"@, "switch"@, target]
        =~= seq!["flatpak-spawn"@, "--host"@, "pkexec"@, "bootc"@, "switch"@, target]);
    assert(seq!["pkexec"@] + reset_argv() =~= seq![
        "pkexec"@,
        "bootc"@,
        "install"@,
        "reset"@,
        "--experimental"@,
        "--apply"@,
    ]);
}

proof fn lemma_ends(head: Seq<char>, tail: Seq<char>)
    ensures
        text::ends(head + tail, tail),
        text::begins(head + tail, head),
{
    let all = head + tail;
    assert(all.subrange(all.len() - tail.len(), all.len() as int) =~= tail);
    assert(all.subrange(0, head.len() as int) =~= head);
}

/// What the user is told of a command that failed ends in the last line of what it said,
/// or in why it could not start; of one that succeeded, in what is left to do.
pub proof fn law_failure_is_told(label: Seq<char>, target: Seq<char>, code: i32, said: Seq<char>)
    ensures
        ({
            let failed = EndView::Failed { code: Some(code), stderr: said };
            let tail = text::signed_decimal(code as int) + "): "@ + last_line(said, ""@);
            &&& text::ends(reset_summary(label, failed).text, tail)
            &&& text::ends(unpin_summary(target, failed).text, tail)
            &&& text::ends(reboot_summary(failed).text, tail)
            &&& text::ends(reset_summary(label, EndView::NotStarted(said)).text, said)
            &&& text::ends(unpin_summary(target, EndView::NotStarted(said)).text, said)
            &&& text::ends(reboot_summary(EndView::NotStarted(said)).text, said)
            &&& text::ends(reset_summary(label, EndView::Success).text, "reboot to finish"@)
            &&& text::ends(unpin_summary(target, EndView::Success).text, "reboot to apply"@)
            &&& text::begins(reset_summary(label, EndView::Success).text, label)
            &&& text::begins(reset_summary(label, failed).text, label + " failed"@)
        }),
{
    let last = last_line(said, ""@);
    let n = text::signed_decimal(code as int);
    let tail = n + "): "@ + last;
    assert(code_text(Some(code)) == n);
    lemma_ends(label + " failed (exit "@, tail);
    assert(label + " failed (exit "@ + n + "): "@ + last =~= label + " failed (exit "@ + tail);
    lemma_ends("Unpin failed (exit "@, tail);
    assert("Unpin failed (exit "@ + n + "): "@ + last =~= "Unpin failed (exit "@ + tail);
    lemma_ends("Couldn't schedule restart (exit "@, tail);
    assert("Couldn't schedule restart (exit "@ + n + "): "@ + last
        =~= "Couldn't schedule restart (exit "@ + tail);
    lemma_ends(label + " could not start: "@, said);
    lemma_ends("Unpin could not start: "@, said);
    lemma_ends("Couldn't schedule restart: "@, said);
    reveal_strlit(" complete — reboot to finish");
    reveal_strlit("reboot to finish");
    reveal_strlit(" — reboot to apply");
    reveal_strlit("reboot to apply");
    reveal_strlit(" failed");
    reveal_strlit(" failed (exit ");
    let done = label + " complete — reboot to finish"@;
    assert(done.subrange(done.len() - 16, done.len() as int) =~= "reboot to finish"@);
    lemma_ends(label, " complete — reboot to finish"@);
    let unpinned = "Unpinned to "@ + target + " — reboot to apply"@;
    assert(unpinned.subrange(unpinned.len() - 15, unpinned.len() as int) =~= "reboot to apply"@);
    let broken = reset_summary(label, EndView::Failed { code: Some(code), stderr: said }).text;
    assert(broken.subrange(0, label.len() as int + 7) =~= label + " failed"@);
}

/// The last line of a text is what stands behind its last line feed; a text without one
/// is its own last line.
pub proof fn law_last_line(before: Seq<char>, line: Seq<char>, default: Seq<char>)
    requires
        line.len() > 0,
        !line.contains('\n'),
    ensures
        last_line(line, default) == line,
        last_line(before.push('\n') + line, default) == line,
        last_line(Seq::empty(), default) == default,
    decreases before.len(),
{
    text::lemma_index_of_bounds(line, '\n');
    reveal_with_fuel(text::lines_of, 2);
    assert(text::lines_of(line) == seq![line]);
    let all = before.push('\n') + line;
    let i = text::index_of(before, '\n');
    text::lemma_index_of_bounds(before, '\n');
    assert forall|j: int| 0 <= j < i implies all[j] != '\n' by {
        assert(all[j] == before[j]);
    }
    text::lemma_index_of(all, '\n', i);
    if i < before.len() {
        let rest = before.skip(i + 1);
        law_last_line(rest, line, default);
        assert(all.skip(i + 1) =~= rest.push('\n') + line);
        let tail = text::lines_of(all.skip(i + 1));
        text::lemma_index_of_bounds(all.skip(i + 1), '\n');
        assert(tail.len() > 0);
        assert(text::lines_of(all).last() == tail.last());
    } else {
        assert(all.skip(i + 1) =~= line);
    }
}

/// Every step of a powerwash that failed is told, with its error, and none that
/// succeeded.
pub proof fn law_failed_steps_are_told(steps: Seq<StepEndView>)
    ensures
        forall|i: int|
            0 <= i < steps.len() && !(#[trigger] steps[i]).ok ==> failures(steps).contains(
                steps[i].label + ": "@ + steps[i].error,
            ),
        forall|k: int|
            0 <= k < failures(steps).len() ==> exists|i: int|
                0 <= i < steps.len() && !(#[trigger] steps[i]).ok && #[trigger] failures(steps)[k]
                    == steps[i].label + ": "@ + steps[i].error,
        failures(steps).len() <= steps.len(),
    decreases steps.len(),
{
    if steps.len() > 0 {
        let front = steps.drop_last();
        let rest = failures(front);
        let all = failures(steps);
        law_failed_steps_are_told(front);
        assert forall|i: int| 0 <= i < steps.len() && !(#[trigger] steps[i]).ok implies all.contains(
            steps[i].label + ": "@ + steps[i].error,
        ) by {
            let words = steps[i].label + ": "@ + steps[i].error;
            if i < front.len() {
                assert(front[i] == steps[i]);
                let k = choose|k: int| 0 <= k < rest.len() && rest[k] == words;
                assert(all[k] == words);
            } else {
                assert(all[rest.len() as int] == words);
            }
        }
        assert forall|k: int| 0 <= k < all.len() implies exists|i: int|
            0 <= i < steps.len() && !(#[trigger] steps[i]).ok && #[trigger] all[k] == steps[i].label
                + ": "@ + steps[i].error by {
            if k < rest.len() {
                assert(all[k] == rest[k]);
                let i = choose|i: int|
                    0 <= i < front.len() && !(#[trigger] front[i]).ok && rest[k] == front[i].label
                        + ": "@ + front[i].error;
                assert(steps[i] == front[i]);
            } else {
                assert(!steps[steps.len() - 1].ok);
            }
        }
    }
}

/// A step succeeded exactly where its command did, or where it was withheld; otherwise
/// it has failed, for the reason that is told.
pub proof fn law_step_tells_its_end(end: Option<EndView>)
    ensures
        step_result(end).0 <==> end is None || end == Some(EndView::Success),
        end matches Some(EndView::NotStarted(e)) ==> step_result(end).1 == e,
{
}

/// A powerwash runs commands of the user's own applications and containers alone, none of
/// which touches the image; what it came to is complete exactly where every step
/// succeeded, and otherwise tells the errors.
pub proof fn law_powerwash_spares_the_image(i: int, steps: Seq<StepEndView>)
    requires
        0 <= i < wash_steps().len(),
    ensures
        wash_steps()[i].1.len() > 0,
        wash_steps()[i].1[0] != "bootc"@,
        wash_steps()[i].1[0] != "pkexec"@,
        wash_steps()[0].1.contains("--user"@),
        (forall|k: int| 0 <= k < steps.len() ==> (#[trigger] steps[k]).ok) ==> wash_summary(
            steps,
        ).text == "Powerwash complete — apps and containers cleared"@,
        !(forall|k: int| 0 <= k < steps.len() ==> (#[trigger] steps[k]).ok) ==> text::ends(
            wash_summary(steps).text,
            text::joined(failures(steps), "; "@),
        ),
{
    reveal_strlit("bootc");
    reveal_strlit("pkexec");
    reveal_strlit("flatpak");
    reveal_strlit("distrobox");
    assert("bootc"@[0] == 'b' && "pkexec"@[0] == 'p' && "flatpak"@[0] == 'f' && "distrobox"@[0]
        == 'd');
    assert(wash_steps()[0].1[2] == "--user"@);
    law_powerwash_is_complete_iff_every_step_succeeded(steps);
    if failures(steps).len() > 0 {
        lemma_ends("Powerwash finished with errors — "@, text::joined(failures(steps), "; "@));
    }
}

/// A command runs exactly where neither setting withholds it, whether or not there is a
/// journal, and is the one that is recorded.
pub proof fn law_settings_decide_what_runs(
    journal: Journal,
    action: Seq<char>,
    args: Seq<(Seq<char>, Seq<char>)>,
    argv: Seq<Seq<char>>,
    privilege: Privilege,
    flags: Flags,
    flatpak: bool,
)
    ensures
        ({
            let plan = silent_plan(journal, action, args, argv, privilege, flags, flatpak);
            let full = resolved(argv, privilege, flatpak);
            &&& plan.command == if flags.dev_mode || flags.dry_run {
                None
            } else {
                Some(full)
            }
            &&& plan.entry is Some <==> journal.enabled
            &&& plan.entry matches Some(e) ==> e.would_run == full && e.action == action && e.args
                == args
            &&& plan.toasts.len() == 0
        }),
{
}

} // verus!
