//! The one place from which commands come that change the host at the user's word:
//! a restart, now or at night, a switch to another image, the timer of automatic
//! updates, a reset and a powerwash. None of them is handed out unrecorded.
use crate::action_journal::{
    after_action, entry_for, owned, record, Journal, JournalEntry, Suppressed,
};
use vstd::prelude::*;

verus! {

/// A command of the host: a program and its arguments.
#[derive(Debug, PartialEq)]
pub struct HostCommand {
    pub program: String,
    pub args: Vec<String>,
}

impl HostCommand {
    /// The program and its arguments in one list.
    pub open spec fn argv(&self) -> Seq<Seq<char>> {
        seq![self.program@] + self.args.deep_view()
    }
}

/// What to do with a command.
#[derive(Debug, PartialEq)]
pub enum Exec {
    /// Execute this.
    Run(HostCommand),
    /// Execute nothing, and show what would have been shown.
    Suppressed,
}

/// What to do with a command, for callers that wait for it asynchronously.
#[derive(Debug, PartialEq)]
pub enum ExecAsync {
    /// Execute this.
    Run(HostCommand),
    /// Execute nothing, and show what would have been shown.
    Suppressed,
}

/// How much privilege a command needs.
#[derive(Debug, Clone, Copy, PartialEq, Eq, Structural)]
pub enum Privilege {
    /// It runs as root.
    Pkexec,
    /// It runs on the host as the current user.
    Host,
}

/// The whole command for a fragment of one: out of the sandbox, and elevated
/// where it needs to be.
pub open spec fn resolved(argv: Seq<Seq<char>>, privilege: Privilege, flatpak: bool) -> Seq<
    Seq<char>,
> {
    (if flatpak {
        seq!["flatpak-spawn"@, "--host"@]
    } else {
        Seq::empty()
    }) + (if privilege == Privilege::Pkexec {
        seq!["pkexec"@]
    } else {
        Seq::empty()
    }) + argv
}

/// The whole command for a fragment of one.
pub fn resolve_argv(argv: &[&str], privilege: Privilege, flatpak: bool) -> (r: Vec<String>)
    ensures
        r.deep_view() == resolved(argv.deep_view(), privilege, flatpak),
{
    let mut out: Vec<String> = Vec::new();
    if flatpak {
        out.push("flatpak-spawn".to_string());
        out.push("--host".to_string());
    }
    if privilege == Privilege::Pkexec {
        out.push("pkexec".to_string());
    }
    let ghost prefix = out.deep_view();
    assert(prefix =~= resolved(Seq::empty(), privilege, flatpak));
    let mut rest: Vec<String> = owned(argv);
    let ghost tail = rest.deep_view();
    out.append(&mut rest);
    assert(out.deep_view() =~= prefix + tail);
    assert(out.deep_view() =~= resolved(argv.deep_view(), privilege, flatpak));
    out
}

/// The same strings, in order.
fn copy_all(list: &Vec<String>) -> (r: Vec<String>)
    ensures
        r.deep_view() == list.deep_view(),
{
    let r: Vec<String> = list.clone();
    assert(r.deep_view() =~= list.deep_view());
    r
}

/// A list as a program and its arguments.
fn command_of(full: Vec<String>) -> (r: HostCommand)
    requires
        full@.len() > 0,
    ensures
        r.argv() == full.deep_view(),
{
    let mut rest: Vec<String> = full;
    let program: String = rest.remove(0);
    let r: HostCommand = HostCommand { program, args: rest };
    assert(r.argv() =~= full.deep_view());
    r
}

/// Records an action, and hands out its command, or nothing where it is
/// withheld. `argv` is the command without any prefix.
pub fn privileged(
    journal: &mut Journal,
    action: &str,
    args: Vec<(String, String)>,
    argv: &[&str],
    privilege: Privilege,
    suppressed: Suppressed,
    flatpak: bool,
) -> (r: (Exec, Option<JournalEntry>))
    requires
        suppressed == Suppressed::No ==> resolved(argv.deep_view(), privilege, flatpak).len() > 0,
    ensures
        match r.0 {
            Exec::Run(command) => suppressed == Suppressed::No && command.argv() == resolved(
                argv.deep_view(),
                privilege,
                flatpak,
            ),
            Exec::Suppressed => suppressed != Suppressed::No,
        },
        r.1.deep_view() == entry_for(
            *old(journal),
            action@,
            args.deep_view(),
            resolved(argv.deep_view(), privilege, flatpak),
            suppressed,
        ),
        *final(journal) == after_action(*old(journal)),
{
    let full: Vec<String> = resolve_argv(argv, privilege, flatpak);
    let entry: Option<JournalEntry> = record(journal, action, args, copy_all(&full), suppressed);
    if suppressed.blocks_execution() {
        return (Exec::Suppressed, entry);
    }
    assert(full.deep_view().len() == full@.len());
    (Exec::Run(command_of(full)), entry)
}

/// As `privileged`, for callers that wait for the command asynchronously.
pub fn privileged_async(
    journal: &mut Journal,
    action: &str,
    args: Vec<(String, String)>,
    argv: &[&str],
    privilege: Privilege,
    suppressed: Suppressed,
    flatpak: bool,
) -> (r: (ExecAsync, Option<JournalEntry>))
    requires
        suppressed == Suppressed::No ==> resolved(argv.deep_view(), privilege, flatpak).len() > 0,
    ensures
        match r.0 {
            ExecAsync::Run(command) => suppressed == Suppressed::No && command.argv() == resolved(
                argv.deep_view(),
                privilege,
                flatpak,
            ),
            ExecAsync::Suppressed => suppressed != Suppressed::No,
        },
        r.1.deep_view() == entry_for(
            *old(journal),
            action@,
            args.deep_view(),
            resolved(argv.deep_view(), privilege, flatpak),
            suppressed,
        ),
        *final(journal) == after_action(*old(journal)),
{
    match privileged(journal, action, args, argv, privilege, suppressed, flatpak) {
        (Exec::Run(command), entry) => (ExecAsync::Run(command), entry),
        (Exec::Suppressed, entry) => (ExecAsync::Suppressed, entry),
    }
}

/// The caller's command stands at the end of the whole command, unchanged.
pub proof fn law_command_is_kept(argv: Seq<Seq<char>>, privilege: Privilege, flatpak: bool)
    ensures
        ({
            let full = resolved(argv, privilege, flatpak);
            &&& full.len() >= argv.len()
            &&& full.skip(full.len() - argv.len()) == argv
            &&& privilege == Privilege::Host && !flatpak ==> full == argv
        }),
{
    let full = resolved(argv, privilege, flatpak);
    assert(full.skip(full.len() - argv.len()) =~= argv);
    assert(privilege == Privilege::Host && !flatpak ==> full =~= argv);
}

/// Where a journal has a file, the line that it gets for an action holds the
/// same command whether the action runs or is withheld.
pub proof fn law_journal_tells_the_command(
    journal: Journal,
    action: Seq<char>,
    args: Seq<(Seq<char>, Seq<char>)>,
    argv: Seq<Seq<char>>,
    privilege: Privilege,
    flatpak: bool,
    suppressed: Suppressed,
)
    requires
        journal.enabled,
    ensures
        entry_for(journal, action, args, resolved(argv, privilege, flatpak), suppressed) matches Some(
            entry,
        ) && entry.would_run == resolved(argv, privilege, flatpak),
{
}

/// A command leaves the sandbox first, is elevated next where it needs to be, and is
/// otherwise the caller's.
pub proof fn law_command_leaves_the_sandbox(argv: Seq<Seq<char>>)
    ensures
        resolved(argv, Privilege::Pkexec, true) == seq!["flatpak-spawn"@, "--host"@, "pkexec"@]
            + argv,
        resolved(argv, Privilege::Host, true) == seq!["flatpak-spawn"@, "--host"@] + argv,
        resolved(argv, Privilege::Pkexec, false) == seq!["pkexec"@] + argv,
        resolved(argv, Privilege::Host, false) == argv,
{
    assert(resolved(argv, Privilege::Pkexec, true) =~= seq!["flatpak-spawn"@, "--host"@, "pkexec"@]
        + argv);
    assert(resolved(argv, Privilege::Host, true) =~= seq!["flatpak-spawn"@, "--host"@] + argv);
    assert(resolved(argv, Privilege::Pkexec, false) =~= seq!["pkexec"@] + argv);
    assert(resolved(argv, Privilege::Host, false) =~= argv);
}

} // verus!
