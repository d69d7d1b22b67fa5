//! A record of every action that changes the host at the user's word, whether it
//! runs or is withheld.
use vstd::prelude::*;

verus! {

/// Environment variable that names the journal's file. Unset or empty, nothing
/// is recorded.
pub const JOURNAL_ENV: &'static str = "FINUPDATE_ACTION_JOURNAL";

/// Why an action is withheld.
#[derive(Debug, Clone, Copy, PartialEq, Eq, Structural)]
pub enum Suppressed {
    /// Destructive work is blocked, everything else is real.
    DryRun,
    /// Updates are simulated.
    DevMode,
    /// The action is not withheld.
    No,
}

impl DeepView for Suppressed {
    type V = Suppressed;

    open spec fn deep_view(&self) -> Suppressed {
        *self
    }
}

/// The name of a reason in the journal.
pub open spec fn reason_name(s: Suppressed) -> Seq<char> {
    match s {
        Suppressed::DryRun => "dry_run"@,
        Suppressed::DevMode => "dev_mode"@,
        Suppressed::No => "none"@,
    }
}

/// The reason that two settings amount to; developer mode is the broader one.
pub open spec fn reason_of(dev_mode: bool, dry_run: bool) -> Suppressed {
    if dev_mode {
        Suppressed::DevMode
    } else if dry_run {
        Suppressed::DryRun
    } else {
        Suppressed::No
    }
}

impl Suppressed {
    /// The name of this reason in the journal.
    pub fn as_str(self) -> (r: &'static str)
        ensures
            r@ == reason_name(self),
    {
        match self {
            Suppressed::DryRun => "dry_run",
            Suppressed::DevMode => "dev_mode",
            Suppressed::No => "none",
        }
    }

    /// The reason that two settings amount to; developer mode is the broader
    /// one.
    pub fn from_flags(dev_mode: bool, dry_run: bool) -> (r: Suppressed)
        ensures
            r == reason_of(dev_mode, dry_run),
    {
        if dev_mode {
            Suppressed::DevMode
        } else if dry_run {
            Suppressed::DryRun
        } else {
            Suppressed::No
        }
    }

    /// Whether the command must not be executed.
    pub fn blocks_execution(self) -> (r: bool)
        ensures
            r == (self != Suppressed::No),
    {
        match self {
            Suppressed::No => false,
            _ => true,
        }
    }
}

/// Commands run exactly where neither developer mode nor dry run is on.
pub proof fn law_flags_decide_execution(dev_mode: bool, dry_run: bool)
    ensures
        (reason_of(dev_mode, dry_run) == Suppressed::No) <==> (!dev_mode && !dry_run),
{
}

/// One line of the journal.
#[derive(Debug, PartialEq)]
pub struct JournalEntry {
    /// Position in the journal.
    pub seq: u64,
    /// Stable name of the action.
    pub action: String,
    /// What the action is about, by name.
    pub args: Vec<(String, String)>,
    /// The command that a real run executes, program first.
    pub would_run: Vec<String>,
    /// Name of the reason for which the action is withheld.
    pub suppressed_by: String,
}

/// What a line of the journal is.
#[verifier::ext_equal]
pub struct EntryView {
    pub seq: u64,
    pub action: Seq<char>,
    pub args: Seq<(Seq<char>, Seq<char>)>,
    pub would_run: Seq<Seq<char>>,
    pub suppressed_by: Seq<char>,
}

impl DeepView for JournalEntry {
    type V = EntryView;

    open spec fn deep_view(&self) -> EntryView {
        EntryView {
            seq: self.seq,
            action: self.action@,
            args: self.args.deep_view(),
            would_run: self.would_run.deep_view(),
            suppressed_by: self.suppressed_by@,
        }
    }
}

/// The journal of a process: whether it has a file, and the position of its
/// next line.
#[derive(Debug)]
pub struct Journal {
    pub enabled: bool,
    pub next_seq: u64,
}

impl Journal {
    /// The journal of a process that just started. It records where the
    /// variable names a file and the file could be opened.
    pub fn open(path: Option<&str>, opened: bool) -> (r: Journal)
        ensures
            r.next_seq == 0,
            r.enabled == (opened && match path {
                Some(p) => p@.len() > 0,
                None => false,
            }),
    {
        let named: bool = match path {
            Some(p) => !p.is_empty(),
            None => false,
        };
        Journal { enabled: named && opened, next_seq: 0 }
    }
}

/// The line that an action adds to a journal.
pub open spec fn entry_for(
    journal: Journal,
    action: Seq<char>,
    args: Seq<(Seq<char>, Seq<char>)>,
    would_run: Seq<Seq<char>>,
    suppressed: Suppressed,
) -> Option<EntryView> {
    if journal.enabled {
        Some(
            EntryView {
                seq: journal.next_seq,
                action,
                args,
                would_run,
                suppressed_by: reason_name(suppressed),
            },
        )
    } else {
        None
    }
}

/// The journal after one more action.
pub open spec fn after_action(journal: Journal) -> Journal {
    if journal.enabled {
        Journal {
            enabled: true,
            next_seq: if journal.next_seq == u64::MAX {
                0
            } else {
                (journal.next_seq + 1) as u64
            },
        }
    } else {
        journal
    }
}

/// Records an action: the line to write, if the journal has a file.
pub fn record(
    journal: &mut Journal,
    action: &str,
    args: Vec<(String, String)>,
    would_run: Vec<String>,
    suppressed: Suppressed,
) -> (r: Option<JournalEntry>)
    ensures
        r.deep_view() == entry_for(
            *old(journal),
            action@,
            args.deep_view(),
            would_run.deep_view(),
            suppressed,
        ),
        *final(journal) == after_action(*old(journal)),
{
    if !journal.enabled {
        return None;
    }
    let seq: u64 = journal.next_seq;
    journal.next_seq = if seq == u64::MAX {
        0
    } else {
        seq + 1
    };
    Some(
        JournalEntry {
            seq,
            action: action.to_string(),
            args,
            would_run,
            suppressed_by: suppressed.as_str().to_string(),
        },
    )
}

/// The strings of a list of text, in order.
pub fn owned(list: &[&str]) -> (r: Vec<String>)
    ensures
        r.deep_view() == list.deep_view(),
{
    let mut out: Vec<String> = Vec::new();
    let mut i: usize = 0;
    while i < list.len()
        invariant
            0 <= i <= list@.len(),
            out.deep_view() == list.deep_view().take(i as int),
        decreases list@.len() - i,
    {
        let ghost before = out.deep_view();
        out.push(list[i].to_string());
        assert(out.deep_view() =~= before.push(list.deep_view()[i as int]));
        i += 1;
        assert(list.deep_view().take(i as int) =~= before.push(list.deep_view()[i - 1]));
    }
    assert(list.deep_view().take(i as int) =~= list.deep_view());
    out
}

/// Records an action whose command is a list of borrowed text.
pub fn record_str(
    journal: &mut Journal,
    action: &str,
    args: Vec<(String, String)>,
    would_run: &[&str],
    suppressed: Suppressed,
) -> (r: Option<JournalEntry>)
    ensures
        r.deep_view() == entry_for(
            *old(journal),
            action@,
            args.deep_view(),
            would_run.deep_view(),
            suppressed,
        ),
        *final(journal) == after_action(*old(journal)),
{
    record(journal, action, args, owned(would_run), suppressed)
}

/// Whether actions are recorded.
pub fn is_enabled(journal: &Journal) -> (r: bool)
    ensures
        r == journal.enabled,
{
    journal.enabled
}

/// Of two actions one after the other, the second line comes later.
pub proof fn law_journal_is_ordered(journal: Journal)
    requires
        journal.enabled,
        journal.next_seq < u64::MAX,
    ensures
        after_action(journal).enabled,
        after_action(journal).next_seq == journal.next_seq + 1,
{
}

/// A line of the journal holds what was recorded, as it was recorded, and names the
/// setting for which an action was withheld; developer mode counts before a dry run. A
/// journal without a file gets no line, and does not move on.
pub proof fn law_line_holds_what_was_recorded(
    journal: Journal,
    action: Seq<char>,
    args: Seq<(Seq<char>, Seq<char>)>,
    would_run: Seq<Seq<char>>,
    dev_mode: bool,
    dry_run: bool,
)
    ensures
        ({
            let entry = entry_for(journal, action, args, would_run, reason_of(dev_mode, dry_run));
            &&& entry is Some <==> journal.enabled
            &&& entry matches Some(e) ==> {
                &&& e.seq == journal.next_seq
                &&& e.action == action
                &&& e.args == args
                &&& e.would_run == would_run
                &&& dev_mode ==> e.suppressed_by == "dev_mode"@
                &&& !dev_mode && dry_run ==> e.suppressed_by == "dry_run"@
                &&& !dev_mode && !dry_run ==> e.suppressed_by == "none"@
            }
            &&& !journal.enabled ==> after_action(journal) == journal
        }),
{
}

} // verus!
