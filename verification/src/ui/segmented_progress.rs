//! The progress bar of an update run, in three segments.
use crate::orchestrator::{module_key, Module};
use crate::text;
use vstd::prelude::*;

verus! {

/// The segment that shows a module: 0 for the system image, 1 for applications,
/// 2 for developer tools.
pub open spec fn segment_of(key: Seq<char>) -> Option<usize> {
    if key == "system"@ {
        Some(0)
    } else if key == "flatpak"@ {
        Some(1)
    } else if key == "brew"@ || key == "distrobox"@ {
        Some(2)
    } else {
        None
    }
}

/// The segment that shows a module.
pub fn module_to_seg(key: &str) -> (r: Option<usize>)
    ensures
        r == segment_of(key@),
{
    if text::same(key, "system") {
        Some(0)
    } else if text::same(key, "flatpak") {
        Some(1)
    } else if text::same(key, "brew") || text::same(key, "distrobox") {
        Some(2)
    } else {
        None
    }
}

/// Whether one segment shows two modules.
pub fn same_segment(a: &str, b: &str) -> (r: bool)
    ensures
        r == (segment_of(a@) == segment_of(b@)),
{
    match (module_to_seg(a), module_to_seg(b)) {
        (Some(x), Some(y)) => x == y,
        (None, None) => true,
        _ => false,
    }
}

/// How a segment is shown.
#[derive(Debug, Clone, Copy, PartialEq, Eq, Structural)]
pub enum SegStatus {
    /// Not started.
    Pending,
    /// Running, with moving stripes.
    Downloading,
    /// Running, with a soft pulse.
    Active,
    /// Finished successfully.
    Complete,
    /// Finished with an error.
    Failed,
}

/// The bar: how each segment is shown.
#[derive(Debug, Clone, Copy, PartialEq, Eq, Structural)]
pub struct SegmentedProgress {
    pub system: SegStatus,
    pub applications: SegStatus,
    pub tools: SegStatus,
}

/// How a segment of a bar is shown.
pub open spec fn segment(bar: SegmentedProgress, i: usize) -> SegStatus {
    if i == 0 {
        bar.system
    } else if i == 1 {
        bar.applications
    } else {
        bar.tools
    }
}

/// A bar with one segment shown otherwise.
pub open spec fn with_segment(bar: SegmentedProgress, i: usize, s: SegStatus) -> SegmentedProgress {
    if i == 0 {
        SegmentedProgress { system: s, ..bar }
    } else if i == 1 {
        SegmentedProgress { applications: s, ..bar }
    } else {
        SegmentedProgress { tools: s, ..bar }
    }
}

/// A bar on which nothing has started.
pub open spec fn empty_bar() -> SegmentedProgress {
    SegmentedProgress {
        system: SegStatus::Pending,
        applications: SegStatus::Pending,
        tools: SegStatus::Pending,
    }
}

/// A bar after a module started. A failed segment stays failed.
pub open spec fn bar_active(bar: SegmentedProgress, key: Seq<char>) -> SegmentedProgress {
    match segment_of(key) {
        Some(i) => if segment(bar, i) == SegStatus::Failed {
            bar
        } else {
            with_segment(
                bar,
                i,
                if i == 0 {
                    SegStatus::Downloading
                } else {
                    SegStatus::Active
                },
            )
        },
        None => bar,
    }
}

/// A bar after a module completed. A failed segment stays failed.
pub open spec fn bar_complete(bar: SegmentedProgress, key: Seq<char>) -> SegmentedProgress {
    match segment_of(key) {
        Some(i) => if segment(bar, i) == SegStatus::Failed {
            bar
        } else {
            with_segment(bar, i, SegStatus::Complete)
        },
        None => bar,
    }
}

/// A bar after a module failed.
pub open spec fn bar_failed(bar: SegmentedProgress, key: Seq<char>) -> SegmentedProgress {
    match segment_of(key) {
        Some(i) => with_segment(bar, i, SegStatus::Failed),
        None => bar,
    }
}

/// A segment after the whole run succeeded.
pub open spec fn finished_segment(s: SegStatus) -> SegStatus {
    if s == SegStatus::Failed {
        s
    } else {
        SegStatus::Complete
    }
}

/// A bar after the whole run succeeded.
pub open spec fn bar_all_complete(bar: SegmentedProgress) -> SegmentedProgress {
    SegmentedProgress {
        system: finished_segment(bar.system),
        applications: finished_segment(bar.applications),
        tools: finished_segment(bar.tools),
    }
}

/// Whether a segment moves.
pub open spec fn moving(s: SegStatus) -> bool {
    s == SegStatus::Downloading || s == SegStatus::Active
}

impl SegmentedProgress {
    /// A bar on which nothing has started.
    pub fn new() -> (r: SegmentedProgress)
        ensures
            r == empty_bar(),
    {
        SegmentedProgress {
            system: SegStatus::Pending,
            applications: SegStatus::Pending,
            tools: SegStatus::Pending,
        }
    }

    fn get(&self, i: usize) -> (r: SegStatus)
        ensures
            r == segment(*self, i),
    {
        if i == 0 {
            self.system
        } else if i == 1 {
            self.applications
        } else {
            self.tools
        }
    }

    fn put(&mut self, i: usize, s: SegStatus)
        ensures
            *final(self) == with_segment(*old(self), i, s),
    {
        if i == 0 {
            self.system = s;
        } else if i == 1 {
            self.applications = s;
        } else {
            self.tools = s;
        }
    }

    /// Nothing has started: a new run begins.
    pub fn reset(&mut self)
        ensures
            *final(self) == empty_bar(),
    {
        *self = SegmentedProgress::new();
    }

    /// A module started.
    pub fn set_module_active(&mut self, key: &str)
        ensures
            *final(self) == bar_active(*old(self), key@),
    {
        if let Some(i) = module_to_seg(key) {
            if self.get(i) == SegStatus::Failed {
                return;
            }
            if i == 0 {
                self.put(i, SegStatus::Downloading);
            } else {
                self.put(i, SegStatus::Active);
            }
        }
    }

    /// A module completed.
    pub fn set_module_complete(&mut self, key: &str)
        ensures
            *final(self) == bar_complete(*old(self), key@),
    {
        if let Some(i) = module_to_seg(key) {
            if self.get(i) == SegStatus::Failed {
                return;
            }
            self.put(i, SegStatus::Complete);
        }
    }

    /// A module failed.
    pub fn set_module_failed(&mut self, key: &str)
        ensures
            *final(self) == bar_failed(*old(self), key@),
    {
        if let Some(i) = module_to_seg(key) {
            self.put(i, SegStatus::Failed);
        }
    }

    /// The whole run succeeded.
    pub fn mark_all_complete(&mut self)
        ensures
            *final(self) == bar_all_complete(*old(self)),
    {
        if self.system != SegStatus::Failed {
            self.system = SegStatus::Complete;
        }
        if self.applications != SegStatus::Failed {
            self.applications = SegStatus::Complete;
        }
        if self.tools != SegStatus::Failed {
            self.tools = SegStatus::Complete;
        }
    }

    /// Whether the animation goes on.
    pub fn ensure_animating(&self) -> (r: bool)
        ensures
            r == (moving(self.system) || moving(self.applications) || moving(self.tools)),
    {
        (self.system == SegStatus::Downloading || self.system == SegStatus::Active)
            || (self.applications == SegStatus::Downloading || self.applications
            == SegStatus::Active) || (self.tools == SegStatus::Downloading || self.tools
            == SegStatus::Active)
    }
}

/// A failed segment stays failed until the next run, whatever happens in
/// between.
pub proof fn law_failed_segment_stays(bar: SegmentedProgress, i: usize, key: Seq<char>)
    requires
        segment(bar, i) == SegStatus::Failed,
    ensures
        segment(bar_active(bar, key), i) == SegStatus::Failed,
        segment(bar_complete(bar, key), i) == SegStatus::Failed,
        segment(bar_failed(bar, key), i) == SegStatus::Failed,
        segment(bar_all_complete(bar), i) == SegStatus::Failed,
{
}

/// Every module has a segment, and the bar changes in that segment alone.
pub proof fn law_module_has_its_segment(bar: SegmentedProgress, m: Module, i: usize)
    requires
        i < 3,
    ensures
        segment_of(module_key(m)) matches Some(own) && (own != i ==> {
            &&& segment(bar_active(bar, module_key(m)), i) == segment(bar, i)
            &&& segment(bar_complete(bar, module_key(m)), i) == segment(bar, i)
            &&& segment(bar_failed(bar, module_key(m)), i) == segment(bar, i)
        }),
{
    crate::orchestrator::law_module_keys_round_trip(m);
}

/// The system, the applications and the tools have a segment each, and the two kinds of
/// tools share theirs. A segment that did not fail shows that its module runs, that it
/// is complete, or that it failed; the end of a run completes every segment that did
/// not fail.
pub proof fn law_segment_shows_its_module(bar: SegmentedProgress, m: Module)
    ensures
        ({
            let key = module_key(m);
            let active = bar_active(bar, key);
            let complete = bar_complete(bar, key);
            let broken = bar_failed(bar, key);
            let done = bar_all_complete(bar);
            &&& m == Module::System ==> {
                &&& bar.system != SegStatus::Failed ==> active.system == SegStatus::Downloading
                    && complete.system == SegStatus::Complete
                &&& broken.system == SegStatus::Failed
                &&& active.applications == bar.applications && active.tools == bar.tools
            }
            &&& m == Module::Flatpak ==> {
                &&& bar.applications != SegStatus::Failed ==> active.applications
                    == SegStatus::Active && complete.applications == SegStatus::Complete
                &&& broken.applications == SegStatus::Failed
                &&& active.system == bar.system && active.tools == bar.tools
            }
            &&& m == Module::Brew || m == Module::Distrobox ==> {
                &&& bar.tools != SegStatus::Failed ==> active.tools == SegStatus::Active
                    && complete.tools == SegStatus::Complete
                &&& broken.tools == SegStatus::Failed
                &&& active.system == bar.system && active.applications == bar.applications
            }
            &&& bar.system != SegStatus::Failed ==> done.system == SegStatus::Complete
            &&& bar.applications != SegStatus::Failed ==> done.applications == SegStatus::Complete
            &&& bar.tools != SegStatus::Failed ==> done.tools == SegStatus::Complete
        }),
{
    crate::orchestrator::law_module_keys_round_trip(m);
}

/// The animation goes on exactly while a segment is downloaded or active: one that waits, is
/// complete or failed does not move.
pub proof fn law_only_running_segments_move(s: SegStatus)
    ensures
        moving(s) <==> s != SegStatus::Pending && s != SegStatus::Complete && s
            != SegStatus::Failed,
        !moving(empty_bar().system),
{
}

} // verus!
