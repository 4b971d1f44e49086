use vstd::prelude::*;
use vstd::string::StringExecFns;

use crate::numtext::{dec_digits, usize_to_string};

verus! {

/// The status line shown while work is in flight: which of the two task
/// kinds are active decides the wording, and the preload total is written
/// in decimal.
pub open spec fn loading_text_spec(ls_dir: nat, preload: nat) -> Seq<char> {
    if ls_dir > 0 && preload > 0 {
        "Loading directory, "@ + dec_digits(preload as int) + " images preloading..."@
    } else if ls_dir > 0 {
        "Loading directory..."@
    } else if preload > 0 {
        "Loading "@ + dec_digits(preload as int) + " images..."@
    } else {
        Seq::<char>::empty()
    }
}

/// Handle of one tracked asynchronous operation.
#[derive(Debug, Clone, Copy, PartialEq, Eq, Structural, Hash)]
pub struct TaskId(pub u64);

impl TaskId {
    pub fn new(id: u64) -> (r: Self)
        ensures
            r.0 == id,
    {
        TaskId(id)
    }
}

/// What kind of work a tracked operation performs.
#[derive(Debug, Clone, Copy, PartialEq, Eq, Structural)]
pub enum TaskType {
    MoveThenLs,
    LsDir,
    PreloadImage,
}

/// Whether a reported completion belonged to a still-live task.
#[derive(Debug, Clone, Copy, PartialEq, Eq, Structural)]
pub enum TaskCompleteResult {
    Success,
    TaskWasCancelled,
}

/// Some entry of `s` carries the handle `id`.
pub open spec fn contains_id(s: Seq<(TaskId, TaskType)>, id: TaskId) -> bool {
    exists|i: int| 0 <= i < s.len() && (#[trigger] s[i]).0 == id
}

/// Entry `i` is the first entry of `s` carrying the handle `id`.
pub open spec fn first_id_match(s: Seq<(TaskId, TaskType)>, id: TaskId, i: int) -> bool {
    &&& 0 <= i < s.len()
    &&& s[i].0 == id
    &&& forall|k: int| 0 <= k < i ==> (#[trigger] s[k]).0 != id
}

/// Number of entries among `s[0..n]` whose kind satisfies `p`.
pub open spec fn count_tasks_to(
    s: Seq<(TaskId, TaskType)>,
    p: spec_fn(TaskType) -> bool,
    n: int,
) -> nat
    decreases n,
{
    if n <= 0 {
        0nat
    } else {
        count_tasks_to(s, p, n - 1) + (if 0 <= n - 1 < s.len() && p(s[n - 1].1) {
            1nat
        } else {
            0nat
        })
    }
}

pub open spec fn count_ls_dir_tasks(s: Seq<(TaskId, TaskType)>) -> nat {
    count_tasks_to(s, |t: TaskType| t is LsDir, s.len() as int)
}

pub open spec fn count_preload_tasks(s: Seq<(TaskId, TaskType)>) -> nat {
    count_tasks_to(s, |t: TaskType| t is PreloadImage, s.len() as int)
}

/// Tracks in-flight cancellable operations and owns the handle counter.
/// A handle is tracked exactly until its task is reported complete or all
/// tasks are cancelled; stale completions then report `TaskWasCancelled`.
#[derive(Debug)]
pub struct TaskManager {
    active_tasks: Vec<(TaskId, TaskType)>,
    next_id: u64,
}

impl TaskManager {
    /// The tracked handles with their kinds, in order of starting.
    pub closed spec fn active_seq(self) -> Seq<(TaskId, TaskType)> {
        self.active_tasks@
    }

    /// The handle the next started task will receive.
    pub closed spec fn spec_next_id(self) -> u64 {
        self.next_id
    }

    /// Handles are unique and below the counter.
    pub closed spec fn wf(self) -> bool {
        &&& forall|i: int|
            0 <= i < self.active_tasks@.len() ==> (#[trigger] self.active_tasks@[i]).0.0
                < self.next_id
        &&& forall|i: int, j: int|
            0 <= i < self.active_tasks@.len() && 0 <= j < self.active_tasks@.len() && i != j ==> (
            #[trigger] self.active_tasks@[i]).0 != (#[trigger] self.active_tasks@[j]).0
    }

    pub fn new() -> (r: Self)
        ensures
            r.wf(),
            r.active_seq() == Seq::<(TaskId, TaskType)>::empty(),
            r.spec_next_id() == 1,
    {
        TaskManager { active_tasks: Vec::new(), next_id: 1 }
    }

    /// Allocates a fresh, never previously used handle and records it as
    /// active with its kind.
    pub fn start_task(&mut self, task_type: TaskType) -> (r: TaskId)
        requires
            old(self).wf(),
            old(self).spec_next_id() < u64::MAX,
        ensures
            final(self).wf(),
            r.0 == old(self).spec_next_id(),
            final(self).spec_next_id() == old(self).spec_next_id() + 1,
            final(self).active_seq() == old(self).active_seq().push((r, task_type)),
            !contains_id(old(self).active_seq(), r),
    {
        let id = TaskId::new(self.next_id);
        self.next_id = self.next_id + 1;
        self.active_tasks.push((id, task_type));
        id
    }

    /// Stops tracking every task. The underlying asynchronous work is aborted
    /// by the collaborator; any completion that still arrives will be reported
    /// as `TaskWasCancelled`.
    pub fn cancel_all(&mut self)
        requires
            old(self).wf(),
        ensures
            final(self).wf(),
            final(self).active_seq() == Seq::<(TaskId, TaskType)>::empty(),
            final(self).spec_next_id() == old(self).spec_next_id(),
    {
        self.active_tasks.clear();
    }

    /// Reports a completion: a tracked handle is removed and acknowledged
    /// with `Success`; an unknown (cancelled or stale) handle leaves the
    /// registry unchanged and yields `TaskWasCancelled`. Either way the
    /// handle is no longer tracked afterwards.
    pub fn report_completed_task(&mut self, id: TaskId) -> (r: TaskCompleteResult)
        requires
            old(self).wf(),
        ensures
            final(self).wf(),
            final(self).spec_next_id() == old(self).spec_next_id(),
            !contains_id(final(self).active_seq(), id),
            contains_id(old(self).active_seq(), id) ==> r == TaskCompleteResult::Success
                && exists|i: int|
                {
                    &&& #[trigger] first_id_match(old(self).active_seq(), id, i)
                    &&& final(self).active_seq() == old(self).active_seq().remove(i)
                },
            !contains_id(old(self).active_seq(), id) ==> r == TaskCompleteResult::TaskWasCancelled
                && *final(self) == *old(self),
    {
        let len = self.active_tasks.len();
        let mut i: usize = 0;
        while i < len
            invariant
                i <= len,
                len == self.active_tasks@.len(),
                *self == *old(self),
                old(self).wf(),
                forall|k: int| 0 <= k < i ==> (#[trigger] self.active_tasks@[k]).0 != id,
            decreases len - i,
        {
            if self.active_tasks[i].0 == id {
                proof {
                    assert(first_id_match(self.active_tasks@, id, i as int));
                }
                let ghost pre = self.active_tasks@;
                self.active_tasks.remove(i);
                proof {
                    assert forall|k: int|
                        0 <= k < self.active_tasks@.len() implies (#[trigger] self
                        .active_tasks@[k]).0 != id by {
                        if k < i {
                            assert(self.active_tasks@[k] == pre[k]);
                        } else {
                            assert(self.active_tasks@[k] == pre[k + 1]);
                        }
                    };
                }
                return TaskCompleteResult::Success;
            }
            i = i + 1;
        }
        TaskCompleteResult::TaskWasCancelled
    }

    /// Totals of active directory listings and image preloads, for status
    /// display.
    pub fn get_task_counts(&self) -> (r: (usize, usize))
        ensures
            r.0 == count_ls_dir_tasks(self.active_seq()),
            r.1 == count_preload_tasks(self.active_seq()),
    {
        let mut ls_dir_count: usize = 0;
        let mut preload_count: usize = 0;
        let len = self.active_tasks.len();
        let mut i: usize = 0;
        while i < len
            invariant
                i <= len,
                len == self.active_tasks@.len(),
                ls_dir_count <= i,
                preload_count <= i,
                ls_dir_count == count_tasks_to(
                    self.active_tasks@,
                    |t: TaskType| t is LsDir,
                    i as int,
                ),
                preload_count == count_tasks_to(
                    self.active_tasks@,
                    |t: TaskType| t is PreloadImage,
                    i as int,
                ),
            decreases len - i,
        {
            match self.active_tasks[i].1 {
                TaskType::LsDir => {
                    ls_dir_count = ls_dir_count + 1;
                },
                TaskType::PreloadImage => {
                    preload_count = preload_count + 1;
                },
                TaskType::MoveThenLs => {},
            }
            i = i + 1;
        }
        (ls_dir_count, preload_count)
    }

    /// Loading status text for display, exactly `loading_text_spec` of the
    /// active task totals.
    pub fn get_loading_text(&self) -> (r: String)
        ensures
            r@ == loading_text_spec(
                count_ls_dir_tasks(self.active_seq()),
                count_preload_tasks(self.active_seq()),
            ),
    {
        let (ls_dir_count, preload_count) = self.get_task_counts();
        if ls_dir_count > 0 && preload_count > 0 {
            let mut s = String::from_str("Loading directory, ");
            let digits = usize_to_string(preload_count);
            s.append(digits.as_str());
            s.append(" images preloading...");
            proof {
                assert(s@ =~= loading_text_spec(
                    count_ls_dir_tasks(self.active_seq()),
                    count_preload_tasks(self.active_seq()),
                ));
            }
            s
        } else if ls_dir_count > 0 {
            String::from_str("Loading directory...")
        } else if preload_count > 0 {
            let mut s = String::from_str("Loading ");
            let digits = usize_to_string(preload_count);
            s.append(digits.as_str());
            s.append(" images...");
            proof {
                assert(s@ =~= loading_text_spec(
                    count_ls_dir_tasks(self.active_seq()),
                    count_preload_tasks(self.active_seq()),
                ));
            }
            s
        } else {
            String::new()
        }
    }

    /// The handle the next started task would receive; lets a caller check
    /// that the handle space is not exhausted before starting a task.
    pub fn next_handle(&self) -> (r: u64)
        ensures
            r == self.spec_next_id(),
    {
        self.next_id
    }

    pub fn is_loading(&self) -> (r: bool)
        ensures
            r == (self.active_seq().len() > 0),
    {
        self.active_tasks.len() > 0
    }
}

} // verus!
