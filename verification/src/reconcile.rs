use vstd::prelude::*;

use crate::pathlist::{
    count_loading, first_path_match, first_str_match, initial_from, initial_to, loaded_applied,
    schedule_rel, spec_tag_of, PathList,
};
use crate::task_manager::{contains_id, TaskCompleteResult, TaskId, TaskManager, TaskType};
use crate::{Config, ImageData, PRELOAD_IN_FLIGHT};

verus! {

/// How reacting to a fresh directory listing relates the list before (`pre`)
/// and after (`post`): one entry per new path, every tag carried over by
/// path, the position moved to the previously current path (or the start
/// when it is gone), and the initial preload window — whose paths are
/// `targets` — marked as loading while everything else is cold.
pub open spec fn reconciled(
    pre: PathList,
    post: PathList,
    new_paths: Seq<String>,
    targets: Seq<String>,
) -> bool {
    let from = initial_from(post.index as int, pre.preload_back_num as int);
    let to = initial_to(
        from,
        post.index as int,
        pre.preload_front_num as int,
        new_paths.len() as int,
    );
    &&& post.wf()
    &&& post.preload_back_num == pre.preload_back_num
    &&& post.preload_front_num == pre.preload_front_num
    &&& post.paths@.len() == new_paths.len()
    &&& forall|i: int|
        0 <= i < new_paths.len() ==> {
            &&& (#[trigger] post.paths@[i]).path == new_paths[i]
            &&& post.paths@[i].metadata.tag == spec_tag_of(pre.paths@, new_paths[i]@)
        }
    &&& pre.paths@.len() == 0 ==> post.index == 0
    &&& pre.paths@.len() > 0 ==> {
        let cur = pre.paths@[pre.index as int].path@;
        if exists|k: int| 0 <= k < new_paths.len() && (#[trigger] new_paths[k])@ == cur {
            first_str_match(new_paths, cur, post.index as int)
        } else {
            post.index == 0
        }
    }
    &&& targets.len() == to - from
    &&& forall|k: int| 0 <= k < to - from ==> (#[trigger] targets[k]) == new_paths[from + k]
    &&& forall|i: int| from <= i < to ==> (#[trigger] post.paths@[i]).data is Loading
    &&& forall|i: int|
        0 <= i < new_paths.len() && !(from <= i < to) ==> (#[trigger] post.paths@[i]).data
            is NotLoading
    &&& count_loading(post.paths@) <= PRELOAD_IN_FLIGHT
}

/// Applies a decode completion only if its task is still tracked. A stale or
/// cancelled completion is discarded whole: the list keeps its state, so a
/// result from an old list generation can never overwrite an entry of the
/// new one. Applying the same completion a second time is therefore a no-op.
pub fn handle_preload_completion(
    pathlist: &mut PathList,
    tasks: &mut TaskManager,
    task_id: TaskId,
    path: &str,
    image: ImageData,
    thumb: ImageData,
    config: &Config,
) -> (r: Option<String>)
    requires
        old(pathlist).wf(),
        old(tasks).wf(),
    ensures
        final(pathlist).wf(),
        final(tasks).wf(),
        !contains_id(final(tasks).active_seq(), task_id),
        final(tasks).spec_next_id() == old(tasks).spec_next_id(),
        !contains_id(old(tasks).active_seq(), task_id) ==> *final(pathlist) == *old(pathlist)
            && r is None && *final(tasks) == *old(tasks),
        contains_id(old(tasks).active_seq(), task_id) ==> {
            &&& final(pathlist).index == old(pathlist).index
            &&& final(pathlist).preload_back_num == old(pathlist).preload_back_num
            &&& final(pathlist).preload_front_num == old(pathlist).preload_front_num
            &&& ({
                let curr = old(pathlist).index as int;
                let back = config.preload_back_num as int;
                let front = config.preload_front_num as int;
                if exists|j: int| first_path_match(old(pathlist).paths@, path@, j) {
                    exists|j: int|
                        {
                            &&& #[trigger] first_path_match(old(pathlist).paths@, path@, j)
                            &&& schedule_rel(
                                loaded_applied(old(pathlist).paths@, j, image, thumb),
                                final(pathlist).paths@,
                                r,
                                curr,
                                back,
                                front,
                            )
                        }
                } else {
                    schedule_rel(
                        old(pathlist).paths@,
                        final(pathlist).paths@,
                        r,
                        curr,
                        back,
                        front,
                    )
                }
            })
        },
{
    let outcome = tasks.report_completed_task(task_id);
    match outcome {
        TaskCompleteResult::TaskWasCancelled => None,
        TaskCompleteResult::Success => pathlist.image_preload_complete(
            path,
            image,
            thumb,
            config,
        ),
    }
}

/// Reacts to a fresh directory listing: cancels every in-flight task,
/// rebuilds the list (keeping tags and the current path where possible) and
/// issues the initial preload requests for the new window.
pub fn reconcile_listing(
    pathlist: &mut PathList,
    tasks: &mut TaskManager,
    new_paths: Vec<String>,
) -> (r: Vec<String>)
    requires
        old(pathlist).wf(),
        old(tasks).wf(),
    ensures
        final(tasks).wf(),
        final(tasks).active_seq() == Seq::<(TaskId, TaskType)>::empty(),
        final(tasks).spec_next_id() == old(tasks).spec_next_id(),
        reconciled(*old(pathlist), *final(pathlist), new_paths@, r@),
{
    tasks.cancel_all();
    let rebuilt = pathlist.rebuild(new_paths);
    *pathlist = rebuilt;
    let ghost mid = *pathlist;
    let targets = pathlist.get_initial_preload_images();
    proof {
        let from = initial_from(mid.index as int, mid.preload_back_num as int);
        let to = initial_to(
            from,
            mid.index as int,
            mid.preload_front_num as int,
            mid.paths@.len() as int,
        );
        assert forall|k: int| 0 <= k < to - from implies #[trigger] targets@[k] == mid.paths@[
            from + k
        ].path by {
            assert(targets@[k] == mid.paths@[from + k].path);
        };
        assert forall|i: int|
            0 <= i < mid.paths@.len() && !(from <= i < to) implies (#[trigger] pathlist
            .paths@[i]).data is NotLoading by {
            assert(pathlist.paths@[i] == mid.paths@[i]);
        };
    }
    targets
}

/// Gates a finished directory listing through the registry, as every
/// completion must be gated: a listing whose task was cancelled is discarded
/// whole, and a live one supersedes the current list generation — all
/// in-flight work is cancelled and the list is rebuilt around the fresh
/// paths. Returns the initial preload targets of the new window, or `None`
/// for a discarded listing.
pub fn handle_listing_completion(
    pathlist: &mut PathList,
    tasks: &mut TaskManager,
    task_id: TaskId,
    new_paths: Vec<String>,
) -> (r: Option<Vec<String>>)
    requires
        old(pathlist).wf(),
        old(tasks).wf(),
    ensures
        final(pathlist).wf(),
        final(tasks).wf(),
        !contains_id(old(tasks).active_seq(), task_id) ==> r is None && *final(pathlist) == *old(
            pathlist,
        ) && *final(tasks) == *old(tasks),
        contains_id(old(tasks).active_seq(), task_id) ==> {
            &&& (r matches Some(targets) && reconciled(
                *old(pathlist),
                *final(pathlist),
                new_paths@,
                targets@,
            ))
            &&& final(tasks).active_seq() == Seq::<(TaskId, TaskType)>::empty()
            &&& final(tasks).spec_next_id() == old(tasks).spec_next_id()
        },
{
    match tasks.report_completed_task(task_id) {
        TaskCompleteResult::TaskWasCancelled => None,
        TaskCompleteResult::Success => Some(reconcile_listing(pathlist, tasks, new_paths)),
    }
}

} // verus!
