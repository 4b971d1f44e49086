use imgsort::pathlist::{
    is_loaded, is_loading, is_not_loading, schedule_next_preload_image_after_one_finished,
    PathList,
};
use imgsort::reconcile::{
    handle_listing_completion, handle_preload_completion, reconcile_listing,
};
use imgsort::sorting::Tag;
use imgsort::task_manager::{TaskManager, TaskType};
use imgsort::{Config, ImageData, PreloadImage, PRELOAD_IN_FLIGHT};

fn list_of(n: usize) -> Vec<String> {
    (0..n).map(|i| format!("p{}.jpg", i)).collect()
}

fn small_config() -> Config {
    Config {
        preload_back_num: 1,
        preload_front_num: 2,
        scale_down_size: (800, 100),
    }
}

fn pixels() -> ImageData {
    ImageData {
        width: 1,
        height: 1,
        data: vec![0, 0, 0, 255],
    }
}

fn loading_count(pathlist: &PathList) -> usize {
    pathlist.get_counts().loading
}

#[test]
fn scenario_initial_window_of_six() {
    // 6 paths, one back, two forward: the fresh window is the first three.
    let mut pathlist = PathList::new(list_of(6), 1, 2);
    let preload = pathlist.get_initial_preload_images();
    assert_eq!(preload, vec!["p0.jpg", "p1.jpg", "p2.jpg"]);
    let counts = pathlist.get_counts();
    assert_eq!(counts.loading, 3);
    assert_eq!(counts.not_loading, 3);
    for i in 0..3 {
        assert!(is_loading(&pathlist.paths[i]));
    }
    for i in 3..6 {
        assert!(is_not_loading(&pathlist.paths[i]));
    }
}

#[test]
fn scenario_completion_then_forward_step() {
    // After the initial window, completing an entry frees a slot and the
    // next forward step requests the entry just past the warm window.
    let config = small_config();
    let mut pathlist = PathList::new(list_of(6), 1, 2);
    let _ = pathlist.get_initial_preload_images();

    let next = pathlist.image_preload_complete("p1.jpg", pixels(), pixels(), &config);
    assert_eq!(next, None); // window around index 0 is fully warm
    assert!(is_loaded(&pathlist.paths[1]));

    let issued = pathlist.step_right(&config);
    assert_eq!(pathlist.index, 1);
    assert_eq!(issued, Some("p3.jpg".to_string()));
    assert!(matches!(pathlist.paths[3].data, PreloadImage::Loading(_)));
}

#[test]
fn scenario_forward_stops_at_last_index() {
    // Five steps reach the end of a six-entry list; the sixth is a no-op.
    let config = small_config();
    let mut pathlist = PathList::new(list_of(6), 1, 2);
    for _ in 0..5 {
        let _ = pathlist.step_right(&config);
    }
    assert_eq!(pathlist.index, 5);
    let r = pathlist.step_right(&config);
    assert_eq!(r, None);
    assert_eq!(pathlist.index, 5);
}

#[test]
fn scenario_rebuild_without_current_path() {
    // When the previously current path vanishes, the position resets to 0.
    let config = small_config();
    let mut pathlist = PathList::new(list_of(3), 1, 2);
    let _ = pathlist.step_right(&config);
    assert_eq!(pathlist.current().path, "p1.jpg");

    let rebuilt = pathlist.rebuild(vec!["q0.jpg".to_string(), "q1.jpg".to_string()]);
    assert_eq!(rebuilt.index, 0);
    assert_eq!(rebuilt.current().path, "q0.jpg");
}

#[test]
fn rebuild_keeps_current_path_and_tags() {
    let config = small_config();
    let mut pathlist = PathList::new(list_of(4), 1, 2);
    let _ = pathlist.step_right(&config);
    pathlist.current_mut().metadata.tag = Some(Tag::Tag3);
    assert_eq!(pathlist.current().path, "p1.jpg");

    // New listing: p0 was moved away, a new file appeared in front.
    let new_paths: Vec<String> = vec!["new.jpg", "p1.jpg", "p2.jpg", "p3.jpg"]
        .into_iter()
        .map(|s| s.to_string())
        .collect();
    let rebuilt = pathlist.rebuild(new_paths);
    assert_eq!(rebuilt.index, 1);
    assert_eq!(rebuilt.current().path, "p1.jpg");
    assert_eq!(rebuilt.tag_of("p1.jpg"), Some(Tag::Tag3));
    assert_eq!(rebuilt.tag_of("new.jpg"), None);
    // Every entry of a rebuilt list starts cold.
    assert_eq!(rebuilt.get_counts().not_loading, 4);
}

#[test]
fn loading_never_exceeds_in_flight_cap() {
    // A long march through a large list keeps the in-flight count bounded.
    let config = Config {
        preload_back_num: 10,
        preload_front_num: 30,
        scale_down_size: (800, 100),
    };
    let mut pathlist = PathList::new(list_of(100), 10, 30);
    let initial = pathlist.get_initial_preload_images();
    assert_eq!(initial.len(), PRELOAD_IN_FLIGHT);
    assert!(loading_count(&pathlist) <= PRELOAD_IN_FLIGHT);
    for _ in 0..99 {
        let _ = pathlist.step_right(&config);
        assert!(loading_count(&pathlist) <= PRELOAD_IN_FLIGHT);
    }
    for _ in 0..99 {
        let _ = pathlist.step_left(&config);
        assert!(loading_count(&pathlist) <= PRELOAD_IN_FLIGHT);
    }
}

#[test]
fn loaded_entries_survive_navigation() {
    // No navigation or scheduling demotes a loaded entry.
    let config = small_config();
    let mut pathlist = PathList::new(list_of(6), 1, 2);
    let _ = pathlist.get_initial_preload_images();
    let _ = pathlist.image_preload_complete("p0.jpg", pixels(), pixels(), &config);
    assert!(matches!(pathlist.paths[0].data, PreloadImage::Loaded(_)));

    let _ = pathlist.step_right(&config);
    let _ = pathlist.step_right(&config);
    let _ = pathlist.step_left(&config);
    let _ = schedule_next_preload_image_after_one_finished(&mut pathlist, &config);
    assert!(matches!(pathlist.paths[0].data, PreloadImage::Loaded(_)));
}

#[test]
fn boundary_steps_change_nothing() {
    let config = small_config();
    let mut pathlist = PathList::new(list_of(3), 1, 2);

    // Backward at index 0.
    let r = pathlist.step_left(&config);
    assert_eq!(r, None);
    assert_eq!(pathlist.index, 0);
    assert_eq!(pathlist.get_counts().not_loading, 3);

    // Forward at the last index.
    pathlist.index = 2;
    let r = pathlist.step_right(&config);
    assert_eq!(r, None);
    assert_eq!(pathlist.index, 2);
    assert_eq!(pathlist.get_counts().not_loading, 3);

    // Both on an empty list.
    let mut empty = PathList::new(Vec::new(), 1, 2);
    assert_eq!(empty.step_right(&config), None);
    assert_eq!(empty.step_left(&config), None);
    assert_eq!(empty.index, 0);
}

#[test]
fn step_left_preloads_behind_the_window() {
    let config = Config {
        preload_back_num: 2,
        preload_front_num: 3,
        scale_down_size: (800, 100),
    };
    let mut pathlist = PathList::new(list_of(10), 2, 3);
    pathlist.index = 5;
    let r = pathlist.step_left(&config);
    assert_eq!(pathlist.index, 4);
    assert_eq!(r, Some("p2.jpg".to_string()));
    assert!(matches!(pathlist.paths[2].data, PreloadImage::Loading(_)));
}

#[test]
fn failed_entry_leaves_the_budget_and_is_not_retried() {
    let config = small_config();
    let mut pathlist = PathList::new(list_of(3), 1, 2);
    let _ = pathlist.get_initial_preload_images();
    assert_eq!(pathlist.get_counts().loading, 3);

    pathlist.image_preload_failed("p1.jpg");
    let counts = pathlist.get_counts();
    assert_eq!(counts.loading, 2);
    assert_eq!(counts.failed, 1);

    // The failed entry is not rescheduled.
    let next = schedule_next_preload_image_after_one_finished(&mut pathlist, &config);
    assert_eq!(next, None);
    assert!(matches!(pathlist.paths[1].data, PreloadImage::Failed));
}

#[test]
fn stale_completion_is_discarded() {
    // A completion whose handle is no longer tracked must not touch the list:
    // applying the same completion twice leaves the first application's state.
    let config = small_config();
    let mut pathlist = PathList::new(list_of(3), 1, 2);
    let _ = pathlist.get_initial_preload_images();
    let mut tasks = TaskManager::new();
    let id = tasks.start_task(TaskType::PreloadImage);

    let first = handle_preload_completion(
        &mut pathlist,
        &mut tasks,
        id,
        "p1.jpg",
        pixels(),
        pixels(),
        &config,
    );
    assert_eq!(first, None);
    assert!(matches!(pathlist.paths[1].data, PreloadImage::Loaded(_)));
    let counts_after_first = pathlist.get_counts();

    let second = handle_preload_completion(
        &mut pathlist,
        &mut tasks,
        id,
        "p1.jpg",
        pixels(),
        pixels(),
        &config,
    );
    assert_eq!(second, None);
    assert!(matches!(pathlist.paths[1].data, PreloadImage::Loaded(_)));
    let counts_after_second = pathlist.get_counts();
    assert_eq!(counts_after_first.loaded, counts_after_second.loaded);
    assert_eq!(counts_after_first.loading, counts_after_second.loading);
    assert_eq!(counts_after_first.not_loading, counts_after_second.not_loading);
}

#[test]
fn completion_after_rebuild_cannot_corrupt_new_list() {
    // The old generation's decode completes after a rescan: the registry was
    // cleared, so the payload is dropped and the new list stays cold.
    let config = small_config();
    let mut pathlist = PathList::new(list_of(3), 1, 2);
    let _ = pathlist.get_initial_preload_images();
    let mut tasks = TaskManager::new();
    let id = tasks.start_task(TaskType::PreloadImage);

    let targets = reconcile_listing(&mut pathlist, &mut tasks, list_of(3));
    assert_eq!(targets, vec!["p0.jpg", "p1.jpg", "p2.jpg"]);
    assert!(!tasks.is_loading());
    // The rebuilt list marked its own window; the initial window is warm.
    assert_eq!(pathlist.get_counts().loading, 3);

    let mut pathlist2 = PathList::new(list_of(3), 1, 2);
    let mut tasks2 = TaskManager::new();
    let stale = tasks2.start_task(TaskType::PreloadImage);
    let _ = reconcile_listing(&mut pathlist2, &mut tasks2, list_of(3));
    let r = handle_preload_completion(
        &mut pathlist2,
        &mut tasks2,
        stale,
        "p0.jpg",
        pixels(),
        pixels(),
        &config,
    );
    assert_eq!(r, None);
    assert_eq!(pathlist2.get_counts().loaded, 0);
}

#[test]
fn stale_listing_is_discarded_and_live_listing_supersedes() {
    let mut pathlist = PathList::new(list_of(2), 1, 2);
    let mut tasks = TaskManager::new();

    // A listing whose task was cancelled must not replace the list.
    let stale = tasks.start_task(TaskType::LsDir);
    tasks.cancel_all();
    let r = handle_listing_completion(&mut pathlist, &mut tasks, stale, list_of(5));
    assert!(r.is_none());
    assert_eq!(pathlist.paths.len(), 2);

    // A live listing replaces the list and cancels everything in flight.
    let live = tasks.start_task(TaskType::LsDir);
    let decode = tasks.start_task(TaskType::PreloadImage);
    let r = handle_listing_completion(&mut pathlist, &mut tasks, live, list_of(5));
    assert_eq!(r.unwrap(), vec!["p0.jpg", "p1.jpg", "p2.jpg"]);
    assert_eq!(pathlist.paths.len(), 5);
    assert!(!tasks.is_loading());
    assert_eq!(
        tasks.report_completed_task(decode),
        imgsort::task_manager::TaskCompleteResult::TaskWasCancelled
    );
}

#[test]
fn reconcile_preserves_tags_and_position() {
    let config = small_config();
    let mut pathlist = PathList::new(list_of(5), 1, 2);
    let _ = pathlist.step_right(&config);
    pathlist.current_mut().metadata.tag = Some(Tag::Tag1);
    let mut tasks = TaskManager::new();

    let new_paths: Vec<String> = vec!["p1.jpg", "p3.jpg", "p4.jpg"]
        .into_iter()
        .map(|s| s.to_string())
        .collect();
    let targets = reconcile_listing(&mut pathlist, &mut tasks, new_paths);
    assert_eq!(pathlist.index, 0);
    assert_eq!(pathlist.current().path, "p1.jpg");
    assert_eq!(pathlist.tag_of("p1.jpg"), Some(Tag::Tag1));
    assert_eq!(targets, vec!["p1.jpg", "p3.jpg", "p4.jpg"]);
}

#[test]
fn chained_prefetch_follows_interleaved_order() {
    // The scan alternates around the current entry: it probes 2, 1, 3, 0, 4.
    let config = Config {
        preload_back_num: 10,
        preload_front_num: 30,
        scale_down_size: (800, 100),
    };
    let mut pathlist = PathList::new(list_of(6), 10, 30);
    pathlist.index = 2;
    for i in 0..6 {
        let p = pathlist.paths[i].path.clone();
        pathlist.paths[i].data = PreloadImage::Loading(p);
    }

    // Cold entries one step away on both sides: the backward one is probed
    // right after the current entry, before the forward one.
    pathlist.paths[1].data = PreloadImage::NotLoading;
    pathlist.paths[3].data = PreloadImage::NotLoading;
    let next = schedule_next_preload_image_after_one_finished(&mut pathlist, &config);
    assert_eq!(next, Some("p1.jpg".to_string()));
    let next = schedule_next_preload_image_after_one_finished(&mut pathlist, &config);
    assert_eq!(next, Some("p3.jpg".to_string()));

    // A backward entry two steps away still precedes a forward entry two
    // steps away.
    pathlist.paths[0].data = PreloadImage::NotLoading;
    pathlist.paths[4].data = PreloadImage::NotLoading;
    let next = schedule_next_preload_image_after_one_finished(&mut pathlist, &config);
    assert_eq!(next, Some("p0.jpg".to_string()));
    let next = schedule_next_preload_image_after_one_finished(&mut pathlist, &config);
    assert_eq!(next, Some("p4.jpg".to_string()));
}

#[test]
fn chained_prefetch_stays_inside_the_window() {
    // Entries outside [curr - back, curr + front] are never issued.
    let config = Config {
        preload_back_num: 1,
        preload_front_num: 1,
        scale_down_size: (800, 100),
    };
    let mut pathlist = PathList::new(list_of(7), 1, 1);
    pathlist.index = 3;
    for i in [2usize, 3, 4] {
        let p = pathlist.paths[i].path.clone();
        pathlist.paths[i].data = PreloadImage::Loading(p);
    }
    // Only indices 0, 1, 5 and 6 are cold, and all lie outside the window.
    let next = schedule_next_preload_image_after_one_finished(&mut pathlist, &config);
    assert_eq!(next, None);
}
