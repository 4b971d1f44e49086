use imgsort::image_widget::PixelCanvas;
use imgsort::pathlist::PathList;
use imgsort::sorting::preload_list_status_string_pathlist;
use imgsort::numtext::{parse_usize, usize_to_string};
use imgsort::settings::{SettingsFieldName, SettingsMessage, SettingsModel};
use imgsort::sorting::{keybind_char_to_tag, Tag, TagNames};
use imgsort::task_manager::{TaskCompleteResult, TaskManager, TaskType};
use imgsort::{Config, ImageData, SortingViewStyle};

fn test_config() -> Config {
    Config {
        preload_back_num: 10,
        preload_front_num: 30,
        scale_down_size: (800, 100),
    }
}

#[test]
fn task_manager_tracks_and_forgets_handles() {
    let mut tasks = TaskManager::new();
    assert!(!tasks.is_loading());

    let a = tasks.start_task(TaskType::LsDir);
    let b = tasks.start_task(TaskType::PreloadImage);
    let c = tasks.start_task(TaskType::PreloadImage);
    assert!(tasks.is_loading());
    assert_ne!(a, b);
    assert_ne!(b, c);
    assert_eq!(tasks.get_task_counts(), (1, 2));

    assert_eq!(tasks.report_completed_task(b), TaskCompleteResult::Success);
    assert_eq!(tasks.get_task_counts(), (1, 1));
    // The same handle a second time is a cancelled (stale) completion.
    assert_eq!(
        tasks.report_completed_task(b),
        TaskCompleteResult::TaskWasCancelled
    );
    assert_eq!(tasks.get_task_counts(), (1, 1));
}

#[test]
fn task_manager_cancel_all_clears_tracking() {
    let mut tasks = TaskManager::new();
    let a = tasks.start_task(TaskType::MoveThenLs);
    let b = tasks.start_task(TaskType::LsDir);
    tasks.cancel_all();
    assert!(!tasks.is_loading());
    assert_eq!(tasks.get_task_counts(), (0, 0));
    assert_eq!(
        tasks.report_completed_task(a),
        TaskCompleteResult::TaskWasCancelled
    );
    assert_eq!(
        tasks.report_completed_task(b),
        TaskCompleteResult::TaskWasCancelled
    );
    // Handles stay unique after a cancellation.
    let c = tasks.start_task(TaskType::LsDir);
    assert_ne!(a, c);
    assert_ne!(b, c);
}

#[test]
fn loading_text_describes_active_tasks() {
    let mut tasks = TaskManager::new();
    assert_eq!(tasks.get_loading_text(), "");
    let ls = tasks.start_task(TaskType::LsDir);
    assert_eq!(tasks.get_loading_text(), "Loading directory...");
    let _ = tasks.start_task(TaskType::PreloadImage);
    let _ = tasks.start_task(TaskType::PreloadImage);
    assert_eq!(
        tasks.get_loading_text(),
        "Loading directory, 2 images preloading..."
    );
    assert_eq!(tasks.report_completed_task(ls), TaskCompleteResult::Success);
    assert_eq!(tasks.get_loading_text(), "Loading 2 images...");
}

#[test]
fn status_line_reports_counts() {
    let mut tasks = TaskManager::new();
    let paths: Vec<String> = (0..6).map(|i| format!("s{}.jpg", i)).collect();
    let mut pathlist = PathList::new(paths, 1, 2);
    assert_eq!(
        preload_list_status_string_pathlist(&pathlist, &tasks),
        "Loaded: 0/6, Not loading: 6"
    );

    let targets = pathlist.get_initial_preload_images();
    for _ in &targets {
        let _ = tasks.start_task(TaskType::PreloadImage);
    }
    assert_eq!(
        preload_list_status_string_pathlist(&pathlist, &tasks),
        "Loaded: 0/6, Loading: 3, Not loading: 3, In flight: 3"
    );

    pathlist.image_preload_failed("s2.jpg");
    assert_eq!(
        preload_list_status_string_pathlist(&pathlist, &tasks),
        "Loaded: 0/6, Loading: 2, Not loading: 3, Failed: 1, In flight: 3"
    );
}

#[test]
fn parse_usize_accepts_exactly_digit_strings() {
    assert_eq!(parse_usize("0"), Some(0));
    assert_eq!(parse_usize("123"), Some(123));
    assert_eq!(parse_usize("000123"), Some(123));
    assert_eq!(parse_usize(""), None);
    assert_eq!(parse_usize("12a"), None);
    assert_eq!(parse_usize("-5"), None);
    assert_eq!(parse_usize(" 5"), None);
    assert_eq!(parse_usize("99999999999999999999999999"), None);
}

#[test]
fn usize_to_string_renders_decimal() {
    assert_eq!(usize_to_string(0), "0");
    assert_eq!(usize_to_string(7), "7");
    assert_eq!(usize_to_string(800), "800");
    assert_eq!(usize_to_string(10230), "10230");
}

#[test]
fn decimal_text_round_trip() {
    for n in [0usize, 1, 9, 10, 99, 100, 12345, 4294967295] {
        assert_eq!(parse_usize(usize_to_string(n).as_str()), Some(n));
    }
}

#[test]
fn settings_form_shows_config_values() {
    let config = test_config();
    let settings = SettingsModel::new(&config);
    assert_eq!(settings.preload_back_num.0, "10");
    assert_eq!(settings.preload_front_num.0, "30");
    assert_eq!(settings.scale_down_width.0, "800");
    assert_eq!(settings.scale_down_height.0, "100");
    assert_eq!(settings.tag1_shortcut.0, "a");
    assert_eq!(settings.view_style.0, "Thumbnails Above");
    assert_eq!(settings.preload_back_num.1, "");
}

#[test]
fn settings_save_applies_valid_fields() {
    let mut config = test_config();
    let mut settings = SettingsModel::new(&config);
    settings.update(
        SettingsMessage::UserUpdatedField(SettingsFieldName::PreloadBackNum, "5".to_string()),
        &mut config,
    );
    settings.update(
        SettingsMessage::UserUpdatedField(
            SettingsFieldName::ScaleDownSizeWidth,
            "1024".to_string(),
        ),
        &mut config,
    );
    // Editing alone changes nothing.
    assert_eq!(config.preload_back_num, 10);
    settings.update(SettingsMessage::Save, &mut config);
    assert_eq!(config.preload_back_num, 5);
    assert_eq!(config.preload_front_num, 30);
    assert_eq!(config.scale_down_size, (1024, 100));
    assert_eq!(settings.preload_back_num.1, "");
}

#[test]
fn settings_save_rejects_invalid_fields() {
    let mut config = test_config();
    let mut settings = SettingsModel::new(&config);
    settings.update(
        SettingsMessage::UserUpdatedField(SettingsFieldName::PreloadFrontNum, "abc".to_string()),
        &mut config,
    );
    settings.update(
        SettingsMessage::UserUpdatedField(SettingsFieldName::ScaleDownSizeHeight, "5000000000".to_string()),
        &mut config,
    );
    settings.update(
        SettingsMessage::UserUpdatedField(SettingsFieldName::ViewStyle, "Sideways".to_string()),
        &mut config,
    );
    settings.update(SettingsMessage::Save, &mut config);
    assert_eq!(config.preload_front_num, 30);
    assert_eq!(config.scale_down_size.1, 100);
    assert_eq!(settings.preload_front_num.1, "Invalid number");
    assert_eq!(settings.scale_down_height.1, "Invalid number");
    assert_eq!(settings.view_style.1, "Invalid view style");
    // The texts themselves are kept for the user to correct.
    assert_eq!(settings.preload_front_num.0, "abc");
}

#[test]
fn settings_selected_view_style() {
    let mut config = test_config();
    let mut settings = SettingsModel::new(&config);
    assert_eq!(
        settings.selected_view_style(),
        Some(SortingViewStyle::ThumbsAbove)
    );
    settings.update(
        SettingsMessage::UserUpdatedField(
            SettingsFieldName::ViewStyle,
            "No Thumbnails".to_string(),
        ),
        &mut config,
    );
    assert_eq!(
        settings.selected_view_style(),
        Some(SortingViewStyle::NoThumbnails)
    );
}

#[test]
fn tag_names_defaults_and_update() {
    let mut names = TagNames::new();
    assert_eq!(names.get(&Tag::Tag1), "Red");
    assert_eq!(names.get(&Tag::Tag7), "Gray");
    names.update(Tag::Tag2, "Keep".to_string());
    assert_eq!(names.get(&Tag::Tag2), "Keep");
    assert_eq!(names.get(&Tag::Tag3), "Yellow");
}

#[test]
fn keybinds_map_to_tags() {
    assert_eq!(keybind_char_to_tag("a"), Some(Tag::Tag1));
    assert_eq!(keybind_char_to_tag("o"), Some(Tag::Tag2));
    assert_eq!(keybind_char_to_tag("e"), Some(Tag::Tag3));
    assert_eq!(keybind_char_to_tag("u"), Some(Tag::Tag4));
    assert_eq!(keybind_char_to_tag("p"), None);
    assert_eq!(keybind_char_to_tag("x"), None);
    assert_eq!(keybind_char_to_tag(""), None);
    assert_eq!(keybind_char_to_tag("aa"), None);
}

#[test]
fn view_style_names_round_trip() {
    assert_eq!(SortingViewStyle::all_variants().len(), 2);
    for style in SortingViewStyle::all_variants() {
        assert_eq!(
            SortingViewStyle::from_display_name(style.display_name()),
            Some(style.clone())
        );
    }
    assert_eq!(SortingViewStyle::from_display_name("Mosaic"), None);
}

#[test]
fn pixel_canvas_carries_its_image() {
    let image = ImageData {
        width: 2,
        height: 1,
        data: vec![1, 2, 3, 4, 5, 6, 7, 8],
    };
    let canvas = PixelCanvas::new(Some(&image), true);
    assert!(canvas.send_resize_messages);
    assert_eq!(canvas.image_data.unwrap().width, 2);
    let empty = PixelCanvas::new(None, false);
    assert!(empty.image_data.is_none());
}
